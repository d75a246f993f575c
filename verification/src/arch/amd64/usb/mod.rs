//! USB host controllers.

pub mod xhci;

use vstd::prelude::*;
use crate::inline::devices8;
use crate::pci::PciDevice;
use xhci::{init_xhci, plan_for, ControllerPlan};

verus! {

/// What is done with each of the USB controllers on the PCI bus.
pub fn init(controllers: &heapless::Vec<PciDevice, 8>) -> (r: Vec<ControllerPlan>)
    ensures
        r@ == devices8(*controllers).map_values(|d: PciDevice| plan_for(d)),
{
    init_xhci(controllers)
}

} // verus!
