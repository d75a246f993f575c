//! xHCI transfer request blocks.
//!
//! A TRB is a 16-byte structure; TRBs form rings: the command ring and the
//! transfer rings, which the driver writes, and the event rings, which the
//! controller writes.

use vstd::prelude::*;
use vstd::string::StringSliceAdditionalSpecFns;
use crate::bytes::{le64, read_le64};
use crate::serial::{hex_digits, write_hex_digits};

verus! {

/// Size of a TRB in bytes.
pub const TRB_SIZE: usize = 16;

/// TRB types.
#[derive(Debug, Clone, Copy, PartialEq, Eq, Structural)]
pub enum TrbType {
    /// Reserved.
    Reserved,
    /// Normal transfer.
    Normal,
    /// Setup stage of a control transfer.
    Setup,
    /// Data stage of a control transfer.
    Data,
    /// Status stage of a control transfer.
    Status,
    /// Isochronous transfer.
    Isoch,
    /// Link for ring wrapping.
    Link,
    /// Event data.
    EventData,
    /// No operation.
    NoOp,
    /// Enable slot command.
    EnableSlot,
    /// Disable slot command.
    DisableSlot,
    /// Address device command.
    AddressDevice,
    /// Configure endpoint command.
    ConfigureEndpoint,
    /// Evaluate context command.
    EvaluateContext,
    /// Reset endpoint command.
    ResetEndpoint,
    /// Stop endpoint command.
    StopEndpoint,
    /// Set dequeue pointer command.
    SetTrDequeue,
    /// Reset device command.
    ResetDevice,
    /// Force event command.
    ForceEvent,
    /// Negotiate bandwidth command.
    NegotiateBandwidth,
    /// Set latency tolerance command.
    SetLatencyTolerance,
    /// Set port ownership.
    SetPortBio,
    /// Clear feature command.
    ClearFeature,
    /// Transfer event.
    TransferEvent,
    /// Command completion event.
    CommandCompletion,
    /// Port status change event.
    PortStatusChange,
    /// Bandwidth request event.
    BandwidthRequest,
    /// Doorbell event.
    Doorbell,
    /// Host controller event.
    HostController,
    /// Device notification.
    DeviceNotification,
    /// Microframe index wrap event.
    MfindexWrap,
}

impl TrbType {
    /// The code of the type.
    pub open spec fn code(self) -> u8 {
        match self {
            TrbType::Reserved => 0,
            TrbType::Normal => 1,
            TrbType::Setup => 2,
            TrbType::Data => 3,
            TrbType::Status => 4,
            TrbType::Isoch => 5,
            TrbType::Link => 6,
            TrbType::EventData => 7,
            TrbType::NoOp => 8,
            TrbType::EnableSlot => 9,
            TrbType::DisableSlot => 10,
            TrbType::AddressDevice => 11,
            TrbType::ConfigureEndpoint => 12,
            TrbType::EvaluateContext => 13,
            TrbType::ResetEndpoint => 14,
            TrbType::StopEndpoint => 15,
            TrbType::SetTrDequeue => 16,
            TrbType::ResetDevice => 17,
            TrbType::ForceEvent => 18,
            TrbType::NegotiateBandwidth => 19,
            TrbType::SetLatencyTolerance => 20,
            TrbType::SetPortBio => 21,
            TrbType::ClearFeature => 22,
            TrbType::TransferEvent => 32,
            TrbType::CommandCompletion => 33,
            TrbType::PortStatusChange => 34,
            TrbType::BandwidthRequest => 35,
            TrbType::Doorbell => 36,
            TrbType::HostController => 37,
            TrbType::DeviceNotification => 38,
            TrbType::MfindexWrap => 39,
        }
    }

    /// The code of the type.
    pub fn value(self) -> (r: u8)
        ensures
            r == self.code(),
            r < 64,
    {
        match self {
            TrbType::Reserved => 0,
            TrbType::Normal => 1,
            TrbType::Setup => 2,
            TrbType::Data => 3,
            TrbType::Status => 4,
            TrbType::Isoch => 5,
            TrbType::Link => 6,
            TrbType::EventData => 7,
            TrbType::NoOp => 8,
            TrbType::EnableSlot => 9,
            TrbType::DisableSlot => 10,
            TrbType::AddressDevice => 11,
            TrbType::ConfigureEndpoint => 12,
            TrbType::EvaluateContext => 13,
            TrbType::ResetEndpoint => 14,
            TrbType::StopEndpoint => 15,
            TrbType::SetTrDequeue => 16,
            TrbType::ResetDevice => 17,
            TrbType::ForceEvent => 18,
            TrbType::NegotiateBandwidth => 19,
            TrbType::SetLatencyTolerance => 20,
            TrbType::SetPortBio => 21,
            TrbType::ClearFeature => 22,
            TrbType::TransferEvent => 32,
            TrbType::CommandCompletion => 33,
            TrbType::PortStatusChange => 34,
            TrbType::BandwidthRequest => 35,
            TrbType::Doorbell => 36,
            TrbType::HostController => 37,
            TrbType::DeviceNotification => 38,
            TrbType::MfindexWrap => 39,
        }
    }

    /// The type with this code, if there is one.
    pub fn from_value(v: u8) -> (r: Option<Self>)
        ensures
            match r {
                Some(t) => t.code() == v,
                None => forall|t: TrbType| #[trigger] t.code() != v,
            },
    {
        match v {
            0 => Some(TrbType::Reserved),
            1 => Some(TrbType::Normal),
            2 => Some(TrbType::Setup),
            3 => Some(TrbType::Data),
            4 => Some(TrbType::Status),
            5 => Some(TrbType::Isoch),
            6 => Some(TrbType::Link),
            7 => Some(TrbType::EventData),
            8 => Some(TrbType::NoOp),
            9 => Some(TrbType::EnableSlot),
            10 => Some(TrbType::DisableSlot),
            11 => Some(TrbType::AddressDevice),
            12 => Some(TrbType::ConfigureEndpoint),
            13 => Some(TrbType::EvaluateContext),
            14 => Some(TrbType::ResetEndpoint),
            15 => Some(TrbType::StopEndpoint),
            16 => Some(TrbType::SetTrDequeue),
            17 => Some(TrbType::ResetDevice),
            18 => Some(TrbType::ForceEvent),
            19 => Some(TrbType::NegotiateBandwidth),
            20 => Some(TrbType::SetLatencyTolerance),
            21 => Some(TrbType::SetPortBio),
            22 => Some(TrbType::ClearFeature),
            32 => Some(TrbType::TransferEvent),
            33 => Some(TrbType::CommandCompletion),
            34 => Some(TrbType::PortStatusChange),
            35 => Some(TrbType::BandwidthRequest),
            36 => Some(TrbType::Doorbell),
            37 => Some(TrbType::HostController),
            38 => Some(TrbType::DeviceNotification),
            39 => Some(TrbType::MfindexWrap),
            _ => None,
        }
    }
}

/// Distinct types have distinct codes.
pub proof fn law_type_codes_are_distinct(a: TrbType, b: TrbType)
    requires
        a.code() == b.code(),
    ensures
        a == b,
{
}

/// A raw 16-byte TRB.
#[derive(Debug, Clone, Copy, PartialEq, Eq, Structural)]
pub struct Trb {
    /// Parameter.
    pub params: u64,
    /// Status, transfer length.
    pub status: u32,
    /// Type, cycle bit and other flags.
    pub control: u32,
}

impl Trb {
    /// The TRB in words.
    pub fn describe(&self) -> (r: Vec<u8>)
        ensures
            r@ == "TRB(params=0x".spec_bytes() + hex_digits(self.params as int, 16)
                + ", status=0x".spec_bytes() + hex_digits(self.status as int, 8)
                + ", ctrl=0x".spec_bytes() + hex_digits(self.control as int, 8) + ")".spec_bytes(),
    {
        let mut out: Vec<u8> = Vec::new();
        out.extend_from_slice("TRB(params=0x".as_bytes());
        write_hex_digits(&mut out, self.params, 16);
        out.extend_from_slice(", status=0x".as_bytes());
        write_hex_digits(&mut out, self.status as u64, 8);
        out.extend_from_slice(", ctrl=0x".as_bytes());
        write_hex_digits(&mut out, self.control as u64, 8);
        out.extend_from_slice(")".as_bytes());
        out
    }
}

/// Single bits and fields of TRB words.
proof fn lemma_trb_fields(c: u32, t: u32, rest: u32, x: u32)
    by (bit_vector)
    requires
        c <= 1,
        t < 64,
        rest & 0xFC01 == 0,
    ensures
        ((c | (t << 10) | rest) >> 10) & 0x3F == t,
        (c | (t << 10) | rest) & 1 == c,
        (x >> 10) & 0x3F == (x / 1024) % 64,
        x & 1 == x % 2,
        (x | 1) % 2 == 1,
        (x | 1) / 2 == x / 2,
        (x & !1u32) % 2 == 0,
        (x & !1u32) / 2 == x / 2,
        (x >> 24) & 0xFF == x / 0x100_0000,
        x & 0x1FFFF == x % 0x2_0000,
{
}

/// The bits beside type and cycle bit leave those alone.
proof fn lemma_rest_bits(trt: u8, len: u32)
    by (bit_vector)
    ensures
        (((trt as u32) << 16) | 0x40u32 | 0x10_0000u32) & 0xFC01u32 == 0,
        (0u32 | 0u32 | ((len & 0x1FFFFu32) << 17)) & 0xFC01u32 == 0,
        (0x10u32 | 0u32 | ((len & 0x1FFFFu32) << 17)) & 0xFC01u32 == 0,
        (0u32 | 4u32 | ((len & 0x1FFFFu32) << 17)) & 0xFC01u32 == 0,
        (0x10u32 | 4u32 | ((len & 0x1FFFFu32) << 17)) & 0xFC01u32 == 0,
        (0u32 | 0x20u32 | ((len & 0x1FFFFu32) << 17)) & 0xFC01u32 == 0,
        (0x10u32 | 0x20u32 | ((len & 0x1FFFFu32) << 17)) & 0xFC01u32 == 0,
        0x200u32 & 0xFC01u32 == 0,
        (0u32 | 0x20u32) & 0xFC01u32 == 0,
        (4u32 | 0x20u32) & 0xFC01u32 == 0,
        (0u32 | 0u32) & 0xFC01u32 == 0,
        (4u32 | 0u32) & 0xFC01u32 == 0,
        (0u32 | 0x10u32) & 0xFC01u32 == 0,
        (4u32 | 0x10u32) & 0xFC01u32 == 0,
        0u32 & 0xFC01u32 == 0,
{
}

/// The control word of a TRB: cycle bit, type, and the other flags.
pub open spec fn control_word(t: TrbType, cycle: bool, rest: u32) -> u32 {
    (if cycle { 1u32 } else { 0u32 }) | ((t.code() as u32) << 10) | rest
}

fn control(t: TrbType, cycle: bool, rest: u32) -> (r: u32)
    ensures
        r == control_word(t, cycle, rest),
{
    let c: u32 = if cycle { 1 } else { 0 };
    c | ((t.value() as u32) << 10) | rest
}

impl Trb {
    /// The code of the type that the control word names.
    pub open spec fn type_code(self) -> int {
        (self.control / 1024) as int % 64
    }

    /// The cycle bit of the control word.
    pub open spec fn cycle(self) -> bool {
        self.control % 2 == 1
    }

    /// A TRB with these words.
    pub fn new(params: u64, status: u32, control: u32) -> (r: Self)
        ensures
            r == (Trb { params, status, control }),
    {
        Trb { params, status, control }
    }

    /// A TRB of zeros.
    pub fn zero() -> (r: Self)
        ensures
            r == (Trb { params: 0, status: 0, control: 0 }),
    {
        Trb { params: 0, status: 0, control: 0 }
    }

    /// The type, if it is known.
    pub fn trb_type(&self) -> (r: Option<TrbType>)
        ensures
            match r {
                Some(t) => t.code() == self.type_code(),
                None => forall|t: TrbType| #[trigger] t.code() != self.type_code(),
            },
    {
        proof {
            assert(0u32 & 0xFC01 == 0) by {
                lemma_rest_bits(0, 0);
            }
            lemma_trb_fields(0, 0, 0, self.control);
        }
        TrbType::from_value(((self.control >> 10) & 0x3F) as u8)
    }

    /// The cycle bit.
    pub fn cycle_bit(&self) -> (r: bool)
        ensures
            r == self.cycle(),
    {
        proof {
            lemma_rest_bits(0, 0);
            lemma_trb_fields(0, 0, 0, self.control);
        }
        (self.control & 1) != 0
    }

    /// Sets the cycle bit, and nothing else.
    pub fn set_cycle_bit(&mut self, cycle: bool)
        ensures
            final(self).params == old(self).params,
            final(self).status == old(self).status,
            final(self).control / 2 == old(self).control / 2,
            final(self).cycle() == cycle,
            *final(self) == old(self).with_cycle(cycle),
    {
        proof {
            lemma_rest_bits(0, 0);
            lemma_trb_fields(0, 0, 0, self.control);
        }
        if cycle {
            self.control = self.control | 1;
        } else {
            self.control = self.control & !1u32;
        }
    }

    /// The same TRB with another cycle bit.
    pub open spec fn with_cycle(self, cycle: bool) -> Trb {
        Trb { control: (self.control / 2 * 2 + if cycle { 1int } else { 0int }) as u32, ..self }
    }

    /// The completion code of an event TRB.
    pub fn completion_code(&self) -> (r: u8)
        ensures
            r == self.status / 0x100_0000,
    {
        proof {
            lemma_rest_bits(0, 0);
            lemma_trb_fields(0, 0, 0, self.status);
        }
        ((self.status >> 24) & 0xFF) as u8
    }

    /// The transfer length of an event TRB.
    pub fn event_trb_length(&self) -> (r: u32)
        ensures
            r == self.status % 0x2_0000,
    {
        proof {
            lemma_rest_bits(0, 0);
            lemma_trb_fields(0, 0, 0, self.status);
        }
        self.status & 0x1FFFF
    }
}

/// A TRB with this type and cycle bit reads back as such.
proof fn lemma_control_word(t: TrbType, cycle: bool, rest: u32)
    requires
        rest & 0xFC01 == 0,
    ensures
        ({
            let c = control_word(t, cycle, rest);
            (c / 1024) as int % 64 == t.code() && (c % 2 == 1) == cycle
        }),
{
    let c: u32 = if cycle { 1 } else { 0 };
    lemma_trb_fields(c, t.code() as u32, rest, control_word(t, cycle, rest));
}

/// `r` is a TRB of this type, with this cycle bit, parameter and status.
pub open spec fn is_trb(r: Trb, t: TrbType, cycle: bool, params: u64, status: u32) -> bool {
    &&& r.params == params
    &&& r.status == status
    &&& r.type_code() == t.code()
    &&& r.cycle() == cycle
}

/// Builds a no-operation command.
pub fn make_noop(cycle: bool) -> (r: Trb)
    ensures
        is_trb(r, TrbType::NoOp, cycle, 0, 0),
        r.control == control_word(TrbType::NoOp, cycle, 0),
{
    proof {
        lemma_rest_bits(0, 0);
        lemma_control_word(TrbType::NoOp, cycle, 0);
    }
    Trb::new(0, 0, control(TrbType::NoOp, cycle, 0))
}

/// Builds an enable slot command.
pub fn make_enable_slot(cycle: bool) -> (r: Trb)
    ensures
        is_trb(r, TrbType::EnableSlot, cycle, 0, 0),
        r.control == control_word(TrbType::EnableSlot, cycle, 0),
{
    proof {
        lemma_rest_bits(0, 0);
        lemma_control_word(TrbType::EnableSlot, cycle, 0);
    }
    Trb::new(0, 0, control(TrbType::EnableSlot, cycle, 0))
}

/// The slot ID in its field.
pub open spec fn slot_field(slot_id: u8) -> u32 {
    (slot_id * 0x100_0000) as u32
}

/// Builds an address device command; bit 9 blocks the set address request.
pub fn make_address_device(slot_id: u8, input_ctx_ptr: u64, cycle: bool, block_set_address: bool) -> (r:
    Trb)
    ensures
        is_trb(r, TrbType::AddressDevice, cycle, input_ctx_ptr, slot_field(slot_id)),
        r.control == control_word(
            TrbType::AddressDevice,
            cycle,
            if block_set_address { 0x200 } else { 0 },
        ),
{
    let rest: u32 = if block_set_address { 0x200 } else { 0 };
    proof {
        lemma_rest_bits(0, 0);
        lemma_control_word(TrbType::AddressDevice, cycle, rest);
    }
    Trb::new(
        input_ctx_ptr,
        slot_id as u32 * 0x100_0000,
        control(TrbType::AddressDevice, cycle, rest),
    )
}

/// Builds a configure endpoint command; bit 9 deconfigures.
pub fn make_configure_endpoint(slot_id: u8, input_ctx_ptr: u64, cycle: bool, deconfigure: bool) -> (r:
    Trb)
    ensures
        is_trb(r, TrbType::ConfigureEndpoint, cycle, input_ctx_ptr, slot_field(slot_id)),
        r.control == control_word(
            TrbType::ConfigureEndpoint,
            cycle,
            if deconfigure { 0x200 } else { 0 },
        ),
{
    let rest: u32 = if deconfigure { 0x200 } else { 0 };
    proof {
        lemma_rest_bits(0, 0);
        lemma_control_word(TrbType::ConfigureEndpoint, cycle, rest);
    }
    Trb::new(
        input_ctx_ptr,
        slot_id as u32 * 0x100_0000,
        control(TrbType::ConfigureEndpoint, cycle, rest),
    )
}

/// Builds the setup stage of a control transfer: the packet is in the
/// parameter (bit 6), 8 bytes long, with its transfer type.
pub fn make_setup_stg(setup_packet: &[u8; 8], trt: u8, cycle: bool) -> (r: Trb)
    ensures
        is_trb(r, TrbType::Setup, cycle, le64(setup_packet@, 0) as u64, 0),
        r.control == control_word(
            TrbType::Setup,
            cycle,
            ((trt as u32) << 16) | 0x40 | 0x10_0000,
        ),
{
    let params: u64 = read_le64(setup_packet.as_slice(), 0);
    let rest: u32 = ((trt as u32) << 16) | 0x40 | 0x10_0000;
    proof {
        lemma_rest_bits(trt, 0);
        lemma_control_word(TrbType::Setup, cycle, rest);
    }
    Trb::new(params, 0, control(TrbType::Setup, cycle, rest))
}

/// The flags of a data stage: chain, direction, and transfer length.
pub open spec fn data_flags(length: u32, direction_in: bool, chain: bool) -> u32 {
    (if chain { 0x10u32 } else { 0u32 }) | (if direction_in { 4u32 } else { 0u32 }) | ((length
        & 0x1FFFF) << 17)
}

/// Builds the data stage of a control transfer.
pub fn make_data_stg(buffer_ptr: u64, length: u32, direction_in: bool, cycle: bool, chain: bool) -> (r:
    Trb)
    ensures
        is_trb(r, TrbType::Data, cycle, buffer_ptr, 0),
        r.control == control_word(TrbType::Data, cycle, data_flags(length, direction_in, chain)),
{
    let a: u32 = if chain { 0x10 } else { 0 };
    let b: u32 = if direction_in { 4 } else { 0 };
    let rest: u32 = a | b | ((length & 0x1FFFF) << 17);
    proof {
        lemma_rest_bits(0, length);
        lemma_control_word(TrbType::Data, cycle, rest);
    }
    Trb::new(buffer_ptr, 0, control(TrbType::Data, cycle, rest))
}

/// Builds the status stage of a control transfer, with an interrupt on
/// completion.
pub fn make_status_stg(direction_in: bool, cycle: bool) -> (r: Trb)
    ensures
        is_trb(r, TrbType::Status, cycle, 0, 0),
        r.control == control_word(
            TrbType::Status,
            cycle,
            (if direction_in { 4u32 } else { 0u32 }) | 0x20,
        ),
{
    let a: u32 = if direction_in { 4 } else { 0 };
    let rest: u32 = a | 0x20;
    proof {
        lemma_rest_bits(0, 0);
        lemma_control_word(TrbType::Status, cycle, rest);
    }
    Trb::new(0, 0, control(TrbType::Status, cycle, rest))
}

/// The flags of a normal transfer: chain, interrupt on completion, and
/// transfer length.
pub open spec fn normal_flags(length: u32, chain: bool, ioc: bool) -> u32 {
    (if chain { 0x10u32 } else { 0u32 }) | (if ioc { 0x20u32 } else { 0u32 }) | ((length & 0x1FFFF)
        << 17)
}

/// Builds a normal transfer, for bulk and interrupt endpoints.
pub fn make_normal(buffer_ptr: u64, length: u32, cycle: bool, chain: bool, ioc: bool) -> (r: Trb)
    ensures
        is_trb(r, TrbType::Normal, cycle, buffer_ptr, 0),
        r.control == control_word(TrbType::Normal, cycle, normal_flags(length, chain, ioc)),
{
    let a: u32 = if chain { 0x10 } else { 0 };
    let b: u32 = if ioc { 0x20 } else { 0 };
    let rest: u32 = a | b | ((length & 0x1FFFF) << 17);
    proof {
        lemma_rest_bits(0, length);
        lemma_control_word(TrbType::Normal, cycle, rest);
    }
    Trb::new(buffer_ptr, 0, control(TrbType::Normal, cycle, rest))
}

/// Builds a link to the next ring segment.
pub fn make_link(segment_ptr: u64, cycle: bool, toggle_cycle: bool, chain: bool) -> (r: Trb)
    ensures
        is_trb(r, TrbType::Link, cycle, segment_ptr, 0),
        r.control == control_word(
            TrbType::Link,
            cycle,
            (if toggle_cycle { 4u32 } else { 0u32 }) | (if chain { 0x10u32 } else { 0u32 }),
        ),
{
    let a: u32 = if toggle_cycle { 4 } else { 0 };
    let b: u32 = if chain { 0x10 } else { 0 };
    let rest: u32 = a | b;
    proof {
        lemma_rest_bits(0, 0);
        lemma_control_word(TrbType::Link, cycle, rest);
    }
    Trb::new(segment_ptr, 0, control(TrbType::Link, cycle, rest))
}

/// The kinds have the numbers of the xHCI standard: transfers from 1, commands from 9, events from 32.
pub proof fn law_type_numbers()
    ensures
        TrbType::Reserved.code() == 0,
        TrbType::Normal.code() == 1,
        TrbType::Setup.code() == 2,
        TrbType::Data.code() == 3,
        TrbType::Status.code() == 4,
        TrbType::Isoch.code() == 5,
        TrbType::Link.code() == 6,
        TrbType::EventData.code() == 7,
        TrbType::NoOp.code() == 8,
        TrbType::EnableSlot.code() == 9,
        TrbType::DisableSlot.code() == 10,
        TrbType::AddressDevice.code() == 11,
        TrbType::ConfigureEndpoint.code() == 12,
        TrbType::EvaluateContext.code() == 13,
        TrbType::ResetEndpoint.code() == 14,
        TrbType::StopEndpoint.code() == 15,
        TrbType::SetTrDequeue.code() == 16,
        TrbType::ResetDevice.code() == 17,
        TrbType::ForceEvent.code() == 18,
        TrbType::NegotiateBandwidth.code() == 19,
        TrbType::SetLatencyTolerance.code() == 20,
        TrbType::SetPortBio.code() == 21,
        TrbType::ClearFeature.code() == 22,
        TrbType::TransferEvent.code() == 32,
        TrbType::CommandCompletion.code() == 33,
        TrbType::PortStatusChange.code() == 34,
        TrbType::BandwidthRequest.code() == 35,
        TrbType::Doorbell.code() == 36,
        TrbType::HostController.code() == 37,
        TrbType::DeviceNotification.code() == 38,
        TrbType::MfindexWrap.code() == 39,
{
}

proof fn lemma_word_bits(code: u32, c: u32, rest: u32, length: u32, chain: bool, other: bool)
    by (bit_vector)
    requires
        code < 64,
        c <= 1,
        rest & 0xFC01 == 0,
    ensures
        (c | (code << 10) | rest) & 1 == c,
        ((c | (code << 10) | rest) >> 10) & 0x3F == code,
        (c | (code << 10) | rest) & 0xFFFF_03FE == rest,
        (c | (code << 10) | rest) / 1024 % 64 == code,
        (c | (code << 10) | rest) % 2 == c,
        ((if chain { 0x10u32 } else { 0u32 }) | (if other { 4u32 } else { 0u32 }) | ((length
            & 0x1FFFF) << 17)) & 0xFC01 == 0,
        ((if chain { 0x10u32 } else { 0u32 }) | (if other { 4u32 } else { 0u32 }) | ((length
            & 0x1FFFF) << 17)) % 0x2_0000 == (if chain { 16int } else { 0int }) + (if other {
            4int
        } else {
            0int
        }),
        ((if chain { 0x10u32 } else { 0u32 }) | (if other { 4u32 } else { 0u32 }) | ((length
            & 0x1FFFF) << 17)) / 0x2_0000 == length % 0x8000,
        ((if chain { 0x10u32 } else { 0u32 }) | (if other { 0x20u32 } else { 0u32 }) | ((length
            & 0x1FFFF) << 17)) & 0xFC01 == 0,
        ((if chain { 0x10u32 } else { 0u32 }) | (if other { 0x20u32 } else { 0u32 }) | ((length
            & 0x1FFFF) << 17)) % 0x2_0000 == (if chain { 16int } else { 0int }) + (if other {
            32int
        } else {
            0int
        }),
        ((if chain { 0x10u32 } else { 0u32 }) | (if other { 0x20u32 } else { 0u32 }) | ((length
            & 0x1FFFF) << 17)) / 0x2_0000 == length % 0x8000,
{
}

pub(crate) proof fn lemma_free_bits()
    by (bit_vector)
    ensures
        0u32 & 0xFC01 == 0,
        4u32 & 0xFC01 == 0,
        4u32 | 0u32 == 4,
{
}

/// A control word has the cycle bit at the bottom and the kind's number in bits 10 to 15; all its
/// other bits are what was handed in.
pub proof fn law_control_word(t: TrbType, cycle: bool, rest: u32)
    requires
        rest & 0xFC01 == 0,
    ensures
        control_word(t, cycle, rest) & 1 == (if cycle { 1u32 } else { 0u32 }),
        (control_word(t, cycle, rest) >> 10) & 0x3F == t.code(),
        control_word(t, cycle, rest) & 0xFFFF_03FE == rest,
        (Trb { params: 0, status: 0, control: control_word(t, cycle, rest) }).type_code()
            == t.code(),
        (Trb { params: 0, status: 0, control: control_word(t, cycle, rest) }).cycle() == cycle,
{
    lemma_word_bits(t.code() as u32, if cycle { 1u32 } else { 0u32 }, rest, 0, false, false);
}

/// A data stage says its length from bit 17 up, as much of it as has room there, with bit 4 where it
/// goes on in the next TRB and bit 2 where the data comes in. A normal transfer says its length in
/// the same place, with bit 5 where its end is to be told.
pub proof fn law_transfer_flags(length: u32, first: bool, chain: bool)
    ensures
        data_flags(length, first, chain) / 0x2_0000 == length % 0x8000,
        data_flags(length, first, chain) % 0x2_0000 == (if chain { 16int } else { 0 }) + (if first {
            4int
        } else {
            0
        }),
        data_flags(length, first, chain) & 0xFC01 == 0,
        normal_flags(length, chain, first) / 0x2_0000 == length % 0x8000,
        normal_flags(length, chain, first) % 0x2_0000 == (if chain { 16int } else { 0 }) + (
        if first {
            32int
        } else {
            0
        }),
        normal_flags(length, chain, first) & 0xFC01 == 0,
{
    lemma_free_bits();
    lemma_word_bits(0, 0, 0, length, chain, first);
}

/// A slot's number stands in the top byte of the status word.
pub proof fn law_slot_field(slot_id: u8)
    ensures
        slot_field(slot_id) / 0x100_0000 == slot_id,
        slot_field(slot_id) % 0x100_0000 == 0,
{
}

/// Setting the cycle bit leaves all else, and the last setting is the one that holds.
pub proof fn law_cycle_bit_is_set(t: Trb, a: bool, b: bool)
    ensures
        t.with_cycle(a).cycle() == a,
        t.with_cycle(a).with_cycle(b) == t.with_cycle(b),
        t.with_cycle(t.cycle()) == t,
        t.with_cycle(a).type_code() == t.type_code(),
        t.with_cycle(a).params == t.params,
        t.with_cycle(a).status == t.status,
{
}

/// A TRB is made of the kind asked for, with the cycle bit asked for, and of the words handed in.
pub proof fn law_made_trb(r: Trb, t: TrbType, cycle: bool, params: u64, status: u32)
    requires
        is_trb(r, t, cycle, params, status),
    ensures
        r.params == params,
        r.status == status,
        r.control % 2 == (if cycle { 1int } else { 0 }),
        r.control / 1024 % 64 == t.code(),
{
}

} // verus!
