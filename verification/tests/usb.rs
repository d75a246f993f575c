use mmurtl_rs::arch::amd64::usb;
use mmurtl_rs::arch::amd64::usb::xhci::context::{EndpointContext, InputControlContext, SlotContext};
use mmurtl_rs::arch::amd64::usb::xhci::trb::{
    make_address_device, make_configure_endpoint, make_data_stg, make_enable_slot, make_link, make_noop,
    make_normal, make_setup_stg, make_status_stg, Trb, TrbType,
};
use mmurtl_rs::arch::amd64::usb::xhci::{
    begin_init, capability_ops, capability_report, enumerate_ports, port_report, port_speed_str,
    step_init, ControllerPlan, DeviceDescriptor, TrbRing, XhciDriver, XhciError, XhciMmio, XhciPhase, POLLS, READY_POLLS,
    RING_SIZE,
};
use mmurtl_rs::io::IoOp;
use mmurtl_rs::pci::{self, Header};
use mmurtl_rs::usb::hid::{
    hid_usage_to_ascii, KeyboardReport, KeyboardState, MouseReport, MOD_LSHIFT, MOD_RCTRL,
};

#[test]
fn usages_become_characters() {
    assert_eq!(hid_usage_to_ascii(0x04, false), Some('a'));
    assert_eq!(hid_usage_to_ascii(0x1D, true), Some('Z'));
    assert_eq!(hid_usage_to_ascii(0x1E, true), Some('!'));
    assert_eq!(hid_usage_to_ascii(0x27, false), Some('0'));
    assert_eq!(hid_usage_to_ascii(0x28, true), Some('\n'));
    assert_eq!(hid_usage_to_ascii(0x31, false), Some('\\'));
    assert_eq!(hid_usage_to_ascii(0x34, true), Some('"'));
    assert_eq!(hid_usage_to_ascii(0x63, false), Some('.'));
    assert_eq!(hid_usage_to_ascii(0x29, false), None);
    assert_eq!(hid_usage_to_ascii(0x3A, false), None);
    assert_eq!(hid_usage_to_ascii(0, false), None);
}

#[test]
fn keyboard_reports_are_parsed() {
    let r = KeyboardReport::from_bytes(&[MOD_LSHIFT | MOD_RCTRL, 0, 4, 5, 0, 0, 0, 0]);
    assert!(r.is_shift_pressed());
    assert!(r.is_ctrl_pressed());
    assert!(!r.is_alt_pressed());
    assert!(!r.is_meta_pressed());
    assert!(r.has_key(5));
    assert!(!r.has_key(6));
    assert_eq!(r.first_key(), 4);
    assert_eq!(r.describe(), b"KeyboardReport: mods=0x12 keys=[0x04 0x05]");
    assert_eq!(KeyboardReport::default().describe(), b"KeyboardReport: [no keys]");
}

#[test]
fn presses_and_releases_are_found() {
    let mut s = KeyboardState::new();
    assert_eq!(s.first_char(), None);
    s.update(&KeyboardReport::from_bytes(&[0, 0, 4, 5, 0, 0, 0, 0]));
    assert_eq!(s.newly_pressed(), [4, 5]);
    assert!(s.newly_released().is_empty());
    s.update(&KeyboardReport::from_bytes(&[MOD_LSHIFT, 0, 5, 6, 7, 0, 0, 0]));
    assert_eq!(s.newly_pressed(), [6, 7]);
    assert_eq!(s.newly_released(), [4]);
    assert_eq!(s.first_char(), Some('C'));
}

#[test]
fn mouse_reports_are_signed() {
    let m = MouseReport::from_bytes(&[0x05, 0xFF, 0x80, 1]);
    assert!(m.is_left());
    assert!(!m.is_right());
    assert!(m.is_middle());
    assert_eq!(m.x_delta_signed(), -1);
    assert_eq!(m.y_delta_signed(), -128);
    let text = String::from_utf8(m.describe()).unwrap();
    assert_eq!(text, "Mouse(buttons=0x0005, dx=-1, dy=-128)");
}

#[test]
fn trb_types_have_codes() {
    for v in 0..=255u8 {
        if let Some(t) = TrbType::from_value(v) {
            assert_eq!(t.value(), v);
        }
    }
    assert_eq!(TrbType::from_value(33), Some(TrbType::CommandCompletion));
    assert_eq!(TrbType::from_value(23), None);
}

#[test]
fn trbs_are_built() {
    assert_eq!(make_noop(true).trb_type(), Some(TrbType::NoOp));
    let t = make_enable_slot(true);
    assert_eq!(t.control, (9 << 10) | 1);
    assert!(t.cycle_bit());
    let t = make_address_device(3, 0x1000, false, true);
    assert_eq!(t.trb_type(), Some(TrbType::AddressDevice));
    assert_eq!(t.params, 0x1000);
    assert!(!t.cycle_bit());
    assert_eq!(make_configure_endpoint(3, 0x1000, true, false).trb_type(), Some(TrbType::ConfigureEndpoint));
    let t = make_setup_stg(&[0x80, 6, 0, 1, 0, 0, 18, 0], 3, true);
    assert_eq!(t.params, 0x0012_0000_0100_0680);
    assert_eq!(t.trb_type(), Some(TrbType::Setup));
    assert_eq!(make_data_stg(0x2000, 18, true, true, false).trb_type(), Some(TrbType::Data));
    assert_eq!(make_status_stg(false, true).trb_type(), Some(TrbType::Status));
    assert_eq!(make_normal(0x2000, 8, true, false, true).params, 0x2000);
    assert_eq!(make_link(0x3000, true, true, false).trb_type(), Some(TrbType::Link));
    let mut z = Trb::zero();
    z.set_cycle_bit(true);
    assert_eq!(z, Trb::new(0, 0, 1));
}

#[test]
fn events_tell_code_and_length() {
    let t = Trb::new(0, 0x0D01_2345, 0);
    assert_eq!(t.completion_code(), 0x0D);
    assert_eq!(t.event_trb_length(), 0x1_2345);
}

#[test]
fn ring_wraps_with_a_link() {
    let mut r = TrbRing::new(0x8000);
    assert_eq!(r.base_ptr_with_dcs(), 0x8001);
    for i in 0..RING_SIZE as u64 - 1 {
        assert_eq!(r.ptr_value(), 0x8000 + 16 * i);
        assert!(r.enqueue(&Trb::new(i, 0, 0)));
    }
    assert!(r.cycle);
    assert!(r.enqueue(&Trb::new(99, 0, 0)));
    assert!(!r.cycle);
    assert_eq!(r.enqueue_idx, 1);
    assert_eq!(r.entries[0].params, 99);
    assert!(!r.entries[0].cycle_bit());
    let link = r.entries[RING_SIZE - 1];
    assert_eq!(link.trb_type(), Some(TrbType::Link));
    assert_eq!(link.params, 0x8000);
    assert!(link.cycle_bit());
    assert_eq!(r.entries[5].params, 5);
    assert!(r.entries[5].cycle_bit());
}

#[test]
fn slot_context_fields_are_independent() {
    let mut s = SlotContext::zero();
    s.dw0 = 0x12345;
    s.set_speed(3);
    s.set_context_entries(31);
    s.set_root_hub_port(200);
    s.set_state(2);
    assert_eq!(s.route_string(), 0x12345);
    assert_eq!(s.speed(), 3);
    assert_eq!(s.context_entries(), 31);
    assert_eq!(s.root_hub_port(), 200);
    assert_eq!(s.state(), 2);
    assert_eq!(s.speed_str(), "High (480 Mbps)");
    s.set_speed(5);
    assert_eq!(s.speed_str(), "Super+ (10 Gbps)");
}

#[test]
fn endpoint_context_fields() {
    let mut e = EndpointContext::zero();
    e.set_ep_type(4);
    e.set_cerr(3);
    e.set_max_packet_size(64);
    e.set_avg_trb_length(8);
    e.set_max_esit_payload(1024);
    e.set_tr_dequeue_ptr(0x1_2345_6780, true);
    assert_eq!(e.ep_type(), 4);
    assert_eq!(e.cerr(), 3);
    assert_eq!(e.max_packet_size(), 64);
    assert_eq!(e.max_esit_payload(), 1024);
    assert_eq!(e.ep_type_str(), "Control");
}

#[test]
fn input_control_flags() {
    let mut c = InputControlContext::zero();
    c.add(0);
    c.add(1);
    c.drop(5);
    assert_eq!(c.add_context, 3);
    assert_eq!(c.drop_context, 0x20);
}

fn mmio() -> XhciMmio {
    XhciMmio::new(0xFEB0_0000, 0x40, 0x0804_0020, 0x2000, 0x1000)
}

#[test]
fn capability_registers_tell_the_layout() {
    let m = mmio();
    assert_eq!(m.op_regs, 0xFEB0_0040);
    assert_eq!(m.doorbell_off, 0xFEB0_2000);
    assert_eq!(m.rt_regs_off, 0xFEB0_1000);
    assert_eq!((m.max_slots, m.max_ports, m.port_reg_set_size), (32, 8, 4));
    assert_eq!(m.port_reg(2), 0xFEB0_0040 + 0x20 + 32);
    assert_eq!(m.write_doorbell(2, 1), IoOp::Write32 { addr: 0xFEB0_2008, value: 1 });
    assert!(m.wait_ready(0));
    assert!(!m.wait_ready(1));
    assert!(!m.wait_ready(0x800));
    assert_eq!(m.stop(), IoOp::Modify32 { addr: 0xFEB0_0040, clear: 1, set: 0 });
}

#[test]
fn ports_are_enumerated() {
    let m = mmio();
    let (s, ops) = enumerate_ports(&m, 0, 0x2_0E01);
    assert!(s.connected && s.changed && s.powered && !s.enabled);
    assert_eq!(s.speed, 3);
    assert_eq!(ops, [IoOp::Write32 { addr: 0xFEB0_0060, value: 0x2_0E01 }]);
    let (s, ops) = enumerate_ports(&m, 0, 0);
    assert!(!s.connected);
    assert_eq!(ops, [IoOp::Write32 { addr: 0xFEB0_0060, value: 0x200 }]);
    assert!(enumerate_ports(&m, 0, 0x1000).1.is_empty());
    assert_eq!(port_speed_str(1), "Full (12 Mbps)");
    assert_eq!(port_speed_str(9), "Unknown");
}

fn bring_up(status: &[u32]) -> XhciPhase {
    let m = mmio();
    let (mut phase, ops) = begin_init(&m);
    assert_eq!(ops, [IoOp::Write32 { addr: 0xFEB0_0040, value: 2 }]);
    for s in status {
        phase = step_init(&m, phase, *s).0;
    }
    phase
}

#[test]
fn controller_is_reset_and_started() {
    assert_eq!(bring_up(&[0, 1]), XhciPhase::Start { polls: POLLS });
    assert_eq!(bring_up(&[1, 1, 0]), XhciPhase::Ready { polls: READY_POLLS });
    assert_eq!(bring_up(&[1, 0, 0x800, 0]), XhciPhase::Running);
    let m = mmio();
    assert_eq!(
        step_init(&m, XhciPhase::Reset { polls: 5 }, 1).1,
        [IoOp::Write32 { addr: 0xFEB0_0040, value: 1 }]
    );
}

#[test]
fn controller_can_fail_to_start() {
    let m = mmio();
    let last = |p: XhciPhase, s: u32| step_init(&m, p, s).0;
    assert_eq!(last(XhciPhase::Reset { polls: 1 }, 0), XhciPhase::Failed(XhciError::ResetFailed));
    assert_eq!(last(XhciPhase::Start { polls: 1 }, 1), XhciPhase::Failed(XhciError::StartFailed));
    assert_eq!(last(XhciPhase::Ready { polls: 1 }, 0x800), XhciPhase::Failed(XhciError::NotReady));
}

#[test]
fn commands_ring_the_doorbell() {
    let (mut d, ops) = XhciDriver::init(mmio(), 0x5000, 0x6000);
    assert_eq!(
        ops,
        [
            IoOp::Write64 { addr: 0xFEB0_004C, value: 0x6001 },
            IoOp::Write64 { addr: 0xFEB0_0054, value: 0x5000 },
            IoOp::Write32 { addr: 0xFEB0_0058, value: 32 },
        ]
    );
    let (slot, ops) = d.enable_slot();
    assert_eq!(slot, Some(1));
    assert_eq!(ops, [IoOp::Write32 { addr: 0xFEB0_2000, value: 0 }]);
    assert_eq!(d.command_ring.entries[0].trb_type(), Some(TrbType::EnableSlot));
    assert!(d.send_command(&make_noop(true)).0);
    assert_eq!(d.command_ring.enqueue_idx, 2);
}

#[test]
fn controllers_are_planned() {
    let none = Header { id: 0xFFFF_FFFF, class: 0, bar0: 0, bar1: 0 };
    let mut headers = vec![none; 256];
    headers[8] = Header { id: 1, class: 0x0C03_3000, bar0: 0xFEB0_0000, bar1: 0 };
    headers[16] = Header { id: 1, class: 0x0C03_3000, bar0: 0xC001, bar1: 0 };
    headers[24] = Header { id: 1, class: 0x0C03_2000, bar0: 0xFEB0_0000, bar1: 0 };
    let controllers = pci::find_usb_controllers(&pci::scan(&headers));
    assert_eq!(
        usb::init(&controllers),
        [
            ControllerPlan::Init { mmio_base: 0xFEB0_0000 },
            ControllerPlan::NoMmio,
            ControllerPlan::Skip,
        ]
    );
}

#[test]
fn capability_registers_are_read() {
    assert_eq!(
        capability_ops(0x1000),
        [
            IoOp::Read8 { addr: 0x1000 },
            IoOp::Read32 { addr: 0x1004 },
            IoOp::Read32 { addr: 0x1010 },
            IoOp::Read32 { addr: 0x1014 },
            IoOp::Read32 { addr: 0x1018 },
            IoOp::Read16 { addr: 0x1002 },
        ]
    );
    let m = XhciMmio::new(0x1000, 0x20, 0x0800_0140, 0x2000, 0x3000);
    assert_eq!(
        capability_report(&m, 0x110),
        b"[xHCI] Capability length: 32\n[xHCI] xHCI version: 0000000000000110\n\
          [xHCI] Max slots: 64\n[xHCI] Max ports: 8\n"
    );
}

#[test]
fn ports_are_reported() {
    let m = mmio();
    let (s, _) = enumerate_ports(&m, 2, 0x2_0E01);
    assert_eq!(
        port_report(2, &s),
        b"[xHCI] Port 2: connected, speed=High (480 Mbps) (disabled) [CHANGED]\n"
    );
    let (s, _) = enumerate_ports(&m, 0, 0);
    assert_eq!(
        port_report(0, &s),
        b"[xHCI] Port 0: nothing connected\n[xHCI] Port 0: powering on...\n"
    );
}

#[test]
fn first_key_skips_empty_slots() {
    assert_eq!(KeyboardReport::from_bytes(&[0, 0, 0, 0x04, 0, 0, 0, 0]).first_key(), 0x04);
    assert_eq!(KeyboardReport::from_bytes(&[0, 0, 0, 0, 0, 0, 0, 0x1E]).first_key(), 0x1E);
    assert_eq!(KeyboardReport::from_bytes(&[0xFF, 0, 0, 0, 0, 0, 0, 0]).first_key(), 0);
}

#[test]
fn structures_in_words() {
    let trb = Trb { params: 0x1234, status: 0xAB, control: 0x8000_0401 };
    assert_eq!(
        trb.describe(),
        b"TRB(params=0x0000000000001234, status=0x000000ab, ctrl=0x80000401)"
    );
    let slot = SlotContext { dw0: (3 << 27) | (4 << 20), dw1: 7 << 24, ..SlotContext::zero() };
    assert_eq!(slot.describe(), b"Slot(speed=4 port=7 entries=3)");
    let ep = EndpointContext { dw1: 2 << 3, dw4: 512 << 16, ..EndpointContext::zero() };
    assert_eq!(ep.describe(), b"EP(type=Bulk OUT max_pkt=512)");
    let device = DeviceDescriptor {
        length: 18,
        descriptor_type: 1,
        usb_spec: 0x0200,
        device_class: 9,
        device_subclass: 0,
        device_protocol: 1,
        max_packet_size: 64,
        vendor_id: 0x1D6B,
        product_id: 2,
        device_release: 0,
        manufacturer: 0,
        product: 0,
        serial: 0,
        num_configurations: 1,
    };
    assert_eq!(
        device.describe(),
        b"USB Device: vendor=0x1d6b product=0x0002 class=0x09 max_pkt=64"
    );
}
