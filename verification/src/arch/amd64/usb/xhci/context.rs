//! xHCI contexts: the state of devices and endpoints, as the controller reads
//! it from memory.

use vstd::prelude::*;
use vstd::string::StringSliceAdditionalSpecFns;
use vstd::utf8::encode_utf8;
use crate::serial::{decimal, write_dec};

verus! {

/// Size of a device context.
pub const DEVICE_CONTEXT_SIZE: usize = 1024;

/// Size of an input context.
pub const INPUT_CONTEXT_SIZE: usize = 1056;

/// Number of endpoint contexts of a device.
pub const MAX_CONTEXT_ENTRIES: usize = 31;

/// The field of `width` bits from bit `shift` on.
pub open spec fn field(w: u32, shift: u32, mask: u32) -> u32 {
    (w >> shift) & mask
}

/// `w` with the bits of a field replaced by `v`, which is not cut to it.
pub open spec fn with_field(w: u32, shift: u32, mask: u32, v: u32) -> u32 {
    (w & !(mask << shift)) | (v << shift)
}

/// What is put in a field of the slot context reads back, if it fits, and the
/// other fields stay.
proof fn lemma_slot_fields(w: u32, v: u32)
    by (bit_vector)
    ensures
        v < 16 ==> ((((w & !(0xFu32 << 20)) | (v << 20)) >> 20) & 0xFu32) == v,
        v < 16 ==> (((w & !(0xFu32 << 20)) | (v << 20)) & 0xFFFFFu32) == w & 0xFFFFFu32,
        v < 16 ==> ((((w & !(0xFu32 << 20)) | (v << 20)) >> 27) & 0x1Fu32) == (w >> 27) & 0x1Fu32,
        v < 32 ==> ((((w & !(0x1Fu32 << 27)) | (v << 27)) >> 27) & 0x1Fu32) == v,
        (((w & !(0x1Fu32 << 27)) | (v << 27)) & 0xFFFFFu32) == w & 0xFFFFFu32,
        ((((w & !(0x1Fu32 << 27)) | (v << 27)) >> 20) & 0xFu32) == (w >> 20) & 0xFu32,
        v < 256 ==> ((((w & !(0xFFu32 << 24)) | (v << 24)) >> 24) & 0xFFu32) == v,
{
}

/// The same of the endpoint context.
proof fn lemma_endpoint_fields(w: u32, v: u32)
    by (bit_vector)
    ensures
        v < 16 ==> ((((w & !(0xFu32 << 3)) | (v << 3)) >> 3) & 0xFu32) == v,
        v < 16 ==> (((w & !(0xFu32 << 3)) | (v << 3)) & 3u32) == w & 3u32,
        v < 16 ==> ((((w & !(0xFu32 << 3)) | (v << 3)) >> 16) & 0xFFFFu32) == (w >> 16) & 0xFFFFu32,
        v < 0x1_0000 ==> ((((w & !(0xFFFFu32 << 16)) | (v << 16)) >> 16) & 0xFFFFu32) == v,
        v < 0x1_0000 ==> (((w & !(0xFFFFu32 << 16)) | (v << 16)) & 0xFFFFu32) == w & 0xFFFFu32,
        v < 0x1_0000 ==> (((w & !0xFFFFu32) | v) & 0xFFFFu32) == v,
        v < 0x1_0000 ==> ((((w & !0xFFFFu32) | v) >> 16) & 0xFFFFu32) == (w >> 16) & 0xFFFFu32,
        v < 4 ==> (((w & !3u32) | v) & 3u32) == v,
        v < 4 ==> ((((w & !3u32) | v) >> 3) & 0xFu32) == (w >> 3) & 0xFu32,
        ((w >> 3) & 0xFu32) < 16,
        (w & 3u32) < 4,
{
}

/// Slot context (8 words).
#[derive(Debug, Clone, Copy, PartialEq, Eq, Structural)]
pub struct SlotContext {
    /// Route string, speed, hub flags, context entries.
    pub dw0: u32,
    /// Maximum exit latency, root hub port number.
    pub dw1: u32,
    /// Number of ports, transaction translator.
    pub dw2: u32,
    /// Device address, slot state.
    pub dw3: u32,
    pub dw4: u32,
    pub dw5: u32,
    pub dw6: u32,
    pub dw7: u32,
}

/// The name of a speed.
pub open spec fn speed_text(speed: int) -> Seq<char> {
    if speed == 1 {
        "Full (12 Mbps)"@
    } else if speed == 2 {
        "Low (1.5 Mbps)"@
    } else if speed == 3 {
        "High (480 Mbps)"@
    } else if speed == 4 {
        "Super (5 Gbps)"@
    } else if speed == 5 {
        "Super+ (10 Gbps)"@
    } else {
        "Unknown"@
    }
}

impl SlotContext {
    /// An empty context.
    pub fn zero() -> (r: Self)
        ensures
            r == (SlotContext {
                dw0: 0,
                dw1: 0,
                dw2: 0,
                dw3: 0,
                dw4: 0,
                dw5: 0,
                dw6: 0,
                dw7: 0,
            }),
    {
        SlotContext { dw0: 0, dw1: 0, dw2: 0, dw3: 0, dw4: 0, dw5: 0, dw6: 0, dw7: 0 }
    }

    /// Route string (the low 20 bits of the first word).
    pub fn route_string(&self) -> (r: u32)
        ensures
            r == field(self.dw0, 0, 0xFFFFF),
    {
        proof {
            lemma_shift_zero(self.dw0);
        }
        self.dw0 & 0xFFFFF
    }

    /// Device speed (bits 20 to 23 of the first word).
    pub fn speed(&self) -> (r: u8)
        ensures
            r == field(self.dw0, 20, 0xF),
            r < 16,
    {
        proof {
            lemma_small(self.dw0);
        }
        ((self.dw0 >> 20) & 0xF) as u8
    }

    /// Sets the device speed.
    pub fn set_speed(&mut self, speed: u8)
        ensures
            *final(self) == (SlotContext {
                dw0: with_field(old(self).dw0, 20, 0xF, speed as u32),
                ..*old(self)
            }),
            speed < 16 ==> field(final(self).dw0, 20, 0xF) == speed,
    {
        proof {
            lemma_slot_fields(self.dw0, speed as u32);
        }
        self.dw0 = (self.dw0 & !(0xFu32 << 20)) | ((speed as u32) << 20);
    }

    /// Number of context entries (the high 5 bits of the first word).
    pub fn context_entries(&self) -> (r: u8)
        ensures
            r == field(self.dw0, 27, 0x1F),
    {
        proof {
            lemma_small(self.dw0);
        }
        ((self.dw0 >> 27) & 0x1F) as u8
    }

    /// Sets the number of context entries.
    pub fn set_context_entries(&mut self, entries: u8)
        ensures
            *final(self) == (SlotContext {
                dw0: with_field(old(self).dw0, 27, 0x1F, entries as u32),
                ..*old(self)
            }),
            entries < 32 ==> field(final(self).dw0, 27, 0x1F) == entries,
    {
        proof {
            lemma_slot_fields(self.dw0, entries as u32);
        }
        self.dw0 = (self.dw0 & !(0x1Fu32 << 27)) | ((entries as u32) << 27);
    }

    /// Root hub port number (the high byte of the second word).
    pub fn root_hub_port(&self) -> (r: u8)
        ensures
            r == field(self.dw1, 24, 0xFF),
    {
        proof {
            lemma_small(self.dw1);
        }
        ((self.dw1 >> 24) & 0xFF) as u8
    }

    /// Sets the root hub port number.
    pub fn set_root_hub_port(&mut self, port: u8)
        ensures
            *final(self) == (SlotContext {
                dw1: with_field(old(self).dw1, 24, 0xFF, port as u32),
                ..*old(self)
            }),
            field(final(self).dw1, 24, 0xFF) == port,
    {
        proof {
            lemma_slot_fields(self.dw1, port as u32);
        }
        self.dw1 = (self.dw1 & !(0xFFu32 << 24)) | ((port as u32) << 24);
    }

    /// Slot state.
    pub fn state(&self) -> (r: u8)
        ensures
            r == field(self.dw3, 27, 0x1F),
    {
        proof {
            lemma_small(self.dw3);
        }
        ((self.dw3 >> 27) & 0x1F) as u8
    }

    /// Sets the slot state.
    pub fn set_state(&mut self, state: u8)
        ensures
            *final(self) == (SlotContext {
                dw3: with_field(old(self).dw3, 27, 0x1F, state as u32),
                ..*old(self)
            }),
            state < 32 ==> field(final(self).dw3, 27, 0x1F) == state,
    {
        proof {
            lemma_slot_fields(self.dw3, state as u32);
        }
        self.dw3 = (self.dw3 & !(0x1Fu32 << 27)) | ((state as u32) << 27);
    }

    /// The slot in words.
    pub fn describe(&self) -> (r: Vec<u8>)
        ensures
            r@ == "Slot(speed=".spec_bytes() + decimal(field(self.dw0, 20, 0xF) as nat)
                + " port=".spec_bytes() + decimal(field(self.dw1, 24, 0xFF) as nat)
                + " entries=".spec_bytes() + decimal(field(self.dw0, 27, 0x1F) as nat)
                + ")".spec_bytes(),
    {
        let mut out: Vec<u8> = Vec::new();
        out.extend_from_slice("Slot(speed=".as_bytes());
        write_dec(&mut out, self.speed() as u64);
        out.extend_from_slice(" port=".as_bytes());
        write_dec(&mut out, self.root_hub_port() as u64);
        out.extend_from_slice(" entries=".as_bytes());
        write_dec(&mut out, self.context_entries() as u64);
        out.extend_from_slice(")".as_bytes());
        out
    }

    /// The speed in words.
    pub fn speed_str(&self) -> (r: &'static str)
        ensures
            r@ == speed_text(field(self.dw0, 20, 0xF) as int),
    {
        match self.speed() {
            1 => "Full (12 Mbps)",
            2 => "Low (1.5 Mbps)",
            3 => "High (480 Mbps)",
            4 => "Super (5 Gbps)",
            5 => "Super+ (10 Gbps)",
            _ => "Unknown",
        }
    }
}

/// Fields are as small as their masks.
proof fn lemma_small(w: u32)
    by (bit_vector)
    ensures
        ((w >> 20) & 0xF) < 16,
        ((w >> 27) & 0x1F) < 32,
        ((w >> 24) & 0xFF) < 256,
        ((w >> 16) & 0xFFFF) < 0x1_0000,
        ((w >> 3) & 0xF) < 16,
        (w & 3) < 4,
        ((w >> 10) & 0xF) < 16,
{
}

/// A field from the first bit on needs no shift.
proof fn lemma_shift_zero(w: u32)
    by (bit_vector)
    ensures
        w >> 0u32 == w,
        w << 0u32 == w,
{
}

/// Speed and context entries share a word, and each leaves the other and the
/// route string alone.
pub proof fn law_slot_fields_are_independent(w: u32, speed: u32, entries: u32)
    ensures
        speed < 16 ==> field(with_field(w, 20, 0xF, speed), 27, 0x1F) == field(w, 27, 0x1F),
        speed < 16 ==> field(with_field(w, 20, 0xF, speed), 0, 0xFFFFF) == field(w, 0, 0xFFFFF),
        field(with_field(w, 27, 0x1F, entries), 20, 0xF) == field(w, 20, 0xF),
        field(with_field(w, 27, 0x1F, entries), 0, 0xFFFFF) == field(w, 0, 0xFFFFF),
{
    lemma_slot_fields(w, speed);
    lemma_slot_fields(w, entries);
    lemma_shift_zero(w);
    lemma_shift_zero(with_field(w, 20, 0xF, speed));
    lemma_shift_zero(with_field(w, 27, 0x1F, entries));
}

/// Endpoint context (8 words).
#[derive(Debug, Clone, Copy, PartialEq, Eq, Structural)]
pub struct EndpointContext {
    /// State, interval.
    pub dw0: u32,
    /// Maximum payload, error count, type.
    pub dw1: u32,
    /// Dequeue pointer (low word).
    pub dw2: u32,
    /// Dequeue pointer (high word) and cycle state.
    pub dw3: u32,
    /// Average TRB length, maximum packet size.
    pub dw4: u32,
    pub dw5: u32,
    pub dw6: u32,
    pub dw7: u32,
}

/// The name of an endpoint type.
pub open spec fn ep_type_text(t: int) -> Seq<char> {
    if t == 0 {
        "Invalid"@
    } else if t == 1 {
        "Isoch OUT"@
    } else if t == 2 {
        "Bulk OUT"@
    } else if t == 3 {
        "Interrupt OUT"@
    } else if t == 4 {
        "Control"@
    } else if t == 5 {
        "Isoch IN"@
    } else if t == 6 {
        "Bulk IN"@
    } else if t == 7 {
        "Interrupt IN"@
    } else {
        "Reserved"@
    }
}

impl EndpointContext {
    /// An empty context.
    pub fn zero() -> (r: Self)
        ensures
            r == (EndpointContext {
                dw0: 0,
                dw1: 0,
                dw2: 0,
                dw3: 0,
                dw4: 0,
                dw5: 0,
                dw6: 0,
                dw7: 0,
            }),
    {
        EndpointContext { dw0: 0, dw1: 0, dw2: 0, dw3: 0, dw4: 0, dw5: 0, dw6: 0, dw7: 0 }
    }

    /// Endpoint type (bits 3 to 6 of the second word).
    pub fn ep_type(&self) -> (r: u8)
        ensures
            r == field(self.dw1, 3, 0xF),
            r < 16,
    {
        proof {
            lemma_small(self.dw1);
        }
        ((self.dw1 >> 3) & 0xF) as u8
    }

    /// Sets the endpoint type.
    pub fn set_ep_type(&mut self, ep_type: u8)
        ensures
            *final(self) == (EndpointContext {
                dw1: with_field(old(self).dw1, 3, 0xF, ep_type as u32),
                ..*old(self)
            }),
            ep_type < 16 ==> field(final(self).dw1, 3, 0xF) == ep_type,
    {
        proof {
            lemma_endpoint_fields(self.dw1, ep_type as u32);
        }
        self.dw1 = (self.dw1 & !(0xFu32 << 3)) | ((ep_type as u32) << 3);
    }

    /// Sets the maximum packet size (high half of the fifth word).
    pub fn set_max_packet_size(&mut self, size: u16)
        ensures
            *final(self) == (EndpointContext {
                dw4: with_field(old(self).dw4, 16, 0xFFFF, size as u32),
                ..*old(self)
            }),
            field(final(self).dw4, 16, 0xFFFF) == size,
    {
        proof {
            lemma_endpoint_fields(self.dw4, size as u32);
        }
        self.dw4 = (self.dw4 & !(0xFFFFu32 << 16)) | ((size as u32) << 16);
    }

    /// Maximum packet size.
    pub fn max_packet_size(&self) -> (r: u16)
        ensures
            r == field(self.dw4, 16, 0xFFFF),
    {
        proof {
            lemma_small(self.dw4);
        }
        ((self.dw4 >> 16) & 0xFFFF) as u16
    }

    /// Sets the average TRB length (low half of the fifth word).
    pub fn set_avg_trb_length(&mut self, len: u16)
        ensures
            *final(self) == (EndpointContext {
                dw4: with_field(old(self).dw4, 0, 0xFFFF, len as u32),
                ..*old(self)
            }),
            field(final(self).dw4, 0, 0xFFFF) == len,
            field(final(self).dw4, 16, 0xFFFF) == field(old(self).dw4, 16, 0xFFFF),
    {
        proof {
            lemma_endpoint_fields(self.dw4, len as u32);
            lemma_shift_zero(0xFFFF);
            lemma_shift_zero(len as u32);
            lemma_shift_zero(((self.dw4 & !0xFFFFu32) | (len as u32)));
        }
        self.dw4 = (self.dw4 & !0xFFFFu32) | (len as u32);
    }

    /// Sets the dequeue pointer of the transfer ring, and its cycle state.
    pub fn set_tr_dequeue_ptr(&mut self, ptr: u64, dcs: bool)
        ensures
            *final(self) == (EndpointContext {
                dw2: (ptr % 0x1_0000_0000) as u32,
                dw3: ((ptr / 0x1_0000_0000) as u32) | (if dcs { 1u32 } else { 0u32 }),
                ..*old(self)
            }),
    {
        self.dw2 = (ptr % 0x1_0000_0000) as u32;
        let bit: u32 = if dcs { 1 } else { 0 };
        self.dw3 = ((ptr / 0x1_0000_0000) as u32) | bit;
    }

    /// Error count (the low 2 bits of the second word).
    pub fn cerr(&self) -> (r: u8)
        ensures
            r == field(self.dw1, 0, 3),
    {
        proof {
            lemma_small(self.dw1);
            lemma_shift_zero(self.dw1);
        }
        (self.dw1 & 0x3) as u8
    }

    /// Sets the error count.
    pub fn set_cerr(&mut self, cerr: u8)
        ensures
            *final(self) == (EndpointContext {
                dw1: with_field(old(self).dw1, 0, 3, cerr as u32),
                ..*old(self)
            }),
            cerr < 4 ==> field(final(self).dw1, 0, 3) == cerr,
    {
        proof {
            lemma_endpoint_fields(self.dw1, cerr as u32);
            lemma_shift_zero(3);
            lemma_shift_zero(cerr as u32);
            lemma_shift_zero(((self.dw1 & !3u32) | (cerr as u32)));
        }
        self.dw1 = (self.dw1 & !0x3u32) | (cerr as u32);
    }

    /// Maximum payload in a service interval (high half of the second word).
    pub fn max_esit_payload(&self) -> (r: u16)
        ensures
            r == field(self.dw1, 16, 0xFFFF),
    {
        proof {
            lemma_small(self.dw1);
        }
        ((self.dw1 >> 16) & 0xFFFF) as u16
    }

    /// Sets the maximum payload in a service interval.
    pub fn set_max_esit_payload(&mut self, payload: u16)
        ensures
            *final(self) == (EndpointContext {
                dw1: with_field(old(self).dw1, 16, 0xFFFF, payload as u32),
                ..*old(self)
            }),
            field(final(self).dw1, 16, 0xFFFF) == payload,
    {
        proof {
            lemma_endpoint_fields(self.dw1, payload as u32);
        }
        self.dw1 = (self.dw1 & !(0xFFFFu32 << 16)) | ((payload as u32) << 16);
    }

    /// The endpoint in words.
    pub fn describe(&self) -> (r: Vec<u8>)
        ensures
            r@ == "EP(type=".spec_bytes() + encode_utf8(ep_type_text(field(self.dw1, 3, 0xF) as int))
                + " max_pkt=".spec_bytes() + decimal(field(self.dw4, 16, 0xFFFF) as nat)
                + ")".spec_bytes(),
    {
        let mut out: Vec<u8> = Vec::new();
        out.extend_from_slice("EP(type=".as_bytes());
        out.extend_from_slice(self.ep_type_str().as_bytes());
        out.extend_from_slice(" max_pkt=".as_bytes());
        write_dec(&mut out, self.max_packet_size() as u64);
        out.extend_from_slice(")".as_bytes());
        out
    }

    /// The endpoint type in words.
    pub fn ep_type_str(&self) -> (r: &'static str)
        ensures
            r@ == ep_type_text(field(self.dw1, 3, 0xF) as int),
    {
        match self.ep_type() {
            0 => "Invalid",
            1 => "Isoch OUT",
            2 => "Bulk OUT",
            3 => "Interrupt OUT",
            4 => "Control",
            5 => "Isoch IN",
            6 => "Bulk IN",
            7 => "Interrupt IN",
            _ => "Reserved",
        }
    }
}

/// Input control context.
#[derive(Debug, Clone, Copy, PartialEq, Eq)]
pub struct InputControlContext {
    /// Contexts to drop.
    pub drop_context: u32,
    /// Contexts to add.
    pub add_context: u32,
    pub reserved: [u32; 5],
    pub reserved2: u32,
}

impl InputControlContext {
    /// Nothing to add or drop.
    pub fn zero() -> (r: Self)
        ensures
            r.drop_context == 0,
            r.add_context == 0,
            r.reserved@ =~= seq![0u32, 0, 0, 0, 0],
            r.reserved2 == 0,
    {
        InputControlContext { drop_context: 0, add_context: 0, reserved: [0; 5], reserved2: 0 }
    }

    /// Adds a context entry.
    pub fn add(&mut self, index: u8)
        requires
            index < 32,
        ensures
            *final(self) == (InputControlContext {
                add_context: old(self).add_context | (1u32 << (index as u32)),
                ..*old(self)
            }),
    {
        self.add_context = self.add_context | (1u32 << (index as u32));
    }

    /// Drops a context entry.
    pub fn drop(&mut self, index: u8)
        requires
            index < 32,
        ensures
            *final(self) == (InputControlContext {
                drop_context: old(self).drop_context | (1u32 << (index as u32)),
                ..*old(self)
            }),
    {
        self.drop_context = self.drop_context | (1u32 << (index as u32));
    }
}

/// Device context: slot context and endpoint contexts.
pub struct DeviceContext {
    pub slot: SlotContext,
    pub endpoints: [EndpointContext; MAX_CONTEXT_ENTRIES],
}

/// Input context: control context and device context.
pub struct InputContext {
    pub control: InputControlContext,
    pub device: DeviceContext,
}

proof fn lemma_field_values(w: u32, v: u32)
    by (bit_vector)
    ensures
        (w >> 0u32) & 0xFFFFF == w % 0x10_0000,
        (w >> 20u32) & 0xF == w / 0x10_0000 % 16,
        (w >> 27u32) & 0x1F == w / 0x800_0000,
        (w >> 24u32) & 0xFF == w / 0x100_0000,
        (w >> 3u32) & 0xF == w / 8 % 16,
        (w >> 0u32) & 3 == w % 4,
        (w >> 16u32) & 0xFFFF == w / 0x1_0000,
        (w >> 0u32) & 0xFFFF == w % 0x1_0000,
        v < 16 ==> (w & !(0xFu32 << 20u32)) | (v << 20u32) == w - w / 0x10_0000 % 16 * 0x10_0000 + v
            * 0x10_0000,
        v < 32 ==> (w & !(0x1Fu32 << 27u32)) | (v << 27u32) == w % 0x800_0000 + v * 0x800_0000,
        v < 256 ==> (w & !(0xFFu32 << 24u32)) | (v << 24u32) == w % 0x100_0000 + v * 0x100_0000,
        v < 16 ==> (w & !(0xFu32 << 3u32)) | (v << 3u32) == w - w / 8 % 16 * 8 + v * 8,
        v < 4 ==> (w & !(3u32 << 0u32)) | (v << 0u32) == w - w % 4 + v,
        v < 0x1_0000 ==> (w & !(0xFFFFu32 << 16u32)) | (v << 16u32) == w % 0x1_0000 + v * 0x1_0000,
        v < 0x1_0000 ==> (w & !(0xFFFFu32 << 0u32)) | (v << 0u32) == w - w % 0x1_0000 + v,
{
}

/// A field is the number that its bits spell.
pub proof fn law_fields(w: u32)
    ensures
        field(w, 0, 0xFFFFF) == w % 0x10_0000,
        field(w, 20, 0xF) == w / 0x10_0000 % 16,
        field(w, 27, 0x1F) == w / 0x800_0000,
        field(w, 24, 0xFF) == w / 0x100_0000,
        field(w, 3, 0xF) == w / 8 % 16,
        field(w, 0, 3) == w % 4,
        field(w, 16, 0xFFFF) == w / 0x1_0000,
        field(w, 0, 0xFFFF) == w % 0x1_0000,
{
    lemma_field_values(w, 0);
}

/// Setting a field to a number that fits changes the word by that field's difference and by nothing
/// else.
pub proof fn law_fields_are_set(w: u32, v: u32)
    ensures
        v < 16 ==> with_field(w, 20, 0xF, v) == w + (v - w / 0x10_0000 % 16) * 0x10_0000,
        v < 32 ==> with_field(w, 27, 0x1F, v) == w % 0x800_0000 + v * 0x800_0000,
        v < 256 ==> with_field(w, 24, 0xFF, v) == w % 0x100_0000 + v * 0x100_0000,
        v < 16 ==> with_field(w, 3, 0xF, v) == w + (v - w / 8 % 16) * 8,
        v < 4 ==> with_field(w, 0, 3, v) == w - w % 4 + v,
        v < 0x1_0000 ==> with_field(w, 16, 0xFFFF, v) == w % 0x1_0000 + v * 0x1_0000,
        v < 0x1_0000 ==> with_field(w, 0, 0xFFFF, v) == w - w % 0x1_0000 + v,
{
    lemma_field_values(w, v);
}

/// The speeds 1 to 5 are named by what they carry, and no other number is a speed.
pub proof fn law_speed_names(speed: int)
    ensures
        speed_text(1) == "Full (12 Mbps)"@,
        speed_text(2) == "Low (1.5 Mbps)"@,
        speed_text(3) == "High (480 Mbps)"@,
        speed_text(4) == "Super (5 Gbps)"@,
        speed_text(5) == "Super+ (10 Gbps)"@,
        !(1 <= speed <= 5) ==> speed_text(speed) == "Unknown"@,
{
}

/// Kinds 1 to 3 go out and 5 to 7 come in, as isochronous, bulk and interrupt; 4 is control, 0 is
/// invalid, and what is over 7 is reserved.
pub proof fn law_endpoint_names(t: int)
    ensures
        ep_type_text(0) == "Invalid"@,
        ep_type_text(1) == "Isoch OUT"@,
        ep_type_text(2) == "Bulk OUT"@,
        ep_type_text(3) == "Interrupt OUT"@,
        ep_type_text(4) == "Control"@,
        ep_type_text(5) == "Isoch IN"@,
        ep_type_text(6) == "Bulk IN"@,
        ep_type_text(7) == "Interrupt IN"@,
        t > 7 ==> ep_type_text(t) == "Reserved"@,
{
}

} // verus!
