//! RQB (request block): the fixed-size message that tasks exchange.
//!
//! The blocking primitives live in the scheduler, which owns the task states:
//! `send_rqb` queues a request and blocks until the reply, `receive_rqb`
//! blocks until a request arrives, `reply_rqb` answers a blocked sender.

use vstd::prelude::*;
use vstd::string::StringSliceAdditionalSpecFns;
use crate::serial::{decimal, hex_digits, write_dec, write_hex_digits};

verus! {

/// Maximum data size in an RQB.
pub const RQB_DATA_SIZE: usize = 64;

/// Identifies what operation a request is for.
pub type RqbServiceCode = u16;

/// Status of a request, set by the kernel or by the service task.
#[derive(Debug, Clone, Copy, PartialEq, Eq, Structural)]
pub enum RqbStatus {
    Success,
    GeneralFailure,
    InvalidService,
    InvalidParam,
    Timeout,
    NoMemory,
    AccessDenied,
    NotFound,
    Busy,
    Aborted,
}

/// The status that a code stands for; an unknown code is a general failure.
pub open spec fn status_of_code(v: u16) -> RqbStatus {
    if v == 0 {
        RqbStatus::Success
    } else if v == 2 {
        RqbStatus::InvalidService
    } else if v == 3 {
        RqbStatus::InvalidParam
    } else if v == 4 {
        RqbStatus::Timeout
    } else if v == 5 {
        RqbStatus::NoMemory
    } else if v == 6 {
        RqbStatus::AccessDenied
    } else if v == 7 {
        RqbStatus::NotFound
    } else if v == 8 {
        RqbStatus::Busy
    } else if v == 9 {
        RqbStatus::Aborted
    } else {
        RqbStatus::GeneralFailure
    }
}

impl RqbStatus {
    /// The code of this status on the wire and in `Rqb::status`.
    pub open spec fn spec_code(self) -> u16 {
        match self {
            RqbStatus::Success => 0,
            RqbStatus::GeneralFailure => 1,
            RqbStatus::InvalidService => 2,
            RqbStatus::InvalidParam => 3,
            RqbStatus::Timeout => 4,
            RqbStatus::NoMemory => 5,
            RqbStatus::AccessDenied => 6,
            RqbStatus::NotFound => 7,
            RqbStatus::Busy => 8,
            RqbStatus::Aborted => 9,
        }
    }

    /// The code of this status on the wire and in `Rqb::status`.
    pub fn code(self) -> (r: u16)
        ensures
            r == self.spec_code(),
    {
        match self {
            RqbStatus::Success => 0,
            RqbStatus::GeneralFailure => 1,
            RqbStatus::InvalidService => 2,
            RqbStatus::InvalidParam => 3,
            RqbStatus::Timeout => 4,
            RqbStatus::NoMemory => 5,
            RqbStatus::AccessDenied => 6,
            RqbStatus::NotFound => 7,
            RqbStatus::Busy => 8,
            RqbStatus::Aborted => 9,
        }
    }
}

impl RqbStatus {
    pub open spec fn text(self) -> Seq<char> {
        match self {
            RqbStatus::Success => "Success"@,
            RqbStatus::GeneralFailure => "GeneralFailure"@,
            RqbStatus::InvalidService => "InvalidService"@,
            RqbStatus::InvalidParam => "InvalidParam"@,
            RqbStatus::Timeout => "Timeout"@,
            RqbStatus::NoMemory => "NoMemory"@,
            RqbStatus::AccessDenied => "AccessDenied"@,
            RqbStatus::NotFound => "NotFound"@,
            RqbStatus::Busy => "Busy"@,
            RqbStatus::Aborted => "Aborted"@,
        }
    }

    /// Name of the status.
    pub fn name(self) -> (r: &'static str)
        ensures
            r@ == self.text(),
    {
        match self {
            RqbStatus::Success => "Success",
            RqbStatus::GeneralFailure => "GeneralFailure",
            RqbStatus::InvalidService => "InvalidService",
            RqbStatus::InvalidParam => "InvalidParam",
            RqbStatus::Timeout => "Timeout",
            RqbStatus::NoMemory => "NoMemory",
            RqbStatus::AccessDenied => "AccessDenied",
            RqbStatus::NotFound => "NotFound",
            RqbStatus::Busy => "Busy",
            RqbStatus::Aborted => "Aborted",
        }
    }
}

impl vstd::std_specs::convert::FromSpecImpl<u16> for RqbStatus {
    open spec fn obeys_from_spec() -> bool {
        true
    }

    open spec fn from_spec(v: u16) -> RqbStatus {
        status_of_code(v)
    }
}

impl From<u16> for RqbStatus {
    fn from(v: u16) -> (r: Self) {
        match v {
            0 => RqbStatus::Success,
            1 => RqbStatus::GeneralFailure,
            2 => RqbStatus::InvalidService,
            3 => RqbStatus::InvalidParam,
            4 => RqbStatus::Timeout,
            5 => RqbStatus::NoMemory,
            6 => RqbStatus::AccessDenied,
            7 => RqbStatus::NotFound,
            8 => RqbStatus::Busy,
            9 => RqbStatus::Aborted,
            _ => RqbStatus::GeneralFailure,
        }
    }
}

/// Reading back the code of a status gives the status again, and every code
/// outside the ten known ones reads as a general failure.
pub proof fn law_status_code_round_trip(s: RqbStatus, v: u16)
    ensures
        status_of_code(s.spec_code()) == s,
        v <= 9 ==> status_of_code(v).spec_code() == v,
        v > 9 ==> status_of_code(v) == RqbStatus::GeneralFailure,
{
}

/// A fixed-size inter-task message.
#[derive(Clone, Copy)]
pub struct Rqb {
    /// Identifies what this request is for.
    pub service: RqbServiceCode,
    /// Status of the request or response.
    pub status: u16,
    /// Sender task ID (set by the kernel).
    pub sender_id: u32,
    /// Receiver task ID (set by the kernel or the caller).
    pub receiver_id: u32,
    /// Number of bytes used in `data`.
    pub data_size: u16,
    /// Padding, zero.
    pub reserved: [u16; 2],
    /// Payload.
    pub data: [u8; RQB_DATA_SIZE],
}

/// The number of payload bytes a message declares, never more than it holds.
pub open spec fn payload_len(data_size: u16) -> int {
    if data_size as int <= RQB_DATA_SIZE as int {
        data_size as int
    } else {
        RQB_DATA_SIZE as int
    }
}

impl Rqb {
    /// The payload that the message declares.
    pub open spec fn payload(&self) -> Seq<u8> {
        self.data@.subrange(0, payload_len(self.data_size))
    }

    /// This message with the sender and receiver that the kernel stamps on it.
    pub open spec fn stamped(self, sender: u32, receiver: u32) -> Rqb {
        Rqb { sender_id: sender, receiver_id: receiver, ..self }
    }

    /// A message with every field zero.
    pub open spec fn is_blank(&self) -> bool {
        &&& self.service == 0
        &&& self.status == 0
        &&& self.sender_id == 0
        &&& self.receiver_id == 0
        &&& self.data_size == 0
        &&& self.reserved@ =~= seq![0u16, 0u16]
        &&& self.data@ =~= Seq::new(RQB_DATA_SIZE as nat, |i: int| 0u8)
    }

    /// The message as its author hands it over: service, status and payload,
    /// with everything else zero.
    pub open spec fn composed(&self, service: u16, status: RqbStatus, payload: Seq<u8>) -> bool {
        &&& self.service == service
        &&& self.status == status.spec_code()
        &&& self.sender_id == 0
        &&& self.receiver_id == 0
        &&& self.data_size == payload.len()
        &&& self.reserved@ =~= seq![0u16, 0u16]
        &&& self.data@ =~= payload + Seq::new((RQB_DATA_SIZE - payload.len()) as nat, |i: int| 0u8)
        &&& self.payload() =~= payload
    }

    /// Creates a zeroed message.
    pub fn new() -> (r: Self)
        ensures
            r.is_blank(),
    {
        Rqb {
            service: 0,
            status: 0,
            sender_id: 0,
            receiver_id: 0,
            data_size: 0,
            reserved: [0; 2],
            data: [0; 64],
        }
    }

    /// Creates a zeroed message with a service code.
    pub fn with_service(service: RqbServiceCode) -> (r: Self)
        ensures
            r.service == service,
            (Rqb { service: 0, ..r }).is_blank(),
    {
        let mut r = Rqb::new();
        r.service = service;
        r
    }

    /// Sets the payload from a byte slice, truncated to `RQB_DATA_SIZE`
    /// bytes; payload bytes past it keep their values.
    pub fn set_data(&mut self, data: &[u8])
        ensures
            ({
                let n = if data@.len() <= RQB_DATA_SIZE { data@.len() as int } else { RQB_DATA_SIZE as int };
                &&& final(self).data_size == n
                &&& final(self).data@ =~= data@.subrange(0, n)
                    + old(self).data@.subrange(n, RQB_DATA_SIZE as int)
                &&& final(self).payload() =~= data@.subrange(0, n)
            }),
            *final(self) == (Rqb {
                data_size: final(self).data_size,
                data: final(self).data,
                ..*old(self)
            }),
    {
        let len: usize = if data.len() < RQB_DATA_SIZE { data.len() } else { RQB_DATA_SIZE };
        let mut i: usize = 0;
        while i < len
            invariant
                i <= len <= RQB_DATA_SIZE,
                len <= data@.len(),
                self.data@ =~= data@.subrange(0, i as int)
                    + old(self).data@.subrange(i as int, RQB_DATA_SIZE as int),
                *self == (Rqb { data: self.data, ..*old(self) }),
            decreases len - i,
        {
            self.data[i] = data[i];
            i += 1;
        }
        self.data_size = len as u16;
    }

    /// The payload.
    pub fn get_data(&self) -> (r: &[u8])
        ensures
            r@ =~= self.payload(),
    {
        let n: usize = if (self.data_size as usize) < RQB_DATA_SIZE {
            self.data_size as usize
        } else {
            RQB_DATA_SIZE
        };
        vstd::slice::slice_subrange(self.data.as_slice(), 0, n)
    }

    /// Sets the status code.
    pub fn set_status(&mut self, status: RqbStatus)
        ensures
            *final(self) == (Rqb { status: status.spec_code(), ..*old(self) }),
    {
        self.status = status.code();
    }

    /// The request in words.
    pub fn describe(&self) -> (r: Vec<u8>)
        ensures
            r@ == "RQB[svc=0x".spec_bytes() + hex_digits(self.service as int, 4)
                + " status=".spec_bytes() + decimal(self.status as nat) + " sender=".spec_bytes()
                + decimal(self.sender_id as nat) + " recv=".spec_bytes()
                + decimal(self.receiver_id as nat) + " size=".spec_bytes()
                + decimal(self.data_size as nat) + "]".spec_bytes(),
    {
        let mut out: Vec<u8> = Vec::new();
        out.extend_from_slice("RQB[svc=0x".as_bytes());
        write_hex_digits(&mut out, self.service as u64, 4);
        out.extend_from_slice(" status=".as_bytes());
        write_dec(&mut out, self.status as u64);
        out.extend_from_slice(" sender=".as_bytes());
        write_dec(&mut out, self.sender_id as u64);
        out.extend_from_slice(" recv=".as_bytes());
        write_dec(&mut out, self.receiver_id as u64);
        out.extend_from_slice(" size=".as_bytes());
        write_dec(&mut out, self.data_size as u64);
        out.extend_from_slice("]".as_bytes());
        out
    }

    /// Whether the status is success.
    pub fn is_ok(&self) -> (r: bool)
        ensures
            r == (status_of_code(self.status) == RqbStatus::Success),
    {
        self.status == RqbStatus::Success.code()
    }
}

/// No operation (ping).
pub const SVC_NOP: RqbServiceCode = 0x0000;

/// Get system information.
pub const SVC_SYS_INFO: RqbServiceCode = 0x0001;

/// Get the time.
pub const SVC_GET_TIME: RqbServiceCode = 0x0002;

/// Sleep for a number of milliseconds.
pub const SVC_SLEEP: RqbServiceCode = 0x0003;

/// Console: write a string.
pub const SVC_CONSOLE_WRITE: RqbServiceCode = 0x0100;

/// Console: read a line.
pub const SVC_CONSOLE_READ: RqbServiceCode = 0x0101;

/// Memory: allocate.
pub const SVC_MEM_ALLOC: RqbServiceCode = 0x0200;

/// Memory: free.
pub const SVC_MEM_FREE: RqbServiceCode = 0x0201;

/// Text service: upper-case the payload.
pub const SVC_TEXT_UPPER: RqbServiceCode = 0x0300;

/// Text service: reverse the payload.
pub const SVC_TEXT_REVERSE: RqbServiceCode = 0x0301;

/// Text service: shut down (exits without replying).
pub const SVC_TEXT_SHUTDOWN: RqbServiceCode = 0x03FF;

} // verus!
