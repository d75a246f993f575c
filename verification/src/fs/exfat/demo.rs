//! The boot-time demonstration of the file system: mount, list, read a file
//! that was put there, create one or find it again, list.

use vstd::prelude::*;
use vstd::string::StringSliceAdditionalSpecFns;
use super::create::Created;
use crate::bytes::same_bytes;
use crate::serial::{decimal, sent, write_dec, write_line, write_str};

verus! {

/// What is done next.
#[derive(Debug, Clone, Copy, PartialEq, Eq, Structural)]
pub enum FsStep {
    /// Mount the volume.
    Mount,
    /// List the root directory.
    ListBefore,
    /// Read the file that was put there.
    ReadReadme,
    /// Read our own file, if it is there.
    ReadOurs,
    /// Create it.
    Create,
    /// Read it back.
    ReadBack,
    /// List the root directory again.
    ListAfter,
    /// Nothing.
    Ended,
}

/// What came of it.
pub enum FsEvent {
    Mounted(bool),
    Listed,
    Contents(Option<Vec<u8>>),
    Created(Created),
}

/// Name of the file that was put there.
pub const README: &'static str = "README.TXT";

/// Name of our own file.
pub const OURS: &'static str = "MMURTL.TXT";

/// What is written to our own file.
pub const CONTENT: &'static str = "Written by the MMURTL/RS exFAT driver. If you can read this from the host, the write path works end to end.\n";

/// The event is one of this step.
pub open spec fn fits(step: FsStep, event: FsEvent) -> bool {
    match step {
        FsStep::Mount => event is Mounted,
        FsStep::ListBefore => event is Listed,
        FsStep::ReadReadme => event is Contents,
        FsStep::ReadOurs => event is Contents,
        FsStep::Create => event is Created,
        FsStep::ReadBack => event is Contents,
        FsStep::ListAfter => event is Listed,
        FsStep::Ended => false,
    }
}

/// The step after this one.
pub open spec fn next(step: FsStep, event: FsEvent) -> FsStep {
    match (step, event) {
        (FsStep::Mount, FsEvent::Mounted(ok)) => if ok {
            FsStep::ListBefore
        } else {
            FsStep::Ended
        },
        (FsStep::ListBefore, _) => FsStep::ReadReadme,
        (FsStep::ReadReadme, _) => FsStep::ReadOurs,
        (FsStep::ReadOurs, FsEvent::Contents(Some(_))) => FsStep::ListAfter,
        (FsStep::ReadOurs, _) => FsStep::Create,
        (FsStep::Create, FsEvent::Created(Ok(_))) => FsStep::ReadBack,
        (FsStep::Create, _) => FsStep::ListAfter,
        (FsStep::ReadBack, _) => FsStep::ListAfter,
        _ => FsStep::Ended,
    }
}

/// A character that is shown.
pub open spec fn shown(b: u8) -> bool {
    32 <= b <= 126
}

/// The start of a file, as it is shown: what is printable of its first 120
/// bytes.
pub open spec fn excerpt(data: Seq<u8>) -> Seq<u8> {
    data.take(
        if data.len() < 120 {
            data.len() as int
        } else {
            120
        },
    ).filter(|b: u8| shown(b))
}

/// What is told of the event.
pub open spec fn told(step: FsStep, event: FsEvent) -> Seq<u8> {
    match (step, event) {
        (FsStep::ReadReadme, FsEvent::Contents(Some(data))) => sent(
            "[FS] README.TXT: ".spec_bytes(),
        ) + excerpt(data@) + seq![10u8],
        (FsStep::ReadOurs, FsEvent::Contents(Some(data))) => sent(
            "[FS] MMURTL.TXT persisted from a previous boot (".spec_bytes(),
        ) + decimal(data@.len()) + sent(
            " bytes) — write path verified across reboots".spec_bytes(),
        ) + seq![10u8],
        (FsStep::ReadBack, FsEvent::Contents(Some(data))) => if data@ == CONTENT.spec_bytes() {
            sent("[FS] Created MMURTL.TXT (".spec_bytes()) + decimal(data@.len()) + sent(
                " bytes), read-back verified".spec_bytes(),
            ) + seq![10u8]
        } else {
            sent("[FS] Created MMURTL.TXT but READ-BACK FAILED".spec_bytes()) + seq![10u8]
        },
        (FsStep::ReadBack, _) => sent("[FS] Created MMURTL.TXT but READ-BACK FAILED".spec_bytes())
            + seq![10u8],
        (FsStep::Create, FsEvent::Created(Err(e))) => sent(
            "[FS] create_file failed: ".spec_bytes(),
        ) + sent(vstd::utf8::encode_utf8(e.text())) + seq![10u8],
        _ => Seq::empty(),
    }
}

fn push_excerpt(out: &mut Vec<u8>, data: &[u8])
    ensures
        final(out)@ == old(out)@ + excerpt(data@),
{
    let n: usize = if data.len() < 120 {
        data.len()
    } else {
        120
    };
    let ghost p = |b: u8| shown(b);
    let ghost head = data@.take(n as int);
    let mut i: usize = 0;
    assert(head.take(0).filter(p) =~= Seq::<u8>::empty()) by {
        reveal(Seq::filter);
    }
    while i < n
        invariant
            i <= n <= data@.len(),
            p == (|b: u8| shown(b)),
            head == data@.take(n as int),
            out@ =~= old(out)@ + head.take(i as int).filter(p),
        decreases n - i,
    {
        let b: u8 = data[i];
        proof {
            reveal(Seq::filter);
            assert(head.take(i as int + 1).drop_last() =~= head.take(i as int));
        }
        if 32 <= b && b <= 126 {
            out.push(b);
        }
        i += 1;
    }
    assert(head.take(n as int) =~= head);
}

/// Takes what came of a step, tells of it, and gives the next step.
pub fn demo(step: FsStep, event: &FsEvent, out: &mut Vec<u8>) -> (r: FsStep)
    requires
        fits(step, *event),
    ensures
        r == next(step, *event),
        final(out)@ =~= old(out)@ + told(step, *event),
{
    match (step, event) {
        (FsStep::Mount, FsEvent::Mounted(ok)) => if *ok {
            FsStep::ListBefore
        } else {
            FsStep::Ended
        },
        (FsStep::ListBefore, _) => FsStep::ReadReadme,
        (FsStep::ReadReadme, FsEvent::Contents(data)) => {
            if let Some(data) = data {
                write_str(out, "[FS] README.TXT: ");
                push_excerpt(out, data.as_slice());
                out.push(10);
            }
            FsStep::ReadOurs
        },
        (FsStep::ReadOurs, FsEvent::Contents(data)) => match data {
            Some(data) => {
                write_str(out, "[FS] MMURTL.TXT persisted from a previous boot (");
                write_dec(out, data.len() as u64);
                write_line(out, " bytes) — write path verified across reboots");
                FsStep::ListAfter
            },
            None => FsStep::Create,
        },
        (FsStep::Create, FsEvent::Created(done)) => match done {
            Ok(_) => FsStep::ReadBack,
            Err(e) => {
                write_str(out, "[FS] create_file failed: ");
                write_line(out, e.message());
                FsStep::ListAfter
            },
        },
        (FsStep::ReadBack, FsEvent::Contents(data)) => {
            let right = match data {
                Some(data) => same_bytes(data.as_slice(), CONTENT.as_bytes()),
                None => false,
            };
            if right {
                write_str(out, "[FS] Created MMURTL.TXT (");
                write_dec(out, CONTENT.as_bytes().len() as u64);
                write_line(out, " bytes), read-back verified");
            } else {
                write_line(out, "[FS] Created MMURTL.TXT but READ-BACK FAILED");
            }
            FsStep::ListAfter
        },
        _ => FsStep::Ended,
    }
}

/// After mounting, the directory is listed and two files are read. Where the second is not there it is
/// made and, if that succeeds, read back; the directory is listed once more, and that is all. A
/// volume that does not mount ends it at once.
pub proof fn law_order_of_the_demo(ok: bool, event: FsEvent)
    ensures
        next(FsStep::Mount, FsEvent::Mounted(true)) is ListBefore,
        next(FsStep::Mount, FsEvent::Mounted(false)) is Ended,
        next(FsStep::ListBefore, event) is ReadReadme,
        next(FsStep::ReadReadme, event) is ReadOurs,
        event matches FsEvent::Contents(Some(_)) ==> next(FsStep::ReadOurs, event) is ListAfter,
        event matches FsEvent::Contents(None) ==> next(FsStep::ReadOurs, event) is Create,
        event matches FsEvent::Created(Ok(_)) ==> next(FsStep::Create, event) is ReadBack,
        event matches FsEvent::Created(Err(_)) ==> next(FsStep::Create, event) is ListAfter,
        next(FsStep::ReadBack, event) is ListAfter,
        next(FsStep::ListAfter, event) is Ended,
        next(FsStep::Ended, event) is Ended,
{
}

/// Of a file the printable bytes among the first 120 are shown, in their order.
pub proof fn law_excerpt(data: Seq<u8>, b: u8)
    ensures
        data.len() > 120 ==> excerpt(data) == excerpt(data.take(120)),
        data.len() < 120 && 32 <= b <= 126 ==> excerpt(data.push(b)) == excerpt(data).push(b),
        data.len() < 120 && !(32 <= b <= 126) ==> excerpt(data.push(b)) == excerpt(data),
{
    if data.len() > 120 {
        assert(data.take(120).take(120) =~= data.take(120));
    } else if data.len() < 120 {
        assert(data.take(data.len() as int) =~= data);
        let more = data.push(b);
        assert(more.take(more.len() as int) =~= more);
        assert(more.drop_last() =~= data);
        reveal(Seq::filter);
    }
}

} // verus!
