//! The part of the boot that all machines share, and the tasks of the boot
//! demonstration that only write to the console.

use vstd::prelude::*;
use vstd::string::StringSliceAdditionalSpecFns;
use crate::serial::{decimal, hex_digits, sent, write_dec, write_hex_byte, write_str};

verus! {

pub const KERNEL_NAME: &'static str = "MMURTL/RS";

/// How many worker tasks the demonstration has.
pub const WORKERS: u32 = 4;

/// The first lines on the console.
pub open spec fn banner_text(version: Seq<u8>, arch: Seq<u8>, banner: Seq<u8>) -> Seq<u8> {
    sent(KERNEL_NAME.spec_bytes()) + sent(" v".spec_bytes()) + sent(version) + sent(" (".spec_bytes())
        + sent(arch) + sent(") booting...\n\n".spec_bytes()) + sent(banner) + sent("\n".spec_bytes())
}

/// Writes the first lines on the console.
pub fn print_banner(out: &mut Vec<u8>, version: &str, arch: &str, banner: &str)
    ensures
        final(out)@ == old(out)@ + banner_text(
            version.spec_bytes(),
            arch.spec_bytes(),
            banner.spec_bytes(),
        ),
{
    write_str(out, KERNEL_NAME);
    write_str(out, " v");
    write_str(out, version);
    write_str(out, " (");
    write_str(out, arch);
    write_str(out, ") booting...\n\n");
    write_str(out, banner);
    write_str(out, "\n");
    assert(out@ =~= old(out)@ + banner_text(
        version.spec_bytes(),
        arch.spec_bytes(),
        banner.spec_bytes(),
    ));
}

/// The shared part of the boot, step by step.
#[derive(Debug, Clone, Copy, PartialEq, Eq, Structural)]
pub enum KernelStep {
    /// Test the block device.
    Storage,
    /// Test the network device.
    Network,
    /// Mount and try the file system.
    Filesystem,
    /// Start the message passing.
    Ipc,
    /// Try the heap.
    Heap,
    /// Create the worker tasks.
    Workers,
    /// Create the tasks of the message passing demonstration.
    IpcDemo,
    /// Announce the system calls.
    Syscalls,
    /// Load the user programs.
    Userspace,
    /// Create the task that echoes console input.
    Echo,
    /// Enable interrupts: the boot CPU joins the others.
    Ready,
}

impl KernelStep {
    /// The step after this one.
    pub open spec fn next(self) -> Option<KernelStep> {
        match self {
            KernelStep::Storage => Some(KernelStep::Network),
            KernelStep::Network => Some(KernelStep::Filesystem),
            KernelStep::Filesystem => Some(KernelStep::Ipc),
            KernelStep::Ipc => Some(KernelStep::Heap),
            KernelStep::Heap => Some(KernelStep::Workers),
            KernelStep::Workers => Some(KernelStep::IpcDemo),
            KernelStep::IpcDemo => Some(KernelStep::Syscalls),
            KernelStep::Syscalls => Some(KernelStep::Userspace),
            KernelStep::Userspace => Some(KernelStep::Echo),
            KernelStep::Echo => Some(KernelStep::Ready),
            KernelStep::Ready => None,
        }
    }

    /// What the console says before the step.
    pub open spec fn announced(self, cpus: nat) -> Seq<u8> {
        match self {
            KernelStep::Storage => sent("[TEST] Storage self-test...\n".spec_bytes()),
            KernelStep::Network => sent("[TEST] Network ARP test...\n".spec_bytes()),
            KernelStep::Filesystem => sent("[TEST] exFAT filesystem...\n".spec_bytes()),
            KernelStep::Ipc => sent("[INIT] IPC subsystem...\n".spec_bytes()),
            KernelStep::Heap => sent("[TEST] Heap allocation test...\n".spec_bytes()),
            KernelStep::Workers => sent("[SCHED] Creating demo worker tasks...\n".spec_bytes()),
            KernelStep::IpcDemo => sent("[IPC] Starting IPC demo tasks...\n".spec_bytes()),
            KernelStep::Syscalls => Seq::empty(),
            KernelStep::Userspace => sent("[USER] Loading ring-3 programs...\n".spec_bytes()),
            KernelStep::Echo => Seq::empty(),
            KernelStep::Ready => sent("\n✓ MMURTL/RS kernel ready — ".spec_bytes()) + decimal(cpus)
                + sent(" CPU(s) scheduling.\n".spec_bytes()),
        }
    }
}

/// Announces a step of the shared part of the boot, and gives the one after
/// it; `None` after the last, when the boot CPU idles.
pub fn kernel_run(step: KernelStep, cpus: u64, out: &mut Vec<u8>) -> (r: Option<KernelStep>)
    ensures
        r == step.next(),
        final(out)@ =~= old(out)@ + step.announced(cpus as nat),
{
    match step {
        KernelStep::Storage => {
            write_str(out, "[TEST] Storage self-test...\n");
            Some(KernelStep::Network)
        },
        KernelStep::Network => {
            write_str(out, "[TEST] Network ARP test...\n");
            Some(KernelStep::Filesystem)
        },
        KernelStep::Filesystem => {
            write_str(out, "[TEST] exFAT filesystem...\n");
            Some(KernelStep::Ipc)
        },
        KernelStep::Ipc => {
            write_str(out, "[INIT] IPC subsystem...\n");
            Some(KernelStep::Heap)
        },
        KernelStep::Heap => {
            write_str(out, "[TEST] Heap allocation test...\n");
            Some(KernelStep::Workers)
        },
        KernelStep::Workers => {
            write_str(out, "[SCHED] Creating demo worker tasks...\n");
            Some(KernelStep::IpcDemo)
        },
        KernelStep::IpcDemo => {
            write_str(out, "[IPC] Starting IPC demo tasks...\n");
            Some(KernelStep::Syscalls)
        },
        KernelStep::Syscalls => Some(KernelStep::Userspace),
        KernelStep::Userspace => {
            write_str(out, "[USER] Loading ring-3 programs...\n");
            Some(KernelStep::Echo)
        },
        KernelStep::Echo => Some(KernelStep::Ready),
        KernelStep::Ready => {
            write_str(out, "\n✓ MMURTL/RS kernel ready — ");
            write_dec(out, cpus);
            write_str(out, " CPU(s) scheduling.\n");
            None
        },
    }
}

/// The first `n` multiples of 100, with commas between.
pub open spec fn hundreds(n: int) -> Seq<u8>
    decreases n,
{
    if n <= 0 {
        Seq::empty()
    } else if n == 1 {
        decimal(0)
    } else {
        hundreds(n - 1) + sent(", ".spec_bytes()) + decimal(((n - 1) * 100) as nat)
    }
}

/// What the trial of the heap writes.
pub open spec fn heap_text() -> Seq<u8> {
    sent("[TEST] Box: ".spec_bytes()) + decimal(42) + sent("\n".spec_bytes()) + sent(
        "[TEST] Vec: [".spec_bytes(),
    ) + hundreds(10) + sent("]\n".spec_bytes()) + sent(
        "[TEST] String: test-format-".spec_bytes(),
    ) + decimal(42) + sent("\n".spec_bytes()) + sent("[TEST] Heap allocation OK!\n".spec_bytes())
}

/// Tries the heap with a box, a vector and a string, and writes what they
/// hold.
pub fn heap_test(out: &mut Vec<u8>)
    ensures
        final(out)@ == old(out)@ + heap_text(),
{
    let boxed: Box<u64> = Box::new(42);
    write_str(out, "[TEST] Box: ");
    write_dec(out, *boxed);
    write_str(out, "\n");
    let mut numbers: Vec<u64> = Vec::new();
    let mut i: u64 = 0;
    while i < 10
        invariant
            i <= 10,
            numbers@ =~= Seq::new(i as nat, |k: int| (k * 100) as u64),
        decreases 10 - i,
    {
        numbers.push(i * 100);
        i += 1;
    }
    write_str(out, "[TEST] Vec: [");
    let ghost before = out@;
    let mut k: usize = 0;
    while k < numbers.len()
        invariant
            k <= numbers@.len(),
            numbers@ =~= Seq::new(10, |k: int| (k * 100) as u64),
            out@ =~= before + hundreds(k as int),
        decreases numbers@.len() - k,
    {
        if k > 0 {
            write_str(out, ", ");
        }
        write_dec(out, numbers[k]);
        k += 1;
    }
    write_str(out, "]\n");
    write_str(out, "[TEST] String: test-format-");
    write_dec(out, *boxed);
    write_str(out, "\n");
    write_str(out, "[TEST] Heap allocation OK!\n");
    assert(out@ =~= old(out)@ + heap_text());
}

/// A line of a worker task: its task, the CPU that it is on, its count.
pub open spec fn worker_text(tid: u32, cpu: u64, count: u64) -> Seq<u8> {
    "[T".spec_bytes() + decimal(tid as nat) + " on CPU".spec_bytes() + decimal(cpu as nat)
        + "] count=".spec_bytes() + decimal(count as nat) + seq![10u8]
}

/// A line of a worker task, in one piece so that lines of workers on
/// different CPUs do not mix.
pub fn worker_task(tid: u32, cpu: u64, count: u64) -> (r: Vec<u8>)
    ensures
        r@ == worker_text(tid, cpu, count),
{
    let mut line: Vec<u8> = Vec::new();
    line.extend_from_slice("[T".as_bytes());
    write_dec(&mut line, tid as u64);
    line.extend_from_slice(" on CPU".as_bytes());
    write_dec(&mut line, cpu);
    line.extend_from_slice("] count=".as_bytes());
    write_dec(&mut line, count);
    line.push(10);
    assert(line@ =~= worker_text(tid, cpu, count));
    line
}

/// A line of the echo task: the character that was typed, by itself if it is
/// printable, else by its number.
pub open spec fn echo_text(cpu: u64, c: u8) -> Seq<u8> {
    "[KBD on CPU".spec_bytes() + decimal(cpu as nat) + if 32 <= c <= 126 {
        "] '".spec_bytes() + seq![c] + "'\n".spec_bytes()
    } else {
        "] 0x".spec_bytes() + hex_digits(c as int, 2) + seq![10u8]
    }
}

/// A line of the echo task.
pub fn kbd_echo_task(cpu: u64, c: u8) -> (r: Vec<u8>)
    ensures
        r@ == echo_text(cpu, c),
{
    let mut line: Vec<u8> = Vec::new();
    line.extend_from_slice("[KBD on CPU".as_bytes());
    write_dec(&mut line, cpu);
    if 32 <= c && c <= 126 {
        line.extend_from_slice("] '".as_bytes());
        line.push(c);
        line.extend_from_slice("'\n".as_bytes());
    } else {
        line.extend_from_slice("] 0x".as_bytes());
        write_hex_byte(&mut line, c);
        line.push(10);
    }
    assert(line@ =~= echo_text(cpu, c));
    line
}

/// The line with the message of a panic.
pub open spec fn panic_message(message: Option<&str>) -> Seq<u8> {
    match message {
        Some(m) => sent("Message: ".spec_bytes()) + sent(m.spec_bytes()) + sent("\n".spec_bytes()),
        None => Seq::empty(),
    }
}

/// The line with the place of a panic.
pub open spec fn panic_place(place: Option<(&str, u32)>) -> Seq<u8> {
    match place {
        Some((file, line)) => sent("At: ".spec_bytes()) + sent(file.spec_bytes()) + sent(
            ":".spec_bytes(),
        ) + decimal(line as nat) + sent("\n".spec_bytes()),
        None => Seq::empty(),
    }
}

/// The report of a panic.
pub open spec fn panic_text(message: Option<&str>, place: Option<(&str, u32)>) -> Seq<u8> {
    sent("\n\n!!! KERNEL PANIC !!!\n".spec_bytes()) + panic_message(message) + panic_place(place)
}

/// Writes the report of a panic: its message and place, as far as known.
pub fn panic_report(out: &mut Vec<u8>, message: Option<&str>, place: Option<(&str, u32)>)
    ensures
        final(out)@ == old(out)@ + panic_text(message, place),
{
    write_str(out, "\n\n!!! KERNEL PANIC !!!\n");
    write_message(out, message);
    write_place(out, place);
    assert(out@ =~= old(out)@ + panic_text(message, place));
}

fn write_message(out: &mut Vec<u8>, message: Option<&str>)
    ensures
        final(out)@ == old(out)@ + panic_message(message),
{
    if let Some(m) = message {
        write_str(out, "Message: ");
        write_str(out, m);
        write_str(out, "\n");
    }
    assert(out@ =~= old(out)@ + panic_message(message));
}

fn write_place(out: &mut Vec<u8>, place: Option<(&str, u32)>)
    ensures
        final(out)@ == old(out)@ + panic_place(place),
{
    if let Some((file, line)) = place {
        write_str(out, "At: ");
        write_str(out, file);
        write_str(out, ":");
        write_dec(out, line as u64);
        write_str(out, "\n");
    }
    assert(out@ =~= old(out)@ + panic_place(place));
}

/// The kernel goes through its steps in this order, and is ready at the end.
pub proof fn law_order_of_the_steps()
    ensures
        KernelStep::Storage.next() == Some(KernelStep::Network),
        KernelStep::Network.next() == Some(KernelStep::Filesystem),
        KernelStep::Filesystem.next() == Some(KernelStep::Ipc),
        KernelStep::Ipc.next() == Some(KernelStep::Heap),
        KernelStep::Heap.next() == Some(KernelStep::Workers),
        KernelStep::Workers.next() == Some(KernelStep::IpcDemo),
        KernelStep::IpcDemo.next() == Some(KernelStep::Syscalls),
        KernelStep::Syscalls.next() == Some(KernelStep::Userspace),
        KernelStep::Userspace.next() == Some(KernelStep::Echo),
        KernelStep::Echo.next() == Some(KernelStep::Ready),
        KernelStep::Ready.next() is None,
{
}

/// A worker's line begins with its task and ends with its count, each in decimal.
pub proof fn law_worker_line(tid: u32, cpu: u64, count: u64)
    ensures
        ({
            let line = worker_text(tid, cpu, count);
            let head = "[T".spec_bytes() + decimal(tid as nat) + " on CPU".spec_bytes() + decimal(
                cpu as nat,
            );
            let tail = decimal(count as nat) + seq![10u8];
            &&& head.is_prefix_of(line)
            &&& tail.is_suffix_of(line)
            &&& line.len() == head.len() + "] count=".spec_bytes().len() + tail.len()
        }),
{
}

/// A key that can be shown is shown as itself between quotes; any other as two hexadecimal digits.
pub proof fn law_echoed_key(cpu: u64, c: u8)
    ensures
        32 <= c <= 126 ==> (seq![c] + "'\n".spec_bytes()).is_suffix_of(echo_text(cpu, c)),
        c < 32 || c > 126 ==> (hex_digits(c as int, 2) + seq![10u8]).is_suffix_of(echo_text(cpu, c)),
        ("[KBD on CPU".spec_bytes() + decimal(cpu as nat)).is_prefix_of(echo_text(cpu, c)),
{
}

/// The list of hundreds goes on, after a comma, with the next hundred.
pub proof fn law_hundreds(n: int)
    requires
        n >= 1,
    ensures
        hundreds(1) == decimal(0),
        hundreds(n).is_prefix_of(hundreds(n + 1)),
        decimal((100 * n) as nat).is_suffix_of(hundreds(n + 1)),
        hundreds(n + 1).len() == hundreds(n).len() + sent(", ".spec_bytes()).len() + decimal(
            (100 * n) as nat,
        ).len(),
{
}

} // verus!
