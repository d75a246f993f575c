use mmurtl_rs::ipc::{
    self, client_accepts, client_request, lookup_service, register_service, reply_text, shutdown_line,
    sleep_check, sleep_line, text_service_task, wait_for_service, CheckAction, DemoTask, IpcCheck, ServiceAction, Services,
    TextClient,
};
use mmurtl_rs::kernel::{
    heap_test, kbd_echo_task, kernel_run, panic_report, print_banner, worker_task, KernelStep,
};
use mmurtl_rs::line::{BoundedLine, LineSize};
use mmurtl_rs::programs::{collatz, longest_chain, sieve, COLLATZ_LIMIT, SIEVE_SIZE};
use mmurtl_rs::scheduler::rqb::{Rqb, RqbStatus, SVC_SYS_INFO, SVC_TEXT_SHUTDOWN};
use mmurtl_rs::scheduler::task::TaskState;
use mmurtl_rs::scheduler::{
    create_task, current_task_id, current_task_name, init, poll_reply, task_state, Scheduler,
};
use mmurtl_rs::serial::{write_dec, write_hex, write_hex_byte, write_line, write_str};
use mmurtl_rs::syscall::{
    self, rqb_decode, rqb_encode, sys_exit, sys_log, sys_lookup_service, sys_receive_done,
    sys_receive_rqb, sys_register_service, sys_reply_rqb, sys_send_done, sys_send_rqb, syscall_dispatch,
    ReceiveStep, SendStep, Syscall, EFAULT, EINVAL,
};
use mmurtl_rs::user_runtime::{self, is_err, lookup_result, Line};
use mmurtl_rs::userspace::{
    self, echo_accepts, echo_request, exited, kill_faulting_task, sysinfo_service_task,
    user_check_task, wait_until, EchoClient, Program, UserCheck, WaitStep,
};

fn text(bytes: Vec<u8>) -> String {
    String::from_utf8(bytes).unwrap()
}

#[test]
fn console_text_has_no_carriage_returns() {
    let mut out = Vec::new();
    write_str(&mut out, "a\r\nb");
    write_line(&mut out, "c");
    assert_eq!(out, b"a\nbc\n");
}

#[test]
fn console_numbers() {
    let mut out = Vec::new();
    for n in [0, 7, 10, 1_234_567_890, u64::MAX] {
        write_dec(&mut out, n);
        out.push(b' ');
    }
    assert_eq!(text(out), "0 7 10 1234567890 18446744073709551615 ");
    let mut out = Vec::new();
    write_hex(&mut out, 0xDEAD_BEEF);
    write_hex_byte(&mut out, 0x0A);
    assert_eq!(text(out), "00000000deadbeef0a");
}

#[test]
fn services_are_found_by_their_last_owner() {
    let mut s = Services::new();
    assert!(register_service(&mut s, "text", 5));
    assert!(register_service(&mut s, "info", 6));
    assert!(register_service(&mut s, "text", 7));
    assert_eq!(lookup_service(&s, "text"), Some(7));
    assert_eq!(lookup_service(&s, "info"), Some(6));
    assert_eq!(lookup_service(&s, "tex"), None);
}

#[test]
fn service_names_are_short_and_not_empty() {
    let mut s = Services::new();
    assert!(!register_service(&mut s, "", 5));
    assert!(register_service(&mut s, "0123456789abcdef", 5));
    assert!(!register_service(&mut s, "0123456789abcdefg", 5));
    assert_eq!(lookup_service(&s, "0123456789abcdefg"), None);
    // Sixteen bytes, not characters.
    assert!(register_service(&mut s, "\u{e9}\u{e9}\u{e9}\u{e9}\u{e9}\u{e9}\u{e9}\u{e9}", 6));
    assert!(!register_service(&mut s, "\u{e9}\u{e9}\u{e9}\u{e9}\u{e9}\u{e9}\u{e9}\u{e9}a", 6));
    assert_eq!(wait_for_service(Some(0)), None);
    assert_eq!(wait_for_service(Some(3)), Some(3));
    assert_eq!(wait_for_service(None), None);
}

fn answer(req: &Rqb) -> Rqb {
    match text_service_task(req) {
        ServiceAction::Reply(r) => r,
        ServiceAction::Shutdown => panic!("shut down"),
    }
}

#[test]
fn text_service_answers() {
    let upper = client_request(12, 0);
    assert_eq!(upper.get_data(), b"t12 msg 0");
    assert_eq!(answer(&upper).get_data(), b"T12 MSG 0");
    assert_eq!((upper.sender_id, upper.receiver_id, upper.reserved), (0, 0, [0, 0]));
    assert!(upper.data[9..].iter().all(|b| *b == 0));
    assert!(answer(&upper).data[9..].iter().all(|b| *b == 0));
    let reverse = client_request(12, 1);
    assert_eq!(answer(&reverse).get_data(), b"1 gsm 21t");
    let mut odd = Rqb::with_service(0x7777);
    odd.set_data(b"x");
    let a = answer(&odd);
    assert_eq!(a.status, RqbStatus::InvalidService.code());
    assert_eq!(a.get_data(), b"");
    let stop = Rqb::with_service(SVC_TEXT_SHUTDOWN);
    assert!(matches!(text_service_task(&stop), ServiceAction::Shutdown));
}

#[test]
fn text_service_satisfies_clients() {
    let mut c = TextClient::new(12, 4);
    while let Some(req) = c.next_request() {
        let mut a = answer(&req);
        a.sender_id = 4;
        assert!(c.replied(RqbStatus::Success, &a));
    }
    assert!(c.passed());
    let mut wrong = answer(&client_request(12, 0));
    wrong.sender_id = 5;
    assert!(!client_accepts(12, 0, 4, RqbStatus::Success, &wrong));
    wrong.sender_id = 4;
    assert!(client_accepts(12, 0, 4, RqbStatus::Success, &wrong));
    assert!(!client_accepts(12, 0, 4, RqbStatus::Aborted, &wrong));
    assert!(!client_accepts(12, 2, 4, RqbStatus::Success, &wrong));
}

#[test]
fn message_passing_checks() {
    let (before, after) = ipc::ipc_check_task();
    assert_eq!(before.len(), 4);
    assert_eq!(after, [IpcCheck::ReceiverExits, IpcCheck::SendToExited]);
    match IpcCheck::SendToUnknown.action(1, 2) {
        CheckAction::Send { to, .. } => assert_eq!(to, 0xDEAD),
        CheckAction::Reply { .. } => panic!("reply"),
    }
    match IpcCheck::ReceiverExits.action(1, 2) {
        CheckAction::Send { to, rqb } => assert_eq!((to, rqb.service), (2, SVC_TEXT_SHUTDOWN)),
        CheckAction::Reply { .. } => panic!("reply"),
    }
    assert!(matches!(IpcCheck::ReplyToNonWaiting.action(1, 2), CheckAction::Reply { to: 2 }));
    assert!(IpcCheck::SendToSelf.passed(RqbStatus::InvalidParam));
    assert!(!IpcCheck::SendToSelf.passed(RqbStatus::Success));
    assert!(IpcCheck::ReceiverExits.passed(RqbStatus::Aborted));
    assert_eq!(sleep_check(100, 126), (260, true));
    assert_eq!(sleep_check(100, 124), (240, false));
    assert_eq!(sleep_check(100, 141), (410, false));
}

#[test]
fn message_passing_demo() {
    let mut out = Vec::new();
    ipc::init(&mut out);
    assert_eq!(
        text(out),
        "[IPC] RQB IPC ready: blocking send/receive/reply, service registry\n"
    );
    let names: Vec<&str> = ipc::demo().iter().map(|t: &DemoTask| t.name()).collect();
    assert_eq!(names, ["textsvc", "client", "client", "client", "ipccheck"]);
}

#[test]
fn request_blocks_in_user_memory_read_back() {
    let mut r = Rqb::with_service(0x0102);
    r.set_data(b"hello");
    r.status = 0x0304;
    r.sender_id = 9;
    let b = rqb_encode(&r);
    assert_eq!(b.len(), 96);
    assert_eq!(b[0..4], [2, 1, 4, 3]);
    assert_eq!(b[4], 9);
    assert_eq!(b[12..14], [5, 0]);
    assert_eq!(&b[18..23], b"hello");
    let back = rqb_decode(&b);
    assert_eq!((back.service, back.status, back.sender_id), (0x0102, 0x0304, 0));
    assert_eq!(back.get_data(), b"hello");
    let mut long = b;
    long[12] = 200;
    assert_eq!(rqb_decode(&long).data_size, 64);
}

#[test]
fn syscalls_are_decoded() {
    assert_eq!(syscall_dispatch(0, 1, 2), Syscall::Exit);
    assert_eq!(syscall_dispatch(1, 1, 2), Syscall::Log { ptr: 1, len: 2 });
    assert_eq!(syscall_dispatch(2, 1, 2), Syscall::SendRqb { tid: 1, ptr: 2 });
    assert_eq!(syscall_dispatch(6, 1, 0), Syscall::SleepMs { ms: 1 });
    assert_eq!(syscall_dispatch(6, u64::MAX, 0), Syscall::SleepMs { ms: 3_600_000 });
    assert_eq!(syscall_dispatch(9, 0, 0), Syscall::Yield);
    assert_eq!(syscall_dispatch(10, 0, 0), Syscall::Unknown);
    let mut out = Vec::new();
    syscall::init(&mut out);
    assert_eq!(
        text(out),
        "[SYSCALL] int 0x80 gate (DPL 3): 10 syscalls, user pointers validated\n"
    );
}

#[test]
fn user_logs_are_made_printable() {
    let (line, ret) = sys_log(4, Some(b"a\x07b\x80"), 7, 3);
    assert_eq!(text(line.unwrap()), "[USER T7 CPL3] a?b?\n");
    assert_eq!(ret, 4);
    let (line, _) = sys_log(2, Some(b"x\n"), 7, 3);
    assert_eq!(text(line.unwrap()), "[USER T7 CPL3] x\n");
    assert_eq!(sys_log(201, None, 7, 3), (None, EINVAL));
    assert_eq!(sys_log(5, None, 7, 3), (None, EFAULT));
    assert_eq!(text(sys_exit(7, "hello")), "[USER] T7 \"hello\" exited\n");
}

/// A scheduler with two tasks beside the boot task, the second running.
fn two_tasks() -> (Scheduler, u32, u32) {
    let mut s = Scheduler::new();
    init(&mut s, true, 0);
    let a = create_task(&mut s, 0, 0x10_0000, 0x8000, 160, 16, "a", false).0;
    let b = create_task(&mut s, 0, 0x20_0000, 0x8000, 160, 16, "b", false).0;
    (s, a, b)
}

fn run(s: &mut Scheduler, name: &str) {
    for _ in 0..20 {
        if current_task_name(s, 0) == name {
            return;
        }
        s.on_tick(0, 0x7000, false, false);
    }
    panic!("never ran");
}

#[test]
fn user_requests_are_sent_and_answered() {
    let (mut s, a, b) = two_tasks();
    run(&mut s, "a");
    let mut q = Rqb::with_service(0x0400);
    q.set_data(b"ping");
    let bytes = rqb_encode(&q);
    assert!(matches!(
        sys_send_rqb(&mut s, 0, b as u64, false, Some(&bytes), false),
        SendStep::Fault
    ));
    assert!(matches!(sys_send_rqb(&mut s, 0, b as u64, true, None, false), SendStep::Fault));
    match sys_send_rqb(&mut s, 0, a as u64, true, Some(&bytes), false) {
        SendStep::Refused { rqb, status } => {
            assert_eq!(status, RqbStatus::InvalidParam);
            assert_eq!(rqb.status, status.code());
            assert_eq!(sys_send_done(status, true), status.code() as u64);
        },
        _ => panic!("not refused"),
    }
    assert!(matches!(
        sys_send_rqb(&mut s, 0, b as u64, true, Some(&bytes), false),
        SendStep::Blocked { .. }
    ));
    assert_eq!(task_state(&s, a), Some(TaskState::WaitingReply));

    run(&mut s, "b");
    assert!(matches!(sys_receive_rqb(&mut s, 0, false), ReceiveStep::Fault));
    let req = match sys_receive_rqb(&mut s, 0, true) {
        ReceiveStep::Request(r) => r,
        _ => panic!("no request"),
    };
    assert_eq!(req.get_data(), b"ping");
    assert_eq!(req.sender_id, a);
    assert_eq!(sys_receive_done(&mut s, 0, &req, true, false), (0, None));
    assert!(matches!(sys_reply_rqb(&mut s, 0, a as u64, None, false), (EFAULT, None)));
    let mut r = Rqb::with_service(0x0400);
    r.set_data(b"pong");
    assert_eq!(sys_reply_rqb(&mut s, 0, a as u64, Some(&rqb_encode(&r)), false).0, 0);
    assert_ne!(sys_reply_rqb(&mut s, 0, a as u64, Some(&rqb_encode(&r)), false).0, 0);

    run(&mut s, "a");
    let mut back = Rqb::new();
    let status = poll_reply(&mut s, 0, &mut back).unwrap();
    assert_eq!(back.get_data(), b"pong");
    assert_eq!(sys_send_done(status, true), 0);
    assert_eq!(sys_send_done(status, false), EFAULT);
}

#[test]
fn requests_that_cannot_be_delivered_are_failed() {
    let (mut s, a, b) = two_tasks();
    run(&mut s, "a");
    let bytes = rqb_encode(&Rqb::with_service(1));
    sys_send_rqb(&mut s, 0, b as u64, true, Some(&bytes), false);
    run(&mut s, "b");
    let req = match sys_receive_rqb(&mut s, 0, true) {
        ReceiveStep::Request(r) => r,
        _ => panic!("no request"),
    };
    assert_eq!(sys_receive_done(&mut s, 0, &req, false, false).0, EFAULT);
    run(&mut s, "a");
    assert_eq!(current_task_id(&s, 0), a);
    let mut back = Rqb::new();
    assert_eq!(poll_reply(&mut s, 0, &mut back), Some(RqbStatus::GeneralFailure));
}

#[test]
fn user_receive_blocks() {
    let (mut s, _, b) = two_tasks();
    run(&mut s, "b");
    assert!(matches!(sys_receive_rqb(&mut s, 0, true), ReceiveStep::Blocked));
    assert_eq!(task_state(&s, b), Some(TaskState::WaitingRqb));
}

#[test]
fn user_service_names() {
    let mut s = Services::new();
    assert_eq!(sys_register_service(&mut s, 4, Some(b"echo"), 9), 0);
    assert_eq!(sys_lookup_service(&s, 4, Some(b"echo")), 9);
    assert_eq!(sys_lookup_service(&s, 3, Some(b"ech")), 0);
    assert_eq!(sys_lookup_service(&s, 4, None), EFAULT);
    assert_eq!(sys_lookup_service(&s, 0, Some(b"")), EFAULT);
    assert_eq!(sys_lookup_service(&s, 17, None), EFAULT);
    assert_eq!(sys_register_service(&mut s, 2, Some(b"\xFF\xFE"), 9), EFAULT);
}

#[test]
fn faults_are_reported() {
    assert_eq!(
        text(kill_faulting_task(7, "rogue", "page fault", 0x6400_0000_1004, Some(0xFF))),
        "[USER] T7 \"rogue\" killed: page fault at pc=0x640000001004, addr=0xff\n"
    );
    assert_eq!(
        text(kill_faulting_task(7, "rogue", "invalid opcode", 0, None)),
        "[USER] T7 \"rogue\" killed: invalid opcode at pc=0x0\n"
    );
}

#[test]
fn system_information() {
    let req = Rqb::with_service(SVC_SYS_INFO);
    let r = sysinfo_service_task(&req, "MMURTL/RS", "0.1.0", 4, 1234);
    assert_eq!(r.get_data(), b"MMURTL/RS v0.1.0: 4 CPUs, up 12340 ms");
    let long = sysinfo_service_task(&req, &"N".repeat(100), "1", 4, 0);
    // A name that does not fit is left out, with all that follows.
    assert_eq!(long.get_data(), b"");
    let cut = sysinfo_service_task(&req, &"N".repeat(60), "version", 4, 0);
    assert_eq!(text(cut.get_data().to_vec()), "N".repeat(60) + " v");
    let r = sysinfo_service_task(&Rqb::with_service(0x7777), "M", "1", 4, 0);
    assert_eq!(r.status, RqbStatus::InvalidService.code());
}

#[test]
fn user_checks() {
    assert_eq!(wait_until(true, 0, 100), WaitStep::Met);
    assert_eq!(wait_until(false, 80, 100), WaitStep::Again { waited: 100 });
    assert_eq!(wait_until(false, 100, 100), WaitStep::TimedOut);
    assert!(exited(Some(TaskState::Exited)));
    assert!(!exited(Some(TaskState::Ready)));
    assert!(!exited(None));
    let q = echo_request(2);
    assert_eq!(q.get_data(), b"kernel to user mode #2");
    let mut a = Rqb::with_service(0x0400);
    a.set_data(b"KERNEL TO USER MODE #2");
    a.sender_id = 6;
    assert!(echo_accepts(2, 6, RqbStatus::Success, &a));
    assert!(!echo_accepts(1, 6, RqbStatus::Success, &a));
    assert!(!echo_accepts(2, 5, RqbStatus::Success, &a));
    assert!(user_check_task(6, 3, &[true, true], true, RqbStatus::Aborted));
    assert!(!user_check_task(0, 3, &[true], true, RqbStatus::Aborted));
    assert!(!user_check_task(6, 2, &[true], true, RqbStatus::Aborted));
    assert!(!user_check_task(6, 3, &[true, false], true, RqbStatus::Aborted));
    assert!(!user_check_task(6, 3, &[], false, RqbStatus::Aborted));
    assert!(!user_check_task(6, 3, &[], true, RqbStatus::Success));
}

#[test]
fn echo_client_sends_three_requests() {
    let mut echo = EchoClient::new(6);
    for i in 0..3 {
        assert!(!echo.passed());
        let q = echo.next_request().unwrap();
        let payload = format!("kernel to user mode #{}", i);
        assert_eq!(q.service, 0x0400);
        assert_eq!(q.get_data(), payload.as_bytes());
        assert_eq!((q.status, q.sender_id, q.receiver_id), (0, 0, 0));
        let mut a = Rqb::with_service(0x0400);
        a.set_data(payload.to_uppercase().as_bytes());
        a.sender_id = 6;
        assert!(echo.replied(RqbStatus::Success, &a));
    }
    assert!(echo.next_request().is_none());
    assert!(echo.passed());
    let mut nobody = EchoClient::new(0);
    while let Some(q) = nobody.next_request() {
        assert!(!nobody.replied(RqbStatus::NotFound, &q));
    }
    assert_eq!((nobody.done, nobody.ok), (3, 0));
    assert!(!nobody.passed());
}

#[test]
fn requests_leave_other_fields_zero() {
    let q = TextClient::new(4, 2).next_request().unwrap();
    assert_eq!((q.status, q.sender_id, q.receiver_id, q.reserved), (0, 0, 0, [0; 2]));
    let n = q.data_size as usize;
    assert!(q.data[n..].iter().all(|b| *b == 0));
    for check in [IpcCheck::SendToSelf, IpcCheck::UnknownService, IpcCheck::ReceiverExits] {
        match check.action(7, 2) {
            CheckAction::Send { rqb, .. } => {
                assert_eq!((rqb.status, rqb.sender_id, rqb.receiver_id), (0, 0, 0));
                assert_eq!((rqb.data_size, rqb.reserved), (0, [0; 2]));
                assert!(rqb.data.iter().all(|b| *b == 0));
            }
            CheckAction::Reply { .. } => panic!("a check that sends"),
        }
    }
}

#[test]
fn lines_are_cut_at_a_piece() {
    let long = "x".repeat(90);
    assert_eq!(text(sys_exit(7, &long)), "[USER] T7 \"");
    let line = text(kill_faulting_task(7, &"x".repeat(150), "fault", 0x10, Some(0x20)));
    assert_eq!(line, "[USER] T7 \", addr=0x20\n");
    let start = "x".repeat(62);
    let mut b = BoundedLine::new(LineSize::Bytes64);
    b.text(&start);
    b.dec(123);
    b.text("y");
    b.next_write();
    b.hex(0x1F);
    b.text("z");
    assert_eq!(text(b.into_bytes()), start + "1f");
    let sizes = [
        (LineSize::Bytes64, 64),
        (LineSize::Bytes96, 96),
        (LineSize::Bytes128, 128),
        (LineSize::Bytes160, 160),
        (LineSize::Bytes200, 200),
    ];
    for (size, cap) in sizes {
        let whole = "a".repeat(cap);
        let mut b = BoundedLine::new(size);
        b.text(&whole);
        b.text("b");
        assert_eq!(text(b.into_bytes()), whole);
    }
}

#[test]
fn check_lines() {
    assert_eq!(
        text(IpcCheck::SendToSelf.line(RqbStatus::InvalidParam)),
        format!("[IPC]   {:<34} -> {:?} {}\n", "send to self", RqbStatus::InvalidParam, "\u{2713}")
    );
    assert_eq!(
        text(IpcCheck::ReceiverExits.line(RqbStatus::Busy)),
        format!("[IPC]   {:<34} -> {:?} {}\n", "receiver exits before replying", RqbStatus::Busy, "\u{2717}")
    );
    assert_eq!(
        text(sleep_line(260, true)),
        format!("[IPC]   {:<34} -> {} ms {}\n", "sleep_ms(250)", 260, "\u{2713}")
    );
    assert_eq!(text(shutdown_line(17)), "[IPC] textsvc: served 17 requests, shutting down\n");
    assert_eq!(
        text(UserCheck::Hello.line(true)),
        format!("[USER]   {:<40} {}\n", "hello finished", "\u{2713}")
    );
    assert_eq!(
        text(UserCheck::RoundTrips.line(false)),
        format!("[USER]   {:<40} {}\n", "kernel -> user-mode service (3 round trips)", "\u{2717}")
    );
}

#[test]
fn client_report() {
    let mut c = TextClient::new(12, 4);
    let mut a = answer(&client_request(12, 0));
    a.sender_id = 4;
    c.replied(RqbStatus::Success, &a);
    assert_eq!(
        text(c.report(1, reply_text(&a))),
        "[IPC] client T12 (CPU1): 1/5 round trips verified, last reply \"T12 MSG 0\"\n"
    );
    a.set_data(b"\xFF");
    assert_eq!(reply_text(&a), "?");
}

#[test]
fn user_programs() {
    assert!(userspace::demo(Some((true, true))).is_empty());
    let programs = userspace::demo(None);
    let names: Vec<&str> = programs.iter().map(|p| p.name()).collect();
    assert_eq!(names, ["uecho", "hello", "spinner", "rogue_read", "rogue_priv", "rogue_ptr"]);
    assert_eq!(Program::RogueRead.argument(0x1234), 0x1234);
    assert_eq!(Program::RoguePtr.argument(0x1234), 0x1234);
    assert_eq!(Program::RoguePriv.argument(0x1234), 0);
}

#[test]
fn user_runtime_results() {
    assert!(is_err(u64::MAX));
    assert!(is_err(u64::MAX - 15));
    assert!(!is_err(u64::MAX - 16));
    assert_eq!(lookup_result(0), None);
    assert_eq!(lookup_result(7), Some(7));
    assert_eq!(lookup_result(EFAULT), None);
}

#[test]
fn user_request_blocks() {
    let mut r = user_runtime::Rqb::new(0x0400);
    r.set_payload(b"hello");
    assert_eq!(r.payload(), b"hello");
    r.set_payload(&[7; 100]);
    assert_eq!(r.payload(), [7; 64]);
    r.data_size = 9999;
    assert_eq!(r.payload().len(), 64);
}

#[test]
fn user_lines_are_cut() {
    let mut l = Line::new();
    assert_eq!(l.as_str(), "");
    l.write_str("primes: ");
    l.write_str("1229");
    assert_eq!(l.as_str(), "primes: 1229");
    l.write_str(&"x".repeat(300));
    assert_eq!(l.as_str().len(), 192);
    let mut l = Line::new();
    l.write_str(&"x".repeat(191));
    l.write_str("\u{e9}");
    assert_eq!(l.as_str(), "?");
}

#[test]
fn boot_banner() {
    let mut out = Vec::new();
    print_banner(&mut out, "0.1.0", "amd64", "* banner *\n");
    assert_eq!(text(out), "MMURTL/RS v0.1.0 (amd64) booting...\n\n* banner *\n\n");
}

#[test]
fn shared_boot_is_announced() {
    let mut out = Vec::new();
    let mut step = KernelStep::Storage;
    while let Some(next) = kernel_run(step, 4, &mut out) {
        step = next;
    }
    assert_eq!(step, KernelStep::Ready);
    let all = text(out);
    assert!(all.starts_with("[TEST] Storage self-test...\n[TEST] Network ARP test...\n"));
    assert!(all.ends_with("kernel ready \u{2014} 4 CPU(s) scheduling.\n"));
    assert_eq!(all.lines().count(), 10);
}

#[test]
fn heap_trial_and_demo_lines() {
    let mut out = Vec::new();
    heap_test(&mut out);
    assert_eq!(
        text(out),
        "[TEST] Box: 42\n\
         [TEST] Vec: [0, 100, 200, 300, 400, 500, 600, 700, 800, 900]\n\
         [TEST] String: test-format-42\n\
         [TEST] Heap allocation OK!\n"
    );
    assert_eq!(text(worker_task(3, 1, 20)), "[T3 on CPU1] count=20\n");
    assert_eq!(text(kbd_echo_task(0, b'k')), "[KBD on CPU0] 'k'\n");
    assert_eq!(text(kbd_echo_task(0, 10)), "[KBD on CPU0] 0x0a\n");
}

#[test]
fn panics_are_reported() {
    let mut out = Vec::new();
    panic_report(&mut out, Some("no memory"), Some(("src/main.rs", 12)));
    assert_eq!(text(out), "\n\n!!! KERNEL PANIC !!!\nMessage: no memory\nAt: src/main.rs:12\n");
    let mut out = Vec::new();
    panic_report(&mut out, None, None);
    assert_eq!(text(out), "\n\n!!! KERNEL PANIC !!!\n");
}

#[test]
fn program_computations() {
    assert_eq!(sieve(SIEVE_SIZE), 1229);
    assert_eq!(sieve(0), 0);
    assert_eq!(sieve(3), 1);
    assert_eq!(collatz(27, 1000), Some(112));
    assert_eq!(collatz(27, 111), None);
    assert_eq!(collatz(0, 50), None);
    assert_eq!(longest_chain(COLLATZ_LIMIT, 1000), (17647, 279));
}
