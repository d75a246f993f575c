use mmurtl_rs::scheduler::rqb::{Rqb, RqbStatus};
use mmurtl_rs::scheduler::task::{TaskControlBlock, TaskState};
use mmurtl_rs::scheduler::{
    create_task, create_user_task, current_cpu, current_task_id, current_task_name, exit_current,
    init, jiffies, kick, mark_current_exited, poll_reply, receive_rqb, register_ap, reply_rqb,
    send_rqb, sleep_deadline, sleep_ms, task_state, try_receive_rqb, Scheduler, TickSource, user_stack_top,
};

const PRIORITY: u8 = 16;

fn booted() -> Scheduler {
    let mut s = Scheduler::new();
    let source = init(&mut s, true, 0);
    assert_eq!(source, TickSource::LocalTimer);
    s
}

fn add(s: &mut Scheduler, name: &'static str) -> u32 {
    let stack = 0x10_0000 + 0x1_0000 * (current_id_hint(s) as u64 + 1);
    create_task(s, 0, stack, 0x8000, 160, PRIORITY, name, false).0
}

fn current_id_hint(s: &Scheduler) -> u32 {
    // The number of tasks that exist, found by their states.
    let mut n = 0;
    while task_state(s, n + 1).is_some() {
        n += 1;
    }
    n
}

/// Switches CPU 0 until the task with this name runs there.
fn run_until(s: &mut Scheduler, name: &str) {
    for _ in 0..20 {
        if current_task_name(s, 0) == name {
            return;
        }
        s.on_tick(0, 0x7000, false, false);
    }
    panic!("{} never ran", name);
}

#[test]
fn boot_task_is_adopted_and_runs() {
    let s = booted();
    assert_eq!(jiffies(&s), 0);
    assert_ne!(current_task_id(&s, 0), 0);
    assert_eq!(current_cpu(&s, true, 0), 0);
}

#[test]
fn second_init_changes_nothing() {
    let mut s = booted();
    assert_eq!(init(&mut s, true, 0), TickSource::AlreadyRunning);
}

#[test]
fn without_an_apic_the_legacy_timer_ticks() {
    let mut s = Scheduler::new();
    match init(&mut s, false, 0) {
        TickSource::Legacy(ops) => assert!(!ops.is_empty()),
        other => panic!("{:?}", other),
    }
}

#[test]
fn new_tasks_are_ready_with_distinct_ids() {
    let mut s = booted();
    let a = add(&mut s, "a");
    let b = add(&mut s, "b");
    assert_ne!(a, b);
    assert_eq!(task_state(&s, a), Some(TaskState::Ready));
    assert_eq!(task_state(&s, b), Some(TaskState::Ready));
    assert_eq!(task_state(&s, 0xDEAD), None);
}

#[test]
fn user_task_is_created_ready() {
    let mut s = booted();
    let (id, cpu) = create_user_task(&mut s, 0, 0x20_0000, 0x8000, 160, PRIORITY, "u", false);
    assert_eq!(task_state(&s, id), Some(TaskState::Ready));
    assert_eq!(cpu, None);
    assert_eq!(user_stack_top(&s, 0), None);
    s.on_tick(0, 0x7000, false, false);
    assert_eq!(current_task_id(&s, 0), id);
    assert_eq!(user_stack_top(&s, 0), Some(0x20_8000));
}

#[test]
fn ready_tasks_take_turns() {
    let mut s = booted();
    add(&mut s, "a");
    add(&mut s, "b");
    add(&mut s, "c");
    let mut seen: Vec<&str> = Vec::new();
    for _ in 0..6 {
        s.on_tick(0, 0x7000, false, false);
        seen.push(current_task_name(&s, 0));
    }
    for name in ["a", "b", "c"] {
        assert_eq!(seen.iter().filter(|n| **n == name).count(), 2);
    }
    assert_eq!(seen[0..3], seen[3..6]);
}

#[test]
fn two_cpus_never_run_one_task() {
    let mut s = booted();
    register_ap(&mut s, 1, 1);
    add(&mut s, "only");
    s.on_tick(0, 0x7000, false, false);
    s.on_tick(1, 0x7100, false, false);
    assert_eq!(current_task_name(&s, 0), "only");
    assert_ne!(current_task_name(&s, 1), "only");
    assert_eq!(current_cpu(&s, true, 1), 1);
}

#[test]
fn creating_a_task_names_an_idle_cpu() {
    let mut s = booted();
    register_ap(&mut s, 1, 7);
    let (_, cpu) = create_task(&mut s, 0, 0x10_0000, 0x8000, 160, PRIORITY, "w", true);
    assert_eq!(cpu, Some(7));
    assert_eq!(kick(Some(7), true), Some(7));
    assert_eq!(kick(Some(7), false), None);
    assert_eq!(kick(None, true), None);
}

#[test]
fn request_is_delivered_and_answered() {
    let mut s = booted();
    let client = add(&mut s, "client");
    let server = add(&mut s, "server");
    run_until(&mut s, "client");
    let mut rqb = Rqb::with_service(0x0400);
    rqb.set_data(b"hello");
    assert_eq!(send_rqb(&mut s, 0, server, &mut rqb, false), Ok(None));
    assert_eq!(task_state(&s, client), Some(TaskState::WaitingReply));
    assert_eq!(poll_reply(&mut s, 0, &mut rqb), None);

    run_until(&mut s, "server");
    let req = receive_rqb(&mut s, 0).unwrap();
    assert_eq!(req.sender_id, client);
    assert_eq!(req.get_data(), b"hello");
    let mut resp = Rqb::with_service(0x0400);
    resp.set_data(b"HELLO");
    resp.set_status(RqbStatus::Success);
    assert_eq!(reply_rqb(&mut s, 0, client, &resp, false).0, RqbStatus::Success);
    assert_eq!(task_state(&s, client), Some(TaskState::Ready));

    run_until(&mut s, "client");
    assert_eq!(poll_reply(&mut s, 0, &mut rqb), Some(RqbStatus::Success));
    assert_eq!(rqb.get_data(), b"HELLO");
    assert_eq!(rqb.sender_id, server);
}

#[test]
fn reply_reaches_a_sender_behind_others() {
    let mut s = booted();
    let first = add(&mut s, "first");
    let second = add(&mut s, "second");
    let server = add(&mut s, "server");
    add(&mut s, "other");
    // The server runs no CPU yet; two requests queue up.
    run_until(&mut s, "first");
    let mut early = Rqb::with_service(1);
    assert!(send_rqb(&mut s, 0, server, &mut early, false).is_ok());
    run_until(&mut s, "second");
    let mut late = Rqb::with_service(2);
    assert!(send_rqb(&mut s, 0, server, &mut late, false).is_ok());
    // Nobody else can answer for the server, and ticks change nothing.
    run_until(&mut s, "other");
    let mut m = Rqb::with_service(9);
    assert_eq!(reply_rqb(&mut s, 0, second, &m, false).0, RqbStatus::InvalidParam);
    s.on_tick(0, 0x7000, true, false);
    assert_eq!(task_state(&s, second), Some(TaskState::WaitingReply));
    // The server answers the later request while the earlier one is taken.
    run_until(&mut s, "server");
    assert_eq!(receive_rqb(&mut s, 0).unwrap().sender_id, first);
    m.set_status(RqbStatus::Busy);
    m.set_data(b"later");
    assert_eq!(reply_rqb(&mut s, 0, second, &m, false).0, RqbStatus::Success);
    assert_eq!(reply_rqb(&mut s, 0, second, &m, false).0, RqbStatus::InvalidParam);
    assert_eq!(task_state(&s, first), Some(TaskState::WaitingReply));
    assert_eq!(receive_rqb(&mut s, 0).unwrap().sender_id, second);
    s.on_tick(0, 0x7000, true, false);
    run_until(&mut s, "second");
    assert_eq!(poll_reply(&mut s, 0, &mut late), Some(RqbStatus::Busy));
    assert_eq!((late.service, late.sender_id, late.receiver_id), (9, server, second));
    assert_eq!(late.get_data(), b"later");
    assert_eq!(poll_reply(&mut s, 0, &mut late), None);
    // The server exits: the other sender is told.
    run_until(&mut s, "server");
    exit_current(&mut s, 0, false);
    s.on_tick(0, 0x7000, false, false);
    run_until(&mut s, "first");
    assert_eq!(poll_reply(&mut s, 0, &mut early), Some(RqbStatus::Aborted));
    assert_eq!((early.sender_id, early.receiver_id), (server, first));
}

#[test]
fn inbox_is_first_in_first_out() {
    let mut s = booted();
    add(&mut s, "c1");
    add(&mut s, "c2");
    let server = add(&mut s, "server");
    for (name, byte) in [("c1", 1u8), ("c2", 2u8)] {
        run_until(&mut s, name);
        let mut rqb = Rqb::with_service(0x0400);
        rqb.set_data(&[byte]);
        assert_eq!(send_rqb(&mut s, 0, server, &mut rqb, false), Ok(None));
    }
    run_until(&mut s, "server");
    assert_eq!(try_receive_rqb(&mut s, 0).unwrap().get_data(), &[1]);
    assert_eq!(try_receive_rqb(&mut s, 0).unwrap().get_data(), &[2]);
    assert!(try_receive_rqb(&mut s, 0).is_none());
}

#[test]
fn receive_blocks_on_an_empty_inbox() {
    let mut s = booted();
    let server = add(&mut s, "server");
    run_until(&mut s, "server");
    assert!(receive_rqb(&mut s, 0).is_none());
    assert_eq!(task_state(&s, server), Some(TaskState::WaitingRqb));
}

#[test]
fn sends_that_cannot_be_answered_are_refused() {
    let mut s = booted();
    let me = add(&mut s, "me");
    let other = add(&mut s, "other");
    run_until(&mut s, "me");
    let mut rqb = Rqb::with_service(0x0400);
    assert_eq!(send_rqb(&mut s, 0, me, &mut rqb, false), Err(RqbStatus::InvalidParam));
    assert_eq!(send_rqb(&mut s, 0, 0xDEAD, &mut rqb, false), Err(RqbStatus::NotFound));
    assert_eq!(reply_rqb(&mut s, 0, other, &Rqb::new(), false).0, RqbStatus::InvalidParam);
    run_until(&mut s, "other");
    exit_current(&mut s, 0, false);
    s.on_tick(0, 0x7000, false, false);
    run_until(&mut s, "me");
    assert_eq!(send_rqb(&mut s, 0, other, &mut rqb, false), Err(RqbStatus::NotFound));
}

#[test]
fn full_inbox_is_busy() {
    let mut s = booted();
    let server = add(&mut s, "server");
    // Each sender blocks, so every request needs a task of its own.
    for _ in 0..33 {
        add(&mut s, "sender");
    }
    let mut accepted = 0;
    let mut refused = 0;
    for _ in 0..200 {
        s.on_tick(0, 0x7000, false, false);
        if current_task_name(&s, 0) == "sender" {
            let mut rqb = Rqb::with_service(0x0400);
            match send_rqb(&mut s, 0, server, &mut rqb, false) {
                Ok(_) => accepted += 1,
                Err(e) => {
                    assert_eq!(e, RqbStatus::Busy);
                    refused += 1;
                },
            }
        }
    }
    assert_eq!(accepted, 32);
    assert!(refused > 0);
}

#[test]
fn exit_fails_what_is_owed() {
    let mut s = booted();
    let client = add(&mut s, "client");
    let server = add(&mut s, "server");
    run_until(&mut s, "client");
    let mut rqb = Rqb::with_service(0x0400);
    assert_eq!(send_rqb(&mut s, 0, server, &mut rqb, false), Ok(None));
    run_until(&mut s, "server");
    mark_current_exited(&mut s, 0, false);
    assert_eq!(task_state(&s, server), Some(TaskState::Exited));
    run_until(&mut s, "client");
    assert_eq!(poll_reply(&mut s, 0, &mut rqb), Some(RqbStatus::Aborted));
    assert_eq!(task_state(&s, client), Some(TaskState::Running));
}

#[test]
fn exited_tasks_never_run_again() {
    let mut s = booted();
    add(&mut s, "gone");
    run_until(&mut s, "gone");
    exit_current(&mut s, 0, false);
    for _ in 0..10 {
        s.on_tick(0, 0x7000, true, false);
        assert_ne!(current_task_name(&s, 0), "gone");
    }
}

#[test]
fn sleepers_wake_at_their_deadline() {
    let mut s = booted();
    let tid = add(&mut s, "sleeper");
    run_until(&mut s, "sleeper");
    let until = sleep_deadline(&s, 30);
    assert_eq!(until, jiffies(&s) + 3);
    assert!(sleep_ms(&mut s, 0, until));
    assert_eq!(task_state(&s, tid), Some(TaskState::Sleeping));
    s.on_tick(0, 0x7000, true, false);
    s.on_tick(0, 0x7000, true, false);
    assert_eq!(task_state(&s, tid), Some(TaskState::Sleeping));
    s.on_tick(0, 0x7000, true, false);
    assert_ne!(task_state(&s, tid), Some(TaskState::Sleeping));
    run_until(&mut s, "sleeper");
    assert!(!sleep_ms(&mut s, 0, until));
}

#[test]
fn idle_sender_is_answered_once_it_blocks_again() {
    let mut s = booted();
    let server = add(&mut s, "server");
    let idle = current_task_id(&s, 0);
    let mut rqb = Rqb::with_service(0x0400);
    assert_eq!(send_rqb(&mut s, 0, server, &mut rqb, false), Ok(None));
    run_until(&mut s, "server");
    assert_eq!(receive_rqb(&mut s, 0).unwrap().sender_id, idle);
    assert!(receive_rqb(&mut s, 0).is_none());
    // Both wait, so the idle task is dispatched all the same.
    s.on_tick(0, 0x7000, false, false);
    assert_eq!(current_task_id(&s, 0), idle);
    assert_eq!(task_state(&s, idle), Some(TaskState::Running));
    assert_eq!(poll_reply(&mut s, 0, &mut rqb), None);
    assert_eq!(task_state(&s, idle), Some(TaskState::WaitingReply));

    let helper = add(&mut s, "helper");
    run_until(&mut s, "helper");
    let mut wake = Rqb::with_service(0x0400);
    assert!(send_rqb(&mut s, 0, server, &mut wake, false).is_ok());
    run_until(&mut s, "server");
    let mut resp = Rqb::with_service(0x0400);
    resp.set_data(b"HELLO");
    resp.set_status(RqbStatus::Busy);
    assert_eq!(reply_rqb(&mut s, 0, idle, &resp, false).0, RqbStatus::Success);
    assert_eq!(task_state(&s, helper), Some(TaskState::WaitingReply));
    assert!(receive_rqb(&mut s, 0).is_some());
    assert!(receive_rqb(&mut s, 0).is_none());
    s.on_tick(0, 0x7000, false, false);
    assert_eq!(current_task_id(&s, 0), idle);
    assert_eq!(poll_reply(&mut s, 0, &mut rqb), Some(RqbStatus::Busy));
    assert_eq!(rqb.get_data(), b"HELLO");
    assert_eq!((rqb.sender_id, rqb.receiver_id), (server, idle));
}

#[test]
fn messages_do_not_wake_a_sleeper() {
    let mut s = booted();
    let sleeper = add(&mut s, "sleeper");
    add(&mut s, "client");
    run_until(&mut s, "sleeper");
    let until = jiffies(&s) + 1000;
    assert!(sleep_ms(&mut s, 0, until));
    run_until(&mut s, "client");
    let mut rqb = Rqb::with_service(0x0400);
    assert_eq!(send_rqb(&mut s, 0, sleeper, &mut rqb, false), Ok(None));
    assert_eq!(task_state(&s, sleeper), Some(TaskState::Sleeping));
    s.on_tick(0, 0x7000, true, false);
    assert_eq!(task_state(&s, sleeper), Some(TaskState::Sleeping));
}

#[test]
fn status_codes_go_both_ways() {
    for (status, code) in [
        (RqbStatus::Success, 0u16),
        (RqbStatus::GeneralFailure, 1),
        (RqbStatus::InvalidService, 2),
        (RqbStatus::InvalidParam, 3),
        (RqbStatus::Timeout, 4),
        (RqbStatus::NoMemory, 5),
        (RqbStatus::AccessDenied, 6),
        (RqbStatus::NotFound, 7),
        (RqbStatus::Busy, 8),
        (RqbStatus::Aborted, 9),
    ] {
        assert_eq!(status.code(), code);
        assert_eq!(RqbStatus::from(code), status);
    }
    assert_eq!(RqbStatus::from(77), RqbStatus::GeneralFailure);
}

#[test]
fn message_data_is_cut_to_what_fits() {
    let mut rqb = Rqb::new();
    rqb.set_data(&[7u8; 100]);
    assert_eq!(rqb.get_data(), &[7u8; 64]);
    rqb.set_data(b"ab");
    assert_eq!(rqb.get_data(), b"ab");
    assert!(rqb.is_ok());
    rqb.set_status(RqbStatus::Busy);
    assert!(!rqb.is_ok());
}

#[test]
fn active_states() {
    assert!(TaskState::Ready.is_active());
    assert!(TaskState::Running.is_active());
    assert!(!TaskState::Exited.is_active());
}

#[test]
fn requests_and_tasks_in_words() {
    let mut rqb = Rqb::with_service(0x0300);
    rqb.set_status(RqbStatus::Busy);
    rqb.sender_id = 4;
    rqb.receiver_id = 12;
    rqb.set_data(b"abc");
    assert_eq!(rqb.describe(), b"RQB[svc=0x0300 status=8 sender=4 recv=12 size=3]");
    let task = TaskControlBlock::new(7, 0x10_0000, 0x8000, 160, 16, "worker");
    assert_eq!(task.describe(), b"TCB#7 \"worker\" Ready prio=16 ticks=0");
    assert_eq!(TaskState::WaitingReply.name(), "WaitingReply");
}
