use woflos::process::context::Context;
use woflos::process::{
    alloc_pid, current_process, init, set_current_process, Process, ProcessState,
};

#[test]
fn new_process_is_ready() {
    let p = Process::new(7, "init", 0x8700_0000, 0x8701_0000);
    assert_eq!(p.pid, 7);
    assert_eq!(p.name, "init");
    assert_eq!(p.state, ProcessState::Ready);
    assert_eq!(p.context, Context::new_user(0x8700_0000, 0x8701_0000));
}

#[test]
fn state_setters() {
    let mut p = Process::new(1, "a", 0, 0);
    p.set_running();
    assert_eq!(p.state, ProcessState::Running);
    assert_eq!(p.pid, 1);
    assert_eq!(p.name, "a");
    p.set_ready();
    assert_eq!(p.state, ProcessState::Ready);
    assert_eq!(p.context, Context::new_user(0, 0));
}

#[test]
fn first_pid_is_one() {
    let mut table = init();
    assert_eq!(alloc_pid(&mut table), 1);
}

#[test]
fn pids_strictly_increase() {
    let mut table = init();
    let mut last = alloc_pid(&mut table);
    for _ in 0..100 {
        let next = alloc_pid(&mut table);
        assert!(next > last);
        assert_eq!(next, last + 1);
        last = next;
    }
}

#[test]
fn pids_increase_across_other_activity() {
    let mut table = init();
    let a = alloc_pid(&mut table);
    set_current_process(&mut table, Process::new(a, "one", 0, 0));
    let b = alloc_pid(&mut table);
    assert!(current_process(&table).is_some());
    set_current_process(&mut table, Process::new(b, "two", 0, 0));
    let c = alloc_pid(&mut table);
    assert!(a < b && b < c);
}

#[test]
fn no_process_is_current_at_first() {
    let table = init();
    assert!(current_process(&table).is_none());
}

#[test]
fn setting_the_current_process_overwrites() {
    let mut table = init();
    set_current_process(&mut table, Process::new(3, "first", 0x10, 0x20));
    assert_eq!(current_process(&table).map(|p| p.pid), Some(3));
    set_current_process(&mut table, Process::new(9, "second", 0x30, 0x40));
    let current = current_process(&table).expect("a process is current");
    assert_eq!(current.pid, 9);
    assert_eq!(current.name, "second");
    assert_eq!(current.state, ProcessState::Ready);
    assert_eq!(current.context.pc, 0x30);
}
