use woflos::interrupts::sbi_set_timer;
use woflos::process::context::Context;
use woflos::process::{set_current_process, Process};
use woflos::trap::{
    context_to_stack, create_test_user_context, enter_user_mode, handle_exception,
    handle_interrupt, stack_to_context, trap_entry, trap_handler, Kernel, Privilege, TrapAction,
    TrapCause, TrapFrame, EXC_ECALL_SUPERVISOR, EXC_ECALL_USER, EXC_INSTRUCTION_PAGE_FAULT,
    EXC_LOAD_PAGE_FAULT, EXC_STORE_PAGE_FAULT, IRQ_SUPERVISOR_TIMER, SLOT_A0, SLOT_A7, SLOT_SP,
};
use woflos::uart::UART_BASE;

const INTERRUPT: usize = 1 << 63;

fn numbered_context() -> Context {
    Context {
        ra: 1, sp: 2, gp: 3, tp: 4, t0: 5, t1: 6, t2: 7, s0: 8, s1: 9, a0: 10, a1: 11, a2: 12,
        a3: 13, a4: 14, a5: 15, a6: 16, a7: 17, s2: 18, s3: 19, s4: 20, s5: 21, s6: 22, s7: 23,
        s8: 24, s9: 25, s10: 26, s11: 27, t3: 28, t4: 29, t5: 30, t6: 31,
        pc: 0x8000_1000,
        sstatus: 0x120,
    }
}

fn contains(haystack: &[u8], needle: &[u8]) -> bool {
    haystack.windows(needle.len()).any(|w| w == needle)
}

#[test]
fn zero_frame() {
    let frame = TrapFrame::zero();
    assert_eq!(frame.regs, [0usize; 31]);
    assert_eq!(frame.sepc, 0);
    assert_eq!(frame.sstatus, 0);
}

#[test]
fn frame_slots_follow_register_numbers() {
    let mut frame = TrapFrame::zero();
    context_to_stack(&numbered_context(), &mut frame);
    for slot in 0..31 {
        // Slot i holds register x(i+1).
        assert_eq!(frame.regs[slot], slot + 1);
    }
    assert_eq!(frame.sepc, 0x8000_1000);
    assert_eq!(frame.sstatus, 0x120);
    assert_eq!(frame.regs[SLOT_SP], 2);
    assert_eq!(frame.regs[SLOT_A0], 10);
    assert_eq!(frame.regs[SLOT_A7], 17);
}

#[test]
fn frame_round_trip() {
    let registers = numbered_context();
    let mut frame = TrapFrame::zero();
    context_to_stack(&registers, &mut frame);
    assert_eq!(stack_to_context(&frame), registers);
    let mut again = TrapFrame::zero();
    context_to_stack(&stack_to_context(&frame), &mut again);
    assert_eq!(again, frame);
}

#[test]
fn user_frame_has_entry_stack_and_status() {
    let frame = create_test_user_context(0x8700_0000, 0x8701_0000);
    let mut regs = [0usize; 31];
    regs[1] = 0x8701_0000;
    assert_eq!(frame.regs, regs);
    assert_eq!(frame.sepc, 0x8700_0000);
    assert_eq!(frame.sstatus, 0x20);
    assert_eq!(stack_to_context(&frame), Context::new_user(0x8700_0000, 0x8701_0000));
}

#[test]
fn entering_user_mode_clears_every_register_but_sp() {
    for (entry, stack) in [(0x8700_0000usize, 0x8701_0000usize), (0, 0), (4, usize::MAX)] {
        let resumed = enter_user_mode(&create_test_user_context(entry, stack));
        assert_eq!(resumed.privilege, Privilege::User);
        assert!(resumed.interrupts_enabled);
        assert_eq!(resumed.registers.pc, entry);
        assert_eq!(resumed.registers.sp, stack);
        let mut expected = Context::zero();
        expected.pc = entry;
        expected.sp = stack;
        expected.sstatus = 0x20;
        assert_eq!(resumed.registers, expected);
    }
}

#[test]
fn entering_with_supervisor_status_stays_in_supervisor_mode() {
    let mut frame = create_test_user_context(0x100, 0x200);
    frame.sstatus = 0x100;
    let resumed = enter_user_mode(&frame);
    assert_eq!(resumed.privilege, Privilege::Supervisor);
    assert!(!resumed.interrupts_enabled);
}

#[test]
fn decode_splits_top_bit_and_code() {
    assert_eq!(TrapCause::decode(13), TrapCause { is_interrupt: false, code: 13 });
    assert_eq!(TrapCause::decode(INTERRUPT | 5), TrapCause { is_interrupt: true, code: 5 });
    assert_eq!(TrapCause::decode(INTERRUPT), TrapCause { is_interrupt: true, code: 0 });
    assert_eq!(TrapCause::decode(0), TrapCause { is_interrupt: false, code: 0 });
    assert_eq!(
        TrapCause::decode(usize::MAX),
        TrapCause { is_interrupt: true, code: usize::MAX >> 1 }
    );
    assert_eq!(
        TrapCause::decode(usize::MAX >> 1),
        TrapCause { is_interrupt: false, code: usize::MAX >> 1 }
    );
}

#[test]
fn cause_codes() {
    assert_eq!(IRQ_SUPERVISOR_TIMER, 5);
    assert_eq!(EXC_ECALL_USER, 8);
    assert_eq!(EXC_ECALL_SUPERVISOR, 9);
    assert_eq!(EXC_INSTRUCTION_PAGE_FAULT, 12);
    assert_eq!(EXC_LOAD_PAGE_FAULT, 13);
    assert_eq!(EXC_STORE_PAGE_FAULT, 15);
    assert_eq!(UART_BASE, 0x1000_0000);
}

#[test]
fn new_kernel() {
    let mut kernel = Kernel::new();
    assert_eq!(kernel.ticks, 0);
    assert_eq!(kernel.uart.base_address(), 0x1000_0000);
    assert!(kernel.uart.take_output().is_empty());
    assert!(woflos::process::current_process(&kernel.processes).is_none());
}

#[test]
fn timer_interrupt_ticks_and_rearms() {
    let mut kernel = Kernel::new();
    let mut frame = TrapFrame::zero();
    context_to_stack(&numbered_context(), &mut frame);
    let before = frame;
    let action = trap_handler(&mut kernel, &mut frame, INTERRUPT | 5, 0, 1_000);
    assert_eq!(action, TrapAction::SetTimer(sbi_set_timer(10_001_000)));
    assert_eq!(kernel.ticks, 1);
    assert_eq!(frame, before);
    assert_eq!(kernel.uart.take_output(), b"[TICK] 0x0000000000000001\n".to_vec());
}

#[test]
fn n_timer_traps_tick_n_times() {
    let mut kernel = Kernel::new();
    let mut frame = TrapFrame::zero();
    let mut timer_calls = 0;
    for i in 0..10u64 {
        match trap_handler(&mut kernel, &mut frame, INTERRUPT | 5, 0, i) {
            TrapAction::SetTimer(call) => {
                assert_eq!(call, sbi_set_timer(i + 10_000_000));
                timer_calls += 1;
            }
            other => panic!("unexpected action {:?}", other),
        }
    }
    assert_eq!(kernel.ticks, 10);
    assert_eq!(timer_calls, 10);
}

#[test]
fn unknown_interrupt_is_reported_and_ignored() {
    let mut kernel = Kernel::new();
    let mut frame = TrapFrame::zero();
    context_to_stack(&numbered_context(), &mut frame);
    let before = frame;
    let action = trap_handler(&mut kernel, &mut frame, INTERRUPT | 9, 0, 0);
    assert_eq!(action, TrapAction::Resume);
    assert_eq!(kernel.ticks, 0);
    assert_eq!(frame, before);
    assert_eq!(
        kernel.uart.take_output(),
        b"[TRAP] Unknown interrupt: 0x0000000000000009\n".to_vec()
    );
}

#[test]
fn handle_interrupt_directly() {
    let mut kernel = Kernel::new();
    assert_eq!(
        handle_interrupt(&mut kernel, 5, 50),
        TrapAction::SetTimer(sbi_set_timer(10_000_050))
    );
    assert_eq!(handle_interrupt(&mut kernel, 1, 50), TrapAction::Resume);
    assert_eq!(kernel.ticks, 1);
}

#[test]
fn syscall_through_the_frame() {
    let mut kernel = Kernel::new();
    let mut frame = create_test_user_context(0x8700_0000, 0x8701_0000);
    frame.regs[SLOT_A7] = 0;
    frame.regs[3] = 0x44;
    let before = frame;
    let action = trap_handler(&mut kernel, &mut frame, 8, 0, 0);
    assert_eq!(action, TrapAction::Resume);
    let mut expected = before;
    expected.regs[SLOT_A0] = 42;
    expected.sepc = 0x8700_0004;
    assert_eq!(frame, expected);
}

#[test]
fn unknown_syscall_through_the_frame_touches_only_a0_and_pc() {
    let mut kernel = Kernel::new();
    let mut frame = TrapFrame::zero();
    let mut registers = numbered_context();
    registers.a7 = 999;
    context_to_stack(&registers, &mut frame);
    let before = frame;
    let action = trap_handler(&mut kernel, &mut frame, 8, 0, 0);
    assert_eq!(action, TrapAction::Resume);
    let mut expected = before;
    expected.regs[SLOT_A0] = usize::MAX;
    expected.sepc = before.sepc + 4;
    assert_eq!(frame, expected);
    assert_eq!(kernel.ticks, 0);
}

#[test]
fn getpid_through_the_frame() {
    let mut kernel = Kernel::new();
    set_current_process(&mut kernel.processes, Process::new(6, "init", 0, 0));
    let mut frame = create_test_user_context(0x100, 0x200);
    frame.regs[SLOT_A7] = 3;
    assert_eq!(handle_exception(&mut kernel, 8, 0, &mut frame), TrapAction::Resume);
    assert_eq!(frame.regs[SLOT_A0], 6);
    assert_eq!(frame.sepc, 0x104);
}

#[test]
fn load_page_fault_is_fatal() {
    let mut kernel = Kernel::new();
    let mut frame = create_test_user_context(0x8700_0040, 0x8701_0000);
    let before = frame;
    let action = trap_handler(&mut kernel, &mut frame, 13, 0xDEAD_0000, 0);
    assert_eq!(action, TrapAction::Halt);
    assert_eq!(frame, before);
    let log = kernel.uart.take_output();
    assert!(contains(&log, b"cause=13"));
    assert!(contains(&log, b"stval=0xdead0000"));
    assert_eq!(
        log,
        b"\n[PANIC] Load page fault\n[PANIC] cause=13 sepc=0x87000040 stval=0xdead0000\n[PANIC] System halted.\n"
            .to_vec()
    );
}

#[test]
fn every_other_exception_is_fatal() {
    let names: [(usize, &str); 6] = [
        (9, "Unexpected ecall from S-mode"),
        (12, "Instruction page fault"),
        (15, "Store page fault"),
        (2, "Unhandled exception"),
        (0, "Unhandled exception"),
        (14, "Unhandled exception"),
    ];
    for (code, name) in names {
        let mut kernel = Kernel::new();
        let mut frame = create_test_user_context(0x40, 0x80);
        let action = trap_handler(&mut kernel, &mut frame, code, 0x1234, 0);
        assert_eq!(action, TrapAction::Halt);
        assert_eq!(
            kernel.uart.take_output(),
            format!(
                "\n[PANIC] {}\n[PANIC] cause={} sepc=0x40 stval=0x1234\n[PANIC] System halted.\n",
                name, code
            )
            .into_bytes()
        );
    }
}

#[test]
fn trap_entry_round_trips_registers_under_a_handler_that_does_nothing() {
    let mut kernel = Kernel::new();
    let mut registers = numbered_context();
    let action = trap_entry(&mut kernel, &mut registers, INTERRUPT | 1, 0, 0);
    assert_eq!(action, TrapAction::Resume);
    assert_eq!(registers, numbered_context());
}

#[test]
fn trap_entry_serves_a_system_call() {
    let mut kernel = Kernel::new();
    let mut registers = numbered_context();
    registers.a7 = 1;
    registers.a0 = b'!' as usize;
    let action = trap_entry(&mut kernel, &mut registers, 8, 0, 0);
    assert_eq!(action, TrapAction::Resume);
    let mut expected = numbered_context();
    expected.a7 = 1;
    expected.a0 = 0;
    expected.pc += 4;
    assert_eq!(registers, expected);
    assert_eq!(kernel.uart.take_output(), vec![b'!']);
}
