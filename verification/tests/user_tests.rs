use woflos::process::context::Context;
use woflos::process::{alloc_pid, current_process, ProcessState};
use woflos::syscall::{SYS_EXIT, SYS_TEST};
use woflos::trap::{trap_entry, Kernel, Privilege, TrapAction};
use woflos::user::{launch_init_process, USER_BASE, USER_STACK_TOP};

#[test]
fn launch_prepares_the_first_process() {
    let mut kernel = Kernel::new();
    let launch = launch_init_process(&mut kernel, 60);
    assert_eq!(launch.load_address, 0x8700_0000);
    assert_eq!(launch.image_bytes, 240);
    assert_eq!(launch.pid, 1);
    assert_eq!(launch.resumed.privilege, Privilege::User);
    assert!(launch.resumed.interrupts_enabled);
    let mut expected = Context::zero();
    expected.pc = USER_BASE;
    expected.sp = USER_STACK_TOP;
    expected.sstatus = 0x20;
    assert_eq!(launch.resumed.registers, expected);
    let current = current_process(&kernel.processes).expect("the first process is current");
    assert_eq!(current.pid, 1);
    assert_eq!(current.name, "init");
    assert_eq!(current.state, ProcessState::Ready);
    assert_eq!(current.context, Context::new_user(0x8700_0000, 0x8701_0000));
    assert_eq!(alloc_pid(&mut kernel.processes), 2);
}

#[test]
fn launch_log() {
    let mut kernel = Kernel::new();
    launch_init_process(&mut kernel, 60);
    let bar = "═════════════════════════════════════════";
    let expected = format!(
        "\n{bar}\n   LAUNCHING FIRST USERSPACE PROCESS\n{bar}\n\n\
[DEBUG] Step 1: Setting up memory addresses\n\
[PROCESS] User memory base: 0x0000000087000000\n\
[PROCESS] User stack top:   0x0000000087010000\n\
[DEBUG] Step 2: Getting program size\n\
[PROCESS] Program size:     0x00000000000000f0 bytes\n\
[DEBUG] Step 3: Copying program to user memory\n\
[PROCESS] Program copied successfully\n\
[DEBUG] Step 4: Creating process structure\n\
[PROCESS] Allocated PID:    0x0000000000000001\n\
[DEBUG] Step 5: Calling Process::new()\n\
[DEBUG] Step 6: Setting current process\n\
[PROCESS] Process structure created\n\n\
[DEBUG] Step 7: About to switch to U-mode\n\
{bar}\n   SWITCHING TO USER MODE (U-MODE)\n   All output below is from userspace!\n{bar}\n\n\
[DEBUG] Step 8: Executing sret instruction...\n",
        bar = bar
    );
    assert_eq!(String::from_utf8(kernel.uart.take_output()).expect("text"), expected);
}

#[test]
fn scenario_boot_and_test_syscall() {
    let mut kernel = Kernel::new();
    let launch = launch_init_process(&mut kernel, 60);
    kernel.uart.take_output();
    let mut registers = launch.resumed.registers;

    // The test program asks for the test call.
    registers.a7 = SYS_TEST;
    let entry_pc = registers.pc;
    let action = trap_entry(&mut kernel, &mut registers, 8, 0, 0);
    assert_eq!(action, TrapAction::Resume);
    assert_eq!(registers.a0, 42);
    assert_eq!(registers.pc, entry_pc + 4);

    // Then it exits with code 3, and never resumes.
    registers.a7 = SYS_EXIT;
    registers.a0 = 3;
    let at_exit = registers;
    let action = trap_entry(&mut kernel, &mut registers, 8, 0, 0);
    assert_eq!(action, TrapAction::Halt);
    assert_eq!(registers, at_exit);
    assert_eq!(
        kernel.uart.take_output(),
        "[SYSCALL] Test syscall from user mode - SUCCESS! 🐺\n[SYSCALL] Process exit with code 0x0000000000000003\n"
            .as_bytes()
            .to_vec()
    );
}

#[test]
fn scenario_hello_program() {
    // What the first program does: writes a greeting a character at a time,
    // asks for its identifier, and exits with code zero.
    let mut kernel = Kernel::new();
    let launch = launch_init_process(&mut kernel, 60);
    kernel.uart.take_output();
    let mut registers = launch.resumed.registers;
    for ch in b"Hello from userspace!!\n" {
        registers.a0 = *ch as usize;
        registers.a7 = 1;
        assert_eq!(trap_entry(&mut kernel, &mut registers, 8, 0, 0), TrapAction::Resume);
        assert_eq!(registers.a0, 0);
    }
    registers.a7 = 3;
    assert_eq!(trap_entry(&mut kernel, &mut registers, 8, 0, 0), TrapAction::Resume);
    assert_eq!(registers.a0, launch.pid);
    assert_eq!(registers.pc, USER_BASE + 4 * 24);
    registers.a0 = 0;
    registers.a7 = 2;
    assert_eq!(trap_entry(&mut kernel, &mut registers, 8, 0, 0), TrapAction::Halt);
    assert_eq!(
        kernel.uart.take_output(),
        b"Hello from userspace!!\n[SYSCALL] Process exit with code 0x0000000000000000\n".to_vec()
    );
}
