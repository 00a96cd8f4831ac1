//! Launching the first user process.

use vstd::prelude::*;
use vstd::string::StringSliceAdditionalSpecFns;

use crate::process::context::Context;
use crate::process::{
    alloc_pid, set_current_process, spec_alloc_pid, spec_set_current_process, Pid, Process,
    ProcessState, ProcessTableView,
};
use crate::trap::{
    context_to_stack, enter_user_mode, lemma_launch_clears_registers, Kernel, Privilege, Resumed,
    TrapFrame,
};
use crate::uart::hex_text;

verus! {

/// Where the program of the first process is loaded and entered.
pub const USER_BASE: usize = 0x8700_0000;

/// Top of the first process's stack, 64 KiB above its base.
pub const USER_STACK_TOP: usize = 0x8701_0000;

/// Bytes in one word of a program image.
pub const PROGRAM_WORD_BYTES: usize = 4;

/// Name of the first process.
pub const INIT_NAME: &'static str = "init";

/// Start of the launch log, up to the address of the user memory.
pub const MSG_LAUNCHING: &'static str = "\n═════════════════════════════════════════\n   LAUNCHING FIRST USERSPACE PROCESS\n═════════════════════════════════════════\n\n[DEBUG] Step 1: Setting up memory addresses\n[PROCESS] User memory base: ";

/// Launch log between the user memory's address and the stack top.
pub const MSG_STACK_TOP: &'static str = "\n[PROCESS] User stack top:   ";

/// Launch log between the stack top and the program's size.
pub const MSG_PROGRAM_SIZE: &'static str = "\n[DEBUG] Step 2: Getting program size\n[PROCESS] Program size:     ";

/// Launch log between the program's size and the process identifier.
pub const MSG_COPIED: &'static str = " bytes\n[DEBUG] Step 3: Copying program to user memory\n[PROCESS] Program copied successfully\n[DEBUG] Step 4: Creating process structure\n[PROCESS] Allocated PID:    ";

/// End of the launch log.
pub const MSG_SWITCHING: &'static str = "\n[DEBUG] Step 5: Calling Process::new()\n[DEBUG] Step 6: Setting current process\n[PROCESS] Process structure created\n\n[DEBUG] Step 7: About to switch to U-mode\n═════════════════════════════════════════\n   SWITCHING TO USER MODE (U-MODE)\n   All output below is from userspace!\n═════════════════════════════════════════\n\n[DEBUG] Step 8: Executing sret instruction...\n";

/// What the platform is to do to start the first process: copy
/// `image_bytes` bytes of the program to `load_address`, then load the
/// registers of `resumed` and return from the trap.
pub struct Launch {
    pub load_address: usize,
    pub image_bytes: usize,
    pub pid: Pid,
    pub resumed: Resumed,
}

/// The record of the first process when it has the identifier `pid`.
pub open spec fn spec_init_process(pid: Pid) -> Process {
    Process {
        pid,
        context: Context::spec_new_user(USER_BASE, USER_STACK_TOP),
        state: ProcessState::Ready,
        name: INIT_NAME,
    }
}

/// The process table after the launch: one identifier handed out, and the
/// first process current.
pub open spec fn spec_launch_table(table: ProcessTableView) -> ProcessTableView {
    spec_set_current_process(
        spec_alloc_pid(table).1,
        spec_init_process(spec_alloc_pid(table).0),
    )
}

/// What the launch writes to the console.
pub open spec fn spec_launch_console(image_bytes: usize, pid: Pid) -> Seq<u8> {
    MSG_LAUNCHING.spec_bytes() + hex_text(USER_BASE as u64) + MSG_STACK_TOP.spec_bytes()
        + hex_text(USER_STACK_TOP as u64) + MSG_PROGRAM_SIZE.spec_bytes() + hex_text(
        image_bytes as u64,
    ) + MSG_COPIED.spec_bytes() + hex_text(pid as u64) + MSG_SWITCHING.spec_bytes()
}

/// Prepares the launch of the first user process, whose program is
/// `program_words` words long: gives it an identifier, makes it the current
/// process, and works out the registers it starts with. It starts in user
/// mode with interrupts on, at [`USER_BASE`] on the stack at
/// [`USER_STACK_TOP`], and with every other register zero.
pub fn launch_init_process(kernel: &mut Kernel, program_words: usize) -> (launch: Launch)
    requires
        old(kernel).processes@.next_pid < usize::MAX,
        program_words * PROGRAM_WORD_BYTES <= usize::MAX,
    ensures
        launch.load_address == USER_BASE,
        launch.image_bytes == program_words * PROGRAM_WORD_BYTES,
        launch.pid == old(kernel).processes@.next_pid,
        launch.resumed == (Resumed {
            registers: Context::spec_new_user(USER_BASE, USER_STACK_TOP),
            privilege: Privilege::User,
            interrupts_enabled: true,
        }),
        final(kernel).processes@ == spec_launch_table(old(kernel).processes@),
        final(kernel).ticks == old(kernel).ticks,
        final(kernel).uart.output() == old(kernel).uart.output() + spec_launch_console(
            launch.image_bytes,
            launch.pid,
        ),
        final(kernel).uart.pending() == old(kernel).uart.pending(),
        final(kernel).uart.line_cursor() == old(kernel).uart.line_cursor(),
        final(kernel).uart.base() == old(kernel).uart.base(),
{
    let user_base = USER_BASE;
    let user_stack_top = USER_STACK_TOP;
    kernel.uart.puts(MSG_LAUNCHING);
    kernel.uart.print_hex(user_base as u64);
    kernel.uart.puts(MSG_STACK_TOP);
    kernel.uart.print_hex(user_stack_top as u64);
    let prog_size = program_words * PROGRAM_WORD_BYTES;
    kernel.uart.puts(MSG_PROGRAM_SIZE);
    kernel.uart.print_hex(prog_size as u64);
    kernel.uart.puts(MSG_COPIED);
    let pid = alloc_pid(&mut kernel.processes);
    kernel.uart.print_hex(pid as u64);
    let process = Process::new(pid, INIT_NAME, user_base, user_stack_top);
    let mut frame = TrapFrame::zero();
    context_to_stack(&process.context, &mut frame);
    set_current_process(&mut kernel.processes, process);
    kernel.uart.puts(MSG_SWITCHING);
    proof {
        lemma_launch_clears_registers(user_base, user_stack_top, frame);
    }
    Launch { load_address: user_base, image_bytes: prog_size, pid, resumed: enter_user_mode(&frame) }
}

} // verus!
