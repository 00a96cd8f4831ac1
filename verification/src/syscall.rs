//! System calls: the numbers, what each one does, and the dispatcher.
//!
//! A user process traps with the call's number in `a7` and up to six
//! arguments in `a0` to `a5`. The result goes back in `a0`, and the saved
//! program counter moves past the trapping instruction.

use vstd::prelude::*;
use vstd::string::StringSliceAdditionalSpecFns;

use crate::process::context::Context;
use crate::process::{current_process, spec_current_pid, ProcessTable, ProcessTableView};
use crate::uart::{hex_text, Uart};

verus! {

/// Round trip into the kernel and back; returns [`TEST_RESULT`].
pub const SYS_TEST: usize = 0;

/// Write one character to the console.
pub const SYS_PUTC: usize = 1;

/// End the calling process.
pub const SYS_EXIT: usize = 2;

/// Identifier of the calling process.
pub const SYS_GETPID: usize = 3;

/// Give up the processor.
pub const SYS_YIELD: usize = 4;

/// Send a message to another process; reserved.
pub const SYS_SEND: usize = 10;

/// Receive a message from another process; reserved.
pub const SYS_RECV: usize = 11;

/// First of the numbers reserved for operations that span machines: every
/// number from here up belongs to them.
pub const SYS_REMOTE_BASE: usize = 1000;

/// What the test call returns.
pub const TEST_RESULT: usize = 42;

/// What a call returns that the kernel does not provide.
pub const SYSCALL_ERROR: usize = usize::MAX;

/// Width of the trapping instruction in bytes.
pub const ECALL_BYTES: usize = 4;

/// What the test call reports.
pub const MSG_TEST: &'static str = "[SYSCALL] Test syscall from user mode - SUCCESS! 🐺\n";

/// What the exit call reports; the exit code follows.
pub const MSG_EXIT: &'static str = "[SYSCALL] Process exit with code ";

/// What the reserved message-passing calls report.
pub const MSG_IPC: &'static str = "[SYSCALL] IPC not yet implemented (Layer 3 feature)\n";

/// What the reserved calls for operations across machines report.
pub const MSG_REMOTE: &'static str =
    "[SYSCALL] Distributed operation not yet implemented (Layer 6 feature)\n";

/// What a call with an unknown number reports; the number follows.
pub const MSG_UNKNOWN: &'static str = "[SYSCALL] Unknown syscall: ";

/// End of a line of output.
pub const MSG_END_OF_LINE: &'static str = "\n";

/// How a system call ends.
#[derive(Debug, Clone, Copy, PartialEq, Eq, Structural)]
pub enum SyscallOutcome {
    /// The caller resumes after the trapping instruction.
    Resume,
    /// The caller asked to exit with this code: it never resumes, and the
    /// machine is to be halted.
    Exit(usize),
}

/// What the call with the registers of `ctx` returns in `a0`.
pub open spec fn spec_syscall_result(ctx: Context, table: ProcessTableView) -> usize {
    if ctx.a7 == SYS_TEST {
        TEST_RESULT
    } else if ctx.a7 == SYS_PUTC || ctx.a7 == SYS_YIELD {
        0
    } else if ctx.a7 == SYS_GETPID {
        spec_current_pid(table)
    } else {
        SYSCALL_ERROR
    }
}

/// What the call with the registers of `ctx` writes to the console.
pub open spec fn spec_syscall_console(ctx: Context) -> Seq<u8> {
    if ctx.a7 == SYS_TEST {
        MSG_TEST.spec_bytes()
    } else if ctx.a7 == SYS_PUTC {
        seq![(ctx.a0 % 256) as u8]
    } else if ctx.a7 == SYS_EXIT {
        MSG_EXIT.spec_bytes() + hex_text(ctx.a0 as u64) + MSG_END_OF_LINE.spec_bytes()
    } else if ctx.a7 == SYS_GETPID || ctx.a7 == SYS_YIELD {
        Seq::empty()
    } else if ctx.a7 == SYS_SEND || ctx.a7 == SYS_RECV {
        MSG_IPC.spec_bytes()
    } else if ctx.a7 >= SYS_REMOTE_BASE {
        MSG_REMOTE.spec_bytes()
    } else {
        MSG_UNKNOWN.spec_bytes() + hex_text(ctx.a7 as u64) + MSG_END_OF_LINE.spec_bytes()
    }
}

/// How the call with the registers of `ctx` ends.
pub open spec fn spec_syscall_outcome(ctx: Context) -> SyscallOutcome {
    if ctx.a7 == SYS_EXIT {
        SyscallOutcome::Exit(ctx.a0)
    } else {
        SyscallOutcome::Resume
    }
}

/// The caller's registers after the call. Exit leaves them as they were;
/// every other call stores its result in `a0` and steps the program counter
/// over the trapping instruction, and touches nothing else.
pub open spec fn spec_handle_syscall(ctx: Context, table: ProcessTableView) -> Context {
    if ctx.a7 == SYS_EXIT {
        ctx
    } else {
        Context {
            a0: spec_syscall_result(ctx, table),
            pc: (ctx.pc + ECALL_BYTES) as usize,
            ..ctx
        }
    }
}

/// Every call but exit resumes exactly one instruction after the trap,
/// whatever the call was and however it went.
pub proof fn lemma_syscall_advances_pc(ctx: Context, table: ProcessTableView)
    requires
        ctx.a7 != SYS_EXIT,
        ctx.pc + ECALL_BYTES <= usize::MAX,
    ensures
        spec_handle_syscall(ctx, table).pc == ctx.pc + 4,
        spec_syscall_outcome(ctx) == SyscallOutcome::Resume,
{
}

/// A number outside the table gets the error value and nothing else: the
/// caller resumes, and apart from `a0` and the program counter its registers
/// are what they were.
pub proof fn lemma_unknown_syscall_is_safe(ctx: Context, table: ProcessTableView)
    requires
        ctx.a7 > SYS_YIELD,
    ensures
        spec_handle_syscall(ctx, table) == (Context {
            a0: usize::MAX,
            pc: (ctx.pc + ECALL_BYTES) as usize,
            ..ctx
        }),
        spec_syscall_outcome(ctx) == SyscallOutcome::Resume,
{
}

/// True where the program counter can be stepped over the trapping
/// instruction, which every call but exit needs.
pub open spec fn can_dispatch(ctx: Context) -> bool {
    ctx.a7 != SYS_EXIT ==> ctx.pc + ECALL_BYTES <= usize::MAX
}

/// Serves the system call that the registers in `ctx` ask for.
///
/// Numbers that the kernel does not know, and those reserved for later, get
/// [`SYSCALL_ERROR`] and a console message.
pub fn handle_syscall(ctx: &mut Context, uart: &mut Uart, table: &ProcessTable) -> (outcome:
    SyscallOutcome)
    requires
        can_dispatch(*old(ctx)),
    ensures
        *final(ctx) == spec_handle_syscall(*old(ctx), table@),
        outcome == spec_syscall_outcome(*old(ctx)),
        final(uart).output() == old(uart).output() + spec_syscall_console(*old(ctx)),
        final(uart).pending() == old(uart).pending(),
        final(uart).line_cursor() == old(uart).line_cursor(),
        final(uart).base() == old(uart).base(),
{
    let syscall_num = ctx.syscall_number();
    let args = ctx.syscall_args();
    assert(args@[0] == ctx.a0);
    let result = if syscall_num == SYS_TEST {
        uart.puts(MSG_TEST);
        TEST_RESULT
    } else if syscall_num == SYS_PUTC {
        sys_putc(uart, args[0])
    } else if syscall_num == SYS_EXIT {
        sys_exit(uart, args[0]);
        return SyscallOutcome::Exit(args[0]);
    } else if syscall_num == SYS_GETPID {
        assert(old(uart).output() + Seq::<u8>::empty() == old(uart).output());
        sys_getpid(table)
    } else if syscall_num == SYS_YIELD {
        assert(old(uart).output() + Seq::<u8>::empty() == old(uart).output());
        sys_yield()
    } else if syscall_num == SYS_SEND || syscall_num == SYS_RECV {
        uart.puts(MSG_IPC);
        SYSCALL_ERROR
    } else if syscall_num >= SYS_REMOTE_BASE {
        uart.puts(MSG_REMOTE);
        SYSCALL_ERROR
    } else {
        uart.puts(MSG_UNKNOWN);
        uart.print_hex(syscall_num as u64);
        uart.puts(MSG_END_OF_LINE);
        SYSCALL_ERROR
    };
    ctx.set_return_value(result);
    ctx.pc += ECALL_BYTES;
    SyscallOutcome::Resume
}

/// Writes the low byte of `ch` to the console and returns zero.
fn sys_putc(uart: &mut Uart, ch: usize) -> (result: usize)
    ensures
        result == 0,
        final(uart).output() == old(uart).output() + seq![(ch % 256) as u8],
        final(uart).pending() == old(uart).pending(),
        final(uart).line_cursor() == old(uart).line_cursor(),
        final(uart).base() == old(uart).base(),
{
    let low: usize = ch & 0xFF;
    assert(low == ch % 256) by (bit_vector)
        requires
            low == ch & 0xFF,
    ;
    uart.putc(low as u8);
    assert(old(uart).output().push(low as u8) == old(uart).output() + seq![low as u8]);
    0
}

/// Announces that the process has exited with `code`.
fn sys_exit(uart: &mut Uart, code: usize)
    ensures
        final(uart).output() == old(uart).output() + (MSG_EXIT.spec_bytes() + hex_text(code as u64)
            + MSG_END_OF_LINE.spec_bytes()),
        final(uart).pending() == old(uart).pending(),
        final(uart).line_cursor() == old(uart).line_cursor(),
        final(uart).base() == old(uart).base(),
{
    uart.puts(MSG_EXIT);
    uart.print_hex(code as u64);
    uart.puts(MSG_END_OF_LINE);
}

/// The identifier of the current process, or zero where there is none.
fn sys_getpid(table: &ProcessTable) -> (pid: usize)
    ensures
        pid == spec_current_pid(table@),
{
    if let Some(process) = current_process(table) {
        process.pid
    } else {
        0
    }
}

/// Gives up the processor. With one process there is nobody to give it to.
fn sys_yield() -> (result: usize)
    ensures
        result == 0,
{
    0
}

} // verus!
