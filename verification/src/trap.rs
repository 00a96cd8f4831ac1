//! Trap handling: the trap frame, the decoding of the cause, the dispatch to
//! the timer, the system calls or the fatal report, and the way into user
//! mode.
//!
//! The entry code of the platform stores every register in a [`TrapFrame`],
//! calls [`trap_handler`] with it, and loads every register back from it
//! before it returns from the trap. The frame's layout is therefore fixed:
//! slot `i` holds register x`i+1`, and the saved program counter and status
//! follow the 31 registers.

use vstd::prelude::*;
use vstd::string::StringSliceAdditionalSpecFns;

use crate::interrupts::{
    handle_timer_interrupt, spec_next_tick, spec_sbi_set_timer, spec_tick_console, SbiCall,
    TIMER_INTERVAL,
};
use crate::process::context::{
    lemma_user_status, returns_to_user, returns_with_interrupts, Context, SSTATUS_SPIE,
    SSTATUS_SPP,
};
use crate::process::{init, ProcessTable, ProcessTableView};
use crate::syscall::{
    can_dispatch, handle_syscall, spec_handle_syscall, spec_syscall_console,
    spec_syscall_outcome, SyscallOutcome,
};
use crate::uart::{decimal_text, hex_text, short_hex_text, Uart, UART_BASE};

verus! {

/// Slot of the stack pointer, x2.
pub const SLOT_SP: usize = 1;

/// Slot of the first argument and return value, x10.
pub const SLOT_A0: usize = 9;

/// Slot of the system-call number, x17.
pub const SLOT_A7: usize = 16;

/// Interrupt cause: supervisor timer.
pub const IRQ_SUPERVISOR_TIMER: usize = 5;

/// Exception cause: environment call from user mode.
pub const EXC_ECALL_USER: usize = 8;

/// Exception cause: environment call from supervisor mode.
pub const EXC_ECALL_SUPERVISOR: usize = 9;

/// Exception cause: instruction page fault.
pub const EXC_INSTRUCTION_PAGE_FAULT: usize = 12;

/// Exception cause: load page fault.
pub const EXC_LOAD_PAGE_FAULT: usize = 13;

/// Exception cause: store page fault.
pub const EXC_STORE_PAGE_FAULT: usize = 15;

/// Report of an interrupt that has no handler; its code follows.
pub const MSG_UNKNOWN_INTERRUPT: &'static str = "[TRAP] Unknown interrupt: ";

/// End of a line of output.
pub const MSG_END_OF_LINE: &'static str = "\n";

/// Start of the report of a fatal exception; its name follows.
pub const MSG_PANIC: &'static str = "\n[PANIC] ";

/// Name of the environment call from supervisor mode: the kernel itself has
/// executed the instruction that user code traps with.
pub const MSG_SUPERVISOR_ECALL: &'static str = "Unexpected ecall from S-mode";

/// Name of the instruction page fault.
pub const MSG_INSTRUCTION_FAULT: &'static str = "Instruction page fault";

/// Name of the load page fault.
pub const MSG_LOAD_FAULT: &'static str = "Load page fault";

/// Name of the store page fault.
pub const MSG_STORE_FAULT: &'static str = "Store page fault";

/// Name of every other exception.
pub const MSG_UNHANDLED: &'static str = "Unhandled exception";

/// Label of the cause code in the report.
pub const MSG_CAUSE: &'static str = "\n[PANIC] cause=";

/// Label of the faulting program counter in the report.
pub const MSG_SEPC: &'static str = " sepc=";

/// Label of the trap value in the report.
pub const MSG_STVAL: &'static str = " stval=";

/// End of the report.
pub const MSG_HALTED: &'static str = "\n[PANIC] System halted.\n";

/// The registers of the interrupted code as the entry code lays them out in
/// memory.
#[derive(Debug, Clone, Copy, PartialEq, Eq)]
pub struct TrapFrame {
    /// x1 to x31; x0 is hard-wired to zero and is not stored.
    pub regs: [usize; 31],
    /// Saved program counter.
    pub sepc: usize,
    /// Saved status register.
    pub sstatus: usize,
}

impl TrapFrame {
    /// A frame whose every slot is zero.
    pub fn zero() -> (frame: Self)
        ensures
            forall|i: int| 0 <= i < 31 ==> frame.regs@[i] == 0,
            frame.sepc == 0,
            frame.sstatus == 0,
            frame_holds(frame, Context::spec_zero()),
    {
        let frame = TrapFrame { regs: [0; 31], sepc: 0, sstatus: 0 };
        assert(frame.regs@ =~= Context::spec_zero().slots());
        frame
    }
}

/// True where `frame` holds exactly the registers of `ctx`, each in its slot.
pub open spec fn frame_holds(frame: TrapFrame, ctx: Context) -> bool {
    &&& frame.regs@ == ctx.slots()
    &&& frame.sepc == ctx.pc
    &&& frame.sstatus == ctx.sstatus
}

/// The registers that `frame` holds, by name.
pub open spec fn spec_stack_to_context(frame: TrapFrame) -> Context {
    Context {
        ra: frame.regs[0],
        sp: frame.regs[1],
        gp: frame.regs[2],
        tp: frame.regs[3],
        t0: frame.regs[4],
        t1: frame.regs[5],
        t2: frame.regs[6],
        s0: frame.regs[7],
        s1: frame.regs[8],
        a0: frame.regs[9],
        a1: frame.regs[10],
        a2: frame.regs[11],
        a3: frame.regs[12],
        a4: frame.regs[13],
        a5: frame.regs[14],
        a6: frame.regs[15],
        a7: frame.regs[16],
        s2: frame.regs[17],
        s3: frame.regs[18],
        s4: frame.regs[19],
        s5: frame.regs[20],
        s6: frame.regs[21],
        s7: frame.regs[22],
        s8: frame.regs[23],
        s9: frame.regs[24],
        s10: frame.regs[25],
        s11: frame.regs[26],
        t3: frame.regs[27],
        t4: frame.regs[28],
        t5: frame.regs[29],
        t6: frame.regs[30],
        pc: frame.sepc,
        sstatus: frame.sstatus,
    }
}

/// Reads the registers out of a frame.
pub fn stack_to_context(frame: &TrapFrame) -> (ctx: Context)
    ensures
        ctx == spec_stack_to_context(*frame),
        frame_holds(*frame, ctx),
{
    let ctx = Context {
        ra: frame.regs[0],
        sp: frame.regs[1],
        gp: frame.regs[2],
        tp: frame.regs[3],
        t0: frame.regs[4],
        t1: frame.regs[5],
        t2: frame.regs[6],
        s0: frame.regs[7],
        s1: frame.regs[8],
        a0: frame.regs[9],
        a1: frame.regs[10],
        a2: frame.regs[11],
        a3: frame.regs[12],
        a4: frame.regs[13],
        a5: frame.regs[14],
        a6: frame.regs[15],
        a7: frame.regs[16],
        s2: frame.regs[17],
        s3: frame.regs[18],
        s4: frame.regs[19],
        s5: frame.regs[20],
        s6: frame.regs[21],
        s7: frame.regs[22],
        s8: frame.regs[23],
        s9: frame.regs[24],
        s10: frame.regs[25],
        s11: frame.regs[26],
        t3: frame.regs[27],
        t4: frame.regs[28],
        t5: frame.regs[29],
        t6: frame.regs[30],
        pc: frame.sepc,
        sstatus: frame.sstatus,
    };
    assert(frame.regs@ =~= ctx.slots());
    ctx
}

/// Writes the registers into a frame.
pub fn context_to_stack(ctx: &Context, frame: &mut TrapFrame)
    ensures
        frame_holds(*final(frame), *ctx),
        spec_stack_to_context(*final(frame)) == *ctx,
{
    frame.regs[0] = ctx.ra;
    frame.regs[1] = ctx.sp;
    frame.regs[2] = ctx.gp;
    frame.regs[3] = ctx.tp;
    frame.regs[4] = ctx.t0;
    frame.regs[5] = ctx.t1;
    frame.regs[6] = ctx.t2;
    frame.regs[7] = ctx.s0;
    frame.regs[8] = ctx.s1;
    frame.regs[9] = ctx.a0;
    frame.regs[10] = ctx.a1;
    frame.regs[11] = ctx.a2;
    frame.regs[12] = ctx.a3;
    frame.regs[13] = ctx.a4;
    frame.regs[14] = ctx.a5;
    frame.regs[15] = ctx.a6;
    frame.regs[16] = ctx.a7;
    frame.regs[17] = ctx.s2;
    frame.regs[18] = ctx.s3;
    frame.regs[19] = ctx.s4;
    frame.regs[20] = ctx.s5;
    frame.regs[21] = ctx.s6;
    frame.regs[22] = ctx.s7;
    frame.regs[23] = ctx.s8;
    frame.regs[24] = ctx.s9;
    frame.regs[25] = ctx.s10;
    frame.regs[26] = ctx.s11;
    frame.regs[27] = ctx.t3;
    frame.regs[28] = ctx.t4;
    frame.regs[29] = ctx.t5;
    frame.regs[30] = ctx.t6;
    frame.sepc = ctx.pc;
    frame.sstatus = ctx.sstatus;
    assert(frame.regs@ =~= ctx.slots());
}

/// Saving a register file in a frame and loading it back gives the same
/// register file, and a frame is fixed by the registers it holds: reading a
/// frame and writing what was read gives the same frame. So a trap whose
/// handler leaves the frame alone resumes with every register as it was.
pub proof fn lemma_frame_round_trip(registers: Context, frame: TrapFrame)
    ensures
        frame_holds(frame, registers) <==> spec_stack_to_context(frame) == registers,
        frame_holds(frame, spec_stack_to_context(frame)),
        forall|other: TrapFrame| #[trigger]
            frame_holds(other, spec_stack_to_context(frame)) ==> other == frame,
{
    let read = spec_stack_to_context(frame);
    assert(frame.regs@ =~= read.slots());
    if frame_holds(frame, registers) {
        lemma_slots_fix_registers(read, registers);
    }
    assert forall|other: TrapFrame| #[trigger] frame_holds(other, read) implies other == frame by {
        assert(other.regs@ =~= frame.regs@);
        assert(other.regs =~= frame.regs);
    }
}

/// Two register files with the same slots, program counter and status are
/// the same register file.
pub proof fn lemma_slots_fix_registers(a: Context, b: Context)
    requires
        a.slots() == b.slots(),
        a.pc == b.pc,
        a.sstatus == b.sstatus,
    ensures
        a == b,
{
    assert(a.slots()[0] == b.slots()[0]);
    assert(a.slots()[1] == b.slots()[1]);
    assert(a.slots()[2] == b.slots()[2]);
    assert(a.slots()[3] == b.slots()[3]);
    assert(a.slots()[4] == b.slots()[4]);
    assert(a.slots()[5] == b.slots()[5]);
    assert(a.slots()[6] == b.slots()[6]);
    assert(a.slots()[7] == b.slots()[7]);
    assert(a.slots()[8] == b.slots()[8]);
    assert(a.slots()[9] == b.slots()[9]);
    assert(a.slots()[10] == b.slots()[10]);
    assert(a.slots()[11] == b.slots()[11]);
    assert(a.slots()[12] == b.slots()[12]);
    assert(a.slots()[13] == b.slots()[13]);
    assert(a.slots()[14] == b.slots()[14]);
    assert(a.slots()[15] == b.slots()[15]);
    assert(a.slots()[16] == b.slots()[16]);
    assert(a.slots()[17] == b.slots()[17]);
    assert(a.slots()[18] == b.slots()[18]);
    assert(a.slots()[19] == b.slots()[19]);
    assert(a.slots()[20] == b.slots()[20]);
    assert(a.slots()[21] == b.slots()[21]);
    assert(a.slots()[22] == b.slots()[22]);
    assert(a.slots()[23] == b.slots()[23]);
    assert(a.slots()[24] == b.slots()[24]);
    assert(a.slots()[25] == b.slots()[25]);
    assert(a.slots()[26] == b.slots()[26]);
    assert(a.slots()[27] == b.slots()[27]);
    assert(a.slots()[28] == b.slots()[28]);
    assert(a.slots()[29] == b.slots()[29]);
    assert(a.slots()[30] == b.slots()[30]);
}

/// The frame from which a user process starts at `entry` on the stack at
/// `stack`.
pub fn create_test_user_context(entry: usize, stack: usize) -> (frame: TrapFrame)
    ensures
        frame_holds(frame, Context::spec_new_user(entry, stack)),
        returns_to_user(frame.sstatus),
        returns_with_interrupts(frame.sstatus),
{
    let mut frame = TrapFrame::zero();
    frame.sepc = entry;
    // Slot 0 is x1, so the stack pointer x2 is slot 1.
    frame.regs[SLOT_SP] = stack;
    // Previous privilege user, interrupts on after the return.
    frame.sstatus = SSTATUS_SPIE;
    proof {
        lemma_user_status();
        assert(frame.regs@ =~= Context::spec_new_user(entry, stack).slots());
    }
    frame
}

/// Privilege level of the hart.
#[derive(Debug, Clone, Copy, PartialEq, Eq, Structural)]
pub enum Privilege {
    User,
    Supervisor,
}

/// What the hart runs with right after the return from a trap.
#[derive(Debug, Clone, Copy, PartialEq, Eq, Structural)]
pub struct Resumed {
    /// Every register, the program counter among them. The status is the
    /// one that was written before the return.
    pub registers: Context,
    /// The level the code runs at.
    pub privilege: Privilege,
    /// Whether interrupts are taken.
    pub interrupts_enabled: bool,
}

/// The state that the return from a trap leads to from `frame`: every
/// register is loaded from its slot, execution continues at the saved
/// program counter, and the saved status selects the privilege level and
/// whether interrupts are on.
pub open spec fn spec_enter_user_mode(frame: TrapFrame) -> Resumed {
    Resumed {
        registers: spec_stack_to_context(frame),
        privilege: if returns_to_user(frame.sstatus) {
            Privilege::User
        } else {
            Privilege::Supervisor
        },
        interrupts_enabled: returns_with_interrupts(frame.sstatus),
    }
}

/// Works out what the hart runs with once the platform has loaded `frame`
/// and returned from the trap. The platform then does exactly that, and
/// control never comes back.
pub fn enter_user_mode(frame: &TrapFrame) -> (resumed: Resumed)
    ensures
        resumed == spec_enter_user_mode(*frame),
{
    let registers = stack_to_context(frame);
    let privilege = if frame.sstatus & SSTATUS_SPP == 0 {
        Privilege::User
    } else {
        Privilege::Supervisor
    };
    let interrupts_enabled = frame.sstatus & SSTATUS_SPIE == SSTATUS_SPIE;
    Resumed { registers, privilege, interrupts_enabled }
}

/// A process launched at `entry` on the stack at `stack` starts in user mode
/// with interrupts on, its program counter at `entry`, its stack pointer at
/// `stack`, and every other general-purpose register zero: nothing of the
/// kernel's is left in a register.
pub proof fn lemma_launch_clears_registers(entry: usize, stack: usize, frame: TrapFrame)
    requires
        frame_holds(frame, Context::spec_new_user(entry, stack)),
    ensures
        spec_enter_user_mode(frame).privilege == Privilege::User,
        spec_enter_user_mode(frame).interrupts_enabled,
        spec_enter_user_mode(frame).registers == Context::spec_new_user(entry, stack),
        spec_enter_user_mode(frame).registers.pc == entry,
        spec_enter_user_mode(frame).registers.sp == stack,
        forall|i: int|
            0 <= i < 31 && i != SLOT_SP ==> #[trigger] spec_enter_user_mode(
                frame,
            ).registers.slots()[i] == 0,
        spec_enter_user_mode(frame).registers.slots()[SLOT_SP as int] == stack,
{
    lemma_frame_round_trip(Context::spec_new_user(entry, stack), frame);
    lemma_user_status();
}

/// The cause of a trap: whether it is an interrupt or an exception, and
/// which one.
#[derive(Debug, Clone, Copy, PartialEq, Eq, Structural)]
pub struct TrapCause {
    pub is_interrupt: bool,
    pub code: usize,
}

/// The value of the cause register's top bit.
pub open spec fn interrupt_bit() -> int {
    usize::MAX / 2 + 1
}

/// The cause register taken apart: the top bit tells interrupts from
/// exceptions, the bits below it are the code.
pub open spec fn spec_decode(scause: usize) -> TrapCause {
    if scause >= interrupt_bit() {
        TrapCause { is_interrupt: true, code: (scause - interrupt_bit()) as usize }
    } else {
        TrapCause { is_interrupt: false, code: scause }
    }
}

impl TrapCause {
    /// Takes the cause register apart.
    pub fn decode(scause: usize) -> (cause: Self)
        ensures
            cause == spec_decode(scause),
    {
        let below_top: usize = usize::MAX / 2;
        if scause > below_top {
            TrapCause { is_interrupt: true, code: scause - below_top - 1 }
        } else {
            TrapCause { is_interrupt: false, code: scause }
        }
    }
}

/// What the platform is to do once the handler is done.
#[derive(Debug, Clone, Copy, PartialEq, Eq, Structural)]
pub enum TrapAction {
    /// Load the registers from the frame and return from the trap.
    Resume,
    /// Make this firmware call, then resume.
    SetTimer(SbiCall),
    /// Stop the hart for good.
    Halt,
}

/// The kernel's state: the console, the tick counter and the process table.
pub struct Kernel {
    pub uart: Uart,
    pub ticks: u64,
    pub processes: ProcessTable,
}

impl Kernel {
    /// The kernel as it boots: an empty console at [`UART_BASE`], no ticks
    /// counted, no process.
    pub fn new() -> (kernel: Self)
        ensures
            kernel.uart.base() == UART_BASE,
            kernel.uart.output() == Seq::<u8>::empty(),
            kernel.uart.pending() == Seq::<u8>::empty(),
            kernel.uart.line_cursor() == 0,
            kernel.ticks == 0,
            kernel.processes@ == crate::process::spec_init(),
    {
        Kernel { uart: Uart::new(UART_BASE), ticks: 0, processes: init() }
    }
}

/// True for the environment call from user mode.
pub open spec fn is_syscall(cause: TrapCause) -> bool {
    !cause.is_interrupt && cause.code == EXC_ECALL_USER
}

/// True for the supervisor timer interrupt.
pub open spec fn is_timer(cause: TrapCause) -> bool {
    cause.is_interrupt && cause.code == IRQ_SUPERVISOR_TIMER
}

/// The name of a fatal exception.
pub open spec fn spec_fault_name(code: usize) -> Seq<u8> {
    if code == EXC_ECALL_SUPERVISOR {
        MSG_SUPERVISOR_ECALL.spec_bytes()
    } else if code == EXC_INSTRUCTION_PAGE_FAULT {
        MSG_INSTRUCTION_FAULT.spec_bytes()
    } else if code == EXC_LOAD_PAGE_FAULT {
        MSG_LOAD_FAULT.spec_bytes()
    } else if code == EXC_STORE_PAGE_FAULT {
        MSG_STORE_FAULT.spec_bytes()
    } else {
        MSG_UNHANDLED.spec_bytes()
    }
}

/// The report of a fatal exception: its name, then the cause code in
/// decimal, the faulting program counter and the trap value in hexadecimal,
/// then the notice that the system has halted.
pub open spec fn spec_fatal_report(code: usize, sepc: usize, stval: usize) -> Seq<u8> {
    MSG_PANIC.spec_bytes() + spec_fault_name(code) + MSG_CAUSE.spec_bytes() + decimal_text(
        code as nat,
    ) + MSG_SEPC.spec_bytes() + short_hex_text(sepc as nat) + MSG_STVAL.spec_bytes()
        + short_hex_text(stval as nat) + MSG_HALTED.spec_bytes()
}

/// What handling the interrupt with the given code writes to the console,
/// with `ticks` counted before it.
pub open spec fn spec_interrupt_console(code: usize, ticks: u64) -> Seq<u8> {
    if code == IRQ_SUPERVISOR_TIMER {
        spec_tick_console(spec_next_tick(ticks))
    } else {
        MSG_UNKNOWN_INTERRUPT.spec_bytes() + hex_text(code as u64) + MSG_END_OF_LINE.spec_bytes()
    }
}

/// What the platform is to do after the interrupt with the given code, taken
/// at `time`: arm the timer after the timer interrupt, and resume.
pub open spec fn spec_interrupt_action(code: usize, time: u64) -> TrapAction {
    if code == IRQ_SUPERVISOR_TIMER {
        TrapAction::SetTimer(spec_sbi_set_timer((time + TIMER_INTERVAL) as u64))
    } else {
        TrapAction::Resume
    }
}

/// The tick count after the interrupt with the given code. Only the timer
/// interrupt changes it.
pub open spec fn spec_interrupt_ticks(code: usize, ticks: u64) -> u64 {
    if code == IRQ_SUPERVISOR_TIMER {
        spec_next_tick(ticks)
    } else {
        ticks
    }
}

/// The registers of the interrupted code after the exception with the given
/// code has been handled. Only a system call changes them.
pub open spec fn spec_exception_registers(
    registers: Context,
    code: usize,
    table: ProcessTableView,
) -> Context {
    if code == EXC_ECALL_USER {
        spec_handle_syscall(registers, table)
    } else {
        registers
    }
}

/// What handling the exception with the given code writes to the console.
pub open spec fn spec_exception_console(registers: Context, code: usize, stval: usize) -> Seq<u8> {
    if code == EXC_ECALL_USER {
        spec_syscall_console(registers)
    } else {
        spec_fatal_report(code, registers.pc, stval)
    }
}

/// What the platform is to do after the exception with the given code:
/// resume after a system call other than exit, and halt otherwise.
pub open spec fn spec_exception_action(registers: Context, code: usize) -> TrapAction {
    if code == EXC_ECALL_USER {
        match spec_syscall_outcome(registers) {
            SyscallOutcome::Resume => TrapAction::Resume,
            SyscallOutcome::Exit(_) => TrapAction::Halt,
        }
    } else {
        TrapAction::Halt
    }
}

/// The registers of the interrupted code after the trap has been handled.
pub open spec fn spec_trap_registers(
    registers: Context,
    cause: TrapCause,
    table: ProcessTableView,
) -> Context {
    if cause.is_interrupt {
        registers
    } else {
        spec_exception_registers(registers, cause.code, table)
    }
}

/// The tick count after the trap has been handled.
pub open spec fn spec_trap_ticks(ticks: u64, cause: TrapCause) -> u64 {
    if cause.is_interrupt {
        spec_interrupt_ticks(cause.code, ticks)
    } else {
        ticks
    }
}

/// What handling the trap writes to the console.
pub open spec fn spec_trap_console(
    registers: Context,
    cause: TrapCause,
    stval: usize,
    ticks: u64,
) -> Seq<u8> {
    if cause.is_interrupt {
        spec_interrupt_console(cause.code, ticks)
    } else {
        spec_exception_console(registers, cause.code, stval)
    }
}

/// What the platform is to do after the trap has been handled.
pub open spec fn spec_trap_action(registers: Context, cause: TrapCause, time: u64) -> TrapAction {
    if cause.is_interrupt {
        spec_interrupt_action(cause.code, time)
    } else {
        spec_exception_action(registers, cause.code)
    }
}

/// True where the trap can be handled within the machine's limits: at a
/// timer interrupt the next expiry must fit the time register, and at a
/// system call that resumes the program counter must have room to step over
/// the trapping instruction.
pub open spec fn can_handle(registers: Context, cause: TrapCause, time: u64) -> bool {
    &&& is_timer(cause) ==> time + TIMER_INTERVAL <= u64::MAX
    &&& is_syscall(cause) ==> can_dispatch(registers)
}

/// Everything that handling a trap does, for the contracts of the handlers:
/// the registers, the kernel and the action afterwards, from those before.
pub open spec fn trap_handled(
    before: Context,
    after: Context,
    old_kernel: Kernel,
    new_kernel: Kernel,
    cause: TrapCause,
    stval: usize,
    time: u64,
    action: TrapAction,
) -> bool {
    &&& after == spec_trap_registers(before, cause, old_kernel.processes@)
    &&& action == spec_trap_action(before, cause, time)
    &&& new_kernel.ticks == spec_trap_ticks(old_kernel.ticks, cause)
    &&& new_kernel.processes@ == old_kernel.processes@
    &&& new_kernel.uart.output() == old_kernel.uart.output() + spec_trap_console(
        before,
        cause,
        stval,
        old_kernel.ticks,
    )
    &&& new_kernel.uart.pending() == old_kernel.uart.pending()
    &&& new_kernel.uart.line_cursor() == old_kernel.uart.line_cursor()
    &&& new_kernel.uart.base() == old_kernel.uart.base()
}

/// A trap that is not a system call leaves every register of the interrupted
/// code as it was: with the frame round trip, the code resumes as if nothing
/// had happened.
pub proof fn lemma_trap_keeps_registers(
    registers: Context,
    cause: TrapCause,
    table: ProcessTableView,
)
    requires
        !is_syscall(cause),
    ensures
        spec_trap_registers(registers, cause, table) == registers,
{
}

/// A system call seen on the frame: unless it is exit, the result overwrites
/// the slot of the first argument, the saved program counter moves on by one
/// instruction, and every other slot and the saved status stay as they were.
pub proof fn lemma_syscall_on_frame(before: TrapFrame, after: TrapFrame, table: ProcessTableView)
    requires
        before.regs@[SLOT_A7 as int] != crate::syscall::SYS_EXIT,
        before.sepc + crate::syscall::ECALL_BYTES <= usize::MAX,
        spec_stack_to_context(after) == spec_handle_syscall(spec_stack_to_context(before), table),
    ensures
        after.regs@ == before.regs@.update(
            SLOT_A0 as int,
            crate::syscall::spec_syscall_result(spec_stack_to_context(before), table),
        ),
        after.sepc == before.sepc + 4,
        after.sstatus == before.sstatus,
{
    lemma_frame_round_trip(spec_stack_to_context(after), after);
    lemma_frame_round_trip(spec_stack_to_context(before), before);
    assert(after.regs@ =~= before.regs@.update(
        SLOT_A0 as int,
        crate::syscall::spec_syscall_result(spec_stack_to_context(before), table),
    ));
}

/// Writes the report of a fatal exception to the console.
fn report_fatal(uart: &mut Uart, code: usize, sepc: usize, stval: usize)
    ensures
        final(uart).output() == old(uart).output() + spec_fatal_report(code, sepc, stval),
        final(uart).pending() == old(uart).pending(),
        final(uart).line_cursor() == old(uart).line_cursor(),
        final(uart).base() == old(uart).base(),
{
    uart.puts(MSG_PANIC);
    if code == EXC_ECALL_SUPERVISOR {
        uart.puts(MSG_SUPERVISOR_ECALL);
    } else if code == EXC_INSTRUCTION_PAGE_FAULT {
        uart.puts(MSG_INSTRUCTION_FAULT);
    } else if code == EXC_LOAD_PAGE_FAULT {
        uart.puts(MSG_LOAD_FAULT);
    } else if code == EXC_STORE_PAGE_FAULT {
        uart.puts(MSG_STORE_FAULT);
    } else {
        uart.puts(MSG_UNHANDLED);
    }
    uart.puts(MSG_CAUSE);
    uart.print_number(code);
    uart.puts(MSG_SEPC);
    uart.print_hex_short(sepc);
    uart.puts(MSG_STVAL);
    uart.print_hex_short(stval);
    uart.puts(MSG_HALTED);
}

/// Handles the interrupt with the given code, taken at `time`. The timer
/// interrupt goes to its handler; any other is reported and otherwise
/// ignored.
pub fn handle_interrupt(kernel: &mut Kernel, code: usize, time: u64) -> (action: TrapAction)
    requires
        code == IRQ_SUPERVISOR_TIMER ==> time + TIMER_INTERVAL <= u64::MAX,
    ensures
        action == spec_interrupt_action(code, time),
        final(kernel).ticks == spec_interrupt_ticks(code, old(kernel).ticks),
        final(kernel).processes@ == old(kernel).processes@,
        final(kernel).uart.output() == old(kernel).uart.output() + spec_interrupt_console(
            code,
            old(kernel).ticks,
        ),
        final(kernel).uart.pending() == old(kernel).uart.pending(),
        final(kernel).uart.line_cursor() == old(kernel).uart.line_cursor(),
        final(kernel).uart.base() == old(kernel).uart.base(),
{
    if code == IRQ_SUPERVISOR_TIMER {
        let call = handle_timer_interrupt(&mut kernel.ticks, &mut kernel.uart, time);
        TrapAction::SetTimer(call)
    } else {
        kernel.uart.puts(MSG_UNKNOWN_INTERRUPT);
        kernel.uart.print_hex(code as u64);
        kernel.uart.puts(MSG_END_OF_LINE);
        TrapAction::Resume
    }
}

/// Handles the exception with the given code. The environment call from
/// user mode goes to the system calls; every other exception is fatal: it is
/// reported with its cause, the faulting program counter and the trap
/// value, and the hart is to halt.
pub fn handle_exception(kernel: &mut Kernel, code: usize, stval: usize, frame: &mut TrapFrame) -> (action:
    TrapAction)
    requires
        code == EXC_ECALL_USER ==> can_dispatch(spec_stack_to_context(*old(frame))),
    ensures
        spec_stack_to_context(*final(frame)) == spec_exception_registers(
            spec_stack_to_context(*old(frame)),
            code,
            old(kernel).processes@,
        ),
        action == spec_exception_action(spec_stack_to_context(*old(frame)), code),
        final(kernel).ticks == old(kernel).ticks,
        final(kernel).processes@ == old(kernel).processes@,
        final(kernel).uart.output() == old(kernel).uart.output() + spec_exception_console(
            spec_stack_to_context(*old(frame)),
            code,
            stval,
        ),
        final(kernel).uart.pending() == old(kernel).uart.pending(),
        final(kernel).uart.line_cursor() == old(kernel).uart.line_cursor(),
        final(kernel).uart.base() == old(kernel).uart.base(),
{
    if code == EXC_ECALL_USER {
        let mut ctx = stack_to_context(frame);
        let outcome = handle_syscall(&mut ctx, &mut kernel.uart, &kernel.processes);
        context_to_stack(&ctx, frame);
        match outcome {
            SyscallOutcome::Resume => TrapAction::Resume,
            SyscallOutcome::Exit(_) => TrapAction::Halt,
        }
    } else {
        report_fatal(&mut kernel.uart, code, frame.sepc, stval);
        TrapAction::Halt
    }
}

/// Handles one trap. `frame` holds the registers of the interrupted code,
/// `scause` and `stval` are the cause and trap-value registers, and `time`
/// is the timer's current reading.
pub fn trap_handler(
    kernel: &mut Kernel,
    frame: &mut TrapFrame,
    scause: usize,
    stval: usize,
    time: u64,
) -> (action: TrapAction)
    requires
        can_handle(spec_stack_to_context(*old(frame)), spec_decode(scause), time),
    ensures
        trap_handled(
            spec_stack_to_context(*old(frame)),
            spec_stack_to_context(*final(frame)),
            *old(kernel),
            *final(kernel),
            spec_decode(scause),
            stval,
            time,
            action,
        ),
{
    let cause = TrapCause::decode(scause);
    if cause.is_interrupt {
        handle_interrupt(kernel, cause.code, time)
    } else {
        handle_exception(kernel, cause.code, stval, frame)
    }
}

/// One trap from entry to return, on the registers themselves: every
/// register is saved in a frame, the handler runs on the frame, and every
/// register is loaded back from it.
pub fn trap_entry(
    kernel: &mut Kernel,
    registers: &mut Context,
    scause: usize,
    stval: usize,
    time: u64,
) -> (action: TrapAction)
    requires
        can_handle(*old(registers), spec_decode(scause), time),
    ensures
        trap_handled(
            *old(registers),
            *final(registers),
            *old(kernel),
            *final(kernel),
            spec_decode(scause),
            stval,
            time,
            action,
        ),
{
    let mut frame = TrapFrame::zero();
    context_to_stack(registers, &mut frame);
    let action = trap_handler(kernel, &mut frame, scause, stval, time);
    *registers = stack_to_context(&frame);
    action
}

} // verus!
