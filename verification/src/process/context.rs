//! The register file of one hart as the kernel saves it for a process.

use vstd::prelude::*;

verus! {

/// Supervisor interrupt enable: bit 1 of the status register.
pub const SSTATUS_SIE: usize = 0x2;

/// Interrupt enable to restore at the next return from a trap: bit 5.
pub const SSTATUS_SPIE: usize = 0x20;

/// Privilege level to return to at the next return from a trap: bit 8,
/// clear for user mode and set for supervisor mode.
pub const SSTATUS_SPP: usize = 0x100;

/// True where a return from a trap with this status lands in user mode.
pub open spec fn returns_to_user(sstatus: usize) -> bool {
    sstatus & SSTATUS_SPP == 0
}

/// True where a return from a trap with this status switches interrupts on.
pub open spec fn returns_with_interrupts(sstatus: usize) -> bool {
    sstatus & SSTATUS_SPIE == SSTATUS_SPIE
}

/// Every register needed to pause a process and resume it later: the 31
/// general-purpose registers (x0 is hard-wired to zero and has no place
/// here), the program counter and the status register.
#[derive(Debug, Clone, Copy, PartialEq, Eq, Structural)]
pub struct Context {
    /// x1, return address
    pub ra: usize,
    /// x2, stack pointer
    pub sp: usize,
    /// x3, global pointer
    pub gp: usize,
    /// x4, thread pointer
    pub tp: usize,
    /// x5, temporary
    pub t0: usize,
    /// x6, temporary
    pub t1: usize,
    /// x7, temporary
    pub t2: usize,
    /// x8, saved register and frame pointer
    pub s0: usize,
    /// x9, saved register
    pub s1: usize,
    /// x10, first argument and return value
    pub a0: usize,
    /// x11, second argument
    pub a1: usize,
    /// x12, argument
    pub a2: usize,
    /// x13, argument
    pub a3: usize,
    /// x14, argument
    pub a4: usize,
    /// x15, argument
    pub a5: usize,
    /// x16, argument
    pub a6: usize,
    /// x17, argument; the system-call number
    pub a7: usize,
    /// x18, saved register
    pub s2: usize,
    /// x19, saved register
    pub s3: usize,
    /// x20, saved register
    pub s4: usize,
    /// x21, saved register
    pub s5: usize,
    /// x22, saved register
    pub s6: usize,
    /// x23, saved register
    pub s7: usize,
    /// x24, saved register
    pub s8: usize,
    /// x25, saved register
    pub s9: usize,
    /// x26, saved register
    pub s10: usize,
    /// x27, saved register
    pub s11: usize,
    /// x28, temporary
    pub t3: usize,
    /// x29, temporary
    pub t4: usize,
    /// x30, temporary
    pub t5: usize,
    /// x31, temporary
    pub t6: usize,
    /// Program counter at which execution resumes.
    pub pc: usize,
    /// Status register: privilege level and interrupt enables.
    pub sstatus: usize,
}

impl Context {
    /// The context whose every register is zero.
    pub open spec fn spec_zero() -> Context {
        Context {
            ra: 0,
            sp: 0,
            gp: 0,
            tp: 0,
            t0: 0,
            t1: 0,
            t2: 0,
            s0: 0,
            s1: 0,
            a0: 0,
            a1: 0,
            a2: 0,
            a3: 0,
            a4: 0,
            a5: 0,
            a6: 0,
            a7: 0,
            s2: 0,
            s3: 0,
            s4: 0,
            s5: 0,
            s6: 0,
            s7: 0,
            s8: 0,
            s9: 0,
            s10: 0,
            s11: 0,
            t3: 0,
            t4: 0,
            t5: 0,
            t6: 0,
            pc: 0,
            sstatus: 0,
        }
    }

    /// The context with which a user process starts: it runs from
    /// `entry_point` on the stack at `user_stack`, every other
    /// general-purpose register is zero, and the status selects user mode
    /// with interrupts enabled.
    pub open spec fn spec_new_user(entry_point: usize, user_stack: usize) -> Context {
        Context { pc: entry_point, sp: user_stack, sstatus: SSTATUS_SPIE, ..Self::spec_zero() }
    }

    /// The general-purpose registers in architectural order, x1 first.
    pub open spec fn slots(self) -> Seq<usize> {
        seq![
            self.ra,
            self.sp,
            self.gp,
            self.tp,
            self.t0,
            self.t1,
            self.t2,
            self.s0,
            self.s1,
            self.a0,
            self.a1,
            self.a2,
            self.a3,
            self.a4,
            self.a5,
            self.a6,
            self.a7,
            self.s2,
            self.s3,
            self.s4,
            self.s5,
            self.s6,
            self.s7,
            self.s8,
            self.s9,
            self.s10,
            self.s11,
            self.t3,
            self.t4,
            self.t5,
            self.t6
        ]
    }

    /// The six system-call arguments, `a0` to `a5`.
    pub open spec fn spec_syscall_args(self) -> Seq<usize> {
        seq![self.a0, self.a1, self.a2, self.a3, self.a4, self.a5]
    }

    /// A context with every register zero.
    pub fn zero() -> (ctx: Self)
        ensures
            ctx == Self::spec_zero(),
    {
        Context {
            ra: 0,
            sp: 0,
            gp: 0,
            tp: 0,
            t0: 0,
            t1: 0,
            t2: 0,
            s0: 0,
            s1: 0,
            a0: 0,
            a1: 0,
            a2: 0,
            a3: 0,
            a4: 0,
            a5: 0,
            a6: 0,
            a7: 0,
            s2: 0,
            s3: 0,
            s4: 0,
            s5: 0,
            s6: 0,
            s7: 0,
            s8: 0,
            s9: 0,
            s10: 0,
            s11: 0,
            t3: 0,
            t4: 0,
            t5: 0,
            t6: 0,
            pc: 0,
            sstatus: 0,
        }
    }

    /// The starting context of a user process.
    pub fn new_user(entry_point: usize, user_stack: usize) -> (ctx: Self)
        ensures
            ctx == Self::spec_new_user(entry_point, user_stack),
            returns_to_user(ctx.sstatus),
            returns_with_interrupts(ctx.sstatus),
    {
        let mut ctx = Self::zero();
        ctx.pc = entry_point;
        ctx.sp = user_stack;
        // Previous privilege user, previous interrupt enable set, interrupts
        // off for as long as the kernel is still running.
        ctx.sstatus = SSTATUS_SPIE;
        proof {
            lemma_user_status();
        }
        ctx
    }

    /// Stores the value a system call returns, in `a0`.
    pub fn set_return_value(&mut self, value: usize)
        ensures
            *final(self) == (Context { a0: value, ..*old(self) }),
    {
        self.a0 = value;
    }

    /// The system-call number, read from `a7`.
    pub fn syscall_number(&self) -> (number: usize)
        ensures
            number == self.a7,
    {
        self.a7
    }

    /// The system-call arguments, read from `a0` to `a5`.
    pub fn syscall_args(&self) -> (args: [usize; 6])
        ensures
            args@ == self.spec_syscall_args(),
    {
        let args = [self.a0, self.a1, self.a2, self.a3, self.a4, self.a5];
        assert(args@ =~= self.spec_syscall_args());
        args
    }
}

/// The status word with only the previous-interrupt-enable bit set selects
/// user mode and switches interrupts on at the return from the trap.
pub proof fn lemma_user_status()
    ensures
        returns_to_user(SSTATUS_SPIE),
        returns_with_interrupts(SSTATUS_SPIE),
        SSTATUS_SPIE & SSTATUS_SIE == 0,
{
    assert(0x20usize & 0x100usize == 0) by (bit_vector);
    assert(0x20usize & 0x20usize == 0x20usize) by (bit_vector);
    assert(0x20usize & 0x2usize == 0) by (bit_vector);
}

} // verus!
