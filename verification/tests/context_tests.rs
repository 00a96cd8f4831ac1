use woflos::process::context::{Context, SSTATUS_SIE, SSTATUS_SPIE, SSTATUS_SPP};

fn registers(ctx: &Context) -> [usize; 31] {
    [
        ctx.ra, ctx.sp, ctx.gp, ctx.tp, ctx.t0, ctx.t1, ctx.t2, ctx.s0, ctx.s1, ctx.a0, ctx.a1,
        ctx.a2, ctx.a3, ctx.a4, ctx.a5, ctx.a6, ctx.a7, ctx.s2, ctx.s3, ctx.s4, ctx.s5, ctx.s6,
        ctx.s7, ctx.s8, ctx.s9, ctx.s10, ctx.s11, ctx.t3, ctx.t4, ctx.t5, ctx.t6,
    ]
}

#[test]
fn zero_context_is_all_zero() {
    let ctx = Context::zero();
    assert_eq!(registers(&ctx), [0usize; 31]);
    assert_eq!(ctx.pc, 0);
    assert_eq!(ctx.sstatus, 0);
}

#[test]
fn new_user_sets_entry_stack_and_status() {
    let ctx = Context::new_user(0x8700_0000, 0x8701_0000);
    assert_eq!(ctx.pc, 0x8700_0000);
    assert_eq!(ctx.sp, 0x8701_0000);
    assert_eq!(ctx.sstatus, 0x20);
    let mut expected = [0usize; 31];
    expected[1] = 0x8701_0000;
    assert_eq!(registers(&ctx), expected);
}

#[test]
fn new_user_status_selects_user_mode_with_interrupts() {
    let ctx = Context::new_user(4, 8);
    assert_eq!(ctx.sstatus & SSTATUS_SPP, 0);
    assert_eq!(ctx.sstatus & SSTATUS_SPIE, SSTATUS_SPIE);
    assert_eq!(ctx.sstatus & SSTATUS_SIE, 0);
}

#[test]
fn status_bits_are_where_the_hardware_has_them() {
    assert_eq!(SSTATUS_SIE, 1 << 1);
    assert_eq!(SSTATUS_SPIE, 1 << 5);
    assert_eq!(SSTATUS_SPP, 1 << 8);
}

#[test]
fn set_return_value_writes_a0_only() {
    let mut ctx = Context::new_user(0x100, 0x200);
    ctx.a1 = 11;
    ctx.a7 = 3;
    let before = ctx;
    ctx.set_return_value(42);
    assert_eq!(ctx.a0, 42);
    let mut expected = before;
    expected.a0 = 42;
    assert_eq!(ctx, expected);
}

#[test]
fn syscall_number_is_a7() {
    let mut ctx = Context::zero();
    ctx.a7 = 17;
    ctx.a0 = 5;
    assert_eq!(ctx.syscall_number(), 17);
}

#[test]
fn syscall_args_are_a0_to_a5() {
    let mut ctx = Context::zero();
    ctx.a0 = 10;
    ctx.a1 = 11;
    ctx.a2 = 12;
    ctx.a3 = 13;
    ctx.a4 = 14;
    ctx.a5 = 15;
    ctx.a6 = 16;
    ctx.a7 = 17;
    assert_eq!(ctx.syscall_args(), [10, 11, 12, 13, 14, 15]);
}
