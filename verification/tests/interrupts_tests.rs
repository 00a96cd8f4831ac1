use woflos::interrupts::{
    handle_timer_interrupt, init, sbi_set_timer, set_timer, SbiCall, SBI_EXT_TIME,
    SBI_FN_SET_TIMER, TIMER_INTERVAL,
};
use woflos::uart::Uart;

#[test]
fn timer_constants() {
    assert_eq!(TIMER_INTERVAL, 10_000_000);
    assert_eq!(SBI_EXT_TIME, 0x54494D45);
    assert_eq!(SBI_FN_SET_TIMER, 0);
}

#[test]
fn sbi_set_timer_builds_the_call() {
    assert_eq!(
        sbi_set_timer(123_456),
        SbiCall { extension: 0x54494D45, function: 0, argument: 123_456 }
    );
}

#[test]
fn set_timer_adds_the_interval() {
    assert_eq!(
        set_timer(1_000, 100_000),
        SbiCall { extension: 0x54494D45, function: 0, argument: 101_000 }
    );
    assert_eq!(set_timer(u64::MAX - 5, 5).argument, u64::MAX);
}

#[test]
fn timer_interrupt_counts_reports_and_rearms() {
    let mut uart = Uart::new(0x1000_0000);
    let mut ticks = 0u64;
    let call = handle_timer_interrupt(&mut ticks, &mut uart, 5_000);
    assert_eq!(ticks, 1);
    assert_eq!(call, SbiCall { extension: 0x54494D45, function: 0, argument: 10_005_000 });
    assert_eq!(uart.take_output(), b"[TICK] 0x0000000000000001\n".to_vec());
}

#[test]
fn n_interrupts_give_n_ticks_and_n_calls() {
    let mut uart = Uart::new(0x1000_0000);
    let mut ticks = 40u64;
    let mut calls = Vec::new();
    for i in 0..25u64 {
        calls.push(handle_timer_interrupt(&mut ticks, &mut uart, i * 10_000_000));
    }
    assert_eq!(ticks, 65);
    assert_eq!(calls.len(), 25);
    for (i, call) in calls.iter().enumerate() {
        assert_eq!(*call, sbi_set_timer((i as u64 + 1) * 10_000_000));
    }
}

#[test]
fn tick_counter_wraps() {
    let mut uart = Uart::new(0x1000_0000);
    let mut ticks = u64::MAX;
    handle_timer_interrupt(&mut ticks, &mut uart, 0);
    assert_eq!(ticks, 0);
    assert_eq!(uart.take_output(), b"[TICK] 0x0000000000000000\n".to_vec());
}

#[test]
fn init_reports_and_arms_the_first_expiry() {
    let mut uart = Uart::new(0x1000_0000);
    let call = init(&mut uart, 0x8020_0040, 777);
    assert_eq!(call, sbi_set_timer(10_000_777));
    assert_eq!(
        uart.take_output(),
        b"[OK] Trap handler installed at 0x0000000080200040\n\
[OK] Timer interrupts enabled (SIE.STIE = 1)\n\
[OK] Global interrupts enabled (sstatus.SIE = 1)\n"
            .to_vec()
    );
}
