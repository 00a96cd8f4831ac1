//! The periodic timer: the tick counter and the firmware call that arms the
//! next expiry.

use vstd::prelude::*;
use vstd::string::StringSliceAdditionalSpecFns;

use crate::uart::{hex_text, Uart};

verus! {

/// Timer ticks between two expiries: about one second at 10 MHz.
pub const TIMER_INTERVAL: u64 = 10_000_000;

/// Identifier of the firmware's timer extension, `TIME` in ASCII.
pub const SBI_EXT_TIME: usize = 0x54494D45;

/// Identifier of the set-timer function within the timer extension.
pub const SBI_FN_SET_TIMER: usize = 0;

/// Bit of the interrupt-enable register that lets timer interrupts through.
pub const SIE_STIE: usize = 0x20;

/// Start of the report of a tick; the count follows.
pub const MSG_TICK: &'static str = "[TICK] ";

/// End of a line of output.
pub const MSG_END_OF_LINE: &'static str = "\n";

/// Report that the trap vector is in place; its address follows.
pub const MSG_INSTALLED: &'static str = "[OK] Trap handler installed at ";

/// Report that timer interrupts are let through.
pub const MSG_TIMER_ENABLED: &'static str = "[OK] Timer interrupts enabled (SIE.STIE = 1)\n";

/// Report that interrupts are switched on.
pub const MSG_GLOBAL_ENABLED: &'static str = "[OK] Global interrupts enabled (sstatus.SIE = 1)\n";

/// A call into the firmware: the extension and function identifiers, which
/// travel in `a7` and `a6`, and the single argument, which travels in `a0`.
#[derive(Debug, Clone, Copy, PartialEq, Eq, Structural)]
pub struct SbiCall {
    pub extension: usize,
    pub function: usize,
    pub argument: u64,
}

/// The firmware call that makes the timer fire at `stime_value`.
pub open spec fn spec_sbi_set_timer(stime_value: u64) -> SbiCall {
    SbiCall { extension: SBI_EXT_TIME, function: SBI_FN_SET_TIMER, argument: stime_value }
}

/// The tick count after one more timer interrupt. It wraps after the largest
/// count.
pub open spec fn spec_next_tick(ticks: u64) -> u64 {
    if ticks == u64::MAX {
        0
    } else {
        (ticks + 1) as u64
    }
}

/// What the handler writes to the console when the count reaches `ticks`.
pub open spec fn spec_tick_console(ticks: u64) -> Seq<u8> {
    MSG_TICK.spec_bytes() + hex_text(ticks) + MSG_END_OF_LINE.spec_bytes()
}

/// What `init` writes to the console.
pub open spec fn spec_init_console(trap_addr: usize) -> Seq<u8> {
    MSG_INSTALLED.spec_bytes() + hex_text(trap_addr as u64) + MSG_END_OF_LINE.spec_bytes()
        + MSG_TIMER_ENABLED.spec_bytes() + MSG_GLOBAL_ENABLED.spec_bytes()
}

/// Builds the firmware call that makes the timer fire at `stime_value`.
pub fn sbi_set_timer(stime_value: u64) -> (call: SbiCall)
    ensures
        call == spec_sbi_set_timer(stime_value),
{
    SbiCall { extension: SBI_EXT_TIME, function: SBI_FN_SET_TIMER, argument: stime_value }
}

/// Builds the firmware call that makes the timer fire `cycles_from_now`
/// ticks after `current_time`.
pub fn set_timer(current_time: u64, cycles_from_now: u64) -> (call: SbiCall)
    requires
        current_time + cycles_from_now <= u64::MAX,
    ensures
        call == spec_sbi_set_timer((current_time + cycles_from_now) as u64),
{
    let next_time = current_time + cycles_from_now;
    sbi_set_timer(next_time)
}

/// Services one timer interrupt taken at `time`: counts the tick, reports
/// it, and returns the one firmware call that arms the next expiry. Without
/// that call no further timer interrupt arrives.
pub fn handle_timer_interrupt(ticks: &mut u64, uart: &mut Uart, time: u64) -> (call: SbiCall)
    requires
        time + TIMER_INTERVAL <= u64::MAX,
    ensures
        *final(ticks) == spec_next_tick(*old(ticks)),
        call == spec_sbi_set_timer((time + TIMER_INTERVAL) as u64),
        final(uart).output() == old(uart).output() + spec_tick_console(*final(ticks)),
        final(uart).pending() == old(uart).pending(),
        final(uart).line_cursor() == old(uart).line_cursor(),
        final(uart).base() == old(uart).base(),
{
    *ticks = ticks.wrapping_add(1);
    uart.puts(MSG_TICK);
    uart.print_hex(*ticks);
    uart.puts(MSG_END_OF_LINE);
    set_timer(time, TIMER_INTERVAL)
}

/// Reports that trap handling is set up, with the handler at `trap_addr`,
/// and returns the firmware call that arms the first timer expiry, counted
/// from `time`.
pub fn init(uart: &mut Uart, trap_addr: usize, time: u64) -> (call: SbiCall)
    requires
        time + TIMER_INTERVAL <= u64::MAX,
    ensures
        call == spec_sbi_set_timer((time + TIMER_INTERVAL) as u64),
        final(uart).output() == old(uart).output() + spec_init_console(trap_addr),
        final(uart).pending() == old(uart).pending(),
        final(uart).line_cursor() == old(uart).line_cursor(),
        final(uart).base() == old(uart).base(),
{
    uart.puts(MSG_INSTALLED);
    uart.print_hex(trap_addr as u64);
    uart.puts(MSG_END_OF_LINE);
    uart.puts(MSG_TIMER_ENABLED);
    let call = set_timer(time, TIMER_INTERVAL);
    uart.puts(MSG_GLOBAL_ENABLED);
    call
}

/// The tick count and the firmware calls issued, oldest first, after a run
/// of timer interrupts.
pub struct TimerRun {
    pub ticks: u64,
    pub calls: Seq<SbiCall>,
}

/// What servicing the timer interrupts taken at `times`, in order, leads to
/// from a tick count of `ticks`.
pub open spec fn run_timer(ticks: u64, times: Seq<u64>) -> TimerRun
    decreases times.len(),
{
    if times.len() == 0 {
        TimerRun { ticks, calls: Seq::empty() }
    } else {
        let earlier = run_timer(ticks, times.drop_last());
        TimerRun {
            ticks: spec_next_tick(earlier.ticks),
            calls: earlier.calls.push(spec_sbi_set_timer((times.last() + TIMER_INTERVAL) as u64)),
        }
    }
}

/// After any number of timer interrupts the tick counter has advanced by
/// exactly that number, counted modulo two to the sixty-fourth, so by exactly
/// that number where the count does not wrap. Each interrupt has had one
/// firmware call: there are as many calls as interrupts, and the call for
/// each arms the timer one interval after the time it was taken at.
pub proof fn lemma_timer_liveness(ticks: u64, times: Seq<u64>)
    ensures
        run_timer(ticks, times).ticks == (ticks + times.len()) % 0x1_0000_0000_0000_0000,
        ticks + times.len() <= u64::MAX ==> run_timer(ticks, times).ticks == ticks + times.len(),
        run_timer(ticks, times).calls.len() == times.len(),
        forall|i: int|
            0 <= i < times.len() ==> #[trigger] run_timer(ticks, times).calls[i]
                == spec_sbi_set_timer((times[i] + TIMER_INTERVAL) as u64),
    decreases times.len(),
{
    if times.len() > 0 {
        let shorter = times.drop_last();
        lemma_timer_liveness(ticks, shorter);
        let before = run_timer(ticks, shorter).ticks;
        let n = times.len();
        let m = 0x1_0000_0000_0000_0000int;
        if before == u64::MAX {
            assert((ticks + n) % m == 0) by (nonlinear_arith)
                requires
                    (ticks + n - 1) % m == m - 1,
                    m > 0,
            ;
        } else {
            assert((ticks + n) % m == before + 1) by (nonlinear_arith)
                requires
                    (ticks + n - 1) % m == before,
                    before + 1 < m,
                    m > 0,
            ;
        }
        assert forall|i: int| 0 <= i < times.len() implies #[trigger] run_timer(
            ticks,
            times,
        ).calls[i] == spec_sbi_set_timer((times[i] + TIMER_INTERVAL) as u64) by {
            if i < shorter.len() {
                assert(run_timer(ticks, times).calls[i] == run_timer(ticks, shorter).calls[i]);
                assert(shorter[i] == times[i]);
            }
        }
    }
}

} // verus!
