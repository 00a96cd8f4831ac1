//! The privilege-transition core of a small single-core RISC-V kernel:
//! trap frames, trap classification, system-call dispatch, the timer tick,
//! process records and the hand-off to user mode, together with the console,
//! the allocators and the shell that the kernel is built around.
//!
//! Hardware is kept at arm's length. Every function here works on plain
//! values: the platform layer reads the control registers and the timer,
//! passes what it read in, and carries out what comes back (console bytes to
//! transmit, a firmware timer call, a halt).

pub mod interrupts;
pub mod memory;
pub mod process;
pub mod shell;
pub mod syscall;
pub mod trap;
pub mod uart;
pub mod user;
