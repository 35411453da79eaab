//! A minimal interactive debugger core for 64-bit Linux: word-granular
//! cross-process memory access, software breakpoints, and the trace-event
//! state machine that classifies stops and drives resumption.

pub mod breakpoint;
pub mod memory;
pub mod session;
pub mod trace;
pub mod word;
