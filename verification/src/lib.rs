//! A verified core for a classic 8-bit byte-code virtual machine: 4 KiB of
//! memory, sixteen 8-bit registers, a 16-entry call stack, two countdown
//! timers, a 64x32 monochrome framebuffer and a 16-key keypad, advanced one
//! fetch-decode-execute cycle at a time.

pub mod cpu;
pub mod decode;
pub mod error;
pub mod keypad;
pub mod props;
pub mod semantics;
