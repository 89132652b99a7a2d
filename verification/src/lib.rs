//! Core of a small x86-64 kernel: descriptor tables, interrupt bindings and
//! the round-robin scheduler that the timer interrupt drives.
//!
//! Everything here is plain computation on values. Loading tables into the
//! CPU, port I/O and the interrupt entry code belong to the program that
//! links this library.

pub mod address;
pub mod boot;
pub mod gdt;
pub mod interrupts;
pub mod process;
pub mod ticks;
