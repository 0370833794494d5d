//! Core of a fox32 virtual machine: the physical memory map, interrupt
//! delivery on the CPU side, operand fetch and conditional execution, the
//! ALU's flag rules, the disk controller, the keyboard and mouse registers
//! and the host-side framebuffer compositor.

pub mod alu;
pub mod cpu;
pub mod disk;
pub mod display;
pub mod instruction;
pub mod keyboard;
pub mod memory;
pub mod mouse;
