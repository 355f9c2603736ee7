//! A userspace loader for 64-bit little-endian x86 ELF programs: header and
//! program-table parsing, the placement plan for the loadable segments, and
//! the layout of the initial process stack.
//!
//! Addresses, sizes and file offsets are carried as `u64`, the pointer width
//! of the one supported target.
pub mod bytes;
pub mod load_elf;
pub mod parse_elf;
pub mod stack_setup;
