//! A kernel-style runtime core: a first-fit free-list heap allocator with
//! live statistics, an in-memory text terminal with a command shell, a
//! double-buffered text display model, a system health monitor, and small
//! in-memory filesystem models.

pub mod allocator;
pub mod basic_fs;
pub mod commands;
pub mod fs;
pub mod simple_fs;
pub mod system_monitor;
pub mod terminal;
pub mod text;
pub mod tree_fs;
pub mod vga_buffer;
