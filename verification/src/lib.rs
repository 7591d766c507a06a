//! Builds the input buffers of device control requests from declarative
//! field descriptions, and decides every step of sending them.

pub mod buffer;
pub mod catalog;
pub mod cli;
pub mod dispatch;
pub mod encoding;
pub mod fuzz;
pub mod leak;

pub use crate::buffer::{check_buffer_overwrite, BufferContentEntry, BufferError, EntryData};
pub use crate::catalog::{Config, Ioctl};
pub use crate::leak::check_info_leaks;
pub use crate::cli::Cli;
pub use crate::dispatch::send_single;
