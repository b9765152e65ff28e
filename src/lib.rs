//! Basic information on a process, read from `/proc/<pid>/status`.
//!
//! A `ProcStatus` holds the text of one read; its entries are parsed on
//! demand, borrowing from that text, and memory sizes are read as KiB.

pub mod entries;
pub mod entry;
pub mod errors;
pub mod mem_usage;
pub mod proc_ref;
pub mod status;
pub mod text;

pub use entries::ProcEntries;
pub use entry::ProcEntry;
pub use errors::ProcStatusError;
pub use mem_usage::MemUsage;
pub use proc_ref::ProcRef;
pub use status::ProcStatus;
