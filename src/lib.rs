//! Encoder for the Windows x64 `UNWIND_INFO` structure.

pub mod code;
pub mod info;
pub mod writer;

pub use code::UnwindCode;
pub use info::UnwindInfo;
pub use writer::Writer;
