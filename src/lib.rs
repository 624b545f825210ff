//! Parallel archiving of world directories: the decisions of the scan,
//! batch, memory and assembly phases, stated and proved over plain values.
//! Reading files, running threads and driving the codecs is left to the
//! caller, which performs the steps these modules ask for.

pub mod assemble;
pub mod batch;
pub mod config;
pub mod format;
pub mod frame;
pub mod memory;
pub mod options;
pub mod progress;
pub mod scan;
pub mod serve;
pub mod text;
pub mod units;

pub use format::{CompressionFormat, CompressionFormatParseError};
pub use options::{paths_to_be_archived, ArchiveOptions, MwdhOptions, ServerOptions};
pub use progress::ProgressMessage;
pub use scan::FileToCompress;
pub use units::format_bytes;
