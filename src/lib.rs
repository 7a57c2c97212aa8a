//! Byte-stream dump engine: hexadecimal, binary and escaped-text renderings
//! of raw bytes, grouped into fixed-width lines behind a running offset label.

pub mod tables;
pub mod buffer;
pub mod config;
pub mod input;
pub mod engine;
pub mod hex;
pub mod binary;
pub mod text;
pub mod dump;
pub mod laws;

pub use binary::BinaryDumper;
pub use buffer::LineBuffer;
pub use config::DumpConfig;
pub use dump::Dumper;
pub use hex::HexDumper;
pub use tables::ByteClass;
pub use text::TextDumper;
