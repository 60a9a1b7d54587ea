//! Reading and writing of IVF video containers held in memory.
//!
//! An IVF stream is a fixed 32-byte file header followed by frame records,
//! each a 12-byte frame header and the payload it announces.

pub mod endian;
pub mod error;
pub mod frame;
pub mod header;
pub mod reader;
pub mod roundtrip;
pub mod writer;

pub use crate::error::IvfError;
pub use crate::frame::{IvfFrameHeader, IVF_FRAME_HEADER_SIZE};
pub use crate::header::{IvfHeader, IVF_HEADER_SIZE, IVF_NUM_FRAMES_OFFSET};
pub use crate::reader::IvfReader;
pub use crate::writer::IvfWriter;
