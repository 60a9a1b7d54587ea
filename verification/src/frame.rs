//! The 12-byte frame header that precedes every payload.

use crate::endian::{
    append_bytes, lemma_u32_le_bytes, lemma_u32_le_value, lemma_u64_le_bytes, lemma_u64_le_value,
    read_u32_le, read_u64_le, u32_from_le, u32_le_bytes, u32_to_le, u64_from_le, u64_le_bytes,
    u64_to_le,
};
use crate::error::IvfError;
use vstd::prelude::*;

verus! {

/// Length in bytes of an encoded frame header.
pub const IVF_FRAME_HEADER_SIZE: usize = 12;

/// The header of one frame: the length of the payload that follows and its
/// presentation timestamp.
#[derive(Debug, Clone, Copy, PartialEq, Eq, Structural)]
pub struct IvfFrameHeader {
    pub frame_size: u32,
    pub timestamp: u64,
}

/// The model of one frame in contracts: the payload and the timestamp that
/// a caller hands to a writer or gets from a reader.
pub struct Frame {
    pub payload: Seq<u8>,
    pub timestamp: u64,
}

impl Frame {
    /// The frame header that announces this frame.
    pub open spec fn header(self) -> IvfFrameHeader {
        IvfFrameHeader { frame_size: self.payload.len() as u32, timestamp: self.timestamp }
    }

    /// The bytes of this frame in a stream: the frame header, then the
    /// payload.
    pub open spec fn record(self) -> Seq<u8> {
        self.header().encoding() + self.payload
    }

    /// The bytes of `frames` in a stream, one record behind the other.
    pub open spec fn records(frames: Seq<Frame>) -> Seq<u8>
        decreases frames.len(),
    {
        if frames.len() == 0 {
            Seq::empty()
        } else {
            frames[0].record() + Self::records(frames.drop_first())
        }
    }
}

impl IvfFrameHeader {
    /// The 12 bytes that stand for this frame header in a stream.
    pub open spec fn encoding(&self) -> Seq<u8> {
        u32_to_le(self.frame_size) + u64_to_le(self.timestamp)
    }

    /// The frame header whose fields are read off the first 12 bytes of `b`.
    pub open spec fn parse(b: Seq<u8>) -> IvfFrameHeader
        recommends
            b.len() >= 12,
    {
        IvfFrameHeader {
            frame_size: u32_from_le(b.subrange(0, 4)),
            timestamp: u64_from_le(b.subrange(4, 12)),
        }
    }

    /// What decoding gives when `b` is what is left of a stream: no frame
    /// where nothing is left, an error where a frame header is cut short,
    /// and else the frame header in the first 12 bytes.
    pub open spec fn decode_result(b: Seq<u8>) -> Result<Option<IvfFrameHeader>, IvfError> {
        if b.len() == 0 {
            Ok(None)
        } else if b.len() < 12 {
            Err(IvfError::FormatError)
        } else {
            Ok(Some(Self::parse(b)))
        }
    }

    /// The frame header for a payload of `len` bytes, where the 32-bit size
    /// field can hold `len`.
    pub open spec fn for_payload_result(len: nat, timestamp: u64) -> Result<
        IvfFrameHeader,
        IvfError,
    > {
        if len <= u32::MAX {
            Ok(IvfFrameHeader { frame_size: len as u32, timestamp })
        } else {
            Err(IvfError::FrameTooLarge)
        }
    }

    /// Decodes the frame header at the start of `bytes`, the rest of a
    /// stream. An empty rest is the regular end of the stream and gives
    /// `Ok(None)`; one to eleven bytes are a truncated frame header.
    pub fn decode(bytes: &[u8]) -> (r: Result<Option<IvfFrameHeader>, IvfError>)
        ensures
            r == Self::decode_result(bytes@),
    {
        if bytes.len() == 0 {
            return Ok(None);
        }
        if bytes.len() < IVF_FRAME_HEADER_SIZE {
            return Err(IvfError::FormatError);
        }
        Ok(
            Some(
                IvfFrameHeader {
                    frame_size: read_u32_le(&bytes[0..4]),
                    timestamp: read_u64_le(&bytes[4..12]),
                },
            ),
        )
    }

    /// Encodes the frame header as its 12 bytes.
    pub fn encode(&self) -> (bytes: Vec<u8>)
        ensures
            bytes@ == self.encoding(),
    {
        let mut out: Vec<u8> = Vec::new();
        append_bytes(&mut out, &u32_le_bytes(self.frame_size));
        append_bytes(&mut out, &u64_le_bytes(self.timestamp));
        out
    }

    /// The frame header that announces a payload of `len` bytes.
    pub fn for_payload(len: usize, timestamp: u64) -> (r: Result<IvfFrameHeader, IvfError>)
        ensures
            r == Self::for_payload_result(len as nat, timestamp),
    {
        if len > u32::MAX as usize {
            return Err(IvfError::FrameTooLarge);
        }
        Ok(IvfFrameHeader { frame_size: len as u32, timestamp })
    }

    /// An encoded frame header is 12 bytes long.
    pub proof fn lemma_encoding_len(self)
        ensures
            self.encoding().len() == 12,
    {
    }

    /// Decoding a complete frame header and encoding it reproduces the
    /// first 12 bytes.
    pub proof fn lemma_decode_then_encode(b: Seq<u8>)
        requires
            b.len() >= 12,
        ensures
            Self::parse(b).encoding() == b.subrange(0, 12),
    {
        lemma_u32_le_bytes(b.subrange(0, 4));
        lemma_u64_le_bytes(b.subrange(4, 12));
        assert(b.subrange(0, 4) + b.subrange(4, 12) =~= b.subrange(0, 12));
    }

    /// Encoding a frame header and decoding the bytes, with anything at all
    /// behind them, gives the frame header back.
    pub proof fn lemma_encode_then_decode(self, rest: Seq<u8>)
        ensures
            Self::decode_result(self.encoding() + rest) == Ok::<Option<IvfFrameHeader>, IvfError>(
                Some(self),
            ),
    {
        let b = self.encoding() + rest;
        lemma_u32_le_value(self.frame_size);
        lemma_u64_le_value(self.timestamp);
        assert(b.subrange(0, 4) =~= u32_to_le(self.frame_size));
        assert(b.subrange(4, 12) =~= u64_to_le(self.timestamp));
    }
}

} // verus!
