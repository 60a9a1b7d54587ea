//! The 32-byte file header that opens every IVF stream.

use crate::endian::{
    append_bytes, lemma_u16_le_bytes, lemma_u16_le_value, lemma_u32_le_bytes, lemma_u32_le_value,
    read_u16_le, read_u32_le, u16_from_le, u16_le_bytes, u16_to_le, u32_from_le, u32_le_bytes,
    u32_to_le,
};
use crate::error::IvfError;
use vstd::prelude::*;

verus! {

/// Length in bytes of an encoded file header.
pub const IVF_HEADER_SIZE: usize = 32;

/// Offset of the `num_frames` field inside the file header.
pub const IVF_NUM_FRAMES_OFFSET: usize = 24;

/// The four bytes `DKIF` that open an IVF stream.
pub open spec fn ivf_signature() -> Seq<u8> {
    seq![0x44u8, 0x4Bu8, 0x49u8, 0x46u8]
}

/// The file header of an IVF stream. Its fields stand in the stream in
/// this order, without padding, the numbers least significant byte first.
#[derive(Debug, Clone, Copy, PartialEq, Eq)]
pub struct IvfHeader {
    /// `DKIF` in every stream that a reader accepts.
    pub signature: [u8; 4],
    /// 0 in every stream that a reader accepts.
    pub version: u16,
    /// 32 in every stream that a reader accepts.
    pub header_size: u16,
    /// Tag of the codec of the payloads, such as `VP80`.
    pub fourcc: [u8; 4],
    /// Width of the picture.
    pub width: u16,
    /// Height of the picture.
    pub height: u16,
    /// Numerator of the frame rate.
    pub framerate_num: u32,
    /// Denominator of the frame rate.
    pub framerate_den: u32,
    /// Number of frames in the stream, as the header claims it.
    pub num_frames: u32,
    /// Four reserved bytes, kept as they are.
    pub unused: u32,
}

impl IvfHeader {
    /// A header is valid when it carries the signature, version 0 and
    /// header size 32; the other fields are free.
    pub open spec fn is_valid(&self) -> bool {
        &&& self.signature@ == ivf_signature()
        &&& self.version == 0
        &&& self.header_size == 32
    }

    /// The 32 bytes that stand for this header in a stream.
    pub open spec fn encoding(&self) -> Seq<u8> {
        self.signature@ + u16_to_le(self.version) + u16_to_le(self.header_size) + self.fourcc@
            + u16_to_le(self.width) + u16_to_le(self.height) + u32_to_le(self.framerate_num)
            + u32_to_le(self.framerate_den) + u32_to_le(self.num_frames) + u32_to_le(self.unused)
    }

    /// The header whose fields are read off the first 32 bytes of `b`,
    /// without any check.
    pub open spec fn parse(b: Seq<u8>) -> IvfHeader
        recommends
            b.len() >= 32,
    {
        IvfHeader {
            signature: [b[0], b[1], b[2], b[3]],
            version: u16_from_le(b.subrange(4, 6)),
            header_size: u16_from_le(b.subrange(6, 8)),
            fourcc: [b[8], b[9], b[10], b[11]],
            width: u16_from_le(b.subrange(12, 14)),
            height: u16_from_le(b.subrange(14, 16)),
            framerate_num: u32_from_le(b.subrange(16, 20)),
            framerate_den: u32_from_le(b.subrange(20, 24)),
            num_frames: u32_from_le(b.subrange(24, 28)),
            unused: u32_from_le(b.subrange(28, 32)),
        }
    }

    /// What decoding the bytes `b` gives: the header in the first 32 bytes,
    /// or the reason why there is none.
    pub open spec fn decode_result(b: Seq<u8>) -> Result<IvfHeader, IvfError> {
        if b.len() < 32 {
            Err(IvfError::FormatError)
        } else if b.subrange(0, 4) != ivf_signature() {
            Err(IvfError::InvalidSignature)
        } else if u16_from_le(b.subrange(4, 6)) != 0 || u16_from_le(b.subrange(6, 8)) != 32 {
            Err(IvfError::UnsupportedVersion)
        } else {
            Ok(Self::parse(b))
        }
    }

    /// Whether the signature field holds `DKIF`.
    fn has_signature(&self) -> (ok: bool)
        ensures
            ok == (self.signature@ == ivf_signature()),
    {
        let ok = self.signature[0] == 0x44 && self.signature[1] == 0x4B
            && self.signature[2] == 0x49 && self.signature[3] == 0x46;
        proof {
            if ok {
                assert(self.signature@ =~= ivf_signature());
            } else {
                assert(ivf_signature()[0] == 0x44 && ivf_signature()[1] == 0x4B);
                assert(ivf_signature()[2] == 0x49 && ivf_signature()[3] == 0x46);
            }
        }
        ok
    }

    /// Whether the signature, version and header size are those of IVF.
    pub fn check(&self) -> (ok: bool)
        ensures
            ok == self.is_valid(),
    {
        self.has_signature() && self.version == 0 && self.header_size == 32
    }

    /// Decodes the file header that opens `bytes`. Bytes after the first 32
    /// are not looked at.
    pub fn decode(bytes: &[u8]) -> (r: Result<IvfHeader, IvfError>)
        ensures
            r == Self::decode_result(bytes@),
            bytes@.len() < 32 ==> r == Err::<IvfHeader, IvfError>(IvfError::FormatError),
            bytes@.len() >= 32 && bytes@.subrange(0, 4) != ivf_signature() ==> r == Err::<
                IvfHeader,
                IvfError,
            >(IvfError::InvalidSignature),
            bytes@.len() >= 32 && bytes@.subrange(0, 4) == ivf_signature() && (u16_from_le(
                bytes@.subrange(4, 6),
            ) != 0 || u16_from_le(bytes@.subrange(6, 8)) != 32) ==> r == Err::<IvfHeader, IvfError>(
                IvfError::UnsupportedVersion,
            ),
    {
        if bytes.len() < IVF_HEADER_SIZE {
            return Err(IvfError::FormatError);
        }
        let header = IvfHeader {
            signature: [bytes[0], bytes[1], bytes[2], bytes[3]],
            version: read_u16_le(&bytes[4..6]),
            header_size: read_u16_le(&bytes[6..8]),
            fourcc: [bytes[8], bytes[9], bytes[10], bytes[11]],
            width: read_u16_le(&bytes[12..14]),
            height: read_u16_le(&bytes[14..16]),
            framerate_num: read_u32_le(&bytes[16..20]),
            framerate_den: read_u32_le(&bytes[20..24]),
            num_frames: read_u32_le(&bytes[24..28]),
            unused: read_u32_le(&bytes[28..32]),
        };
        proof {
            let b = bytes@;
            assert(header.signature@ =~= b.subrange(0, 4));
            assert(header.signature =~= Self::parse(b).signature);
            assert(header.fourcc =~= Self::parse(b).fourcc);
        }
        if !header.has_signature() {
            return Err(IvfError::InvalidSignature);
        }
        if header.version != 0 || header.header_size != 32 {
            return Err(IvfError::UnsupportedVersion);
        }
        Ok(header)
    }

    /// Encodes the header as its 32 bytes. A header that `decode` would not
    /// accept back is refused.
    pub fn encode(&self) -> (r: Result<Vec<u8>, IvfError>)
        ensures
            match r {
                Ok(bytes) => self.is_valid() && bytes@ == self.encoding(),
                Err(e) => !self.is_valid() && e == IvfError::InvalidHeader,
            },
    {
        if !self.check() {
            return Err(IvfError::InvalidHeader);
        }
        let mut out: Vec<u8> = Vec::new();
        append_bytes(&mut out, &self.signature);
        append_bytes(&mut out, &u16_le_bytes(self.version));
        append_bytes(&mut out, &u16_le_bytes(self.header_size));
        append_bytes(&mut out, &self.fourcc);
        append_bytes(&mut out, &u16_le_bytes(self.width));
        append_bytes(&mut out, &u16_le_bytes(self.height));
        append_bytes(&mut out, &u32_le_bytes(self.framerate_num));
        append_bytes(&mut out, &u32_le_bytes(self.framerate_den));
        append_bytes(&mut out, &u32_le_bytes(self.num_frames));
        append_bytes(&mut out, &u32_le_bytes(self.unused));
        assert(out@ =~= self.encoding());
        Ok(out)
    }

    /// This header with its frame count replaced by `n`.
    pub open spec fn with_num_frames(self, n: u32) -> IvfHeader {
        IvfHeader { num_frames: n, ..self }
    }

    /// An encoded header is 32 bytes long.
    pub proof fn lemma_encoding_len(self)
        ensures
            self.encoding().len() == 32,
    {
    }

    /// Decoding bytes and encoding the header that comes out reproduces the
    /// first 32 bytes, whenever the bytes decode at all.
    pub proof fn lemma_decode_then_encode(b: Seq<u8>)
        requires
            Self::decode_result(b) is Ok,
        ensures
            Self::decode_result(b)->Ok_0.is_valid(),
            Self::decode_result(b)->Ok_0.encoding() == b.subrange(0, 32),
    {
        let h = Self::parse(b);
        assert(h.signature@ =~= b.subrange(0, 4));
        assert(h.fourcc@ =~= b.subrange(8, 12));
        lemma_u16_le_bytes(b.subrange(4, 6));
        lemma_u16_le_bytes(b.subrange(6, 8));
        lemma_u16_le_bytes(b.subrange(12, 14));
        lemma_u16_le_bytes(b.subrange(14, 16));
        lemma_u32_le_bytes(b.subrange(16, 20));
        lemma_u32_le_bytes(b.subrange(20, 24));
        lemma_u32_le_bytes(b.subrange(24, 28));
        lemma_u32_le_bytes(b.subrange(28, 32));
        assert(h.encoding() =~= b.subrange(0, 32));
    }

    /// Encoding a valid header and decoding the bytes gives the header back.
    pub proof fn lemma_encode_then_decode(self)
        requires
            self.is_valid(),
        ensures
            Self::decode_result(self.encoding()) == Ok::<IvfHeader, IvfError>(self),
    {
        let b = self.encoding();
        let h = Self::parse(b);
        lemma_u16_le_value(self.version);
        lemma_u16_le_value(self.header_size);
        lemma_u16_le_value(self.width);
        lemma_u16_le_value(self.height);
        lemma_u32_le_value(self.framerate_num);
        lemma_u32_le_value(self.framerate_den);
        lemma_u32_le_value(self.num_frames);
        lemma_u32_le_value(self.unused);
        assert(b.subrange(0, 4) =~= self.signature@);
        assert(b.subrange(4, 6) =~= u16_to_le(self.version));
        assert(b.subrange(6, 8) =~= u16_to_le(self.header_size));
        assert(b.subrange(8, 12) =~= self.fourcc@);
        assert(b.subrange(12, 14) =~= u16_to_le(self.width));
        assert(b.subrange(14, 16) =~= u16_to_le(self.height));
        assert(b.subrange(16, 20) =~= u32_to_le(self.framerate_num));
        assert(b.subrange(20, 24) =~= u32_to_le(self.framerate_den));
        assert(b.subrange(24, 28) =~= u32_to_le(self.num_frames));
        assert(b.subrange(28, 32) =~= u32_to_le(self.unused));
        assert(h.signature =~= self.signature);
        assert(h.fourcc =~= self.fourcc);
    }

    /// Decoding looks at the first 32 bytes only.
    pub proof fn lemma_decode_reads_prefix(a: Seq<u8>, b: Seq<u8>)
        requires
            a.len() >= 32,
            b.len() >= 32,
            a.subrange(0, 32) == b.subrange(0, 32),
        ensures
            Self::decode_result(a) == Self::decode_result(b),
    {
        let p = a.subrange(0, 32);
        assert forall|i: int, j: int| 0 <= i <= j <= 32 implies #[trigger] a.subrange(i, j)
            == b.subrange(i, j) by {
            assert(a.subrange(i, j) =~= p.subrange(i, j));
            assert(b.subrange(i, j) =~= p.subrange(i, j));
        }
        assert forall|i: int| 0 <= i < 32 implies a[i] == b[i] by {
            assert(a[i] == p[i]);
            assert(b[i] == b.subrange(0, 32)[i]);
        }
        assert(Self::parse(a).signature =~= Self::parse(b).signature);
        assert(Self::parse(a).fourcc =~= Self::parse(b).fourcc);
    }

    /// Overwriting bytes 24 to 27 of an encoded header with a frame count
    /// gives the encoding of the header with that count.
    pub proof fn lemma_patch_num_frames(self, n: u32)
        ensures
            self.encoding().subrange(0, 24) + u32_to_le(n) + self.encoding().subrange(28, 32)
                == self.with_num_frames(n).encoding(),
    {
        assert(self.encoding().subrange(0, 24) + u32_to_le(n) + self.encoding().subrange(28, 32)
            =~= self.with_num_frames(n).encoding());
    }
}

} // verus!
