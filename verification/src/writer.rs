//! Building an IVF stream in memory, frame by frame.

use crate::endian::{append_bytes, u32_le_bytes, u32_to_le};
use crate::error::IvfError;
use crate::frame::{Frame, IvfFrameHeader};
use crate::header::{IvfHeader, IVF_NUM_FRAMES_OFFSET};
use vstd::prelude::*;

verus! {

/// What a writer is, seen from outside: the bytes written so far and the
/// number of frames among them.
pub struct WriterState {
    pub stream: Seq<u8>,
    pub frame_count: nat,
}

impl WriterState {
    /// The stream opens with a file header that decodes, and the frame
    /// count fits the 32-bit field that will hold it.
    pub open spec fn wf(self) -> bool {
        &&& IvfHeader::decode_result(self.stream) is Ok
        &&& self.frame_count <= u32::MAX
    }

    /// The file header that the stream opens with.
    pub open spec fn header(self) -> IvfHeader
        recommends
            self.wf(),
    {
        IvfHeader::decode_result(self.stream)->Ok_0
    }

    /// The state of a writer that has just been opened with `header`.
    pub open spec fn opened(header: IvfHeader) -> WriterState {
        WriterState { stream: header.encoding(), frame_count: 0 }
    }

    /// Whether one more frame with this payload can be written.
    pub open spec fn accepts(self, payload: Seq<u8>) -> bool {
        payload.len() <= u32::MAX && self.frame_count < u32::MAX
    }

    /// The state after one more frame has been written: its frame header
    /// and its payload stand at the end of the stream.
    pub open spec fn with_frame(self, frame: Frame) -> WriterState {
        WriterState { stream: self.stream + frame.record(), frame_count: self.frame_count + 1 }
    }

    /// The state after `frames` have been written one after the other.
    pub open spec fn with_frames(self, frames: Seq<Frame>) -> WriterState
        decreases frames.len(),
    {
        if frames.len() == 0 {
            self
        } else {
            self.with_frame(frames[0]).with_frames(frames.drop_first())
        }
    }

    /// The finished stream: what was written, with the frame count in bytes
    /// 24 to 27.
    pub open spec fn finished(self) -> Seq<u8> {
        self.stream.subrange(0, 24) + u32_to_le(self.frame_count as u32) + self.stream.skip(28)
    }
}

/// The counter after one more frame, where its 32 bits can still count it.
pub fn next_frame_count(count: u32) -> (r: Result<u32, IvfError>)
    ensures
        match r {
            Ok(next) => count < u32::MAX && next == count + 1,
            Err(e) => count == u32::MAX && e == IvfError::TooManyFrames,
        },
{
    match count.checked_add(1) {
        Some(next) => Ok(next),
        None => Err(IvfError::TooManyFrames),
    }
}

/// A writer that builds an IVF stream in memory.
pub struct IvfWriter {
    data: Vec<u8>,
    frame_count: u32,
}

impl View for IvfWriter {
    type V = WriterState;

    closed spec fn view(&self) -> WriterState {
        WriterState { stream: self.data@, frame_count: self.frame_count as nat }
    }
}

impl IvfWriter {
    /// Opens a writer: the stream starts with the encoded `header`, its
    /// frame count as the caller gave it, and no frame has been counted.
    /// A header that a reader would not accept is refused.
    pub fn init(header: &IvfHeader) -> (r: Result<IvfWriter, IvfError>)
        ensures
            match r {
                Ok(writer) => header.is_valid() && writer@ == WriterState::opened(*header)
                    && writer@.wf(),
                Err(e) => !header.is_valid() && e == IvfError::InvalidHeader,
            },
    {
        match header.encode() {
            Ok(data) => {
                proof {
                    header.lemma_encode_then_decode();
                }
                Ok(IvfWriter { data, frame_count: 0 })
            },
            Err(e) => Err(e),
        }
    }

    /// How many frames have been written.
    pub fn frame_count(&self) -> (n: u32)
        ensures
            n == self@.frame_count,
    {
        self.frame_count
    }

    /// The stream as it stands: the header as it was given, then the frames
    /// written so far.
    pub fn as_bytes(&self) -> (bytes: &[u8])
        ensures
            bytes@ == self@.stream,
    {
        self.data.as_slice()
    }

    /// Appends one frame: a frame header with the length of `frame` and
    /// `timestamp`, then `frame`. A payload too long for the size field, or
    /// a frame beyond what the counter can count, is refused and leaves the
    /// stream as it was.
    pub fn write_ivf_frame(&mut self, frame: &[u8], timestamp: u64) -> (r: Result<(), IvfError>)
        ensures
            match r {
                Ok(_) => old(self)@.accepts(frame@) && final(self)@ == old(self)@.with_frame(
                    Frame { payload: frame@, timestamp },
                ),
                Err(e) => !old(self)@.accepts(frame@) && final(self)@ == old(self)@ && e == (
                if frame@.len() > u32::MAX {
                    IvfError::FrameTooLarge
                } else {
                    IvfError::TooManyFrames
                }),
            },
            old(self)@.wf() ==> final(self)@.wf(),
    {
        let frame_header = match IvfFrameHeader::for_payload(frame.len(), timestamp) {
            Ok(h) => h,
            Err(e) => {
                return Err(e);
            },
        };
        let count = match next_frame_count(self.frame_count) {
            Ok(n) => n,
            Err(e) => {
                return Err(e);
            },
        };
        let head = frame_header.encode();
        append_bytes(&mut self.data, head.as_slice());
        append_bytes(&mut self.data, frame);
        self.frame_count = count;
        proof {
            let written = Frame { payload: frame@, timestamp };
            assert(self.data@ =~= old(self).data@ + written.record());
            if old(self)@.wf() {
                assert(self.data@.subrange(0, 32) =~= old(self).data@.subrange(0, 32));
                IvfHeader::lemma_decode_reads_prefix(old(self).data@, self.data@);
            }
        }
        Ok(())
    }

    /// Closes the writer: puts the number of frames written into the
    /// header's frame count field and hands the stream out.
    pub fn finish(self) -> (stream: Vec<u8>)
        requires
            self@.wf(),
        ensures
            stream@ == self@.finished(),
    {
        let count = u32_le_bytes(self.frame_count);
        let mut data = self.data;
        let mut i: usize = 0;
        while i < 4
            invariant
                i <= 4,
                data@.len() == self.data@.len(),
                data@.len() >= 32,
                count@ == u32_to_le(self.frame_count),
                data@ == self.data@.subrange(0, 24) + count@.take(i as int) + self.data@.skip(
                    24 + i,
                ),
            decreases 4 - i,
        {
            data[IVF_NUM_FRAMES_OFFSET + i] = count[i];
            i += 1;
        }
        assert(count@.take(4) =~= count@);
        data
    }
}

} // verus!
