//! Pulling frames out of an IVF stream held in memory.

use crate::error::IvfError;
use crate::frame::{Frame, IvfFrameHeader, IVF_FRAME_HEADER_SIZE};
use crate::header::{IvfHeader, IVF_HEADER_SIZE};
use vstd::prelude::*;

verus! {

/// What a reader is, seen from outside: the file header, the bytes of the
/// stream and how many of them have been consumed.
pub struct ReaderState {
    pub header: IvfHeader,
    pub stream: Seq<u8>,
    pub position: nat,
}

impl ReaderState {
    /// The stream opens with the file header, and the cursor lies behind
    /// it and inside the stream.
    pub open spec fn wf(self) -> bool {
        &&& IvfHeader::decode_result(self.stream) == Ok::<IvfHeader, IvfError>(self.header)
        &&& 32 <= self.position <= self.stream.len()
    }

    /// The state of a reader that has just been opened on `stream`.
    pub open spec fn opened(header: IvfHeader, stream: Seq<u8>) -> ReaderState {
        ReaderState { header, stream, position: 32 }
    }

    /// The bytes that have not been consumed yet.
    pub open spec fn remaining(self) -> Seq<u8> {
        self.stream.skip(self.position as int)
    }

    /// The state after `n` more bytes have been consumed.
    pub open spec fn advanced(self, n: nat) -> ReaderState {
        ReaderState { position: self.position + n, ..self }
    }

    /// What reading a frame header at the cursor gives.
    pub open spec fn next_frame_header(self) -> Result<Option<IvfFrameHeader>, IvfError> {
        IvfFrameHeader::decode_result(self.remaining())
    }

    /// The state after a frame header has been asked for: twelve bytes
    /// further where there are that many, and else at the end of the
    /// stream.
    pub open spec fn after_frame_header(self) -> ReaderState {
        if self.remaining().len() >= 12 {
            self.advanced(12)
        } else {
            self.advanced(self.remaining().len())
        }
    }

    /// How many bytes a read of `wanted` bytes gets: all of them, or what
    /// is left where the stream ends before.
    pub open spec fn available(self, wanted: nat) -> nat {
        if wanted <= self.remaining().len() {
            wanted
        } else {
            self.remaining().len()
        }
    }

    /// The bytes that a read of `wanted` bytes gets.
    pub open spec fn payload(self, wanted: nat) -> Seq<u8> {
        self.remaining().take(self.available(wanted) as int)
    }

    /// What a caller gets who reads to the end of the stream, frame header
    /// and then as much payload as it announces, time after time: the
    /// frames in their order, or the error that stopped the reading.
    pub open spec fn read_all(self) -> Result<Seq<Frame>, IvfError>
        decreases self.stream.len() - self.position,
        when self.position <= self.stream.len()
    {
        match self.next_frame_header() {
            Err(e) => Err(e),
            Ok(None) => Ok(Seq::empty()),
            Ok(Some(frame_header)) => {
                let at_payload = self.after_frame_header();
                let payload = at_payload.payload(frame_header.frame_size as nat);
                match at_payload.advanced(payload.len()).read_all() {
                    Err(e) => Err(e),
                    Ok(rest) => Ok(
                        seq![Frame { payload, timestamp: frame_header.timestamp }] + rest,
                    ),
                }
            },
        }
    }
}

/// A reader over an IVF stream held in memory.
pub struct IvfReader {
    header: IvfHeader,
    data: Vec<u8>,
    pos: usize,
}

impl View for IvfReader {
    type V = ReaderState;

    closed spec fn view(&self) -> ReaderState {
        ReaderState { header: self.header, stream: self.data@, position: self.pos as nat }
    }
}

impl IvfReader {
    #[verifier::type_invariant]
    spec fn inv(self) -> bool {
        self@.wf()
    }

    /// Opens a reader on `stream`: decodes the file header and leaves the
    /// cursor on the first frame header.
    pub fn init(stream: Vec<u8>) -> (r: Result<IvfReader, IvfError>)
        ensures
            match IvfHeader::decode_result(stream@) {
                Ok(header) => r matches Ok(reader) && reader@ == ReaderState::opened(
                    header,
                    stream@,
                ) && reader@.wf(),
                Err(e) => r matches Err(x) && x == e,
            },
    {
        match IvfHeader::decode(stream.as_slice()) {
            Ok(header) => Ok(IvfReader { header, data: stream, pos: IVF_HEADER_SIZE }),
            Err(e) => Err(e),
        }
    }

    /// The file header that the stream opened with.
    pub fn header(&self) -> (h: &IvfHeader)
        ensures
            *h == self@.header,
            self@.wf(),
    {
        proof {
            use_type_invariant(self);
        }
        &self.header
    }

    /// How many bytes of the stream have been consumed.
    pub fn position(&self) -> (p: usize)
        ensures
            p == self@.position,
            self@.wf(),
    {
        proof {
            use_type_invariant(self);
        }
        self.pos
    }

    /// Reads the next frame header. `Ok(None)` is the regular end of the
    /// stream: nothing was left. A frame header cut short is an error, and
    /// consumes what was left.
    pub fn read_ivf_frame_header(&mut self) -> (r: Result<Option<IvfFrameHeader>, IvfError>)
        ensures
            r == old(self)@.next_frame_header(),
            old(self)@.remaining().len() == 0 ==> r == Ok::<Option<IvfFrameHeader>, IvfError>(
                None,
            ),
            0 < old(self)@.remaining().len() < 12 ==> r == Err::<
                Option<IvfFrameHeader>,
                IvfError,
            >(IvfError::FormatError),
            final(self)@ == old(self)@.after_frame_header(),
            final(self)@.wf(),
    {
        proof {
            use_type_invariant(&*self);
        }
        let len = self.data.len();
        let end = if len - self.pos >= IVF_FRAME_HEADER_SIZE {
            self.pos + IVF_FRAME_HEADER_SIZE
        } else {
            len
        };
        let rest = vstd::slice::slice_subrange(self.data.as_slice(), self.pos, len);
        let r = IvfFrameHeader::decode(rest);
        self.pos = end;
        r
    }

    /// Reads payload bytes into `frame`, as many as `frame` holds or, where
    /// the stream ends before, as many as are left. Returns their number;
    /// the rest of `frame` is left as it was.
    pub fn read_frame(&mut self, frame: &mut [u8]) -> (n: usize)
        ensures
            n == old(self)@.available(old(frame)@.len()),
            final(frame)@ == old(self)@.payload(old(frame)@.len()) + old(frame)@.skip(n as int),
            final(self)@ == old(self)@.advanced(n as nat),
            final(self)@.wf(),
    {
        proof {
            use_type_invariant(&*self);
        }
        let left = self.data.len() - self.pos;
        let n = if frame.len() <= left {
            frame.len()
        } else {
            left
        };
        let start = self.pos;
        let mut i: usize = 0;
        while i < n
            invariant
                i <= n,
                start + n <= self.data@.len() <= usize::MAX,
                n <= frame@.len(),
                frame@.len() == old(frame)@.len(),
                self.data@ == old(self).data@,
                frame@ == old(self).data@.subrange(start as int, start + i) + old(frame)@.skip(
                    i as int,
                ),
            decreases n - i,
        {
            frame[i] = self.data[start + i];
            i += 1;
        }
        self.pos = start + n;
        n
    }

    /// Moves the cursor `frame_size` bytes forward without reading them.
    /// A skip that would leave the stream fails and moves nothing.
    pub fn skip_frame(&mut self, frame_size: u32) -> (r: Result<(), IvfError>)
        ensures
            match r {
                Ok(_) => frame_size <= old(self)@.remaining().len() && final(self)@ == old(
                    self,
                )@.advanced(frame_size as nat),
                Err(e) => frame_size > old(self)@.remaining().len() && e == IvfError::SeekError
                    && final(self)@ == old(self)@,
            },
            final(self)@.wf(),
    {
        proof {
            use_type_invariant(&*self);
        }
        let left = self.data.len() - self.pos;
        if frame_size as usize > left {
            return Err(IvfError::SeekError);
        }
        self.pos = self.pos + frame_size as usize;
        Ok(())
    }
}

} // verus!
