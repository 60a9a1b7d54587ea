//! What a writer has written, a reader reads back.

use crate::endian::{lemma_u32_le_value, u32_to_le};
use crate::error::IvfError;
use crate::frame::{Frame, IvfFrameHeader};
use crate::header::IvfHeader;
use crate::reader::ReaderState;
use crate::writer::WriterState;
use vstd::prelude::*;

verus! {

/// Every payload of `frames` has a length that the 32-bit size field of a
/// frame header can hold.
pub open spec fn payloads_fit(frames: Seq<Frame>) -> bool {
    forall|i: int| 0 <= i < frames.len() ==> (#[trigger] frames[i]).payload.len() <= u32::MAX
}

/// Writing frames appends their records to the stream and counts them.
pub proof fn lemma_with_frames(state: WriterState, frames: Seq<Frame>)
    ensures
        state.with_frames(frames).stream == state.stream + Frame::records(frames),
        state.with_frames(frames).frame_count == state.frame_count + frames.len(),
    decreases frames.len(),
{
    if frames.len() == 0 {
        assert(state.stream + Frame::records(frames) =~= state.stream);
    } else {
        let next = state.with_frame(frames[0]);
        lemma_with_frames(next, frames.drop_first());
        assert(next.stream + Frame::records(frames.drop_first()) =~= state.stream
            + Frame::records(frames));
    }
}

/// Skipping a prefix and what was put in front of a tail leaves the tail.
proof fn lemma_skip_front(stream: Seq<u8>, at: int, front: Seq<u8>, tail: Seq<u8>)
    requires
        0 <= at <= stream.len(),
        stream.skip(at) == front + tail,
    ensures
        at + front.len() <= stream.len(),
        stream.skip(at + front.len()) == tail,
        stream.skip(at).take(front.len() as int) == front,
        stream.subrange(at, at + front.len()) == front,
{
    assert(stream.skip(at).len() == front.len() + tail.len());
    assert(stream.subrange(at, at + front.len()) =~= (front + tail).take(front.len() as int));
    assert(stream.skip(at + front.len()) =~= (front + tail).skip(front.len() as int));
    assert((front + tail).skip(front.len() as int) =~= tail);
    assert((front + tail).take(front.len() as int) =~= front);
}

/// A reader whose cursor stands in front of the records of `frames`, with
/// nothing behind them, reads exactly `frames` and then the end of the
/// stream.
pub proof fn lemma_read_records(state: ReaderState, frames: Seq<Frame>)
    requires
        state.position <= state.stream.len(),
        state.remaining() == Frame::records(frames),
        payloads_fit(frames),
    ensures
        state.read_all() == Ok::<Seq<Frame>, IvfError>(frames),
    decreases frames.len(),
{
    if frames.len() == 0 {
        assert(frames =~= Seq::<Frame>::empty());
    } else {
        let first = frames[0];
        let rest = frames.drop_first();
        let head = first.header().encoding();
        let tail = first.payload + Frame::records(rest);
        assert(state.remaining() == head + tail) by {
            assert(first.record() + Frame::records(rest) =~= head + tail);
        }
        first.header().lemma_encode_then_decode(tail);
        first.header().lemma_encoding_len();
        assert(state.next_frame_header() == Ok::<Option<IvfFrameHeader>, IvfError>(
            Some(first.header()),
        ));
        lemma_skip_front(state.stream, state.position as int, head, tail);
        let at_payload = state.after_frame_header();
        assert(at_payload == state.advanced(12));
        assert(at_payload.remaining() == tail);
        lemma_skip_front(
            state.stream,
            at_payload.position as int,
            first.payload,
            Frame::records(rest),
        );
        assert(first.header().frame_size == first.payload.len());
        assert(at_payload.payload(first.payload.len()) == first.payload);
        let next = at_payload.advanced(first.payload.len());
        assert(next.remaining() == Frame::records(rest));
        assert(payloads_fit(rest)) by {
            assert forall|i: int| 0 <= i < rest.len() implies (#[trigger] rest[i]).payload.len()
                <= u32::MAX by {
                assert(rest[i] == frames[i + 1]);
            }
        }
        lemma_read_records(next, rest);
        assert(seq![first] + rest =~= frames);
    }
}

/// Replacing four bytes at offset 24 touches the first 32 bytes only, and
/// there only those four.
proof fn lemma_patch_front(stream: Seq<u8>, front: Seq<u8>, patch: Seq<u8>)
    requires
        stream.len() >= 32,
        front == stream.subrange(0, 32),
        patch.len() == 4,
    ensures
        (stream.subrange(0, 24) + patch + stream.skip(28)).len() == stream.len(),
        (stream.subrange(0, 24) + patch + stream.skip(28)).subrange(0, 32) == front.subrange(0, 24)
            + patch + front.subrange(28, 32),
        (stream.subrange(0, 24) + patch + stream.skip(28)).skip(32) == stream.skip(32),
{
    let patched = stream.subrange(0, 24) + patch + stream.skip(28);
    assert(patched.subrange(0, 32) =~= front.subrange(0, 24) + patch + front.subrange(28, 32));
    assert(patched.skip(32) =~= stream.skip(32));
}

/// Closing a writer puts the number of frames written into the header and
/// changes nothing else: the closed stream opens with the writer's header,
/// its frame count replaced, and goes on as the stream did.
pub proof fn lemma_finished_stream(state: WriterState)
    requires
        state.wf(),
    ensures
        state.finished().len() == state.stream.len(),
        IvfHeader::decode_result(state.finished()) == Ok::<IvfHeader, IvfError>(
            state.header().with_num_frames(state.frame_count as u32),
        ),
        state.finished().skip(32) == state.stream.skip(32),
{
    let count = state.frame_count as u32;
    let header = state.header();
    let closed = header.with_num_frames(count);
    let front = state.stream.subrange(0, 32);
    assert(header.encoding() == front) by {
        IvfHeader::lemma_decode_then_encode(state.stream);
    }
    assert(closed.is_valid()) by {
        IvfHeader::lemma_decode_then_encode(state.stream);
    }
    lemma_u32_le_value(count);
    lemma_patch_front(state.stream, front, u32_to_le(count));
    assert(state.finished().subrange(0, 32) == closed.encoding()) by {
        header.lemma_patch_num_frames(count);
    }
    lemma_decode_of_encoding(closed, state.finished());
}

/// A stream that opens with the encoding of a valid header decodes to that
/// header.
proof fn lemma_decode_of_encoding(header: IvfHeader, stream: Seq<u8>)
    requires
        header.is_valid(),
        stream.len() >= 32,
        stream.subrange(0, 32) == header.encoding(),
    ensures
        IvfHeader::decode_result(stream) == Ok::<IvfHeader, IvfError>(header),
{
    header.lemma_encoding_len();
    header.lemma_encode_then_decode();
    assert(header.encoding().subrange(0, 32) =~= header.encoding());
    IvfHeader::lemma_decode_reads_prefix(stream, header.encoding());
}

/// The stream of a writer opened with a valid header, after `frames` have
/// been written: it decodes to the header as it was given, and the records
/// of the frames follow the header.
proof fn lemma_written_stream(header: IvfHeader, frames: Seq<Frame>)
    requires
        header.is_valid(),
    ensures
        ({
            let written = WriterState::opened(header).with_frames(frames);
            &&& written.frame_count == frames.len()
            &&& written.stream.len() >= 32
            &&& IvfHeader::decode_result(written.stream) == Ok::<IvfHeader, IvfError>(header)
            &&& written.stream.skip(32) == Frame::records(frames)
        }),
{
    let start = WriterState::opened(header);
    let written = start.with_frames(frames);
    let front = header.encoding();
    let tail = Frame::records(frames);
    header.lemma_encoding_len();
    lemma_with_frames(start, frames);
    assert(written.stream == front + tail);
    assert(written.stream.skip(0) == front + tail) by {
        assert((front + tail).skip(0) =~= front + tail);
    }
    lemma_skip_front(written.stream, 0, front, tail);
    assert(written.stream.subrange(0, 32) == front);
    assert(written.stream.skip(32) == tail);
    lemma_decode_of_encoding(header, written.stream);
}

/// A writer opened with a valid header accepts frame after frame, as long
/// as each payload fits the size field and their number fits the frame
/// count.
pub proof fn lemma_frames_accepted(header: IvfHeader, frames: Seq<Frame>, i: int)
    requires
        header.is_valid(),
        frames.len() <= u32::MAX,
        payloads_fit(frames),
        0 <= i < frames.len(),
    ensures
        WriterState::opened(header).with_frames(frames.take(i)).accepts(frames[i].payload),
{
    lemma_with_frames(WriterState::opened(header), frames.take(i));
}

/// Frames written through a writer opened with a valid header are the
/// frames that a reader of the stream gets, in their order, and the
/// header it finds is the writer's header: with the number of frames in
/// its frame count once the writer is closed, and as it was given before.
pub proof fn lemma_written_frames_read_back(header: IvfHeader, frames: Seq<Frame>)
    requires
        header.is_valid(),
        frames.len() <= u32::MAX,
        payloads_fit(frames),
    ensures
        ({
            let written = WriterState::opened(header).with_frames(frames);
            let closed = header.with_num_frames(frames.len() as u32);
            &&& written.wf()
            &&& written.frame_count == frames.len()
            &&& IvfHeader::decode_result(written.stream) == Ok::<IvfHeader, IvfError>(header)
            &&& ReaderState::opened(header, written.stream).wf()
            &&& ReaderState::opened(header, written.stream).read_all() == Ok::<
                Seq<Frame>,
                IvfError,
            >(frames)
            &&& IvfHeader::decode_result(written.finished()) == Ok::<IvfHeader, IvfError>(closed)
            &&& ReaderState::opened(closed, written.finished()).wf()
            &&& ReaderState::opened(closed, written.finished()).read_all() == Ok::<
                Seq<Frame>,
                IvfError,
            >(frames)
        }),
{
    let written = WriterState::opened(header).with_frames(frames);
    let closed = header.with_num_frames(frames.len() as u32);
    lemma_written_stream(header, frames);
    let before = ReaderState::opened(header, written.stream);
    assert(before.remaining() == Frame::records(frames));
    lemma_read_records(before, frames);
    lemma_finished_stream(written);
    assert(written.header() == header);
    let after = ReaderState::opened(closed, written.finished());
    assert(after.remaining() == Frame::records(frames));
    lemma_read_records(after, frames);
}

} // verus!
