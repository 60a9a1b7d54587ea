use libivf_rs::writer::next_frame_count;
use libivf_rs::{
    IvfError, IvfFrameHeader, IvfHeader, IVF_FRAME_HEADER_SIZE, IVF_HEADER_SIZE,
    IVF_NUM_FRAMES_OFFSET,
};

const SAMPLE: [u8; 32] = [
    b'D', b'K', b'I', b'F', 0x00, 0x00, 0x20, 0x00, b'V', b'P', b'8', b'0', 0xA0, 0x00, 0x78, 0x00,
    0x0F, 0x00, 0x00, 0x00, 0x01, 0x00, 0x00, 0x00, 0x4B, 0x00, 0x00, 0x00, 0x00, 0x00, 0x00, 0x00,
];

#[test]
fn sizes_and_offsets() {
    assert_eq!(IVF_HEADER_SIZE, 32);
    assert_eq!(IVF_FRAME_HEADER_SIZE, 12);
    assert_eq!(IVF_NUM_FRAMES_OFFSET, 24);
}

#[test]
fn decode_reads_the_sample_header() {
    let header = IvfHeader::decode(&SAMPLE).unwrap();
    assert_eq!(&header.signature, b"DKIF");
    assert_eq!(header.version, 0);
    assert_eq!(header.header_size, 32);
    assert_eq!(&header.fourcc, b"VP80");
    assert_eq!(header.width, 160);
    assert_eq!(header.height, 120);
    assert_eq!(header.framerate_num, 15);
    assert_eq!(header.framerate_den, 1);
    assert_eq!(header.num_frames, 75);
    assert_eq!(header.unused, 0);
    assert!(header.check());
}

#[test]
fn decode_then_encode_gives_the_bytes_back() {
    let mut bytes = SAMPLE;
    bytes[8..].copy_from_slice(&[
        0xF1, 0xE2, 0xD3, 0xC4, 0x01, 0x02, 0x03, 0x04, 0x05, 0x06, 0x07, 0x08, 0x09, 0x0A, 0x0B,
        0x0C, 0x0D, 0x0E, 0x0F, 0x10, 0xFF, 0xFE, 0xFD, 0xFC,
    ]);
    let header = IvfHeader::decode(&bytes).unwrap();
    assert_eq!(header.width, 0x0201);
    assert_eq!(header.height, 0x0403);
    assert_eq!(header.framerate_num, 0x08070605);
    assert_eq!(header.framerate_den, 0x0C0B0A09);
    assert_eq!(header.num_frames, 0x100F0E0D);
    assert_eq!(header.unused, 0xFCFDFEFF);
    assert_eq!(header.encode().unwrap(), bytes.to_vec());
}

#[test]
fn encode_then_decode_gives_the_header_back() {
    let header = IvfHeader {
        signature: *b"DKIF",
        version: 0,
        header_size: 32,
        fourcc: *b"AV01",
        width: 0xFFFF,
        height: 1,
        framerate_num: 30000,
        framerate_den: 1001,
        num_frames: u32::MAX,
        unused: 0x80000001,
    };
    let bytes = header.encode().unwrap();
    assert_eq!(bytes.len(), 32);
    assert_eq!(&bytes[12..16], &[0xFF, 0xFF, 0x01, 0x00]);
    assert_eq!(&bytes[16..20], &[0x30, 0x75, 0x00, 0x00]);
    assert_eq!(&bytes[28..32], &[0x01, 0x00, 0x00, 0x80]);
    assert_eq!(IvfHeader::decode(&bytes), Ok(header));
}

#[test]
fn decode_ignores_what_follows_the_header() {
    let mut bytes = SAMPLE.to_vec();
    bytes.extend_from_slice(&[0xFF; 40]);
    assert_eq!(IvfHeader::decode(&bytes), IvfHeader::decode(&SAMPLE));
}

#[test]
fn decode_refuses_a_truncated_header() {
    assert_eq!(IvfHeader::decode(&[]), Err(IvfError::FormatError));
    assert_eq!(IvfHeader::decode(&SAMPLE[..31]), Err(IvfError::FormatError));
    assert_eq!(IvfHeader::decode(&SAMPLE[..4]), Err(IvfError::FormatError));
}

#[test]
fn decode_refuses_another_signature() {
    for at in 0..4 {
        let mut bytes = SAMPLE;
        bytes[at] ^= 0x20;
        assert_eq!(IvfHeader::decode(&bytes), Err(IvfError::InvalidSignature));
    }
    let mut bytes = [0xFFu8; 32];
    bytes[..4].copy_from_slice(b"RIFF");
    assert_eq!(IvfHeader::decode(&bytes), Err(IvfError::InvalidSignature));
    let mut bytes = SAMPLE;
    bytes[0] = b'X';
    bytes[4] = 9;
    assert_eq!(IvfHeader::decode(&bytes), Err(IvfError::InvalidSignature));
}

#[test]
fn decode_refuses_another_version_or_header_size() {
    let mut bytes = SAMPLE;
    bytes[4] = 1;
    assert_eq!(IvfHeader::decode(&bytes), Err(IvfError::UnsupportedVersion));
    let mut bytes = SAMPLE;
    bytes[5] = 1;
    assert_eq!(IvfHeader::decode(&bytes), Err(IvfError::UnsupportedVersion));
    let mut bytes = SAMPLE;
    bytes[6] = 0x21;
    assert_eq!(IvfHeader::decode(&bytes), Err(IvfError::UnsupportedVersion));
    let mut bytes = SAMPLE;
    bytes[7] = 0x20;
    assert_eq!(IvfHeader::decode(&bytes), Err(IvfError::UnsupportedVersion));
}

#[test]
fn encode_refuses_an_invalid_header() {
    let valid = IvfHeader::decode(&SAMPLE).unwrap();
    assert!(valid.check());
    let mut header = valid;
    header.signature[3] = b'f';
    assert!(!header.check());
    assert_eq!(header.encode(), Err(IvfError::InvalidHeader));
    let mut header = valid;
    header.version = 2;
    assert!(!header.check());
    assert_eq!(header.encode(), Err(IvfError::InvalidHeader));
    let mut header = valid;
    header.header_size = 0;
    assert!(!header.check());
    assert_eq!(header.encode(), Err(IvfError::InvalidHeader));
}

#[test]
fn frame_header_decodes_little_endian() {
    let bytes = [0x78, 0x56, 0x34, 0x12, 0xEF, 0xCD, 0xAB, 0x89, 0x67, 0x45, 0x23, 0x01];
    assert_eq!(
        IvfFrameHeader::decode(&bytes),
        Ok(Some(IvfFrameHeader { frame_size: 0x12345678, timestamp: 0x0123456789ABCDEF }))
    );
}

#[test]
fn frame_header_encodes_little_endian() {
    let frame_header = IvfFrameHeader { frame_size: 0x12345678, timestamp: 0x0123456789ABCDEF };
    assert_eq!(
        frame_header.encode(),
        vec![0x78, 0x56, 0x34, 0x12, 0xEF, 0xCD, 0xAB, 0x89, 0x67, 0x45, 0x23, 0x01]
    );
    let largest = IvfFrameHeader { frame_size: u32::MAX, timestamp: u64::MAX };
    assert_eq!(largest.encode(), vec![0xFF; 12]);
    assert_eq!(IvfFrameHeader::decode(&largest.encode()), Ok(Some(largest)));
}

#[test]
fn frame_header_decode_tells_the_end_from_a_cut() {
    assert_eq!(IvfFrameHeader::decode(&[]), Ok(None));
    for len in 1..12 {
        assert_eq!(IvfFrameHeader::decode(&vec![0u8; len]), Err(IvfError::FormatError));
    }
    assert_eq!(
        IvfFrameHeader::decode(&[0u8; 12]),
        Ok(Some(IvfFrameHeader { frame_size: 0, timestamp: 0 }))
    );
    let mut longer = vec![1, 0, 0, 0, 2, 0, 0, 0, 0, 0, 0, 0];
    longer.extend_from_slice(&[0xAB; 9]);
    assert_eq!(
        IvfFrameHeader::decode(&longer),
        Ok(Some(IvfFrameHeader { frame_size: 1, timestamp: 2 }))
    );
}

#[test]
fn frame_header_for_a_payload() {
    assert_eq!(
        IvfFrameHeader::for_payload(0, 3),
        Ok(IvfFrameHeader { frame_size: 0, timestamp: 3 })
    );
    assert_eq!(
        IvfFrameHeader::for_payload(65536, u64::MAX),
        Ok(IvfFrameHeader { frame_size: 65536, timestamp: u64::MAX })
    );
    if usize::BITS > 32 {
        assert_eq!(
            IvfFrameHeader::for_payload(u32::MAX as usize, 1),
            Ok(IvfFrameHeader { frame_size: u32::MAX, timestamp: 1 })
        );
        assert_eq!(IvfFrameHeader::for_payload(usize::MAX, 1), Err(IvfError::FrameTooLarge));
        assert_eq!(
            IvfFrameHeader::for_payload((u32::MAX as usize).wrapping_add(1), 1),
            Err(IvfError::FrameTooLarge)
        );
    }
}

#[test]
fn frame_count_stops_at_32_bits() {
    assert_eq!(next_frame_count(0), Ok(1));
    assert_eq!(next_frame_count(74), Ok(75));
    assert_eq!(next_frame_count(u32::MAX - 1), Ok(u32::MAX));
    assert_eq!(next_frame_count(u32::MAX), Err(IvfError::TooManyFrames));
}

#[test]
fn error_messages() {
    assert_eq!(IvfError::InvalidSignature.message(), "Invalid IVF format");
    assert_eq!(IvfError::UnsupportedVersion.message(), "Unsupported IVF version or header size");
    assert_eq!(IvfError::InvalidHeader.message(), "Invalid or unsupported IVF header");
    let all = [
        IvfError::FormatError,
        IvfError::InvalidSignature,
        IvfError::UnsupportedVersion,
        IvfError::InvalidHeader,
        IvfError::SeekError,
        IvfError::FrameTooLarge,
        IvfError::TooManyFrames,
    ];
    for (i, a) in all.iter().enumerate() {
        assert!(!a.message().is_empty());
        for b in &all[i + 1..] {
            assert_ne!(a.message(), b.message());
        }
    }
}
