//! What can go wrong when an IVF stream is read or written.

use vstd::prelude::*;

verus! {

/// The ways in which an IVF operation fails.
#[derive(Debug, Clone, Copy, PartialEq, Eq, Structural)]
pub enum IvfError {
    /// The stream ends inside a file header or a frame header.
    FormatError,
    /// The first four bytes are not `DKIF`.
    InvalidSignature,
    /// The version is not 0 or the header size is not 32.
    UnsupportedVersion,
    /// A header handed to a writer is not one that a reader would accept.
    InvalidHeader,
    /// A skip would leave the stream.
    SeekError,
    /// A payload is longer than the 32-bit size field can say.
    FrameTooLarge,
    /// The 32-bit frame counter is exhausted.
    TooManyFrames,
}

impl IvfError {
    /// The text of [`IvfError::message`].
    pub open spec fn message_text(self) -> Seq<char> {
        match self {
            IvfError::FormatError => "Truncated IVF header or frame header"@,
            IvfError::InvalidSignature => "Invalid IVF format"@,
            IvfError::UnsupportedVersion => "Unsupported IVF version or header size"@,
            IvfError::InvalidHeader => "Invalid or unsupported IVF header"@,
            IvfError::SeekError => "Seek past the end of the IVF stream"@,
            IvfError::FrameTooLarge => "IVF frame payload exceeds 4 GiB"@,
            IvfError::TooManyFrames => "IVF frame count exceeds 32 bits"@,
        }
    }

    /// A one-line description of the error.
    pub fn message(&self) -> (text: &'static str)
        ensures
            text@ == self.message_text(),
    {
        match self {
            IvfError::FormatError => "Truncated IVF header or frame header",
            IvfError::InvalidSignature => "Invalid IVF format",
            IvfError::UnsupportedVersion => "Unsupported IVF version or header size",
            IvfError::InvalidHeader => "Invalid or unsupported IVF header",
            IvfError::SeekError => "Seek past the end of the IVF stream",
            IvfError::FrameTooLarge => "IVF frame payload exceeds 4 GiB",
            IvfError::TooManyFrames => "IVF frame count exceeds 32 bits",
        }
    }
}

} // verus!
