//! The faults the packing pipeline can report. Each aborts the file being
//! packed and, in a batch, the whole run; nothing written so far is rolled
//! back.
use vstd::prelude::*;

verus! {

/// Why packing one image, or a batch, stopped.
#[derive(Debug, Clone, Copy, PartialEq, Eq, Structural)]
pub enum PackError {
    /// The source bytes are not a parseable image header.
    DecodeInit,
    /// A frame failed to decode mid-stream; distinct from the normal
    /// end-of-frames signal.
    FrameDecode,
    /// The source header cannot be re-encoded.
    EncodeInit,
    /// A decoded frame was rejected by the encoder.
    FrameEncode,
    /// The encoder could not write its trailer.
    EncodeFinalize,
    /// Advancing the running offset by an entry's size would pass the top of
    /// the offset counter's range.
    OffsetOverflow,
}

impl PackError {
    /// A short human-readable account of the fault, one distinct message per
    /// variant.
    pub fn describe(&self) -> (r: &'static str)
        ensures
            r@ == match *self {
                PackError::DecodeInit => "source is not a decodable image"@,
                PackError::FrameDecode => "a frame failed to decode mid-stream"@,
                PackError::EncodeInit => "the image header cannot be re-encoded"@,
                PackError::FrameEncode => "the encoder rejected a decoded frame"@,
                PackError::EncodeFinalize => "the encoder trailer could not be written"@,
                PackError::OffsetOverflow => "the running offset would overflow"@,
            },
            r@.len() > 0,
    {
        let s = match self {
            PackError::DecodeInit => "source is not a decodable image",
            PackError::FrameDecode => "a frame failed to decode mid-stream",
            PackError::EncodeInit => "the image header cannot be re-encoded",
            PackError::FrameEncode => "the encoder rejected a decoded frame",
            PackError::EncodeFinalize => "the encoder trailer could not be written",
            PackError::OffsetOverflow => "the running offset would overflow",
        };
        proof {
            reveal_strlit("source is not a decodable image");
            reveal_strlit("a frame failed to decode mid-stream");
            reveal_strlit("the image header cannot be re-encoded");
            reveal_strlit("the encoder rejected a decoded frame");
            reveal_strlit("the encoder trailer could not be written");
            reveal_strlit("the running offset would overflow");
        }
        s
    }
}

} // verus!
