//! The image transcoder: decodes a source image's header and pixel frames and
//! re-encodes them, frame by frame, into a fresh byte stream.
//!
//! The PNG bit-stream grammar itself is the codec crate's business; this
//! module holds it behind a small trusted boundary. What the stream's frames
//! are, and what the re-encoder emits for them, are named by uninterpreted
//! spec functions of the source bytes alone, since the codec is deterministic;
//! the frame loop joining the two halves is verified against those names.
use crate::errors::PackError;
use vstd::prelude::*;

verus! {

/// Whether the codec accepts the source's header: `true` exactly when a
/// streaming decoder can be initialized over the bytes.
pub uninterp spec fn png_parse_ok(src: Seq<u8>) -> bool;

/// The decoder's frame buffer length for a parseable source: every frame's
/// byte span fits in it.
pub uninterp spec fn png_buf_size(src: Seq<u8>) -> nat;

/// The byte spans of the frames that decode successfully, in stream order,
/// before the decoder either ends normally or fails.
pub uninterp spec fn png_good_frames(src: Seq<u8>) -> Seq<Seq<u8>>;

/// Whether, after the last good frame, the stream ends with the normal
/// no-more-frames signal (`true`) or a mid-stream decode fault (`false`).
pub uninterp spec fn png_ends_ok(src: Seq<u8>) -> bool;

/// Whether the re-encoder accepts the source's header metadata unchanged.
pub uninterp spec fn png_encodable(src: Seq<u8>) -> bool;

/// The complete stream the re-encoder emits when fed, in order, the given
/// frame spans under the header metadata of `src`.
pub uninterp spec fn png_stream(src: Seq<u8>, frames: Seq<Seq<u8>>) -> Seq<u8>;

/// Whether the re-encoder configured from `src`'s header accepts, in order,
/// every one of `src`'s good frames and then the stream trailer.
pub uninterp spec fn png_frames_accepted(src: Seq<u8>) -> bool;

/// The re-encoded stream of a source: its good frames played back into an
/// encoder configured from its own header.
pub open spec fn transcoded(src: Seq<u8>) -> Seq<u8> {
    png_stream(src, png_good_frames(src))
}

/// A source can be transcoded to the end only if its header parses, its
/// header re-encodes, and its frame stream ends normally.
pub open spec fn transcode_viable(src: Seq<u8>) -> bool {
    png_parse_ok(src) && png_encodable(src) && png_ends_ok(src)
}

/// The streaming decoder over one source's bytes.
///
/// `source_src` names the bytes it was opened over, `source_pos` how many
/// frames it has handed out, and `source_live` that it has not yet reported
/// an end or a fault.
#[verifier::external_body]
pub struct FrameSource {
    reader: png::Reader<std::io::Cursor<Vec<u8>>>,
}

/// The bytes a `FrameSource` was opened over.
pub uninterp spec fn source_src(s: FrameSource) -> Seq<u8>;

/// How many frames a `FrameSource` has handed out so far.
pub uninterp spec fn source_pos(s: FrameSource) -> nat;

/// Whether a `FrameSource` has neither ended nor faulted yet.
pub uninterp spec fn source_live(s: FrameSource) -> bool;

/// Shared output storage the encoder writes through; writing appends to the
/// byte vector and never fails.
#[verifier::external_body]
pub(crate) struct ByteSink {
    shared: std::rc::Rc<std::cell::RefCell<Vec<u8>>>,
}

#[verifier::external_type_specification]
#[verifier::external_body]
pub struct ExIoError(std::io::Error);

impl std::io::Write for ByteSink {
    /// Relies on `Vec::extend_from_slice`: appends the whole buffer.
    #[verifier::external_body]
    fn write(&mut self, buf: &[u8]) -> std::io::Result<usize> {
        self.shared.borrow_mut().extend_from_slice(buf);
        Ok(buf.len())
    }

    #[verifier::external_body]
    fn flush(&mut self) -> std::io::Result<()> {
        Ok(())
    }
}

/// The streaming re-encoder for one image, holding the stream written so far.
///
/// `sink_src` names the source whose header configured it, `sink_frames` the
/// frame spans written into it so far.
#[verifier::external_body]
pub struct FrameSink {
    writer: png::Writer<ByteSink>,
    out: std::rc::Rc<std::cell::RefCell<Vec<u8>>>,
}

/// The source whose header metadata a `FrameSink`'s encoder was copied from.
pub uninterp spec fn sink_src(k: FrameSink) -> Seq<u8>;

/// The frame spans written into a `FrameSink` so far, in order.
pub uninterp spec fn sink_frames(k: FrameSink) -> Seq<Seq<u8>>;

/// What one pull on a `FrameSource` produced: a frame's byte count, the
/// normal end-of-frames signal, or a mid-stream decode fault.
pub enum FrameStep {
    Frame(usize),
    End,
    Fail,
}

/// Relies on `png::Decoder::new` over an in-memory cursor and
/// `png::Reader::read_info`: opening succeeds exactly when the bytes hold a
/// parseable image header (and its frame buffer fits in memory), and the
/// fresh reader stands before the first frame.
#[verifier::external_body]
pub(crate) fn open_source(src: &Vec<u8>) -> (r: Result<FrameSource, PackError>)
    ensures
        match r {
            Ok(s) => png_parse_ok(src@) && source_src(s) == src@ && source_pos(s) == 0
                && source_live(s),
            Err(e) => !png_parse_ok(src@) && e == PackError::DecodeInit,
        },
{
    let cursor = std::io::Cursor::new(src.clone());
    match png::Decoder::new(cursor).read_info() {
        Ok(reader) => Ok(FrameSource { reader }),
        Err(_) => Err(PackError::DecodeInit),
    }
}

/// Relies on `png::Reader::output_buffer_size`: the bytes needed to hold any
/// single decoded frame. `read_info` already refused sources for which it
/// would not fit in memory, so the value is present and constant.
#[verifier::external_body]
pub(crate) fn frame_buf_len(s: &FrameSource) -> (r: usize)
    ensures
        r as nat == png_buf_size(source_src(*s)),
{
    s.reader.output_buffer_size().unwrap_or(0)
}

/// Relies on `png::Reader::next_frame`: with a buffer of the advertised
/// length, a successful call fills the frame's byte span at the front of the
/// buffer and reports its length; an end-of-image report comes exactly when
/// every declared frame was already handed out; any other fault is a
/// mid-stream decode failure.
#[verifier::external_body]
pub(crate) fn next_frame(s: &mut FrameSource, buf: &mut Vec<u8>) -> (r: FrameStep)
    requires
        source_live(*old(s)),
        old(buf)@.len() == png_buf_size(source_src(*old(s))),
    ensures
        source_src(*final(s)) == source_src(*old(s)),
        final(buf)@.len() == old(buf)@.len(),
        match r {
            FrameStep::Frame(n) => {
                &&& source_live(*final(s))
                &&& source_pos(*old(s)) < png_good_frames(source_src(*old(s))).len()
                &&& source_pos(*final(s)) == source_pos(*old(s)) + 1
                &&& n <= final(buf)@.len()
                &&& final(buf)@.take(n as int) == png_good_frames(source_src(*old(s)))[source_pos(
                    *old(s),
                ) as int]
            },
            FrameStep::End => {
                &&& source_pos(*old(s)) == png_good_frames(source_src(*old(s))).len()
                &&& png_ends_ok(source_src(*old(s)))
            },
            FrameStep::Fail => {
                &&& source_pos(*old(s)) == png_good_frames(source_src(*old(s))).len()
                &&& !png_ends_ok(source_src(*old(s)))
            },
        },
{
    match s.reader.next_frame(buf.as_mut_slice()) {
        Ok(info) => FrameStep::Frame(info.buffer_size()),
        Err(png::DecodingError::Parameter(_)) => FrameStep::End,
        Err(_) => FrameStep::Fail,
    }
}

/// Relies on `png::Reader::info`, `png::Encoder::with_info` and
/// `png::Encoder::write_header`: copies the decoded header metadata unchanged
/// into a fresh encoder over empty shared storage; accepting it is a property
/// of the source's header alone, and on success the stream's signature and
/// header are already written.
#[verifier::external_body]
pub(crate) fn begin_sink(s: &FrameSource) -> (r: Result<FrameSink, PackError>)
    requires
        source_pos(*s) == 0,
    ensures
        match r {
            Ok(k) => png_encodable(source_src(*s)) && sink_src(k) == source_src(*s) && sink_frames(
                k,
            ) == Seq::<Seq<u8>>::empty(),
            Err(e) => !png_encodable(source_src(*s)) && e == PackError::EncodeInit,
        },
{
    let info = s.reader.info().clone();
    let out = std::rc::Rc::new(std::cell::RefCell::new(Vec::new()));
    let sink = ByteSink { shared: out.clone() };
    let encoder = match png::Encoder::with_info(sink, info) {
        Ok(e) => e,
        Err(_) => {
            return Err(PackError::EncodeInit);
        },
    };
    match encoder.write_header() {
        Ok(writer) => Ok(FrameSink { writer, out }),
        Err(_) => Err(PackError::EncodeInit),
    }
}

/// Relies on `png::Writer::write_image_data`: on success exactly the given
/// span was appended to the stream as the next frame, and a sink that has
/// taken the source's good frames so far accepts the next one whenever the
/// source's frames are accepted at all.
#[verifier::external_body]
pub(crate) fn push_frame(k: &mut FrameSink, data: &[u8]) -> (r: Result<(), PackError>)
    ensures
        sink_src(*final(k)) == sink_src(*old(k)),
        match r {
            Ok(u) => sink_frames(*final(k)) == sink_frames(*old(k)).push(data@),
            Err(e) => e == PackError::FrameEncode,
        },
        ({
            let src = sink_src(*old(k));
            let i = sink_frames(*old(k)).len() as int;
            &&& png_frames_accepted(src)
            &&& i < png_good_frames(src).len()
            &&& sink_frames(*old(k)) == png_good_frames(src).take(i)
            &&& data@ == png_good_frames(src)[i]
        }) ==> r is Ok,
{
    match k.writer.write_image_data(data) {
        Ok(()) => Ok(()),
        Err(_) => Err(PackError::FrameEncode),
    }
}

/// Relies on `png::Writer::finish`: writes the stream trailer, after which
/// the shared storage holds the complete re-encoded stream, never empty since
/// the signature and header were written when the sink began. A sink that has
/// taken all of the source's good frames finishes whenever the source's
/// frames are accepted at all.
#[verifier::external_body]
pub(crate) fn finish_sink(k: FrameSink) -> (r: Result<Vec<u8>, PackError>)
    ensures
        match r {
            Ok(bytes) => bytes@ == png_stream(sink_src(k), sink_frames(k)) && bytes@.len() > 0,
            Err(e) => e == PackError::EncodeFinalize,
        },
        (png_frames_accepted(sink_src(k)) && sink_frames(k) == png_good_frames(sink_src(k)))
            ==> r is Ok,
{
    let out = k.out;
    match k.writer.finish() {
        Ok(()) => {
            let bytes = out.borrow().clone();
            Ok(bytes)
        },
        Err(_) => Err(PackError::EncodeFinalize),
    }
}

/// Re-encodes one source image: decodes its frames and plays each one's valid
/// byte span, in order, into an encoder configured from the source's own
/// header, returning the complete re-encoded stream. Succeeds on every source
/// that can be transcoded to the end and whose frames the encoder accepts.
pub fn transcode_png(src: &Vec<u8>) -> (r: Result<Vec<u8>, PackError>)
    ensures
        transcode_viable(src@) && png_frames_accepted(src@) ==> r is Ok,
        match r {
            Ok(bytes) => {
                &&& transcode_viable(src@)
                &&& bytes@ == transcoded(src@)
                &&& bytes@.len() > 0
            },
            Err(e) => {
                &&& (e == PackError::DecodeInit <==> !png_parse_ok(src@))
                &&& (e == PackError::EncodeInit <==> png_parse_ok(src@) && !png_encodable(src@))
                &&& (e == PackError::FrameDecode ==> png_parse_ok(src@) && png_encodable(src@)
                    && !png_ends_ok(src@))
                &&& (png_parse_ok(src@) && png_encodable(src@) && !png_ends_ok(src@)
                    && png_frames_accepted(src@) ==> e == PackError::FrameDecode)
                &&& (e == PackError::FrameEncode || e == PackError::EncodeFinalize
                    ==> png_parse_ok(src@) && png_encodable(src@))
                &&& e != PackError::OffsetOverflow
            },
        },
{
    let mut source = match open_source(src) {
        Ok(s) => s,
        Err(e) => {
            return Err(e);
        },
    };
    let buf_len = frame_buf_len(&source);
    let mut buf: Vec<u8> = vec![0u8; buf_len];
    let mut sink = match begin_sink(&source) {
        Ok(k) => k,
        Err(e) => {
            return Err(e);
        },
    };
    let ghost srcv = src@;
    loop
        invariant_except_break
            srcv == src@,
            source_live(source),
            source_src(source) == srcv,
            buf@.len() == png_buf_size(srcv),
            sink_src(sink) == srcv,
            source_pos(source) <= png_good_frames(srcv).len(),
            sink_frames(sink) == png_good_frames(srcv).take(source_pos(source) as int),
            png_parse_ok(srcv),
            png_encodable(srcv),
        ensures
            sink_src(sink) == srcv,
            sink_frames(sink) == png_good_frames(srcv),
            png_ends_ok(srcv),
            png_parse_ok(srcv),
            png_encodable(srcv),
        decreases png_good_frames(srcv).len() - source_pos(source),
    {
        let ghost pos = source_pos(source);
        match next_frame(&mut source, &mut buf) {
            FrameStep::Frame(n) => {
                let span = vstd::slice::slice_subrange(buf.as_slice(), 0, n);
                proof {
                    assert(sink_frames(sink) == png_good_frames(srcv).take(pos as int));
                    assert(span@ == png_good_frames(srcv)[pos as int]);
                }
                match push_frame(&mut sink, span) {
                    Ok(u) => {},
                    Err(e) => {
                        proof {
                            assert(!png_frames_accepted(srcv));
                        }
                        return Err(e);
                    },
                }
                proof {
                    assert(png_good_frames(srcv).take(pos as int + 1) =~= png_good_frames(
                        srcv,
                    ).take(pos as int).push(png_good_frames(srcv)[pos as int]));
                }
            },
            FrameStep::End => {
                proof {
                    assert(pos == png_good_frames(srcv).len());
                    assert(png_good_frames(srcv).take(pos as int) =~= png_good_frames(srcv));
                }
                break ;
            },
            FrameStep::Fail => {
                return Err(PackError::FrameDecode);
            },
        }
    }
    finish_sink(sink)
}

} // verus!
