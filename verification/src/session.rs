//! The decoder session: the flush/decode protocol around the decoding
//! engine, output-format negotiation with the host pipeline, correlation of
//! decoded pictures with their submissions, and assembly of output buffers.
//!
//! The decoding engine is an external native library, out of scope here; it
//! appears as the [`DecodingEngine`] capability. The host media pipeline
//! owns buffer allocation and format negotiation; it appears as the
//! [`HostPipeline`] capability.  Both are modeled so that the session's own
//! decisions — when to call, what to surface, what to store — are verified
//! for every behavior of engine and host.

use vstd::prelude::*;

use crate::assembler::assemble_plane;
use crate::assembler::assembled_ok;
use crate::assembler::assembled_size;
use crate::assembler::AssembledPlane;
use crate::frame::AccessUnit;
use crate::frame::ColorFormat;
use crate::frame::Error;
use crate::frame::Frame;
use crate::frame::Plane;

verus! {

/// Outcome of one engine decode call.
pub enum DecodeOutcome {
    /// A decoded picture came back.
    Picture(Frame),
    /// The call succeeded without producing a picture.
    NoPicture,
    /// The engine needs more input before it can return a picture.
    NeedMoreInput,
    /// The engine failed.
    Failed(Error),
}

/// Outcome of one engine flush call.
pub enum FlushOutcome {
    /// A buffered picture was drained.
    Picture(Frame),
    /// The engine has no more buffered pictures.
    EndOfStream,
    /// The engine failed.
    Failed(Error),
}

/// The decoding engine as an opaque capability: one logical decoder
/// instance that consumes access units and hands back decoded pictures.
///
/// Nothing is assumed about which outcome a call produces, except that an
/// engine holds only finitely many buffered pictures: repeated flushing
/// reaches end of stream (the budget falls with every drained picture).
pub trait DecodingEngine {
    /// An upper bound on how many pictures flushing can still drain.
    spec fn flush_budget(&self) -> nat;

    /// Feed one access unit to the engine.
    fn decode_au(&mut self, au: &AccessUnit) -> (r: DecodeOutcome);

    /// Drain one buffered picture from the engine.
    fn flush_one(&mut self) -> (r: FlushOutcome)
        ensures
            r is Picture ==> final(self).flush_budget() < old(self).flush_budget(),
    ;
}

/// A deterministic engine that replays scripted outcomes, for driving the
/// session in tests: decode calls consume `decode_script`, flush calls
/// consume `flush_script`, and an exhausted script answers "need more
/// input" or "end of stream".
pub struct ScriptedEngine {
    /// Outcomes for decode calls, first call first.
    pub decode_script: Vec<DecodeOutcome>,
    /// Outcomes for flush calls, first call first.
    pub flush_script: Vec<FlushOutcome>,
}

impl ScriptedEngine {
    /// An engine that will replay the given outcomes.
    pub fn new(decode_script: Vec<DecodeOutcome>, flush_script: Vec<FlushOutcome>) -> (r:
        ScriptedEngine)
        ensures
            r.decode_script == decode_script,
            r.flush_script == flush_script,
    {
        ScriptedEngine { decode_script, flush_script }
    }
}

impl DecodingEngine for ScriptedEngine {
    closed spec fn flush_budget(&self) -> nat {
        self.flush_script.len() as nat
    }

    fn decode_au(&mut self, au: &AccessUnit) -> (r: DecodeOutcome) {
        if self.decode_script.len() > 0 {
            self.decode_script.remove(0)
        } else {
            DecodeOutcome::NeedMoreInput
        }
    }

    fn flush_one(&mut self) -> (r: FlushOutcome) {
        if self.flush_script.len() > 0 {
            self.flush_script.remove(0)
        } else {
            FlushOutcome::EndOfStream
        }
    }
}

/// How a decode outcome is surfaced to the caller: a picture or nothing on
/// success, "try again" when the engine wants more input, and the engine's
/// own error otherwise.
pub open spec fn spec_decode_result(o: DecodeOutcome) -> Result<Option<Frame>, Error> {
    match o {
        DecodeOutcome::Picture(f) => Ok(Some(f)),
        DecodeOutcome::NoPicture => Ok(None),
        DecodeOutcome::NeedMoreInput => Err(Error::TryAgain),
        DecodeOutcome::Failed(e) => Err(e),
    }
}

/// How a flush outcome is surfaced: a drained picture, `None` at end of
/// stream, or the engine's own error.
pub open spec fn spec_flush_result(o: FlushOutcome) -> Result<Option<Frame>, Error> {
    match o {
        FlushOutcome::Picture(f) => Ok(Some(f)),
        FlushOutcome::EndOfStream => Ok(None),
        FlushOutcome::Failed(e) => Err(e),
    }
}

/// Surface a decode outcome exactly as [`spec_decode_result`] says.
pub fn interpret_decode_outcome(o: DecodeOutcome) -> (r: Result<Option<Frame>, Error>)
    ensures
        r == spec_decode_result(o),
{
    match o {
        DecodeOutcome::Picture(f) => Ok(Some(f)),
        DecodeOutcome::NoPicture => Ok(None),
        DecodeOutcome::NeedMoreInput => Err(Error::TryAgain),
        DecodeOutcome::Failed(e) => Err(e),
    }
}

/// Surface a flush outcome exactly as [`spec_flush_result`] says.
pub fn interpret_flush_outcome(o: FlushOutcome) -> (r: Result<Option<Frame>, Error>)
    ensures
        r == spec_flush_result(o),
{
    match o {
        FlushOutcome::Picture(f) => Ok(Some(f)),
        FlushOutcome::EndOfStream => Ok(None),
        FlushOutcome::Failed(e) => Err(e),
    }
}

/// Parameters a decoding engine is opened with.
#[derive(Debug, Clone, Copy, PartialEq, Eq, Structural)]
pub struct DecoderParams {
    /// Number of worker threads; negative lets the engine choose.
    pub num_threads: i32,
    /// Number of parse threads; negative lets the engine choose.
    pub parse_delay: i32,
}

/// Builder for a decoder's parameters.
pub struct DecoderBuilder {
    params: DecoderParams,
}

impl DecoderBuilder {
    /// A builder with the engine-chosen defaults.
    pub fn new() -> (r: DecoderBuilder)
        ensures
            r.params() == (DecoderParams { num_threads: -1i32, parse_delay: -1i32 }),
    {
        DecoderBuilder { params: DecoderParams { num_threads: -1, parse_delay: -1 } }
    }

    /// Set the number of threads.
    pub fn num_threads(self, num_threads: i32) -> (r: DecoderBuilder)
        ensures
            r.params() == (DecoderParams { num_threads, ..self.params() }),
    {
        DecoderBuilder { params: DecoderParams { num_threads, ..self.params } }
    }

    /// Set the number of threads for parsing.
    pub fn parse_delay(self, parse_delay: i32) -> (r: DecoderBuilder)
        ensures
            r.params() == (DecoderParams { parse_delay, ..self.params() }),
    {
        DecoderBuilder { params: DecoderParams { parse_delay, ..self.params } }
    }

    /// The parameters built so far.
    pub closed spec fn params(&self) -> DecoderParams {
        self.params
    }

    /// The parameters built so far, for opening the engine.
    pub fn build_params(&self) -> (r: DecoderParams)
        ensures
            r == self.params(),
    {
        self.params
    }

    /// Attach an engine opened with these parameters.
    pub fn build<E: DecodingEngine>(self, engine: E) -> (r: Decoder<E>)
        ensures
            !r.at_eof(),
            r.params() == self.params(),
            r.budget() == engine.flush_budget(),
    {
        Decoder { engine, at_eof: false, params: self.params }
    }
}

/// The decode/flush protocol around one engine handle.
///
/// Repeated `flush` calls drain buffered pictures until one returns
/// `Ok(None)` (end of stream).  Flushing again after that, without an
/// intervening `decode`, is a protocol violation and fails with
/// [`Error::RestartRequired`] — surfaced by the session itself, without
/// touching the engine.
pub struct Decoder<E> {
    engine: E,
    at_eof: bool,
    params: DecoderParams,
}

impl<E: DecodingEngine> Decoder<E> {
    /// Whether flush has signalled end of stream and no decode call has
    /// re-armed the protocol since.
    pub closed spec fn at_eof(&self) -> bool {
        self.at_eof
    }

    /// The engine's remaining flush budget.
    pub closed spec fn budget(&self) -> nat {
        self.engine.flush_budget()
    }

    /// The parameters this decoder was built with.
    pub closed spec fn params(&self) -> DecoderParams {
        self.params
    }

    /// A decoder around an engine opened with default parameters.
    pub fn new(engine: E) -> (r: Decoder<E>)
        ensures
            !r.at_eof(),
            r.budget() == engine.flush_budget(),
    {
        Decoder { engine, at_eof: false, params: DecoderParams { num_threads: -1, parse_delay: -1 } }
    }

    /// Create a decoder builder.
    pub fn builder() -> (r: DecoderBuilder)
        ensures
            r.params() == (DecoderParams { num_threads: -1i32, parse_delay: -1i32 }),
    {
        DecoderBuilder::new()
    }

    /// Feed one access unit to the engine and surface its outcome: a
    /// decoded picture, nothing yet, `Err(TryAgain)` when the engine wants
    /// more input, or the engine's error.  Decoding re-arms the flush
    /// protocol after an end of stream.
    pub fn decode(&mut self, au: &AccessUnit) -> (r: Result<Option<Frame>, Error>)
        ensures
            !final(self).at_eof(),
            final(self).params() == old(self).params(),
    {
        let o = self.engine.decode_au(au);
        self.at_eof = false;
        interpret_decode_outcome(o)
    }

    /// Drain one buffered picture from the engine.
    ///
    /// Returns pictures until `Ok(None)` signals end of stream.  Calling
    /// flush again after end of stream, without a fresh `decode`, is a
    /// protocol violation: it fails with `RestartRequired` and the engine
    /// is not called.
    pub fn flush(&mut self) -> (r: Result<Option<Frame>, Error>)
        ensures
            final(self).params() == old(self).params(),
            old(self).at_eof() ==> r == Err::<Option<Frame>, Error>(Error::RestartRequired)
                && *final(self) == *old(self),
            !old(self).at_eof() ==> {
                &&& (final(self).at_eof() <==> r == Ok::<Option<Frame>, Error>(None))
                &&& (r matches Ok(f) && f is Some ==> final(self).budget() < old(self).budget())
            },
    {
        if self.at_eof {
            return Err(Error::RestartRequired);
        }
        let r = interpret_flush_outcome(self.engine.flush_one());
        match &r {
            Ok(None) => {
                self.at_eof = true;
            },
            _ => (),
        }
        r
    }
}

/// The output video format negotiated with the host pipeline.
#[derive(Debug, Clone, Copy, PartialEq, Eq, Structural)]
pub enum VideoFormat {
    /// 8-bit YUV 4:2:0 planar.
    I420,
    /// 8-bit YUV 4:2:2 planar.
    Y42b,
    /// 8-bit YUV 4:4:4 planar.
    Y444,
    /// 10-bit little-endian YUV 4:2:0 planar.
    I42010le,
    /// 10-bit little-endian YUV 4:2:2 planar.
    I42210le,
    /// 10-bit little-endian YUV 4:4:4 planar.
    Y44410le,
    /// No supported output mapping.
    Unknown,
}

/// The output format a decoded picture's color format and bit depth map
/// to; combinations without a supported mapping (grayscale among them) map
/// to `Unknown`.
pub open spec fn spec_video_format(color_format: ColorFormat, bit_depth: u32) -> VideoFormat {
    match color_format {
        ColorFormat::Yuv420Planar => if bit_depth == 8 {
            VideoFormat::I420
        } else if bit_depth == 10 {
            VideoFormat::I42010le
        } else {
            VideoFormat::Unknown
        },
        ColorFormat::Yuv422Planar => if bit_depth == 8 {
            VideoFormat::Y42b
        } else if bit_depth == 10 {
            VideoFormat::I42210le
        } else {
            VideoFormat::Unknown
        },
        ColorFormat::Yuv444Planar => if bit_depth == 8 {
            VideoFormat::Y444
        } else if bit_depth == 10 {
            VideoFormat::Y44410le
        } else {
            VideoFormat::Unknown
        },
        _ => VideoFormat::Unknown,
    }
}

/// The output video format for a decoded frame.
pub fn video_format_from_frame(frame: &Frame) -> (r: VideoFormat)
    ensures
        r == spec_video_format(frame.color_format, frame.bit_depth),
{
    match frame.color_format {
        ColorFormat::Yuv420Planar => {
            if frame.bit_depth == 8 {
                VideoFormat::I420
            } else if frame.bit_depth == 10 {
                VideoFormat::I42010le
            } else {
                VideoFormat::Unknown
            }
        },
        ColorFormat::Yuv422Planar => {
            if frame.bit_depth == 8 {
                VideoFormat::Y42b
            } else if frame.bit_depth == 10 {
                VideoFormat::I42210le
            } else {
                VideoFormat::Unknown
            }
        },
        ColorFormat::Yuv444Planar => {
            if frame.bit_depth == 8 {
                VideoFormat::Y444
            } else if frame.bit_depth == 10 {
                VideoFormat::Y44410le
            } else {
                VideoFormat::Unknown
            }
        },
        _ => VideoFormat::Unknown,
    }
}

/// The output video formats this session can produce, in the order they
/// are offered to the host.
pub fn video_output_formats() -> (r: Vec<VideoFormat>)
    ensures
        r@ == seq![
            VideoFormat::I420,
            VideoFormat::Y42b,
            VideoFormat::Y444,
            VideoFormat::I42010le,
            VideoFormat::I42210le,
            VideoFormat::Y44410le,
        ],
{
    let mut r: Vec<VideoFormat> = Vec::new();
    r.push(VideoFormat::I420);
    r.push(VideoFormat::Y42b);
    r.push(VideoFormat::Y444);
    r.push(VideoFormat::I42010le);
    r.push(VideoFormat::I42210le);
    r.push(VideoFormat::Y44410le);
    proof {
        assert(r@ =~= seq![
            VideoFormat::I420,
            VideoFormat::Y42b,
            VideoFormat::Y444,
            VideoFormat::I42010le,
            VideoFormat::I42210le,
            VideoFormat::Y44410le,
        ]);
    }
    r
}

/// An output format confirmed by the host: the video format and
/// dimensions the output buffers will report, and the host's destination
/// stride for each of the three planes.  The host may adjust any of these
/// relative to what the session asked for.
#[derive(Debug)]
pub struct OutputFormat {
    /// The negotiated video format.
    pub video_format: VideoFormat,
    /// Picture width in samples.
    pub width: u32,
    /// Picture height in rows.
    pub height: u32,
    /// The host's destination stride for each plane.
    pub dest_strides: Vec<u32>,
}

/// What the session asked the host to negotiate: the video format and
/// dimensions derived from the decoded picture that triggered the round.
#[derive(Debug, Clone, Copy, PartialEq, Eq, Structural)]
pub struct FormatRequest {
    /// The derived video format.
    pub video_format: VideoFormat,
    /// Picture width in samples.
    pub width: u32,
    /// Picture height in rows.
    pub height: u32,
}

/// A negotiation request fits a decoded frame: same derived video format,
/// same dimensions.
pub open spec fn request_matches(q: FormatRequest, f: Frame) -> bool {
    &&& q.video_format == spec_video_format(f.color_format, f.bit_depth)
    &&& q.width == f.width
    &&& q.height == f.height
}

/// The request a decoded frame gives rise to.
pub open spec fn request_of(f: Frame) -> FormatRequest {
    FormatRequest {
        video_format: spec_video_format(f.color_format, f.bit_depth),
        width: f.width,
        height: f.height,
    }
}

/// Whether handling a decoded frame requires renegotiating the output
/// format with the host: it does when nothing has been negotiated yet or
/// when the frame's format or dimensions differ from those of the last
/// negotiation round (the host's confirmation may adjust the stored
/// output format, so change detection goes by what was asked, not by what
/// was confirmed).
pub open spec fn spec_needs_negotiation(negotiated_for: Option<FormatRequest>, f: Frame) -> bool {
    match negotiated_for {
        None => true,
        Some(q) => !request_matches(q, f),
    }
}

/// After a renegotiation triggered by frame `f` completes, no frame with
/// the same format and dimensions — `f` itself included — triggers
/// another: a change of resolution renegotiates exactly once.
pub proof fn lemma_renegotiate_once(q: FormatRequest, f: Frame, g: Frame)
    requires
        request_matches(q, f),
        spec_video_format(g.color_format, g.bit_depth) == spec_video_format(
            f.color_format,
            f.bit_depth,
        ),
        g.width == f.width,
        g.height == f.height,
    ensures
        !spec_needs_negotiation(Some(q), g),
{
}

/// An error of the decoder session.
#[derive(Debug, Clone, Copy, PartialEq, Eq, Structural)]
pub enum SessionError {
    /// The session is stopped or was never set up.
    Flushing,
    /// The decoded picture's pixel layout has no supported output mapping,
    /// or its planes cannot be assembled; fatal for this picture, not for
    /// the session.
    UnsupportedFormat,
    /// The host did not confirm a usable output format.
    NegotiationFailed,
    /// The decoding engine failed.
    Engine(Error),
}

/// The host media pipeline's callbacks: format negotiation, lookup of the
/// pending request a picture belongs to, and delivery of a finished buffer.
///
/// The session calls `negotiate_output_format` with no borrow of its own
/// state outstanding, so a host whose callback re-enters the session (for
/// example to query allocation capabilities) cannot deadlock against it.
pub trait HostPipeline {
    /// Negotiate an output format; `None` when negotiation fails.
    fn negotiate_output_format(&mut self, video_format: VideoFormat, width: u32, height: u32) -> (r:
        Option<OutputFormat>);

    /// Whether a pending request exists at this submission offset.
    fn resolve_pending_request(&mut self, offset: u64) -> (r: bool);

    /// Hand the finished output buffer to the request at this offset.
    fn complete_request(&mut self, offset: u64, buffer: OutputBuffer);
}

/// A finished output buffer: one assembled memory region per plane, the
/// accumulated byte offsets, the source strides for optional stride
/// metadata, and the dimensions it reports.
pub struct OutputBuffer {
    /// One assembled memory region per plane.
    pub planes: Vec<AssembledPlane>,
    /// Byte offset of each plane's region within the buffer.
    pub offsets: Vec<usize>,
    /// The source stride of each plane, recorded for stride metadata.
    pub strides: Vec<u32>,
    /// Whether stride metadata is attached.
    pub has_video_meta: bool,
    /// Reported width, from the negotiated format.
    pub width: u32,
    /// Reported height, from the negotiated format.
    pub height: u32,
    /// Reported video format, from the negotiated format.
    pub video_format: VideoFormat,
}

/// The frame and the negotiated format can be assembled: three well-formed
/// planes, three destination strides, and all sizes within address range.
pub open spec fn assembly_compatible(of: OutputFormat, f: Frame, meta: bool) -> bool {
    &&& f.planes.len() == 3
    &&& (forall|i: int| 0 <= i < 3 ==> (#[trigger] f.planes[i]).wf())
    &&& of.dest_strides.len() == 3
    &&& (forall|i: int|
        0 <= i < 3 ==> (#[trigger] of.dest_strides[i]) as int * f.planes[i].height as int
            <= usize::MAX as int)
    &&& assembled_size(f.planes[0], of.dest_strides[0] as int, meta) + assembled_size(
        f.planes[1],
        of.dest_strides[1] as int,
        meta,
    ) + assembled_size(f.planes[2], of.dest_strides[2] as int, meta) <= usize::MAX as int
}

/// What a finished output buffer guarantees: one region per plane with the
/// verified alias/copy decision and contents, gapless accumulated offsets,
/// the source strides, and the negotiated dimensions and format.
pub open spec fn buffer_assembled(b: OutputBuffer, f: Frame, of: OutputFormat, meta: bool) -> bool {
    &&& b.has_video_meta == meta
    &&& b.width == of.width
    &&& b.height == of.height
    &&& b.video_format == of.video_format
    &&& b.planes.len() == 3
    &&& b.offsets.len() == 3
    &&& b.strides.len() == 3
    &&& (forall|i: int|
        0 <= i < 3 ==> assembled_ok(
            #[trigger] b.planes[i],
            f.planes[i],
            of.dest_strides[i] as int,
            meta,
        ))
    &&& (forall|i: int| 0 <= i < 3 ==> (#[trigger] b.strides[i]) == f.planes[i].stride)
    &&& b.offsets[0] == 0
    &&& b.offsets[1] == b.planes[0].bytes@.len()
    &&& b.offsets[2] == b.planes[0].bytes@.len() + b.planes[1].bytes@.len()
}

/// The outcome of one completed negotiation round: what the session asked
/// of the host, and what the host confirmed (the confirmation may adjust
/// the format, the dimensions, and the strides).
struct Negotiated {
    request: FormatRequest,
    confirmed: OutputFormat,
}

/// The decoder session: the engine handle (when set up), the last
/// completed negotiation (request and host-confirmed output format), the
/// host's allocation capability, and a count of completed renegotiations.
pub struct DecoderSession<E> {
    decoder: Option<Decoder<E>>,
    negotiated: Option<Negotiated>,
    video_meta_supported: bool,
    negotiations: u64,
}

/// A saturating increment, for the renegotiation counter.
pub open spec fn sat_inc(n: u64) -> u64 {
    if n < u64::MAX {
        (n + 1) as u64
    } else {
        n
    }
}

impl<E: DecodingEngine> DecoderSession<E> {
    /// Whether the session is set up with an engine.
    pub closed spec fn is_active(&self) -> bool {
        self.decoder is Some
    }

    /// Whether the flush protocol has reached end of stream.
    pub closed spec fn at_eof(&self) -> bool {
        match self.decoder {
            Some(d) => d.at_eof(),
            None => false,
        }
    }

    /// The engine's remaining flush budget.
    pub closed spec fn budget(&self) -> nat {
        match self.decoder {
            Some(d) => d.budget(),
            None => 0,
        }
    }

    /// The host-confirmed output format of the last negotiation round.
    pub closed spec fn output_info(&self) -> Option<OutputFormat> {
        match self.negotiated {
            Some(n) => Some(n.confirmed),
            None => None,
        }
    }

    /// What the last negotiation round was asked for.
    pub closed spec fn negotiated_for(&self) -> Option<FormatRequest> {
        match self.negotiated {
            Some(n) => Some(n.request),
            None => None,
        }
    }

    /// Whether the host's buffer pool understands stride metadata.
    pub closed spec fn video_meta(&self) -> bool {
        self.video_meta_supported
    }

    /// How many renegotiations have completed since the session was set up.
    pub closed spec fn negotiations(&self) -> u64 {
        self.negotiations
    }

    /// A session with no engine: every operation fails with `Flushing`
    /// until `set_format` installs one.
    pub fn new() -> (r: DecoderSession<E>)
        ensures
            !r.is_active(),
            r.output_info() is None,
            r.negotiated_for() is None,
            !r.video_meta(),
            r.negotiations() == 0,
    {
        DecoderSession { decoder: None, negotiated: None, video_meta_supported: false, negotiations: 0 }
    }

    /// Set up the session around a freshly opened engine, with no output
    /// format negotiated yet.
    pub fn set_format(&mut self, engine: E)
        ensures
            final(self).is_active(),
            !final(self).at_eof(),
            final(self).output_info() is None,
            final(self).negotiated_for() is None,
            !final(self).video_meta(),
            final(self).negotiations() == 0,
    {
        self.decoder = Some(Decoder::new(engine));
        self.negotiated = None;
        self.video_meta_supported = false;
        self.negotiations = 0;
    }

    /// Tear the session down, releasing the engine handle and clearing the
    /// session state; subsequent operations fail with `Flushing` until
    /// `set_format` installs a new engine.  This reset is the session's one
    /// cancellation primitive, and the
    /// exclusive borrow it takes means no other operation on the session
    /// can be in flight while it runs.
    pub fn stop(&mut self)
        ensures
            !final(self).is_active(),
            final(self).output_info() is None,
            final(self).negotiated_for() is None,
            !final(self).video_meta(),
            final(self).negotiations() == 0,
    {
        self.decoder = None;
        self.negotiated = None;
        self.video_meta_supported = false;
        self.negotiations = 0;
    }

    /// Record whether the host's buffer pool supports stride metadata
    /// (learned during the host's allocation decision).
    pub fn set_video_meta_supported(&mut self, supported: bool)
        ensures
            final(self).video_meta() == supported,
            final(self).is_active() == old(self).is_active(),
            final(self).at_eof() == old(self).at_eof(),
            final(self).budget() == old(self).budget(),
            final(self).output_info() == old(self).output_info(),
            final(self).negotiated_for() == old(self).negotiated_for(),
            final(self).negotiations() == old(self).negotiations(),
    {
        self.video_meta_supported = supported;
    }

    /// Assemble the output buffer for a decoded frame from the negotiated
    /// format: per plane, alias or copy as the stride comparison and the
    /// host's stride-metadata support decide, with accumulated offsets.
    ///
    /// Fails with `UnsupportedFormat` exactly when the frame's planes and
    /// the negotiated strides cannot be assembled.
    pub fn decoded_frame_as_buffer(&self, frame: &Frame) -> (r: Result<OutputBuffer, SessionError>)
        requires
            self.output_info() is Some,
        ensures
            match r {
                Ok(b) => {
                    &&& assembly_compatible(self.output_info()->0, *frame, self.video_meta())
                    &&& buffer_assembled(b, *frame, self.output_info()->0, self.video_meta())
                }
                Err(e) => {
                    &&& e == SessionError::UnsupportedFormat
                    &&& !assembly_compatible(self.output_info()->0, *frame, self.video_meta())
                }
            },
    {
        let meta = self.video_meta_supported;
        let of = match &self.negotiated {
            Some(n) => &n.confirmed,
            None => {
                proof {
                    assert(false);
                }
                return Err(SessionError::UnsupportedFormat);
            },
        };
        if frame.planes.len() != 3 || of.dest_strides.len() != 3 {
            return Err(SessionError::UnsupportedFormat);
        }
        if !(plane_layout_ok(&frame.planes[0]) && plane_layout_ok(&frame.planes[1])
            && plane_layout_ok(&frame.planes[2])) {
            return Err(SessionError::UnsupportedFormat);
        }
        if !(plane_size_ok(&frame.planes[0], of.dest_strides[0]) && plane_size_ok(
            &frame.planes[1],
            of.dest_strides[1],
        ) && plane_size_ok(&frame.planes[2], of.dest_strides[2])) {
            return Err(SessionError::UnsupportedFormat);
        }
        let s0 = assembled_size_of(&frame.planes[0], of.dest_strides[0], meta);
        let s1 = assembled_size_of(&frame.planes[1], of.dest_strides[1], meta);
        let s2 = assembled_size_of(&frame.planes[2], of.dest_strides[2], meta);
        if (s0 as u128) + (s1 as u128) + (s2 as u128) > usize::MAX as u128 {
            return Err(SessionError::UnsupportedFormat);
        }
        let p0 = assemble_plane(&frame.planes[0], of.dest_strides[0], meta);
        let p1 = assemble_plane(&frame.planes[1], of.dest_strides[1], meta);
        let p2 = assemble_plane(&frame.planes[2], of.dest_strides[2], meta);
        let o1: usize = p0.bytes.len();
        let o2: usize = o1 + p1.bytes.len();
        let mut planes: Vec<AssembledPlane> = Vec::new();
        planes.push(p0);
        planes.push(p1);
        planes.push(p2);
        let mut offsets: Vec<usize> = Vec::new();
        offsets.push(0);
        offsets.push(o1);
        offsets.push(o2);
        let mut strides: Vec<u32> = Vec::new();
        strides.push(frame.planes[0].stride);
        strides.push(frame.planes[1].stride);
        strides.push(frame.planes[2].stride);
        Ok(
            OutputBuffer {
                planes,
                offsets,
                strides,
                has_video_meta: meta,
                width: of.width,
                height: of.height,
                video_format: of.video_format,
            },
        )
    }
}

impl<E: DecodingEngine> DecoderSession<E> {
    /// Handle one decoded picture: map its format, renegotiate with the
    /// host when the format or dimensions changed since the last
    /// negotiation round, correlate it with its pending request, assemble
    /// the output buffer, and deliver it.  The host's confirmation is
    /// stored as given — it may adjust format, dimensions, or strides —
    /// and a picture whose format already matches the last round is
    /// handled without consulting the host, so it cannot fail on the
    /// host's account (the final `ensures` clause owes success there).
    ///
    /// Returns `Ok(true)` when a buffer was delivered and `Ok(false)` when
    /// no pending request exists at the picture's offset (a benign race:
    /// the picture is dropped).
    ///
    /// The host's negotiation callback runs with no borrow of the
    /// session's state outstanding — the analogue of releasing the session
    /// lock before a callback that may re-enter the session.
    pub fn handle_decoded_frame<H: HostPipeline>(&mut self, host: &mut H, frame: &Frame) -> (r:
        Result<bool, SessionError>)
        ensures
            final(self).is_active() == old(self).is_active(),
            final(self).at_eof() == old(self).at_eof(),
            final(self).budget() == old(self).budget(),
            final(self).video_meta() == old(self).video_meta(),
            final(self).negotiations() >= old(self).negotiations(),
            !spec_needs_negotiation(old(self).negotiated_for(), *frame) ==> {
                &&& final(self).negotiated_for() == old(self).negotiated_for()
                &&& final(self).output_info() == old(self).output_info()
                &&& final(self).negotiations() == old(self).negotiations()
            },
            r is Ok ==> final(self).negotiated_for() == Some(request_of(*frame))
                && final(self).output_info() is Some,
            r is Ok ==> final(self).negotiations() == if spec_needs_negotiation(
                old(self).negotiated_for(),
                *frame,
            ) {
                sat_inc(old(self).negotiations())
            } else {
                old(self).negotiations()
            },
            spec_video_format(frame.color_format, frame.bit_depth) == VideoFormat::Unknown ==> r
                == Err::<bool, SessionError>(SessionError::UnsupportedFormat) && *final(self)
                == *old(self),
            r is Err ==> r == Err::<bool, SessionError>(SessionError::UnsupportedFormat) || r
                == Err::<bool, SessionError>(SessionError::NegotiationFailed),
            !spec_needs_negotiation(old(self).negotiated_for(), *frame) && spec_video_format(
                frame.color_format,
                frame.bit_depth,
            ) != VideoFormat::Unknown && assembly_compatible(
                old(self).output_info()->0,
                *frame,
                old(self).video_meta(),
            ) ==> r is Ok,
    {
        let fmt = video_format_from_frame(frame);
        if fmt == VideoFormat::Unknown {
            // No supported output mapping: fatal for this picture only.
            return Err(SessionError::UnsupportedFormat);
        }
        let needs_negotiation = match &self.negotiated {
            None => true,
            Some(n) => !(n.request.video_format == fmt && n.request.width == frame.width
                && n.request.height == frame.height),
        };
        if needs_negotiation {
            // The host may re-enter the session from this callback; no
            // borrow of the session's state is held across it.
            match host.negotiate_output_format(fmt, frame.width, frame.height) {
                None => {
                    return Err(SessionError::NegotiationFailed);
                },
                Some(confirmed) => {
                    // The host may adjust the confirmed format — other
                    // strides, a compatible pixel format, other
                    // dimensions — and the adjusted confirmation is
                    // stored; only a confirmation without the three
                    // per-plane strides is unusable.
                    if confirmed.dest_strides.len() != 3 {
                        return Err(SessionError::NegotiationFailed);
                    }
                    let request = FormatRequest {
                        video_format: fmt,
                        width: frame.width,
                        height: frame.height,
                    };
                    self.negotiated = Some(Negotiated { request, confirmed });
                    if self.negotiations < u64::MAX {
                        self.negotiations = self.negotiations + 1;
                    }
                },
            }
        }
        // Correlation: the engine numbers decoded pictures gaplessly in
        // submission order from the same origin as the host's request
        // offsets, so the picture's offset is its sequence number.
        let offset = frame.sequence_number();
        if !host.resolve_pending_request(offset) {
            // The host already discarded the request (flush/seek race):
            // drop the picture; this is not a session fault.
            return Ok(false);
        }
        let buffer = match self.decoded_frame_as_buffer(frame) {
            Ok(b) => b,
            Err(e) => {
                return Err(e);
            },
        };
        host.complete_request(offset, buffer);
        Ok(true)
    }

    /// Feed one access unit to the engine and handle a decoded picture if
    /// one comes back.  "Needs more input" is absorbed; engine errors are
    /// surfaced as session faults.
    pub fn decode<H: HostPipeline>(&mut self, host: &mut H, au: &AccessUnit) -> (r: Result<
        (),
        SessionError,
    >)
        ensures
            !old(self).is_active() ==> r == Err::<(), SessionError>(SessionError::Flushing)
                && *final(self) == *old(self),
            old(self).is_active() ==> final(self).is_active() && !final(self).at_eof(),
            old(self).is_active() ==> r != Err::<(), SessionError>(SessionError::Flushing),
            old(self).is_active() && r is Err ==> {
                ||| r matches Err(SessionError::Engine(_))
                ||| r == Err::<(), SessionError>(SessionError::UnsupportedFormat)
                ||| r == Err::<(), SessionError>(SessionError::NegotiationFailed)
            },
            final(self).video_meta() == old(self).video_meta(),
            final(self).negotiations() >= old(self).negotiations(),
            r != Err::<(), SessionError>(SessionError::Engine(Error::TryAgain)),
    {
        let res = match &mut self.decoder {
            Some(d) => d.decode(au),
            None => {
                return Err(SessionError::Flushing);
            },
        };
        match res {
            Ok(Some(f)) => {
                match self.handle_decoded_frame(host, &f) {
                    Ok(_) => Ok(()),
                    Err(e) => Err(e),
                }
            },
            Ok(None) => Ok(()),
            Err(Error::TryAgain) => Ok(()),
            Err(e) => Err(SessionError::Engine(e)),
        }
    }

    /// Drain the engine's buffered pictures and deliver each one, until
    /// the engine signals end of stream or fails.
    #[verifier::loop_isolation(false)]
    pub fn forward_pending_frames<H: HostPipeline>(&mut self, host: &mut H) -> (r: Result<
        (),
        SessionError,
    >)
        requires
            old(self).is_active(),
        ensures
            final(self).is_active(),
            final(self).video_meta() == old(self).video_meta(),
            final(self).negotiations() >= old(self).negotiations(),
            r is Ok ==> final(self).at_eof(),
            r != Err::<(), SessionError>(SessionError::Flushing),
            r is Err ==> {
                ||| r matches Err(SessionError::Engine(_))
                ||| r == Err::<(), SessionError>(SessionError::UnsupportedFormat)
                ||| r == Err::<(), SessionError>(SessionError::NegotiationFailed)
            },
    {
        loop
            invariant
                self.is_active(),
                self.video_meta() == old(self).video_meta(),
                self.negotiations() >= old(self).negotiations(),
            decreases self.budget(),
        {
            let res = match &mut self.decoder {
                Some(d) => d.flush(),
                None => {
                    proof {
                        assert(false);
                    }
                    return Err(SessionError::UnsupportedFormat);
                },
            };
            match res {
                Ok(Some(f)) => {
                    match self.handle_decoded_frame(host, &f) {
                        Ok(_) => (),
                        Err(e) => {
                            return Err(e);
                        },
                    }
                },
                Ok(None) => {
                    return Ok(());
                },
                Err(e) => {
                    return Err(SessionError::Engine(e));
                },
            }
        }
    }

    /// Drain and discard the engine's buffered pictures, completing no
    /// host request.  Returns `Ok` once the engine signals end of stream;
    /// an engine error — the protocol-order error among them — is
    /// surfaced, not absorbed.
    #[verifier::loop_isolation(false)]
    pub fn flush_decoder(&mut self) -> (r: Result<(), Error>)
        requires
            old(self).is_active(),
        ensures
            final(self).is_active(),
            final(self).video_meta() == old(self).video_meta(),
            final(self).output_info() == old(self).output_info(),
            final(self).negotiated_for() == old(self).negotiated_for(),
            final(self).negotiations() == old(self).negotiations(),
            r is Ok ==> final(self).at_eof(),
            old(self).at_eof() ==> r == Err::<(), Error>(Error::RestartRequired),
            !old(self).at_eof() ==> (r is Ok <==> final(self).at_eof()),
    {
        loop
            invariant
                self.is_active(),
                self.video_meta() == old(self).video_meta(),
                self.output_info() == old(self).output_info(),
                self.negotiated_for() == old(self).negotiated_for(),
                self.negotiations() == old(self).negotiations(),
                self.at_eof() == old(self).at_eof(),
            decreases self.budget(),
        {
            let res = match &mut self.decoder {
                Some(d) => d.flush(),
                None => {
                    proof {
                        assert(false);
                    }
                    return Err(Error::RestartRequired);
                },
            };
            match res {
                Ok(Some(_)) => (),
                Ok(None) => {
                    return Ok(());
                },
                Err(e) => {
                    return Err(e);
                },
            }
        }
    }
}

/// Check one plane's internal layout.
fn plane_layout_ok(p: &Plane) -> (r: bool)
    ensures
        r == p.wf(),
{
    if p.bytes_per_sample < 1 || p.bytes_per_sample > 2 {
        return false;
    }
    proof {
        vstd::arithmetic::mul::lemma_mul_upper_bound(
            p.width as int,
            0xffff_ffff,
            p.bytes_per_sample as int,
            0xffff_ffff,
        );
        vstd::arithmetic::mul::lemma_mul_upper_bound(
            p.stride as int,
            0xffff_ffff,
            p.height as int,
            0xffff_ffff,
        );
    }
    if (p.width as u64) * (p.bytes_per_sample as u64) > p.stride as u64 {
        return false;
    }
    (p.data.len() as u64) == (p.stride as u64) * (p.height as u64)
}

/// Check that a plane's copy region fits in address range.
fn plane_size_ok(p: &Plane, dest: u32) -> (r: bool)
    ensures
        r == (dest as int * p.height as int <= usize::MAX as int),
{
    proof {
        vstd::arithmetic::mul::lemma_mul_upper_bound(
            dest as int,
            0xffff_ffff,
            p.height as int,
            0xffff_ffff,
        );
    }
    (dest as u64) * (p.height as u64) <= usize::MAX as u64
}

/// The byte size a plane's assembled region will have.
fn assembled_size_of(p: &Plane, dest: u32, meta: bool) -> (r: usize)
    requires
        p.wf(),
        dest as int * p.height as int <= usize::MAX as int,
    ensures
        r as int == assembled_size(*p, dest as int, meta),
{
    if meta || dest == p.stride {
        p.data.len()
    } else {
        (dest as usize) * (p.height as usize)
    }
}

} // verus!
