//! Tests of the decode/flush protocol, resolution renegotiation, frame
//! correlation, and output-buffer delivery, driven by a scripted engine
//! and a fake host pipeline.

use vvdec::decode_stream;
use vvdec::AccessUnit;
use vvdec::ChunkedReader;
use vvdec::MemSource;
use vvdec::PipelineError;
use vvdec::ColorFormat;
use vvdec::DecodeOutcome;
use vvdec::Decoder;
use vvdec::DecoderBuilder;
use vvdec::DecoderSession;
use vvdec::Error;
use vvdec::FlushOutcome;
use vvdec::Frame;
use vvdec::FrameFormat;
use vvdec::HostPipeline;
use vvdec::OutputBuffer;
use vvdec::OutputFormat;
use vvdec::Plane;
use vvdec::ScriptedEngine;
use vvdec::SessionError;
use vvdec::VideoFormat;

fn test_plane(width: u32, height: u32, stride: u32, fill: u8) -> Plane {
    Plane::from_parts(
        vec![fill; (stride * height) as usize],
        width,
        height,
        stride,
        1,
    )
    .unwrap()
}

fn test_frame(width: u32, height: u32, stride: u32, sequence_number: u64) -> Frame {
    Frame {
        planes: vec![
            test_plane(width, height, stride, 1),
            test_plane(width / 2, height / 2, stride / 2, 2),
            test_plane(width / 2, height / 2, stride / 2, 3),
        ],
        width,
        height,
        bit_depth: 8,
        sequence_number,
        cts: None,
        frame_format: FrameFormat::Progressive,
        color_format: ColorFormat::Yuv420Planar,
        picture_attributes: None,
    }
}

struct FakeHost {
    negotiations: u64,
    completed: Vec<(u64, OutputBuffer)>,
    resolve_requests: bool,
    confirm: bool,
    stride_override: Option<Vec<u32>>,
    dims_override: Option<(u32, u32)>,
}

impl FakeHost {
    fn new() -> FakeHost {
        FakeHost {
            negotiations: 0,
            completed: Vec::new(),
            resolve_requests: true,
            confirm: true,
            stride_override: None,
            dims_override: None,
        }
    }
}

impl HostPipeline for FakeHost {
    fn negotiate_output_format(
        &mut self,
        video_format: VideoFormat,
        width: u32,
        height: u32,
    ) -> Option<OutputFormat> {
        self.negotiations += 1;
        if !self.confirm {
            return None;
        }
        let dest_strides = match &self.stride_override {
            Some(strides) => strides.clone(),
            // By default the host asks for tightly packed rows.
            None => vec![width, width / 2, width / 2],
        };
        let (width, height) = self.dims_override.unwrap_or((width, height));
        Some(OutputFormat { video_format, width, height, dest_strides })
    }

    fn resolve_pending_request(&mut self, _offset: u64) -> bool {
        self.resolve_requests
    }

    fn complete_request(&mut self, offset: u64, buffer: OutputBuffer) {
        self.completed.push((offset, buffer));
    }
}

fn au(bytes: &[u8]) -> AccessUnit {
    AccessUnit::new(bytes.to_vec())
}

#[test]
fn flush_protocol_end_of_stream() {
    // After submitting access units and flushing the buffered pictures, a
    // further flush returns end of stream; flushing yet again without an
    // intervening decode is the protocol-order error.
    let engine = ScriptedEngine::new(
        vec![DecodeOutcome::NeedMoreInput, DecodeOutcome::NeedMoreInput],
        vec![
            FlushOutcome::Picture(test_frame(64, 32, 64, 0)),
            FlushOutcome::Picture(test_frame(64, 32, 64, 1)),
            FlushOutcome::EndOfStream,
        ],
    );
    let mut decoder = Decoder::new(engine);
    assert!(matches!(decoder.decode(&au(&[0, 0, 0, 1, 5])), Err(Error::TryAgain)));
    assert!(matches!(decoder.decode(&au(&[0, 0, 0, 1, 6])), Err(Error::TryAgain)));
    assert!(decoder.flush().unwrap().is_some());
    assert!(decoder.flush().unwrap().is_some());
    assert!(decoder.flush().unwrap().is_none());
    assert!(matches!(decoder.flush(), Err(Error::RestartRequired)));
}

#[test]
fn decode_rearms_flush_protocol() {
    let engine = ScriptedEngine::new(
        vec![DecodeOutcome::NoPicture],
        vec![FlushOutcome::EndOfStream, FlushOutcome::Picture(test_frame(64, 32, 64, 0))],
    );
    let mut decoder = Decoder::new(engine);
    assert!(decoder.flush().unwrap().is_none());
    assert!(matches!(decoder.flush(), Err(Error::RestartRequired)));
    assert!(decoder.decode(&au(&[0, 0, 0, 1, 5])).unwrap().is_none());
    assert!(decoder.flush().unwrap().is_some());
}

#[test]
fn decoder_surfaces_engine_errors() {
    let engine = ScriptedEngine::new(
        vec![DecodeOutcome::Failed(Error::DecInput)],
        vec![FlushOutcome::Failed(Error::Unspecified)],
    );
    let mut decoder = DecoderBuilder::new().num_threads(4).parse_delay(2).build(engine);
    assert!(matches!(decoder.decode(&au(&[1])), Err(Error::DecInput)));
    assert!(matches!(decoder.flush(), Err(Error::Unspecified)));
}

#[test]
fn test_change_resolution() {
    // A stream whose second sequence has different dimensions triggers
    // exactly one renegotiation beyond the initial one, and every buffer
    // delivered after the change reports the new dimensions.
    let engine = ScriptedEngine::new(
        vec![
            DecodeOutcome::Picture(test_frame(320, 240, 320, 0)),
            DecodeOutcome::Picture(test_frame(160, 120, 160, 1)),
            DecodeOutcome::Picture(test_frame(160, 120, 160, 2)),
        ],
        vec![],
    );
    let mut session: DecoderSession<ScriptedEngine> = DecoderSession::new();
    session.set_format(engine);
    let mut host = FakeHost::new();
    session.decode(&mut host, &au(&[0, 0, 0, 1, 1])).unwrap();
    assert_eq!(host.negotiations, 1);
    assert_eq!(host.completed[0].1.width, 320);
    assert_eq!(host.completed[0].1.height, 240);
    session.decode(&mut host, &au(&[0, 0, 0, 1, 2])).unwrap();
    session.decode(&mut host, &au(&[0, 0, 0, 1, 3])).unwrap();
    assert_eq!(host.negotiations, 2);
    assert_eq!(host.completed.len(), 3);
    assert_eq!(host.completed[1].1.width, 160);
    assert_eq!(host.completed[1].1.height, 120);
    assert_eq!(host.completed[2].1.width, 160);
    assert_eq!(host.completed[2].1.height, 120);
    assert_eq!(host.completed[2].0, 2);
}

#[test]
fn unsupported_format_is_per_picture() {
    // Grayscale has no supported output mapping: the picture fails with
    // the format error, but the session survives.
    let mut gray = test_frame(64, 32, 64, 0);
    gray.color_format = ColorFormat::Yuv400Planar;
    let engine = ScriptedEngine::new(
        vec![
            DecodeOutcome::Picture(gray),
            DecodeOutcome::Picture(test_frame(64, 32, 64, 1)),
        ],
        vec![],
    );
    let mut session: DecoderSession<ScriptedEngine> = DecoderSession::new();
    session.set_format(engine);
    let mut host = FakeHost::new();
    assert!(matches!(
        session.decode(&mut host, &au(&[0, 0, 0, 1, 1])),
        Err(SessionError::UnsupportedFormat)
    ));
    assert_eq!(host.negotiations, 0);
    session.decode(&mut host, &au(&[0, 0, 0, 1, 2])).unwrap();
    assert_eq!(host.completed.len(), 1);
}

#[test]
fn negotiation_failure_is_surfaced() {
    let engine = ScriptedEngine::new(
        vec![DecodeOutcome::Picture(test_frame(64, 32, 64, 0))],
        vec![],
    );
    let mut session: DecoderSession<ScriptedEngine> = DecoderSession::new();
    session.set_format(engine);
    let mut host = FakeHost::new();
    host.confirm = false;
    assert!(matches!(
        session.decode(&mut host, &au(&[0, 0, 0, 1, 1])),
        Err(SessionError::NegotiationFailed)
    ));
}

#[test]
fn dropped_frame_without_pending_request() {
    // A picture whose request the host already discarded is dropped
    // without a session fault.
    let engine = ScriptedEngine::new(
        vec![DecodeOutcome::Picture(test_frame(64, 32, 64, 7))],
        vec![],
    );
    let mut session: DecoderSession<ScriptedEngine> = DecoderSession::new();
    session.set_format(engine);
    let mut host = FakeHost::new();
    host.resolve_requests = false;
    session.decode(&mut host, &au(&[0, 0, 0, 1, 1])).unwrap();
    assert_eq!(host.completed.len(), 0);
    assert_eq!(host.negotiations, 1);
}

#[test]
fn session_without_engine_is_flushing() {
    let mut session: DecoderSession<ScriptedEngine> = DecoderSession::new();
    let mut host = FakeHost::new();
    assert!(matches!(
        session.decode(&mut host, &au(&[0, 0, 0, 1, 1])),
        Err(SessionError::Flushing)
    ));
}

#[test]
fn forward_pending_frames_drains_engine() {
    let engine = ScriptedEngine::new(
        vec![],
        vec![
            FlushOutcome::Picture(test_frame(64, 32, 64, 0)),
            FlushOutcome::Picture(test_frame(64, 32, 64, 1)),
            FlushOutcome::EndOfStream,
        ],
    );
    let mut session: DecoderSession<ScriptedEngine> = DecoderSession::new();
    session.set_format(engine);
    let mut host = FakeHost::new();
    session.forward_pending_frames(&mut host).unwrap();
    assert_eq!(host.completed.len(), 2);
    assert_eq!(host.completed[0].0, 0);
    assert_eq!(host.completed[1].0, 1);
}

#[test]
fn flush_decoder_discards_pictures() {
    let engine = ScriptedEngine::new(
        vec![],
        vec![
            FlushOutcome::Picture(test_frame(64, 32, 64, 0)),
            FlushOutcome::EndOfStream,
        ],
    );
    let mut session: DecoderSession<ScriptedEngine> = DecoderSession::new();
    session.set_format(engine);
    session.flush_decoder().unwrap();
    let mut host = FakeHost::new();
    // Draining right after a completed flush is the protocol-order error.
    assert!(matches!(
        session.forward_pending_frames(&mut host),
        Err(SessionError::Engine(Error::RestartRequired))
    ));
}

#[test]
fn stride_metadata_support_aliases_planes() {
    // With stride metadata supported, every plane is aliased even when the
    // destination stride differs from the source stride.
    let engine = ScriptedEngine::new(
        vec![DecodeOutcome::Picture(test_frame(64, 32, 64, 0))],
        vec![],
    );
    let mut session: DecoderSession<ScriptedEngine> = DecoderSession::new();
    session.set_format(engine);
    session.set_video_meta_supported(true);
    let mut host = FakeHost::new();
    session.decode(&mut host, &au(&[0, 0, 0, 1, 1])).unwrap();
    let buffer = &host.completed[0].1;
    assert!(buffer.has_video_meta);
    assert!(buffer.planes.iter().all(|p| p.aliased));
    assert_eq!(buffer.strides, vec![64, 32, 32]);
    assert_eq!(buffer.offsets, vec![0, 64 * 32, 64 * 32 + 32 * 16]);
}

#[test]
fn stopped_session_rejects_operations() {
    let engine = ScriptedEngine::new(vec![], vec![]);
    let mut session: DecoderSession<ScriptedEngine> = DecoderSession::new();
    session.set_format(engine);
    session.stop();
    let mut host = FakeHost::new();
    assert!(matches!(
        session.decode(&mut host, &au(&[0, 0, 0, 1, 1])),
        Err(SessionError::Flushing)
    ));
}

#[test]
fn stride_mismatch_copies_rows() {
    // Without stride metadata and with a destination stride different from
    // the source stride, each plane is copied row by row into a
    // destination-stride region.
    let mut frame = test_frame(64, 32, 64, 0);
    frame.planes[0] = Plane::from_parts(vec![5; 64 * 32], 60, 32, 64, 1).unwrap();
    frame.planes[1] = Plane::from_parts(vec![6; 32 * 16], 30, 16, 32, 1).unwrap();
    frame.planes[2] = Plane::from_parts(vec![7; 32 * 16], 30, 16, 32, 1).unwrap();
    let engine = ScriptedEngine::new(vec![DecodeOutcome::Picture(frame)], vec![]);
    let mut session: DecoderSession<ScriptedEngine> = DecoderSession::new();
    session.set_format(engine);
    let mut host = FakeHost::new();
    host.stride_override = Some(vec![60, 30, 30]);
    session.decode(&mut host, &au(&[0, 0, 0, 1, 1])).unwrap();
    let buffer = &host.completed[0].1;
    assert!(!buffer.has_video_meta);
    assert!(buffer.planes.iter().all(|p| !p.aliased));
    assert_eq!(buffer.planes[0].bytes.len(), 60 * 32);
    assert_eq!(buffer.planes[1].bytes.len(), 30 * 16);
    assert!(buffer.planes[0].bytes.iter().all(|&b| b == 5));
    assert_eq!(buffer.offsets, vec![0, 60 * 32, 60 * 32 + 30 * 16]);
    // The recorded strides are the source strides, for stride metadata.
    assert_eq!(buffer.strides, vec![64, 32, 32]);
}

#[test]
fn builder_collects_params() {
    let params = DecoderBuilder::new().num_threads(4).parse_delay(2).build_params();
    assert_eq!(params.num_threads, 4);
    assert_eq!(params.parse_delay, 2);
    let defaults = DecoderBuilder::new().build_params();
    assert_eq!(defaults.num_threads, -1);
    assert_eq!(defaults.parse_delay, -1);
}

#[test]
fn test_decoder_builder() {
    let engine = ScriptedEngine::new(vec![], vec![]);
    let mut decoder = DecoderBuilder::new().num_threads(4).build(engine);
    // A fresh decoder accepts input and reaches end of stream cleanly.
    assert!(matches!(decoder.decode(&au(&[0, 0, 0, 1, 5])), Err(Error::TryAgain)));
    assert!(decoder.flush().unwrap().is_none());
}

#[test]
fn pipeline_decodes_whole_stream() {
    // Three access units in one byte stream; the engine answers the first
    // with "need more input", the second with a picture, the third with
    // nothing, and hands out one more picture while draining.
    let input: Vec<u8> = vec![
        0, 0, 0, 1, 11, 12, 0, 0, 0, 1, 13, 0, 0, 1, 14, 15,
    ];
    let mut reader = ChunkedReader::custom(MemSource::with_max_read(input, 5), 16, 64);
    let engine = ScriptedEngine::new(
        vec![
            DecodeOutcome::NeedMoreInput,
            DecodeOutcome::Picture(test_frame(64, 32, 64, 0)),
            DecodeOutcome::NoPicture,
        ],
        vec![FlushOutcome::Picture(test_frame(64, 32, 64, 1)), FlushOutcome::EndOfStream],
    );
    let mut session: DecoderSession<ScriptedEngine> = DecoderSession::new();
    session.set_format(engine);
    let mut host = FakeHost::new();
    decode_stream(&mut reader, &mut session, &mut host).unwrap();
    assert_eq!(host.negotiations, 1);
    assert_eq!(host.completed.len(), 2);
    assert_eq!(host.completed[0].0, 0);
    assert_eq!(host.completed[1].0, 1);
}

#[test]
fn pipeline_surfaces_split_errors() {
    let mut reader = ChunkedReader::custom(MemSource::new(vec![9, 9, 9]), 16, 32);
    let engine = ScriptedEngine::new(vec![], vec![]);
    let mut session: DecoderSession<ScriptedEngine> = DecoderSession::new();
    session.set_format(engine);
    let mut host = FakeHost::new();
    assert!(matches!(
        decode_stream(&mut reader, &mut session, &mut host),
        Err(PipelineError::Split(vvdec::ChunkedError::NoAnnexBStartCode))
    ));
}

#[test]
fn adjusted_confirmation_is_stored() {
    // The host may adjust the confirmed output format; the adjusted
    // confirmation is stored, every buffer reports it, and a following
    // picture with the same raw format does not renegotiate.
    let engine = ScriptedEngine::new(
        vec![
            DecodeOutcome::Picture(test_frame(64, 32, 64, 0)),
            DecodeOutcome::Picture(test_frame(64, 32, 64, 1)),
        ],
        vec![],
    );
    let mut session: DecoderSession<ScriptedEngine> = DecoderSession::new();
    session.set_format(engine);
    let mut host = FakeHost::new();
    host.dims_override = Some((66, 34));
    session.decode(&mut host, &au(&[0, 0, 0, 1, 1])).unwrap();
    session.decode(&mut host, &au(&[0, 0, 0, 1, 2])).unwrap();
    assert_eq!(host.negotiations, 1);
    assert_eq!(host.completed.len(), 2);
    assert_eq!(host.completed[0].1.width, 66);
    assert_eq!(host.completed[0].1.height, 34);
    assert_eq!(host.completed[1].1.width, 66);
    assert_eq!(host.completed[1].1.height, 34);
}

#[test]
fn flush_decoder_surfaces_engine_errors() {
    let engine = ScriptedEngine::new(
        vec![],
        vec![
            FlushOutcome::Picture(test_frame(64, 32, 64, 0)),
            FlushOutcome::Failed(Error::Unspecified),
        ],
    );
    let mut session: DecoderSession<ScriptedEngine> = DecoderSession::new();
    session.set_format(engine);
    assert!(matches!(session.flush_decoder(), Err(Error::Unspecified)));
    // Flushing again after a drain that already reached end of stream is
    // the protocol-order error, surfaced too.
    let engine = ScriptedEngine::new(vec![], vec![FlushOutcome::EndOfStream]);
    let mut session: DecoderSession<ScriptedEngine> = DecoderSession::new();
    session.set_format(engine);
    session.flush_decoder().unwrap();
    assert!(matches!(session.flush_decoder(), Err(Error::RestartRequired)));
}

#[test]
fn stop_clears_session_state() {
    // Stopping releases the engine and clears the whole session state;
    // a fresh set_format starts from nothing negotiated.
    let engine = ScriptedEngine::new(
        vec![DecodeOutcome::Picture(test_frame(64, 32, 64, 0))],
        vec![],
    );
    let mut session: DecoderSession<ScriptedEngine> = DecoderSession::new();
    session.set_format(engine);
    session.set_video_meta_supported(true);
    let mut host = FakeHost::new();
    session.decode(&mut host, &au(&[0, 0, 0, 1, 1])).unwrap();
    assert_eq!(host.negotiations, 1);
    session.stop();
    assert!(matches!(
        session.decode(&mut host, &au(&[0, 0, 0, 1, 2])),
        Err(SessionError::Flushing)
    ));
    // After a new engine is installed, the first picture negotiates again
    // and the buffer carries no stride metadata: the cleared capability
    // flag did not leak through the stop.
    let engine = ScriptedEngine::new(
        vec![DecodeOutcome::Picture(test_frame(64, 32, 64, 0))],
        vec![],
    );
    session.set_format(engine);
    session.decode(&mut host, &au(&[0, 0, 0, 1, 3])).unwrap();
    assert_eq!(host.negotiations, 2);
    assert!(!host.completed[1].1.has_video_meta);
}
