//! Incremental splitter and decoding-session logic for VVC (H.266)
//! elementary streams in Annex-B format.
//!
//! The crate splits an arbitrarily chunked byte stream into access units
//! delimited by `00 00 01` / `00 00 00 01` start codes, drives a decoding
//! engine behind a capability interface, tracks output-format changes,
//! correlates decoded pictures with their submissions, and assembles
//! strided output buffers from decoded planes.
//!
//! - [`start_code`]: locating Annex-B start codes in byte sequences.
//! - [`chunked_reader`]: the incremental splitter over a byte source, with
//!   its pure model `split_step`.
//! - [`split_laws`]: laws of the splitter — exactness on concatenated
//!   units, delivery independence, emission of the final unit.
//! - [`frame`]: decoded pictures, planes, formats, and the decoding
//!   engine's status codes.
//! - [`session`]: the decode/flush protocol, format renegotiation, frame
//!   correlation, and output-buffer assembly around the engine and host
//!   capabilities.
//! - [`assembler`]: per-plane zero-copy/copy assembly and padding removal.
//! - [`colorspace`]: the Y4M colorspace mapping for written output.
//! - [`pipeline`]: the whole split-decode-drain pass over one stream.

pub mod assembler;
pub mod chunked_reader;
pub mod colorspace;
pub mod frame;
pub mod pipeline;
pub mod session;
pub mod split_laws;
pub mod start_code;

pub use assembler::extract_plane_data;
pub use assembler::remove_padding;
pub use assembler::AssembledPlane;
pub use chunked_reader::ByteSource;
pub use frame::AccessUnit;
pub use frame::ColorFormat;
pub use frame::Error;
pub use frame::Frame;
pub use frame::FrameFormat;
pub use frame::Hrd;
pub use frame::NalType;
pub use frame::PictureAttributes;
pub use frame::Plane;
pub use frame::PlaneComponent;
pub use frame::SampleAspectRatio;
pub use frame::SliceType;
pub use frame::Vui;
pub use chunked_reader::ChunkedError;
pub use chunked_reader::ChunkedReader;
pub use chunked_reader::FaultySource;
pub use chunked_reader::MemSource;
pub use colorspace::convert_colorspace;
pub use colorspace::Colorspace;
pub use pipeline::decode_stream;
pub use pipeline::PipelineError;
pub use session::interpret_decode_outcome;
pub use session::interpret_flush_outcome;
pub use session::video_format_from_frame;
pub use session::video_output_formats;
pub use session::Decoder;
pub use session::DecoderSession;
pub use session::HostPipeline;
pub use session::OutputBuffer;
pub use session::OutputFormat;
pub use session::SessionError;
pub use session::VideoFormat;
pub use session::DecoderBuilder;
pub use session::DecoderParams;
pub use session::DecodeOutcome;
pub use session::DecodingEngine;
pub use session::FlushOutcome;
pub use session::FormatRequest;
pub use session::ScriptedEngine;
pub use start_code::find_next_start_code;
