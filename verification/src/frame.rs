//! The data model of decoded pictures: frames, planes, formats, picture
//! attributes, and the decoding engine's status codes.
//!
//! The decoding engine itself is an external native library; the integer
//! codes mapped here are the values its public header defines.

use vstd::prelude::*;

verus! {

/// Access unit containing VVC bitstream data, prefixed by an Annex-B start
/// code (`00 00 01` or `00 00 00 01`).
pub struct AccessUnit {
    /// The payload data.
    pub payload: Vec<u8>,
    /// Composition timestamp, echoed back unmodified on the decoded frame.
    pub cts: Option<u64>,
    /// Decoding timestamp.
    pub dts: Option<u64>,
    /// Whether this is a random access point.
    pub is_random_access_point: bool,
}

impl AccessUnit {
    /// A new access unit with no timestamps that is not a random access
    /// point.
    pub fn new(payload: Vec<u8>) -> (r: AccessUnit)
        ensures
            r.payload@ == payload@,
            r.cts is None,
            r.dts is None,
            !r.is_random_access_point,
    {
        AccessUnit { payload, cts: None, dts: None, is_random_access_point: false }
    }
}

/// An error reported by the decoding engine or the session around it.
#[derive(Debug, Clone, Copy, PartialEq, Eq, Structural)]
pub enum Error {
    /// Failed to open the decoder.
    FailedToOpen,
    /// Unspecified malfunction.
    Unspecified,
    /// Internal allocation error.
    Allocate,
    /// Decoder input error.
    DecInput,
    /// Allocated memory too small to receive the decoded data.
    EnoughMem,
    /// Inconsistent or invalid parameters.
    Parameter,
    /// Unsupported request.
    NotSupported,
    /// The decoder requires a restart: for example, flush was called again
    /// after it had already signalled end of stream.
    RestartRequired,
    /// Unsupported CPU.
    Cpu,
    /// The decoder needs more input and cannot return a picture yet.
    TryAgain,
    /// End of file.
    Eof,
    /// Unknown error, with the engine's raw status code.
    Unknown(i32),
}

/// The error a decoding engine status code stands for.
pub open spec fn error_of_code(code: i32) -> Error {
    if code == -1 {
        Error::Unspecified
    } else if code == -3 {
        Error::Allocate
    } else if code == -4 {
        Error::DecInput
    } else if code == -5 {
        Error::EnoughMem
    } else if code == -7 {
        Error::Parameter
    } else if code == -10 {
        Error::NotSupported
    } else if code == -11 {
        Error::RestartRequired
    } else if code == -30 {
        Error::Cpu
    } else if code == -40 {
        Error::TryAgain
    } else if code == -50 {
        Error::Eof
    } else {
        Error::Unknown(code)
    }
}

impl Error {
    /// Map a status code of the decoding engine to an error.
    pub fn new(code: i32) -> (r: Error)
        ensures
            r == error_of_code(code),
    {
        match code {
            -1 => Error::Unspecified,
            -3 => Error::Allocate,
            -4 => Error::DecInput,
            -5 => Error::EnoughMem,
            -7 => Error::Parameter,
            -10 => Error::NotSupported,
            -11 => Error::RestartRequired,
            -30 => Error::Cpu,
            -40 => Error::TryAgain,
            -50 => Error::Eof,
            _ => Error::Unknown(code),
        }
    }
}

/// A plane component, in the fixed output order.
#[derive(Debug, Clone, Copy, PartialEq, Eq, Structural)]
pub enum PlaneComponent {
    /// The luma component.
    Y,
    /// The first chroma component.
    U,
    /// The second chroma component.
    V,
}

/// Index of a plane component within a frame's plane list.
pub open spec fn component_index(c: PlaneComponent) -> int {
    match c {
        PlaneComponent::Y => 0,
        PlaneComponent::U => 1,
        PlaneComponent::V => 2,
    }
}

impl PlaneComponent {
    /// The component's index within a frame's plane list.
    pub fn index(self) -> (r: usize)
        ensures
            r as int == component_index(self),
    {
        match self {
            PlaneComponent::Y => 0,
            PlaneComponent::U => 1,
            PlaneComponent::V => 2,
        }
    }
}

/// One color or luma component's sample array within a decoded picture,
/// with its own dimensions, stride, and sample width.
#[derive(Debug)]
pub struct Plane {
    /// The plane's bytes, row after row, `stride` bytes per row.
    pub data: Vec<u8>,
    /// Width in samples.
    pub width: u32,
    /// Height in rows.
    pub height: u32,
    /// Byte distance between the starts of consecutive rows; at least
    /// `width * bytes_per_sample`, more when rows carry padding.
    pub stride: u32,
    /// Bytes per sample: 1 for 8-bit, 2 for higher bit depths.
    pub bytes_per_sample: u32,
}

impl Plane {
    /// Validity: the stride covers a whole row of samples and the data
    /// holds exactly `stride` bytes for each of the `height` rows.
    pub open spec fn wf(&self) -> bool {
        &&& 1 <= self.bytes_per_sample <= 2
        &&& self.width as int * self.bytes_per_sample as int <= self.stride as int
        &&& self.data@.len() == self.stride as int * self.height as int
    }

    /// Bytes of one sample row that carry samples (no padding).
    pub open spec fn row_bytes(&self) -> int {
        self.width as int * self.bytes_per_sample as int
    }

    /// Build a plane after checking its layout; `None` when the stride,
    /// dimensions, and data length do not fit together.
    pub fn from_parts(data: Vec<u8>, width: u32, height: u32, stride: u32, bytes_per_sample: u32)
        -> (r: Option<Plane>)
        ensures
            match r {
                Some(p) => {
                    &&& p.wf()
                    &&& p.data@ == data@
                    &&& p.width == width
                    &&& p.height == height
                    &&& p.stride == stride
                    &&& p.bytes_per_sample == bytes_per_sample
                }
                None => !(Plane {
                    data,
                    width,
                    height,
                    stride,
                    bytes_per_sample,
                }).wf(),
            },
    {
        proof {
            vstd::arithmetic::mul::lemma_mul_upper_bound(
                width as int,
                0xffff_ffff,
                bytes_per_sample as int,
                0xffff_ffff,
            );
            vstd::arithmetic::mul::lemma_mul_upper_bound(
                stride as int,
                0xffff_ffff,
                height as int,
                0xffff_ffff,
            );
        }
        if bytes_per_sample < 1 || bytes_per_sample > 2 {
            return None;
        }
        if (width as u64) * (bytes_per_sample as u64) > stride as u64 {
            return None;
        }
        if (data.len() as u64) != (stride as u64) * (height as u64) {
            return None;
        }
        Some(Plane { data, width, height, stride, bytes_per_sample })
    }

    /// Get the plane's width in samples.
    pub fn width(&self) -> (r: u32)
        ensures
            r == self.width,
    {
        self.width
    }

    /// Get the plane's height in rows.
    pub fn height(&self) -> (r: u32)
        ensures
            r == self.height,
    {
        self.height
    }

    /// Get the plane's stride, in bytes.
    pub fn stride(&self) -> (r: u32)
        ensures
            r == self.stride,
    {
        self.stride
    }

    /// Get the number of bytes per sample.
    pub fn bytes_per_sample(&self) -> (r: u32)
        ensures
            r == self.bytes_per_sample,
    {
        self.bytes_per_sample
    }

    /// Get the plane's bytes.
    pub fn as_bytes(&self) -> (r: &Vec<u8>)
        ensures
            r@ == self.data@,
    {
        &self.data
    }
}

/// Two planes hold the same values in every field.
pub open spec fn same_plane(a: Plane, b: Plane) -> bool {
    &&& a.data@ == b.data@
    &&& a.width == b.width
    &&& a.height == b.height
    &&& a.stride == b.stride
    &&& a.bytes_per_sample == b.bytes_per_sample
}

/// NAL unit type of a decoded picture.
#[derive(Debug, Clone, Copy, PartialEq, Eq, Structural)]
pub enum NalType {
    /// Coded slice trail.
    CodedSliceTrail,
    /// Coded slice STSA.
    CodedSliceStsa,
    /// Coded slice RADL.
    CodedSliceRadl,
    /// Coded slice RASL.
    CodedSliceRasl,
    /// Coded slice IDR W RADL.
    CodedSliceIdrWRadl,
    /// Coded slice IDR N LP.
    CodedSliceIdrNLp,
    /// Coded slice CRA.
    CodedSliceCra,
    /// Coded slice GDR.
    CodedSliceGdr,
    /// DCI.
    Dci,
    /// VPS.
    Vps,
    /// SPS.
    Sps,
    /// PPS.
    Pps,
    /// Prefix APS.
    PrefixAps,
    /// Suffix APS.
    SuffixAps,
    /// PH.
    Ph,
    /// Access unit delimiter.
    AccessUnitDelimiter,
    /// End of stream.
    Eos,
    /// End of bitstream.
    Eob,
    /// Prefix SEI.
    PrefixSei,
    /// Suffix SEI.
    SuffixSei,
    /// Filler data.
    Fd,
    /// Invalid.
    Invalid,
    /// Unknown, with the engine's raw code.
    Unknown(u32),
}

/// The NAL unit type a decoding engine code stands for.
pub open spec fn nal_type_of_code(code: u32) -> NalType {
    if code == 0 {
        NalType::CodedSliceTrail
    } else if code == 1 {
        NalType::CodedSliceStsa
    } else if code == 2 {
        NalType::CodedSliceRadl
    } else if code == 3 {
        NalType::CodedSliceRasl
    } else if code == 7 {
        NalType::CodedSliceIdrWRadl
    } else if code == 8 {
        NalType::CodedSliceIdrNLp
    } else if code == 9 {
        NalType::CodedSliceCra
    } else if code == 10 {
        NalType::CodedSliceGdr
    } else if code == 13 {
        NalType::Dci
    } else if code == 14 {
        NalType::Vps
    } else if code == 15 {
        NalType::Sps
    } else if code == 16 {
        NalType::Pps
    } else if code == 17 {
        NalType::PrefixAps
    } else if code == 18 {
        NalType::SuffixAps
    } else if code == 19 {
        NalType::Ph
    } else if code == 20 {
        NalType::AccessUnitDelimiter
    } else if code == 21 {
        NalType::Eos
    } else if code == 22 {
        NalType::Eob
    } else if code == 23 {
        NalType::PrefixSei
    } else if code == 24 {
        NalType::SuffixSei
    } else if code == 25 {
        NalType::Fd
    } else if code == 32 {
        NalType::Invalid
    } else {
        NalType::Unknown(code)
    }
}

impl NalType {
    /// Map a NAL unit type code of the decoding engine.
    pub fn new(code: u32) -> (r: NalType)
        ensures
            r == nal_type_of_code(code),
    {
        match code {
            0 => NalType::CodedSliceTrail,
            1 => NalType::CodedSliceStsa,
            2 => NalType::CodedSliceRadl,
            3 => NalType::CodedSliceRasl,
            7 => NalType::CodedSliceIdrWRadl,
            8 => NalType::CodedSliceIdrNLp,
            9 => NalType::CodedSliceCra,
            10 => NalType::CodedSliceGdr,
            13 => NalType::Dci,
            14 => NalType::Vps,
            15 => NalType::Sps,
            16 => NalType::Pps,
            17 => NalType::PrefixAps,
            18 => NalType::SuffixAps,
            19 => NalType::Ph,
            20 => NalType::AccessUnitDelimiter,
            21 => NalType::Eos,
            22 => NalType::Eob,
            23 => NalType::PrefixSei,
            24 => NalType::SuffixSei,
            25 => NalType::Fd,
            32 => NalType::Invalid,
            _ => NalType::Unknown(code),
        }
    }
}

/// Slice type of a decoded picture.
#[derive(Debug, Clone, Copy, PartialEq, Eq, Structural)]
pub enum SliceType {
    /// I-slice.
    I,
    /// P-slice.
    P,
    /// B-slice.
    B,
    /// Unknown, with the engine's raw code.
    Unknown(u32),
}

/// The slice type a decoding engine code stands for.
pub open spec fn slice_type_of_code(code: u32) -> SliceType {
    if code == 0 {
        SliceType::B
    } else if code == 1 {
        SliceType::P
    } else if code == 2 {
        SliceType::I
    } else {
        SliceType::Unknown(code)
    }
}

impl SliceType {
    /// Map a slice type code of the decoding engine.
    pub fn new(code: u32) -> (r: SliceType)
        ensures
            r == slice_type_of_code(code),
    {
        match code {
            0 => SliceType::B,
            1 => SliceType::P,
            2 => SliceType::I,
            _ => SliceType::Unknown(code),
        }
    }
}

/// Frame format (progressive or one of the field arrangements).
#[derive(Debug, Clone, Copy, PartialEq, Eq, Structural)]
pub enum FrameFormat {
    /// Invalid.
    Invalid,
    /// Progressive.
    Progressive,
    /// Top field.
    TopField,
    /// Bottom field.
    BottomField,
    /// Top-bottom.
    TopBottom,
    /// Bottom-top.
    BottomTop,
    /// Top-bottom-top.
    TopBottomTop,
    /// Bottom-top-bottom.
    BottomTopBottom,
    /// Frame double.
    FrameDouble,
    /// Frame triple.
    FrameTriple,
    /// Top paired with previous.
    TopPairedWithPrevious,
    /// Bottom paired with previous.
    BottomPairedWithPrevious,
    /// Top paired with next.
    TopPairedWithNext,
    /// Bottom paired with next.
    BottomPairedWithNext,
    /// Unknown, with the engine's raw code.
    Unknown(i32),
}

/// The frame format a decoding engine code stands for.
pub open spec fn frame_format_of_code(code: i32) -> FrameFormat {
    if code == -1 {
        FrameFormat::Invalid
    } else if code == 0 {
        FrameFormat::Progressive
    } else if code == 1 {
        FrameFormat::TopField
    } else if code == 2 {
        FrameFormat::BottomField
    } else if code == 3 {
        FrameFormat::TopBottom
    } else if code == 4 {
        FrameFormat::BottomTop
    } else if code == 5 {
        FrameFormat::TopBottomTop
    } else if code == 6 {
        FrameFormat::BottomTopBottom
    } else if code == 7 {
        FrameFormat::FrameDouble
    } else if code == 8 {
        FrameFormat::FrameTriple
    } else if code == 9 {
        FrameFormat::TopPairedWithPrevious
    } else if code == 10 {
        FrameFormat::BottomPairedWithPrevious
    } else if code == 11 {
        FrameFormat::TopPairedWithNext
    } else if code == 12 {
        FrameFormat::BottomPairedWithNext
    } else {
        FrameFormat::Unknown(code)
    }
}

impl FrameFormat {
    /// Map a frame format code of the decoding engine.
    pub fn new(code: i32) -> (r: FrameFormat)
        ensures
            r == frame_format_of_code(code),
    {
        match code {
            -1 => FrameFormat::Invalid,
            0 => FrameFormat::Progressive,
            1 => FrameFormat::TopField,
            2 => FrameFormat::BottomField,
            3 => FrameFormat::TopBottom,
            4 => FrameFormat::BottomTop,
            5 => FrameFormat::TopBottomTop,
            6 => FrameFormat::BottomTopBottom,
            7 => FrameFormat::FrameDouble,
            8 => FrameFormat::FrameTriple,
            9 => FrameFormat::TopPairedWithPrevious,
            10 => FrameFormat::BottomPairedWithPrevious,
            11 => FrameFormat::TopPairedWithNext,
            12 => FrameFormat::BottomPairedWithNext,
            _ => FrameFormat::Unknown(code),
        }
    }
}

/// Color format of a decoded picture.
#[derive(Debug, Clone, Copy, PartialEq, Eq, Structural)]
pub enum ColorFormat {
    /// Invalid.
    Invalid,
    /// YUV 4:0:0 planar (grayscale).
    Yuv400Planar,
    /// YUV 4:2:0 planar.
    Yuv420Planar,
    /// YUV 4:2:2 planar.
    Yuv422Planar,
    /// YUV 4:4:4 planar.
    Yuv444Planar,
    /// Unknown, with the engine's raw code.
    Unknown(i32),
}

/// The color format a decoding engine code stands for.
pub open spec fn color_format_of_code(code: i32) -> ColorFormat {
    if code == -1 {
        ColorFormat::Invalid
    } else if code == 0 {
        ColorFormat::Yuv400Planar
    } else if code == 1 {
        ColorFormat::Yuv420Planar
    } else if code == 2 {
        ColorFormat::Yuv422Planar
    } else if code == 3 {
        ColorFormat::Yuv444Planar
    } else {
        ColorFormat::Unknown(code)
    }
}

impl ColorFormat {
    /// Map a color format code of the decoding engine.
    pub fn new(code: i32) -> (r: ColorFormat)
        ensures
            r == color_format_of_code(code),
    {
        match code {
            -1 => ColorFormat::Invalid,
            0 => ColorFormat::Yuv400Planar,
            1 => ColorFormat::Yuv420Planar,
            2 => ColorFormat::Yuv422Planar,
            3 => ColorFormat::Yuv444Planar,
            _ => ColorFormat::Unknown(code),
        }
    }
}

/// HRD timing parameters.
#[derive(Debug, Clone, Copy, PartialEq, Eq, Structural)]
pub struct Hrd {
    /// Number of time units in a tick.
    pub num_units_in_tick: u32,
    /// Time scale.
    pub time_scale: u32,
}

impl Hrd {
    /// Build HRD parameters from their two timing fields.
    pub fn new(num_units_in_tick: u32, time_scale: u32) -> (r: Hrd)
        ensures
            r.num_units_in_tick == num_units_in_tick,
            r.time_scale == time_scale,
    {
        Hrd { num_units_in_tick, time_scale }
    }
}

/// Sample aspect ratio.
#[derive(Debug, Clone, Copy, PartialEq, Eq, Structural)]
pub enum SampleAspectRatio {
    /// Indicator mode: a predefined aspect-ratio indicator.
    Indicator(i32),
    /// Explicit width and height mode.
    WidthHeight {
        /// Width.
        width: i32,
        /// Height.
        height: i32,
    },
}

/// The sample aspect ratio the VUI fields describe: the indicator value
/// 255 selects the explicit width/height mode.
pub open spec fn sample_aspect_ratio_of(aspect_ratio_idc: i32, sar_width: i32, sar_height: i32)
    -> SampleAspectRatio {
    if aspect_ratio_idc == 255 {
        SampleAspectRatio::WidthHeight { width: sar_width, height: sar_height }
    } else {
        SampleAspectRatio::Indicator(aspect_ratio_idc)
    }
}

impl SampleAspectRatio {
    /// Build the sample aspect ratio from the VUI fields.
    pub fn new(aspect_ratio_idc: i32, sar_width: i32, sar_height: i32) -> (r: SampleAspectRatio)
        ensures
            r == sample_aspect_ratio_of(aspect_ratio_idc, sar_width, sar_height),
    {
        if aspect_ratio_idc == 255 {
            SampleAspectRatio::WidthHeight { width: sar_width, height: sar_height }
        } else {
            SampleAspectRatio::Indicator(aspect_ratio_idc)
        }
    }
}

/// VUI parameters.
#[derive(Debug, Clone, Copy)]
pub struct Vui {
    /// Sample aspect ratio, when the VUI carries one.
    pub sample_aspect_ratio: Option<SampleAspectRatio>,
    /// Whether the sample aspect ratio is constant.
    pub is_aspect_ratio_constant: bool,
}

impl Vui {
    /// Build VUI parameters from their raw fields.
    pub fn new(
        aspect_ratio_info_present: bool,
        aspect_ratio_constant: bool,
        aspect_ratio_idc: i32,
        sar_width: i32,
        sar_height: i32,
    ) -> (r: Vui)
        ensures
            r.sample_aspect_ratio == if aspect_ratio_info_present {
                Some(sample_aspect_ratio_of(aspect_ratio_idc, sar_width, sar_height))
            } else {
                None::<SampleAspectRatio>
            },
            r.is_aspect_ratio_constant == aspect_ratio_constant,
    {
        let sample_aspect_ratio = if aspect_ratio_info_present {
            Some(SampleAspectRatio::new(aspect_ratio_idc, sar_width, sar_height))
        } else {
            None
        };
        Vui { sample_aspect_ratio, is_aspect_ratio_constant: aspect_ratio_constant }
    }
}

/// Picture attributes.
#[derive(Debug, Clone, Copy)]
pub struct PictureAttributes {
    /// NAL unit type.
    pub nal_type: NalType,
    /// Slice type.
    pub slice_type: SliceType,
    /// Whether this is a reference picture.
    pub is_ref_pic: bool,
    /// Temporal layer index.
    pub temporal_layer: u32,
    /// Picture order count.
    pub poc: i64,
    /// Number of compressed bits.
    pub num_compressed_bits: u32,
    /// VUI parameters.
    pub vui: Option<Vui>,
    /// HRD parameters.
    pub hrd: Option<Hrd>,
}

impl PictureAttributes {
    /// Build picture attributes from the decoding engine's raw fields.
    pub fn new(
        nal_type_code: u32,
        slice_type_code: u32,
        is_ref_pic: bool,
        temporal_layer: u32,
        poc: i64,
        num_compressed_bits: u32,
        vui: Option<Vui>,
        hrd: Option<Hrd>,
    ) -> (r: PictureAttributes)
        ensures
            r.nal_type == nal_type_of_code(nal_type_code),
            r.slice_type == slice_type_of_code(slice_type_code),
            r.is_ref_pic == is_ref_pic,
            r.temporal_layer == temporal_layer,
            r.poc == poc,
            r.num_compressed_bits == num_compressed_bits,
            r.vui == vui,
            r.hrd == hrd,
    {
        PictureAttributes {
            nal_type: NalType::new(nal_type_code),
            slice_type: SliceType::new(slice_type_code),
            is_ref_pic,
            temporal_layer,
            poc,
            num_compressed_bits,
            vui,
            hrd,
        }
    }
}

/// A decoded frame: its dimensions, formats, sequence number, echoed
/// composition timestamp, attributes, and its planes.
#[derive(Debug)]
pub struct Frame {
    /// The frame's planes, one per component, luma first.
    pub planes: Vec<Plane>,
    /// Width in samples.
    pub width: u32,
    /// Height in rows.
    pub height: u32,
    /// Bit depth of each sample.
    pub bit_depth: u32,
    /// Engine-assigned sequence number; the engine numbers decoded frames
    /// gaplessly in submission order, starting at zero.
    pub sequence_number: u64,
    /// Composition timestamp of the access unit this frame came from.
    pub cts: Option<u64>,
    /// Frame format.
    pub frame_format: FrameFormat,
    /// Color format.
    pub color_format: ColorFormat,
    /// Picture attributes, when the engine supplied them.
    pub picture_attributes: Option<PictureAttributes>,
}

impl Frame {
    /// Validity: at most three planes (luma and two chroma), each
    /// well-formed.
    pub open spec fn wf(&self) -> bool {
        &&& self.planes.len() <= 3
        &&& forall|i: int| 0 <= i < self.planes.len() ==> (#[trigger] self.planes[i]).wf()
    }

    /// Get the plane of the given component, as an owned copy of its data;
    /// `None` when the frame has no such plane.
    pub fn plane(&self, component: PlaneComponent) -> (r: Option<Plane>)
        ensures
            match r {
                Some(p) => {
                    &&& component_index(component) < self.planes.len()
                    &&& same_plane(p, self.planes[component_index(component)])
                }
                None => component_index(component) >= self.planes.len(),
            },
    {
        let idx = component.index();
        if idx < self.planes.len() {
            let p = &self.planes[idx];
            Some(
                Plane {
                    data: copy_bytes(&p.data),
                    width: p.width,
                    height: p.height,
                    stride: p.stride,
                    bytes_per_sample: p.bytes_per_sample,
                },
            )
        } else {
            None
        }
    }

    /// Get the number of planes.
    pub fn num_planes(&self) -> (r: u32)
        requires
            self.wf(),
        ensures
            r == self.planes.len(),
    {
        self.planes.len() as u32
    }

    /// Get the frame's width.
    pub fn width(&self) -> (r: u32)
        ensures
            r == self.width,
    {
        self.width
    }

    /// Get the frame's height.
    pub fn height(&self) -> (r: u32)
        ensures
            r == self.height,
    {
        self.height
    }

    /// Get the frame's bit depth.
    pub fn bit_depth(&self) -> (r: u32)
        ensures
            r == self.bit_depth,
    {
        self.bit_depth
    }

    /// Get the engine-assigned sequence number of the frame.
    pub fn sequence_number(&self) -> (r: u64)
        ensures
            r == self.sequence_number,
    {
        self.sequence_number
    }

    /// Get the frame's composition timestamp: the one set on the access
    /// unit that produced it, passed through the engine unchanged.
    pub fn cts(&self) -> (r: Option<u64>)
        ensures
            r == self.cts,
    {
        self.cts
    }

    /// Get the frame's format.
    pub fn frame_format(&self) -> (r: FrameFormat)
        ensures
            r == self.frame_format,
    {
        self.frame_format
    }

    /// Get the frame's color format.
    pub fn color_format(&self) -> (r: ColorFormat)
        ensures
            r == self.color_format,
    {
        self.color_format
    }

    /// Get the frame's picture attributes.
    pub fn picture_attributes(&self) -> (r: Option<PictureAttributes>)
        ensures
            r == self.picture_attributes,
    {
        self.picture_attributes
    }
}

/// Copy a byte vector.
pub(crate) fn copy_bytes(v: &Vec<u8>) -> (r: Vec<u8>)
    ensures
        r@ == v@,
{
    let mut r: Vec<u8> = Vec::new();
    let mut j: usize = 0;
    while j < v.len()
        invariant
            j <= v.len(),
            r@ == v@.take(j as int),
        decreases v.len() - j,
    {
        let b = v[j];
        r.push(b);
        j = j + 1;
    }
    proof {
        assert(r@ =~= v@);
    }
    r
}

} // verus!
