//! Mapping decoded color formats to the colorspace tokens of the Y4M
//! output format.

use vstd::prelude::*;

use crate::frame::ColorFormat;

verus! {

/// A Y4M colorspace token: planar subsampling at 8 or 10 bits.
#[derive(Debug, Clone, Copy, PartialEq, Eq, Structural)]
pub enum Colorspace {
    /// 4:2:0 at 8 bits.
    C420,
    /// 4:2:2 at 8 bits.
    C422,
    /// 4:4:4 at 8 bits.
    C444,
    /// 4:2:0 at 10 bits.
    C420p10,
    /// 4:2:2 at 10 bits.
    C422p10,
    /// 4:4:4 at 10 bits.
    C444p10,
}

/// The colorspace token a planar color format maps to: the 10-bit token
/// for any bit depth above 8, the 8-bit token otherwise.
pub open spec fn spec_colorspace(color_format: ColorFormat, bit_depth: u32) -> Colorspace {
    if bit_depth > 8 {
        match color_format {
            ColorFormat::Yuv422Planar => Colorspace::C422p10,
            ColorFormat::Yuv444Planar => Colorspace::C444p10,
            _ => Colorspace::C420p10,
        }
    } else {
        match color_format {
            ColorFormat::Yuv422Planar => Colorspace::C422,
            ColorFormat::Yuv444Planar => Colorspace::C444,
            _ => Colorspace::C420,
        }
    }
}

/// Map a decoded picture's planar color format and bit depth to the Y4M
/// colorspace for writing it out.  Only the three planar YUV formats have
/// a mapping.
pub fn convert_colorspace(color_format: ColorFormat, bit_depth: u32) -> (r: Colorspace)
    requires
        color_format == ColorFormat::Yuv420Planar || color_format == ColorFormat::Yuv422Planar
            || color_format == ColorFormat::Yuv444Planar,
    ensures
        r == spec_colorspace(color_format, bit_depth),
{
    if bit_depth > 8 {
        match color_format {
            ColorFormat::Yuv420Planar => Colorspace::C420p10,
            ColorFormat::Yuv422Planar => Colorspace::C422p10,
            _ => Colorspace::C444p10,
        }
    } else {
        match color_format {
            ColorFormat::Yuv420Planar => Colorspace::C420,
            ColorFormat::Yuv422Planar => Colorspace::C422,
            _ => Colorspace::C444,
        }
    }
}

} // verus!
