//! Plain-value descriptions of extended decoder controls.
//!
//! The kernel reports colorimetry as raw 32-bit identifiers. These types
//! give each identifier a name, and the `From<u32>` conversions map a
//! raw value to its variant, falling back to the default variant for any
//! identifier not recognised. The device-control transfer layer itself —
//! the ioctl calls that fill these values in — is a separate, unverified
//! concern; everything here works on plain values.

use vstd::prelude::*;

verus! {

pub const V4L2_COLORSPACE_DEFAULT: u32 = 0;

pub const V4L2_COLORSPACE_SMPTE170M: u32 = 1;

pub const V4L2_COLORSPACE_SMPTE240M: u32 = 2;

pub const V4L2_COLORSPACE_REC709: u32 = 3;

pub const V4L2_COLORSPACE_BT878: u32 = 4;

pub const V4L2_COLORSPACE_470_SYSTEM_M: u32 = 5;

pub const V4L2_COLORSPACE_470_SYSTEM_BG: u32 = 6;

pub const V4L2_COLORSPACE_JPEG: u32 = 7;

pub const V4L2_COLORSPACE_SRGB: u32 = 8;

pub const V4L2_COLORSPACE_OPRGB: u32 = 9;

pub const V4L2_COLORSPACE_BT2020: u32 = 10;

pub const V4L2_COLORSPACE_RAW: u32 = 11;

pub const V4L2_COLORSPACE_DCI_P3: u32 = 12;

pub const V4L2_XFER_FUNC_DEFAULT: u32 = 0;

pub const V4L2_XFER_FUNC_709: u32 = 1;

pub const V4L2_XFER_FUNC_SRGB: u32 = 2;

pub const V4L2_XFER_FUNC_OPRGB: u32 = 3;

pub const V4L2_XFER_FUNC_SMPTE240M: u32 = 4;

pub const V4L2_XFER_FUNC_NONE: u32 = 5;

pub const V4L2_XFER_FUNC_DCI_P3: u32 = 6;

pub const V4L2_XFER_FUNC_SMPTE2084: u32 = 7;

pub const V4L2_YCBCR_ENC_DEFAULT: u32 = 0;

pub const V4L2_YCBCR_ENC_601: u32 = 1;

pub const V4L2_YCBCR_ENC_709: u32 = 2;

pub const V4L2_YCBCR_ENC_XV601: u32 = 3;

pub const V4L2_YCBCR_ENC_XV709: u32 = 4;

pub const V4L2_YCBCR_ENC_SYCC: u32 = 5;

pub const V4L2_YCBCR_ENC_BT2020: u32 = 6;

pub const V4L2_YCBCR_ENC_BT2020_CONST_LUM: u32 = 7;

pub const V4L2_YCBCR_ENC_SMPTE240M: u32 = 8;

pub const V4L2_QUANTIZATION_DEFAULT: u32 = 0;

pub const V4L2_QUANTIZATION_FULL_RANGE: u32 = 1;

pub const V4L2_QUANTIZATION_LIM_RANGE: u32 = 2;

/// The extended controls a stateless decoder may query.
#[derive(Copy, Clone, Debug, PartialEq, Eq, Structural)]
pub enum ExtControlKind {
    H264DecodeMode,
    H264StartCode,
    H264Sps,
    H264Pps,
    H264ScalingMatrix,
    H264PredWeights,
    H264SliceParams,
    H264DecodeParams,
    FwhtParams,
}

/// A colorspace identifier.
#[derive(Copy, Clone, Debug, PartialEq, Eq, Structural)]
pub enum Colorspace {
    Default,
    Smpte170M,
    Smpte240M,
    Rec709,
    Bt878,
    SystemM470,
    SystemBG470,
    Jpeg,
    Srgb,
    OpRgb,
    Bt2020,
    Raw,
    DciP3,
}

/// The colorspace a raw identifier stands for; unrecognised values fall
/// back to the default.
pub open spec fn colorspace_of(v: u32) -> Colorspace {
    if v == V4L2_COLORSPACE_SMPTE170M {
        Colorspace::Smpte170M
    } else if v == V4L2_COLORSPACE_SMPTE240M {
        Colorspace::Smpte240M
    } else if v == V4L2_COLORSPACE_REC709 {
        Colorspace::Rec709
    } else if v == V4L2_COLORSPACE_BT878 {
        Colorspace::Bt878
    } else if v == V4L2_COLORSPACE_470_SYSTEM_M {
        Colorspace::SystemM470
    } else if v == V4L2_COLORSPACE_470_SYSTEM_BG {
        Colorspace::SystemBG470
    } else if v == V4L2_COLORSPACE_JPEG {
        Colorspace::Jpeg
    } else if v == V4L2_COLORSPACE_SRGB {
        Colorspace::Srgb
    } else if v == V4L2_COLORSPACE_OPRGB {
        Colorspace::OpRgb
    } else if v == V4L2_COLORSPACE_BT2020 {
        Colorspace::Bt2020
    } else if v == V4L2_COLORSPACE_RAW {
        Colorspace::Raw
    } else if v == V4L2_COLORSPACE_DCI_P3 {
        Colorspace::DciP3
    } else {
        Colorspace::Default
    }
}

impl From<u32> for Colorspace {
    /// Maps a raw colorspace identifier to its variant.
    fn from(colorspace: u32) -> (r: Self) {
        if colorspace == V4L2_COLORSPACE_SMPTE170M {
            Colorspace::Smpte170M
        } else if colorspace == V4L2_COLORSPACE_SMPTE240M {
            Colorspace::Smpte240M
        } else if colorspace == V4L2_COLORSPACE_REC709 {
            Colorspace::Rec709
        } else if colorspace == V4L2_COLORSPACE_BT878 {
            Colorspace::Bt878
        } else if colorspace == V4L2_COLORSPACE_470_SYSTEM_M {
            Colorspace::SystemM470
        } else if colorspace == V4L2_COLORSPACE_470_SYSTEM_BG {
            Colorspace::SystemBG470
        } else if colorspace == V4L2_COLORSPACE_JPEG {
            Colorspace::Jpeg
        } else if colorspace == V4L2_COLORSPACE_SRGB {
            Colorspace::Srgb
        } else if colorspace == V4L2_COLORSPACE_OPRGB {
            Colorspace::OpRgb
        } else if colorspace == V4L2_COLORSPACE_BT2020 {
            Colorspace::Bt2020
        } else if colorspace == V4L2_COLORSPACE_RAW {
            Colorspace::Raw
        } else if colorspace == V4L2_COLORSPACE_DCI_P3 {
            Colorspace::DciP3
        } else {
            Colorspace::Default
        }
    }
}

impl vstd::std_specs::convert::FromSpecImpl<u32> for Colorspace {
    open spec fn obeys_from_spec() -> bool {
        true
    }

    open spec fn from_spec(v: u32) -> Self {
        colorspace_of(v)
    }
}

/// A transfer function identifier.
#[derive(Copy, Clone, Debug, PartialEq, Eq, Structural)]
pub enum XferFunc {
    Default,
    F709,
    Srgb,
    OpRgb,
    Smpte240M,
    NoXfer,
    DciP3,
    Smpte2084,
}

/// The transfer function a raw identifier stands for; unrecognised
/// values fall back to the default.
pub open spec fn xfer_func_of(v: u32) -> XferFunc {
    if v == V4L2_XFER_FUNC_709 {
        XferFunc::F709
    } else if v == V4L2_XFER_FUNC_SRGB {
        XferFunc::Srgb
    } else if v == V4L2_XFER_FUNC_OPRGB {
        XferFunc::OpRgb
    } else if v == V4L2_XFER_FUNC_SMPTE240M {
        XferFunc::Smpte240M
    } else if v == V4L2_XFER_FUNC_NONE {
        XferFunc::NoXfer
    } else if v == V4L2_XFER_FUNC_DCI_P3 {
        XferFunc::DciP3
    } else if v == V4L2_XFER_FUNC_SMPTE2084 {
        XferFunc::Smpte2084
    } else {
        XferFunc::Default
    }
}

impl From<u32> for XferFunc {
    /// Maps a raw transfer-function identifier to its variant.
    fn from(xfer_func: u32) -> (r: Self) {
        if xfer_func == V4L2_XFER_FUNC_709 {
            XferFunc::F709
        } else if xfer_func == V4L2_XFER_FUNC_SRGB {
            XferFunc::Srgb
        } else if xfer_func == V4L2_XFER_FUNC_OPRGB {
            XferFunc::OpRgb
        } else if xfer_func == V4L2_XFER_FUNC_SMPTE240M {
            XferFunc::Smpte240M
        } else if xfer_func == V4L2_XFER_FUNC_NONE {
            XferFunc::NoXfer
        } else if xfer_func == V4L2_XFER_FUNC_DCI_P3 {
            XferFunc::DciP3
        } else if xfer_func == V4L2_XFER_FUNC_SMPTE2084 {
            XferFunc::Smpte2084
        } else {
            XferFunc::Default
        }
    }
}

impl vstd::std_specs::convert::FromSpecImpl<u32> for XferFunc {
    open spec fn obeys_from_spec() -> bool {
        true
    }

    open spec fn from_spec(v: u32) -> Self {
        xfer_func_of(v)
    }
}

/// A luma/chroma encoding identifier.
#[derive(Copy, Clone, Debug, PartialEq, Eq, Structural)]
pub enum YCbCrEncoding {
    Default,
    E601,
    E709,
    Xv601,
    Xv709,
    Sycc,
    Bt2020,
    Bt2020ConstLum,
    Smpte240M,
}

/// The luma/chroma encoding a raw identifier stands for; unrecognised
/// values fall back to the default.
pub open spec fn ycbcr_encoding_of(v: u32) -> YCbCrEncoding {
    if v == V4L2_YCBCR_ENC_601 {
        YCbCrEncoding::E601
    } else if v == V4L2_YCBCR_ENC_709 {
        YCbCrEncoding::E709
    } else if v == V4L2_YCBCR_ENC_XV601 {
        YCbCrEncoding::Xv601
    } else if v == V4L2_YCBCR_ENC_XV709 {
        YCbCrEncoding::Xv709
    } else if v == V4L2_YCBCR_ENC_SYCC {
        YCbCrEncoding::Sycc
    } else if v == V4L2_YCBCR_ENC_BT2020 {
        YCbCrEncoding::Bt2020
    } else if v == V4L2_YCBCR_ENC_BT2020_CONST_LUM {
        YCbCrEncoding::Bt2020ConstLum
    } else if v == V4L2_YCBCR_ENC_SMPTE240M {
        YCbCrEncoding::Smpte240M
    } else {
        YCbCrEncoding::Default
    }
}

impl From<u32> for YCbCrEncoding {
    /// Maps a raw luma/chroma encoding identifier to its variant.
    fn from(ycbcr_encoding: u32) -> (r: Self) {
        if ycbcr_encoding == V4L2_YCBCR_ENC_601 {
            YCbCrEncoding::E601
        } else if ycbcr_encoding == V4L2_YCBCR_ENC_709 {
            YCbCrEncoding::E709
        } else if ycbcr_encoding == V4L2_YCBCR_ENC_XV601 {
            YCbCrEncoding::Xv601
        } else if ycbcr_encoding == V4L2_YCBCR_ENC_XV709 {
            YCbCrEncoding::Xv709
        } else if ycbcr_encoding == V4L2_YCBCR_ENC_SYCC {
            YCbCrEncoding::Sycc
        } else if ycbcr_encoding == V4L2_YCBCR_ENC_BT2020 {
            YCbCrEncoding::Bt2020
        } else if ycbcr_encoding == V4L2_YCBCR_ENC_BT2020_CONST_LUM {
            YCbCrEncoding::Bt2020ConstLum
        } else if ycbcr_encoding == V4L2_YCBCR_ENC_SMPTE240M {
            YCbCrEncoding::Smpte240M
        } else {
            YCbCrEncoding::Default
        }
    }
}

impl vstd::std_specs::convert::FromSpecImpl<u32> for YCbCrEncoding {
    open spec fn obeys_from_spec() -> bool {
        true
    }

    open spec fn from_spec(v: u32) -> Self {
        ycbcr_encoding_of(v)
    }
}

/// A quantization-range identifier.
#[derive(Copy, Clone, Debug, PartialEq, Eq, Structural)]
pub enum Quantization {
    Default,
    FullRange,
    LimRange,
}

/// The quantization range a raw identifier stands for; unrecognised
/// values fall back to the default.
pub open spec fn quantization_of(v: u32) -> Quantization {
    if v == V4L2_QUANTIZATION_FULL_RANGE {
        Quantization::FullRange
    } else if v == V4L2_QUANTIZATION_LIM_RANGE {
        Quantization::LimRange
    } else {
        Quantization::Default
    }
}

impl From<u32> for Quantization {
    /// Maps a raw quantization-range identifier to its variant.
    fn from(quantization: u32) -> (r: Self) {
        if quantization == V4L2_QUANTIZATION_FULL_RANGE {
            Quantization::FullRange
        } else if quantization == V4L2_QUANTIZATION_LIM_RANGE {
            Quantization::LimRange
        } else {
            Quantization::Default
        }
    }
}

impl vstd::std_specs::convert::FromSpecImpl<u32> for Quantization {
    open spec fn obeys_from_spec() -> bool {
        true
    }

    open spec fn from_spec(v: u32) -> Self {
        quantization_of(v)
    }
}

/// The stateless FWHT decode parameters, as plain values.
#[derive(Copy, Clone, Debug, PartialEq, Eq, Structural)]
pub struct FwhtParams {
    pub backward_ref_ts: u64,
    pub version: u32,
    pub width: u32,
    pub height: u32,
    pub flags: u32,
    pub colorspace: Colorspace,
    pub xfer_func: XferFunc,
    pub ycbcr_enc: YCbCrEncoding,
    pub quantization: Quantization,
}

/// The value of one extended control.
#[derive(Copy, Clone, Debug, PartialEq, Eq, Structural)]
pub enum ExtControl {
    H264DecodeMode,
    H264StartCode,
    H264Sps,
    H264Pps,
    H264ScalingMatrix,
    H264PredWeights,
    H264SliceParams,
    H264DecodeParams,
    FwhtParams(FwhtParams),
}

/// The stateless FWHT parameters as the kernel control structure holds
/// them: every colorimetry field still a raw identifier.
#[derive(Copy, Clone, Debug, PartialEq, Eq, Structural)]
pub struct RawFwhtParams {
    pub backward_ref_ts: u64,
    pub version: u32,
    pub width: u32,
    pub height: u32,
    pub flags: u32,
    pub colorspace: u32,
    pub xfer_func: u32,
    pub ycbcr_enc: u32,
    pub quantization: u32,
}

/// The control value a raw FWHT parameter block stands for: the plain
/// fields carried over, each raw identifier mapped to its variant.
pub open spec fn ext_control_of_fwht(raw: RawFwhtParams) -> ExtControl {
    ExtControl::FwhtParams(
        FwhtParams {
            backward_ref_ts: raw.backward_ref_ts,
            version: raw.version,
            width: raw.width,
            height: raw.height,
            flags: raw.flags,
            colorspace: colorspace_of(raw.colorspace),
            xfer_func: xfer_func_of(raw.xfer_func),
            ycbcr_enc: ycbcr_encoding_of(raw.ycbcr_enc),
            quantization: quantization_of(raw.quantization),
        },
    )
}

impl From<RawFwhtParams> for ExtControl {
    /// Lifts a raw FWHT parameter block into a control value.
    fn from(raw: RawFwhtParams) -> (r: Self) {
        ExtControl::FwhtParams(
            FwhtParams {
                backward_ref_ts: raw.backward_ref_ts,
                version: raw.version,
                width: raw.width,
                height: raw.height,
                flags: raw.flags,
                colorspace: Colorspace::from(raw.colorspace),
                xfer_func: XferFunc::from(raw.xfer_func),
                ycbcr_enc: YCbCrEncoding::from(raw.ycbcr_enc),
                quantization: Quantization::from(raw.quantization),
            },
        )
    }
}

impl vstd::std_specs::convert::FromSpecImpl<RawFwhtParams> for ExtControl {
    open spec fn obeys_from_spec() -> bool {
        true
    }

    open spec fn from_spec(raw: RawFwhtParams) -> Self {
        ext_control_of_fwht(raw)
    }
}

} // verus!
