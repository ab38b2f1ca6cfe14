use v4l2r::controls::{
    Colorspace, ExtControl, ExtControlKind, FwhtParams, Quantization, RawFwhtParams, XferFunc,
    YCbCrEncoding, V4L2_COLORSPACE_REC709, V4L2_QUANTIZATION_LIM_RANGE, V4L2_XFER_FUNC_NONE,
    V4L2_YCBCR_ENC_SMPTE240M,
};

#[test]
fn colorspace_from_known_identifiers() {
    assert_eq!(Colorspace::from(0), Colorspace::Default);
    assert_eq!(Colorspace::from(1), Colorspace::Smpte170M);
    assert_eq!(Colorspace::from(V4L2_COLORSPACE_REC709), Colorspace::Rec709);
    assert_eq!(Colorspace::from(7), Colorspace::Jpeg);
    assert_eq!(Colorspace::from(12), Colorspace::DciP3);
}

#[test]
fn colorspace_from_unknown_identifier_falls_back() {
    assert_eq!(Colorspace::from(13), Colorspace::Default);
    assert_eq!(Colorspace::from(0xFFFF_FFFF), Colorspace::Default);
}

#[test]
fn xfer_func_from_known_identifiers() {
    assert_eq!(XferFunc::from(1), XferFunc::F709);
    assert_eq!(XferFunc::from(V4L2_XFER_FUNC_NONE), XferFunc::NoXfer);
    assert_eq!(XferFunc::from(7), XferFunc::Smpte2084);
}

#[test]
fn xfer_func_from_unknown_identifier_falls_back() {
    assert_eq!(XferFunc::from(8), XferFunc::Default);
}

#[test]
fn ycbcr_encoding_from_known_identifiers() {
    assert_eq!(YCbCrEncoding::from(1), YCbCrEncoding::E601);
    assert_eq!(YCbCrEncoding::from(6), YCbCrEncoding::Bt2020);
    assert_eq!(
        YCbCrEncoding::from(V4L2_YCBCR_ENC_SMPTE240M),
        YCbCrEncoding::Smpte240M
    );
}

#[test]
fn ycbcr_encoding_from_unknown_identifier_falls_back() {
    assert_eq!(YCbCrEncoding::from(9), YCbCrEncoding::Default);
}

#[test]
fn quantization_from_identifiers() {
    assert_eq!(Quantization::from(1), Quantization::FullRange);
    assert_eq!(
        Quantization::from(V4L2_QUANTIZATION_LIM_RANGE),
        Quantization::LimRange
    );
    assert_eq!(Quantization::from(3), Quantization::Default);
}

#[test]
fn fwht_params_carry_plain_values() {
    let params = FwhtParams {
        backward_ref_ts: 0x1234_5678_9ABC_DEF0,
        version: 3,
        width: 640,
        height: 480,
        flags: 0,
        colorspace: Colorspace::from(8),
        xfer_func: XferFunc::from(2),
        ycbcr_enc: YCbCrEncoding::from(5),
        quantization: Quantization::from(2),
    };
    assert_eq!(params.colorspace, Colorspace::Srgb);
    assert_eq!(params.xfer_func, XferFunc::Srgb);
    assert_eq!(params.ycbcr_enc, YCbCrEncoding::Sycc);
    assert_eq!(params.quantization, Quantization::LimRange);

    let ctrl = ExtControl::FwhtParams(params);
    match ctrl {
        ExtControl::FwhtParams(p) => assert_eq!(p.width, 640),
        _ => panic!("expected FwhtParams"),
    }
    let kind = ExtControlKind::FwhtParams;
    assert_eq!(kind, ExtControlKind::FwhtParams);
}

#[test]
fn ext_control_from_raw_fwht_params() {
    let raw = RawFwhtParams {
        backward_ref_ts: 9000,
        version: 3,
        width: 320,
        height: 200,
        flags: 0x11,
        colorspace: 10,
        xfer_func: 4,
        ycbcr_enc: 7,
        quantization: 1,
    };
    let expected = FwhtParams {
        backward_ref_ts: 9000,
        version: 3,
        width: 320,
        height: 200,
        flags: 0x11,
        colorspace: Colorspace::Bt2020,
        xfer_func: XferFunc::Smpte240M,
        ycbcr_enc: YCbCrEncoding::Bt2020ConstLum,
        quantization: Quantization::FullRange,
    };
    assert_eq!(ExtControl::from(raw), ExtControl::FwhtParams(expected));
}
