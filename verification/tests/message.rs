use loft_raw::message::{
    ColorMatrix, Decoder, Exif, FileInfo, ImageLayout, Number, PixelOrigin, PreviewSpace, Sample,
    SensorInfo, SensorLayout, ABSENT, MAX_MESSAGE_BYTES, ONE, PROTOCOL_VERSION,
};

fn image(width: u32, height: u32) -> ImageLayout {
    ImageLayout { width, height, color_space: PreviewSpace::Srgb }
}

fn samples(width: u32, height: u32, components: u8, sample: Sample) -> SensorLayout {
    SensorLayout { width, height, components, sample }
}

#[test]
fn constants() {
    assert_eq!(PROTOCOL_VERSION, 1);
    assert_eq!(MAX_MESSAGE_BYTES, 1 << 20);
}

#[test]
fn image_bytes() {
    assert_eq!(image(6000, 4000).bytes(), 96_000_000);
    assert_eq!(image(1, 1).bytes(), 4);
    assert_eq!(image(0, 4000).bytes(), 0);
}

#[test]
fn sensor_bytes() {
    assert_eq!(samples(6000, 4000, 1, Sample::U16).bytes(), 48_000_000);
    assert_eq!(samples(6000, 4000, 3, Sample::F32).bytes(), 288_000_000);
    assert_eq!(samples(100, 10, 4, Sample::F16).bytes(), 8000);
    assert_eq!(samples(100, 10, 0, Sample::U16).bytes(), 0);
}

#[test]
fn checked_bytes_agree_where_they_fit() {
    assert_eq!(image(6000, 4000).checked_bytes(), Some(96_000_000));
    assert_eq!(samples(6000, 4000, 3, Sample::F32).checked_bytes(), Some(288_000_000));
}

#[test]
fn checked_bytes_refuse_claims_beyond_the_address_space() {
    assert_eq!(image(u32::MAX, u32::MAX).checked_bytes(), None);
    assert_eq!(samples(u32::MAX, u32::MAX, 255, Sample::F32).checked_bytes(), None);
    assert_eq!(samples(u32::MAX, u32::MAX, 0, Sample::F32).checked_bytes(), Some(0));
}

#[test]
fn default_exif_is_blank() {
    let exif = Exif::default();
    assert!(exif.iso.is_none());
    assert!(exif.exposure_time.is_none());
    assert!(exif.f_number.is_none());
    assert!(exif.focal_length.is_none());
    assert!(exif.lens_model.is_none());
    assert!(exif.date_time_original.is_none());
}

#[test]
fn default_headers_are_blank() {
    let info = FileInfo::default();
    assert_eq!(info.decoder, Decoder::Raw);
    assert!(!info.raw);
    assert_eq!((info.make.as_str(), info.model.as_str(), info.orientation), ("", "", 0));
    assert!(info.exif.iso.is_none());
}

#[test]
fn default_sensor_information_is_blank() {
    let info = SensorInfo::default();
    assert_eq!(info.origin, PixelOrigin::Sensor);
    assert_eq!(info.scale, Number::Bits(ONE));
    assert_eq!(info.white_balance, [Number::Bits(ABSENT); 4]);
    assert_eq!((info.bits_per_sample, info.cfa.as_str(), info.orientation), (0, "", 0));
    assert!(info.black_levels.is_empty() && info.white_levels.is_empty());
    assert!(info.color_matrices.is_empty());
    assert!(info.active_area.is_none() && info.crop_area.is_none());
}

#[test]
fn default_matrix_is_blank() {
    let matrix = ColorMatrix::default();
    assert_eq!(matrix.illuminant, 0);
    assert!(matrix.values.is_empty());
}

#[test]
fn special_numbers_are_what_they_are_called() {
    assert_eq!(f32::from_bits(ONE), 1.0);
    assert!(f32::from_bits(ABSENT).is_nan());
}
