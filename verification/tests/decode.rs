use loft_raw::decode::{
    describe, embedded, info, largest, preview, ratio, sensor, Candidate, Photometric, RawImage, RawImageData,
    RawMetadata, Rect,
};
use loft_raw::message::{
    orientation, Decoder, Number, PixelOrigin, PreviewSpace, Rational, Sample,
};

fn quotient(n: u32, d: u32) -> Number {
    Number::Quotient(Rational { n, d })
}

fn metadata() -> RawMetadata {
    RawMetadata {
        make: "Fujifilm".to_owned(),
        model: "X-T5".to_owned(),
        orientation: Some(6),
        iso_speed: Some(400),
        iso_speed_ratings: Some(200),
        exposure_time: Some(Rational { n: 1, d: 250 }),
        fnumber: Some(Rational { n: 28, d: 10 }),
        focal_length: Some(Rational { n: 35, d: 0 }),
        lens_model: Some("XF35".to_owned()),
        date_time_original: Some("2025:06:01 10:00:00".to_owned()),
    }
}

fn raw_image<'a>(width: usize, height: usize, cpp: usize, data: RawImageData<'a>) -> RawImage<'a> {
    RawImage {
        width,
        height,
        cpp,
        bps: 14,
        wb_coeffs: [1, 2, 3, 0x7fc0_0000],
        blacklevel: vec![Rational { n: 1023, d: 2 }, Rational { n: 4, d: 0 }],
        whitelevel: vec![16_383, 0],
        color_matrix: vec![(21, vec![0x3f80_0000, 5]), (17, vec![])],
        active_area: Some(Rect { x: 1, y: 2, width: 3, height: 4 }),
        crop_area: None,
        photometric: Photometric::Cfa("RGGB".to_owned()),
        orientation: 8,
        data,
    }
}

#[test]
fn ratio_of_two_numbers() {
    assert_eq!(ratio(Rational { n: 28, d: 10 }), quotient(28, 10));
    assert_eq!(ratio(Rational { n: 0, d: 10 }), quotient(0, 10));
}

#[test]
fn ratio_over_zero_is_zero() {
    assert_eq!(ratio(Rational { n: 28, d: 0 }), quotient(0, 1));
    assert_eq!(ratio(Rational { n: 0, d: 0 }), quotient(0, 1));
}

#[test]
fn headers_are_told() {
    let told = info(metadata());
    assert_eq!(told.decoder, Decoder::Raw);
    assert!(told.raw);
    assert_eq!(told.make, "Fujifilm");
    assert_eq!(told.model, "X-T5");
    assert_eq!(told.orientation, 6);
    assert_eq!(told.exif.iso, Some(400));
    assert_eq!(told.exif.exposure_time, Some((1, 250)));
    assert_eq!(told.exif.f_number, Some(quotient(28, 10)));
    assert_eq!(told.exif.focal_length, Some(quotient(0, 1)));
    assert_eq!(told.exif.lens_model.as_deref(), Some("XF35"));
    assert_eq!(told.exif.date_time_original.as_deref(), Some("2025:06:01 10:00:00"));
}

#[test]
fn ratings_stand_in_for_the_speed() {
    assert_eq!(info(RawMetadata { iso_speed: None, ..metadata() }).exif.iso, Some(200));
    let told = info(RawMetadata { iso_speed: None, iso_speed_ratings: None, ..metadata() });
    assert_eq!(told.exif.iso, None);
}

#[test]
fn absent_headers_are_told_absent() {
    let told = info(RawMetadata {
        make: String::new(),
        model: String::new(),
        orientation: None,
        iso_speed: None,
        iso_speed_ratings: None,
        exposure_time: None,
        fnumber: None,
        focal_length: None,
        lens_model: None,
        date_time_original: None,
    });
    assert_eq!(told.orientation, 0);
    assert_eq!(told.exif.exposure_time, None);
    assert_eq!(told.exif.f_number, None);
    assert_eq!(told.exif.lens_model, None);
}

#[test]
fn sensor_is_described() {
    let told = describe(&raw_image(2, 2, 1, RawImageData::Integer(&[1, 2, 3, 4])));
    assert_eq!(told.origin, PixelOrigin::Sensor);
    assert_eq!(told.scale, Number::Bits(1.0f32.to_bits()));
    assert_eq!(told.bits_per_sample, 14);
    assert_eq!(told.cfa, "RGGB");
    assert_eq!(told.white_balance, [1, 2, 3, 0x7fc0_0000].map(Number::Bits));
    assert_eq!(told.black_levels, [quotient(1023, 2), quotient(0, 1)]);
    assert_eq!(told.white_levels, [quotient(16_383, 1), quotient(0, 1)]);
    assert_eq!(told.color_matrices.len(), 2);
    assert_eq!(told.color_matrices[0].illuminant, 21);
    assert_eq!(told.color_matrices[0].values, [Number::Bits(0x3f80_0000), Number::Bits(5)]);
    assert_eq!(told.color_matrices[1].illuminant, 17);
    assert!(told.color_matrices[1].values.is_empty());
    assert_eq!(told.active_area, Some([1, 2, 3, 4]));
    assert_eq!(told.crop_area, None);
    assert_eq!(told.orientation, 8);
}

#[test]
fn linear_image_has_no_filter_pattern() {
    let mut image = raw_image(1, 1, 3, RawImageData::Integer(&[1, 2, 3]));
    image.photometric = Photometric::Other;
    assert_eq!(describe(&image).cfa, "");
}

#[test]
fn wide_numbers_are_truncated() {
    let mut image = raw_image(1, 1, 1, RawImageData::Integer(&[1]));
    image.bps = 256 + 12;
    let wide = (1usize << 32) + 7;
    image.crop_area = Some(Rect { x: wide, y: 0, width: wide, height: u32::MAX as usize });
    let told = describe(&image);
    assert_eq!(told.bits_per_sample, 12);
    assert_eq!(told.crop_area, Some([7, 0, 7, u32::MAX]));
}

#[test]
fn integer_samples_are_replied_as_they_lie_in_memory() {
    let samples = [0x0102u16, 0xfffe, 0, 0x8000];
    let image = raw_image(2, 2, 1, RawImageData::Integer(&samples));
    let (layout, told, buffer, bytes) = sensor(&image, 0xab, 3).unwrap();
    let expected: Vec<u8> = samples.iter().flat_map(|sample| sample.to_ne_bytes()).collect();
    assert_eq!(bytes, expected);
    assert_eq!((layout.width, layout.height, layout.components), (2, 2, 1));
    assert_eq!(layout.sample, Sample::U16);
    assert_eq!(layout.bytes(), bytes.len());
    assert_eq!(told.orientation, 8);
    assert_eq!(buffer.name, "/lfrab.3");
    assert_eq!((buffer.object, buffer.map), (16384, 8));
}

#[test]
fn float_samples_are_replied_as_they_lie_in_memory() {
    let samples = [1.0f32, -0.5, 3.25];
    let bits = samples.map(f32::to_bits);
    let image = raw_image(1, 1, 3, RawImageData::Float(&bits));
    let (layout, _, buffer, bytes) = sensor(&image, 1, 1).unwrap();
    let expected: Vec<u8> = samples.iter().flat_map(|sample| sample.to_ne_bytes()).collect();
    assert_eq!(bytes, expected);
    assert_eq!(layout.sample, Sample::F32);
    assert_eq!(buffer.map, 12);
}

#[test]
fn samples_that_do_not_match_the_size_are_refused() {
    let refused = "sample count does not match the image size";
    let image = raw_image(2, 2, 1, RawImageData::Integer(&[1, 2, 3]));
    assert_eq!(sensor(&image, 1, 1).unwrap_err(), refused);
    let image = raw_image(2, 2, 1, RawImageData::Float(&[1, 2]));
    assert_eq!(sensor(&image, 1, 1).unwrap_err(), refused);
    let image = raw_image(usize::MAX, usize::MAX, 255, RawImageData::Integer(&[1]));
    assert_eq!(sensor(&image, 1, 1).unwrap_err(), refused);
}

#[test]
fn image_without_samples_is_refused() {
    let image = raw_image(0, 2, 1, RawImageData::Integer(&[]));
    assert_eq!(sensor(&image, 1, 1).unwrap_err(), "empty shared buffer");
}

fn candidate(image: &'static str, width: u32, height: u32) -> Option<Candidate<&'static str>> {
    Some(Candidate { image, width, height })
}

#[test]
fn largest_embedded_image_is_chosen() {
    let small = |name| candidate(name, 160, 120);
    let large = |name| candidate(name, 1600, 1200);
    let chosen = largest(large("preview"), small("full"), small("thumbnail")).unwrap();
    assert_eq!((chosen.image, chosen.width, chosen.height), ("preview", 1600, 1200));
    assert_eq!(largest(small("preview"), large("full"), small("thumbnail")).unwrap().image, "full");
    assert_eq!(largest(small("preview"), small("full"), large("thumbnail")).unwrap().image, "thumbnail");
    assert_eq!(largest(small("preview"), None, large("thumbnail")).unwrap().image, "thumbnail");
    assert_eq!(largest(None, large("full"), small("thumbnail")).unwrap().image, "full");
}

#[test]
fn pixels_are_counted_not_sides() {
    let chosen = largest(candidate("preview", 3000, 1), candidate("full", 100, 100), None);
    assert_eq!(chosen.unwrap().image, "full");
    let huge = candidate("thumbnail", u32::MAX, u32::MAX);
    let chosen = largest(candidate("preview", u32::MAX, u32::MAX - 1), None, huge);
    assert_eq!(chosen.unwrap().image, "thumbnail");
}

#[test]
fn first_of_equally_large_images_is_chosen() {
    let even = |name| candidate(name, 20, 30);
    assert_eq!(largest(even("preview"), even("full"), even("thumbnail")).unwrap().image, "preview");
    let turned = candidate("full", 30, 20);
    assert_eq!(largest(None, turned, even("thumbnail")).unwrap().image, "full");
}

#[test]
fn only_embedded_image_is_chosen() {
    assert_eq!(largest(candidate("preview", 1, 1), None, None).unwrap().image, "preview");
    assert_eq!(largest(None, candidate("full", 1, 1), None).unwrap().image, "full");
    assert_eq!(largest(None, None, candidate("thumbnail", 0, 0)).unwrap().image, "thumbnail");
}

#[test]
fn file_without_embedded_images_has_no_preview() {
    assert_eq!(largest::<u8>(None, None, None).unwrap_err(), "no embedded preview");
}

#[test]
fn panic_costs_only_the_image_it_is_about() {
    let panicked = || Err("decoder panicked".to_owned());
    let small = || Ok(candidate("preview", 160, 120));
    assert_eq!(embedded(small(), panicked(), panicked()).unwrap().image, "preview");
    let large = Ok(candidate("thumbnail", 1600, 1200));
    assert_eq!(embedded(small(), panicked(), large).unwrap().image, "thumbnail");
    assert_eq!(embedded(panicked(), small(), Ok(None)).unwrap().image, "preview");
    let large = Ok(candidate("full", 1600, 1200));
    assert_eq!(embedded(small(), large, panicked()).unwrap().image, "full");
}

#[test]
fn panic_is_told_where_no_image_is_left() {
    let panicked = |text: &str| Err(text.to_owned());
    let chosen = embedded::<u8>(Ok(None), panicked("second"), panicked("third"));
    assert_eq!(chosen.unwrap_err(), "second");
    assert_eq!(embedded::<u8>(panicked("first"), Ok(None), Ok(None)).unwrap_err(), "first");
    assert_eq!(embedded::<u8>(Ok(None), Ok(None), panicked("third")).unwrap_err(), "third");
    assert_eq!(embedded::<u8>(Ok(None), Ok(None), Ok(None)).unwrap_err(), "no embedded preview");
}

#[test]
fn orientation_is_one_to_eight_or_nothing() {
    for read in 0..=u16::MAX {
        let expected = if (1..=8).contains(&read) { read } else { 0 };
        assert_eq!(orientation(Some(read)), expected);
    }
    assert_eq!(orientation(None), 0);
    assert_eq!(info(RawMetadata { orientation: Some(9), ..metadata() }).orientation, 0);
    assert_eq!(info(RawMetadata { orientation: Some(8), ..metadata() }).orientation, 8);
    let mut image = raw_image(1, 1, 1, RawImageData::Integer(&[1]));
    image.orientation = 9;
    assert_eq!(describe(&image).orientation, 0);
}

#[test]
fn embedded_preview_is_laid_out() {
    let pixels = [9u8; 5000 * 4];
    let (layout, buffer) = preview(100, 50, &pixels, 2, 0x10).unwrap();
    assert_eq!((layout.width, layout.height), (100, 50));
    assert_eq!(layout.color_space, PreviewSpace::Srgb);
    assert_eq!(layout.bytes(), pixels.len());
    assert_eq!(buffer.name, "/lfr2.10");
    assert_eq!((buffer.object, buffer.map), (32768, 20_000));
}

#[test]
fn empty_preview_is_refused() {
    assert_eq!(preview(0, 50, &[], 1, 1).unwrap_err(), "empty shared buffer");
}
