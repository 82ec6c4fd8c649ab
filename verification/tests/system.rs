use loft_raw::message::{Decoder, Exif, Number, PixelOrigin, PreviewSpace, Sample, ABSENT};
use loft_raw::system::{
    bitmap, confinement, develop, enter, entered, file_info, is_raw_type, open, preview, recognise,
    type_hint, warm_up, Part, Properties, DEVELOPED_PIXEL, PREVIEW_PIXEL, THUMBNAIL_MAX_SIDE,
};

#[test]
fn platform_without_decoders_refuses_every_file() {
    let opened = open::<u8>(&[1, 2, 3], Some("png"));
    assert_eq!(opened.err().unwrap(), "format not supported on this platform");
}

#[test]
fn platform_without_sandbox_runs_unconfined() {
    warm_up();
    let entered = enter();
    assert_eq!(entered, Err("no sandbox on this platform".to_owned()));
    assert_eq!(confinement(false, entered), Ok(false));
}

#[test]
fn helper_that_cannot_confine_itself_refuses_to_run() {
    let entered = Err("sandbox_init failed".to_owned());
    assert_eq!(confinement(true, entered), Err("sandbox_init failed".to_owned()));
}

#[test]
fn helper_in_its_sandbox_is_confined() {
    assert_eq!(confinement(true, Ok(())), Ok(true));
    assert_eq!(confinement(false, Ok(())), Ok(true));
}

#[test]
fn sandbox_status_is_told() {
    assert_eq!(entered(0, None), Ok(()));
    assert_eq!(entered(0, Some("ignored".to_owned())), Ok(()));
    assert_eq!(entered(-1, Some("bad profile".to_owned())), Err("bad profile".to_owned()));
    assert_eq!(entered(1, None), Err("sandbox_init failed".to_owned()));
}

#[test]
fn missing_parts_are_told() {
    let told = |part: Part| part.required::<u8>(None).unwrap_err();
    assert_eq!(told(Part::Thumbnail), "no thumbnail");
    assert_eq!(told(Part::RawFilter), "raw format not supported by the system");
    assert_eq!(told(Part::Developed), "system raw decoding failed");
    assert_eq!(told(Part::Image), "image decoding failed");
    assert_eq!(told(Part::ColourSpace), "colour space unavailable");
    assert_eq!(told(Part::Memory), "null buffer");
    assert_eq!(Part::Image.required(Some(7)), Ok(7));
}

#[test]
fn short_alphanumeric_extensions_hint_at_the_type() {
    for extension in ["a", "CR3", "jpeg", "3fr", "12345678", "azAZ09"] {
        assert_eq!(type_hint(Some(extension)), Some(extension));
    }
}

#[test]
fn other_extensions_do_not_hint() {
    for extension in ["", "123456789", "c r3", "tar.gz", "é", "déja", "/:`{@[", "\u{0}"] {
        assert_eq!(type_hint(Some(extension)), None);
    }
    assert_eq!(type_hint(None), None);
}

#[test]
fn raw_types_end_in_raw_image() {
    assert!(is_raw_type("com.canon.cr3-raw-image"));
    assert!(is_raw_type("raw-image"));
    assert!(!is_raw_type("public.jpeg"));
    assert!(!is_raw_type("raw-image.x"));
    assert!(!is_raw_type("aw-image"));
    assert!(!is_raw_type(""));
}

#[test]
fn recognised_files_are_raw_or_not() {
    assert_eq!(recognise(Some(1), Some("com.adobe.raw-image")), Ok(true));
    assert_eq!(recognise(Some(3), Some("public.heic")), Ok(false));
    assert_eq!(recognise(Some(1), None), Ok(false));
}

#[test]
fn unrecognised_and_empty_files_are_refused() {
    assert_eq!(recognise(None, None), Err("format not recognised".to_owned()));
    assert_eq!(recognise(None, Some("raw-image")), Err("format not recognised".to_owned()));
    assert_eq!(recognise(Some(0), Some("raw-image")), Err("no image in file".to_owned()));
}

#[test]
fn system_headers_are_told() {
    let exif = Exif { iso: Some(50), f_number: Some(Number::Bits(1.8f32.to_bits())), ..Exif::default() };
    let told = file_info(
        true,
        Some(Properties {
            orientation: Some(3),
            make: Some("Apple".to_owned()),
            model: None,
            exif: Some(exif),
        }),
    );
    assert_eq!(told.decoder, Decoder::System);
    assert!(told.raw);
    assert_eq!(told.orientation, 3);
    assert_eq!(told.make, "Apple");
    assert_eq!(told.model, "");
    assert_eq!(told.exif.iso, Some(50));
    assert_eq!(told.exif.f_number, Some(Number::Bits(1.8f32.to_bits())));
}

#[test]
fn missing_system_headers_are_told_absent() {
    let told = file_info(false, None);
    assert!(!told.raw);
    assert_eq!((told.orientation, told.make.as_str(), told.model.as_str()), (0, "", ""));
    assert!(told.exif.iso.is_none() && told.exif.lens_model.is_none());
    let bare = Properties { orientation: None, make: None, model: None, exif: None };
    let told = file_info(false, Some(bare));
    assert_eq!((told.orientation, told.make.as_str()), (0, ""));
    assert!(told.exif.date_time_original.is_none());
}

#[test]
fn system_orientation_is_one_to_eight_or_nothing() {
    for (read, expected) in [(None, 0), (Some(0), 0), (Some(1), 1), (Some(8), 8), (Some(9), 0)] {
        let read_only = Properties { orientation: read, make: None, model: None, exif: None };
        assert_eq!(file_info(false, Some(read_only)).orientation, expected);
        assert_eq!(develop(1, 1, 0, read).1.orientation, expected);
    }
}

#[test]
fn bitmap_rows_are_packed() {
    let rendered = bitmap(300, 200, true, PREVIEW_PIXEL, 0xa, 0xb).unwrap();
    assert_eq!((rendered.width, rendered.height), (300, 200));
    assert_eq!(rendered.row_bytes, 1200);
    assert_eq!(rendered.buffer.name, "/lfra.b");
    assert_eq!(rendered.buffer.map, 240_000);
    assert_eq!(rendered.buffer.object, 245_760);
}

#[test]
fn image_without_finite_extent_is_refused() {
    for (width, height, finite) in [(0, 5, true), (5, 0, true), (5, 5, false), (usize::MAX, 5, false)] {
        let refused = bitmap(width, height, finite, PREVIEW_PIXEL, 1, 1);
        assert_eq!(refused.unwrap_err(), "image has no finite extent");
    }
}

#[test]
fn system_preview_is_display_p3() {
    assert_eq!(THUMBNAIL_MAX_SIDE, 2560);
    let layout = preview(2560, 1440);
    assert_eq!((layout.width, layout.height), (2560, 1440));
    assert_eq!(layout.color_space, PreviewSpace::DisplayP3);
}

#[test]
fn developed_image_is_half_float_rgba() {
    let (layout, told) = develop(640, 480, 0.5f32.to_bits(), Some(6));
    assert_eq!((layout.width, layout.height, layout.components), (640, 480, 4));
    assert_eq!(layout.sample, Sample::F16);
    assert_eq!(told.origin, PixelOrigin::SystemLinearBt2020);
    assert_eq!(told.scale, Number::Bits(0.5f32.to_bits()));
    assert_eq!(told.bits_per_sample, 16);
    assert_eq!(told.orientation, 6);
    assert_eq!(told.cfa, "");
    assert_eq!(told.white_balance, [Number::Bits(ABSENT); 4]);
    assert!(f32::from_bits(ABSENT).is_nan());
    assert!(told.black_levels.is_empty() && told.white_levels.is_empty());
    assert!(told.color_matrices.is_empty());
    assert!(told.active_area.is_none() && told.crop_area.is_none());
}

#[test]
fn bitmaps_hold_what_their_layouts_announce() {
    let shown = bitmap(640, 480, true, PREVIEW_PIXEL, 1, 1).unwrap();
    assert_eq!(shown.buffer.map, preview(shown.width, shown.height).bytes());
    let developed = bitmap(640, 480, true, DEVELOPED_PIXEL, 1, 2).unwrap();
    let (layout, _) = develop(developed.width, developed.height, 0, None);
    assert_eq!(developed.buffer.map, layout.bytes());
}
