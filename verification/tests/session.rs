use loft_raw::message::{
    Decoder, Exif, FileInfo, ImageLayout, Number, PixelOrigin, PreviewSpace, Reply, Request, Sample,
    SensorInfo, SensorLayout,
};
use loft_raw::decode::preview;
use loft_raw::session::{Action, Event, Filled, Picture, Pixels, Session, MAX_OPEN_FILES};
use loft_raw::shm::SharedBuffer;

// A mapped file and a system decoder are named here, a descriptor and a mapped buffer are numbers.
type Files = Session<&'static str, &'static str>;
type Did = Action<u32, u32>;
type Came = Event<&'static str, &'static str, u32>;

fn ask(session: &mut Files, request: Request, fd: Option<u32>) -> Did {
    assert!(session.is_idle());
    session.handle(request, fd)
}

fn tell(session: &mut Files, event: Came) -> Did {
    assert!(session.awaits(&event));
    session.resume(event, 42)
}

fn info(decoder: Decoder, model: &str) -> FileInfo {
    FileInfo {
        decoder,
        raw: true,
        make: "Maker".to_owned(),
        model: model.to_owned(),
        orientation: 1,
        exif: Exif::default(),
    }
}

fn image() -> ImageLayout {
    ImageLayout { width: 3, height: 2, color_space: PreviewSpace::Srgb }
}

fn samples() -> Picture {
    let layout = SensorLayout { width: 3, height: 2, components: 1, sample: Sample::U16 };
    let info = SensorInfo {
        origin: PixelOrigin::Sensor,
        scale: Number::Bits(0x3f80_0000),
        bits_per_sample: 14,
        cfa: "RGGB".to_owned(),
        white_balance: [Number::Bits(0); 4],
        black_levels: vec![],
        white_levels: vec![],
        color_matrices: vec![],
        active_area: None,
        crop_area: None,
        orientation: 6,
    };
    Picture::Sensor(layout, Box::new(info))
}

fn filled(map: usize, buffer: u32) -> Filled<u32> {
    Filled { plan: SharedBuffer::create(map, 1, buffer).unwrap(), buffer }
}

/// The preview of `image`, in a buffer of that number.
fn preview_in(buffer: u32) -> (Picture, Filled<u32>) {
    (Picture::Preview(image()), filled(24, buffer))
}

fn text(error: &str) -> String {
    error.to_owned()
}

fn assert_refused(action: Did, id: u64, error: &str) {
    match action {
        Action::Answer { reply: Reply::Failed { id: about, error: given }, buffer: None } => {
            assert_eq!(about, id);
            assert_eq!(given, error);
        }
        _ => panic!("not refused"),
    }
}

fn assert_opened(action: Did, id: u64, model: &str) {
    match action {
        Action::Answer { reply: Reply::Opened { id: about, info, micros }, buffer: None } => {
            assert_eq!(about, id);
            assert_eq!(info.model, model);
            assert_eq!(micros, 42);
        }
        _ => panic!("not opened"),
    }
}

fn assert_preview(action: Did, id: u64, pixels: u32) {
    match action {
        Action::Answer { reply: Reply::Preview { id: about, image: layout, micros }, buffer } => {
            assert_eq!(about, id);
            assert_eq!(layout, image());
            assert_eq!(micros, 42);
            let buffer = buffer.unwrap();
            assert_eq!(buffer.buffer, pixels);
            assert_eq!(buffer.plan.map, layout.bytes());
        }
        _ => panic!("no preview"),
    }
}

/// Opens a file that the raw decoder recognises.
fn open_raw(session: &mut Files, id: u64) {
    let action = ask(session, Request::Open { id, extension: None }, Some(5));
    assert!(matches!(action, Action::MapFile(5)));
    assert!(matches!(tell(session, Event::Mapped(Ok("file"))), Action::ReadHeaders));
    let action = tell(session, Event::Headers(Ok(info(Decoder::Raw, "A1"))));
    assert_opened(action, id, "A1");
}

/// Opens a file that only the system decoder recognises.
fn open_system(session: &mut Files, id: u64) {
    ask(session, Request::Open { id, extension: Some(text("heic")) }, Some(5));
    tell(session, Event::Mapped(Ok("photo")));
    assert!(matches!(tell(session, Event::Headers(Err(text("no magic")))), Action::OpenSystem));
    let action = tell(session, Event::SystemOpened(Ok(("system", info(Decoder::System, "P2")))));
    assert_opened(action, id, "P2");
}

fn close(session: &mut Files, id: u64) {
    let action = ask(session, Request::Close { id }, None);
    assert!(matches!(action, Action::Answer { reply: Reply::Closed { id: about }, buffer: None } if about == id));
}

#[test]
fn hello_is_answered_whatever_the_version() {
    let mut session = Files::new(false);
    for version in [0, 1, 7] {
        match ask(&mut session, Request::Hello { version }, None) {
            Action::Answer { reply: Reply::Hello { version, decoder }, buffer: None } => {
                assert_eq!(version, 1);
                assert_eq!(decoder, "rawler 0.8.0");
            }
            _ => panic!("no hello"),
        }
    }
}

#[test]
fn sandbox_check_tells_whether_the_helper_is_confined() {
    for confined in [true, false] {
        let mut session = Files::new(confined);
        open_raw(&mut session, 1);
        match ask(&mut session, Request::SandboxCheck, None) {
            Action::Answer { reply: Reply::Sandbox { confined: told }, buffer: None } => {
                assert_eq!(told, confined)
            }
            _ => panic!("no answer"),
        }
    }
}

#[test]
fn open_needs_a_descriptor() {
    let mut session = Files::new(true);
    let action = ask(&mut session, Request::Open { id: 3, extension: None }, None);
    assert_refused(action, 3, "no file descriptor attached");
    let action = ask(&mut session, Request::Preview { id: 3 }, None);
    assert_refused(action, 3, "file not open");
}

#[test]
fn open_says_why_a_file_cannot_be_mapped() {
    let mut session = Files::new(true);
    ask(&mut session, Request::Open { id: 3, extension: None }, Some(5));
    let action = tell(&mut session, Event::Mapped(Err(text("not a file"))));
    assert_refused(action, 3, "cannot map file: not a file");
    assert!(session.is_idle());
}

#[test]
fn open_says_why_neither_decoder_reads_a_file() {
    let mut session = Files::new(true);
    ask(&mut session, Request::Open { id: 3, extension: None }, Some(5));
    tell(&mut session, Event::Mapped(Ok("file")));
    tell(&mut session, Event::Headers(Err(text("no magic"))));
    let action = tell(&mut session, Event::SystemOpened(Err(text("format not recognised"))));
    assert_refused(action, 3, "no magic; system: format not recognised");
}

#[test]
fn actions_are_about_the_mapped_file() {
    let mut session = Files::new(true);
    assert!(session.subject().is_none());
    ask(&mut session, Request::Open { id: 3, extension: Some(text("cr3")) }, Some(5));
    assert!(session.subject().is_none());
    tell(&mut session, Event::Mapped(Ok("file")));
    assert_eq!(session.subject(), Some((&"file", Some(&text("cr3")))));
    tell(&mut session, Event::Headers(Err(text("no magic"))));
    assert_eq!(session.subject(), Some((&"file", Some(&text("cr3")))));
    tell(&mut session, Event::SystemOpened(Ok(("system", info(Decoder::System, "P2")))));
    assert!(session.subject().is_none());
    ask(&mut session, Request::Preview { id: 3 }, None);
    assert_eq!(session.subject(), Some((&"file", Some(&text("cr3")))));
    assert_eq!(session.system(), Some(&"system"));
}

#[test]
fn only_so_many_files_are_open() {
    let mut session = Files::new(true);
    assert_eq!(MAX_OPEN_FILES, 8);
    for id in 0..8 {
        open_raw(&mut session, id);
    }
    for id in [0, 8, 9] {
        let action = ask(&mut session, Request::Open { id, extension: None }, Some(5));
        assert_refused(action, id, "too many open files");
    }
    close(&mut session, 4);
    open_raw(&mut session, 9);
    let action = ask(&mut session, Request::Open { id: 4, extension: None }, Some(5));
    assert_refused(action, 4, "too many open files");
}

#[test]
fn opening_an_id_again_replaces_its_file() {
    let mut session = Files::new(true);
    open_raw(&mut session, 1);
    open_system(&mut session, 1);
    let action = ask(&mut session, Request::Preview { id: 1 }, None);
    assert!(matches!(action, Action::SystemDecode(Pixels::Preview)));
}

#[test]
fn failed_open_keeps_the_file_that_was_open() {
    let mut session = Files::new(true);
    open_raw(&mut session, 1);
    ask(&mut session, Request::Open { id: 1, extension: None }, Some(6));
    tell(&mut session, Event::Mapped(Err(text("gone"))));
    let action = ask(&mut session, Request::Sensor { id: 1 }, None);
    assert!(matches!(action, Action::RawDecode(Pixels::Sensor)));
}

#[test]
fn raw_decoder_gives_the_preview() {
    let mut session = Files::new(true);
    open_raw(&mut session, 1);
    let action = ask(&mut session, Request::Preview { id: 1 }, None);
    assert!(matches!(action, Action::RawDecode(Pixels::Preview)));
    let action = tell(&mut session, Event::Decoded(Ok(preview_in(77))));
    assert_preview(action, 1, 77);
    assert!(session.is_idle());
}

#[test]
fn raw_decoder_gives_the_samples() {
    let mut session = Files::new(true);
    open_raw(&mut session, 1);
    let action = ask(&mut session, Request::Sensor { id: 1 }, None);
    assert!(matches!(action, Action::RawDecode(Pixels::Sensor)));
    match tell(&mut session, Event::Decoded(Ok((samples(), filled(12, 78))))) {
        Action::Answer { reply: Reply::Sensor { id, sensor, info, micros }, buffer } => {
            assert_eq!(id, 1);
            assert_eq!(sensor.bytes(), 12);
            assert_eq!(info.cfa, "RGGB");
            assert_eq!(micros, 42);
            let buffer = buffer.unwrap();
            assert_eq!(buffer.buffer, 78);
            assert_eq!(buffer.plan.map, sensor.bytes());
        }
        _ => panic!("no samples"),
    }
}

#[test]
fn system_decoder_steps_in_where_the_raw_one_fails() {
    let mut session = Files::new(true);
    open_raw(&mut session, 1);
    ask(&mut session, Request::Preview { id: 1 }, None);
    assert!(session.system().is_none());
    let action = tell(&mut session, Event::Decoded(Err(text("no embedded preview"))));
    assert!(matches!(action, Action::OpenSystem));
    let action = tell(&mut session, Event::SystemOpened(Ok(("sys", info(Decoder::System, "B")))));
    assert!(matches!(action, Action::SystemDecode(Pixels::Preview)));
    assert_eq!(session.system(), Some(&"sys"));
    let action = tell(&mut session, Event::Decoded(Ok(preview_in(79))));
    assert_preview(action, 1, 79);
}

#[test]
fn both_decoders_reasons_are_told() {
    let mut session = Files::new(true);
    open_raw(&mut session, 1);
    ask(&mut session, Request::Preview { id: 1 }, None);
    tell(&mut session, Event::Decoded(Err(text("no embedded preview"))));
    tell(&mut session, Event::SystemOpened(Ok(("sys", info(Decoder::System, "B")))));
    let action = tell(&mut session, Event::Decoded(Err(text("no thumbnail"))));
    assert_refused(action, 1, "no embedded preview; system: no thumbnail");
}

#[test]
fn system_decoder_is_created_once_even_where_that_fails() {
    let mut session = Files::new(true);
    open_raw(&mut session, 1);
    ask(&mut session, Request::Preview { id: 1 }, None);
    tell(&mut session, Event::Decoded(Err(text("no embedded preview"))));
    let action = tell(&mut session, Event::SystemOpened(Err(text("format not recognised"))));
    assert_refused(action, 1, "format not recognised");
    ask(&mut session, Request::Sensor { id: 1 }, None);
    let action = tell(&mut session, Event::Decoded(Err(text("bad strip"))));
    assert_refused(action, 1, "format not recognised");
}

#[test]
fn system_decoder_is_kept_once_created() {
    let mut session = Files::new(true);
    open_raw(&mut session, 1);
    ask(&mut session, Request::Preview { id: 1 }, None);
    tell(&mut session, Event::Decoded(Err(text("no embedded preview"))));
    tell(&mut session, Event::SystemOpened(Ok(("sys", info(Decoder::System, "B")))));
    tell(&mut session, Event::Decoded(Err(text("no thumbnail"))));
    ask(&mut session, Request::Sensor { id: 1 }, None);
    let action = tell(&mut session, Event::Decoded(Err(text("bad strip"))));
    assert!(matches!(action, Action::SystemDecode(Pixels::Sensor)));
    let action = tell(&mut session, Event::Decoded(Err(text("image decoding failed"))));
    assert_refused(action, 1, "bad strip; system: image decoding failed");
}

#[test]
fn raw_decoder_is_not_asked_about_a_file_it_refused() {
    let mut session = Files::new(true);
    open_system(&mut session, 1);
    let action = ask(&mut session, Request::Sensor { id: 1 }, None);
    assert!(matches!(action, Action::SystemDecode(Pixels::Sensor)));
    let action = tell(&mut session, Event::Decoded(Err(text("image decoding failed"))));
    assert_refused(action, 1, "image decoding failed");
}

#[test]
fn pixels_of_the_wrong_kind_are_not_awaited() {
    let mut session = Files::new(true);
    open_raw(&mut session, 1);
    ask(&mut session, Request::Preview { id: 1 }, None);
    let wrong: Came = Event::Decoded(Ok((samples(), filled(12, 1))));
    assert!(!session.awaits(&wrong));
    let other: Came = Event::Mapped(Ok("file"));
    assert!(!session.awaits(&other));
    assert!(!session.is_idle());
}

#[test]
fn nothing_is_awaited_between_requests() {
    let session = Files::new(true);
    let event: Came = Event::Headers(Err(text("no magic")));
    assert!(!session.awaits(&event));
    assert!(session.is_idle());
}

#[test]
fn closed_file_is_gone() {
    let mut session = Files::new(true);
    open_raw(&mut session, 1);
    close(&mut session, 1);
    assert_refused(ask(&mut session, Request::Preview { id: 1 }, None), 1, "file not open");
    assert_refused(ask(&mut session, Request::Sensor { id: 1 }, None), 1, "file not open");
    close(&mut session, 1);
}

#[test]
fn closing_a_file_that_was_never_open_is_answered() {
    let mut session = Files::new(true);
    close(&mut session, 12);
}

#[test]
fn other_files_are_untouched() {
    let mut session = Files::new(true);
    open_raw(&mut session, 1);
    open_system(&mut session, 2);
    close(&mut session, 1);
    let action = ask(&mut session, Request::Preview { id: 2 }, None);
    assert!(matches!(action, Action::SystemDecode(Pixels::Preview)));
    assert_eq!(session.system(), Some(&"system"));
}

#[test]
fn attached_buffer_has_the_announced_bytes() {
    let mut session = Files::new(true);
    open_raw(&mut session, 1);
    ask(&mut session, Request::Preview { id: 1 }, None);
    let (layout, plan) = preview(30, 20, &[1; 2400], 1, 1).unwrap();
    let decoded = Ok((Picture::Preview(layout), Filled { plan, buffer: 3 }));
    match tell(&mut session, Event::Decoded(decoded)) {
        Action::Answer { reply: Reply::Preview { image, .. }, buffer: Some(filled) } => {
            assert_eq!(image.bytes(), 2400);
            assert_eq!(filled.plan.map, image.bytes());
            assert_eq!(filled.buffer, 3);
        }
        _ => panic!("no preview"),
    }
}

#[test]
fn buffer_of_another_size_is_not_awaited() {
    let mut session = Files::new(true);
    open_raw(&mut session, 1);
    ask(&mut session, Request::Preview { id: 1 }, None);
    for (map, fits) in [(23, false), (24, true), (25, false), (16384, false)] {
        let event: Came = Event::Decoded(Ok((Picture::Preview(image()), filled(map, 1))));
        assert_eq!(session.awaits(&event), fits);
    }
    let huge = ImageLayout { width: u32::MAX, height: u32::MAX, color_space: PreviewSpace::Srgb };
    let event: Came = Event::Decoded(Ok((Picture::Preview(huge), filled(24, 1))));
    assert!(!session.awaits(&event));
}
