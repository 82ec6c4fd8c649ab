//! The operating system's image decoders, used where the raw decoder cannot help: non-raw formats
//! (JPEG, PNG, TIFF, HEIC...), raw files it cannot read, missing embedded previews. They read
//! untrusted files too, hence they run in the helper, never in the application.
//!
//! Here stand the decisions around those decoders, and the platform that has none wired yet.

use vstd::prelude::*;
use vstd::string::*;

use crate::message::{
    exif_orientation, Decoder, Exif, FileInfo, ImageLayout, Number, PixelOrigin, PreviewSpace,
    Sample, SensorInfo, SensorLayout, ABSENT,
};
use crate::session::{holds, Picture};
use crate::shm::{object_name, page_multiple, SharedBuffer};
use crate::text::fails_with;

verus! {

/// Longest side of a thumbnail produced by the system when the file has no usable preview.
pub const THUMBNAIL_MAX_SIDE: i32 = 2560;

/// Longest file extension that is considered.
pub const MAX_EXTENSION: usize = 8;

/// Has the system recognise a file, on a platform without system decoders: every file is refused,
/// whatever a recognised file `Y` would be.
pub fn open<Y>(_bytes: &[u8], _extension: Option<&str>) -> (opened: Result<(Y, FileInfo), String>)
    ensures
        fails_with(opened, "format not supported on this platform"@),
{
    Err("format not supported on this platform".to_owned())
}

/// Confines the process, on a platform without a sandbox: refused, the helper still runs in its
/// own process.
pub fn enter() -> (entered: Result<(), String>)
    ensures
        fails_with(entered, "no sandbox on this platform"@),
{
    Err("no sandbox on this platform".to_owned())
}

/// What entering the sandbox came to, from the status that the system returned and the text that
/// it gave, if any.
pub fn entered(status: i32, text: Option<String>) -> (entered: Result<(), String>)
    ensures
        status == 0 ==> entered == Ok::<(), String>(()),
        status != 0 ==> fails_with(
            entered,
            match text {
                Some(given) => given@,
                None => "sandbox_init failed"@,
            },
        ),
{
    if status == 0 {
        return Ok(());
    }
    match text {
        Some(given) => Err(given),
        None => Err("sandbox_init failed".to_owned()),
    }
}

/// Nothing to initialise ahead of the sandbox, on a platform without one.
pub fn warm_up() {
}

/// Whether the helper runs confined, given what entering the sandbox came to. Where the platform
/// has a sandbox, a helper that cannot enter it refuses to run.
pub fn confinement(has_sandbox: bool, entered: Result<(), String>) -> (confined: Result<
    bool,
    String,
>)
    ensures
        entered is Ok ==> confined == Ok::<bool, String>(true),
        entered is Err && has_sandbox ==> confined == Err::<bool, String>(entered->Err_0),
        entered is Err && !has_sandbox ==> confined == Ok::<bool, String>(false),
{
    match entered {
        Ok(_) => Ok(true),
        Err(error) => if has_sandbox {
            Err(error)
        } else {
            Ok(false)
        },
    }
}

/// Whether a character is an ASCII letter or digit.
pub open spec fn is_alphanumeric(c: char) -> bool {
    ||| '0' <= c <= '9'
    ||| 'a' <= c <= 'z'
    ||| 'A' <= c <= 'Z'
}

/// Whether a file extension is considered: only short alphanumeric ones are.
pub open spec fn usable_extension(extension: Seq<char>) -> bool {
    &&& 1 <= extension.len() <= MAX_EXTENSION
    &&& forall|i: int| 0 <= i < extension.len() ==> is_alphanumeric(#[trigger] extension[i])
}

fn is_usable(extension: &str) -> (usable: bool)
    ensures
        usable == usable_extension(extension@),
{
    if !extension.is_ascii() {
        proof {
            if usable_extension(extension@) {
                assert(vstd::utf8::is_ascii_chars(extension@)) by {
                    assert forall|i: int| 0 <= i < extension@.len() implies '\0' <= (
                    #[trigger] extension@[i]) <= '\u{7f}' by {
                        assert(is_alphanumeric(extension@[i]));
                    }
                }
            }
        }
        return false;
    }
    proof {
        vstd::utf8::is_ascii_chars_encode_utf8(extension@);
    }
    let bytes = extension.as_bytes();
    if bytes.len() < 1 || bytes.len() > MAX_EXTENSION {
        return false;
    }
    for i in 0..bytes.len()
        invariant
            bytes@.len() == extension@.len(),
            forall|j: int| 0 <= j < bytes@.len() ==> #[trigger] bytes@[j] == extension@[j] as u8,
            vstd::utf8::is_ascii_chars(extension@),
            forall|j: int| 0 <= j < i ==> is_alphanumeric(#[trigger] extension@[j]),
    {
        let byte = bytes[i];
        assert(byte == extension@[i as int] as u8);
        assert('\0' <= extension@[i as int] <= '\u{7f}');
        // '0' to '9', 'a' to 'z', 'A' to 'Z'.
        let alphanumeric = (0x30 <= byte && byte <= 0x39) || (0x61 <= byte && byte <= 0x7a) || (0x41
            <= byte && byte <= 0x5a);
        if !alphanumeric {
            assert(!is_alphanumeric(extension@[i as int]));
            return false;
        }
    }
    true
}

/// The extension to derive a type hint from, if it is considered: without a hint, the system
/// sniffs the bytes and mistakes some raw files for plain TIFF.
pub fn type_hint<'a>(extension: Option<&'a str>) -> (hint: Option<&'a str>)
    ensures
        hint == (match extension {
            Some(text) => if usable_extension(text@) {
                Some(text)
            } else {
                None
            },
            None => None,
        }),
{
    match extension {
        Some(text) => if is_usable(text) {
            Some(text)
        } else {
            None
        },
        None => None,
    }
}

/// Whether a text ends in another.
pub open spec fn ends_with(text: Seq<char>, end: Seq<char>) -> bool {
    &&& text.len() >= end.len()
    &&& text.skip(text.len() - end.len()) == end
}

/// Whether a uniform type identifier is that of a raw format: those end in "raw-image".
pub fn is_raw_type(identifier: &str) -> (raw: bool)
    ensures
        raw == ends_with(identifier@, "raw-image"@),
{
    let end = "raw-image";
    let len = identifier.unicode_len();
    let end_len = end.unicode_len();
    if len < end_len {
        return false;
    }
    let start = len - end_len;
    for i in 0..end_len
        invariant
            len == identifier@.len(),
            end_len == end@.len(),
            start + end_len == len,
            end@ == "raw-image"@,
            forall|j: int| 0 <= j < i ==> identifier@[start + j] == #[trigger] end@[j],
    {
        if identifier.get_char(start + i) != end.get_char(i) {
            assert(identifier@.skip(start as int)[i as int] != end@[i as int]);
            return false;
        }
    }
    assert(identifier@.skip(start as int) =~= end@);
    true
}

/// Whether a file is in a raw format, from what the system makes of it: how many images it holds,
/// where the format was recognised at all, and their type identifier.
pub fn recognise(images: Option<usize>, identifier: Option<&str>) -> (raw: Result<bool, String>)
    ensures
        images is None ==> fails_with(raw, "format not recognised"@),
        images == Some(0usize) ==> fails_with(raw, "no image in file"@),
        images matches Some(count) && count > 0 ==> raw == Ok::<bool, String>(
            identifier is Some && ends_with(identifier->0@, "raw-image"@),
        ),
{
    match images {
        None => Err("format not recognised".to_owned()),
        Some(0) => Err("no image in file".to_owned()),
        Some(_) => match identifier {
            Some(text) => Ok(is_raw_type(text)),
            None => Ok(false),
        },
    }
}

/// What the system may fail to give while it decodes.
#[derive(Debug, Clone, Copy, PartialEq, Eq, Structural)]
pub enum Part {
    /// A thumbnail of the file.
    Thumbnail,
    /// A filter that develops the file's raw format.
    RawFilter,
    /// What that filter makes of the file.
    Developed,
    /// The file's image, where it is not raw.
    Image,
    /// The colour space to render in.
    ColourSpace,
    /// The memory to render into.
    Memory,
}

impl Part {
    /// What is replied when the part is missing.
    pub open spec fn missing(self) -> Seq<char> {
        match self {
            Part::Thumbnail => "no thumbnail"@,
            Part::RawFilter => "raw format not supported by the system"@,
            Part::Developed => "system raw decoding failed"@,
            Part::Image => "image decoding failed"@,
            Part::ColourSpace => "colour space unavailable"@,
            Part::Memory => "null buffer"@,
        }
    }

    /// The part that the system gave, or what is replied when it gave none.
    pub fn required<T>(self, given: Option<T>) -> (part: Result<T, String>)
        ensures
            match given {
                Some(found) => part == Ok::<T, String>(found),
                None => fails_with(part, self.missing()),
            },
    {
        let text = match (given, self) {
            (Some(found), _) => return Ok(found),
            (None, Part::Thumbnail) => "no thumbnail",
            (None, Part::RawFilter) => "raw format not supported by the system",
            (None, Part::Developed) => "system raw decoding failed",
            (None, Part::Image) => "image decoding failed",
            (None, Part::ColourSpace) => "colour space unavailable",
            (None, Part::Memory) => "null buffer",
        };
        Err(text.to_owned())
    }
}

/// What the system reads of a file's headers.
pub struct Properties {
    pub orientation: Option<u16>,
    pub make: Option<String>,
    pub model: Option<String>,
    pub exif: Option<Exif>,
}

/// The text, empty where there is none.
pub open spec fn text_or_empty(text: Option<String>) -> Seq<char> {
    match text {
        Some(given) => given@,
        None => Seq::empty(),
    }
}

fn or_empty(text: Option<String>) -> (given: String)
    ensures
        given@ == text_or_empty(text),
{
    match text {
        Some(given) => given,
        None => String::new(),
    }
}

/// What a file's headers say, as it is replied; next to nothing where the system reads none.
pub fn file_info(raw: bool, properties: Option<Properties>) -> (info: FileInfo)
    ensures
        info.decoder == Decoder::System,
        info.raw == raw,
        info.orientation <= 8,
        match properties {
            Some(read) => {
                &&& info.orientation == exif_orientation(read.orientation)
                &&& info.make@ == text_or_empty(read.make)
                &&& info.model@ == text_or_empty(read.model)
                &&& match read.exif {
                    Some(exif) => info.exif == exif,
                    None => info.exif.is_blank(),
                }
            },
            None => {
                &&& info.orientation == 0
                &&& info.make@.len() == 0
                &&& info.model@.len() == 0
                &&& info.exif.is_blank()
            },
        },
{
    match properties {
        Some(read) => FileInfo {
            decoder: Decoder::System,
            raw,
            make: or_empty(read.make),
            model: or_empty(read.model),
            orientation: crate::message::orientation(read.orientation),
            exif: match read.exif {
                Some(exif) => exif,
                None => Exif::default(),
            },
        },
        None => {
            let mut info = FileInfo::default();
            info.decoder = Decoder::System;
            info.raw = raw;
            info
        },
    }
}

/// A bitmap that the system renders into: the shared buffer to create for it, and how its rows lie
/// there.
#[derive(Debug)]
pub struct Bitmap {
    pub width: u32,
    pub height: u32,
    pub row_bytes: usize,
    pub buffer: SharedBuffer,
}

/// Bytes of a bitmap.
pub open spec fn bitmap_size(width: usize, height: usize, bytes_per_pixel: usize) -> nat {
    (width * height * bytes_per_pixel) as nat
}

/// Whether a bitmap is laid out for an image of the given extent: rows packed, in a shared buffer of
/// exactly its size.
pub open spec fn laid_out(
    bitmap: Bitmap,
    width: usize,
    height: usize,
    bytes_per_pixel: usize,
    process: u32,
    serial: u32,
) -> bool {
    &&& bitmap.width == crate::decode::low32(width)
    &&& bitmap.height == crate::decode::low32(height)
    &&& bitmap.row_bytes == width * bytes_per_pixel
    &&& bitmap.buffer.name@ == object_name(process, serial)
    &&& bitmap.buffer.object == page_multiple(bitmap_size(width, height, bytes_per_pixel))
    &&& bitmap.buffer.map == bitmap_size(width, height, bytes_per_pixel)
}

/// The bitmap for an image of the given extent, rows packed. An image without a finite extent, or
/// with an empty one, cannot be rendered.
pub fn bitmap(
    width: usize,
    height: usize,
    finite: bool,
    bytes_per_pixel: usize,
    process: u32,
    serial: u32,
) -> (bitmap: Result<Bitmap, String>)
    requires
        bytes_per_pixel > 0,
        finite ==> page_multiple(bitmap_size(width, height, bytes_per_pixel)) <= usize::MAX,
    ensures
        width == 0 || height == 0 || !finite ==> fails_with(bitmap, "image has no finite extent"@),
        width > 0 && height > 0 && finite ==> (bitmap matches Ok(found) && laid_out(
            found,
            width,
            height,
            bytes_per_pixel,
            process,
            serial,
        ) && found.row_bytes * height == found.buffer.map),
{
    if width == 0 || height == 0 || !finite {
        return Err("image has no finite extent".to_owned());
    }
    proof {
        crate::shm::lemma_page_multiple(bitmap_size(width, height, bytes_per_pixel));
    }
    assert(0 < width * height <= width * height * bytes_per_pixel && width * bytes_per_pixel <= width
        * height * bytes_per_pixel && width * bytes_per_pixel * height == width * height
        * bytes_per_pixel) by (nonlinear_arith)
        requires
            width > 0,
            height > 0,
            bytes_per_pixel > 0,
    ;
    match SharedBuffer::create(width * height * bytes_per_pixel, process, serial) {
        Ok(buffer) => Ok(
            Bitmap {
                width: crate::decode::truncate32(width),
                height: crate::decode::truncate32(height),
                row_bytes: width * bytes_per_pixel,
                buffer,
            },
        ),
        Err(error) => Err(error),
    }
}

/// Bytes per pixel of a rendered preview: 8-bit RGBA.
pub const PREVIEW_PIXEL: usize = 4;

/// Bytes per pixel of a developed image: half-float RGBA.
pub const DEVELOPED_PIXEL: usize = 8;

/// Layout of a rendered preview, colour-managed to Display P3.
pub fn preview(width: u32, height: u32) -> (layout: ImageLayout)
    ensures
        layout == (ImageLayout { width, height, color_space: PreviewSpace::DisplayP3 }),
{
    ImageLayout { width, height, color_space: PreviewSpace::DisplayP3 }
}

/// What the engine is told of an image developed by the system, at `scale` (by its bit pattern)
/// of its full size, of a file that says `orientation`: scene-linear half-float RGBA, BT.2020
/// primaries. Nothing is left to develop; the system gives no white balance multipliers.
pub fn develop(width: u32, height: u32, scale: u32, orientation: Option<u16>) -> (developed: (
    SensorLayout,
    SensorInfo,
))
    ensures
        developed.0 == (SensorLayout { width, height, components: 4, sample: Sample::F16 }),
        developed.1.origin == PixelOrigin::SystemLinearBt2020,
        developed.1.scale == Number::Bits(scale),
        developed.1.bits_per_sample == 16,
        developed.1.cfa@.len() == 0,
        developed.1.white_balance@ == Seq::new(4, |i: int| Number::Bits(ABSENT)),
        developed.1.black_levels@.len() == 0,
        developed.1.white_levels@.len() == 0,
        developed.1.color_matrices@.len() == 0,
        developed.1.active_area is None,
        developed.1.crop_area is None,
        developed.1.orientation == exif_orientation(orientation),
        developed.1.orientation <= 8,
{
    let layout = SensorLayout { width, height, components: 4, sample: Sample::F16 };
    let mut info = SensorInfo::default();
    info.origin = PixelOrigin::SystemLinearBt2020;
    info.scale = Number::Bits(scale);
    info.bits_per_sample = 16;
    info.orientation = crate::message::orientation(orientation);
    (layout, info)
}

/// A bitmap for a preview holds exactly the pixels that the reply announces, where its extent fits
/// the reply's numbers.
pub proof fn lemma_bitmap_holds_preview(
    bitmap: Bitmap,
    width: usize,
    height: usize,
    process: u32,
    serial: u32,
    layout: ImageLayout,
)
    requires
        width <= u32::MAX,
        height <= u32::MAX,
        laid_out(bitmap, width, height, PREVIEW_PIXEL, process, serial),
        layout == (ImageLayout {
            width: bitmap.width,
            height: bitmap.height,
            color_space: PreviewSpace::DisplayP3,
        }),
    ensures
        holds(bitmap.buffer, Picture::Preview(layout)),
{
}

/// A bitmap for a developed image holds exactly the samples that the reply announces, where its
/// extent fits the reply's numbers.
pub proof fn lemma_bitmap_holds_developed(
    bitmap: Bitmap,
    width: usize,
    height: usize,
    process: u32,
    serial: u32,
    layout: SensorLayout,
    info: Box<SensorInfo>,
)
    requires
        width <= u32::MAX,
        height <= u32::MAX,
        laid_out(bitmap, width, height, DEVELOPED_PIXEL, process, serial),
        layout == (SensorLayout {
            width: bitmap.width,
            height: bitmap.height,
            components: 4,
            sample: Sample::F16,
        }),
    ensures
        holds(bitmap.buffer, Picture::Sensor(layout, info)),
{
    assert(width * height * 4 * 2 == width * height * 8);
}

} // verus!
