//! From what the raw decoder reads of a file to what is replied about it: headers, embedded
//! preview, sensor samples.
//!
//! The decoder's own types stay outside. What it read arrives here as plain values, floating-point
//! numbers as their bit patterns.

use vstd::prelude::*;
use vstd::string::*;

use crate::message::{
    exif_orientation, ColorMatrix, Decoder, Exif, FileInfo, ImageLayout, Number, PixelOrigin,
    PreviewSpace, Rational, Sample, SensorInfo, SensorLayout, ONE,
};
use crate::session::{holds, Picture};
use crate::shm::{object_name, page_multiple, SharedBuffer};
use crate::text::fails_with;

verus! {

/// What the raw decoder reads of a file's headers.
pub struct RawMetadata {
    pub make: String,
    pub model: String,
    pub orientation: Option<u16>,
    pub iso_speed: Option<u32>,
    pub iso_speed_ratings: Option<u16>,
    pub exposure_time: Option<Rational>,
    pub fnumber: Option<Rational>,
    pub focal_length: Option<Rational>,
    pub lens_model: Option<String>,
    pub date_time_original: Option<String>,
}

/// The number that a quotient stands for: zero, where it divides by zero.
pub open spec fn quotient(value: Rational) -> Number {
    if value.d == 0 {
        Number::Quotient(Rational { n: 0, d: 1 })
    } else {
        Number::Quotient(value)
    }
}

/// The number that a quotient, if any, stands for.
pub open spec fn some_quotient(value: Option<Rational>) -> Option<Number> {
    match value {
        Some(given) => Some(quotient(given)),
        None => None,
    }
}

/// The number that a quotient stands for.
pub fn ratio(value: Rational) -> (number: Number)
    ensures
        number matches Number::Quotient(r) && (value.d != 0 ==> r.n * value.d == value.n * r.d) && (
        value.d == 0 ==> r.n == 0),
        number == quotient(value),
        number.wf(),
{
    if value.d == 0 {
        Number::Quotient(Rational { n: 0, d: 1 })
    } else {
        Number::Quotient(value)
    }
}

fn some_ratio(value: Option<Rational>) -> (number: Option<Number>)
    ensures
        number == some_quotient(value),
{
    match value {
        Some(given) => Some(ratio(given)),
        None => None,
    }
}

/// What a file's headers say, as it is replied.
pub fn info(metadata: RawMetadata) -> (info: FileInfo)
    ensures
        info.decoder == Decoder::Raw,
        info.raw,
        info.make == metadata.make,
        info.model == metadata.model,
        info.orientation == exif_orientation(metadata.orientation),
        info.orientation <= 8,
        info.exif.iso == (match (metadata.iso_speed, metadata.iso_speed_ratings) {
            (Some(speed), _) => Some(speed),
            (None, Some(rating)) => Some(rating as u32),
            (None, None) => None,
        }),
        info.exif.exposure_time == (match metadata.exposure_time {
            Some(time) => Some((time.n, time.d)),
            None => None,
        }),
        info.exif.f_number == some_quotient(metadata.fnumber),
        info.exif.focal_length == some_quotient(metadata.focal_length),
        info.exif.lens_model == metadata.lens_model,
        info.exif.date_time_original == metadata.date_time_original,
{
    FileInfo {
        decoder: Decoder::Raw,
        raw: true,
        make: metadata.make,
        model: metadata.model,
        orientation: crate::message::orientation(metadata.orientation),
        exif: Exif {
            iso: match (metadata.iso_speed, metadata.iso_speed_ratings) {
                (Some(speed), _) => Some(speed),
                (None, Some(rating)) => Some(rating as u32),
                (None, None) => None,
            },
            exposure_time: match metadata.exposure_time {
                Some(time) => Some((time.n, time.d)),
                None => None,
            },
            f_number: some_ratio(metadata.fnumber),
            focal_length: some_ratio(metadata.focal_length),
            lens_model: metadata.lens_model,
            date_time_original: metadata.date_time_original,
        },
    }
}

/// A rectangle of an image.
#[derive(Debug, Clone, Copy, PartialEq, Eq, Structural)]
pub struct Rect {
    pub x: usize,
    pub y: usize,
    pub width: usize,
    pub height: usize,
}

/// What an image's samples measure.
pub enum Photometric {
    /// A mosaic behind a colour filter of the given pattern.
    Cfa(String),
    /// Anything else, such as linear RGB.
    Other,
}

/// Samples of an image. Floating-point ones are given by their bit patterns.
pub enum RawImageData<'a> {
    Integer(&'a [u16]),
    Float(&'a [u32]),
}

impl<'a> RawImageData<'a> {
    /// Kind of the samples.
    pub open spec fn sample(self) -> Sample {
        match self {
            RawImageData::Integer(_) => Sample::U16,
            RawImageData::Float(_) => Sample::F32,
        }
    }

    /// The samples, as numbers.
    pub open spec fn values(self) -> Seq<nat> {
        match self {
            RawImageData::Integer(samples) => samples@.map_values(|sample: u16| sample as nat),
            RawImageData::Float(samples) => samples@.map_values(|sample: u32| sample as nat),
        }
    }

    /// Bytes that the samples occupy.
    pub open spec fn size(self) -> nat {
        self.values().len() * self.sample().size()
    }
}

/// What the raw decoder reads of a file's sensor data.
pub struct RawImage<'a> {
    pub width: usize,
    pub height: usize,
    /// Components per pixel.
    pub cpp: usize,
    /// Bits per sample.
    pub bps: usize,
    /// White balance multipliers, by their bit patterns.
    pub wb_coeffs: [u32; 4],
    pub blacklevel: Vec<Rational>,
    pub whitelevel: Vec<u32>,
    /// Matrices by illuminant, their values by their bit patterns.
    pub color_matrix: Vec<(u16, Vec<u32>)>,
    pub active_area: Option<Rect>,
    pub crop_area: Option<Rect>,
    pub photometric: Photometric,
    /// EXIF orientation, 0 where the decoder knows none.
    pub orientation: u16,
    pub data: RawImageData<'a>,
}

/// The low 32 bits of a number.
pub open spec fn low32(value: usize) -> u32 {
    (value as int % 0x1_0000_0000) as u32
}

/// The low 8 bits of a number.
pub open spec fn low8(value: usize) -> u8 {
    (value as int % 0x100) as u8
}

pub(crate) fn truncate32(value: usize) -> (low: u32)
    ensures
        low == low32(value),
{
    let wide = value as u64;
    (wide % 0x1_0000_0000) as u32
}

fn truncate8(value: usize) -> (low: u8)
    ensures
        low == low8(value),
{
    (value % 0x100) as u8
}

/// A rectangle as it is replied: `[x, y, width, height]`.
pub open spec fn corners(rect: Rect) -> Seq<u32> {
    seq![low32(rect.x), low32(rect.y), low32(rect.width), low32(rect.height)]
}

fn area(rect: &Option<Rect>) -> (area: Option<[u32; 4]>)
    ensures
        area is Some <==> rect is Some,
        area matches Some(given) ==> given@ == corners(rect->0),
{
    match rect {
        None => None,
        Some(rect) => {
            let area = [
                truncate32(rect.x),
                truncate32(rect.y),
                truncate32(rect.width),
                truncate32(rect.height),
            ];
            assert(area@ =~= corners(*rect));
            Some(area)
        },
    }
}

/// Numbers given by their bit patterns.
pub open spec fn from_bits(bits: Seq<u32>) -> Seq<Number> {
    bits.map_values(|pattern: u32| Number::Bits(pattern))
}

fn numbers(bits: &Vec<u32>) -> (numbers: Vec<Number>)
    ensures
        numbers@ == from_bits(bits@),
{
    let mut numbers: Vec<Number> = Vec::new();
    for i in 0..bits.len()
        invariant
            numbers@ == from_bits(bits@.take(i as int)),
    {
        numbers.push(Number::Bits(bits[i]));
        assert(numbers@ =~= from_bits(bits@.take(i + 1)));
    }
    assert(bits@.take(bits.len() as int) =~= bits@);
    numbers
}

fn quotients(levels: &Vec<Rational>) -> (numbers: Vec<Number>)
    ensures
        numbers@ == levels@.map_values(|level: Rational| quotient(level)),
{
    let mut numbers: Vec<Number> = Vec::new();
    for i in 0..levels.len()
        invariant
            numbers@ == levels@.take(i as int).map_values(|level: Rational| quotient(level)),
    {
        numbers.push(ratio(levels[i]));
        assert(numbers@ =~= levels@.take(i + 1).map_values(|level: Rational| quotient(level)));
    }
    assert(levels@.take(levels.len() as int) =~= levels@);
    numbers
}

/// A whole number.
pub open spec fn whole(value: u32) -> Number {
    Number::Quotient(Rational { n: value, d: 1 })
}

fn wholes(levels: &Vec<u32>) -> (numbers: Vec<Number>)
    ensures
        numbers@ == levels@.map_values(|level: u32| whole(level)),
{
    let mut numbers: Vec<Number> = Vec::new();
    for i in 0..levels.len()
        invariant
            numbers@ == levels@.take(i as int).map_values(|level: u32| whole(level)),
    {
        numbers.push(Number::Quotient(Rational { n: levels[i], d: 1 }));
        assert(numbers@ =~= levels@.take(i + 1).map_values(|level: u32| whole(level)));
    }
    assert(levels@.take(levels.len() as int) =~= levels@);
    numbers
}

/// Whether matrices are replied as they were read, in the same order.
pub open spec fn same_matrices(read: Seq<(u16, Vec<u32>)>, replied: Seq<ColorMatrix>) -> bool {
    &&& replied.len() == read.len()
    &&& forall|i: int|
        0 <= i < read.len() ==> {
            &&& (#[trigger] replied[i]).illuminant == read[i].0
            &&& replied[i].values@ == from_bits(read[i].1@)
        }
}

fn matrices(read: &Vec<(u16, Vec<u32>)>) -> (replied: Vec<ColorMatrix>)
    ensures
        same_matrices(read@, replied@),
{
    let mut replied: Vec<ColorMatrix> = Vec::new();
    for i in 0..read.len()
        invariant
            same_matrices(read@.take(i as int), replied@),
    {
        let ghost before = replied@;
        replied.push(ColorMatrix { illuminant: read[i].0, values: numbers(&read[i].1) });
        assert forall|j: int| 0 <= j < i + 1 implies {
            &&& (#[trigger] replied@[j]).illuminant == read@.take(i + 1)[j].0
            &&& replied@[j].values@ == from_bits(read@.take(i + 1)[j].1@)
        } by {
            if j < i {
                assert(replied@[j] == before[j]);
                assert(read@.take(i as int)[j] == read@[j]);
            }
        }
    }
    assert(read@.take(read.len() as int) =~= read@);
    replied
}

/// Whether the engine is told what the raw decoder read.
pub open spec fn describes<'a>(info: SensorInfo, image: RawImage<'a>) -> bool {
    &&& info.origin == PixelOrigin::Sensor
    &&& info.scale == Number::Bits(ONE)
    &&& info.bits_per_sample == low8(image.bps)
    &&& info.cfa@ == match image.photometric {
        Photometric::Cfa(name) => name@,
        Photometric::Other => Seq::empty(),
    }
    &&& info.white_balance@ == from_bits(image.wb_coeffs@)
    &&& info.black_levels@ == image.blacklevel@.map_values(|level: Rational| quotient(level))
    &&& info.white_levels@ == image.whitelevel@.map_values(|level: u32| whole(level))
    &&& same_matrices(image.color_matrix@, info.color_matrices@)
    &&& info.active_area is Some <==> image.active_area is Some
    &&& info.active_area matches Some(area) ==> area@ == corners(image.active_area->0)
    &&& info.crop_area is Some <==> image.crop_area is Some
    &&& info.crop_area matches Some(area) ==> area@ == corners(image.crop_area->0)
    &&& info.orientation == exif_orientation(Some(image.orientation))
}

/// What the engine needs to develop the samples.
pub fn describe<'a>(image: &RawImage<'a>) -> (info: SensorInfo)
    ensures
        describes(info, *image),
        info.orientation <= 8,
{
    let white_balance = [
        Number::Bits(image.wb_coeffs[0]),
        Number::Bits(image.wb_coeffs[1]),
        Number::Bits(image.wb_coeffs[2]),
        Number::Bits(image.wb_coeffs[3]),
    ];
    assert(white_balance@ =~= from_bits(image.wb_coeffs@));
    SensorInfo {
        origin: PixelOrigin::Sensor,
        scale: Number::Bits(ONE),
        bits_per_sample: truncate8(image.bps),
        cfa: match &image.photometric {
            Photometric::Cfa(name) => name.clone(),
            Photometric::Other => String::new(),
        },
        white_balance,
        black_levels: quotients(&image.blacklevel),
        white_levels: wholes(&image.whitelevel),
        color_matrices: matrices(&image.color_matrix),
        active_area: area(&image.active_area),
        crop_area: area(&image.crop_area),
        orientation: crate::message::orientation(Some(image.orientation)),
    }
}

/// Byte `index` of a number, the least significant being byte 0.
pub open spec fn byte_of(value: nat, index: int) -> u8 {
    if index == 0 {
        (value % 0x100) as u8
    } else if index == 1 {
        (value / 0x100 % 0x100) as u8
    } else if index == 2 {
        (value / 0x1_0000 % 0x100) as u8
    } else {
        (value / 0x100_0000 % 0x100) as u8
    }
}

/// Numbers of `size` bytes each as they lie in memory, on a machine that stores the least
/// significant byte first or last.
pub open spec fn in_memory(values: Seq<nat>, size: nat, little_endian: bool) -> Seq<u8> {
    Seq::new(
        values.len() * size,
        |i: int|
            byte_of(
                values[i / size as int],
                if little_endian {
                    i % size as int
                } else {
                    size - 1 - i % size as int
                },
            ),
    )
}

/// Whether bytes are how numbers lie in this machine's memory.
pub open spec fn lies_as(bytes: Seq<u8>, values: Seq<nat>, size: nat) -> bool {
    ||| bytes == in_memory(values, size, true)
    ||| bytes == in_memory(values, size, false)
}

/// The bytes of 16-bit samples: `bytemuck::cast_slice`, which gives the same memory as a slice of
/// bytes. It is taken to return two bytes for each sample, in the samples' order, the bytes of
/// every sample in the machine's one byte order; which order that is, is not stated.
#[verifier::external_body]
fn u16_bytes<'a>(samples: &'a [u16]) -> (bytes: &'a [u8])
    ensures
        lies_as(bytes@, samples@.map_values(|sample: u16| sample as nat), 2),
{
    bytemuck::cast_slice(samples)
}

/// The bytes of 32-bit samples: `bytemuck::cast_slice`, as for 16-bit ones, with four bytes for
/// each sample.
#[verifier::external_body]
fn u32_bytes<'a>(samples: &'a [u32]) -> (bytes: &'a [u8])
    ensures
        lies_as(bytes@, samples@.map_values(|sample: u32| sample as nat), 4),
{
    bytemuck::cast_slice(samples)
}

/// How the samples of an image are laid out, should there be as many as its dimensions say.
pub open spec fn layout_of<'a>(image: RawImage<'a>) -> SensorLayout {
    SensorLayout {
        width: low32(image.width),
        height: low32(image.height),
        components: low8(image.cpp),
        sample: image.data.sample(),
    }
}

/// The samples of an image, as they are replied: their layout, what the engine needs to develop
/// them, the shared buffer to create for them and the bytes to fill it with. Refused where there
/// are not as many samples as the dimensions say.
pub fn sensor<'a>(image: &RawImage<'a>, process: u32, serial: u32) -> (sensor: Result<
    (SensorLayout, SensorInfo, SharedBuffer, &'a [u8]),
    String,
>)
    requires
        image.data.size() <= isize::MAX,
    ensures
        ({
            let layout = layout_of(*image);
            let size = image.data.size();
            if layout.size() != size {
                fails_with(sensor, "sample count does not match the image size"@)
            } else if size == 0 {
                fails_with(sensor, "empty shared buffer"@)
            } else {
                &&& sensor matches Ok((found, info, buffer, bytes))
                &&& found == layout
                &&& found.width == image.width as int % 0x1_0000_0000
                &&& found.height == image.height as int % 0x1_0000_0000
                &&& found.components == image.cpp as int % 0x100
                &&& describes(info, *image)
                &&& buffer.name@ == object_name(process, serial)
                &&& buffer.object == page_multiple(size)
                &&& buffer.map == size
                &&& holds(buffer, Picture::Sensor(found, Box::new(info)))
                &&& lies_as(bytes@, image.data.values(), image.data.sample().size())
                &&& bytes@.len() == size
            }
        }),
{
    let (sample, bytes) = match &image.data {
        RawImageData::Integer(samples) => (Sample::U16, u16_bytes(samples)),
        RawImageData::Float(samples) => (Sample::F32, u32_bytes(samples)),
    };
    let layout = SensorLayout {
        width: truncate32(image.width),
        height: truncate32(image.height),
        components: truncate8(image.cpp),
        sample,
    };
    match layout.checked_bytes() {
        Some(size) if size == bytes.len() => {
            proof {
                crate::shm::lemma_page_multiple(size as nat);
            }
            match SharedBuffer::create(size, process, serial) {
                Ok(buffer) => Ok((layout, describe(image), buffer, bytes)),
                Err(error) => Err(error),
            }
        },
        _ => Err("sample count does not match the image size".to_owned()),
    }
}

/// An image embedded in a raw file, and its size.
#[derive(Debug)]
pub struct Candidate<P> {
    pub image: P,
    pub width: u32,
    pub height: u32,
}

impl<P> Candidate<P> {
    /// Pixels of the image.
    pub open spec fn pixels(self) -> nat {
        (self.width * self.height) as nat
    }
}

/// The larger of two images, where there are any; the first of two equally large ones.
pub open spec fn larger<P>(first: Option<Candidate<P>>, second: Option<Candidate<P>>) -> Option<
    Candidate<P>,
> {
    match (first, second) {
        (Some(a), Some(b)) => if a.pixels() >= b.pixels() {
            first
        } else {
            second
        },
        (Some(_), None) => first,
        (None, _) => second,
    }
}

fn larger_of<P>(first: Option<Candidate<P>>, second: Option<Candidate<P>>) -> (chosen: Option<
    Candidate<P>,
>)
    ensures
        chosen == larger(first, second),
{
    match (first, second) {
        (Some(a), Some(b)) => {
            assert(a.width * a.height <= u32::MAX * u32::MAX) by (nonlinear_arith)
                requires
                    a.width <= u32::MAX,
                    a.height <= u32::MAX,
            ;
            assert(b.width * b.height <= u32::MAX * u32::MAX) by (nonlinear_arith)
                requires
                    b.width <= u32::MAX,
                    b.height <= u32::MAX,
            ;
            if a.width as u64 * a.height as u64 >= b.width as u64 * b.height as u64 {
                Some(a)
            } else {
                Some(b)
            }
        },
        (Some(a), None) => Some(a),
        (None, second) => second,
    }
}

/// The largest of the images embedded in a raw file; of equally large ones the preview comes before
/// the full image, and that before the thumbnail.
pub fn largest<P>(
    preview: Option<Candidate<P>>,
    full: Option<Candidate<P>>,
    thumbnail: Option<Candidate<P>>,
) -> (chosen: Result<Candidate<P>, String>)
    ensures
        preview is None && full is None && thumbnail is None ==> fails_with(
            chosen,
            "no embedded preview"@,
        ),
        preview is Some || full is Some || thumbnail is Some ==> (chosen matches Ok(found) && (preview
            == Some(found) || full == Some(found) || thumbnail == Some(found))),
        chosen matches Ok(found) ==> {
            &&& larger(larger(preview, full), thumbnail) == Some(found)
            &&& preview matches Some(p) ==> p.width * p.height <= found.width * found.height
            &&& full matches Some(f) ==> f.width * f.height <= found.width * found.height
            &&& thumbnail matches Some(t) ==> t.width * t.height <= found.width * found.height
        },
{
    match larger_of(larger_of(preview, full), thumbnail) {
        Some(found) => Ok(found),
        None => Err("no embedded preview".to_owned()),
    }
}

/// The image that was found, if any: none, where looking for it made the decoder panic.
pub open spec fn found_in<P>(looked: Result<Option<Candidate<P>>, String>) -> Option<Candidate<P>> {
    match looked {
        Ok(found) => found,
        Err(_) => None,
    }
}

/// The first reason why the decoder panicked, if it did.
pub open spec fn first_panic<P>(
    preview: Result<Option<Candidate<P>>, String>,
    full: Result<Option<Candidate<P>>, String>,
    thumbnail: Result<Option<Candidate<P>>, String>,
) -> Option<Seq<char>> {
    match (preview, full, thumbnail) {
        (Err(error), _, _) => Some(error@),
        (_, Err(error), _) => Some(error@),
        (_, _, Err(error)) => Some(error@),
        _ => None,
    }
}

/// The embedded image to reply, from what looking for each came to, an error standing for a panic
/// of the decoder: the largest one found. A panic costs only the image that was looked for; it is
/// the answer where no image is left.
pub fn embedded<P>(
    preview: Result<Option<Candidate<P>>, String>,
    full: Result<Option<Candidate<P>>, String>,
    thumbnail: Result<Option<Candidate<P>>, String>,
) -> (chosen: Result<Candidate<P>, String>)
    ensures
        match larger(larger(found_in(preview), found_in(full)), found_in(thumbnail)) {
            Some(found) => chosen == Ok::<Candidate<P>, String>(found),
            None => fails_with(
                chosen,
                match first_panic(preview, full, thumbnail) {
                    Some(error) => error,
                    None => "no embedded preview"@,
                },
            ),
        },
{
    match (preview, full, thumbnail) {
        (Ok(preview), Ok(full), Ok(thumbnail)) => largest(preview, full, thumbnail),
        (Err(error), full, thumbnail) => or_panic(
            larger_of(found(full), found(thumbnail)),
            error,
        ),
        (Ok(preview), Err(error), thumbnail) => or_panic(
            larger_of(preview, found(thumbnail)),
            error,
        ),
        (Ok(preview), Ok(full), Err(error)) => or_panic(larger_of(preview, full), error),
    }
}

fn found<P>(looked: Result<Option<Candidate<P>>, String>) -> (found: Option<Candidate<P>>)
    ensures
        found == found_in(looked),
{
    match looked {
        Ok(found) => found,
        Err(_) => None,
    }
}

fn or_panic<P>(chosen: Option<Candidate<P>>, error: String) -> (result: Result<Candidate<P>, String>)
    ensures
        match chosen {
            Some(found) => result == Ok::<Candidate<P>, String>(found),
            None => result == Err::<Candidate<P>, String>(error),
        },
{
    match chosen {
        Some(found) => Ok(found),
        None => Err(error),
    }
}

/// An embedded image decoded to RGBA8, as it is replied: its layout and the shared buffer to
/// create for its pixels.
pub fn preview(width: u32, height: u32, pixels: &[u8], process: u32, serial: u32) -> (preview: Result<
    (ImageLayout, SharedBuffer),
    String,
>)
    requires
        pixels@.len() == width * height * 4,
        pixels@.len() <= isize::MAX,
    ensures
        pixels@.len() == 0 ==> fails_with(preview, "empty shared buffer"@),
        pixels@.len() > 0 ==> (preview matches Ok((layout, buffer)) && {
            &&& layout == (ImageLayout { width, height, color_space: PreviewSpace::Srgb })
            &&& layout.size() == pixels@.len()
            &&& buffer.name@ == object_name(process, serial)
            &&& buffer.object == page_multiple(pixels@.len())
            &&& buffer.map == pixels@.len()
            &&& holds(buffer, Picture::Preview(layout))
        }),
{
    let layout = ImageLayout { width, height, color_space: PreviewSpace::Srgb };
    proof {
        crate::shm::lemma_page_multiple(layout.size());
    }
    match SharedBuffer::create(layout.bytes(), process, serial) {
        Ok(buffer) => Ok((layout, buffer)),
        Err(error) => Err(error),
    }
}

/// Every number that the engine is told is defined, whatever a file divides by.
pub proof fn lemma_described_numbers_are_defined<'a>(info: SensorInfo, image: RawImage<'a>)
    requires
        describes(info, image),
    ensures
        info.scale.wf(),
        forall|i: int| 0 <= i < 4 ==> (#[trigger] info.white_balance@[i]).wf(),
        forall|i: int| 0 <= i < info.black_levels@.len() ==> (#[trigger] info.black_levels@[i]).wf(),
        forall|i: int| 0 <= i < info.white_levels@.len() ==> (#[trigger] info.white_levels@[i]).wf(),
        forall|i: int, j: int|
            0 <= i < info.color_matrices@.len() && 0 <= j < info.color_matrices@[i].values@.len()
                ==> (#[trigger] info.color_matrices@[i].values@[j]).wf(),
{
}

} // verus!
