//! Messages between LightLoft and its raw decoding helper.
//!
//! Pixels never travel in a message: they come back in shared memory, and a message only says how
//! they are laid out there.

use vstd::prelude::*;

verus! {

/// Bumped on any incompatible change; both sides check it with `Hello`.
pub const PROTOCOL_VERSION: u32 = 1;

/// Upper bound on a control message: a peer can never make the other allocate more.
pub const MAX_MESSAGE_BYTES: usize = 1024 * 1024;

/// What the application asks of the helper.
#[derive(Debug)]
pub enum Request {
    Hello { version: u32 },
    /// The file's descriptor is attached. The extension, where the file has one, helps the system
    /// decoder tell raw formats apart.
    Open { id: u64, extension: Option<String> },
    /// Largest embedded preview, decoded to RGBA8.
    Preview { id: u64 },
    /// Sensor data (undemosaiced mosaic, or linear RGB for demosaiced DNGs).
    Sensor { id: u64 },
    Close { id: u64 },
    /// Asks whether the helper has confined itself.
    SandboxCheck,
}

/// What the helper answers.
#[derive(Debug)]
#[allow(inconsistent_fields)]
pub enum Reply {
    Hello { version: u32, decoder: String },
    /// Headers only: answered without decoding any pixel.
    Opened { id: u64, info: Box<FileInfo>, micros: u64 },
    /// Shared memory holding the pixels is attached.
    Preview { id: u64, image: ImageLayout, micros: u64 },
    /// Shared memory holding the samples is attached.
    Sensor { id: u64, sensor: SensorLayout, info: Box<SensorInfo>, micros: u64 },
    Closed { id: u64 },
    Failed { id: u64, error: String },
    Sandbox { confined: bool },
}

/// A reply with its texts as character sequences.
#[allow(inconsistent_fields)]
pub enum ReplyView {
    Hello { version: u32, decoder: Seq<char> },
    Opened { id: u64, info: FileInfo, micros: u64 },
    Preview { id: u64, image: ImageLayout, micros: u64 },
    Sensor { id: u64, sensor: SensorLayout, info: SensorInfo, micros: u64 },
    Closed { id: u64 },
    Failed { id: u64, error: Seq<char> },
    Sandbox { confined: bool },
}

impl View for Reply {
    type V = ReplyView;

    open spec fn view(&self) -> ReplyView {
        match *self {
            Reply::Hello { version, decoder } => ReplyView::Hello { version, decoder: decoder@ },
            Reply::Opened { id, info, micros } => ReplyView::Opened { id, info: *info, micros },
            Reply::Preview { id, image, micros } => ReplyView::Preview { id, image, micros },
            Reply::Sensor { id, sensor, info, micros } => {
                ReplyView::Sensor { id, sensor, info: *info, micros }
            },
            Reply::Closed { id } => ReplyView::Closed { id },
            Reply::Failed { id, error } => ReplyView::Failed { id, error: error@ },
            Reply::Sandbox { confined } => ReplyView::Sandbox { confined },
        }
    }
}

/// Which decoder recognised a file.
#[derive(Debug, Clone, Copy, PartialEq, Eq, Structural)]
pub enum Decoder {
    Raw,
    System,
}

/// Colour space of a preview's pixels.
#[derive(Debug, Clone, Copy, PartialEq, Eq, Structural)]
pub enum PreviewSpace {
    Srgb,
    DisplayP3,
}

/// Where the samples of a sensor reply come from.
#[derive(Debug, Clone, Copy, PartialEq, Eq, Structural)]
pub enum PixelOrigin {
    /// Straight from the sensor, as the camera wrote them.
    Sensor,
    /// Developed by the system: scene-linear RGBA, BT.2020 primaries.
    SystemLinearBt2020,
}

/// 8-bit RGBA pixels, rows packed (`width * 4` bytes per row).
#[derive(Debug, Clone, Copy, PartialEq, Eq, Structural)]
pub struct ImageLayout {
    pub width: u32,
    pub height: u32,
    pub color_space: PreviewSpace,
}

impl ImageLayout {
    /// Bytes that the pixels occupy, as an unbounded number.
    pub open spec fn size(self) -> nat {
        (self.width * self.height * 4) as nat
    }

    /// Bytes that the pixels occupy.
    pub fn bytes(&self) -> (bytes: usize)
        requires
            self.size() <= usize::MAX,
        ensures
            bytes == self.size(),
    {
        assert(self.width * self.height <= self.width * self.height * 4) by (nonlinear_arith);
        self.width as usize * self.height as usize * 4
    }

    /// Bytes that the pixels occupy, or `None` where that is beyond the address space: a layout
    /// that came from a peer may claim any dimensions.
    pub fn checked_bytes(&self) -> (bytes: Option<usize>)
        ensures
            self.size() <= usize::MAX ==> bytes == Some(self.size() as usize),
            self.size() > usize::MAX ==> bytes is None,
    {
        assert(self.width * self.height <= u32::MAX * u32::MAX) by (nonlinear_arith)
            requires
                self.width <= u32::MAX,
                self.height <= u32::MAX,
        ;
        let bytes: u128 = self.width as u128 * self.height as u128 * 4;
        if bytes <= usize::MAX as u128 {
            Some(bytes as usize)
        } else {
            None
        }
    }
}

/// Kind of a sample.
#[derive(Debug, Clone, Copy, PartialEq, Eq, Structural)]
pub enum Sample {
    U16,
    F32,
    /// Half-precision float, as the system develops.
    F16,
}

impl Sample {
    /// Bytes of one sample.
    pub open spec fn size(self) -> nat {
        match self {
            Sample::U16 => 2,
            Sample::F32 => 4,
            Sample::F16 => 2,
        }
    }

    fn bytes(self) -> (bytes: usize)
        ensures
            bytes == self.size(),
    {
        match self {
            Sample::U16 => 2,
            Sample::F32 => 4,
            Sample::F16 => 2,
        }
    }
}

/// Samples, rows packed: `width * height * components` values of `sample`.
#[derive(Debug, Clone, Copy, PartialEq, Eq, Structural)]
pub struct SensorLayout {
    pub width: u32,
    pub height: u32,
    /// 1 for a colour filter mosaic, 3 for linear RGB, 4 for RGBA developed by the system.
    pub components: u8,
    pub sample: Sample,
}

impl SensorLayout {
    /// Bytes that the samples occupy, as an unbounded number.
    pub open spec fn size(self) -> nat {
        (self.width * self.height * self.components * self.sample.size()) as nat
    }

    /// Bytes that the samples occupy.
    pub fn bytes(&self) -> (bytes: usize)
        requires
            self.width * self.height <= usize::MAX,
            self.size() <= usize::MAX,
        ensures
            bytes == self.size(),
    {
        let size = self.sample.bytes();
        let ghost values = self.width * self.height * self.components;
        assert(0 <= values <= values * size) by (nonlinear_arith)
            requires
                values == self.width * self.height * self.components,
                size >= 1,
        ;
        self.width as usize * self.height as usize * self.components as usize * size
    }

    /// Bytes that the samples occupy, or `None` where that is beyond the address space.
    pub fn checked_bytes(&self) -> (bytes: Option<usize>)
        ensures
            self.size() <= usize::MAX ==> bytes == Some(self.size() as usize),
            self.size() > usize::MAX ==> bytes is None,
    {
        let size = self.sample.bytes();
        assert(self.width * self.height <= u32::MAX * u32::MAX) by (nonlinear_arith)
            requires
                self.width <= u32::MAX,
                self.height <= u32::MAX,
        ;
        let pixels: u128 = self.width as u128 * self.height as u128;
        assert(pixels * self.components <= u32::MAX * u32::MAX * 255) by (nonlinear_arith)
            requires
                pixels <= u32::MAX * u32::MAX,
                self.components <= 255,
        ;
        let values: u128 = pixels * self.components as u128;
        assert(values * size <= u32::MAX * u32::MAX * 255 * 4) by (nonlinear_arith)
            requires
                values <= u32::MAX * u32::MAX * 255,
                size <= 4,
        ;
        let bytes: u128 = values * size as u128;
        if bytes <= usize::MAX as u128 {
            Some(bytes as usize)
        } else {
            None
        }
    }
}

/// A quotient of two integers, as EXIF and DNG write one.
#[derive(Debug, Clone, Copy, PartialEq, Eq, Structural)]
pub struct Rational {
    pub n: u32,
    pub d: u32,
}

/// A single-precision number that has not been rounded yet, or whose rounding is somebody else's:
/// either a quotient of integers, or the bit pattern of the number.
#[derive(Debug, Clone, Copy, PartialEq, Eq, Structural)]
pub enum Number {
    Bits(u32),
    Quotient(Rational),
}

impl Number {
    /// Whether the number is defined: no quotient divides by zero.
    pub open spec fn wf(self) -> bool {
        self matches Number::Quotient(r) ==> r.d != 0
    }
}

/// Bit pattern of the single-precision one.
pub const ONE: u32 = 0x3f80_0000;

/// Bit pattern of the single-precision NaN that stands for an absent number.
pub const ABSENT: u32 = 0x7fc0_0000;

/// The EXIF orientation that is replied when a file says `read`: a number from 1 to 8, 0 where the
/// file has none or holds anything else.
pub open spec fn exif_orientation(read: Option<u16>) -> u16 {
    match read {
        Some(orientation) => if 1 <= orientation <= 8 {
            orientation
        } else {
            0
        },
        None => 0,
    }
}

/// The EXIF orientation that is replied when a file says `read`.
pub fn orientation(read: Option<u16>) -> (orientation: u16)
    ensures
        orientation == exif_orientation(read),
        orientation <= 8,
{
    match read {
        Some(orientation) => if 1 <= orientation && orientation <= 8 {
            orientation
        } else {
            0
        },
        None => 0,
    }
}

/// What the information panel and the library need, read from the headers only.
#[derive(Debug, Clone)]
pub struct FileInfo {
    pub decoder: Decoder,
    /// Whether the file is in a raw format.
    pub raw: bool,
    pub make: String,
    pub model: String,
    /// EXIF orientation (1-8), 0 when absent.
    pub orientation: u16,
    pub exif: Exif,
}

/// What the engine needs to develop the sensor data.
#[derive(Debug, Clone)]
pub struct SensorInfo {
    pub origin: PixelOrigin,
    /// Size of the image relative to the file's, 1 unless the system had to reduce it.
    pub scale: Number,
    pub bits_per_sample: u8,
    /// Colour filter pattern, e.g. `RGGB` or a 6x6 X-Trans pattern; empty for linear RGB.
    pub cfa: String,
    /// As-shot white balance multipliers, RGBE order (NaN when absent).
    pub white_balance: [Number; 4],
    pub black_levels: Vec<Number>,
    pub white_levels: Vec<Number>,
    /// XYZ -> camera matrices by illuminant (EXIF light source code), row-major.
    pub color_matrices: Vec<ColorMatrix>,
    /// Usable area and recommended crop, as `[x, y, width, height]`.
    pub active_area: Option<[u32; 4]>,
    pub crop_area: Option<[u32; 4]>,
    /// EXIF orientation (1-8) as the decoder reads it, 0 when absent.
    pub orientation: u16,
}

#[derive(Debug, Clone)]
pub struct ColorMatrix {
    pub illuminant: u16,
    pub values: Vec<Number>,
}

#[derive(Debug, Clone)]
pub struct Exif {
    pub iso: Option<u32>,
    /// Exposure time as a fraction of a second.
    pub exposure_time: Option<(u32, u32)>,
    pub f_number: Option<Number>,
    pub focal_length: Option<Number>,
    pub lens_model: Option<String>,
    pub date_time_original: Option<String>,
}

impl Exif {
    /// Whether nothing is known.
    pub open spec fn is_blank(self) -> bool {
        &&& self.iso is None
        &&& self.exposure_time is None
        &&& self.f_number is None
        &&& self.focal_length is None
        &&& self.lens_model is None
        &&& self.date_time_original is None
    }
}

impl Default for Exif {
    /// Nothing known.
    fn default() -> (exif: Exif)
        ensures
            exif.is_blank(),
    {
        Exif {
            iso: None,
            exposure_time: None,
            f_number: None,
            focal_length: None,
            lens_model: None,
            date_time_original: None,
        }
    }
}

impl FileInfo {
    /// Whether nothing is known.
    pub open spec fn is_blank(self) -> bool {
        &&& self.decoder == Decoder::Raw
        &&& !self.raw
        &&& self.make@.len() == 0
        &&& self.model@.len() == 0
        &&& self.orientation == exif_orientation(None)
        &&& self.exif.is_blank()
    }
}

impl Default for FileInfo {
    /// Nothing known.
    fn default() -> (info: FileInfo)
        ensures
            info.is_blank(),
    {
        FileInfo {
            decoder: Decoder::Raw,
            raw: false,
            make: String::new(),
            model: String::new(),
            orientation: 0,
            exif: Exif::default(),
        }
    }
}

impl ColorMatrix {
    /// Whether nothing is known.
    pub open spec fn is_blank(self) -> bool {
        &&& self.illuminant == 0
        &&& self.values@.len() == 0
    }
}

impl Default for ColorMatrix {
    /// Nothing known.
    fn default() -> (matrix: ColorMatrix)
        ensures
            matrix.is_blank(),
    {
        ColorMatrix { illuminant: 0, values: Vec::new() }
    }
}

impl SensorInfo {
    /// Whether nothing is known: samples of a sensor, at their full size, and no white balance
    /// multipliers.
    pub open spec fn is_blank(self) -> bool {
        &&& self.origin == PixelOrigin::Sensor
        &&& self.scale == Number::Bits(ONE)
        &&& self.bits_per_sample == 0
        &&& self.cfa@.len() == 0
        &&& self.white_balance@ == Seq::new(4, |i: int| Number::Bits(ABSENT))
        &&& self.black_levels@.len() == 0
        &&& self.white_levels@.len() == 0
        &&& self.color_matrices@.len() == 0
        &&& self.active_area is None
        &&& self.crop_area is None
        &&& self.orientation == exif_orientation(None)
    }
}

impl Default for SensorInfo {
    /// Nothing known.
    fn default() -> (info: SensorInfo)
        ensures
            info.is_blank(),
    {
        let white_balance = [
            Number::Bits(ABSENT),
            Number::Bits(ABSENT),
            Number::Bits(ABSENT),
            Number::Bits(ABSENT),
        ];
        assert(white_balance@ =~= Seq::new(4, |i: int| Number::Bits(ABSENT)));
        SensorInfo {
            origin: PixelOrigin::Sensor,
            scale: Number::Bits(ONE),
            bits_per_sample: 0,
            cfa: String::new(),
            white_balance,
            black_levels: Vec::new(),
            white_levels: Vec::new(),
            color_matrices: Vec::new(),
            active_area: None,
            crop_area: None,
            orientation: 0,
        }
    }
}

} // verus!
