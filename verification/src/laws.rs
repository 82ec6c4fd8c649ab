//! What the operations are for, each stated over what goes into a call and what comes out of it.
//!
//! A law speaks of a result of the function itself (`call_ensures`), of its fields and of plain
//! arithmetic on them. What a whole request comes to is stated in [`conduct`](crate::conduct).

use vstd::prelude::*;

use crate::allocation::Capped;
use crate::channel::{Channel, ChannelError, Exit, Outgoing};
use crate::decode::{Candidate, Photometric, RawImage, RawImageData, RawMetadata, Rect};
use crate::message::{
    ColorMatrix, Decoder, Exif, FileInfo, ImageLayout, Number, PixelOrigin, PreviewSpace, Rational,
    Reply, ReplyView, Request, Sample, SensorInfo, SensorLayout,
};
use crate::session::{Action, ActionView, Event, OpenFile, Pending, Picture, Pixels, Session, State};
use crate::shm::{hex, SharedBuffer};
use crate::system::{Bitmap, Part, Properties};

verus! {

// ---------------------------------------------------------------------------------------------
// Numbers in texts.

/// What a digit stands for, negative where a character is none.
pub open spec fn digit_value(c: char) -> int {
    if '0' <= c <= '9' {
        c as int - '0' as int
    } else if 'a' <= c <= 'f' {
        c as int - 'a' as int + 10
    } else {
        -1
    }
}

/// The number that digits write, the most significant first.
pub open spec fn reading(text: Seq<char>, base: int) -> int
    decreases text.len(),
{
    if text.len() == 0 {
        0
    } else {
        reading(text.drop_last(), base) * base + digit_value(text.last())
    }
}

/// Whether a text writes a number: digits of the base only, none too many, that read back as it.
pub open spec fn writes(text: Seq<char>, base: int, value: int) -> bool {
    &&& text.len() > 0
    &&& forall|i: int| 0 <= i < text.len() ==> 0 <= digit_value(#[trigger] text[i]) < base
    &&& text.len() > 1 ==> text[0] != '0'
    &&& reading(text, base) == value
}

/// Hexadecimal writing reads back as the number that was written.
pub proof fn lemma_hex_reads_back(value: nat)
    ensures
        writes(hex(value), 16, value as int),
        value > 0 ==> hex(value)[0] != '0',
    decreases value,
{
    if value >= 16 {
        let (more, last) = (value / 16, value % 16);
        lemma_hex_reads_back(more);
        let text = hex(value);
        assert(text.drop_last() =~= hex(more));
        assert(text.last() == crate::shm::hex_digit(last));
        assert(digit_value(text.last()) == last);
        assert(reading(text, 16) == reading(hex(more), 16) * 16 + last);
        assert forall|i: int| 0 <= i < text.len() implies 0 <= digit_value(#[trigger] text[i]) < 16 by {
            if i < text.len() - 1 {
                assert(text[i] == hex(more)[i]);
            }
        }
        assert(text[0] == hex(more)[0]);
    } else {
        let text = hex(value);
        assert(text.drop_last() =~= Seq::<char>::empty());
        assert(reading(text.drop_last(), 16) == 0);
        assert(digit_value(text.last()) == value);
    }
}

/// Decimal writing reads back as the number that was written.
pub proof fn lemma_decimal_reads_back(value: nat)
    ensures
        writes(crate::descriptor::decimal(value), 10, value as int),
        value > 0 ==> crate::descriptor::decimal(value)[0] != '0',
    decreases value,
{
    let text = crate::descriptor::decimal(value);
    if value >= 10 {
        let (more, last) = (value / 10, value % 10);
        lemma_decimal_reads_back(more);
        let start = crate::descriptor::decimal(more);
        assert(text.drop_last() =~= start);
        assert(digit_value(text.last()) == last);
        assert(reading(text, 10) == reading(start, 10) * 10 + last);
        assert forall|i: int| 0 <= i < text.len() implies 0 <= digit_value(#[trigger] text[i]) < 10 by {
            if i < text.len() - 1 {
                assert(text[i] == start[i]);
            }
        }
        assert(text[0] == start[0]);
    } else {
        assert(text.drop_last() =~= Seq::<char>::empty());
        assert(reading(text.drop_last(), 10) == 0);
        assert(digit_value(text.last()) == value);
    }
}

/// A descriptor is opened through the path that names its number and nothing else.
pub proof fn lemma_descriptor_path_names_the_descriptor(fd: i32, path: String)
    requires
        fd >= 0,
        call_ensures(crate::descriptor::descriptor_path, (fd,), path),
    ensures
        path@.take(8) == "/dev/fd/"@,
        writes(path@.skip(8), 10, fd as int),
{
    reveal_strlit("/dev/fd/");
    lemma_decimal_reads_back(fd as nat);
    assert(path@.take(8) =~= "/dev/fd/"@);
    assert(path@.skip(8) =~= crate::descriptor::decimal(fd as nat));
}

// ---------------------------------------------------------------------------------------------
// Messages.

/// The pixels of an image are its rows, packed, four bytes each: every pixel lies within the bytes,
/// and the last ends with them.
pub proof fn lemma_image_rows_are_packed(layout: ImageLayout, bytes: usize, x: int, y: int)
    requires
        call_ensures(ImageLayout::bytes, (&layout,), bytes),
        0 <= x < layout.width,
        0 <= y < layout.height,
    ensures
        bytes == layout.width * layout.height * 4,
        0 <= (y * layout.width + x) * 4,
        (y * layout.width + x) * 4 + 4 <= bytes,
        x == layout.width - 1 && y == layout.height - 1 ==> (y * layout.width + x) * 4 + 4 == bytes,
{
    let (w, h) = (layout.width as int, layout.height as int);
    assert(0 <= y * w + x < w * h && (x == w - 1 && y == h - 1 ==> y * w + x + 1 == w * h))
        by (nonlinear_arith)
        requires
            0 <= x < w,
            0 <= y < h,
    ;
}

/// The same number of bytes is found where it fits the address space, and nothing where it does
/// not.
pub proof fn lemma_image_bytes(layout: ImageLayout, bytes: usize, checked: Option<usize>)
    requires
        call_ensures(ImageLayout::bytes, (&layout,), bytes),
        call_ensures(ImageLayout::checked_bytes, (&layout,), checked),
    ensures
        bytes == layout.width * layout.height * 4,
        layout.width * layout.height * 4 <= usize::MAX ==> checked == Some(bytes),
{
}

/// A claim of dimensions is taken exactly where its pixels fit the address space.
pub proof fn lemma_image_claims_are_checked(layout: ImageLayout, checked: Option<usize>)
    requires
        call_ensures(ImageLayout::checked_bytes, (&layout,), checked),
    ensures
        checked is None <==> layout.width * layout.height * 4 > usize::MAX,
        checked matches Some(bytes) ==> bytes == layout.width * layout.height * 4,
{
}

/// Samples take two bytes, or four where they are single-precision: each component of each pixel.
pub proof fn lemma_sensor_bytes(layout: SensorLayout, bytes: usize)
    requires
        call_ensures(SensorLayout::bytes, (&layout,), bytes),
    ensures
        layout.sample == Sample::U16 ==> bytes == layout.width * layout.height * layout.components * 2,
        layout.sample == Sample::F16 ==> bytes == layout.width * layout.height * layout.components * 2,
        layout.sample == Sample::F32 ==> bytes == layout.width * layout.height * layout.components * 4,
{
}

/// A claim of dimensions is taken exactly where its samples fit the address space.
pub proof fn lemma_sensor_claims_are_checked(layout: SensorLayout, checked: Option<usize>)
    requires
        call_ensures(SensorLayout::checked_bytes, (&layout,), checked),
    ensures
        ({
            let values = layout.width * layout.height * layout.components;
            let bytes = if layout.sample == Sample::F32 {
                values * 4
            } else {
                values * 2
            };
            &&& checked is None <==> bytes > usize::MAX
            &&& checked matches Some(found) ==> found == bytes
        }),
{
}

/// An orientation that EXIF knows is replied as it was read, and nothing else is.
pub proof fn lemma_orientation(read: Option<u16>, replied: u16)
    requires
        call_ensures(crate::message::orientation, (read,), replied),
    ensures
        replied <= 8,
        replied != 0 ==> read == Some(replied),
        read matches Some(o) ==> (1 <= o <= 8 ==> replied == o),
        read is None ==> replied == 0,
{
}

/// Where nothing is known, nothing is claimed.
pub proof fn lemma_blanks(exif: Exif, info: FileInfo, sensor: SensorInfo, matrix: ColorMatrix)
    requires
        call_ensures(Exif::default, (), exif),
        call_ensures(FileInfo::default, (), info),
        call_ensures(SensorInfo::default, (), sensor),
        call_ensures(ColorMatrix::default, (), matrix),
    ensures
        exif.iso is None && exif.exposure_time is None && exif.f_number is None,
        exif.focal_length is None && exif.lens_model is None && exif.date_time_original is None,
        info.decoder == Decoder::Raw && !info.raw && info.orientation == 0,
        info.make@.len() == 0 && info.model@.len() == 0,
        info.exif.iso is None && info.exif.exposure_time is None && info.exif.f_number is None,
        info.exif.focal_length is None && info.exif.lens_model is None,
        info.exif.date_time_original is None,
        sensor.origin == PixelOrigin::Sensor && sensor.scale == Number::Bits(0x3f80_0000),
        sensor.bits_per_sample == 0 && sensor.cfa@.len() == 0 && sensor.orientation == 0,
        forall|i: int| 0 <= i < 4 ==> #[trigger] sensor.white_balance@[i] == Number::Bits(0x7fc0_0000),
        sensor.black_levels@.len() == 0 && sensor.white_levels@.len() == 0,
        sensor.color_matrices@.len() == 0,
        sensor.active_area is None && sensor.crop_area is None,
        matrix.illuminant == 0 && matrix.values@.len() == 0,
{
}

/// What contracts see of a reply is the reply, every field of it.
pub proof fn lemma_reply_view(reply: Reply)
    ensures
        match reply {
            Reply::Hello { version, decoder } => reply@ == (ReplyView::Hello {
                version,
                decoder: decoder@,
            }),
            Reply::Opened { id, info, micros } => reply@ == (ReplyView::Opened {
                id,
                info: *info,
                micros,
            }),
            Reply::Preview { id, image, micros } => reply@ == (ReplyView::Preview {
                id,
                image,
                micros,
            }),
            Reply::Sensor { id, sensor, info, micros } => reply@ == (ReplyView::Sensor {
                id,
                sensor,
                info: *info,
                micros,
            }),
            Reply::Closed { id } => reply@ == (ReplyView::Closed { id }),
            Reply::Failed { id, error } => reply@ == (ReplyView::Failed { id, error: error@ }),
            Reply::Sandbox { confined } => reply@ == (ReplyView::Sandbox { confined }),
        },
{
}

/// What contracts see of an action is the action, every field of it.
pub proof fn lemma_action_view<D, B>(action: Action<D, B>)
    ensures
        match action {
            Action::MapFile(descriptor) => action@ == ActionView::<D, B>::MapFile(descriptor),
            Action::ReadHeaders => action@ == ActionView::<D, B>::ReadHeaders,
            Action::OpenSystem => action@ == ActionView::<D, B>::OpenSystem,
            Action::RawDecode(pixels) => action@ == ActionView::<D, B>::RawDecode(pixels),
            Action::SystemDecode(pixels) => action@ == ActionView::<D, B>::SystemDecode(pixels),
            Action::Answer { reply, buffer } => action@ == (ActionView::<D, B>::Answer {
                reply: reply@,
                buffer,
            }),
        },
{
}

// ---------------------------------------------------------------------------------------------
// Allocations and texts.

/// Exactly the allocations of up to 2 GiB are let through.
pub proof fn lemma_allocations_are_capped(cap: Capped, size: usize, admitted: bool)
    requires
        call_ensures(Capped::admits, (&cap, size), admitted),
    ensures
        admitted <==> size <= 2147483648,
{
}

/// Both reasons are told, the raw decoder's first; the system decoder's alone where the raw decoder
/// gave none.
pub proof fn lemma_reasons(raw_error: &str, system_error: &str, both: String, joined: String)
    requires
        call_ensures(crate::text::both, (raw_error, system_error), both),
        call_ensures(crate::text::join, (raw_error, system_error), joined),
    ensures
        both@ == raw_error@ + "; system: "@ + system_error@,
        raw_error@.len() > 0 ==> joined@ == raw_error@ + "; system: "@ + system_error@,
        raw_error@.len() == 0 ==> joined@ == system_error@,
{
}

/// A decoder's result is handed on as it is, and a panic becomes an error.
pub proof fn lemma_guarded<T>(outcome: Option<Result<T, String>>, result: Result<T, String>)
    requires
        call_ensures(crate::text::guarded::<T>, (outcome,), result),
    ensures
        outcome matches Some(given) ==> result == given,
        outcome is None ==> result is Err && result->Err_0@ == "decoder panicked"@,
{
}

// ---------------------------------------------------------------------------------------------
// Shared memory.

/// Whether a shared object is what `len` bytes need: a mapping of exactly those bytes, of the fewest
/// whole pages that hold them, under a name of its own.
pub open spec fn shares(buffer: SharedBuffer, len: int, process: u32, serial: u32) -> bool {
    &&& buffer.map == len
    &&& buffer.object % 16384 == 0
    &&& len <= buffer.object < len + 16384
    &&& buffer.name@.len() > 4
    &&& buffer.name@.take(4) == "/lfr"@
    &&& exists|dot: int|
        4 < dot < buffer.name@.len() && #[trigger] buffer.name@[dot] == '.' && writes(
            buffer.name@.subrange(4, dot),
            16,
            process as int,
        ) && writes(buffer.name@.skip(dot + 1), 16, serial as int)
}

proof fn lemma_shares(buffer: SharedBuffer, len: nat, process: u32, serial: u32)
    requires
        len > 0,
        buffer.map == len,
        buffer.object == crate::shm::page_multiple(len),
        buffer.name@ == crate::shm::object_name(process, serial),
    ensures
        shares(buffer, len as int, process, serial),
{
    reveal_strlit("/lfr");
    reveal_strlit(".");
    crate::shm::lemma_page_multiple(len);
    lemma_hex_reads_back(process as nat);
    lemma_hex_reads_back(serial as nat);
    let name = buffer.name@;
    let (p, s) = (hex(process as nat), hex(serial as nat));
    let dot = 4 + p.len() as int;
    assert(name.take(4) =~= "/lfr"@);
    assert(name[dot] == '.');
    assert(name.subrange(4, dot) =~= p);
    assert(name.skip(dot + 1) =~= s);
}

/// Rounding gives whole pages, and the fewest.
pub proof fn lemma_whole_pages(len: usize, rounded: usize)
    requires
        call_ensures(crate::shm::whole_pages, (len,), rounded),
    ensures
        rounded % 16384 == 0,
        len <= rounded < len + 16384,
{
    crate::shm::lemma_page_multiple(len as nat);
}

/// A buffer is created for any number of bytes but none, and is then what they need.
pub proof fn lemma_created_buffer(
    len: usize,
    process: u32,
    serial: u32,
    buffer: Result<SharedBuffer, String>,
)
    requires
        call_ensures(SharedBuffer::create, (len, process, serial), buffer),
    ensures
        buffer is Ok <==> len > 0,
        buffer matches Ok(shared) ==> shares(shared, len as int, process, serial),
        buffer matches Err(error) ==> error@ == "empty shared buffer"@,
{
    if len > 0 {
        lemma_shares(buffer->Ok_0, len as nat, process, serial);
    }
}

/// What is mapped of a received object holds the announced bytes, lies within the object, and is
/// whole pages wherever any whole pages would do; an object smaller than announced is refused, and
/// so is the announcement of nothing.
pub proof fn lemma_received_buffer(size: u64, len: usize, mapped: Result<usize, String>, pages: nat)
    requires
        call_ensures(crate::shm::map_received, (size, len), mapped),
    ensures
        mapped is Ok <==> 0 < len <= size,
        mapped matches Ok(bytes) ==> {
            &&& len <= bytes <= size
            &&& bytes < len + 16384
            &&& bytes == len || bytes % 16384 == 0
            &&& len <= pages * 16384 <= size && pages * 16384 <= usize::MAX ==> bytes % 16384 == 0
        },
        mapped matches Err(error) ==> error@ == "shared buffer smaller than announced"@,
{
    crate::shm::lemma_page_multiple(len as nat);
    if len <= pages * 16384 {
        assert(crate::shm::PAGE == 16384);
        crate::shm::lemma_page_multiple_least(len as nat, pages);
    }
}

/// What one side creates, the other maps in whole, given the same number of bytes.
pub proof fn lemma_created_buffer_is_received(
    len: usize,
    process: u32,
    serial: u32,
    shared: SharedBuffer,
    mapped: Result<usize, String>,
)
    requires
        len > 0,
        call_ensures(
            SharedBuffer::create,
            (len, process, serial),
            Ok::<SharedBuffer, String>(shared),
        ),
        call_ensures(crate::shm::map_received, (shared.object as u64, len), mapped),
    ensures
        mapped == Ok::<usize, String>(shared.object),
{
    crate::shm::lemma_page_multiple(len as nat);
}

// ---------------------------------------------------------------------------------------------
// Channel.

/// A message goes out as the length of its payload, four bytes with the least significant first,
/// followed by the payload; exactly those of up to 1 MiB do.
pub proof fn lemma_sent_frame<D>(
    channel: Channel<D>,
    payload: &[u8],
    outgoing: Result<Outgoing, ChannelError>,
)
    requires
        call_ensures(Channel::<D>::send, (&channel, payload), outgoing),
    ensures
        outgoing is Ok <==> payload@.len() <= 1048576,
        outgoing matches Ok(out) ==> {
            let f = out.frame();
            &&& f.len() == 4 + payload@.len()
            &&& f[0] + f[1] * 256 + f[2] * 65536 + f[3] * 16777216 == payload@.len()
            &&& f.skip(4) == payload@
            &&& out.sent() == 0
            &&& !out.started()
        },
        outgoing matches Err(error) ==> error == ChannelError::TooLarge,
{
    if let Ok(out) = outgoing {
        assert(out.frame().skip(4) =~= payload@);
    }
}

/// What is still to be written is the end of the frame, as much of it as has not gone.
pub proof fn lemma_remaining(outgoing: Outgoing, bytes: &[u8], done: bool, first: bool)
    requires
        outgoing.wf(),
        call_ensures(Outgoing::remaining, (&outgoing,), bytes),
        call_ensures(Outgoing::is_done, (&outgoing,), done),
        call_ensures(Outgoing::carries_descriptor, (&outgoing,), first),
    ensures
        bytes@ == outgoing.frame().subrange(
            outgoing.sent() as int,
            outgoing.frame().len() as int,
        ),
        first <==> !outgoing.started(),
        done <==> outgoing.started() && outgoing.sent() == outgoing.frame().len(),
{
    assert(bytes@ =~= outgoing.frame().subrange(
        outgoing.sent() as int,
        outgoing.frame().len() as int,
    ));
}

/// The header is wanted first, then the payload whose length it says, and never more.
pub proof fn lemma_wanted<D>(channel: Channel<D>, count: usize, first: bool)
    requires
        call_ensures(Channel::<D>::wanted, (&channel,), count),
        call_ensures(Channel::<D>::takes_descriptors, (&channel,), first),
    ensures
        ({
            let b = channel.received();
            &&& b.len() < 4 ==> count == 4 - b.len()
            &&& b.len() >= 4 ==> count + b.len() == 4 + b[0] + b[1] * 256 + b[2] * 65536 + b[3]
                * 16777216
            &&& 0 < count <= 1048576
            &&& first <==> b.len() == 0
        }),
{
}

/// What a read brings is added to what has arrived. A frame that is whole is handed out, its payload
/// and the first descriptor of those that came with its first bytes; the end of the stream is told,
/// and so is a payload that is too long; after either, and after a message, nothing has arrived.
pub proof fn lemma_received<D>(
    channel: &mut Channel<D>,
    chunk: &[u8],
    descriptors: Vec<D>,
    message: Result<Option<(Vec<u8>, Option<D>)>, ChannelError>,
)
    requires
        chunk@.len() > 0 && old(channel).received().len() + chunk@.len() >= 4 ==> {
            let b = old(channel).received() + chunk@;
            b.len() <= 4 + b[0] + b[1] * 256 + b[2] * 65536 + b[3] * 16777216
        },
        call_ensures(Channel::<D>::recv, (channel, chunk, descriptors), message),
    ensures
        ({
            let before = old(channel).received();
            let b = before + chunk@;
            let length = b[0] + b[1] * 256 + b[2] * 65536 + b[3] * 16777216;
            let first = if before.len() > 0 {
                old(channel).descriptor()
            } else if descriptors@.len() > 0 {
                Some(descriptors@[0])
            } else {
                None
            };
            &&& chunk@.len() == 0 ==> message is Err && message->Err_0 == (if before.len() == 0 {
                ChannelError::Closed
            } else {
                ChannelError::Truncated
            })
            &&& chunk@.len() > 0 && b.len() >= 4 && length > 1048576 ==> message is Err
                && message->Err_0 == ChannelError::TooLarge
            &&& message is Err ==> final(channel).received().len() == 0
            &&& chunk@.len() > 0 && (b.len() < 4 || length <= 1048576 && b.len() < 4 + length) ==> {
                &&& message is Ok && message->Ok_0 is None
                &&& final(channel).received() == b
                &&& final(channel).descriptor() == first
            }
            &&& chunk@.len() > 0 && b.len() >= 4 && length <= 1048576 && b.len() == 4 + length ==> {
                &&& message matches Ok(Some((payload, descriptor)))
                &&& payload@ == b.skip(4)
                &&& descriptor == first
                &&& final(channel).received().len() == 0
            }
            &&& final(channel).received().len() == 0 ==> final(channel).descriptor() is None
            &&& final(channel).wf()
        }),
{
    crate::channel::lemma_arrivals(old(channel).received(), chunk@);
    crate::channel::lemma_kept_descriptor(
        old(channel).received(),
        old(channel).descriptor(),
        descriptors@,
    );
}

/// What was written is not written again: the frame stays, and so many more of its bytes have gone.
pub proof fn lemma_wrote(outgoing: &mut Outgoing, count: usize)
    requires
        call_ensures(Outgoing::wrote, (outgoing, count), ()),
    ensures
        final(outgoing).frame() == old(outgoing).frame(),
        final(outgoing).sent() == old(outgoing).sent() + count,
        final(outgoing).started(),
{
}

/// The end of the stream is a normal shutdown, a message that is too long is not; each error has a
/// text of its own.
pub proof fn lemma_channel_errors(error: ChannelError, text: &'static str, exit: Exit)
    requires
        call_ensures(ChannelError::message, (error,), text),
        call_ensures(ChannelError::exit, (error,), exit),
    ensures
        error == ChannelError::Closed ==> exit == Exit::Success && text@ == "peer closed the channel"@,
        error == ChannelError::Truncated ==> exit == Exit::Success && text@
            == "failed to fill whole buffer"@,
        error == ChannelError::TooLarge ==> exit == Exit::Failure && text@ == "message too large"@,
{
}

// ---------------------------------------------------------------------------------------------
// Raw decoder.

/// A replied number is the quotient that was read, in the same terms; it is zero only where that is
/// zero, or divides by zero.
pub proof fn lemma_ratio(value: Rational, number: Number)
    requires
        call_ensures(crate::decode::ratio, (value,), number),
    ensures
        number matches Number::Quotient(r) && {
            &&& r.d != 0
            &&& value.d != 0 ==> r == value && r.n * value.d == value.n * r.d
            &&& value.d == 0 ==> r.n == 0
            &&& r.n == 0 ==> value.n == 0 || value.d == 0
        },
{
}

/// What the headers say is replied as it was read: texts and times as they stand, quotients as
/// numbers, the speed before the ratings.
pub proof fn lemma_info(metadata: RawMetadata, info: FileInfo)
    requires
        call_ensures(crate::decode::info, (metadata,), info),
    ensures
        info.decoder == Decoder::Raw && info.raw,
        info.make == metadata.make && info.model == metadata.model,
        metadata.orientation matches Some(o) ==> (1 <= o <= 8 ==> info.orientation == o),
        info.orientation != 0 ==> metadata.orientation == Some(info.orientation),
        info.orientation <= 8,
        metadata.iso_speed is Some ==> info.exif.iso == metadata.iso_speed,
        metadata.iso_speed is None && metadata.iso_speed_ratings is Some ==> info.exif.iso is Some
            && info.exif.iso->0 == metadata.iso_speed_ratings->0,
        metadata.iso_speed is None && metadata.iso_speed_ratings is None ==> info.exif.iso is None,
        info.exif.exposure_time is Some <==> metadata.exposure_time is Some,
        metadata.exposure_time matches Some(t) ==> info.exif.exposure_time->0 == (t.n, t.d),
        info.exif.f_number is Some <==> metadata.fnumber is Some,
        metadata.fnumber matches Some(q) ==> {
            &&& info.exif.f_number->0 matches Number::Quotient(r)
            &&& r.d != 0
            &&& q.d != 0 ==> r == q
            &&& q.d == 0 ==> r.n == 0
        },
        info.exif.focal_length is Some <==> metadata.focal_length is Some,
        metadata.focal_length matches Some(q) ==> {
            &&& info.exif.focal_length->0 matches Number::Quotient(r)
            &&& r.d != 0
            &&& q.d != 0 ==> r == q
            &&& q.d == 0 ==> r.n == 0
        },
        info.exif.lens_model == metadata.lens_model,
        info.exif.date_time_original == metadata.date_time_original,
{
}

/// Whether an area is replied as it was read, its numbers modulo 2^32.
pub open spec fn same_area(read: Option<Rect>, replied: Option<[u32; 4]>) -> bool {
    match read {
        None => replied is None,
        Some(rect) => {
            &&& replied matches Some(area)
            &&& area@.len() == 4
            &&& area@[0] == rect.x as int % 0x1_0000_0000
            &&& area@[1] == rect.y as int % 0x1_0000_0000
            &&& area@[2] == rect.width as int % 0x1_0000_0000
            &&& area@[3] == rect.height as int % 0x1_0000_0000
        },
    }
}

/// Whether the engine is told of an image each number of it where it was read.
pub open spec fn told<'a>(image: RawImage<'a>, info: SensorInfo) -> bool {
    &&& info.origin == PixelOrigin::Sensor
    &&& info.scale == Number::Bits(0x3f80_0000)
    &&& info.bits_per_sample == image.bps as int % 256
    &&& image.photometric matches Photometric::Cfa(name) ==> info.cfa@ == name@
    &&& image.photometric is Other ==> info.cfa@.len() == 0
    &&& forall|i: int|
        0 <= i < 4 ==> #[trigger] info.white_balance@[i] == Number::Bits(image.wb_coeffs@[i])
    &&& info.black_levels@.len() == image.blacklevel@.len()
    &&& forall|i: int|
        0 <= i < image.blacklevel@.len() ==> {
            &&& #[trigger] info.black_levels@[i] matches Number::Quotient(r)
            &&& r.d != 0
            &&& image.blacklevel@[i].d != 0 ==> r == image.blacklevel@[i]
            &&& image.blacklevel@[i].d == 0 ==> r.n == 0
        }
    &&& info.white_levels@.len() == image.whitelevel@.len()
    &&& forall|i: int|
        0 <= i < image.whitelevel@.len() ==> {
            &&& #[trigger] info.white_levels@[i] matches Number::Quotient(r)
            &&& r.n == image.whitelevel@[i]
            &&& r.d == 1
        }
    &&& info.color_matrices@.len() == image.color_matrix@.len()
    &&& forall|i: int|
        0 <= i < image.color_matrix@.len() ==> {
            &&& (#[trigger] info.color_matrices@[i]).illuminant == image.color_matrix@[i].0
            &&& info.color_matrices@[i].values@.len() == image.color_matrix@[i].1@.len()
        }
    &&& forall|i: int, j: int|
        0 <= i < image.color_matrix@.len() && 0 <= j < image.color_matrix@[i].1@.len()
            ==> #[trigger] info.color_matrices@[i].values@[j] == Number::Bits(
            image.color_matrix@[i].1@[j],
        )
    &&& same_area(image.active_area, info.active_area)
    &&& same_area(image.crop_area, info.crop_area)
    &&& 1 <= image.orientation <= 8 ==> info.orientation == image.orientation
    &&& info.orientation != 0 ==> info.orientation == image.orientation
    &&& info.orientation <= 8
}

/// The engine is told of an image each number of it where it was read.
pub proof fn lemma_describe<'a>(image: RawImage<'a>, info: SensorInfo)
    requires
        call_ensures(crate::decode::describe, (&image,), info),
    ensures
        told(image, info),
{
    lemma_told(image, info);
}

proof fn lemma_told<'a>(image: RawImage<'a>, info: SensorInfo)
    requires
        crate::decode::describes(info, image),
    ensures
        told(image, info),
{
}

/// A reply's layout is that of the image that was read: its width is the image's width and its
/// height the image's height, whatever their product; and it announces exactly the samples there
/// are, in a buffer that they fill.
#[verifier::spinoff_prover]
pub proof fn lemma_sensor_layout<'a>(
    image: RawImage<'a>,
    process: u32,
    serial: u32,
    sensor: Result<(SensorLayout, SensorInfo, SharedBuffer, &'a [u8]), String>,
)
    requires
        call_ensures(crate::decode::sensor, (&image, process, serial), sensor),
    ensures
        sensor matches Ok((layout, info, buffer, bytes)) ==> {
            &&& layout.width == image.width as int % 0x1_0000_0000
            &&& layout.height == image.height as int % 0x1_0000_0000
            &&& layout.components == image.cpp as int % 256
            &&& image.width <= u32::MAX ==> layout.width == image.width
            &&& image.height <= u32::MAX ==> layout.height == image.height
            &&& image.cpp <= 255 ==> layout.components == image.cpp
            &&& image.data matches RawImageData::Integer(samples) ==> layout.sample == Sample::U16
                && layout.width * layout.height * layout.components == samples@.len()
                && bytes@.len() == samples@.len() * 2
            &&& image.data matches RawImageData::Float(samples) ==> layout.sample == Sample::F32
                && layout.width * layout.height * layout.components == samples@.len()
                && bytes@.len() == samples@.len() * 4
            &&& bytes@.len() > 0
            &&& shares(buffer, bytes@.len() as int, process, serial)
            &&& told(image, info)
        },
{
    if let Ok((layout, info, buffer, bytes)) = sensor {
        lemma_told(image, info);
        lemma_shares(buffer, bytes@.len(), process, serial);
        let values = layout.width * layout.height * layout.components;
        assert(values >= 0) by (nonlinear_arith)
            requires
                values == layout.width * layout.height * layout.components,
        ;
        match image.data {
            RawImageData::Integer(samples) => {
                assert(layout.sample.size() == 2);
                assert(layout.size() == values * 2);
                assert(image.data.values().len() == samples@.len());
                assert(image.data.size() == samples@.len() * 2);
            },
            RawImageData::Float(samples) => {
                assert(layout.sample.size() == 4);
                assert(layout.size() == values * 4);
                assert(image.data.values().len() == samples@.len());
                assert(image.data.size() == samples@.len() * 4);
            },
        }
    }
}

/// Samples are refused exactly where there are not as many as the dimensions say, or none.
#[verifier::spinoff_prover]
pub proof fn lemma_sensor_refusals<'a>(
    image: RawImage<'a>,
    process: u32,
    serial: u32,
    sensor: Result<(SensorLayout, SensorInfo, SharedBuffer, &'a [u8]), String>,
)
    requires
        call_ensures(crate::decode::sensor, (&image, process, serial), sensor),
        image.width <= u32::MAX,
        image.height <= u32::MAX,
        image.cpp <= 255,
    ensures
        ({
            let count = match image.data {
                RawImageData::Integer(samples) => samples@.len(),
                RawImageData::Float(samples) => samples@.len(),
            };
            let expected = image.width * image.height * image.cpp;
            &&& sensor is Ok <==> expected == count && count > 0
            &&& expected != count ==> sensor is Err && sensor->Err_0@
                == "sample count does not match the image size"@
            &&& expected == count && count == 0 ==> sensor is Err && sensor->Err_0@
                == "empty shared buffer"@
        }),
{
    let layout = crate::decode::layout_of(image);
    let expected = image.width * image.height * image.cpp;
    assert(layout.width == image.width && layout.height == image.height && layout.components
        == image.cpp);
    assert(expected >= 0) by (nonlinear_arith)
        requires
            expected == image.width * image.height * image.cpp,
    ;
    assert(layout.size() == expected * layout.sample.size());
}

/// Component `c` of the pixel in column `x` and row `y` of the image, wherever the announced layout
/// says that it is, is the sample that was read for it, its two bytes in one order throughout.
pub proof fn lemma_integer_samples_lie_where_announced<'a>(
    image: RawImage<'a>,
    process: u32,
    serial: u32,
    sensor: Result<(SensorLayout, SensorInfo, SharedBuffer, &'a [u8]), String>,
)
    requires
        call_ensures(crate::decode::sensor, (&image, process, serial), sensor),
        sensor is Ok,
        image.data is Integer,
        image.width <= u32::MAX,
        image.height <= u32::MAX,
        image.cpp <= 255,
    ensures
        ({
            let (layout, _, _, bytes) = sensor->Ok_0;
            let samples = image.data->Integer_0@;
            ||| forall|x: int, y: int, c: int|
                0 <= x < image.width && 0 <= y < image.height && 0 <= c < image.cpp ==> {
                    let at = #[trigger] offset(layout.width as int, layout.components as int, x, y, c);
                    &&& 0 <= at * 2 && at * 2 + 2 <= bytes@.len()
                    &&& bytes@[at * 2] + bytes@[at * 2 + 1] * 256 == samples[(y * image.width + x)
                        * image.cpp + c]
                }
            ||| forall|x: int, y: int, c: int|
                0 <= x < image.width && 0 <= y < image.height && 0 <= c < image.cpp ==> {
                    let at = #[trigger] offset(layout.width as int, layout.components as int, x, y, c);
                    &&& 0 <= at * 2 && at * 2 + 2 <= bytes@.len()
                    &&& bytes@[at * 2] * 256 + bytes@[at * 2 + 1] == samples[(y * image.width + x)
                        * image.cpp + c]
                }
        }),
{
    lemma_sensor_layout(image, process, serial, sensor);
    let (layout, _, _, bytes) = sensor->Ok_0;
    let samples = image.data->Integer_0@;
    let values = image.data.values();
    let (w, h, n) = (image.width as int, image.height as int, image.cpp as int);
    assert forall|x: int, y: int, c: int| 0 <= x < w && 0 <= y < h && 0 <= c < n implies {
        let at = #[trigger] offset(w, n, x, y, c);
        0 <= at < samples.len()
    } by {
        lemma_offset_within(w, h, n, x, y, c);
    }
    assert forall|k: int| 0 <= k < samples.len() implies values[k] == #[trigger] samples[k] by {}
    if bytes@ == crate::decode::in_memory(values, 2, true) {
        assert forall|k: int| 0 <= k < samples.len() implies bytes@[k * 2] + bytes@[k * 2 + 1] * 256
            == #[trigger] samples[k] by {
            assert((k * 2) / 2 == k && (k * 2 + 1) / 2 == k);
            assert((k * 2) % 2 == 0 && (k * 2 + 1) % 2 == 1);
        }
    } else {
        assert forall|k: int| 0 <= k < samples.len() implies bytes@[k * 2] * 256 + bytes@[k * 2 + 1]
            == #[trigger] samples[k] by {
            assert((k * 2) / 2 == k && (k * 2 + 1) / 2 == k);
            assert((k * 2) % 2 == 0 && (k * 2 + 1) % 2 == 1);
        }
    }
}

/// As for two-byte samples, with the four bytes of a single-precision one.
pub proof fn lemma_float_samples_lie_where_announced<'a>(
    image: RawImage<'a>,
    process: u32,
    serial: u32,
    sensor: Result<(SensorLayout, SensorInfo, SharedBuffer, &'a [u8]), String>,
)
    requires
        call_ensures(crate::decode::sensor, (&image, process, serial), sensor),
        sensor is Ok,
        image.data is Float,
        image.width <= u32::MAX,
        image.height <= u32::MAX,
        image.cpp <= 255,
    ensures
        ({
            let (layout, _, _, bytes) = sensor->Ok_0;
            let b = bytes@;
            let samples = image.data->Float_0@;
            ||| forall|x: int, y: int, c: int|
                0 <= x < image.width && 0 <= y < image.height && 0 <= c < image.cpp ==> {
                    let at = #[trigger] offset(layout.width as int, layout.components as int, x, y, c);
                    &&& 0 <= at * 4 && at * 4 + 4 <= b.len()
                    &&& b[at * 4] + b[at * 4 + 1] * 256 + b[at * 4 + 2] * 65536 + b[at * 4 + 3]
                        * 16777216 == samples[(y * image.width + x) * image.cpp + c]
                }
            ||| forall|x: int, y: int, c: int|
                0 <= x < image.width && 0 <= y < image.height && 0 <= c < image.cpp ==> {
                    let at = #[trigger] offset(layout.width as int, layout.components as int, x, y, c);
                    &&& 0 <= at * 4 && at * 4 + 4 <= b.len()
                    &&& b[at * 4] * 16777216 + b[at * 4 + 1] * 65536 + b[at * 4 + 2] * 256 + b[at * 4
                        + 3] == samples[(y * image.width + x) * image.cpp + c]
                }
        }),
{
    lemma_sensor_layout(image, process, serial, sensor);
    let (layout, _, _, bytes) = sensor->Ok_0;
    let b = bytes@;
    let samples = image.data->Float_0@;
    let values = image.data.values();
    let (w, h, n) = (image.width as int, image.height as int, image.cpp as int);
    assert forall|x: int, y: int, c: int| 0 <= x < w && 0 <= y < h && 0 <= c < n implies {
        let at = #[trigger] offset(w, n, x, y, c);
        0 <= at < samples.len()
    } by {
        lemma_offset_within(w, h, n, x, y, c);
    }
    assert forall|k: int| 0 <= k < samples.len() implies values[k] == #[trigger] samples[k] by {}
    assert forall|k: int| 0 <= k < samples.len() implies (k * 4) / 4 == k && (k * 4 + 1) / 4 == k && (k
        * 4 + 2) / 4 == k && (k * 4 + 3) / 4 == k && (k * 4) % 4 == 0 && (k * 4 + 1) % 4 == 1 && (k * 4
        + 2) % 4 == 2 && (k * 4 + 3) % 4 == 3 && samples[k] == #[trigger] samples[k] by {}
    if b == crate::decode::in_memory(values, 4, true) {
        assert forall|k: int| 0 <= k < samples.len() implies b[k * 4] + b[k * 4 + 1] * 256 + b[k * 4
            + 2] * 65536 + b[k * 4 + 3] * 16777216 == #[trigger] samples[k] by {
            lemma_four_bytes(samples[k]);
        }
    } else {
        assert forall|k: int| 0 <= k < samples.len() implies b[k * 4] * 16777216 + b[k * 4 + 1] * 65536
            + b[k * 4 + 2] * 256 + b[k * 4 + 3] == #[trigger] samples[k] by {
            lemma_four_bytes(samples[k]);
        }
    }
}

proof fn lemma_four_bytes(value: u32)
    ensures
        value as int % 256 + value as int / 256 % 256 * 256 + value as int / 65536 % 256 * 65536
            + value as int / 16777216 % 256 * 16777216 == value,
{
}

/// Where a row of `width` pixels of `components` components each, and those before it, put component
/// `c` of the pixel in column `x` and row `y`.
pub open spec fn offset(width: int, components: int, x: int, y: int, c: int) -> int {
    (y * width + x) * components + c
}

proof fn lemma_offset_within(w: int, h: int, n: int, x: int, y: int, c: int)
    requires
        0 <= x < w,
        0 <= y < h,
        0 <= c < n,
    ensures
        0 <= offset(w, n, x, y, c) < w * h * n,
{
    assert(0 <= y * w + x <= w * h - 1) by (nonlinear_arith)
        requires
            0 <= x < w,
            0 <= y < h,
    ;
    let pixel = y * w + x;
    assert(0 <= pixel * n + c < w * h * n) by (nonlinear_arith)
        requires
            0 <= pixel <= w * h - 1,
            0 <= c < n,
    ;
}

/// An embedded image is announced with its own width and height, in sRGB, in a buffer that its
/// pixels fill; only an image without pixels is refused.
pub proof fn lemma_preview(
    width: u32,
    height: u32,
    pixels: &[u8],
    process: u32,
    serial: u32,
    preview: Result<(ImageLayout, SharedBuffer), String>,
)
    requires
        pixels@.len() == width * height * 4,
        call_ensures(crate::decode::preview, (width, height, pixels, process, serial), preview),
    ensures
        preview is Ok <==> width > 0 && height > 0,
        preview matches Ok((layout, buffer)) ==> {
            &&& layout.width == width
            &&& layout.height == height
            &&& layout.color_space == PreviewSpace::Srgb
            &&& shares(buffer, width * height * 4, process, serial)
        },
        preview matches Err(error) ==> error@ == "empty shared buffer"@,
{
    assert(width * height > 0 <==> width > 0 && height > 0) by (nonlinear_arith);
    if let Ok((layout, buffer)) = preview {
        lemma_shares(buffer, pixels@.len(), process, serial);
    }
}

/// The largest embedded image is chosen, the first of equally large ones, and none but where there
/// is none.
pub proof fn lemma_largest<P>(
    preview: Option<Candidate<P>>,
    full: Option<Candidate<P>>,
    thumbnail: Option<Candidate<P>>,
    chosen: Result<Candidate<P>, String>,
)
    requires
        call_ensures(crate::decode::largest::<P>, (preview, full, thumbnail), chosen),
    ensures
        chosen is Err <==> preview is None && full is None && thumbnail is None,
        chosen matches Err(error) ==> error@ == "no embedded preview"@,
        chosen matches Ok(found) ==> {
            let area = found.width * found.height;
            &&& preview == Some(found) || full == Some(found) || thumbnail == Some(found)
            &&& preview matches Some(p) ==> p.width * p.height <= area
            &&& full matches Some(f) ==> f.width * f.height <= area
            &&& thumbnail matches Some(t) ==> t.width * t.height <= area
            &&& preview matches Some(p) ==> (p.width * p.height == area ==> found == p)
            &&& full matches Some(f) ==> (f.width * f.height == area && found != f ==> preview == Some(
                found,
            ))
        },
{
}

/// A panic costs only the image it is about: the largest of the images found is chosen, and a panic
/// is told only where none was found.
pub proof fn lemma_embedded<P>(
    preview: Result<Option<Candidate<P>>, String>,
    full: Result<Option<Candidate<P>>, String>,
    thumbnail: Result<Option<Candidate<P>>, String>,
    chosen: Result<Candidate<P>, String>,
)
    requires
        call_ensures(crate::decode::embedded::<P>, (preview, full, thumbnail), chosen),
    ensures
        chosen is Ok <==> (preview matches Ok(Some(_))) || (full matches Ok(Some(_))) || (
        thumbnail matches Ok(Some(_))),
        chosen matches Ok(found) ==> {
            let area = found.width * found.height;
            &&& preview == Ok::<Option<Candidate<P>>, String>(Some(found)) || full == Ok::<
                Option<Candidate<P>>,
                String,
            >(Some(found)) || thumbnail == Ok::<Option<Candidate<P>>, String>(Some(found))
            &&& preview matches Ok(Some(p)) ==> p.width * p.height <= area
            &&& full matches Ok(Some(f)) ==> f.width * f.height <= area
            &&& thumbnail matches Ok(Some(t)) ==> t.width * t.height <= area
            &&& preview matches Ok(Some(p)) ==> (p.width * p.height == area ==> found == p)
            &&& full matches Ok(Some(f)) ==> (f.width * f.height == area && found != f ==> preview
                == Ok::<Option<Candidate<P>>, String>(Some(found)))
        },
        chosen matches Err(told) ==> {
            &&& preview matches Err(error) ==> told@ == error@
            &&& preview is Ok && full is Err ==> told@ == full->Err_0@
            &&& preview is Ok && full is Ok && thumbnail is Err ==> told@ == thumbnail->Err_0@
            &&& preview is Ok && full is Ok && thumbnail is Ok ==> told@ == "no embedded preview"@
        },
{
}

// ---------------------------------------------------------------------------------------------
// System decoders and sandbox.

/// A platform without decoders or sandbox says so.
pub proof fn lemma_unsupported<Y>(
    bytes: &[u8],
    extension: Option<&str>,
    opened: Result<(Y, FileInfo), String>,
    entered: Result<(), String>,
)
    requires
        call_ensures(crate::system::open::<Y>, (bytes, extension), opened),
        call_ensures(crate::system::enter, (), entered),
    ensures
        opened is Err && opened->Err_0@ == "format not supported on this platform"@,
        entered is Err && entered->Err_0@ == "no sandbox on this platform"@,
{
}

/// The helper is confined exactly where it entered a sandbox; where there is one that it could not
/// enter, it does not run at all.
pub proof fn lemma_confinement(
    has_sandbox: bool,
    status: i32,
    text: Option<String>,
    entered: Result<(), String>,
    confined: Result<bool, String>,
)
    requires
        call_ensures(crate::system::entered, (status, text), entered),
        call_ensures(crate::system::confinement, (has_sandbox, entered), confined),
    ensures
        entered is Ok <==> status == 0,
        status != 0 ==> entered->Err_0@ == match text {
            Some(given) => given@,
            None => "sandbox_init failed"@,
        },
        confined is Err <==> has_sandbox && entered is Err,
        confined matches Ok(c) ==> (c <==> entered is Ok),
        confined matches Err(error) ==> error@ == entered->Err_0@,
{
}

/// An extension hints at a type exactly where it is one to eight ASCII letters and digits, and is
/// then taken as it is.
pub proof fn lemma_type_hint<'a>(extension: Option<&'a str>, hint: Option<&'a str>)
    requires
        call_ensures(crate::system::type_hint, (extension,), hint),
    ensures
        hint is Some ==> hint == extension,
        hint is Some <==> extension is Some && 1 <= extension->0@.len() <= 8 && forall|i: int|
            #![trigger extension->0@[i]]
            0 <= i < extension->0@.len() ==> {
                let c = extension->0@[i];
                '0' <= c <= '9' || 'a' <= c <= 'z' || 'A' <= c <= 'Z'
            },
{
    if let Some(text) = extension {
        if crate::system::usable_extension(text@) {
            assert forall|i: int| #![trigger text@[i]] 0 <= i < text@.len() implies {
                let c = text@[i];
                '0' <= c <= '9' || 'a' <= c <= 'z' || 'A' <= c <= 'Z'
            } by {
                assert(crate::system::is_alphanumeric(text@[i]));
            }
        } else {
            if 1 <= text@.len() <= 8 {
                let i = choose|i: int|
                    0 <= i < text@.len() && !crate::system::is_alphanumeric(#[trigger] text@[i]);
                assert(!crate::system::is_alphanumeric(text@[i]));
            }
        }
    }
}

/// A raw type is one that something followed by "raw-image" names.
pub proof fn lemma_raw_type(identifier: &str, raw: bool, start: Seq<char>)
    requires
        call_ensures(crate::system::is_raw_type, (identifier,), raw),
    ensures
        identifier@ == start + "raw-image"@ ==> raw,
        raw ==> identifier@.len() >= 9 && identifier@ == identifier@.take(identifier@.len() - 9)
            + "raw-image"@,
{
    reveal_strlit("raw-image");
    let end = "raw-image"@;
    let at = identifier@.len() - 9;
    if identifier@ == start + end {
        assert(identifier@.skip(at) =~= end);
    }
    if raw {
        assert(identifier@ =~= identifier@.take(at) + identifier@.skip(at));
    }
}

/// A file is recognised where it holds an image of a known format, and is raw where its type is.
pub proof fn lemma_recognise(
    images: Option<usize>,
    identifier: Option<&str>,
    found: Result<bool, String>,
    raw: bool,
)
    requires
        call_ensures(crate::system::recognise, (images, identifier), found),
        identifier is Some ==> call_ensures(crate::system::is_raw_type, (identifier->0,), raw),
    ensures
        images is None ==> found is Err && found->Err_0@ == "format not recognised"@,
        images matches Some(count) && count == 0 ==> found is Err && found->Err_0@
            == "no image in file"@,
        images matches Some(count) && count > 0 ==> found is Ok && found->Ok_0 == (identifier is Some
            && raw),
{
}

/// What the system gave is handed on; what it did not give is told by name.
pub proof fn lemma_required<T>(part: Part, given: Option<T>, result: Result<T, String>)
    requires
        call_ensures(Part::required::<T>, (part, given), result),
    ensures
        given matches Some(found) ==> result == Ok::<T, String>(found),
        given is None ==> result is Err && result->Err_0@ == match part {
            Part::Thumbnail => "no thumbnail"@,
            Part::RawFilter => "raw format not supported by the system"@,
            Part::Developed => "system raw decoding failed"@,
            Part::Image => "image decoding failed"@,
            Part::ColourSpace => "colour space unavailable"@,
            Part::Memory => "null buffer"@,
        },
{
}

/// What the system reads of the headers is replied as it was read, and nothing where it reads
/// nothing.
pub proof fn lemma_file_info(raw: bool, properties: Option<Properties>, info: FileInfo)
    requires
        call_ensures(crate::system::file_info, (raw, properties), info),
    ensures
        info.decoder == Decoder::System,
        info.raw == raw,
        info.orientation <= 8,
        info.orientation != 0 ==> properties is Some && properties->0.orientation == Some(
            info.orientation,
        ),
        properties matches Some(read) ==> {
            &&& read.orientation matches Some(o) ==> (1 <= o <= 8 ==> info.orientation == o)
            &&& read.make matches Some(make) ==> info.make@ == make@
            &&& read.make is None ==> info.make@.len() == 0
            &&& read.model matches Some(model) ==> info.model@ == model@
            &&& read.model is None ==> info.model@.len() == 0
            &&& read.exif matches Some(exif) ==> info.exif == exif
        },
        properties is None ==> info.make@.len() == 0 && info.model@.len() == 0,
        properties is None || properties->0.exif is None ==> {
            &&& info.exif.iso is None
            &&& info.exif.exposure_time is None
            &&& info.exif.f_number is None
            &&& info.exif.focal_length is None
            &&& info.exif.lens_model is None
            &&& info.exif.date_time_original is None
        },
{
}

/// A bitmap has the width and height of the image; its rows lie one right behind the other and fill
/// the mapping exactly.
pub proof fn lemma_bitmap_rows_fill_the_mapping(
    width: usize,
    height: usize,
    finite: bool,
    bytes_per_pixel: usize,
    process: u32,
    serial: u32,
    bitmap: Result<Bitmap, String>,
)
    requires
        bytes_per_pixel > 0,
        call_ensures(
            crate::system::bitmap,
            (width, height, finite, bytes_per_pixel, process, serial),
            bitmap,
        ),
    ensures
        bitmap is Ok <==> width > 0 && height > 0 && finite,
        bitmap matches Err(error) ==> error@ == "image has no finite extent"@,
        bitmap matches Ok(found) ==> {
            &&& found.width == width as int % 0x1_0000_0000
            &&& found.height == height as int % 0x1_0000_0000
            &&& found.row_bytes == width * bytes_per_pixel
            &&& found.row_bytes * height == found.buffer.map
            &&& shares(found.buffer, width * height * bytes_per_pixel, process, serial)
            &&& width <= u32::MAX && height <= u32::MAX ==> found.width == width && found.height
                == height && found.row_bytes * found.height == found.buffer.map
        },
{
    if width > 0 && height > 0 && finite {
        let found = bitmap->Ok_0;
        assert(width * height * bytes_per_pixel > 0 && width * bytes_per_pixel * height == width
            * height * bytes_per_pixel) by (nonlinear_arith)
            requires
                width > 0,
                height > 0,
                bytes_per_pixel > 0,
        ;
        lemma_shares(
            found.buffer,
            (width * height * bytes_per_pixel) as nat,
            process,
            serial,
        );
    }
}

/// The rows of a rendered preview are those that the reply announces: four bytes for each pixel of
/// its width, as many as its height, in Display P3.
pub proof fn lemma_rendered_preview(
    width: usize,
    height: usize,
    process: u32,
    serial: u32,
    bitmap: Bitmap,
    layout: ImageLayout,
)
    requires
        0 < width <= u32::MAX,
        0 < height <= u32::MAX,
        call_ensures(
            crate::system::bitmap,
            (width, height, true, crate::system::PREVIEW_PIXEL, process, serial),
            Ok::<Bitmap, String>(bitmap),
        ),
        call_ensures(crate::system::preview, (bitmap.width, bitmap.height), layout),
    ensures
        layout.width == width,
        layout.height == height,
        layout.color_space == PreviewSpace::DisplayP3,
        bitmap.row_bytes == layout.width * 4,
        bitmap.row_bytes * layout.height == bitmap.buffer.map,
{
    lemma_bitmap_rows_fill_the_mapping(
        width,
        height,
        true,
        crate::system::PREVIEW_PIXEL,
        process,
        serial,
        Ok(bitmap),
    );
}

/// The rows of a developed image are those that the reply announces: four half-precision components
/// of two bytes for each pixel of its width, as many as its height. The engine is told where they
/// come from, their scale and the file's orientation, and that nothing else is known.
pub proof fn lemma_developed_image(
    width: usize,
    height: usize,
    process: u32,
    serial: u32,
    scale: u32,
    orientation: Option<u16>,
    bitmap: Bitmap,
    developed: (SensorLayout, SensorInfo),
)
    requires
        0 < width <= u32::MAX,
        0 < height <= u32::MAX,
        call_ensures(
            crate::system::bitmap,
            (width, height, true, crate::system::DEVELOPED_PIXEL, process, serial),
            Ok::<Bitmap, String>(bitmap),
        ),
        call_ensures(
            crate::system::develop,
            (bitmap.width, bitmap.height, scale, orientation),
            developed,
        ),
    ensures
        ({
            let (layout, info) = developed;
            &&& layout.width == width
            &&& layout.height == height
            &&& layout.components == 4
            &&& layout.sample == Sample::F16
            &&& bitmap.row_bytes == layout.width * layout.components * 2
            &&& bitmap.row_bytes * layout.height == bitmap.buffer.map
            &&& info.origin == PixelOrigin::SystemLinearBt2020
            &&& info.scale == Number::Bits(scale)
            &&& info.bits_per_sample == 16
            &&& orientation matches Some(o) ==> (1 <= o <= 8 ==> info.orientation == o)
            &&& info.orientation != 0 ==> orientation == Some(info.orientation)
            &&& info.orientation <= 8
            &&& forall|i: int|
                0 <= i < 4 ==> #[trigger] info.white_balance@[i] == Number::Bits(0x7fc0_0000)
            &&& info.cfa@.len() == 0 && info.color_matrices@.len() == 0
            &&& info.black_levels@.len() == 0 && info.white_levels@.len() == 0
            &&& info.active_area is None && info.crop_area is None
        }),
{
    lemma_bitmap_rows_fill_the_mapping(
        width,
        height,
        true,
        crate::system::DEVELOPED_PIXEL,
        process,
        serial,
        Ok(bitmap),
    );
}

// ---------------------------------------------------------------------------------------------
// Sessions.

/// Whether an action refuses a request about a file, with the given text and nothing attached.
pub open spec fn refuses<D, B>(action: Action<D, B>, about: u64, text: Seq<char>) -> bool {
    &&& action matches Action::Answer { reply, buffer }
    &&& buffer is None
    &&& reply matches Reply::Failed { id, error }
    &&& id == about
    &&& error@ == text
}

/// Whether pixels are asked of the file's system decoder: of the one it has, or of one that is to be
/// created first; where creating it has failed before, the request is refused with that reason.
pub open spec fn asks_system<S, Y, D, B>(
    before: State<S, Y>,
    after: State<S, Y>,
    action: Action<D, B>,
    id: u64,
    pixels: Pixels,
    raw_error: Option<String>,
) -> bool {
    &&& after.files == before.files
    &&& match before.files[id].system {
        Some(Ok(_)) => {
            &&& action == Action::<D, B>::SystemDecode(pixels)
            &&& after.pending == Pending::<S>::Developed { id, pixels, raw_error }
        },
        Some(Err(error)) => refuses(action, id, error@) && after.pending is Idle,
        None => {
            &&& action == Action::<D, B>::OpenSystem
            &&& after.pending == Pending::<S>::System { id, pixels, raw_error }
        },
    }
}

/// Whether a request for pixels is taken up: refused for a file that is not open, else passed to the
/// raw decoder where that recognised the file, else to the system's.
pub open spec fn asks<S, Y, D, B>(
    before: State<S, Y>,
    after: State<S, Y>,
    action: Action<D, B>,
    id: u64,
    pixels: Pixels,
) -> bool {
    if !before.files.contains_key(id) {
        after == before && refuses(action, id, "file not open"@)
    } else if before.files[id].rawler {
        &&& action == Action::<D, B>::RawDecode(pixels)
        &&& after.files == before.files
        &&& after.pending == Pending::<S>::Raw { id, pixels }
    } else {
        asks_system(before, after, action, id, pixels, None)
    }
}

/// What a request sets off: its answer, where nothing needs to be done outside, else the first thing
/// to do, about the file that the request names.
pub proof fn lemma_handled<S, Y, D, B>(
    session: &mut Session<S, Y>,
    request: Request,
    fd: Option<D>,
    action: Action<D, B>,
)
    requires
        old(session)@.pending is Idle,
        call_ensures(Session::<S, Y>::handle::<D, B>, (session, request, fd), action),
    ensures
        ({
            let (before, after) = (old(session)@, final(session)@);
            &&& after.confined == before.confined
            &&& after.wf()
            &&& match request {
                Request::Hello { .. } => {
                    &&& after == before
                    &&& action matches Action::Answer { reply, buffer }
                    &&& buffer is None
                    &&& reply matches Reply::Hello { version, decoder }
                    &&& version == 1
                    &&& decoder@ == "rawler 0.8.0"@
                },
                Request::SandboxCheck => {
                    &&& after == before
                    &&& action == (Action::<D, B>::Answer {
                        reply: Reply::Sandbox { confined: before.confined },
                        buffer: None,
                    })
                },
                Request::Close { id } => {
                    &&& after.pending is Idle
                    &&& after.files == before.files.remove(id)
                    &&& action == (Action::<D, B>::Answer { reply: Reply::Closed { id }, buffer: None })
                },
                Request::Open { id, extension } => {
                    if fd is None {
                        after == before && refuses(action, id, "no file descriptor attached"@)
                    } else if before.files.len() >= 8 {
                        after == before && refuses(action, id, "too many open files"@)
                    } else {
                        &&& action == Action::<D, B>::MapFile(fd->0)
                        &&& after.files == before.files
                        &&& after.pending == Pending::<S>::Mapping { id, extension }
                    }
                },
                Request::Preview { id } => asks(before, after, action, id, Pixels::Preview),
                Request::Sensor { id } => asks(before, after, action, id, Pixels::Sensor),
            }
        }),
{
    lemma_action_view(action);
    if let Action::Answer { reply, .. } = action {
        lemma_reply_view(reply);
    }
}

/// Whether a file was opened: it is kept under its id, and the answer says what its headers say.
pub open spec fn opens<S, Y, D, B>(
    before: State<S, Y>,
    after: State<S, Y>,
    action: Action<D, B>,
    id: u64,
    file: OpenFile<S, Y>,
    headers: FileInfo,
    micros: u64,
) -> bool {
    &&& after.pending is Idle
    &&& after.files == before.files.insert(id, file)
    &&& action == (Action::<D, B>::Answer {
        reply: Reply::Opened { id, info: Box::new(headers), micros },
        buffer: None,
    })
}

/// What becomes of a request once something outside has been done for it: the next thing to do for
/// the same file, or the answer, with what the decoder gave as it gave it.
pub proof fn lemma_resumed<S, Y, D, B>(
    session: &mut Session<S, Y>,
    event: Event<S, Y, B>,
    micros: u64,
    action: Action<D, B>,
)
    requires
        old(session)@.wf(),
        crate::session::awaits(old(session)@.pending, event),
        call_ensures(Session::<S, Y>::resume::<D, B>, (session, event, micros), action),
    ensures
        ({
            let (before, after) = (old(session)@, final(session)@);
            &&& after.confined == before.confined
            &&& after.wf()
            &&& match (before.pending, event) {
                (Pending::Mapping { id, extension }, Event::Mapped(Ok(source))) => {
                    &&& action == Action::<D, B>::ReadHeaders
                    &&& after.files == before.files
                    &&& after.pending == Pending::<S>::Headers { id, extension, source }
                },
                (Pending::Mapping { id, .. }, Event::Mapped(Err(error))) => {
                    &&& after.files == before.files && after.pending is Idle
                    &&& refuses(action, id, "cannot map file: "@ + error@)
                },
                (Pending::Headers { id, extension, source }, Event::Headers(Ok(info))) => opens(
                    before,
                    after,
                    action,
                    id,
                    OpenFile { source, rawler: true, system: None, extension },
                    info,
                    micros,
                ),
                (Pending::Headers { id, extension, source }, Event::Headers(Err(raw_error))) => {
                    &&& action == Action::<D, B>::OpenSystem
                    &&& after.files == before.files
                    &&& after.pending == Pending::<S>::Recognition { id, extension, source, raw_error }
                },
                (
                    Pending::Recognition { id, extension, source, .. },
                    Event::SystemOpened(Ok((system, info))),
                ) => opens(
                    before,
                    after,
                    action,
                    id,
                    OpenFile { source, rawler: false, system: Some(Ok(system)), extension },
                    info,
                    micros,
                ),
                (Pending::Recognition { id, raw_error, .. }, Event::SystemOpened(Err(error))) => {
                    &&& after.files == before.files && after.pending is Idle
                    &&& refuses(action, id, raw_error@ + "; system: "@ + error@)
                },
                (Pending::Raw { id, .. }, Event::Decoded(Ok((picture, filled)))) => {
                    &&& after.files == before.files && after.pending is Idle
                    &&& action matches Action::Answer { reply, buffer }
                    &&& buffer == Some(filled)
                    &&& picture matches Picture::Preview(image) ==> reply == (Reply::Preview {
                        id,
                        image,
                        micros,
                    })
                    &&& picture matches Picture::Sensor(sensor, info) ==> reply == (Reply::Sensor {
                        id,
                        sensor,
                        info,
                        micros,
                    })
                },
                (Pending::Raw { id, pixels }, Event::Decoded(Err(raw_error))) => asks_system(
                    before,
                    after,
                    action,
                    id,
                    pixels,
                    Some(raw_error),
                ),
                (
                    Pending::System { id, pixels, raw_error },
                    Event::SystemOpened(Ok((system, _))),
                ) => {
                    &&& after.files == before.files.insert(
                        id,
                        OpenFile {
                            source: before.files[id].source,
                            rawler: before.files[id].rawler,
                            system: Some(Ok(system)),
                            extension: before.files[id].extension,
                        },
                    )
                    &&& action == Action::<D, B>::SystemDecode(pixels)
                    &&& after.pending == Pending::<S>::Developed { id, pixels, raw_error }
                },
                (Pending::System { id, .. }, Event::SystemOpened(Err(error))) => {
                    &&& after.files == before.files.insert(
                        id,
                        OpenFile {
                            source: before.files[id].source,
                            rawler: before.files[id].rawler,
                            system: Some(Err(error)),
                            extension: before.files[id].extension,
                        },
                    )
                    &&& after.pending is Idle
                    &&& refuses(action, id, error@)
                },
                (Pending::Developed { id, .. }, Event::Decoded(Ok((picture, filled)))) => {
                    &&& after.files == before.files && after.pending is Idle
                    &&& action matches Action::Answer { reply, buffer }
                    &&& buffer == Some(filled)
                    &&& picture matches Picture::Preview(image) ==> reply == (Reply::Preview {
                        id,
                        image,
                        micros,
                    })
                    &&& picture matches Picture::Sensor(sensor, info) ==> reply == (Reply::Sensor {
                        id,
                        sensor,
                        info,
                        micros,
                    })
                },
                (Pending::Developed { id, raw_error, .. }, Event::Decoded(Err(error))) => {
                    &&& after.files == before.files && after.pending is Idle
                    &&& refuses(
                        action,
                        id,
                        if raw_error is Some && raw_error->0@.len() > 0 {
                            raw_error->0@ + "; system: "@ + error@
                        } else {
                            error@
                        },
                    )
                },
                _ => true,
            }
        }),
{
    lemma_action_view(action);
    if let Action::Answer { reply, .. } = action {
        lemma_reply_view(reply);
    }
}

} // verus!
