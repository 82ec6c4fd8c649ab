//! Shared memory: created and filled by the helper, mapped read-only by the application.
//!
//! An object is unlinked right after creation, so it has no name while in use and disappears with
//! its last descriptor or mapping. The receiving side never trusts the announced size: it checks
//! the object's real size before mapping. Objects are sized in whole `PAGE`s, so that the
//! application can hand a mapping to the GPU as it is, without copying it.

use vstd::prelude::*;
use vstd::string::*;

use crate::text::fails_with;

verus! {

/// Granularity of shared objects: the largest page size of the supported systems (16 KiB on Apple
/// Silicon, a multiple of 4 KiB pages elsewhere).
pub const PAGE: usize = 16 * 1024;

/// Longest name of a shared object that every supported system accepts, in bytes.
pub const MAX_NAME_BYTES: usize = 31;

/// `len` rounded up to whole pages: the least multiple of `PAGE` that is not below `len`.
pub open spec fn page_multiple(len: nat) -> nat {
    (len + PAGE - 1) as nat / PAGE as nat * PAGE as nat
}

/// `len` rounded up to whole pages.
pub fn whole_pages(len: usize) -> (rounded: usize)
    requires
        page_multiple(len as nat) <= usize::MAX,
    ensures
        rounded == page_multiple(len as nat),
{
    let pages: usize = if len % PAGE == 0 {
        len / PAGE
    } else {
        len / PAGE + 1
    };
    assert(pages as nat == (len + PAGE - 1) as nat / PAGE as nat);
    pages * PAGE
}

/// Lower-case hexadecimal digit of a number below 16.
pub open spec fn hex_digit(value: nat) -> char {
    if value < 10 {
        ('0' as nat + value) as char
    } else {
        ('a' as nat + value - 10) as char
    }
}

/// Lower-case hexadecimal writing of a number, without leading zeros.
pub open spec fn hex(value: nat) -> Seq<char>
    decreases value,
{
    if value < 16 {
        seq![hex_digit(value)]
    } else {
        hex(value / 16).push(hex_digit(value % 16))
    }
}

/// Name under which a process creates its shared object of the given serial number.
pub open spec fn object_name(process: u32, serial: u32) -> Seq<char> {
    "/lfr"@ + hex(process as nat) + "."@ + hex(serial as nat)
}

/// Lower-case hexadecimal digit of a number below 16.
pub(crate) fn digit(value: u32) -> (text: &'static str)
    requires
        value < 16,
    ensures
        text@ == seq![hex_digit(value as nat)],
{
    proof {
        reveal_strlit("0");
        reveal_strlit("1");
        reveal_strlit("2");
        reveal_strlit("3");
        reveal_strlit("4");
        reveal_strlit("5");
        reveal_strlit("6");
        reveal_strlit("7");
        reveal_strlit("8");
        reveal_strlit("9");
        reveal_strlit("a");
        reveal_strlit("b");
        reveal_strlit("c");
        reveal_strlit("d");
        reveal_strlit("e");
        reveal_strlit("f");
    }
    match value {
        0 => "0",
        1 => "1",
        2 => "2",
        3 => "3",
        4 => "4",
        5 => "5",
        6 => "6",
        7 => "7",
        8 => "8",
        9 => "9",
        10 => "a",
        11 => "b",
        12 => "c",
        13 => "d",
        14 => "e",
        _ => "f",
    }
}

fn append_hex(text: &mut String, value: u32)
    ensures
        final(text)@ == old(text)@ + hex(value as nat),
    decreases value,
{
    if value >= 16 {
        append_hex(text, value / 16);
    }
    text.append(digit(value % 16));
}

/// A shared object to be created and mapped.
#[derive(Debug)]
pub struct SharedBuffer {
    /// Name to create it under, and to unlink right after.
    pub name: String,
    /// Size to give the object, in bytes.
    pub object: usize,
    /// Size of the writable mapping, in bytes.
    pub map: usize,
}

impl SharedBuffer {
    /// The object that holds `len` bytes: named after the creating process and a serial number
    /// of its own, sized in whole pages, mapped over exactly `len` bytes.
    pub fn create(len: usize, process: u32, serial: u32) -> (buffer: Result<SharedBuffer, String>)
        requires
            page_multiple(len as nat) <= usize::MAX,
        ensures
            len == 0 ==> fails_with(buffer, "empty shared buffer"@),
            len > 0 ==> (buffer matches Ok(shared) && {
                &&& shared.name@ == object_name(process, serial)
                &&& shared.object == page_multiple(len as nat)
                &&& shared.map == len
            }),
    {
        if len == 0 {
            return Err("empty shared buffer".to_owned());
        }
        let mut name = "/lfr".to_owned();
        append_hex(&mut name, process);
        name.append(".");
        append_hex(&mut name, serial);
        Ok(SharedBuffer { name, object: whole_pages(len), map: len })
    }
}

/// Bytes to map of a received object that really holds `size` bytes, when `len` bytes were
/// announced: whole pages where the object and the address space have room for them; `None` where
/// it must not be mapped at all.
pub open spec fn mapped_bytes(size: nat, len: nat) -> Option<nat> {
    if len == 0 || size < len {
        None
    } else if size >= page_multiple(len) && page_multiple(len) <= usize::MAX {
        Some(page_multiple(len))
    } else {
        Some(len)
    }
}

/// How many bytes of a received object of `size` bytes to map read-only, when `len` bytes were
/// announced: all its whole pages where the object has them, else the announced bytes, and
/// nothing where the object really holds less than was announced.
pub fn map_received(size: u64, len: usize) -> (mapped: Result<usize, String>)
    ensures
        match mapped_bytes(size as nat, len as nat) {
            Some(bytes) => mapped == Ok::<usize, String>(bytes as usize) && bytes <= usize::MAX,
            None => fails_with(mapped, "shared buffer smaller than announced"@),
        },
{
    if len == 0 || size < len as u64 {
        return Err("shared buffer smaller than announced".to_owned());
    }
    let pages: usize = len / PAGE + if len % PAGE == 0 {
        0
    } else {
        1
    };
    assert(page_multiple(len as nat) == pages * PAGE);
    if pages > usize::MAX / PAGE {
        return Ok(len);
    }
    let rounded = whole_pages(len);
    if size >= rounded as u64 {
        Ok(rounded)
    } else {
        Ok(len)
    }
}

/// What is mapped holds at least the announced bytes and never reaches beyond the object: a peer
/// that announces more than it sent is refused.
pub proof fn lemma_mapping_within_object(size: nat, len: nat)
    ensures
        mapped_bytes(size, len) matches Some(bytes) ==> 0 < len <= bytes <= size,
        mapped_bytes(size, len) is None <==> len == 0 || size < len,
{
    lemma_page_multiple(len);
}

/// An object created for `len` bytes is mapped in whole pages by whoever receives it with the
/// same announcement.
pub proof fn lemma_created_object_maps_whole(len: nat)
    requires
        len > 0,
        page_multiple(len) <= usize::MAX,
    ensures
        mapped_bytes(page_multiple(len), len) == Some(page_multiple(len)),
{
    lemma_page_multiple(len);
}

/// Rounding gives the least whole number of pages that holds `len` bytes.
pub proof fn lemma_page_multiple(len: nat)
    ensures
        page_multiple(len) % PAGE as nat == 0,
        len <= page_multiple(len) < len + PAGE,
{
}

/// No smaller whole number of pages holds `len` bytes.
pub proof fn lemma_page_multiple_least(len: nat, pages: nat)
    requires
        pages * PAGE >= len,
    ensures
        page_multiple(len) <= pages * PAGE,
{
    assert(PAGE == 16384);
    let count = (len + 16383) / 16384;
    assert(page_multiple(len) == count * 16384);
    assert(count <= pages);
}

/// Rounding what is already whole changes nothing.
pub proof fn lemma_page_multiple_idempotent(len: nat)
    ensures
        page_multiple(page_multiple(len)) == page_multiple(len),
{
    assert(PAGE == 16384);
    let count = (len + 16383) / 16384;
    assert(page_multiple(len) == count * 16384);
    assert((count * 16384 + 16383) / 16384 == count);
}

/// A longer buffer never takes a smaller object.
pub proof fn lemma_page_multiple_monotone(a: nat, b: nat)
    requires
        a <= b,
    ensures
        page_multiple(a) <= page_multiple(b),
{
    assert(PAGE == 16384);
    assert(page_multiple(a) == (a + 16383) / 16384 * 16384);
    assert(page_multiple(b) == (b + 16383) / 16384 * 16384);
}

proof fn lemma_hex_digit(a: nat, b: nat)
    requires
        a < 16,
        b < 16,
    ensures
        hex_digit(a) == hex_digit(b) ==> a == b,
        hex_digit(a) != '.',
        '\0' <= hex_digit(a) <= '\u{7f}',
{
}

proof fn lemma_hex_chars(value: nat)
    ensures
        hex(value).len() >= 1,
        forall|i: int|
            0 <= i < hex(value).len() ==> '\0' <= (#[trigger] hex(value)[i]) <= '\u{7f}' && hex(
                value,
            )[i] != '.',
    decreases value,
{
    lemma_hex_digit(value % 16, 0);
    if value >= 16 {
        lemma_hex_chars(value / 16);
    }
}

proof fn lemma_hex_len(value: u32)
    ensures
        hex(value as nat).len() <= 8,
{
    reveal_with_fuel(hex, 8);
}

/// Different numbers are written differently.
pub proof fn lemma_hex_injective(a: nat, b: nat)
    requires
        hex(a) == hex(b),
    ensures
        a == b,
    decreases a,
{
    lemma_hex_digit(a % 16, b % 16);
    assert(hex(a).last() == hex_digit(a % 16));
    assert(hex(b).last() == hex_digit(b % 16));
    lemma_hex_chars(a / 16);
    lemma_hex_chars(b / 16);
    if a >= 16 && b >= 16 {
        assert(hex(a).drop_last() == hex(a / 16));
        assert(hex(b).drop_last() == hex(b / 16));
        lemma_hex_injective(a / 16, b / 16);
    }
}

/// Every object's name stays within what every supported system accepts.
pub proof fn lemma_object_name_short(process: u32, serial: u32)
    ensures
        vstd::utf8::encode_utf8(object_name(process, serial)).len() <= MAX_NAME_BYTES,
{
    reveal_strlit("/lfr");
    reveal_strlit(".");
    lemma_hex_len(process);
    lemma_hex_len(serial);
    lemma_hex_chars(process as nat);
    lemma_hex_chars(serial as nat);
    let name = object_name(process, serial);
    assert(vstd::utf8::is_ascii_chars(name));
    vstd::utf8::is_ascii_chars_encode_utf8(name);
}

/// Two objects share a name only if the same process created them under the same serial number.
pub proof fn lemma_object_name_injective(
    process_a: u32,
    serial_a: u32,
    process_b: u32,
    serial_b: u32,
)
    requires
        object_name(process_a, serial_a) == object_name(process_b, serial_b),
    ensures
        process_a == process_b,
        serial_a == serial_b,
{
    reveal_strlit("/lfr");
    reveal_strlit(".");
    let (pa, sa) = (hex(process_a as nat), hex(serial_a as nat));
    let (pb, sb) = (hex(process_b as nat), hex(serial_b as nat));
    let a = object_name(process_a, serial_a);
    let b = object_name(process_b, serial_b);
    lemma_hex_chars(process_a as nat);
    lemma_hex_chars(process_b as nat);
    if pa.len() < pb.len() {
        assert(a[4int + pa.len()] == '.');
        assert(b[4int + pa.len()] == pb[pa.len() as int]);
    }
    if pb.len() < pa.len() {
        assert(b[4int + pb.len()] == '.');
        assert(a[4int + pb.len()] == pa[pb.len() as int]);
    }
    assert(pa =~= a.subrange(4, 4int + pa.len()));
    assert(pb =~= b.subrange(4, 4int + pb.len()));
    assert(sa =~= a.subrange(5int + pa.len(), a.len() as int));
    assert(sb =~= b.subrange(5int + pb.len(), b.len() as int));
    lemma_hex_injective(process_a as nat, process_b as nat);
    lemma_hex_injective(serial_a as nat, serial_b as nat);
}

} // verus!
