//! How a file that came as a descriptor is reached: through the process's own descriptors, never
//! through a path of the user's disk.

use vstd::prelude::*;
use vstd::string::*;

use crate::shm::{digit, hex_digit};

verus! {

/// Decimal writing of a number, without leading zeros.
pub open spec fn decimal(value: nat) -> Seq<char>
    decreases value,
{
    if value < 10 {
        seq![('0' as nat + value) as char]
    } else {
        decimal(value / 10).push(('0' as nat + value % 10) as char)
    }
}

fn append_decimal(text: &mut String, value: u32)
    ensures
        final(text)@ == old(text)@ + decimal(value as nat),
    decreases value,
{
    if value >= 10 {
        append_decimal(text, value / 10);
    }
    assert(hex_digit((value % 10) as nat) == ('0' as nat + value as nat % 10) as char);
    text.append(digit(value % 10));
}

/// The path that opens a descriptor's file: it names nothing but the descriptor.
pub fn descriptor_path(fd: i32) -> (path: String)
    requires
        fd >= 0,
    ensures
        path@ == "/dev/fd/"@ + decimal(fd as nat),
{
    let mut path = "/dev/fd/".to_owned();
    append_decimal(&mut path, fd as u32);
    path
}

/// Different numbers are written differently.
pub proof fn lemma_decimal_injective(a: nat, b: nat)
    requires
        decimal(a) == decimal(b),
    ensures
        a == b,
    decreases a,
{
    assert(decimal(a).last() == ('0' as nat + a % 10) as char);
    assert(decimal(b).last() == ('0' as nat + b % 10) as char);
    lemma_decimal_not_empty(a / 10);
    lemma_decimal_not_empty(b / 10);
    if a >= 10 && b >= 10 {
        assert(decimal(a).drop_last() == decimal(a / 10));
        assert(decimal(b).drop_last() == decimal(b / 10));
        lemma_decimal_injective(a / 10, b / 10);
    }
}

proof fn lemma_decimal_not_empty(value: nat)
    ensures
        decimal(value).len() >= 1,
{
}

/// Different descriptors are opened through different paths.
pub proof fn lemma_descriptor_path_injective(a: i32, b: i32)
    requires
        a >= 0,
        b >= 0,
        "/dev/fd/"@ + decimal(a as nat) == "/dev/fd/"@ + decimal(b as nat),
    ensures
        a == b,
{
    let start = "/dev/fd/"@;
    assert((start + decimal(a as nat)).skip(start.len() as int) =~= decimal(a as nat));
    assert((start + decimal(b as nat)).skip(start.len() as int) =~= decimal(b as nat));
    lemma_decimal_injective(a as nat, b as nat);
}

} // verus!
