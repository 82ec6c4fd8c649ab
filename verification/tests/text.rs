use loft_raw::allocation::{Capped, MAX_ALLOCATION};
use loft_raw::text::{both, guarded, join};

#[test]
fn both_reasons_are_given() {
    assert_eq!(both("no magic", "not recognised"), "no magic; system: not recognised");
    assert_eq!(both("", "not recognised"), "; system: not recognised");
}

#[test]
fn system_reason_stands_alone_without_a_raw_one() {
    assert_eq!(join("", "no thumbnail"), "no thumbnail");
    assert_eq!(join("no embedded preview", "no thumbnail"), "no embedded preview; system: no thumbnail");
}

#[test]
fn panic_becomes_an_error() {
    assert_eq!(guarded::<u8>(None), Err("decoder panicked".to_owned()));
    assert_eq!(guarded(Some(Ok(7))), Ok(7));
    assert_eq!(guarded::<u8>(Some(Err("bad".to_owned()))), Err("bad".to_owned()));
}

#[test]
fn allocations_above_the_cap_are_refused() {
    assert_eq!(MAX_ALLOCATION, 2 << 30);
    assert!(Capped.admits(0));
    assert!(Capped.admits(354_000_000));
    assert!(Capped.admits(2 << 30));
    assert!(!Capped.admits((2 << 30) + 1));
    assert!(!Capped.admits(usize::MAX));
}
