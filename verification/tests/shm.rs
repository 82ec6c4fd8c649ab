use loft_raw::shm::{map_received, whole_pages, SharedBuffer, MAX_NAME_BYTES, PAGE};

#[test]
fn rounding_to_whole_pages() {
    assert_eq!(PAGE, 16384);
    assert_eq!(whole_pages(0), 0);
    assert_eq!(whole_pages(1), 16384);
    assert_eq!(whole_pages(16384), 16384);
    assert_eq!(whole_pages(16385), 32768);
    assert_eq!(whole_pages(96_000_000), 96_010_240);
}

#[test]
fn rounding_is_least_idempotent_and_monotone() {
    let mut last = 0;
    for len in 0..3 * PAGE {
        let rounded = whole_pages(len);
        assert_eq!(rounded % PAGE, 0);
        assert!(len <= rounded && rounded < len + PAGE);
        assert_eq!(whole_pages(rounded), rounded);
        assert!(last <= rounded);
        last = rounded;
    }
}

#[test]
fn created_buffer_is_named_and_sized() {
    let buffer = SharedBuffer::create(20_000, 0xbeef, 0x1a).unwrap();
    assert_eq!(buffer.name, "/lfrbeef.1a");
    assert_eq!(buffer.object, 32768);
    assert_eq!(buffer.map, 20_000);
}

#[test]
fn name_of_the_first_object_of_process_zero() {
    assert_eq!(SharedBuffer::create(1, 0, 0).unwrap().name, "/lfr0.0");
}

#[test]
fn names_are_written_in_hexadecimal() {
    for number in [1, 9, 10, 15, 16, 255, 256, 4096, 65_535, 1_000_000, u32::MAX] {
        let buffer = SharedBuffer::create(1, number, number / 2).unwrap();
        assert_eq!(buffer.name, format!("/lfr{:x}.{:x}", number, number / 2));
    }
}

#[test]
fn longest_name_is_short_enough() {
    let buffer = SharedBuffer::create(1, u32::MAX, u32::MAX).unwrap();
    assert_eq!(buffer.name, "/lfrffffffff.ffffffff");
    assert!(buffer.name.len() <= MAX_NAME_BYTES);
}

#[test]
fn names_tell_processes_and_serials_apart() {
    let name = |process, serial| SharedBuffer::create(1, process, serial).unwrap().name;
    assert_ne!(name(0x11, 0x1), name(0x1, 0x11));
    assert_ne!(name(7, 8), name(7, 9));
    assert_ne!(name(7, 8), name(6, 8));
    assert_eq!(name(7, 8), name(7, 8));
}

#[test]
fn empty_buffer_is_refused() {
    assert_eq!(SharedBuffer::create(0, 1, 1).unwrap_err(), "empty shared buffer");
}

#[test]
fn received_object_is_mapped_in_whole_pages_when_it_has_them() {
    assert_eq!(map_received(32768, 20_000), Ok(32768));
    assert_eq!(map_received(1 << 40, 20_000), Ok(32768));
    assert_eq!(map_received(16384, 16384), Ok(16384));
}

#[test]
fn received_object_without_whole_pages_is_mapped_as_announced() {
    assert_eq!(map_received(20_000, 20_000), Ok(20_000));
    assert_eq!(map_received(32767, 20_000), Ok(20_000));
}

#[test]
fn received_object_smaller_than_announced_is_refused() {
    let refused = Err("shared buffer smaller than announced".to_owned());
    assert_eq!(map_received(19_999, 20_000), refused);
    assert_eq!(map_received(0, 1), refused);
    assert_eq!(map_received(20_000, 0), refused);
    assert_eq!(map_received(0, usize::MAX), refused);
}

#[test]
fn announcement_within_a_page_of_the_address_space_is_mapped_as_announced() {
    let len = usize::MAX - 5;
    assert_eq!(map_received(u64::MAX, len), Ok(len));
    let whole = usize::MAX - (PAGE - 1);
    assert_eq!(map_received(u64::MAX, whole), Ok(whole));
    assert_eq!(map_received(u64::MAX, whole - 1), Ok(whole));
}

#[test]
fn mapping_stays_within_the_object() {
    for size in [1u64, 16383, 16384, 16385, 40_000, 49152] {
        for len in [1usize, 100, 16384, 16385, 40_000] {
            match map_received(size, len) {
                Ok(mapped) => assert!(len <= mapped && mapped as u64 <= size),
                Err(_) => assert!(size < len as u64),
            }
        }
    }
}

#[test]
fn created_object_maps_whole() {
    for len in [1usize, 16383, 16384, 16385, 1_000_000] {
        let buffer = SharedBuffer::create(len, 1, 2).unwrap();
        assert_eq!(map_received(buffer.object as u64, buffer.map), Ok(buffer.object));
    }
}
