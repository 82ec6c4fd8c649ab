use loft_raw::descriptor::descriptor_path;

#[test]
fn path_names_the_descriptor_in_decimal() {
    assert_eq!(descriptor_path(0), "/dev/fd/0");
    assert_eq!(descriptor_path(7), "/dev/fd/7");
    assert_eq!(descriptor_path(10), "/dev/fd/10");
    assert_eq!(descriptor_path(1009), "/dev/fd/1009");
    assert_eq!(descriptor_path(i32::MAX), "/dev/fd/2147483647");
}

#[test]
fn paths_tell_descriptors_apart() {
    for fd in 0..2000 {
        assert_eq!(descriptor_path(fd), format!("/dev/fd/{}", fd));
        assert_ne!(descriptor_path(fd), descriptor_path(fd + 1));
    }
}
