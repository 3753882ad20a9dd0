use zanim::device::AccessMode;
use zanim::device::Error;
use zanim::registry::Registry;

#[test]
fn initialize_builds_count_empty_devices_in_ordinal_order() {
    let reg = Registry::initialize(3).unwrap();
    assert_eq!(reg.count(), 3);
    for i in 0..3 {
        assert_eq!(reg.device(i).number, i);
        assert_eq!(reg.device(i).contents.len(), 0);
    }
}

#[test]
fn initialize_default_count_is_one() {
    let reg = Registry::initialize(1).unwrap();
    assert_eq!(reg.count(), 1);
    assert_eq!(reg.device(0).number, 0);
}

#[test]
fn initialize_zero_devices() {
    let reg = Registry::initialize(0).unwrap();
    assert_eq!(reg.count(), 0);
}

#[test]
fn devices_under_one_registry_are_independent() {
    let mut reg = Registry::initialize(2).unwrap();
    assert_eq!(reg.device_write(0, b"hello", 0), Ok(5));
    // The write to device 0 is not visible through device 1.
    assert_eq!(reg.device(1).contents.len(), 0);
    assert_eq!(reg.device_read(1, 100, 0).unwrap().len(), 0);
    assert_eq!(reg.device_write(1, b"world", 2), Ok(5));
    // And device 1's write leaves device 0 as it was.
    assert_eq!(reg.device_read(0, 100, 0).unwrap(), b"hello".to_vec());
    assert_eq!(reg.device_read(1, 100, 0).unwrap(), b"\0\0world".to_vec());
}

#[test]
fn open_write_only_truncates_only_the_target_device() {
    let mut reg = Registry::initialize(2).unwrap();
    reg.device_write(0, b"aaa", 0).unwrap();
    reg.device_write(1, b"bbb", 0).unwrap();
    reg.device_open(0, AccessMode::WriteOnly);
    assert_eq!(reg.device(0).contents.len(), 0);
    assert_eq!(reg.device(1).contents, b"bbb".to_vec());
    reg.device_open(1, AccessMode::ReadWrite);
    assert_eq!(reg.device(1).contents, b"bbb".to_vec());
}

#[test]
fn routed_write_error_leaves_the_device_unchanged() {
    let mut reg = Registry::initialize(1).unwrap();
    reg.device_write(0, b"keep", 0).unwrap();
    assert_eq!(reg.device_write(0, b"x", u64::MAX), Err(Error::InvalidArgument));
    assert_eq!(reg.device(0).contents, b"keep".to_vec());
}
