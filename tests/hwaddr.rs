use interfaces::HardwareAddr;
use std::collections::hash_map::DefaultHasher;
use std::hash::{Hash, Hasher};

fn assert_is_clone<T: Clone>(_: &T) {}
fn assert_is_copy<T: Copy>(_: &T) {}
fn assert_is_hash<T: Hash>(_: &T) {}

fn hash_of(h: &HardwareAddr) -> u64 {
    let mut s = DefaultHasher::new();
    h.hash(&mut s);
    s.finish()
}

#[test]
fn test_hardwareaddr_deriving() {
    let one = HardwareAddr::zero();
    let two = HardwareAddr::zero();

    assert!(one == two);
    assert_is_clone(&one);
    assert_is_copy(&one);
    assert_is_hash(&one);
}

#[test]
fn test_hardwareaddr_format() {
    let h = HardwareAddr::zero();

    assert_eq!(h.as_string(), "00:00:00:00:00:00");
    assert_eq!(h.as_bare_string(), "000000000000");
}

#[test]
fn formats_every_digit_in_lowercase() {
    let h = HardwareAddr([0xaa, 0xbb, 0x0c, 0x1d, 0xe0, 0xff]);
    assert_eq!(h.as_string(), "aa:bb:0c:1d:e0:ff");
    assert_eq!(h.as_bare_string(), "aabb0c1de0ff");
    let g = HardwareAddr([0x01, 0x23, 0x45, 0x67, 0x89, 0xab]);
    assert_eq!(g.as_string(), "01:23:45:67:89:ab");
    assert_eq!(g.as_bare_string(), "0123456789ab");
}

#[test]
fn bare_string_is_string_without_colons() {
    for h in [
        HardwareAddr::zero(),
        HardwareAddr([0xde, 0xad, 0xbe, 0xef, 0x00, 0x01]),
        HardwareAddr([0xff; 6]),
    ] {
        assert_eq!(h.as_bare_string(), h.as_string().replace(':', ""));
    }
}

#[test]
fn equality_follows_the_bytes_and_hash_agrees() {
    let a = HardwareAddr([1, 2, 3, 4, 5, 6]);
    let b = HardwareAddr([1, 2, 3, 4, 5, 6]);
    let c = HardwareAddr([1, 2, 3, 4, 5, 7]);
    assert!(a == b);
    assert_eq!(hash_of(&a), hash_of(&b));
    assert!(a != c);
    assert!(HardwareAddr([0, 2, 3, 4, 5, 6]) != a);
}

#[test]
fn bytes_are_exposed_as_they_are() {
    assert_eq!(HardwareAddr::zero().as_bytes(), &[0, 0, 0, 0, 0, 0]);
    let a = HardwareAddr([9, 8, 7, 6, 5, 4]);
    assert_eq!(a.as_bytes(), &[9, 8, 7, 6, 5, 4]);
}
