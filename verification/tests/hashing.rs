use terrarium::hashing::{InstanceIdHasher, FNV_OFFSET};

#[test]
fn byte_input_is_hashed_with_fnv1a() {
    let mut hasher = InstanceIdHasher::default();
    hasher.write(&[]);
    assert_eq!(hasher.finish(), FNV_OFFSET);
    hasher.write(b"a");
    assert_eq!(hasher.finish(), 0xaf63_dc4c_8601_ec8c);
    hasher.write(b"foobar");
    assert_eq!(hasher.finish(), 0x8594_4171_f739_67e8);
}

#[test]
fn words_are_rotated_xored_and_multiplied() {
    let mut hasher = InstanceIdHasher(1);
    hasher.write_u64(0);
    assert_eq!(hasher.finish(), 32u64.wrapping_mul(0x517c_c1b7_2722_0a95));
    let mut hasher = InstanceIdHasher(1 << 63);
    hasher.write_u64(16);
    assert_eq!(hasher.finish(), 0);
}
