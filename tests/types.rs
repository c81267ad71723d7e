use kv::{
    Config, DatabaseFlags, Integer, Key, ValueMut, ValueRef, DUP_SORT, INTEGER_KEY, REVERSE_KEY,
};

#[test]
fn integer_round_trips_through_u64() {
    for n in [0u64, 1, 2, 255, 256, 65535, 1 << 32, u64::MAX - 1, u64::MAX] {
        let i = Integer::from(n);
        assert_eq!(u64::from(i), n);
        assert_eq!(i.to_u64(), n);
        assert_eq!(Integer::from_u64(n), i);
    }
}

#[test]
fn integer_bytes_are_little_endian() {
    let i = Integer::from(0x0102030405060708u64);
    assert_eq!(i.key_bytes(), [8u8, 7, 6, 5, 4, 3, 2, 1]);
}

#[test]
fn integer_from_bytes_requires_eight() {
    assert!(Integer::from_bytes(&[1, 2, 3]).is_none());
    assert!(Integer::from_bytes(&[0; 9]).is_none());
    assert!(Integer::from_bytes(&[]).is_none());
    let i = Integer::from_bytes(&[1, 0, 0, 0, 0, 0, 0, 0]).unwrap();
    assert_eq!(u64::from(i), 1);
}

#[test]
fn integer_compares_numerically() {
    assert!(Integer::from(1u64) < Integer::from(256u64));
    assert!(Integer::from(300u64) > Integer::from(2u64));
    assert!(Integer::from(5u64) == Integer::from(5u64));
    assert!(Integer::from(5u64) != Integer::from(6u64));
    assert_eq!(
        Integer::from(7u64).partial_cmp(&Integer::from(7u64)),
        Some(std::cmp::Ordering::Equal)
    );
}

#[test]
fn value_ref_borrows_bytes() {
    let data = [1u8, 2, 3];
    let v = ValueRef::new(&data);
    assert_eq!(v.as_slice(), &[1, 2, 3]);
    assert_eq!(ValueRef::from_str("hi").as_slice(), b"hi");
}

#[test]
fn value_mut_views_as_value_ref() {
    let mut data = [4u8, 5, 6];
    let m = ValueMut::new(&mut data);
    let r = m.as_value::<ValueRef>();
    assert_eq!(r.as_slice(), &[4, 5, 6]);
}

#[test]
fn database_flags_combine() {
    let mut f = DatabaseFlags::empty();
    assert_eq!(f.bits(), 0);
    f.insert(DatabaseFlags::dup_sort());
    f.insert(DatabaseFlags::integer_key());
    assert_eq!(f.bits(), DUP_SORT | INTEGER_KEY);
    assert!(f.contains(DatabaseFlags::integer_key()));
    assert!(!f.contains(DatabaseFlags::from_bits(REVERSE_KEY).unwrap()));
    assert!(DatabaseFlags::from_bits(0x1).is_none());
    assert!(DatabaseFlags::from_bits(0x80).is_none());
    assert_eq!(DatabaseFlags::from_bits(0x7e).unwrap().bits(), 0x7e);
}

#[test]
fn config_declares_buckets_in_order() {
    let mut cfg = Config::default("/tmp/somewhere");
    assert_eq!(cfg.path, "/tmp/somewhere");
    assert!(!cfg.readonly);
    cfg.bucket("a", None);
    cfg.bucket("b", Some(DatabaseFlags::integer_key()));
    assert_eq!(cfg.buckets.len(), 2);
    assert_eq!(cfg.buckets[0].0, "a");
    assert_eq!(cfg.buckets[0].1.bits(), 0);
    assert_eq!(cfg.buckets[1].1.bits(), INTEGER_KEY);
}

#[test]
fn environment_flags_follow_config() {
    let mut cfg = Config::default("/tmp/x");
    assert_eq!(cfg.environment_flags(), 0);
    cfg.readonly = true;
    assert_eq!(cfg.environment_flags(), kv::READ_ONLY);
    cfg.no_sub_dir = true;
    assert_eq!(cfg.environment_flags(), kv::READ_ONLY | kv::NO_SUB_DIR);
}
