use kv::{Config, DatabaseFlags, Integer, Iter, KvError, Store, TxnStatus, ValueRef, INTEGER_KEY};

fn fresh_path(tag: &str) -> String {
    let nanos = std::time::SystemTime::now()
        .duration_since(std::time::UNIX_EPOCH)
        .unwrap()
        .as_nanos();
    format!("/tmp/kv-test-{}-{}", tag, nanos)
}

fn config_with(tag: &str, buckets: &[&str]) -> Config {
    let mut cfg = Config::default(&fresh_path(tag));
    cfg.no_sub_dir = true;
    for b in buckets {
        cfg.bucket(b, None);
    }
    cfg
}

#[test]
fn end_to_end_set_commit_get() {
    let cfg = config_with("e2e", &["test"]);
    let store = Store::new(cfg).unwrap();
    let bucket = store.bucket::<&str, &str>(Some("test")).unwrap();
    {
        let mut txn = store.write_txn().unwrap();
        txn.set(&bucket, "testing", "abc123").unwrap();
        txn.commit().unwrap();
    }
    let txn = store.read_txn().unwrap();
    let val = txn.get(&bucket, "testing").unwrap();
    assert_eq!(val, "abc123");
}

#[test]
fn integer_keys_iterate_in_numeric_order() {
    let cfg = config_with("iter", &["ints"]);
    let store = Store::new(cfg).unwrap();
    let bucket = store.int_bucket::<&str>(Some("ints")).unwrap();
    assert_eq!(bucket.flags().bits() & INTEGER_KEY, INTEGER_KEY);
    {
        let mut txn = store.write_txn().unwrap();
        txn.set(&bucket, Integer::from(3u64), "c").unwrap();
        txn.set(&bucket, Integer::from(1u64), "a").unwrap();
        txn.set(&bucket, Integer::from(2u64), "b").unwrap();
        txn.commit().unwrap();
    }
    let txn = store.read_txn().unwrap();
    let mut cursor = txn.cursor(&bucket).unwrap();
    let mut seen: Vec<(u64, String)> = Vec::new();
    let mut item = cursor.first().unwrap();
    while let Some((k, v)) = item {
        let key = Integer::from_bytes(k.unwrap()).unwrap();
        seen.push((u64::from(key), v.to_string()));
        item = cursor.next().unwrap();
    }
    assert_eq!(
        seen,
        vec![(1, "a".to_string()), (2, "b".to_string()), (3, "c".to_string())]
    );
}

#[test]
fn integer_keys_order_numerically_past_one_byte() {
    let cfg = config_with("iterwide", &["ints"]);
    let store = Store::new(cfg).unwrap();
    let bucket = store.int_bucket::<&str>(Some("ints")).unwrap();
    {
        let mut txn = store.write_txn().unwrap();
        txn.set(&bucket, Integer::from(256u64), "big").unwrap();
        txn.set(&bucket, Integer::from(2u64), "small").unwrap();
        txn.commit().unwrap();
    }
    let txn = store.read_txn().unwrap();
    let mut cursor = txn.cursor(&bucket).unwrap();
    let (k, v) = cursor.first().unwrap().unwrap();
    assert_eq!(u64::from(Integer::from_bytes(k.unwrap()).unwrap()), 2);
    assert_eq!(v, "small");
    let (k, v) = cursor.last().unwrap().unwrap();
    assert_eq!(u64::from(Integer::from_bytes(k.unwrap()).unwrap()), 256);
    assert_eq!(v, "big");
    assert!(cursor.next().unwrap().is_none());
}

#[test]
fn cursor_seek_and_seek_exact() {
    let cfg = config_with("seek", &["s"]);
    let store = Store::new(cfg).unwrap();
    let bucket = store.bucket::<&str, &str>(Some("s")).unwrap();
    {
        let mut txn = store.write_txn().unwrap();
        txn.set(&bucket, "apple", "1").unwrap();
        txn.set(&bucket, "cherry", "3").unwrap();
        txn.commit().unwrap();
    }
    let txn = store.read_txn().unwrap();
    let mut cursor = txn.cursor(&bucket).unwrap();
    let (k, v) = cursor.seek(b"banana").unwrap().unwrap();
    assert_eq!(k.unwrap(), b"cherry");
    assert_eq!(v, "3");
    let (_, v) = cursor.current().unwrap().unwrap();
    assert_eq!(v, "3");
    let (_, v) = cursor.prev().unwrap().unwrap();
    assert_eq!(v, "1");
    assert!(cursor.seek_exact(b"banana").unwrap().is_none());
    let (_, v) = cursor.seek_exact(b"apple").unwrap().unwrap();
    assert_eq!(v, "1");
    assert!(cursor.seek(b"zebra").unwrap().is_none());
}

#[test]
fn set_then_get_same_and_later_txn_then_delete() {
    let cfg = config_with("setget", &["b"]);
    let store = Store::new(cfg).unwrap();
    let bucket = store.bucket::<&str, &str>(Some("b")).unwrap();
    {
        let mut txn = store.write_txn().unwrap();
        txn.set(&bucket, "k", "v").unwrap();
        assert_eq!(txn.get(&bucket, "k").unwrap(), "v");
        txn.commit().unwrap();
    }
    {
        let txn = store.read_txn().unwrap();
        assert_eq!(txn.get(&bucket, "k").unwrap(), "v");
    }
    {
        let mut txn = store.write_txn().unwrap();
        txn.del(&bucket, "k").unwrap();
        txn.commit().unwrap();
    }
    let txn = store.read_txn().unwrap();
    assert_eq!(txn.get(&bucket, "k"), Err(KvError::NotFound));
}

#[test]
fn set_overwrites_existing_value() {
    let cfg = config_with("overwrite", &["b"]);
    let store = Store::new(cfg).unwrap();
    let bucket = store.bucket::<&str, &str>(Some("b")).unwrap();
    let mut txn = store.write_txn().unwrap();
    txn.set(&bucket, "k", "one").unwrap();
    txn.set(&bucket, "k", "two").unwrap();
    assert_eq!(txn.get(&bucket, "k").unwrap(), "two");
    txn.commit().unwrap();
}

#[test]
fn delete_of_absent_key_succeeds() {
    let cfg = config_with("delabsent", &["b"]);
    let store = Store::new(cfg).unwrap();
    let bucket = store.bucket::<&str, &str>(Some("b")).unwrap();
    let mut txn = store.write_txn().unwrap();
    assert_eq!(txn.del(&bucket, "nothing"), Ok(()));
    assert_eq!(txn.get(&bucket, "nothing"), Err(KvError::NotFound));
    txn.abort().unwrap();
}

#[test]
fn read_txn_does_not_see_uncommitted_writes() {
    let cfg = config_with("snapshot", &["b"]);
    let store = Store::new(cfg).unwrap();
    let bucket = store.bucket::<&str, &str>(Some("b")).unwrap();
    let mut writer = store.write_txn().unwrap();
    writer.set(&bucket, "k", "v").unwrap();
    let mut reader = store.read_txn().unwrap();
    assert_eq!(reader.get(&bucket, "k"), Err(KvError::NotFound));
    writer.commit().unwrap();
    assert_eq!(reader.get(&bucket, "k"), Err(KvError::NotFound));
    reader.commit().unwrap();
    let later = store.read_txn().unwrap();
    assert_eq!(later.get(&bucket, "k").unwrap(), "v");
}

#[test]
fn aborted_writes_are_discarded() {
    let cfg = config_with("abort", &["b"]);
    let store = Store::new(cfg).unwrap();
    let bucket = store.bucket::<&str, &str>(Some("b")).unwrap();
    {
        let mut txn = store.write_txn().unwrap();
        txn.set(&bucket, "k", "v").unwrap();
        txn.abort().unwrap();
        assert_eq!(txn.status(), TxnStatus::Aborted);
    }
    let txn = store.read_txn().unwrap();
    assert_eq!(txn.get(&bucket, "k"), Err(KvError::NotFound));
}

#[test]
fn readonly_store_refuses_write_txn() {
    let path = fresh_path("readonly");
    {
        let mut cfg = Config::default(&path);
        cfg.no_sub_dir = true;
        let store = Store::new(cfg).unwrap();
        store.sync(true).unwrap();
    }
    let mut cfg = Config::default(&path);
    cfg.no_sub_dir = true;
    cfg.readonly = true;
    let store = Store::new(cfg).unwrap();
    assert!(matches!(store.write_txn(), Err(KvError::ReadOnly)));
    assert!(store.read_txn().is_ok());
}

#[test]
fn undeclared_bucket_is_invalid() {
    let cfg = config_with("missing", &["test"]);
    let store = Store::new(cfg).unwrap();
    assert!(matches!(
        store.bucket::<&str, &str>(Some("missing")),
        Err(KvError::InvalidBucket)
    ));
    assert!(matches!(
        store.int_bucket::<&str>(Some("missing")),
        Err(KvError::InvalidBucket)
    ));
}

#[test]
fn unnamed_bucket_is_always_known() {
    let cfg = config_with("unnamed", &[]);
    let store = Store::new(cfg).unwrap();
    let bucket = store.bucket::<&str, &str>(None).unwrap();
    assert_eq!(bucket.flags().bits(), 0);
    assert!(matches!(
        store.bucket::<&str, &str>(Some("default")),
        Err(KvError::InvalidBucket)
    ));
}

#[test]
fn declared_default_sets_unnamed_bucket_flags() {
    let mut cfg = config_with("declareddefault", &[]);
    cfg.bucket("default", Some(DatabaseFlags::integer_key()));
    let store = Store::new(cfg).unwrap();
    let bucket = store.bucket::<Integer, &str>(None).unwrap();
    assert_eq!(bucket.flags().bits(), INTEGER_KEY);
}

#[test]
fn later_declaration_overrides_earlier() {
    let mut cfg = config_with("redeclare", &["b"]);
    cfg.bucket("b", Some(DatabaseFlags::dup_sort()));
    assert_eq!(cfg.buckets.len(), 2);
    let store = Store::new(cfg).unwrap();
    let bucket = store.bucket::<&str, &str>(Some("b")).unwrap();
    assert_eq!(bucket.flags().bits(), kv::DUP_SORT);
}

#[test]
fn set_on_read_txn_is_read_only_error() {
    let cfg = config_with("rotxn", &["b"]);
    let store = Store::new(cfg).unwrap();
    let bucket = store.bucket::<&str, &str>(Some("b")).unwrap();
    let mut txn = store.read_txn().unwrap();
    assert_eq!(txn.status(), TxnStatus::ReadOnly);
    assert_eq!(txn.set(&bucket, "k", "v"), Err(KvError::ReadOnly));
    assert_eq!(txn.del(&bucket, "k"), Err(KvError::ReadOnly));
}

#[test]
fn finished_txn_reports_transaction_state() {
    let cfg = config_with("finished", &["b"]);
    let store = Store::new(cfg).unwrap();
    let bucket = store.bucket::<&str, &str>(Some("b")).unwrap();
    let mut txn = store.write_txn().unwrap();
    assert_eq!(txn.status(), TxnStatus::ReadWrite);
    txn.commit().unwrap();
    assert_eq!(txn.status(), TxnStatus::Committed);
    assert_eq!(txn.commit(), Err(KvError::TransactionState));
    assert_eq!(txn.abort(), Err(KvError::TransactionState));
    assert_eq!(txn.get(&bucket, "k"), Err(KvError::TransactionState));
    assert_eq!(txn.set(&bucket, "k", "v"), Err(KvError::TransactionState));
    assert!(matches!(txn.cursor(&bucket), Err(KvError::TransactionState)));
}

#[test]
fn invalid_text_is_encoding_failure() {
    let cfg = config_with("encoding", &["b"]);
    let store = Store::new(cfg).unwrap();
    let raw = store.bucket::<&str, &[u8]>(Some("b")).unwrap();
    let text = store.bucket::<&str, &str>(Some("b")).unwrap();
    let owned = store.bucket::<&str, String>(Some("b")).unwrap();
    let bad: &[u8] = &[0xff, 0xfe];
    let mut txn = store.write_txn().unwrap();
    txn.set(&raw, "k", bad).unwrap();
    assert_eq!(txn.get(&raw, "k").unwrap(), bad);
    assert_eq!(txn.get(&text, "k"), Err(KvError::EncodingFailure));
    assert_eq!(txn.get(&owned, "k"), Err(KvError::EncodingFailure));
    txn.set(&raw, "ok", "fine".as_bytes()).unwrap();
    assert_eq!(txn.get(&owned, "ok").unwrap(), "fine".to_string());
}

#[test]
fn value_ref_values_round_trip() {
    let cfg = config_with("valueref", &["b"]);
    let store = Store::new(cfg).unwrap();
    let bucket = store.bucket::<&str, ValueRef>(Some("b")).unwrap();
    let mut txn = store.write_txn().unwrap();
    txn.set(&bucket, "k", ValueRef::from_str("hello")).unwrap();
    let got = txn.get(&bucket, "k").unwrap();
    assert_eq!(got.as_slice(), b"hello");
}

#[test]
fn scoped_write_then_read() {
    let cfg = config_with("scoped", &["b"]);
    let mut store = Store::new(cfg).unwrap();
    let bucket = store.bucket::<&str, &str>(Some("b")).unwrap();
    let r = store.with_write_txn(|txn| {
        txn.set(&bucket, "k", "v")?;
        Ok(7)
    });
    assert_eq!(r, Ok(7));
    let got = store.with_read_txn(|txn| txn.get(&bucket, "k").map(|v| v.to_string()));
    assert_eq!(got, Ok("v".to_string()));
}

#[test]
fn scoped_write_failure_is_not_committed() {
    let cfg = config_with("scopedfail", &["b"]);
    let mut store = Store::new(cfg).unwrap();
    let bucket = store.bucket::<&str, &str>(Some("b")).unwrap();
    let r: Result<(), KvError> = store.with_write_txn(|txn| {
        txn.set(&bucket, "k", "v")?;
        Err(KvError::NotFound)
    });
    assert_eq!(r, Err(KvError::NotFound));
    let got = store.with_read_txn(|txn| txn.get(&bucket, "k").map(|v| v.to_string()));
    assert_eq!(got, Err(KvError::NotFound));
}

#[test]
fn scoped_write_on_readonly_store_is_refused() {
    let path = fresh_path("scopedro");
    {
        let mut cfg = Config::default(&path);
        cfg.no_sub_dir = true;
        Store::new(cfg).unwrap();
    }
    let mut cfg = Config::default(&path);
    cfg.no_sub_dir = true;
    cfg.readonly = true;
    let mut store = Store::new(cfg).unwrap();
    let r: Result<(), KvError> = store.with_write_txn(|_txn| Ok(()));
    assert_eq!(r, Err(KvError::ReadOnly));
}

#[test]
fn store_keeps_its_config_and_reports_stats() {
    let cfg = config_with("stat", &["b"]);
    let store = Store::new(cfg).unwrap();
    assert!(store.config().no_sub_dir);
    assert_eq!(store.config().buckets.len(), 1);
    let stat = store.stat().unwrap();
    assert!(stat.page_size() > 0);
    store.sync(false).unwrap();
}

#[test]
fn open_fails_for_missing_directory() {
    let cfg = Config::default("/nonexistent-dir-for-kv-tests/sub");
    assert!(matches!(Store::new(cfg), Err(KvError::Lmdb(_))));
}

#[test]
fn cursor_on_empty_bucket_finds_nothing() {
    let cfg = config_with("emptycursor", &["e"]);
    let store = Store::new(cfg).unwrap();
    let bucket = store.bucket::<&str, &str>(Some("e")).unwrap();
    let txn = store.read_txn().unwrap();
    let mut cursor = txn.cursor(&bucket).unwrap();
    assert!(cursor.first().unwrap().is_none());
    assert!(cursor.last().unwrap().is_none());
    assert!(cursor.seek_exact(b"k").unwrap().is_none());
}

#[test]
fn cursor_in_write_txn_sees_own_writes() {
    let cfg = config_with("owncursor", &["w"]);
    let store = Store::new(cfg).unwrap();
    let bucket = store.bucket::<&str, &str>(Some("w")).unwrap();
    let mut txn = store.write_txn().unwrap();
    txn.set(&bucket, "x", "1").unwrap();
    let mut cursor = txn.cursor(&bucket).unwrap();
    let (k, v) = cursor.first().unwrap().unwrap();
    assert_eq!(k.unwrap(), b"x");
    assert_eq!(v, "1");
}

#[test]
fn value_mut_edits_in_place() {
    let mut data = [1u8, 2, 3];
    {
        let mut m = kv::ValueMut::new(&mut data);
        m.as_mut_slice()[0] = 9;
        assert_eq!(m.as_slice(), &[9, 2, 3]);
    }
    assert_eq!(data, [9, 2, 3]);
}

#[test]
fn second_writer_on_one_store_is_busy() {
    let cfg = config_with("busy", &["b"]);
    let store = Store::new(cfg).unwrap();
    let bucket = store.bucket::<&str, &str>(Some("b")).unwrap();
    let mut first = store.write_txn().unwrap();
    assert!(matches!(store.write_txn(), Err(KvError::Busy)));
    assert!(matches!(store.bucket::<&str, &str>(Some("b")), Err(KvError::Busy)));
    first.set(&bucket, "k", "v").unwrap();
    first.commit().unwrap();
    let mut second = store.write_txn().unwrap();
    assert_eq!(second.get(&bucket, "k").unwrap(), "v");
    second.abort().unwrap();
    assert!(store.write_txn().is_ok());
}

#[test]
fn bucket_name_with_nul_is_invalid() {
    let cfg = config_with("nul", &["a\0b"]);
    let store = Store::new(cfg).unwrap();
    assert!(matches!(
        store.bucket::<&str, &str>(Some("a\0b")),
        Err(KvError::InvalidBucket)
    ));
}

#[test]
fn same_bucket_twice_is_one_namespace() {
    let cfg = config_with("twice", &["b"]);
    let store = Store::new(cfg).unwrap();
    let b1 = store.bucket::<&str, &str>(Some("b")).unwrap();
    let b2 = store.bucket::<&str, &str>(Some("b")).unwrap();
    assert_eq!(b1.db(), b2.db());
}

#[test]
fn iter_walks_both_ways_and_stays_exhausted() {
    let cfg = config_with("walk", &["ints"]);
    let store = Store::new(cfg).unwrap();
    let bucket = store.int_bucket::<&str>(Some("ints")).unwrap();
    {
        let mut txn = store.write_txn().unwrap();
        txn.set(&bucket, Integer::from(2u64), "b").unwrap();
        txn.set(&bucket, Integer::from(1u64), "a").unwrap();
        txn.set(&bucket, Integer::from(3u64), "c").unwrap();
        txn.commit().unwrap();
    }
    let txn = store.read_txn().unwrap();
    let mut walk = Iter::forward(txn.cursor(&bucket).unwrap());
    let mut seen: Vec<(u64, String)> = Vec::new();
    while let Some(item) = walk.next_entry() {
        let (k, v) = item.unwrap();
        seen.push((u64::from(Integer::from_bytes(k.unwrap()).unwrap()), v.to_string()));
    }
    assert_eq!(
        seen,
        vec![(1, "a".to_string()), (2, "b".to_string()), (3, "c".to_string())]
    );
    assert!(walk.next_entry().is_none());
    let mut back = Iter::backward(txn.cursor(&bucket).unwrap());
    let mut values: Vec<String> = Vec::new();
    while let Some(item) = back.next_entry() {
        values.push(item.unwrap().1.to_string());
    }
    assert_eq!(values, vec!["c".to_string(), "b".to_string(), "a".to_string()]);
}

#[test]
fn write_txn_reads_bucket_flags() {
    let mut cfg = config_with("dbflags", &["plain"]);
    cfg.bucket("dups", Some(DatabaseFlags::dup_sort()));
    let store = Store::new(cfg).unwrap();
    let plain = store.bucket::<&str, &str>(Some("plain")).unwrap();
    let dups = store.bucket::<&str, &str>(Some("dups")).unwrap();
    let mut txn = store.write_txn().unwrap();
    assert_eq!(txn.bucket_db_flags(&plain).unwrap() & kv::DUP_SORT, 0);
    assert_eq!(txn.bucket_db_flags(&dups).unwrap() & kv::DUP_SORT, kv::DUP_SORT);
    txn.set(&dups, "k", "b").unwrap();
    txn.set(&dups, "k", "a").unwrap();
    assert_eq!(txn.get(&dups, "k").unwrap(), "a");
    txn.commit().unwrap();
    let ro = store.read_txn().unwrap();
    assert_eq!(ro.bucket_db_flags(&plain), Err(KvError::ReadOnly));
}

#[test]
fn scoped_write_outcome_by_case() {
    assert_eq!(kv::finish_write::<u8>(Ok(5), Ok(())), Ok(5));
    assert_eq!(kv::finish_write::<u8>(Err(KvError::NotFound), Ok(())), Err(KvError::NotFound));
    assert_eq!(
        kv::finish_write::<u8>(Err(KvError::ReadOnly), Err(KvError::TransactionState)),
        Err(KvError::ReadOnly)
    );
    assert_eq!(
        kv::finish_write::<u8>(Ok(5), Err(KvError::TransactionState)),
        Err(KvError::TransactionState)
    );
}

#[test]
fn value_ref_compares_by_bytes() {
    assert_eq!(ValueRef::from_str("ab"), ValueRef::new(b"ab"));
    assert!(ValueRef::new(b"ab") < ValueRef::new(b"b"));
}
