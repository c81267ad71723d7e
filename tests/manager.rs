use kv::{decide_reuse, Config, DatabaseFlags, KvError, Manager, Reuse};

fn fresh_config(tag: &str) -> Config {
    let nanos = std::time::SystemTime::now()
        .duration_since(std::time::UNIX_EPOCH)
        .unwrap()
        .as_nanos();
    let mut cfg = Config::default(&format!("/tmp/kv-mgr-{}-{}", tag, nanos));
    cfg.no_sub_dir = true;
    cfg
}

fn copy_of(cfg: &Config) -> Config {
    let mut c = Config::default(&cfg.path);
    c.no_sub_dir = cfg.no_sub_dir;
    for (name, flags) in &cfg.buckets {
        c.bucket(name, Some(*flags));
    }
    c
}

#[test]
fn same_path_shares_one_environment() {
    let mut mgr = Manager::new();
    let mut cfg = fresh_config("share");
    cfg.bucket("test", None);
    let h1 = mgr.open(copy_of(&cfg)).unwrap();
    let h2 = mgr.open(copy_of(&cfg)).unwrap();
    assert!(h1.shares_store_with(&h2));
    {
        let store = h1.write().unwrap();
        let bucket = store.bucket::<&str, &str>(Some("test")).unwrap();
        let mut txn = store.write_txn().unwrap();
        txn.set(&bucket, "testing", "abc123").unwrap();
        txn.commit().unwrap();
    }
    let store = h2.read().unwrap();
    let bucket = store.bucket::<&str, &str>(Some("test")).unwrap();
    let txn = store.read_txn().unwrap();
    assert_eq!(txn.get(&bucket, "testing").unwrap(), "abc123");
}

#[test]
fn different_paths_get_different_stores() {
    let mut mgr = Manager::new();
    let h1 = mgr.open(fresh_config("one")).unwrap();
    let h2 = mgr.open(fresh_config("two")).unwrap();
    assert!(!h1.shares_store_with(&h2));
}

#[test]
fn conflicting_bucket_flags_are_refused() {
    let mut mgr = Manager::new();
    let mut cfg = fresh_config("conflict");
    cfg.bucket("b", None);
    let _h1 = mgr.open(copy_of(&cfg)).unwrap();
    let mut other = copy_of(&cfg);
    other.bucket("b", Some(DatabaseFlags::integer_key()));
    assert!(matches!(mgr.open(other), Err(KvError::ManagerConflict)));
}

#[test]
fn released_path_is_opened_afresh() {
    let mut mgr = Manager::new();
    let mut cfg = fresh_config("release");
    cfg.bucket("b", None);
    let h1 = mgr.open(copy_of(&cfg)).unwrap();
    drop(h1);
    let mut other = copy_of(&cfg);
    other.bucket("b", Some(DatabaseFlags::integer_key()));
    let h2 = mgr.open(other).unwrap();
    let store = h2.read().unwrap();
    let bucket = store.bucket::<&str, &str>(Some("b")).unwrap();
    assert_eq!(bucket.flags().bits(), kv::INTEGER_KEY);
}

#[test]
fn handle_read_while_written_is_busy() {
    let mut mgr = Manager::new();
    let cfg = fresh_config("handlebusy");
    let h1 = mgr.open(copy_of(&cfg)).unwrap();
    let h2 = mgr.open(copy_of(&cfg)).unwrap();
    let guard = h1.write().unwrap();
    assert!(matches!(h2.read(), Err(KvError::Busy)));
    assert!(matches!(h2.write(), Err(KvError::Busy)));
    drop(guard);
    let _r1 = h1.read().unwrap();
    let _r2 = h2.read().unwrap();
}

#[test]
fn reuse_decision_follows_holders_and_agreement() {
    assert_eq!(decide_reuse(2, true), Reuse::Share);
    assert_eq!(decide_reuse(3, false), Reuse::Conflict);
    assert_eq!(decide_reuse(1, true), Reuse::Reopen);
    assert_eq!(decide_reuse(1, false), Reuse::Reopen);
}
