use sonic_store::codec::{encode_iid, encode_iids, encode_oid, encode_terms};
use sonic_store::kv::{
    StoreKVActionBuilder, StoreKVBuilder, StoreKVCompaction, StoreKVCompression, StoreKVConfig,
    StoreKVPool, StoreKVPoolAction, StoreKVWrite,
};
use sonic_store::schema::IndexMutation;

fn conf(compress: bool) -> StoreKVConfig {
    StoreKVConfig {
        path: "./data/store/kv".to_string(),
        compress,
        parallelism: 2,
        max_files: 100,
        max_compactions: 1,
        max_flushes: 1,
    }
}

#[test]
fn configure_options() {
    let o = StoreKVBuilder::configure(&conf(true));
    assert!(o.create_if_missing);
    assert!(!o.use_fsync);
    assert!(matches!(o.compaction_style, StoreKVCompaction::Level));
    assert!(matches!(o.compression, StoreKVCompression::Lz4));
    assert_eq!(o.parallelism, 2);
    assert_eq!(o.max_open_files, 100);
    assert_eq!(o.max_background_compactions, 1);
    assert_eq!(o.max_background_flushes, 1);
    let o = StoreKVBuilder::configure(&conf(false));
    assert!(matches!(o.compression, StoreKVCompression::Uncompressed));
}

#[test]
fn pool_opens_once_and_closes_when_idle() {
    let mut pool = StoreKVPool::new();
    assert!(matches!(pool.acquire(), StoreKVPoolAction::Open));
    assert!(matches!(pool.acquire(), StoreKVPoolAction::Reuse));
    pool.release(10);
    assert!(matches!(pool.tick(100, 30), StoreKVPoolAction::Keep));
    pool.release(20);
    assert_eq!(pool.users, 0);
    assert!(matches!(pool.tick(40, 30), StoreKVPoolAction::Keep));
    assert!(matches!(pool.tick(50, 30), StoreKVPoolAction::Close));
    assert!(!pool.open);
    assert!(matches!(pool.acquire(), StoreKVPoolAction::Open));
}

fn put(w: &StoreKVWrite) -> (&str, &[u8]) {
    match w {
        StoreKVWrite::Put(k, v) => (k.as_str(), v.as_slice()),
        StoreKVWrite::Delete(_) => panic!("expected a put"),
    }
}

fn del(w: &StoreKVWrite) -> &str {
    match w {
        StoreKVWrite::Delete(k) => k.as_str(),
        StoreKVWrite::Put(_, _) => panic!("expected a delete"),
    }
}

#[test]
fn writes_carry_physical_keys_and_values() {
    let action = StoreKVActionBuilder::new("user:0dcde3a6");
    let terms = vec!["hello".to_string()];
    let batch = action.batch(&vec![
        IndexMutation::SetTermToIIDs("hello".to_string(), vec![10292198]),
        IndexMutation::SetOIDToIID("conversation:6501e83a".to_string(), 10292198),
        IndexMutation::SetIIDToOID(10292198, "conversation:6501e83a".to_string()),
        IndexMutation::SetIIDToTerms(1, terms.clone()),
        IndexMutation::DeleteIIDToTerms(20),
        IndexMutation::DeleteTermToIIDs("hello".to_string()),
    ]);
    assert_eq!(batch.len(), 6);
    assert_eq!(put(&batch[0]), ("0:vngsgj:l8a8u0vgmher", &encode_iids(&vec![10292198])[..]));
    assert_eq!(put(&batch[1]), ("1:vngsgj:330ky6g2kd34c", &encode_iid(10292198)[..]));
    assert_eq!(
        put(&batch[2]),
        ("2:vngsgj:64lie", &encode_oid("conversation:6501e83a")[..])
    );
    assert_eq!(put(&batch[3]), ("3:vngsgj:1", &encode_terms(&terms)[..]));
    assert_eq!(del(&batch[4]), "3:vngsgj:k");
    assert_eq!(del(&batch[5]), "0:vngsgj:l8a8u0vgmher");
}
