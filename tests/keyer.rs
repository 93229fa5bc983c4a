use sonic_store::keyer::{StoreKeyerBuilder, StoreKeyerIdx};

#[test]
fn it_keys_term_to_iids() {
    assert_eq!(
        StoreKeyerBuilder::term_to_iids("user:0dcde3a6", "hello").to_string(),
        "0:vngsgj:l8a8u0vgmher"
    );
    assert_eq!(
        StoreKeyerBuilder::term_to_iids("default", "yes").to_string(),
        "0:tlegv5:8hzoehaig16x"
    );
}

#[test]
fn it_keys_oid_to_iid() {
    assert_eq!(
        StoreKeyerBuilder::oid_to_iid("user:0dcde3a6", "conversation:6501e83a".to_string())
            .to_string(),
        "1:vngsgj:330ky6g2kd34c"
    );
}

#[test]
fn it_keys_iid_to_oid() {
    assert_eq!(
        StoreKeyerBuilder::iid_to_oid("user:0dcde3a6", 10292198).to_string(),
        "2:vngsgj:64lie"
    );
}

#[test]
fn it_keys_iid_to_terms() {
    assert_eq!(
        StoreKeyerBuilder::iid_to_terms("user:0dcde3a6", 1).to_string(),
        "3:vngsgj:1"
    );
    assert_eq!(
        StoreKeyerBuilder::iid_to_terms("user:0dcde3a6", 20).to_string(),
        "3:vngsgj:k"
    );
}

#[test]
fn encoding_twice_gives_the_same_key() {
    let a = StoreKeyerBuilder::term_to_iids("default", "yes").to_string();
    let b = StoreKeyerBuilder::term_to_iids("default", "yes").to_string();
    assert_eq!(a, b);
    let c = StoreKeyerBuilder::oid_to_iid("default", "yes".to_string()).to_string();
    let d = StoreKeyerBuilder::oid_to_iid("default", "yes".to_string()).to_string();
    assert_eq!(c, d);
}

#[test]
fn kinds_differ_in_the_discriminant() {
    let keys = vec![
        StoreKeyerBuilder::term_to_iids("b", "7").to_string(),
        StoreKeyerBuilder::oid_to_iid("b", "7".to_string()).to_string(),
        StoreKeyerBuilder::iid_to_oid("b", 7).to_string(),
        StoreKeyerBuilder::iid_to_terms("b", 7).to_string(),
    ];
    for (i, key) in keys.iter().enumerate() {
        assert!(key.starts_with(&format!("{}:", i)));
    }
    assert_eq!(keys[2][1..], keys[3][1..]);
}

#[test]
fn integer_routes_are_not_hashed() {
    assert_eq!(StoreKeyerBuilder::iid_to_oid("b", 0).route_to_compact(), "0");
    assert_eq!(StoreKeyerBuilder::iid_to_oid("b", 35).route_to_compact(), "z");
    assert_eq!(StoreKeyerBuilder::iid_to_terms("b", 36).route_to_compact(), "10");
    assert_eq!(
        StoreKeyerBuilder::iid_to_terms("b", u64::MAX).route_to_compact(),
        "3w5e11264sgsf"
    );
}

#[test]
fn empty_bucket_and_route_encode() {
    let key = StoreKeyerBuilder::term_to_iids("", "").to_string();
    let fields: Vec<&str> = key.split(':').collect();
    assert_eq!(fields.len(), 3);
    assert_eq!(fields[0], "0");
    assert!(!fields[1].is_empty());
    assert!(!fields[2].is_empty());
}

#[test]
fn bucket_token_is_shared_by_all_kinds() {
    let a = StoreKeyerBuilder::term_to_iids("user:0dcde3a6", "x").bucket_to_compact();
    let b = StoreKeyerBuilder::iid_to_terms("user:0dcde3a6", 3).bucket_to_compact();
    assert_eq!(a, "vngsgj");
    assert_eq!(b, "vngsgj");
}

#[test]
fn discriminants_of_each_kind() {
    assert_eq!(StoreKeyerIdx::TermToIIDs("t").to_index(), 0);
    assert_eq!(StoreKeyerIdx::OIDToIID("o".to_string()).to_index(), 1);
    assert_eq!(StoreKeyerIdx::IIDToOID(4).to_index(), 2);
    assert_eq!(StoreKeyerIdx::IIDToTerms(4).to_index(), 3);
}
