use sonic_store::codec::{
    decode_iid, decode_iids, decode_oid, decode_terms, encode_iid, encode_iids, encode_oid,
    encode_terms,
};

#[test]
fn iids_round_trip() {
    let bytes = encode_iids(&vec![1, 256, u64::MAX]);
    assert_eq!(
        bytes,
        vec![
            1, 0, 0, 0, 0, 0, 0, 0, 0, 1, 0, 0, 0, 0, 0, 0, 255, 255, 255, 255, 255, 255, 255, 255
        ]
    );
    assert_eq!(decode_iids(&bytes), Some(vec![1, 256, u64::MAX]));
    assert_eq!(encode_iids(&vec![]), Vec::<u8>::new());
    assert_eq!(decode_iids(&[]), Some(vec![]));
    assert_eq!(decode_iids(&[1, 2, 3]), None);
}

#[test]
fn iid_round_trip() {
    assert_eq!(encode_iid(10292198), 10292198u64.to_le_bytes().to_vec());
    assert_eq!(decode_iid(&encode_iid(10292198)), Some(10292198));
    assert_eq!(decode_iid(&[0; 7]), None);
    assert_eq!(decode_iid(&[0; 9]), None);
}

#[test]
fn oid_round_trip() {
    assert_eq!(encode_oid("conversation:6501e83a"), b"conversation:6501e83a".to_vec());
    assert_eq!(decode_oid("héllo".as_bytes()), Some("héllo".to_string()));
    assert_eq!(decode_oid(&[0xff, 0xfe]), None);
}

#[test]
fn terms_round_trip() {
    let terms = vec!["hi".to_string(), "".to_string(), "é".to_string()];
    let bytes = encode_terms(&terms);
    assert_eq!(
        bytes,
        vec![2, 0, 0, 0, b'h', b'i', 0, 0, 0, 0, 2, 0, 0, 0, 0xc3, 0xa9]
    );
    assert_eq!(decode_terms(&bytes), Some(terms));
    assert_eq!(decode_terms(&[]), Some(vec![]));
}

#[test]
fn terms_reject_bad_frames() {
    assert_eq!(decode_terms(&[2, 0, 0]), None);
    assert_eq!(decode_terms(&[5, 0, 0, 0, b'a']), None);
    assert_eq!(decode_terms(&[1, 0, 0, 0, 0xff]), None);
}
