use bldr_session::codec::{
    decode_access_token, encode_token, is_access_token, push_varint, read_access_claims,
    read_varint, session_token_to_bytes, token_account_id, OAuthProvider, SessionToken,
};

#[test]
fn varint_of_three_hundred() {
    let mut out = vec![7u8];
    push_varint(&mut out, 300);
    assert_eq!(out, vec![7, 0xac, 0x02]);
    assert_eq!(read_varint(&out, 1), Some((300, 3)));
}

#[test]
fn varint_small_and_largest() {
    let mut out = Vec::new();
    push_varint(&mut out, 0);
    push_varint(&mut out, 127);
    assert_eq!(out, vec![0, 127]);
    let mut big = Vec::new();
    push_varint(&mut big, u64::MAX);
    assert_eq!(big.len(), 10);
    assert_eq!(read_varint(&big, 0), Some((u64::MAX, 10)));
}

#[test]
fn varint_refused_when_cut_or_too_large() {
    assert_eq!(read_varint(&vec![0x80, 0x80], 0), None);
    assert_eq!(read_varint(&vec![], 0), None);
    let too_big = vec![0xff, 0xff, 0xff, 0xff, 0xff, 0xff, 0xff, 0xff, 0xff, 0x02];
    assert_eq!(read_varint(&too_big, 0), None);
}

#[test]
fn session_token_wire_form() {
    let t = SessionToken {
        account_id: 1,
        extern_id: "1".to_string(),
        token: b"mystique".to_vec(),
        provider: OAuthProvider::GitHub,
    };
    let mut expected = vec![0x08, 0x01, 0x12, 0x01, b'1', 0x1a, 0x08];
    expected.extend_from_slice(b"mystique");
    expected.extend_from_slice(&[0x20, 0x00]);
    assert_eq!(session_token_to_bytes(&t), expected);
    assert_eq!(encode_token(&t), Some("CAESATEaCG15c3RpcXVlIAA=".to_string()));
}

#[test]
fn encoded_token_names_its_account() {
    let t = SessionToken {
        account_id: 300,
        extern_id: "1".to_string(),
        token: b"tk".to_vec(),
        provider: OAuthProvider::GitLab,
    };
    let text = encode_token(&t).unwrap();
    assert_eq!(text, "CKwCEgExGgJ0ayAC");
    assert_eq!(token_account_id(&text), Some(300));
    assert_eq!(token_account_id(&text), Some(300));
    assert_eq!(token_account_id("not base64!"), None);
}

#[test]
fn access_token_structure() {
    assert!(is_access_token("_CAUQAw=="));
    assert!(!is_access_token("CAUQAw=="));
    assert!(!is_access_token(""));
    assert_eq!(decode_access_token("_CAUQAw=="), Some((5, 3)));
    assert_eq!(decode_access_token("_CAU="), Some((5, 0)));
    assert_eq!(decode_access_token("_CAURAw=="), None);
    assert_eq!(decode_access_token("_%%%"), None);
    assert_eq!(decode_access_token("CAUQAw=="), None);
}

#[test]
fn access_claims_reject_trailing_bytes() {
    assert_eq!(read_access_claims(&vec![0x08, 0x05, 0x10, 0x03]), Some((5, 3)));
    assert_eq!(read_access_claims(&vec![0x08, 0x05, 0x10, 0x03, 0x00]), None);
    assert_eq!(read_access_claims(&vec![0x10, 0x05]), None);
    assert_eq!(read_access_claims(&vec![]), None);
    assert_eq!(
        read_access_claims(&vec![0x08, 0x01, 0x10, 0x80, 0x80, 0x80, 0x80, 0x10]),
        None
    );
}
