use api_version::{APIV1TTL, APIV2, ApiVersionTag, CodecError, RawValue};

fn assert_raw_value_encode_decode_identity(
    user_value: &[u8],
    expire_ts: Option<u64>,
    encoded_bytes: &[u8],
    api_version: ApiVersionTag,
) {
    let raw_value = RawValue {
        user_value,
        expire_ts,
    };
    assert_eq!(
        api_version.encode_raw_value(raw_value).as_slice(),
        encoded_bytes
    );
    assert_eq!(
        api_version.decode_raw_value(encoded_bytes).unwrap(),
        raw_value
    );

    let raw_value = RawValue {
        user_value: user_value.to_vec(),
        expire_ts,
    };
    assert_eq!(
        api_version
            .encode_raw_value_owned(raw_value.clone())
            .as_slice(),
        encoded_bytes
    );
    assert_eq!(
        api_version
            .decode_raw_value_owned(encoded_bytes.to_vec())
            .unwrap(),
        raw_value
    );
}

#[test]
fn test_no_ttl() {
    // (user_value, encoded_bytes_V1, encoded_bytes_V1ttl, encoded_bytes_V2)
    let cases = vec![
        (&b""[..], &b""[..], &[0, 0, 0, 0, 0, 0, 0, 0][..], &[0][..]),
        (
            &b"a"[..],
            &b"a"[..],
            &[b'a', 0, 0, 0, 0, 0, 0, 0, 0][..],
            &[b'a', 0][..],
        ),
    ];
    for case in &cases {
        assert_raw_value_encode_decode_identity(case.0, None, case.1, ApiVersionTag::V1);
    }
    for case in &cases {
        assert_raw_value_encode_decode_identity(case.0, None, case.2, ApiVersionTag::V1Ttl);
    }
    for case in &cases {
        assert_raw_value_encode_decode_identity(case.0, None, case.3, ApiVersionTag::V2);
    }
}

#[test]
fn test_ttl() {
    // (user_value, expire_ts, encoded_bytes_V1ttl, encoded_bytes_V2)
    let cases = vec![
        (
            &b""[..],
            2,
            &[0, 0, 0, 0, 0, 0, 0, 2][..],
            &[0, 0, 0, 0, 0, 0, 0, 2, 1][..],
        ),
        (
            &b"a"[..],
            2,
            &[b'a', 0, 0, 0, 0, 0, 0, 0, 2][..],
            &[b'a', 0, 0, 0, 0, 0, 0, 0, 2, 1][..],
        ),
    ];

    for case in &cases {
        assert_raw_value_encode_decode_identity(
            case.0,
            Some(case.1),
            case.2,
            ApiVersionTag::V1Ttl,
        );
    }
    for case in &cases {
        assert_raw_value_encode_decode_identity(case.0, Some(case.1), case.3, ApiVersionTag::V2);
    }
}

#[test]
fn test_value_decode_err() {
    let cases = vec![
        // At least 8 bytes for expire_ts.
        (vec![], ApiVersionTag::V1Ttl),
        (vec![1, 2, 3, 4, 5, 6, 7], ApiVersionTag::V1Ttl),
        // At least 1 byte for flags.
        (vec![], ApiVersionTag::V2),
        // The last byte indicates that expire_ts is set, therefore 8 more bytes for
        // expire_ts is expected.
        (vec![1], ApiVersionTag::V2),
        (vec![1, 2, 3, 4, 5, 6, 7, 1], ApiVersionTag::V2),
        // Undefined flag.
        (vec![2], ApiVersionTag::V2),
        (vec![1, 2, 3, 4, 5, 6, 7, 8, 2], ApiVersionTag::V2),
    ];

    for (bytes, api_version) in cases {
        assert!(api_version.decode_raw_value(&bytes).is_err());
        assert!(api_version.decode_raw_value_owned(bytes).is_err());
    }
}

#[test]
fn test_value_decode_err_kinds() {
    assert_eq!(
        APIV2::decode_raw_value(&[]),
        Err(CodecError::TruncatedInput)
    );
    assert_eq!(
        APIV2::decode_raw_value(&[1]),
        Err(CodecError::TruncatedInput)
    );
    assert_eq!(
        APIV2::decode_raw_value(&[1, 2, 3, 4, 5, 6, 7, 1]),
        Err(CodecError::TruncatedInput)
    );
    assert_eq!(
        APIV2::decode_raw_value(&[2]),
        Err(CodecError::UnsupportedFlags)
    );
    assert_eq!(
        APIV2::decode_raw_value(&[1, 2, 3, 4, 5, 6, 7, 8, 3]),
        Err(CodecError::UnsupportedFlags)
    );
    assert_eq!(
        APIV1TTL::decode_raw_value(&[1, 2, 3, 4, 5, 6, 7]),
        Err(CodecError::TruncatedInput)
    );
    assert_eq!(
        APIV1TTL::decode_raw_value_owned(vec![]),
        Err(CodecError::TruncatedInput)
    );
}

#[test]
fn test_v1ttl_zero_expiry_sentinel() {
    // An absent expiry is stored as the zero sentinel, so a stored zero
    // decodes as "never expires".
    let encoded = APIV1TTL::encode_raw_value(RawValue {
        user_value: &b"v"[..],
        expire_ts: None,
    });
    assert_eq!(encoded.as_slice(), &[b'v', 0, 0, 0, 0, 0, 0, 0, 0][..]);
    let decoded = APIV1TTL::decode_raw_value(&encoded).unwrap();
    assert_eq!(decoded.expire_ts, None);
    assert_eq!(decoded.user_value, &b"v"[..]);

    let decoded = APIV1TTL::decode_raw_value(&[b'v', 0, 0, 0, 0, 0, 0, 0, 5]).unwrap();
    assert_eq!(decoded.expire_ts, Some(5));
    assert_eq!(decoded.user_value, &b"v"[..]);
}
