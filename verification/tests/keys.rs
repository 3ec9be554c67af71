use api_version::{APIV2, ApiVersionTag, CodecError};

fn assert_raw_key_encode_decode_identity(
    user_key: &[u8],
    ts: Option<u64>,
    encoded_bytes: &[u8],
    api_version: ApiVersionTag,
    expected_ts: Option<u64>,
) {
    assert_eq!(
        api_version.encode_raw_key(user_key, ts).as_slice(),
        encoded_bytes
    );
    assert_eq!(
        api_version
            .decode_raw_key(encoded_bytes, expected_ts.is_some())
            .unwrap(),
        (user_key.to_vec(), expected_ts)
    );

    assert_eq!(
        api_version
            .encode_raw_key_owned(user_key.to_vec(), ts)
            .as_slice(),
        encoded_bytes
    );
    assert_eq!(
        api_version
            .decode_raw_key_owned(encoded_bytes.to_vec(), expected_ts.is_some())
            .unwrap(),
        (user_key.to_vec(), expected_ts)
    );
}

#[test]
fn test_raw_key() {
    // (user_key, ts, encoded_bytes_V1, encoded_bytes_V1ttl, encoded_bytes_V2)
    let cases = vec![
        (
            &b""[..],
            None,
            &[][..],
            &[][..],
            &[0, 0, 0, 0, 0, 0, 0, 0, 0xf7][..],
        ),
        (
            &b"r"[..],
            None,
            &[b'r'][..],
            &[b'r'][..],
            &[b'r', 0, 0, 0, 0, 0, 0, 0, 0xf8][..],
        ),
        (
            &b"r"[..],
            Some(2),
            &[b'r'][..],
            &[b'r'][..],
            &[
                b'r', 0, 0, 0, 0, 0, 0, 0, 0xf8, 0xff, 0xff, 0xff, 0xff, 0xff, 0xff, 0xff, 0xfd,
            ][..],
        ),
        (
            &b"r234567890"[..],
            Some(3),
            &b"r234567890"[..],
            &b"r234567890"[..],
            &[
                b'r', b'2', b'3', b'4', b'5', b'6', b'7', b'8', 0xff, b'9', b'0', 0, 0, 0, 0, 0,
                0, 0xf9, 0xff, 0xff, 0xff, 0xff, 0xff, 0xff, 0xff, 0xfc,
            ][..],
        ),
    ];

    for case in &cases {
        assert_raw_key_encode_decode_identity(case.0, case.1, case.2, ApiVersionTag::V1, None);
    }
    for case in &cases {
        assert_raw_key_encode_decode_identity(case.0, case.1, case.3, ApiVersionTag::V1Ttl, None);
    }
    for case in &cases {
        if !case.0.is_empty() {
            assert_raw_key_encode_decode_identity(
                case.0,
                case.1,
                case.4,
                ApiVersionTag::V2,
                case.1,
            );
        }
    }
}

#[test]
fn test_v2_key_decode_err() {
    let cases: Vec<(Vec<u8>, bool)> = vec![
        // Invalid prefix
        (vec![1, 2, 3, 4, 5, 6, 7, 8, 9], false),
        // Memcomparable-encoded padding: n * 9 + Optional 8
        (vec![b'r', 2, 3, 4, 5, 6, 7, 8], false),
        (vec![b'r', 2, 3, 4, 5, 6, 7, 8, 9, 10], false),
        (vec![b'r', 2, 3, 4, 5, 6, 7, 8, 9, 10, 11, 12], true),
        (
            vec![
                b'r', 2, 3, 4, 5, 6, 7, 8, 0xff, 1, 2, 3, 4, 0, 0, 0, 0, 0xfb, 0,
            ],
            true,
        ),
        (
            vec![
                b'r', 2, 3, 4, 5, 6, 7, 8, 0xff, 1, 2, 3, 4, 0, 0, 0, 0, 0xfb, 0, 0, 0, 0, 0, 0,
                0, 1, 0,
            ],
            true,
        ),
        // Memcomparable-encoded padding pattern: [.., 0, 0, 0, 0, 0xff - padding-len]
        (vec![b'r', 2, 3, 4, 0, 0, 1, 0, 0xfb], false),
        (vec![b'r', 2, 3, 4, 5, 6, 7, 8, 0xf6], false),
    ];

    for (idx, (bytes, with_ts)) in cases.into_iter().enumerate() {
        let res = vec![
            APIV2::decode_raw_key(&bytes, with_ts).map(|_| ()),
            APIV2::decode_raw_key_owned(bytes, with_ts).map(|_| ()),
        ];
        for r in res {
            assert!(r.is_err(), "case {}: {:?}", idx, r);
        }
    }
}

#[test]
fn test_v2_key_decode_err_kinds() {
    // Too short for a single 9-byte group.
    assert_eq!(
        APIV2::decode_raw_key(&[b'r', 2, 3, 4, 5, 6, 7, 8], false),
        Err(CodecError::TruncatedInput)
    );
    // Marker declaring more than 8 padding bytes.
    assert_eq!(
        APIV2::decode_raw_key(&[b'r', 2, 3, 4, 5, 6, 7, 8, 0xf6], false),
        Err(CodecError::InvalidMarker)
    );
    // A nonzero byte inside the declared padding.
    assert_eq!(
        APIV2::decode_raw_key(&[b'r', 2, 3, 4, 0, 0, 1, 0, 0xfb], false),
        Err(CodecError::InvalidPadding)
    );
    // Bytes left over although no timestamp is expected.
    assert_eq!(
        APIV2::decode_raw_key(&[b'r', 0, 0, 0, 0, 0, 0, 0, 0xf8, 1], false),
        Err(CodecError::TrailingData)
    );
    // A timestamp is expected but fewer than 8 bytes follow the key.
    assert_eq!(
        APIV2::decode_raw_key(&[b'r', 0, 0, 0, 0, 0, 0, 0, 0xf8, 1], true),
        Err(CodecError::TruncatedInput)
    );
    // A timestamp is expected but more than 8 bytes follow the key.
    assert_eq!(
        APIV2::decode_raw_key(
            &[b'r', 0, 0, 0, 0, 0, 0, 0, 0xf8, 1, 2, 3, 4, 5, 6, 7, 8, 9],
            true
        ),
        Err(CodecError::TrailingData)
    );
}

#[test]
fn test_v2_key_round_trip_edge_cases() {
    // The empty key still encodes to one full padding group, so no encoded
    // key is a prefix of another key's encoding.
    let encoded = APIV2::encode_raw_key(b"", None);
    assert_eq!(encoded.as_slice(), &[0, 0, 0, 0, 0, 0, 0, 0, 0xf7][..]);
    assert_eq!(
        APIV2::decode_raw_key(&encoded, false).unwrap(),
        (Vec::new(), None)
    );

    // A key whose length is an exact multiple of 8 gets a trailing all-pad
    // group as well.
    let encoded = APIV2::encode_raw_key(b"abcdefgh", Some(2));
    assert_eq!(
        encoded.as_slice(),
        &[
            b'a', b'b', b'c', b'd', b'e', b'f', b'g', b'h', 0xff, 0, 0, 0, 0, 0, 0, 0, 0, 0xf7,
            0xff, 0xff, 0xff, 0xff, 0xff, 0xff, 0xff, 0xfd,
        ][..]
    );
    assert_eq!(
        APIV2::decode_raw_key(&encoded, true).unwrap(),
        (b"abcdefgh".to_vec(), Some(2))
    );

    // The embedded timestamp is complemented, so a larger timestamp sorts
    // before a smaller one for the same key.
    let newer = APIV2::encode_raw_key(b"k", Some(7));
    let older = APIV2::encode_raw_key(b"k", Some(2));
    assert!(newer < older);
}
