use api_version::api_v2::{RAW_KEY_PREFIX, TXN_KEY_PREFIX};
use api_version::{APIV1, APIV1TTL, APIV2, ApiVersionTag, KeyMode};

#[test]
fn test_parse() {
    assert_eq!(APIV1::parse_key_mode(&b"t_a"[..]), KeyMode::Unknown);
    assert_eq!(APIV1TTL::parse_key_mode(&b"ot"[..]), KeyMode::Unknown);
    assert_eq!(
        APIV2::parse_key_mode(&[RAW_KEY_PREFIX, b'a', b'b']),
        KeyMode::Raw
    );
    assert_eq!(APIV2::parse_key_mode(&[RAW_KEY_PREFIX]), KeyMode::Raw);
    assert_eq!(APIV2::parse_key_mode(&[TXN_KEY_PREFIX]), KeyMode::Transactional);
    assert_eq!(APIV2::parse_key_mode(&b"t_a"[..]), KeyMode::Structured);
    assert_eq!(APIV2::parse_key_mode(&b"m"[..]), KeyMode::Structured);
    assert_eq!(APIV2::parse_key_mode(&b"ot"[..]), KeyMode::Unknown);
}

#[test]
fn test_parse_range() {
    assert_eq!(APIV1::parse_range_mode((None, None)), KeyMode::Unknown);
    assert_eq!(
        APIV1::parse_range_mode((Some(b"x"), None)),
        KeyMode::Unknown
    );
    assert_eq!(
        APIV1TTL::parse_range_mode((Some(b"m_a"), Some(b"na"))),
        KeyMode::Unknown
    );
    assert_eq!(
        APIV2::parse_range_mode((Some(b"t_a"), Some(b"t_z"))),
        KeyMode::Structured
    );
    assert_eq!(
        APIV2::parse_range_mode((Some(b"t"), Some(b"u"))),
        KeyMode::Structured
    );
    assert_eq!(
        APIV2::parse_range_mode((Some(b"m"), Some(b"n"))),
        KeyMode::Structured
    );
    assert_eq!(
        APIV2::parse_range_mode((Some(b"m_a"), Some(b"m_z"))),
        KeyMode::Structured
    );
    assert_eq!(
        APIV2::parse_range_mode((Some(b"x\0a"), Some(b"x\0z"))),
        KeyMode::Transactional
    );
    assert_eq!(
        APIV2::parse_range_mode((Some(b"x"), Some(b"y"))),
        KeyMode::Transactional
    );
    assert_eq!(
        APIV2::parse_range_mode((Some(b"r\0a"), Some(b"r\0z"))),
        KeyMode::Raw
    );
    assert_eq!(
        APIV2::parse_range_mode((Some(b"r"), Some(b"s"))),
        KeyMode::Raw
    );
    assert_eq!(
        APIV2::parse_range_mode((Some(b"t_a"), Some(b"ua"))),
        KeyMode::Unknown
    );
    assert_eq!(
        APIV2::parse_range_mode((Some(b"t"), None)),
        KeyMode::Unknown
    );
    assert_eq!(
        APIV2::parse_range_mode((None, Some(b"t_z"))),
        KeyMode::Unknown
    );
    assert_eq!(
        APIV2::parse_range_mode((Some(b"m_a"), Some(b"na"))),
        KeyMode::Unknown
    );
    assert_eq!(
        APIV2::parse_range_mode((Some(b"m"), None)),
        KeyMode::Unknown
    );
    assert_eq!(
        APIV2::parse_range_mode((None, Some(b"m_z"))),
        KeyMode::Unknown
    );
    assert_eq!(
        APIV2::parse_range_mode((Some(b"x\0a"), Some(b"ya"))),
        KeyMode::Unknown
    );
    assert_eq!(
        APIV2::parse_range_mode((Some(b"x"), None)),
        KeyMode::Unknown
    );
    assert_eq!(
        APIV2::parse_range_mode((None, Some(b"x\0z"))),
        KeyMode::Unknown
    );
    assert_eq!(
        APIV2::parse_range_mode((Some(b"r\0a"), Some(b"sa"))),
        KeyMode::Unknown
    );
    assert_eq!(
        APIV2::parse_range_mode((Some(b"r"), None)),
        KeyMode::Unknown
    );
    assert_eq!(
        APIV2::parse_range_mode((None, Some(b"r\0z"))),
        KeyMode::Unknown
    );
}

#[test]
fn test_is_ttl_enabled() {
    assert!(!ApiVersionTag::V1.is_ttl_enabled());
    assert!(ApiVersionTag::V1Ttl.is_ttl_enabled());
    assert!(ApiVersionTag::V2.is_ttl_enabled());
    assert!(!APIV1::IS_TTL_ENABLED);
    assert!(APIV1TTL::IS_TTL_ENABLED);
    assert!(APIV2::IS_TTL_ENABLED);
}

#[test]
fn test_parse_dispatch() {
    assert_eq!(
        ApiVersionTag::V1.parse_key_mode(&[RAW_KEY_PREFIX]),
        KeyMode::Unknown
    );
    assert_eq!(
        ApiVersionTag::V1Ttl.parse_key_mode(&[RAW_KEY_PREFIX]),
        KeyMode::Unknown
    );
    assert_eq!(
        ApiVersionTag::V2.parse_key_mode(&[RAW_KEY_PREFIX]),
        KeyMode::Raw
    );
    assert_eq!(
        ApiVersionTag::V2.parse_range_mode((Some(b"r"), Some(b"s"))),
        KeyMode::Raw
    );
    assert_eq!(
        ApiVersionTag::V1Ttl.parse_range_mode((Some(b"r"), Some(b"s"))),
        KeyMode::Unknown
    );
}
