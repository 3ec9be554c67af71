//! Key/value encoding layer of a raw key-value store that supports several
//! coexisting on-disk wire formats behind one version-agnostic interface.
//!
//! Three formats coexist: a plain one ([`APIV1`]), one with a trailing expiry
//! timestamp ([`APIV1TTL`]), and one with a metadata-flag byte and an
//! order-preserving key encoding ([`APIV2`]). Each format offers the same
//! operations: encode/decode of a value with an optional expiry, encode/decode
//! of a key with an optional logical timestamp, and classification of keys and
//! key ranges into logical namespaces.

use vstd::prelude::*;
use vstd::slice::slice_to_vec;

pub mod api_v1;
pub mod api_v1ttl;
pub mod api_v2;
pub mod bytes_be;

use crate::api_v1ttl::{
    lemma_v1ttl_value_round_trip, v1ttl_decode_value_spec, v1ttl_value_encoding,
};
use crate::api_v2::{
    lemma_v2_key_round_trip, lemma_v2_value_round_trip, opt_key_view, v2_decode_key_spec,
    v2_decode_value_spec, v2_key_encoding, v2_key_mode, v2_range_mode, v2_value_encoding,
};

verus! {

/// The logical namespace a key or key range belongs to, inferred from its
/// leading byte.
#[derive(Debug, Clone, Copy, PartialEq, Eq, Structural)]
pub enum KeyMode {
    /// Raw key-value namespace.
    Raw,
    /// Transactional namespace.
    Transactional,
    /// Structured-data namespace (table or meta sub-namespace).
    Structured,
    /// No recognised namespace.
    Unknown,
}

/// The reason a decode rejected its input. Every decode failure carries
/// exactly one of these kinds.
#[derive(Debug, Clone, Copy, PartialEq, Eq, Structural)]
pub enum CodecError {
    /// The input ends before a required field is complete.
    TruncatedInput,
    /// A reserved bit of the value's flag byte is set.
    UnsupportedFlags,
    /// A group marker byte declares a padding length outside the legal range.
    InvalidMarker,
    /// A declared padding byte of the final key group is nonzero.
    InvalidPadding,
    /// Bytes remain after the logical end of the encoded key.
    TrailingData,
}

/// A user value together with its metadata: an optional expiry timestamp in
/// unix seconds. Absence of the expiry means the record never expires.
#[derive(Debug, Clone, Copy, PartialEq, Eq)]
pub struct RawValue<T> {
    /// The user value.
    pub user_value: T,
    /// The unix timestamp in seconds at which the record is logically deleted.
    pub expire_ts: Option<u64>,
}

/// The first wire format: plain values, keys stored verbatim, no expiry
/// support.
#[derive(Debug, Default, Clone, Copy)]
pub struct APIV1;

/// The second wire format: every value carries a trailing 8-byte expiry
/// timestamp (zero meaning "no expiry"); keys are stored verbatim.
#[derive(Debug, Default, Clone, Copy)]
pub struct APIV1TTL;

/// The richest wire format: values end in a flag byte that makes the expiry
/// explicit, and keys use an order-preserving group encoding with an optional
/// embedded timestamp.
#[derive(Debug, Default, Clone, Copy)]
pub struct APIV2;

/// The closed set of wire-format tags. A store selects one tag at startup,
/// keeps it for its whole lifetime, and every later call dispatches straight
/// to that format's codec.
#[derive(Debug, Clone, Copy, PartialEq, Eq, Structural)]
pub enum ApiVersionTag {
    /// The plain format, [`APIV1`].
    V1,
    /// The format with a trailing expiry, [`APIV1TTL`].
    V1Ttl,
    /// The richest format, [`APIV2`].
    V2,
}

impl ApiVersionTag {
    /// Whether this format can store a per-record expiry.
    pub open spec fn supports_ttl(self) -> bool {
        self != ApiVersionTag::V1
    }

    /// The expiry invariant a value must respect under this format: absent
    /// where expiry is unsupported, and never the zero sentinel where zero
    /// encodes absence.
    pub open spec fn valid_expire_ts(self, expire_ts: Option<u64>) -> bool {
        match self {
            ApiVersionTag::V1 => expire_ts is None,
            ApiVersionTag::V1Ttl => expire_ts != Some(0u64),
            ApiVersionTag::V2 => true,
        }
    }

    /// The encoded byte form of a value under this format.
    pub open spec fn value_encoding(self, user_value: Seq<u8>, expire_ts: Option<u64>) -> Seq<
        u8,
    > {
        match self {
            ApiVersionTag::V1 => user_value,
            ApiVersionTag::V1Ttl => v1ttl_value_encoding(user_value, expire_ts),
            ApiVersionTag::V2 => v2_value_encoding(user_value, expire_ts),
        }
    }

    /// What decoding a value under this format yields.
    pub open spec fn decode_value_spec(self, s: Seq<u8>) -> Result<
        (Seq<u8>, Option<u64>),
        CodecError,
    > {
        match self {
            ApiVersionTag::V1 => Ok((s, None)),
            ApiVersionTag::V1Ttl => v1ttl_decode_value_spec(s),
            ApiVersionTag::V2 => v2_decode_value_spec(s),
        }
    }

    /// The encoded byte form of a key under this format.
    pub open spec fn key_encoding(self, user_key: Seq<u8>, ts: Option<u64>) -> Seq<u8> {
        match self {
            ApiVersionTag::V2 => v2_key_encoding(user_key, ts),
            _ => user_key,
        }
    }

    /// What decoding a key under this format yields.
    pub open spec fn decode_key_spec(self, s: Seq<u8>, with_ts: bool) -> Result<
        (Seq<u8>, Option<u64>),
        CodecError,
    > {
        match self {
            ApiVersionTag::V2 => v2_decode_key_spec(s, with_ts),
            _ => Ok((s, None)),
        }
    }

    /// Whether this format supports per-record expiry.
    pub fn is_ttl_enabled(self) -> (r: bool)
        ensures
            r == self.supports_ttl(),
    {
        match self {
            ApiVersionTag::V1 => false,
            _ => true,
        }
    }

    /// Classifies a key into its logical namespace under this format.
    pub fn parse_key_mode(self, key: &[u8]) -> (r: KeyMode)
        ensures
            r == match self {
                ApiVersionTag::V2 => v2_key_mode(key@),
                _ => KeyMode::Unknown,
            },
    {
        match self {
            ApiVersionTag::V1 => APIV1::parse_key_mode(key),
            ApiVersionTag::V1Ttl => APIV1TTL::parse_key_mode(key),
            ApiVersionTag::V2 => APIV2::parse_key_mode(key),
        }
    }

    /// Classifies a half-open key range under this format.
    pub fn parse_range_mode(self, range: (Option<&[u8]>, Option<&[u8]>)) -> (r: KeyMode)
        ensures
            r == match self {
                ApiVersionTag::V2 => v2_range_mode(opt_key_view(range.0), opt_key_view(range.1)),
                _ => KeyMode::Unknown,
            },
    {
        match self {
            ApiVersionTag::V1 => APIV1::parse_range_mode(range),
            ApiVersionTag::V1Ttl => APIV1TTL::parse_range_mode(range),
            ApiVersionTag::V2 => APIV2::parse_range_mode(range),
        }
    }

    /// Encodes a value and its metadata under this format.
    pub fn encode_raw_value(self, value: RawValue<&[u8]>) -> (r: Vec<u8>)
        requires
            self == ApiVersionTag::V1 ==> value.expire_ts is None,
        ensures
            r@ == self.value_encoding(value.user_value@, value.expire_ts),
    {
        match self {
            ApiVersionTag::V1 => APIV1::encode_raw_value(value),
            ApiVersionTag::V1Ttl => APIV1TTL::encode_raw_value(value),
            ApiVersionTag::V2 => APIV2::encode_raw_value(value),
        }
    }

    /// Owned-buffer variant of [`ApiVersionTag::encode_raw_value`].
    pub fn encode_raw_value_owned(self, value: RawValue<Vec<u8>>) -> (r: Vec<u8>)
        requires
            self == ApiVersionTag::V1 ==> value.expire_ts is None,
        ensures
            r@ == self.value_encoding(value.user_value@, value.expire_ts),
    {
        match self {
            ApiVersionTag::V1 => APIV1::encode_raw_value_owned(value),
            ApiVersionTag::V1Ttl => APIV1TTL::encode_raw_value_owned(value),
            ApiVersionTag::V2 => APIV2::encode_raw_value_owned(value),
        }
    }

    /// Decodes a value and its metadata under this format.
    pub fn decode_raw_value<'a>(self, bytes: &'a [u8]) -> (r: Result<
        RawValue<&'a [u8]>,
        CodecError,
    >)
        ensures
            ({
                let d = self.decode_value_spec(bytes@);
                match r {
                    Ok(rv) => d == Ok::<_, CodecError>((rv.user_value@, rv.expire_ts)),
                    Err(e) => d == Err::<(Seq<u8>, Option<u64>), _>(e),
                }
            }),
    {
        match self {
            ApiVersionTag::V1 => APIV1::decode_raw_value(bytes),
            ApiVersionTag::V1Ttl => APIV1TTL::decode_raw_value(bytes),
            ApiVersionTag::V2 => APIV2::decode_raw_value(bytes),
        }
    }

    /// Owned-buffer variant of [`ApiVersionTag::decode_raw_value`].
    pub fn decode_raw_value_owned(self, bytes: Vec<u8>) -> (r: Result<
        RawValue<Vec<u8>>,
        CodecError,
    >)
        ensures
            ({
                let d = self.decode_value_spec(bytes@);
                match r {
                    Ok(rv) => d == Ok::<_, CodecError>((rv.user_value@, rv.expire_ts)),
                    Err(e) => d == Err::<(Seq<u8>, Option<u64>), _>(e),
                }
            }),
    {
        match self {
            ApiVersionTag::V1 => APIV1::decode_raw_value_owned(bytes),
            ApiVersionTag::V1Ttl => APIV1TTL::decode_raw_value_owned(bytes),
            ApiVersionTag::V2 => APIV2::decode_raw_value_owned(bytes),
        }
    }

    /// Encodes a key, and the logical timestamp if the format embeds one,
    /// under this format.
    pub fn encode_raw_key(self, user_key: &[u8], ts: Option<u64>) -> (r: Vec<u8>)
        ensures
            r@ == self.key_encoding(user_key@, ts),
    {
        match self {
            ApiVersionTag::V1 => APIV1::encode_raw_key(user_key, ts),
            ApiVersionTag::V1Ttl => APIV1TTL::encode_raw_key(user_key, ts),
            ApiVersionTag::V2 => APIV2::encode_raw_key(user_key, ts),
        }
    }

    /// Owned-buffer variant of [`ApiVersionTag::encode_raw_key`].
    pub fn encode_raw_key_owned(self, user_key: Vec<u8>, ts: Option<u64>) -> (r: Vec<u8>)
        ensures
            r@ == self.key_encoding(user_key@, ts),
    {
        match self {
            ApiVersionTag::V1 => APIV1::encode_raw_key_owned(user_key, ts),
            ApiVersionTag::V1Ttl => APIV1TTL::encode_raw_key_owned(user_key, ts),
            ApiVersionTag::V2 => APIV2::encode_raw_key_owned(user_key, ts),
        }
    }

    /// Decodes a key, and the embedded timestamp if one is expected, under
    /// this format.
    pub fn decode_raw_key(self, encoded_key: &[u8], with_ts: bool) -> (r: Result<
        (Vec<u8>, Option<u64>),
        CodecError,
    >)
        ensures
            ({
                let d = self.decode_key_spec(encoded_key@, with_ts);
                match r {
                    Ok(kt) => d == Ok::<_, CodecError>((kt.0@, kt.1)),
                    Err(e) => d == Err::<(Seq<u8>, Option<u64>), _>(e),
                }
            }),
    {
        match self {
            ApiVersionTag::V1 => APIV1::decode_raw_key(encoded_key, with_ts),
            ApiVersionTag::V1Ttl => APIV1TTL::decode_raw_key(encoded_key, with_ts),
            ApiVersionTag::V2 => APIV2::decode_raw_key(encoded_key, with_ts),
        }
    }

    /// Owned-buffer variant of [`ApiVersionTag::decode_raw_key`].
    pub fn decode_raw_key_owned(self, encoded_key: Vec<u8>, with_ts: bool) -> (r: Result<
        (Vec<u8>, Option<u64>),
        CodecError,
    >)
        ensures
            ({
                let d = self.decode_key_spec(encoded_key@, with_ts);
                match r {
                    Ok(kt) => d == Ok::<_, CodecError>((kt.0@, kt.1)),
                    Err(e) => d == Err::<(Seq<u8>, Option<u64>), _>(e),
                }
            }),
    {
        match self {
            ApiVersionTag::V1 => APIV1::decode_raw_key_owned(encoded_key, with_ts),
            ApiVersionTag::V1Ttl => APIV1TTL::decode_raw_key_owned(encoded_key, with_ts),
            ApiVersionTag::V2 => APIV2::decode_raw_key_owned(encoded_key, with_ts),
        }
    }
}

/// Law: under every format, decoding an encoded value gives the value back,
/// for every value respecting the format's expiry invariant.
pub proof fn lemma_value_round_trip(ver: ApiVersionTag, user_value: Seq<u8>, expire_ts: Option<
    u64,
>)
    requires
        ver.valid_expire_ts(expire_ts),
    ensures
        ver.decode_value_spec(ver.value_encoding(user_value, expire_ts)) == Ok::<_, CodecError>(
            (user_value, expire_ts),
        ),
{
    match ver {
        ApiVersionTag::V1 => {},
        ApiVersionTag::V1Ttl => lemma_v1ttl_value_round_trip(user_value, expire_ts),
        ApiVersionTag::V2 => lemma_v2_value_round_trip(user_value, expire_ts),
    }
}

/// Law: under every format, decoding an encoded key gives the key back, and
/// the embedded timestamp back under the format that embeds one; the other
/// formats never persist nor recover a timestamp.
pub proof fn lemma_key_round_trip(ver: ApiVersionTag, user_key: Seq<u8>, ts: Option<u64>)
    ensures
        ver.decode_key_spec(ver.key_encoding(user_key, ts), ts is Some) == Ok::<_, CodecError>(
            (
                user_key,
                if ver == ApiVersionTag::V2 {
                    ts
                } else {
                    None
                },
            ),
        ),
{
    if ver == ApiVersionTag::V2 {
        lemma_v2_key_round_trip(user_key, ts);
    }
}

/// Key encoding shared by the formats that store the user key verbatim: the
/// identity mapping.
pub(crate) fn encode_plain_key(user_key: &[u8]) -> (r: Vec<u8>)
    ensures
        r@ == user_key@,
{
    slice_to_vec(user_key)
}

/// Owned variant of [`encode_plain_key`]; hands the buffer back unchanged.
pub(crate) fn encode_plain_key_owned(user_key: Vec<u8>) -> (r: Vec<u8>)
    ensures
        r@ == user_key@,
{
    user_key
}

/// Key decoding shared by the formats that store the user key verbatim. No
/// timestamp is ever recovered, and no input is rejected.
pub(crate) fn decode_plain_key(encoded_key: &[u8], _with_ts: bool) -> (r: Result<
    (Vec<u8>, Option<u64>),
    CodecError,
>)
    ensures
        r matches Ok(kt) && kt.0@ == encoded_key@ && kt.1 is None,
{
    Ok((slice_to_vec(encoded_key), None))
}

/// Owned variant of [`decode_plain_key`]; hands the buffer back unchanged.
pub(crate) fn decode_plain_key_owned(encoded_key: Vec<u8>, _with_ts: bool) -> (r: Result<
    (Vec<u8>, Option<u64>),
    CodecError,
>)
    ensures
        r matches Ok(kt) && kt.0@ == encoded_key@ && kt.1 is None,
{
    Ok((encoded_key, None))
}

} // verus!
