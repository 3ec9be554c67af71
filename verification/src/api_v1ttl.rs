//! The wire format with a trailing expiry: every value ends in an 8-byte
//! big-endian expiry timestamp, zero meaning "no expiry". Keys are stored
//! verbatim and the namespace concept does not apply.

use crate::bytes_be::{
    be_bytes, be_val, lemma_be_bytes_len, lemma_be_val_of_be_bytes, lemma_pow256_8, push_be_bytes,
    read_be_u64,
};
use crate::{APIV1TTL, CodecError, KeyMode, RawValue};
use vstd::prelude::*;
use vstd::slice::{slice_subrange, slice_to_vec};

verus! {

/// The encoded form of a value under this format: the user value followed by
/// the 8-byte big-endian expiry, with absence encoded as zero.
pub open spec fn v1ttl_value_encoding(user_value: Seq<u8>, expire_ts: Option<u64>) -> Seq<u8> {
    user_value + be_bytes(
        match expire_ts {
            Some(t) => t as nat,
            None => 0,
        },
        8,
    )
}

/// What decoding a value under this format yields: the bytes before the
/// 8-byte expiry field, and the expiry itself unless it is the zero sentinel.
/// Inputs shorter than the expiry field are rejected.
pub open spec fn v1ttl_decode_value_spec(s: Seq<u8>) -> Result<(Seq<u8>, Option<u64>), CodecError> {
    if s.len() < 8 {
        Err(CodecError::TruncatedInput)
    } else {
        let ts = be_val(s.subrange(s.len() - 8, s.len() as int));
        Ok(
            (
                s.subrange(0, s.len() - 8),
                if ts == 0 {
                    None
                } else {
                    Some(ts as u64)
                },
            ),
        )
    }
}

/// Law: decoding an encoded value gives the value back, for every value
/// respecting this format's expiry invariant. `Some(0)` is excluded: the
/// zero sentinel is the encoding of an absent expiry.
pub proof fn lemma_v1ttl_value_round_trip(user_value: Seq<u8>, expire_ts: Option<u64>)
    requires
        expire_ts != Some(0u64),
    ensures
        v1ttl_decode_value_spec(v1ttl_value_encoding(user_value, expire_ts)) == Ok::<
            _,
            CodecError,
        >((user_value, expire_ts)),
{
    let t: u64 = match expire_ts {
        Some(t) => t,
        None => 0,
    };
    let enc = v1ttl_value_encoding(user_value, expire_ts);
    lemma_be_bytes_len(t as nat, 8);
    assert(enc.subrange(0, enc.len() - 8) =~= user_value);
    assert(enc.subrange(enc.len() - 8, enc.len() as int) =~= be_bytes(t as nat, 8));
    lemma_pow256_8();
    lemma_be_val_of_be_bytes(t as nat, 8);
}

impl APIV1TTL {
    /// This format supports per-record expiry.
    pub const IS_TTL_ENABLED: bool = true;

    /// The namespace concept does not apply under this format.
    pub fn parse_key_mode(_key: &[u8]) -> (r: KeyMode)
        ensures
            r == KeyMode::Unknown,
    {
        KeyMode::Unknown
    }

    /// The namespace concept does not apply under this format.
    pub fn parse_range_mode(_range: (Option<&[u8]>, Option<&[u8]>)) -> (r: KeyMode)
        ensures
            r == KeyMode::Unknown,
    {
        KeyMode::Unknown
    }

    /// Encodes a value and its metadata: the user value, then the 8-byte
    /// expiry, zero standing for an absent expiry.
    pub fn encode_raw_value(value: RawValue<&[u8]>) -> (r: Vec<u8>)
        ensures
            r@ == v1ttl_value_encoding(value.user_value@, value.expire_ts),
    {
        let mut out = slice_to_vec(value.user_value);
        let t: u64 = match value.expire_ts {
            Some(t) => t,
            None => 0,
        };
        push_be_bytes(&mut out, t, 8);
        out
    }

    /// Owned-buffer variant of [`APIV1TTL::encode_raw_value`]: extends the
    /// caller's buffer in place.
    pub fn encode_raw_value_owned(value: RawValue<Vec<u8>>) -> (r: Vec<u8>)
        ensures
            r@ == v1ttl_value_encoding(value.user_value@, value.expire_ts),
    {
        let RawValue { user_value: mut out, expire_ts } = value;
        let t: u64 = match expire_ts {
            Some(t) => t,
            None => 0,
        };
        push_be_bytes(&mut out, t, 8);
        out
    }

    /// Decodes a value: splits off the trailing 8-byte expiry and maps the
    /// zero sentinel back to an absent expiry.
    pub fn decode_raw_value(bytes: &[u8]) -> (r: Result<RawValue<&[u8]>, CodecError>)
        ensures
            ({
                let d = v1ttl_decode_value_spec(bytes@);
                match r {
                    Ok(rv) => d == Ok::<_, CodecError>((rv.user_value@, rv.expire_ts)),
                    Err(e) => d == Err::<(Seq<u8>, Option<u64>), _>(e),
                }
            }),
    {
        let n = bytes.len();
        if n < 8 {
            return Err(CodecError::TruncatedInput);
        }
        let ts = read_be_u64(bytes, n - 8);
        let user_value = slice_subrange(bytes, 0, n - 8);
        Ok(
            RawValue {
                user_value,
                expire_ts: if ts == 0 {
                    None
                } else {
                    Some(ts)
                },
            },
        )
    }

    /// Owned-buffer variant of [`APIV1TTL::decode_raw_value`]: truncates the
    /// caller's buffer in place instead of copying.
    pub fn decode_raw_value_owned(bytes: Vec<u8>) -> (r: Result<RawValue<Vec<u8>>, CodecError>)
        ensures
            ({
                let d = v1ttl_decode_value_spec(bytes@);
                match r {
                    Ok(rv) => d == Ok::<_, CodecError>((rv.user_value@, rv.expire_ts)),
                    Err(e) => d == Err::<(Seq<u8>, Option<u64>), _>(e),
                }
            }),
    {
        let mut bytes = bytes;
        let n = bytes.len();
        if n < 8 {
            return Err(CodecError::TruncatedInput);
        }
        let ts = read_be_u64(bytes.as_slice(), n - 8);
        bytes.truncate(n - 8);
        Ok(
            RawValue {
                user_value: bytes,
                expire_ts: if ts == 0 {
                    None
                } else {
                    Some(ts)
                },
            },
        )
    }

    /// Encodes a key: the user key verbatim. The timestamp is accepted for
    /// interface uniformity but never persisted.
    pub fn encode_raw_key(user_key: &[u8], _ts: Option<u64>) -> (r: Vec<u8>)
        ensures
            r@ == user_key@,
    {
        crate::encode_plain_key(user_key)
    }

    /// Owned-buffer variant of [`APIV1TTL::encode_raw_key`].
    pub fn encode_raw_key_owned(user_key: Vec<u8>, _ts: Option<u64>) -> (r: Vec<u8>)
        ensures
            r@ == user_key@,
    {
        crate::encode_plain_key_owned(user_key)
    }

    /// Decodes a key: the bytes verbatim, never a timestamp, never an error.
    pub fn decode_raw_key(encoded_key: &[u8], with_ts: bool) -> (r: Result<
        (Vec<u8>, Option<u64>),
        CodecError,
    >)
        ensures
            r matches Ok(kt) && kt.0@ == encoded_key@ && kt.1 is None,
    {
        crate::decode_plain_key(encoded_key, with_ts)
    }

    /// Owned-buffer variant of [`APIV1TTL::decode_raw_key`].
    pub fn decode_raw_key_owned(encoded_key: Vec<u8>, with_ts: bool) -> (r: Result<
        (Vec<u8>, Option<u64>),
        CodecError,
    >)
        ensures
            r matches Ok(kt) && kt.0@ == encoded_key@ && kt.1 is None,
    {
        crate::decode_plain_key_owned(encoded_key, with_ts)
    }
}

} // verus!
