//! The plain wire format: values are stored verbatim and expiry is
//! unsupported, keys are stored verbatim, and the namespace concept does not
//! apply.

use crate::{APIV1, CodecError, KeyMode, RawValue};
use vstd::prelude::*;
use vstd::slice::slice_to_vec;

verus! {

impl APIV1 {
    /// This format does not support per-record expiry.
    pub const IS_TTL_ENABLED: bool = false;

    /// The namespace concept does not apply under this format.
    pub fn parse_key_mode(_key: &[u8]) -> (r: KeyMode)
        ensures
            r == KeyMode::Unknown,
    {
        KeyMode::Unknown
    }

    /// The namespace concept does not apply under this format.
    pub fn parse_range_mode(_range: (Option<&[u8]>, Option<&[u8]>)) -> (r: KeyMode)
        ensures
            r == KeyMode::Unknown,
    {
        KeyMode::Unknown
    }

    /// Encodes a value: the user value verbatim. A present expiry violates
    /// the caller's contract with this format.
    pub fn encode_raw_value(value: RawValue<&[u8]>) -> (r: Vec<u8>)
        requires
            value.expire_ts is None,
        ensures
            r@ == value.user_value@,
    {
        slice_to_vec(value.user_value)
    }

    /// Owned-buffer variant of [`APIV1::encode_raw_value`].
    pub fn encode_raw_value_owned(value: RawValue<Vec<u8>>) -> (r: Vec<u8>)
        requires
            value.expire_ts is None,
        ensures
            r@ == value.user_value@,
    {
        value.user_value
    }

    /// Decodes a value: every input is a valid plain value with no expiry.
    pub fn decode_raw_value(bytes: &[u8]) -> (r: Result<RawValue<&[u8]>, CodecError>)
        ensures
            r matches Ok(rv) && rv.user_value@ == bytes@ && rv.expire_ts is None,
    {
        Ok(RawValue { user_value: bytes, expire_ts: None })
    }

    /// Owned-buffer variant of [`APIV1::decode_raw_value`].
    pub fn decode_raw_value_owned(bytes: Vec<u8>) -> (r: Result<RawValue<Vec<u8>>, CodecError>)
        ensures
            r matches Ok(rv) && rv.user_value@ == bytes@ && rv.expire_ts is None,
    {
        Ok(RawValue { user_value: bytes, expire_ts: None })
    }

    /// Encodes a key: the user key verbatim. The timestamp is accepted for
    /// interface uniformity but never persisted.
    pub fn encode_raw_key(user_key: &[u8], _ts: Option<u64>) -> (r: Vec<u8>)
        ensures
            r@ == user_key@,
    {
        crate::encode_plain_key(user_key)
    }

    /// Owned-buffer variant of [`APIV1::encode_raw_key`].
    pub fn encode_raw_key_owned(user_key: Vec<u8>, _ts: Option<u64>) -> (r: Vec<u8>)
        ensures
            r@ == user_key@,
    {
        crate::encode_plain_key_owned(user_key)
    }

    /// Decodes a key: the bytes verbatim, never a timestamp, never an error.
    pub fn decode_raw_key(encoded_key: &[u8], with_ts: bool) -> (r: Result<
        (Vec<u8>, Option<u64>),
        CodecError,
    >)
        ensures
            r matches Ok(kt) && kt.0@ == encoded_key@ && kt.1 is None,
    {
        crate::decode_plain_key(encoded_key, with_ts)
    }

    /// Owned-buffer variant of [`APIV1::decode_raw_key`].
    pub fn decode_raw_key_owned(encoded_key: Vec<u8>, with_ts: bool) -> (r: Result<
        (Vec<u8>, Option<u64>),
        CodecError,
    >)
        ensures
            r matches Ok(kt) && kt.0@ == encoded_key@ && kt.1 is None,
    {
        crate::decode_plain_key_owned(encoded_key, with_ts)
    }
}

} // verus!
