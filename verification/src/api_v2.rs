//! The richest wire format. Values end in a metadata-flag byte whose least
//! significant bit says whether an 8-byte expiry precedes it. Keys use an
//! order-preserving group encoding that may embed a descending-sorted logical
//! timestamp, and the leading key byte multiplexes three logical namespaces
//! inside one sorted keyspace.

use crate::bytes_be::{
    be_bytes, be_val, lemma_be_bytes_len, lemma_be_val_bound, lemma_be_val_of_be_bytes,
    lemma_be_val_order, lemma_lex_less_append, lemma_pow256_8, lex_less, push_be_bytes,
    read_be_u64,
};
use crate::{APIV2, CodecError, KeyMode, RawValue};
use vstd::prelude::*;
use vstd::slice::{slice_subrange, slice_to_vec};

verus! {

/// Leading byte of every key in the raw namespace.
pub const RAW_KEY_PREFIX: u8 = 0x72;

/// Leading byte of every key in the transactional namespace.
pub const TXN_KEY_PREFIX: u8 = 0x78;

/// Leading byte of a structured-data table key.
pub const STRUCTURED_TABLE_KEY_PREFIX: u8 = 0x74;

/// Leading byte of a structured-data meta key.
pub const STRUCTURED_META_KEY_PREFIX: u8 = 0x6d;

/// The namespace a key belongs to, decided by its leading byte.
pub open spec fn v2_key_mode(key: Seq<u8>) -> KeyMode {
    if key.len() == 0 {
        KeyMode::Unknown
    } else if key[0] == RAW_KEY_PREFIX {
        KeyMode::Raw
    } else if key[0] == TXN_KEY_PREFIX {
        KeyMode::Transactional
    } else if key[0] == STRUCTURED_TABLE_KEY_PREFIX || key[0] == STRUCTURED_META_KEY_PREFIX {
        KeyMode::Structured
    } else {
        KeyMode::Unknown
    }
}

/// The namespace of a half-open key range. Both bounds must be present and
/// nonempty, and the end bound must either classify like the start bound or
/// be exactly the one-byte successor of the start bound's leading byte (the
/// tightest exclusive bound that still covers only that namespace).
pub open spec fn v2_range_mode(start: Option<Seq<u8>>, end: Option<Seq<u8>>) -> KeyMode {
    match (start, end) {
        (Some(s), Some(e)) => {
            if s.len() > 0 && e.len() > 0 && (v2_key_mode(e) == v2_key_mode(s) || (e.len() == 1
                && e[0] == s[0] + 1)) {
                v2_key_mode(s)
            } else {
                KeyMode::Unknown
            }
        },
        _ => KeyMode::Unknown,
    }
}

/// The encoded form of a value: the user value, then the 8-byte big-endian
/// expiry if one is present, then the flag byte whose least significant bit
/// says whether the expiry is there.
pub open spec fn v2_value_encoding(user_value: Seq<u8>, expire_ts: Option<u64>) -> Seq<u8> {
    match expire_ts {
        Some(t) => user_value + be_bytes(t as nat, 8) + seq![1u8],
        None => user_value + seq![0u8],
    }
}

/// What decoding a value yields. Rejected are: an empty input (no flag
/// byte), a flag byte with any reserved bit set, and a set expiry bit with
/// fewer than 8 bytes before the flag.
pub open spec fn v2_decode_value_spec(s: Seq<u8>) -> Result<(Seq<u8>, Option<u64>), CodecError> {
    if s.len() == 0 {
        Err(CodecError::TruncatedInput)
    } else if s.last() & 0xfe != 0 {
        Err(CodecError::UnsupportedFlags)
    } else if s.last() == 1 {
        if s.len() < 9 {
            Err(CodecError::TruncatedInput)
        } else {
            Ok(
                (
                    s.subrange(0, s.len() - 9),
                    Some(be_val(s.subrange(s.len() - 9, s.len() - 1)) as u64),
                ),
            )
        }
    } else {
        Ok((s.subrange(0, s.len() - 1), None))
    }
}

/// The order-preserving group form of a user key: consecutive 8-byte groups,
/// each non-final full group followed by the marker `0xff`, and the final
/// (possibly empty) group right-padded with zeros to 8 bytes and followed by
/// the marker `0xff - pad_count`. A key whose length is a multiple of 8
/// still ends in a full padding group, so no encoded key is a strict prefix
/// of another key's encoding.
pub open spec fn v2_group_encoding(key: Seq<u8>) -> Seq<u8>
    decreases key.len(),
{
    if key.len() < 8 {
        let pad = 8 - key.len();
        key + Seq::new(pad as nat, |i: int| 0u8) + seq![(255 - pad) as u8]
    } else {
        key.subrange(0, 8) + seq![255u8] + v2_group_encoding(key.skip(8))
    }
}

/// The encoded form of a key: its group form, followed, if a logical
/// timestamp is embedded, by the 8-byte big-endian complement of the
/// timestamp, so that larger timestamps sort first.
pub open spec fn v2_key_encoding(user_key: Seq<u8>, ts: Option<u64>) -> Seq<u8> {
    match ts {
        Some(t) => v2_group_encoding(user_key) + be_bytes((u64::MAX - t) as nat, 8),
        None => v2_group_encoding(user_key),
    }
}

/// What decoding a key yields: 9-byte chunks are read while their marker is
/// `0xff`; the first other marker closes the key, declaring how many of the
/// final group's bytes are padding, which must be zero. With a timestamp
/// expected, exactly 8 bytes must follow; without one, none may.
pub open spec fn v2_decode_key_spec(s: Seq<u8>, with_ts: bool) -> Result<
    (Seq<u8>, Option<u64>),
    CodecError,
>
    decreases s.len(),
{
    if s.len() < 9 {
        Err(CodecError::TruncatedInput)
    } else if s[8] == 255 {
        match v2_decode_key_spec(s.skip(9), with_ts) {
            Ok(kt) => Ok((s.subrange(0, 8) + kt.0, kt.1)),
            Err(e) => Err(e),
        }
    } else {
        let pad = 255 - s[8];
        if pad > 8 {
            Err(CodecError::InvalidMarker)
        } else if !(forall|j: int| 8 - pad <= j < 8 ==> s[j] == 0) {
            Err(CodecError::InvalidPadding)
        } else {
            let tail = s.skip(9);
            if with_ts {
                if tail.len() < 8 {
                    Err(CodecError::TruncatedInput)
                } else if tail.len() > 8 {
                    Err(CodecError::TrailingData)
                } else {
                    Ok((s.subrange(0, 8 - pad), Some((u64::MAX - be_val(tail)) as u64)))
                }
            } else {
                if tail.len() == 0 {
                    Ok((s.subrange(0, 8 - pad), None))
                } else {
                    Err(CodecError::TrailingData)
                }
            }
        }
    }
}

/// Law: decoding an encoded key, expecting a timestamp exactly when one was
/// embedded, gives the key and the timestamp back, for every key and every
/// optional timestamp.
pub proof fn lemma_v2_key_round_trip(user_key: Seq<u8>, ts: Option<u64>)
    ensures
        v2_decode_key_spec(v2_key_encoding(user_key, ts), ts is Some) == Ok::<_, CodecError>(
            (user_key, ts),
        ),
    decreases user_key.len(),
{
    let enc = v2_key_encoding(user_key, ts);
    let grp = v2_group_encoding(user_key);
    if user_key.len() < 8 {
        let pad = 8 - user_key.len();
        assert(grp[8] == (255 - pad) as u8);
        assert(enc[8] == (255 - pad) as u8);
        assert(forall|j: int| 8 - pad <= j < 8 ==> enc[j] == 0);
        assert(enc.subrange(0, 8 - pad) =~= user_key);
        match ts {
            Some(t) => {
                lemma_be_bytes_len((u64::MAX - t) as nat, 8);
                let tail = enc.skip(9);
                assert(tail =~= be_bytes((u64::MAX - t) as nat, 8));
                lemma_pow256_8();
                lemma_be_val_of_be_bytes((u64::MAX - t) as nat, 8);
            },
            None => {
                assert(enc.skip(9).len() == 0);
            },
        }
    } else {
        let rec = v2_key_encoding(user_key.skip(8), ts);
        assert(grp[8] == 255u8);
        assert(enc[8] == 255u8);
        assert(enc.skip(9) =~= rec);
        lemma_v2_key_round_trip(user_key.skip(8), ts);
        assert(enc.subrange(0, 8) + user_key.skip(8) =~= user_key);
    }
}

/// Law: for one key, the encoding with the larger embedded timestamp sorts
/// strictly before the one with the smaller: scanning the store in key order
/// visits the most recent record of a key first.
pub proof fn lemma_v2_key_timestamp_descending(user_key: Seq<u8>, ts1: u64, ts2: u64)
    requires
        ts1 > ts2,
    ensures
        lex_less(v2_key_encoding(user_key, Some(ts1)), v2_key_encoding(user_key, Some(ts2))),
{
    let a = be_bytes((u64::MAX - ts1) as nat, 8);
    let b = be_bytes((u64::MAX - ts2) as nat, 8);
    lemma_be_bytes_len((u64::MAX - ts1) as nat, 8);
    lemma_be_bytes_len((u64::MAX - ts2) as nat, 8);
    lemma_pow256_8();
    lemma_be_val_of_be_bytes((u64::MAX - ts1) as nat, 8);
    lemma_be_val_of_be_bytes((u64::MAX - ts2) as nat, 8);
    lemma_be_val_order(a, b);
    lemma_lex_less_append(v2_group_encoding(user_key), a, b);
}

/// Law: decoding an encoded value gives the value back, for every user value
/// and every optional expiry.
pub proof fn lemma_v2_value_round_trip(user_value: Seq<u8>, expire_ts: Option<u64>)
    ensures
        v2_decode_value_spec(v2_value_encoding(user_value, expire_ts)) == Ok::<_, CodecError>(
            (user_value, expire_ts),
        ),
{
    let enc = v2_value_encoding(user_value, expire_ts);
    match expire_ts {
        Some(t) => {
            lemma_be_bytes_len(t as nat, 8);
            assert(enc.last() == 1u8);
            assert(1u8 & 0xfeu8 == 0u8) by (bit_vector);
            assert(enc.subrange(0, enc.len() - 9) =~= user_value);
            assert(enc.subrange(enc.len() - 9, enc.len() - 1) =~= be_bytes(t as nat, 8));
            lemma_pow256_8();
            lemma_be_val_of_be_bytes(t as nat, 8);
        },
        None => {
            assert(enc.last() == 0u8);
            assert(0u8 & 0xfeu8 == 0u8) by (bit_vector);
            assert(enc.subrange(0, enc.len() - 1) =~= user_value);
        },
    }
}

impl APIV2 {
    /// This format supports per-record expiry.
    pub const IS_TTL_ENABLED: bool = true;

    /// Classifies a key into its logical namespace by its leading byte. It
    /// is safe to pass either a user key or an encoded key.
    pub fn parse_key_mode(key: &[u8]) -> (r: KeyMode)
        ensures
            r == v2_key_mode(key@),
    {
        if key.len() == 0 {
            KeyMode::Unknown
        } else {
            let b = key[0];
            if b == RAW_KEY_PREFIX {
                KeyMode::Raw
            } else if b == TXN_KEY_PREFIX {
                KeyMode::Transactional
            } else if b == STRUCTURED_TABLE_KEY_PREFIX || b == STRUCTURED_META_KEY_PREFIX {
                KeyMode::Structured
            } else {
                KeyMode::Unknown
            }
        }
    }

    /// Classifies a half-open key range, yielding a namespace only when both
    /// bounds are present and agree on it.
    pub fn parse_range_mode(range: (Option<&[u8]>, Option<&[u8]>)) -> (r: KeyMode)
        ensures
            r == v2_range_mode(opt_key_view(range.0), opt_key_view(range.1)),
    {
        match range {
            (Some(start), Some(end)) => {
                if start.len() == 0 || end.len() == 0 {
                    KeyMode::Unknown
                } else {
                    let start_mode = Self::parse_key_mode(start);
                    let end_mode = Self::parse_key_mode(end);
                    let s0 = start[0];
                    let successor = end.len() == 1 && s0 < 255 && end[0] == s0 + 1;
                    if end_mode == start_mode || successor {
                        start_mode
                    } else {
                        KeyMode::Unknown
                    }
                }
            },
            _ => KeyMode::Unknown,
        }
    }

    /// Encodes a value and its metadata into bytes.
    pub fn encode_raw_value(value: RawValue<&[u8]>) -> (r: Vec<u8>)
        ensures
            r@ == v2_value_encoding(value.user_value@, value.expire_ts),
    {
        let mut out = slice_to_vec(value.user_value);
        match value.expire_ts {
            Some(t) => {
                push_be_bytes(&mut out, t, 8);
                out.push(1);
            },
            None => {
                out.push(0);
            },
        }
        proof {
            assert(out@ =~= v2_value_encoding(value.user_value@, value.expire_ts));
        }
        out
    }

    /// Owned-buffer variant of [`APIV2::encode_raw_value`]: extends the
    /// caller's buffer in place.
    pub fn encode_raw_value_owned(value: RawValue<Vec<u8>>) -> (r: Vec<u8>)
        ensures
            r@ == v2_value_encoding(value.user_value@, value.expire_ts),
    {
        let RawValue { user_value: mut out, expire_ts } = value;
        let ghost user_value = out@;
        match expire_ts {
            Some(t) => {
                push_be_bytes(&mut out, t, 8);
                out.push(1);
            },
            None => {
                out.push(0);
            },
        }
        proof {
            assert(out@ =~= v2_value_encoding(user_value, expire_ts));
        }
        out
    }

    /// Decodes a value: reads the flag byte and, if its expiry bit is set,
    /// the 8-byte expiry before it.
    pub fn decode_raw_value(bytes: &[u8]) -> (r: Result<RawValue<&[u8]>, CodecError>)
        ensures
            ({
                let d = v2_decode_value_spec(bytes@);
                match r {
                    Ok(rv) => d == Ok::<_, CodecError>((rv.user_value@, rv.expire_ts)),
                    Err(e) => d == Err::<(Seq<u8>, Option<u64>), _>(e),
                }
            }),
    {
        let n = bytes.len();
        if n == 0 {
            return Err(CodecError::TruncatedInput);
        }
        let flag = bytes[n - 1];
        if flag & 0xfe != 0 {
            return Err(CodecError::UnsupportedFlags);
        }
        if flag == 1 {
            if n < 9 {
                return Err(CodecError::TruncatedInput);
            }
            let ts = read_be_u64(bytes, n - 9);
            let user_value = slice_subrange(bytes, 0, n - 9);
            Ok(RawValue { user_value, expire_ts: Some(ts) })
        } else {
            let user_value = slice_subrange(bytes, 0, n - 1);
            Ok(RawValue { user_value, expire_ts: None })
        }
    }

    /// Encodes a key, and the logical timestamp if one is given, into the
    /// order-preserving byte form.
    pub fn encode_raw_key(user_key: &[u8], ts: Option<u64>) -> (r: Vec<u8>)
        ensures
            r@ == v2_key_encoding(user_key@, ts),
    {
        let n = user_key.len();
        let mut out: Vec<u8> = Vec::new();
        let mut i: usize = 0;
        proof {
            assert(user_key@.skip(0) =~= user_key@);
            assert(out@ + v2_group_encoding(user_key@) =~= v2_group_encoding(user_key@));
        }
        while n - i >= 8
            invariant
                n == user_key@.len(),
                i <= n,
                out@ + v2_group_encoding(user_key@.skip(i as int)) == v2_group_encoding(user_key@),
            decreases n - i,
        {
            let ghost out0 = out@;
            let mut j: usize = 0;
            while j < 8
                invariant
                    n == user_key@.len(),
                    i + 8 <= n,
                    j <= 8,
                    out@ == out0 + user_key@.subrange(i as int, i as int + j as int),
                decreases 8 - j,
            {
                out.push(user_key[i + j]);
                proof {
                    assert(out@ =~= out0 + user_key@.subrange(i as int, i as int + j + 1));
                }
                j += 1;
            }
            out.push(255);
            proof {
                let rest = user_key@.skip(i as int);
                assert(rest.subrange(0, 8) =~= user_key@.subrange(i as int, i as int + 8));
                assert(rest.skip(8) =~= user_key@.skip(i as int + 8));
                assert(out@ + v2_group_encoding(user_key@.skip(i as int + 8)) =~= out0
                    + v2_group_encoding(rest));
            }
            i += 8;
        }
        let ghost out1 = out@;
        let rem = n - i;
        let mut j: usize = 0;
        while j < rem
            invariant
                n == user_key@.len(),
                i + rem == n,
                j <= rem,
                out@ == out1 + user_key@.subrange(i as int, i as int + j as int),
            decreases rem - j,
        {
            out.push(user_key[i + j]);
            proof {
                assert(out@ =~= out1 + user_key@.subrange(i as int, i as int + j + 1));
            }
            j += 1;
        }
        let pad = 8 - rem;
        let mut p: usize = 0;
        while p < pad
            invariant
                n == user_key@.len(),
                i + rem == n,
                pad == 8 - rem,
                p <= pad,
                out@ == out1 + user_key@.subrange(i as int, n as int) + Seq::new(
                    p as nat,
                    |k: int| 0u8,
                ),
            decreases pad - p,
        {
            out.push(0);
            proof {
                assert(out@ =~= out1 + user_key@.subrange(i as int, n as int) + Seq::new(
                    (p + 1) as nat,
                    |k: int| 0u8,
                ));
            }
            p += 1;
        }
        out.push(255 - pad as u8);
        proof {
            let rest = user_key@.skip(i as int);
            assert(rest =~= user_key@.subrange(i as int, n as int));
            assert(out@ =~= out1 + v2_group_encoding(rest));
        }
        match ts {
            Some(t) => {
                push_be_bytes(&mut out, u64::MAX - t, 8);
            },
            None => {},
        }
        proof {
            assert(out@ =~= v2_key_encoding(user_key@, ts));
        }
        out
    }

    /// Owned-buffer variant of [`APIV2::encode_raw_key`].
    pub fn encode_raw_key_owned(user_key: Vec<u8>, ts: Option<u64>) -> (r: Vec<u8>)
        ensures
            r@ == v2_key_encoding(user_key@, ts),
    {
        Self::encode_raw_key(user_key.as_slice(), ts)
    }

    /// Decodes a key, and the embedded logical timestamp if one is expected,
    /// from the order-preserving byte form. Malformed input of any shape is
    /// rejected with the specific reason, never misread.
    pub fn decode_raw_key(encoded_key: &[u8], with_ts: bool) -> (r: Result<
        (Vec<u8>, Option<u64>),
        CodecError,
    >)
        ensures
            ({
                let d = v2_decode_key_spec(encoded_key@, with_ts);
                match r {
                    Ok(kt) => d == Ok::<_, CodecError>((kt.0@, kt.1)),
                    Err(e) => d == Err::<(Seq<u8>, Option<u64>), _>(e),
                }
            }),
    {
        let s = encoded_key;
        let n = s.len();
        let mut key: Vec<u8> = Vec::new();
        let mut i: usize = 0;
        proof {
            assert(s@.skip(0) =~= s@);
            match v2_decode_key_spec(s@, with_ts) {
                Ok(kt) => {
                    assert(key@ + kt.0 =~= kt.0);
                },
                Err(_) => {},
            }
        }
        loop
            invariant
                s@ == encoded_key@,
                n == s@.len(),
                i <= n,
                ({
                    let d = v2_decode_key_spec(s@, with_ts);
                    match v2_decode_key_spec(s@.skip(i as int), with_ts) {
                        Ok(kt) => d == Ok::<_, CodecError>((key@ + kt.0, kt.1)),
                        Err(e) => d == Err::<(Seq<u8>, Option<u64>), _>(e),
                    }
                }),
            decreases n - i,
        {
            if n - i < 9 {
                proof {
                    assert(v2_decode_key_spec(s@.skip(i as int), with_ts) == Err::<
                        (Seq<u8>, Option<u64>),
                        _,
                    >(CodecError::TruncatedInput));
                }
                return Err(CodecError::TruncatedInput);
            }
            let marker = s[i + 8];
            proof {
                assert(s@.skip(i as int)[8] == s@[i + 8]);
            }
            if marker == 255 {
                let ghost key0 = key@;
                let mut j: usize = 0;
                while j < 8
                    invariant
                        n == s@.len(),
                        i + 9 <= n,
                        j <= 8,
                        key@ == key0 + s@.subrange(i as int, i as int + j as int),
                    decreases 8 - j,
                {
                    key.push(s[i + j]);
                    proof {
                        assert(key@ =~= key0 + s@.subrange(i as int, i as int + j + 1));
                    }
                    j += 1;
                }
                proof {
                    let rest = s@.skip(i as int);
                    assert(rest.skip(9) =~= s@.skip(i as int + 9));
                    assert(rest.subrange(0, 8) =~= s@.subrange(i as int, i as int + 8));
                    match v2_decode_key_spec(s@.skip(i as int + 9), with_ts) {
                        Ok(kt) => {
                            assert(key@ + kt.0 =~= key0 + (rest.subrange(0, 8) + kt.0));
                        },
                        Err(_) => {},
                    }
                }
                i += 9;
            } else {
                let pad = 255 - marker;
                if pad > 8 {
                    return Err(CodecError::InvalidMarker);
                }
                let pad_us = pad as usize;
                let mut j: usize = 8 - pad_us;
                while j < 8
                    invariant
                        s@ == encoded_key@,
                        n == s@.len(),
                        i + 9 <= n,
                        1 <= pad_us <= 8,
                        pad_us == 255 - s@.skip(i as int)[8],
                        8 - pad_us <= j <= 8,
                        forall|k: int| 8 - pad_us <= k < j ==> s@.skip(i as int)[k] == 0,
                        ({
                            let d = v2_decode_key_spec(s@, with_ts);
                            match v2_decode_key_spec(s@.skip(i as int), with_ts) {
                                Ok(kt) => d == Ok::<_, CodecError>((key@ + kt.0, kt.1)),
                                Err(e) => d == Err::<(Seq<u8>, Option<u64>), _>(e),
                            }
                        }),
                    decreases 8 - j,
                {
                    if s[i + j] != 0 {
                        proof {
                            let rest = s@.skip(i as int);
                            assert(rest[j as int] == s@[i + j]);
                            assert(!(forall|k: int|
                                8 - pad_us <= k < 8 ==> rest[k] == 0));
                        }
                        return Err(CodecError::InvalidPadding);
                    }
                    proof {
                        assert(s@.skip(i as int)[j as int] == s@[i + j]);
                    }
                    j += 1;
                }
                let ghost key0 = key@;
                let keep = 8 - pad_us;
                let mut j: usize = 0;
                while j < keep
                    invariant
                        n == s@.len(),
                        i + 9 <= n,
                        keep <= 8,
                        j <= keep,
                        key@ == key0 + s@.subrange(i as int, i as int + j as int),
                    decreases keep - j,
                {
                    key.push(s[i + j]);
                    proof {
                        assert(key@ =~= key0 + s@.subrange(i as int, i as int + j + 1));
                    }
                    j += 1;
                }
                proof {
                    let rest = s@.skip(i as int);
                    assert(rest.subrange(0, keep as int) =~= s@.subrange(
                        i as int,
                        i as int + keep,
                    ));
                    assert(rest.skip(9) =~= s@.subrange(i as int + 9, n as int));
                    match v2_decode_key_spec(s@.skip(i as int), with_ts) {
                        Ok(kt) => {
                            assert(key@ =~= key0 + rest.subrange(0, keep as int));
                        },
                        Err(_) => {},
                    }
                }
                let rest_len = n - (i + 9);
                proof {
                    assert(s@.skip(i as int).skip(9).len() == rest_len);
                }
                if with_ts {
                    if rest_len < 8 {
                        proof {
                            assert(v2_decode_key_spec(s@.skip(i as int), with_ts) == Err::<
                                (Seq<u8>, Option<u64>),
                                _,
                            >(CodecError::TruncatedInput));
                        }
                        return Err(CodecError::TruncatedInput);
                    }
                    if rest_len > 8 {
                        return Err(CodecError::TrailingData);
                    }
                    let neg = read_be_u64(s, i + 9);
                    proof {
                        let tail = s@.skip(i as int).skip(9);
                        assert(tail =~= s@.subrange(i as int + 9, i as int + 9 + 8));
                        lemma_be_val_bound(tail);
                        lemma_pow256_8();
                    }
                    return Ok((key, Some(u64::MAX - neg)));
                } else {
                    if rest_len > 0 {
                        return Err(CodecError::TrailingData);
                    }
                    return Ok((key, None));
                }
            }
        }
    }

    /// Owned-buffer variant of [`APIV2::decode_raw_key`].
    pub fn decode_raw_key_owned(encoded_key: Vec<u8>, with_ts: bool) -> (r: Result<
        (Vec<u8>, Option<u64>),
        CodecError,
    >)
        ensures
            ({
                let d = v2_decode_key_spec(encoded_key@, with_ts);
                match r {
                    Ok(kt) => d == Ok::<_, CodecError>((kt.0@, kt.1)),
                    Err(e) => d == Err::<(Seq<u8>, Option<u64>), _>(e),
                }
            }),
    {
        Self::decode_raw_key(encoded_key.as_slice(), with_ts)
    }

    /// Owned-buffer variant of [`APIV2::decode_raw_value`]: truncates the
    /// caller's buffer in place instead of copying.
    pub fn decode_raw_value_owned(bytes: Vec<u8>) -> (r: Result<RawValue<Vec<u8>>, CodecError>)
        ensures
            ({
                let d = v2_decode_value_spec(bytes@);
                match r {
                    Ok(rv) => d == Ok::<_, CodecError>((rv.user_value@, rv.expire_ts)),
                    Err(e) => d == Err::<(Seq<u8>, Option<u64>), _>(e),
                }
            }),
    {
        let mut bytes = bytes;
        let n = bytes.len();
        if n == 0 {
            return Err(CodecError::TruncatedInput);
        }
        let flag = bytes[n - 1];
        if flag & 0xfe != 0 {
            return Err(CodecError::UnsupportedFlags);
        }
        if flag == 1 {
            if n < 9 {
                return Err(CodecError::TruncatedInput);
            }
            let ts = read_be_u64(bytes.as_slice(), n - 9);
            bytes.truncate(n - 9);
            Ok(RawValue { user_value: bytes, expire_ts: Some(ts) })
        } else {
            bytes.truncate(n - 1);
            Ok(RawValue { user_value: bytes, expire_ts: None })
        }
    }
}

/// The bounds of a range, seen as byte sequences.
pub open spec fn opt_key_view(bound: Option<&[u8]>) -> Option<Seq<u8>> {
    match bound {
        Some(k) => Some(k@),
        None => None,
    }
}

} // verus!

