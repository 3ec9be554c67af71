//! Big-endian byte strings for the fixed-width integer fields of the wire
//! formats: the expiry timestamp of a value and the embedded logical
//! timestamp of a key.

use vstd::arithmetic::div_mod::lemma_fundamental_div_mod;
use vstd::prelude::*;

verus! {

/// `256^n`, the number of values an `n`-byte big-endian string can hold.
pub open spec fn pow256(n: nat) -> nat
    decreases n,
{
    if n == 0 {
        1
    } else {
        256 * pow256((n - 1) as nat)
    }
}

/// The integer a big-endian byte string stands for, most significant byte
/// first.
pub open spec fn be_val(s: Seq<u8>) -> nat
    decreases s.len(),
{
    if s.len() == 0 {
        0
    } else {
        be_val(s.drop_last()) * 256 + (s.last() as nat)
    }
}

/// The `n`-byte big-endian form of `v mod 256^n`.
pub open spec fn be_bytes(v: nat, n: nat) -> Seq<u8>
    decreases n,
{
    if n == 0 {
        Seq::empty()
    } else {
        be_bytes(v / 256, (n - 1) as nat) + seq![(v % 256) as u8]
    }
}

pub proof fn lemma_be_bytes_len(v: nat, n: nat)
    ensures
        be_bytes(v, n).len() == n,
    decreases n,
{
    if n > 0 {
        lemma_be_bytes_len(v / 256, (n - 1) as nat);
    }
}

pub proof fn lemma_be_val_bound(s: Seq<u8>)
    ensures
        be_val(s) < pow256(s.len()),
    decreases s.len(),
{
    if s.len() > 0 {
        lemma_be_val_bound(s.drop_last());
    }
}

pub proof fn lemma_pow256_monotonic(m: nat, n: nat)
    requires
        m <= n,
    ensures
        pow256(m) <= pow256(n),
    decreases n,
{
    if m < n {
        lemma_pow256_monotonic(m, (n - 1) as nat);
    }
}

pub proof fn lemma_pow256_8()
    ensures
        pow256(8) == 0x1_0000_0000_0000_0000,
{
    reveal_with_fuel(pow256, 9);
}

/// Encoding then evaluating gives the integer back, as long as it fits.
pub proof fn lemma_be_val_of_be_bytes(v: nat, n: nat)
    requires
        v < pow256(n),
    ensures
        be_val(be_bytes(v, n)) == v,
    decreases n,
{
    if n > 0 {
        let head = be_bytes(v / 256, (n - 1) as nat);
        lemma_be_bytes_len(v / 256, (n - 1) as nat);
        assert((head + seq![(v % 256) as u8]).drop_last() =~= head);
        lemma_fundamental_div_mod(v as int, 256);
        assert(v / 256 < pow256((n - 1) as nat)) by (nonlinear_arith)
            requires
                v < 256 * pow256((n - 1) as nat),
                256 * (v / 256) + (v % 256) == v,
                0 <= v % 256 < 256,
        ;
        lemma_be_val_of_be_bytes(v / 256, (n - 1) as nat);
    }
}

/// Whether `a` sorts strictly before `b` in unsigned lexicographic byte
/// order, the order in which a sorted store keeps its keys.
pub open spec fn lex_less(a: Seq<u8>, b: Seq<u8>) -> bool
    decreases a.len(),
{
    if b.len() == 0 {
        false
    } else if a.len() == 0 {
        true
    } else if a[0] < b[0] {
        true
    } else if a[0] > b[0] {
        false
    } else {
        lex_less(a.skip(1), b.skip(1))
    }
}

/// The value of a big-endian string, split at its most significant byte.
pub proof fn lemma_be_val_front(s: Seq<u8>)
    requires
        s.len() > 0,
    ensures
        be_val(s) == s[0] * pow256((s.len() - 1) as nat) + be_val(s.skip(1)),
    decreases s.len(),
{
    if s.len() == 1 {
        assert(s.drop_last().len() == 0);
        assert(s.skip(1).len() == 0);
        assert(be_val(s.drop_last()) == 0);
        assert(be_val(s.skip(1)) == 0);
        assert(be_val(s) == be_val(s.drop_last()) * 256 + (s.last() as nat));
        assert(s.last() == s[0]);
        assert(pow256(0) == 1);
    } else {
        let head = s.drop_last();
        let n = s.len();
        lemma_be_val_front(head);
        assert(head[0] == s[0]);
        assert(head.skip(1) =~= s.skip(1).drop_last());
        assert(s.skip(1).last() == s.last());
        assert(be_val(s.skip(1)) == be_val(s.skip(1).drop_last()) * 256 + s.last());
        let p = pow256((n - 2) as nat);
        assert(pow256((n - 1) as nat) == 256 * p);
        assert(be_val(head) == s[0] * p + be_val(head.skip(1)));
        assert((s[0] * p + be_val(head.skip(1))) * 256 == s[0] * (256 * p) + be_val(
            head.skip(1),
        ) * 256) by (nonlinear_arith);
        assert(be_val(s) == be_val(head) * 256 + s.last());
    }
}

/// Equal-length big-endian strings sort lexicographically exactly as the
/// integers they stand for.
pub proof fn lemma_be_val_order(a: Seq<u8>, b: Seq<u8>)
    requires
        a.len() == b.len(),
        be_val(a) < be_val(b),
    ensures
        lex_less(a, b),
    decreases a.len(),
{
    lemma_be_val_bound(a);
    lemma_be_val_bound(b);
    if a.len() > 0 {
        lemma_be_val_front(a);
        lemma_be_val_front(b);
        let p = pow256((a.len() - 1) as nat);
        lemma_be_val_bound(a.skip(1));
        lemma_be_val_bound(b.skip(1));
        if a[0] > b[0] {
            assert((b[0] + 1) * p <= a[0] * p) by (nonlinear_arith)
                requires
                    b[0] + 1 <= a[0],
                    p >= 0,
            ;
            assert((b[0] + 1) * p == b[0] * p + p) by (nonlinear_arith);
            assert(false);
        } else if a[0] == b[0] {
            lemma_be_val_order(a.skip(1), b.skip(1));
        }
    }
}

/// A shared prefix changes neither side of a lexicographic comparison.
pub proof fn lemma_lex_less_append(prefix: Seq<u8>, a: Seq<u8>, b: Seq<u8>)
    requires
        lex_less(a, b),
    ensures
        lex_less(prefix + a, prefix + b),
    decreases prefix.len(),
{
    if prefix.len() == 0 {
        assert(prefix + a =~= a);
        assert(prefix + b =~= b);
    } else {
        lemma_lex_less_append(prefix.skip(1), a, b);
        assert((prefix + a).skip(1) =~= prefix.skip(1) + a);
        assert((prefix + b).skip(1) =~= prefix.skip(1) + b);
    }
}

/// Appends the `n`-byte big-endian form of `v` to `out`.
pub fn push_be_bytes(out: &mut Vec<u8>, v: u64, n: usize)
    ensures
        final(out)@ == old(out)@ + be_bytes(v as nat, n as nat),
    decreases n,
{
    if n == 0 {
        assert(out@ =~= old(out)@ + be_bytes(v as nat, 0));
    } else {
        push_be_bytes(out, v / 256, n - 1);
        out.push((v % 256) as u8);
        assert(out@ =~= old(out)@ + be_bytes(v as nat, n as nat));
    }
}

/// Reads the 8-byte big-endian integer starting at `pos`.
pub fn read_be_u64(s: &[u8], pos: usize) -> (v: u64)
    requires
        pos + 8 <= s@.len(),
    ensures
        v as nat == be_val(s@.subrange(pos as int, pos as int + 8)),
{
    let n = s.len();
    let mut v: u64 = 0;
    let mut j: usize = 0;
    while j < 8
        invariant
            pos + 8 <= n == s@.len(),
            j <= 8,
            v as nat == be_val(s@.subrange(pos as int, pos as int + j as int)),
            (v as nat) < pow256(j as nat),
        decreases 8 - j,
    {
        proof {
            lemma_pow256_monotonic(j as nat, 7);
            lemma_pow256_8();
            assert(s@.subrange(pos as int, pos as int + j + 1).drop_last() =~= s@.subrange(
                pos as int,
                pos as int + j,
            ));
        }
        let b = s[pos + j];
        v = v * 256 + b as u64;
        j += 1;
    }
    proof {
        assert(s@.subrange(pos as int, pos as int + 8) =~= s@.subrange(
            pos as int,
            pos as int + j as int,
        ));
    }
    v
}

} // verus!
