//! Encode/decode rules for the fixed-size binary fields of the schema.
//!
//! Identifiers are stored as raw little-endian bytes: 32 bytes for a hash,
//! 10 bytes for a proposal short id, 8 bytes each for the packed
//! reward-accounting words. A value read back with the wrong byte length is a
//! data-integrity error, never silently coerced.

use vstd::arithmetic::div_mod::lemma_div_denominator;
use vstd::arithmetic::div_mod::lemma_mod_breakdown;
use vstd::prelude::*;

use crate::error::Error;
use crate::types::{Dao, Hash32, ShortId};

verus! {

/// `256^n`.
pub open spec fn pow256(n: nat) -> nat
    decreases n,
{
    if n == 0 {
        1
    } else {
        256 * pow256((n - 1) as nat)
    }
}

/// The `n`-byte little-endian expansion of `w` (low bytes of `w` only).
pub open spec fn le_bytes(w: nat, n: nat) -> Seq<u8>
    decreases n,
{
    if n == 0 {
        Seq::empty()
    } else {
        seq![(w % 256) as u8] + le_bytes(w / 256, (n - 1) as nat)
    }
}

/// The value of a little-endian byte string.
pub open spec fn le_val(s: Seq<u8>) -> nat
    decreases s.len(),
{
    if s.len() == 0 {
        0
    } else {
        (s[0] + 256 * le_val(s.drop_first())) as nat
    }
}

/// The 32-byte little-endian encoding of a hash.
pub open spec fn hash_le_bytes(h: Hash32) -> Seq<u8> {
    le_bytes(h.w0 as nat, 8) + le_bytes(h.w1 as nat, 8) + le_bytes(h.w2 as nat, 8) + le_bytes(
        h.w3 as nat,
        8,
    )
}

/// The hash whose encoding is the 32-byte string `s`.
pub open spec fn hash_of_le(s: Seq<u8>) -> Hash32 {
    Hash32 {
        w0: le_val(s.subrange(0, 8)) as u64,
        w1: le_val(s.subrange(8, 16)) as u64,
        w2: le_val(s.subrange(16, 24)) as u64,
        w3: le_val(s.subrange(24, 32)) as u64,
    }
}

pub proof fn lemma_pow256_pos(n: nat)
    ensures
        pow256(n) >= 1,
    decreases n,
{
    if n > 0 {
        lemma_pow256_pos((n - 1) as nat);
    }
}

pub proof fn lemma_pow256_increases(a: nat, b: nat)
    requires
        a <= b,
    ensures
        pow256(a) <= pow256(b),
    decreases b,
{
    lemma_pow256_pos(a);
    if a < b && b > 0 {
        lemma_pow256_increases(a, (b - 1) as nat);
    }
}

pub proof fn lemma_le_bytes_len(w: nat, n: nat)
    ensures
        le_bytes(w, n).len() == n,
    decreases n,
{
    if n > 0 {
        lemma_le_bytes_len(w / 256, (n - 1) as nat);
    }
}

/// Decoding inverts encoding, up to the encoded width.
pub proof fn lemma_le_val_le_bytes(w: nat, n: nat)
    ensures
        le_val(le_bytes(w, n)) == w % pow256(n),
    decreases n,
{
    if n == 0 {
        assert(w as int % 1int == 0);
    } else {
        let s = le_bytes(w, n);
        lemma_le_bytes_len(w / 256, (n - 1) as nat);
        assert(s.drop_first() =~= le_bytes(w / 256, (n - 1) as nat));
        lemma_le_val_le_bytes(w / 256, (n - 1) as nat);
        lemma_pow256_pos((n - 1) as nat);
        lemma_mod_breakdown(w as int, 256, pow256((n - 1) as nat) as int);
    }
}

pub proof fn lemma_pow256_8()
    ensures
        pow256(8) == 0x10000000000000000,
        pow256(7) == 0x100000000000000,
        pow256(2) == 0x10000,
{
    reveal_with_fuel(pow256, 9);
}

/// Two hashes with the same encoding are the same hash.
pub proof fn lemma_hash_of_le(h: Hash32, s: Seq<u8>)
    requires
        hash_le_bytes(h) == s,
    ensures
        hash_of_le(s) == h,
{
    lemma_pow256_8();
    lemma_le_bytes_len(h.w0 as nat, 8);
    lemma_le_bytes_len(h.w1 as nat, 8);
    lemma_le_bytes_len(h.w2 as nat, 8);
    lemma_le_bytes_len(h.w3 as nat, 8);
    assert(s.subrange(0, 8) =~= le_bytes(h.w0 as nat, 8));
    assert(s.subrange(8, 16) =~= le_bytes(h.w1 as nat, 8));
    assert(s.subrange(16, 24) =~= le_bytes(h.w2 as nat, 8));
    assert(s.subrange(24, 32) =~= le_bytes(h.w3 as nat, 8));
    lemma_le_val_le_bytes(h.w0 as nat, 8);
    lemma_le_val_le_bytes(h.w1 as nat, 8);
    lemma_le_val_le_bytes(h.w2 as nat, 8);
    lemma_le_val_le_bytes(h.w3 as nat, 8);
}

/// Reads the `n`-byte little-endian value at `off`; `n` at most 8.
pub fn le_at(s: &[u8], off: usize, n: usize) -> (w: u64)
    requires
        off + n <= s@.len(),
        n <= 8,
    ensures
        le_bytes(w as nat, n as nat) == s@.subrange(off as int, off as int + n as int),
        (w as nat) < pow256(n as nat),
{
    let mut w: u64 = 0;
    let mut j: usize = n;
    proof {
        assert(vstd::slice::spec_slice_len(s) == s@.len());
        assert(le_bytes(0, 0) =~= s@.subrange(off as int + n as int, off as int + n as int));
    }
    while j > 0
        invariant
            off + n <= s@.len(),
            s@.len() <= usize::MAX,
            n <= 8,
            j <= n,
            (w as nat) < pow256((n - j) as nat),
            le_bytes(w as nat, (n - j) as nat) == s@.subrange(
                off as int + j as int,
                off as int + n as int,
            ),
        decreases j,
    {
        j = j - 1;
        let b = s[off + j];
        proof {
            lemma_pow256_increases((n - j - 1) as nat, 7);
            lemma_pow256_8();
        }
        let w2 = b as u64 + 256 * w;
        proof {
            let k = (n - j - 1) as nat;
            assert(w2 as nat % 256 == b as nat && w2 as nat / 256 == w as nat)
                by (nonlinear_arith)
                requires
                    w2 as nat == b as nat + 256 * (w as nat),
                    (b as nat) < 256,
            ;
            assert(le_bytes(w2 as nat, (k + 1) as nat) =~= seq![b] + le_bytes(w as nat, k));
            assert(s@.subrange(off as int + j as int, off as int + n as int) =~= seq![
                s@[off as int + j as int],
            ] + s@.subrange(off as int + j as int + 1, off as int + n as int));
        }
        w = w2;
    }
    w
}

pub proof fn lemma_le_bytes_index(w: nat, n: nat, i: int)
    requires
        0 <= i < n,
    ensures
        le_bytes(w, n)[i] == (w / pow256(i as nat) % 256) as u8,
    decreases i,
{
    lemma_le_bytes_len(w, n);
    if i == 0 {
        assert(w as int / 1int == w as int);
    } else {
        lemma_le_bytes_len(w / 256, (n - 1) as nat);
        lemma_le_bytes_index(w / 256, (n - 1) as nat, i - 1);
        lemma_pow256_pos((i - 1) as nat);
        lemma_div_denominator(w as int, 256, pow256((i - 1) as nat) as int);
        assert(256 * pow256((i - 1) as nat) == pow256(i as nat));
    }
}

/// Appends the `n`-byte little-endian encoding of `w`; `n` at most 8.
pub fn push_le(out: &mut Vec<u8>, w: u64, n: usize)
    requires
        n <= 8,
    ensures
        final(out)@ == old(out)@ + le_bytes(w as nat, n as nat),
{
    let mut cur: u64 = w;
    let mut i: usize = 0;
    proof {
        lemma_le_bytes_len(w as nat, n as nat);
        assert(out@ =~= old(out)@ + le_bytes(w as nat, n as nat).subrange(0, 0));
        assert(w as int / 1int == w as int);
    }
    while i < n
        invariant
            n <= 8,
            i <= n,
            out@ == old(out)@ + le_bytes(w as nat, n as nat).subrange(0, i as int),
            le_bytes(w as nat, n as nat).len() == n,
            cur as nat == (w as nat) / pow256(i as nat),
        decreases n - i,
    {
        let b = (cur % 256) as u8;
        proof {
            lemma_le_bytes_index(w as nat, n as nat, i as int);
            assert(le_bytes(w as nat, n as nat).subrange(0, i as int + 1) =~= le_bytes(
                w as nat,
                n as nat,
            ).subrange(0, i as int).push(le_bytes(w as nat, n as nat)[i as int]));
            lemma_pow256_pos(i as nat);
            lemma_div_denominator(w as int, pow256(i as nat) as int, 256);
            assert(pow256(i as nat) * 256 == pow256((i + 1) as nat));
        }
        out.push(b);
        cur = cur / 256;
        i = i + 1;
    }
    proof {
        assert(out@ =~= old(out)@ + le_bytes(w as nat, n as nat));
    }
}

impl Hash32 {
    /// The 32-byte little-endian encoding of this hash.
    pub fn to_bytes(&self) -> (r: Vec<u8>)
        ensures
            r@ == hash_le_bytes(*self),
            r@.len() == 32,
    {
        let mut out: Vec<u8> = Vec::new();
        push_le(&mut out, self.w0, 8);
        push_le(&mut out, self.w1, 8);
        push_le(&mut out, self.w2, 8);
        push_le(&mut out, self.w3, 8);
        proof {
            lemma_le_bytes_len(self.w0 as nat, 8);
            lemma_le_bytes_len(self.w1 as nat, 8);
            lemma_le_bytes_len(self.w2 as nat, 8);
            lemma_le_bytes_len(self.w3 as nat, 8);
            assert(out@ =~= hash_le_bytes(*self));
        }
        out
    }
}

/// Decodes a stored 32-byte identifier. Any other length is a
/// data-integrity error: corruption must not be silently coerced.
pub fn hash_from_value(value: Vec<u8>) -> (r: Result<Hash32, Error>)
    ensures
        r is Ok <==> value@.len() == 32,
        r matches Ok(h) ==> hash_le_bytes(h) == value@,
        r matches Err(e) ==> e matches (Error::Data { message: _, length }) && length
            == value@.len(),
{
    if value.len() == 32 {
        let s = value.as_slice();
        let h = Hash32 {
            w0: le_at(s, 0, 8),
            w1: le_at(s, 8, 8),
            w2: le_at(s, 16, 8),
            w3: le_at(s, 24, 8),
        };
        proof {
            assert(hash_le_bytes(h) =~= value@.subrange(0, 8) + value@.subrange(8, 16)
                + value@.subrange(16, 24) + value@.subrange(24, 32));
            assert(hash_le_bytes(h) =~= value@);
        }
        Ok(h)
    } else {
        let length = value.len();
        Err(Error::Data { message: "incorrect hash length", length })
    }
}

impl Dao {
    /// Splits the 32-byte packed reward-accounting field into its four
    /// little-endian 64-bit words.
    pub fn from_slice(slice: &[u8]) -> (r: Self)
        requires
            slice@.len() >= 32,
        ensures
            le_bytes(r.c as nat, 8) == slice@.subrange(0, 8),
            le_bytes(r.ar as nat, 8) == slice@.subrange(8, 16),
            le_bytes(r.s as nat, 8) == slice@.subrange(16, 24),
            le_bytes(r.u as nat, 8) == slice@.subrange(24, 32),
    {
        Dao {
            c: le_at(slice, 0, 8),
            ar: le_at(slice, 8, 8),
            s: le_at(slice, 16, 8),
            u: le_at(slice, 24, 8),
        }
    }
}

impl ShortId {
    /// Decodes a 10-byte proposal short id.
    pub fn from_slice(slice: &[u8]) -> (r: Self)
        requires
            slice@.len() >= 10,
        ensures
            le_bytes(r.w0 as nat, 8) == slice@.subrange(0, 8),
            le_bytes(r.w1 as nat, 2) == slice@.subrange(8, 10),
    {
        let w0 = le_at(slice, 0, 8);
        let w1 = le_at(slice, 8, 2);
        proof {
            lemma_pow256_8();
        }
        ShortId { w0, w1: w1 as u16 }
    }
}

} // verus!
