//! Canonical byte encodings for keys and values.
//!
//! Every value stored through a state container is first turned into bytes by
//! a canonical, self-delimiting encoding: the same value always yields the
//! same bytes, and decoding the encoding of a value gives the value back.

use vstd::prelude::*;
use vstd::slice::slice_subrange;

verus! {

/// Little-endian byte sequence of `v`, `n` bytes long (low byte first).
pub open spec fn le_bytes(v: nat, n: nat) -> Seq<u8>
    decreases n,
{
    if n == 0 {
        Seq::empty()
    } else {
        seq![(v % 256) as u8] + le_bytes(v / 256, (n - 1) as nat)
    }
}

/// The number read back from a little-endian byte sequence.
pub open spec fn le_value(s: Seq<u8>) -> nat
    decreases s.len(),
{
    if s.len() == 0 {
        0
    } else {
        (s[0] + 256 * le_value(s.drop_first())) as nat
    }
}

/// 256^n.
pub open spec fn pow256(n: nat) -> nat
    decreases n,
{
    if n == 0 {
        1
    } else {
        256 * pow256((n - 1) as nat)
    }
}

pub proof fn lemma_le_value_bound(s: Seq<u8>)
    ensures
        le_value(s) < pow256(s.len()),
    decreases s.len(),
{
    if s.len() == 0 {
    } else {
        lemma_le_value_bound(s.drop_first());
        assert(le_value(s) == s[0] + 256 * le_value(s.drop_first()));
        assert(256 * le_value(s.drop_first()) <= 256 * (pow256((s.len() - 1) as nat) - 1))
            by (nonlinear_arith)
            requires
                le_value(s.drop_first()) <= pow256((s.len() - 1) as nat) - 1,
        ;
    }
}

/// Decoding inverts encoding: reading back the little-endian bytes of `v`
/// yields `v` whenever `v` fits in `n` bytes.
pub proof fn lemma_le_round_trip(v: nat, n: nat)
    requires
        v < pow256(n),
    ensures
        le_value(le_bytes(v, n)) == v,
    decreases n,
{
    if n == 0 {
    } else {
        assert(v / 256 < pow256((n - 1) as nat)) by (nonlinear_arith)
            requires
                v < 256 * pow256((n - 1) as nat),
        ;
        lemma_le_round_trip(v / 256, (n - 1) as nat);
        let s = le_bytes(v, n);
        assert(s.drop_first() =~= le_bytes(v / 256, (n - 1) as nat));
        assert(v % 256 + 256 * (v / 256) == v);
    }
}

/// Encoding inverts decoding: the bytes of the number read from `s` are `s`.
pub proof fn lemma_le_encode_decode(s: Seq<u8>)
    ensures
        le_bytes(le_value(s), s.len()) == s,
    decreases s.len(),
{
    if s.len() == 0 {
        assert(le_bytes(le_value(s), s.len()) =~= s);
    } else {
        let t = s.drop_first();
        lemma_le_encode_decode(t);
        let v = le_value(s);
        assert(v == s[0] + 256 * le_value(t));
        assert(v % 256 == s[0] && v / 256 == le_value(t)) by (nonlinear_arith)
            requires
                v == s[0] + 256 * le_value(t),
                0 <= s[0] < 256,
        ;
        assert(le_bytes(v, s.len()) =~= s);
    }
}

pub proof fn lemma_le_bytes_len(v: nat, n: nat)
    ensures
        le_bytes(v, n).len() == n,
    decreases n,
{
    if n > 0 {
        lemma_le_bytes_len(v / 256, (n - 1) as nat);
    }
}

/// The 8-byte little-endian encoding of a version or length.
pub open spec fn u64_le_bytes(v: u64) -> Seq<u8> {
    le_bytes(v as nat, 8)
}

/// What `decode_u64` returns on any input.
pub open spec fn spec_decode_u64(s: Seq<u8>) -> Option<u64> {
    if s.len() == 8 {
        Some(le_value(s) as u64)
    } else {
        None
    }
}

/// Writes `v` as 8 little-endian bytes.
pub fn encode_u64(v: u64) -> (r: Vec<u8>)
    ensures
        r@ == u64_le_bytes(v),
{
    let mut out: Vec<u8> = Vec::new();
    let mut rest: u64 = v;
    let mut i: usize = 0;
    while i < 8
        invariant
            i <= 8,
            out@.len() == i,
            le_bytes(v as nat, 8) =~= out@ + le_bytes(rest as nat, (8 - i) as nat),
        decreases 8 - i,
    {
        out.push((rest % 256) as u8);
        rest = rest / 256;
        i = i + 1;
    }
    assert(le_bytes(rest as nat, 0) =~= Seq::<u8>::empty());
    assert(out@ =~= le_bytes(v as nat, 8));
    out
}

/// Reads back an 8-byte little-endian number, or `None` if the input does not
/// have exactly 8 bytes.
pub fn decode_u64(bytes: &[u8]) -> (r: Option<u64>)
    ensures
        r == spec_decode_u64(bytes@),
{
    if bytes.len() != 8 {
        return None;
    }
    let mut acc: u64 = 0;
    let mut i: usize = 8;
    while i > 0
        invariant
            i <= 8,
            bytes@.len() == 8,
            (acc as nat) == le_value(bytes@.subrange(i as int, 8)),
            (acc as nat) < pow256((8 - i) as nat),
        decreases i,
    {
        proof {
            assert(bytes@.subrange(i - 1, 8).drop_first() =~= bytes@.subrange(i as int, 8));
            assert((acc as nat) * 256 + bytes@[i - 1] < 256 * pow256((8 - i) as nat))
                by (nonlinear_arith)
                requires
                    (acc as nat) < pow256((8 - i) as nat),
                    bytes@[i - 1] < 256,
            ;
            lemma_pow256_8();
            lemma_pow256_monotone((8 - i + 1) as nat, 8);
        }
        acc = acc * 256 + (bytes[i - 1] as u64);
        i = i - 1;
    }
    assert(bytes@.subrange(0, 8) =~= bytes@);
    Some(acc)
}

pub proof fn lemma_pow256_8()
    ensures
        pow256(8) == 0x1_0000_0000_0000_0000,
{
    reveal_with_fuel(pow256, 9);
}

proof fn lemma_pow256_monotone(m: nat, n: nat)
    requires
        m <= n,
    ensures
        pow256(m) <= pow256(n),
    decreases n,
{
    if m < n {
        lemma_pow256_monotone(m, (n - 1) as nat);
        assert(pow256(n) == 256 * pow256((n - 1) as nat));
    }
}

/// `decode_u64` inverts `encode_u64`.
pub proof fn lemma_u64_round_trip(v: u64)
    ensures
        spec_decode_u64(u64_le_bytes(v)) == Some(v),
{
    lemma_le_bytes_len(v as nat, 8);
    lemma_pow256_8();
    lemma_le_round_trip(v as nat, 8);
}

/// A value with a canonical byte encoding.
pub trait Encode {
    /// The canonical encoding, as a mathematical byte sequence.
    spec fn spec_encoding(&self) -> Seq<u8>;

    /// Produces the canonical encoding.
    fn encode(&self) -> (r: Vec<u8>)
        ensures
            r@ == self.spec_encoding(),
    ;
}

/// A value that can be read back from its canonical encoding.
pub trait Decode: Encode + Sized {
    /// Parses a canonical encoding. The result is a value whose encoding is
    /// exactly the input, or `None` if the input encodes no value; since the
    /// encoding is the model of a value, this pins the result.
    fn decode(bytes: &[u8]) -> (r: Option<Self>)
        ensures
            r matches Some(v) ==> v.spec_encoding() == bytes@,
            (exists|v: Self| v.spec_encoding() == bytes@) ==> r is Some,
    ;
}

impl Encode for u64 {
    open spec fn spec_encoding(&self) -> Seq<u8> {
        u64_le_bytes(*self)
    }

    fn encode(&self) -> (r: Vec<u8>) {
        encode_u64(*self)
    }
}

impl Decode for u64 {
    fn decode(bytes: &[u8]) -> (r: Option<u64>) {
        let r = decode_u64(bytes);
        proof {
            if bytes@.len() == 8 {
                lemma_le_encode_decode(bytes@);
                lemma_le_value_bound(bytes@);
                lemma_pow256_8();
            } else if exists|v: u64| v.spec_encoding() == bytes@ {
                let v = choose|v: u64| v.spec_encoding() == bytes@;
                lemma_le_bytes_len(v as nat, 8);
            }
        }
        r
    }
}

impl Encode for Vec<u8> {
    /// Length-prefixed bytes: 8-byte little-endian length, then the bytes.
    open spec fn spec_encoding(&self) -> Seq<u8> {
        u64_le_bytes(self@.len() as u64) + self@
    }

    fn encode(&self) -> (r: Vec<u8>) {
        let mut out = encode_u64(self.len() as u64);
        let mut i: usize = 0;
        while i < self.len()
            invariant
                i <= self@.len(),
                out@ =~= u64_le_bytes(self@.len() as u64) + self@.subrange(0, i as int),
            decreases self@.len() - i,
        {
            out.push(self[i]);
            proof {
                assert(self@.subrange(0, i + 1) =~= self@.subrange(0, i as int).push(
                    self@[i as int],
                ));
            }
            i = i + 1;
        }
        proof {
            assert(self@.subrange(0, self@.len() as int) =~= self@);
        }
        out
    }
}

impl Decode for Vec<u8> {
    fn decode(bytes: &[u8]) -> (r: Option<Vec<u8>>) {
        proof {
            lemma_le_bytes_len(bytes@.len() as nat, 8);
        }
        if bytes.len() < 8 {
            proof {
                if exists|v: Vec<u8>| v.spec_encoding() == bytes@ {
                    let v = choose|v: Vec<u8>| v.spec_encoding() == bytes@;
                    lemma_le_bytes_len(v@.len() as u64 as nat, 8);
                }
            }
            return None;
        }
        let prefix = slice_subrange(bytes, 0, 8);
        let len = match decode_u64(prefix) {
            Some(l) => l,
            None => {
                return None;
            },
        };
        if len != (bytes.len() - 8) as u64 {
            proof {
                lemma_le_value_bound(bytes@.subrange(0, 8));
                lemma_pow256_8();
                if exists|v: Vec<u8>| v.spec_encoding() == bytes@ {
                    let v = choose|v: Vec<u8>| v.spec_encoding() == bytes@;
                    lemma_le_bytes_len(v@.len() as u64 as nat, 8);
                    assert(v.spec_encoding().subrange(0, 8) =~= u64_le_bytes(v@.len() as u64));
                    lemma_u64_round_trip(v@.len() as u64);
                    assert(le_value(bytes@.subrange(0, 8)) == v@.len());
                }
            }
            return None;
        }
        let mut out: Vec<u8> = Vec::new();
        let mut i: usize = 8;
        while i < bytes.len()
            invariant
                8 <= i <= bytes@.len(),
                out@ =~= bytes@.subrange(8, i as int),
            decreases bytes@.len() - i,
        {
            out.push(bytes[i]);
            proof {
                assert(bytes@.subrange(8, i + 1) =~= bytes@.subrange(8, i as int).push(
                    bytes@[i as int],
                ));
            }
            i = i + 1;
        }
        proof {
            assert(out@ =~= bytes@.subrange(8, bytes@.len() as int));
            lemma_le_value_bound(bytes@.subrange(0, 8));
            lemma_pow256_8();
            lemma_le_encode_decode(bytes@.subrange(0, 8));
            assert(out.spec_encoding() =~= bytes@);
        }
        Some(out)
    }
}

/// The hint encoding of an optional byte string: a presence tag, then the
/// bytes. A hint record carries its own boundary, so no length is needed.
pub open spec fn opt_bytes_hint(v: Option<Seq<u8>>) -> Seq<u8> {
    match v {
        None => seq![0u8],
        Some(b) => seq![1u8] + b,
    }
}

/// What `decode_opt_bytes` returns on any input.
pub open spec fn spec_decode_opt_bytes(s: Seq<u8>) -> Option<Option<Seq<u8>>> {
    if s.len() >= 1 && s[0] == 0u8 && s.len() == 1 {
        Some(None)
    } else if s.len() >= 1 && s[0] == 1u8 {
        Some(Some(s.drop_first()))
    } else {
        None
    }
}

/// Encodes an optional value as a hint record.
pub fn encode_opt_bytes(v: &Option<Vec<u8>>) -> (r: Vec<u8>)
    ensures
        r@ == opt_bytes_hint(match v {
            Some(b) => Some(b@),
            None => None,
        }),
{
    match v {
        None => {
            let mut out: Vec<u8> = Vec::new();
            out.push(0u8);
            proof {
                assert(out@ =~= seq![0u8]);
            }
            out
        },
        Some(b) => {
            let mut out: Vec<u8> = Vec::new();
            out.push(1u8);
            let mut i: usize = 0;
            while i < b.len()
                invariant
                    i <= b@.len(),
                    out@ =~= seq![1u8] + b@.subrange(0, i as int),
                decreases b@.len() - i,
            {
                out.push(b[i]);
                proof {
                    assert(b@.subrange(0, i + 1) =~= b@.subrange(0, i as int).push(b@[i as int]));
                }
                i = i + 1;
            }
            proof {
                assert(b@.subrange(0, b@.len() as int) =~= b@);
            }
            out
        },
    }
}

/// Decodes a hint record back into an optional value.
pub fn decode_opt_bytes(bytes: &Vec<u8>) -> (r: Option<Option<Vec<u8>>>)
    ensures
        match r {
            Some(v) => spec_decode_opt_bytes(bytes@) matches Some(w) && w == (match v {
                Some(b) => Some(b@),
                None => None,
            }),
            None => spec_decode_opt_bytes(bytes@) is None,
        },
{
    if bytes.len() == 0 {
        return None;
    }
    let tag = bytes[0];
    if tag == 0u8 {
        if bytes.len() != 1 {
            return None;
        }
        Some(None)
    } else if tag == 1u8 {
        let mut out: Vec<u8> = Vec::new();
        let mut i: usize = 1;
        while i < bytes.len()
            invariant
                1 <= i <= bytes@.len(),
                out@ =~= bytes@.subrange(1, i as int),
            decreases bytes@.len() - i,
        {
            out.push(bytes[i]);
            proof {
                assert(bytes@.subrange(1, i + 1) =~= bytes@.subrange(1, i as int).push(
                    bytes@[i as int],
                ));
            }
            i = i + 1;
        }
        proof {
            assert(out@ =~= bytes@.drop_first());
        }
        Some(Some(out))
    } else {
        None
    }
}

/// Decoding a hint record inverts encoding it.
pub proof fn lemma_opt_bytes_round_trip(v: Option<Seq<u8>>)
    ensures
        spec_decode_opt_bytes(opt_bytes_hint(v)) == Some(v),
{
    match v {
        None => {},
        Some(b) => {
            assert((seq![1u8] + b).drop_first() =~= b);
        },
    }
}

} // verus!
