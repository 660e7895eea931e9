//! Big-endian integers and length-prefixed sequences.
use crate::traits::Encode;
use vstd::prelude::*;

verus! {

/// The width of the length that precedes an encoded sequence.
pub enum LenType {
    L8,
    L16,
    L32,
    L64,
}

impl LenType {
    /// The number of bytes that a length of this width takes.
    pub open spec fn spec_width(self) -> nat {
        match self {
            LenType::L8 => 1,
            LenType::L16 => 2,
            LenType::L32 => 4,
            LenType::L64 => 8,
        }
    }
}

/// The `n` low bytes of `x`, most significant first.
pub open spec fn spec_be_bytes(x: nat, n: nat) -> Seq<u8>
    decreases n,
{
    if n == 0 {
        Seq::empty()
    } else {
        spec_be_bytes(x / 256, (n - 1) as nat).push((x % 256) as u8)
    }
}

/// A length in the given width: its low bytes, most significant first. A
/// length that does not fit loses its high bytes.
pub open spec fn spec_encode_length(len_type: LenType, l: nat) -> Seq<u8> {
    spec_be_bytes(l, len_type.spec_width())
}

/// A byte sequence behind its length.
pub open spec fn spec_encode_slice(len_type: LenType, b: Seq<u8>) -> Seq<u8> {
    spec_encode_length(len_type, b.len()) + b
}

/// The four-byte big-endian encodings of the items of `s`, one after the other.
pub open spec fn spec_u32s_bytes(s: Seq<u32>) -> Seq<u8>
    decreases s.len(),
{
    if s.len() == 0 {
        Seq::empty()
    } else {
        spec_u32s_bytes(s.drop_last()) + spec_be_bytes(s.last() as nat, 4)
    }
}

/// A sequence of 32-bit integers behind the number of its items.
pub open spec fn spec_encode_u32_slice(len_type: LenType, s: Seq<u32>) -> Seq<u8> {
    spec_encode_length(len_type, s.len()) + spec_u32s_bytes(s)
}

/// The byte `x` as a vector.
pub fn u8_be_bytes(x: u8) -> (out: Vec<u8>)
    ensures
        out@ == spec_be_bytes(x as nat, 1),
{
    let mut out = Vec::new();
    out.push(x);
    proof {
        reveal_with_fuel(spec_be_bytes, 2);
        assert(out@ =~= spec_be_bytes(x as nat, 1));
    }
    out
}

/// The two bytes of `x`, most significant first.
pub fn u16_be_bytes(x: u16) -> (out: Vec<u8>)
    ensures
        out@ == spec_be_bytes(x as nat, 2),
{
    let mut out = Vec::new();
    let b0 = x >> 8;
    let b1 = x & 0xff;
    proof {
        assert(b0 == (x / 256) % 256 && b1 == x % 256 && b0 < 256 && b1 < 256) by (bit_vector)
            requires
                b0 == x >> 8,
                b1 == x & 0xff,
        ;
    }
    out.push(b0 as u8);
    out.push(b1 as u8);
    proof {
        reveal_with_fuel(spec_be_bytes, 3);
        let n = x as nat;
        assert(spec_be_bytes(n / 256 / 256, 0) =~= Seq::<u8>::empty());
        assert(spec_be_bytes(n / 256, 1) =~= seq![b0 as u8]);
        assert(spec_be_bytes(n, 2) =~= seq![b0 as u8, b1 as u8]);
        assert(out@ =~= seq![b0 as u8, b1 as u8]);
    }
    out
}

/// The four bytes of `x`, most significant first.
pub fn u32_be_bytes(x: u32) -> (out: Vec<u8>)
    ensures
        out@ == spec_be_bytes(x as nat, 4),
{
    let mut out = Vec::new();
    let b0 = x >> 24;
    let b1 = (x >> 16) & 0xff;
    let b2 = (x >> 8) & 0xff;
    let b3 = x & 0xff;
    proof {
        assert(b0 == (x / 0x100_0000) % 256 && b1 == (x / 0x1_0000) % 256 && b2 == (x / 0x100)
            % 256 && b3 == x % 256 && b0 < 256 && b1 < 256 && b2 < 256 && b3 < 256)
            by (bit_vector)
            requires
                b0 == x >> 24,
                b1 == (x >> 16) & 0xff,
                b2 == (x >> 8) & 0xff,
                b3 == x & 0xff,
        ;
    }
    out.push(b0 as u8);
    out.push(b1 as u8);
    out.push(b2 as u8);
    out.push(b3 as u8);
    proof {
        reveal_with_fuel(spec_be_bytes, 5);
        let n = x as nat;
        assert(n / 256 / 256 == n / 0x1_0000);
        assert(n / 256 / 256 / 256 == n / 0x100_0000);
        assert(spec_be_bytes(n / 0x100_0000 / 256, 0) =~= Seq::<u8>::empty());
        assert(spec_be_bytes(n / 0x100_0000, 1) =~= seq![b0 as u8]);
        assert(spec_be_bytes(n / 0x1_0000, 2) =~= seq![b0 as u8, b1 as u8]);
        assert(spec_be_bytes(n / 256, 3) =~= seq![b0 as u8, b1 as u8, b2 as u8]);
        assert(spec_be_bytes(n, 4) =~= seq![b0 as u8, b1 as u8, b2 as u8, b3 as u8]);
        assert(out@ =~= seq![b0 as u8, b1 as u8, b2 as u8, b3 as u8]);
    }
    out
}

/// The eight bytes of `x`, most significant first.
pub fn u64_be_bytes(x: u64) -> (out: Vec<u8>)
    ensures
        out@ == spec_be_bytes(x as nat, 8),
{
    proof {
        assert((x >> 32) <= 0xffff_ffff && (x & 0xffff_ffff) <= 0xffff_ffff && (x >> 32) == x
            / 0x1_0000_0000 && (x & 0xffff_ffff) == x % 0x1_0000_0000) by (bit_vector);
    }
    let hi = (x >> 32) as u32;
    let lo = (x & 0xffff_ffff) as u32;
    let mut out = u32_be_bytes(hi);
    let mut low = u32_be_bytes(lo);
    out.append(&mut low);
    proof {
        lemma_be_bytes_split(x as nat, 4, 4);
        lemma_pow256();
    }
    out
}

impl Encode for u8 {
    open spec fn spec_encode(&self) -> Seq<u8> {
        spec_be_bytes(*self as nat, 1)
    }

    fn encode(&self) -> (out: Vec<u8>) {
        u8_be_bytes(*self)
    }
}

impl Encode for u16 {
    open spec fn spec_encode(&self) -> Seq<u8> {
        spec_be_bytes(*self as nat, 2)
    }

    fn encode(&self) -> (out: Vec<u8>) {
        let out = u16_be_bytes(*self);
        assert(self.spec_encode() == spec_be_bytes(*self as nat, 2));
        out
    }
}

impl Encode for u32 {
    open spec fn spec_encode(&self) -> Seq<u8> {
        spec_be_bytes(*self as nat, 4)
    }

    fn encode(&self) -> (out: Vec<u8>) {
        u32_be_bytes(*self)
    }
}

impl Encode for u64 {
    open spec fn spec_encode(&self) -> Seq<u8> {
        spec_be_bytes(*self as nat, 8)
    }

    fn encode(&self) -> (out: Vec<u8>) {
        u64_be_bytes(*self)
    }
}

/// The powers of 256 that bound the lengths of one, two and four bytes.
pub proof fn lemma_pow256()
    ensures
        vstd::arithmetic::power::pow(256, 1) == 0x100,
        vstd::arithmetic::power::pow(256, 2) == 0x1_0000,
        vstd::arithmetic::power::pow(256, 4) == 0x1_0000_0000,
{
    reveal_with_fuel(vstd::arithmetic::power::pow, 5);
}

/// The encoding of an integer is that of its high part, then that of its low part.
pub proof fn lemma_be_bytes_split(x: nat, high: nat, low: nat)
    ensures
        spec_be_bytes(x, high + low) == spec_be_bytes(
            x / (vstd::arithmetic::power::pow(256, low) as nat),
            high,
        ) + spec_be_bytes(x % (vstd::arithmetic::power::pow(256, low) as nat), low),
    decreases low,
{
    reveal(vstd::arithmetic::power::pow);
    let p = vstd::arithmetic::power::pow(256, low) as nat;
    if low == 0 {
        assert(p == 1);
        assert(x / 1 == x);
        assert(spec_be_bytes(x, high) + Seq::<u8>::empty() =~= spec_be_bytes(x, high));
    } else {
        let q = vstd::arithmetic::power::pow(256, (low - 1) as nat) as nat;
        vstd::arithmetic::power::lemma_pow_positive(256, (low - 1) as nat);
        assert(p == 256 * q);
        lemma_be_bytes_split(x / 256, high, (low - 1) as nat);
        vstd::arithmetic::div_mod::lemma_div_denominator(x as int, 256, q as int);
        assert(x / 256 / q == x / p);
        vstd::arithmetic::div_mod::lemma_fundamental_div_mod(x as int, p as int);
        vstd::arithmetic::div_mod::lemma_fundamental_div_mod((x / 256) as int, q as int);
        vstd::arithmetic::div_mod::lemma_mod_bound(x as int, p as int);
        let xm = x % p;
        let a = x / p;
        assert(p * a == 256 * (q * a)) by (nonlinear_arith)
            requires
                p == 256 * q,
        ;
        assert(xm == 256 * ((x / 256) % q) + x % 256);
        assert(xm / 256 == (x / 256) % q);
        assert(xm % 256 == x % 256);
        assert(spec_be_bytes(x, high + low) =~= spec_be_bytes(x / p, high) + spec_be_bytes(
            xm,
            low,
        ));
    }
}

/// Appends the length `l` to `out`, in the width `len_type`.
pub fn encode_length(len_type: LenType, l: usize, out: &mut Vec<u8>)
    ensures
        final(out)@ == old(out)@ + spec_encode_length(len_type, l as nat),
{
    let x = l as u64;
    proof {
        lemma_pow256();
        assert(x & 0xff == x % 0x100 && x & 0xffff == x % 0x1_0000 && x & 0xffff_ffff == x
            % 0x1_0000_0000) by (bit_vector);
    }
    match len_type {
        LenType::L8 => {
            let mut bytes = u8_be_bytes((x & 0xff) as u8);
            proof {
                lemma_be_bytes_split(l as nat, 0, 1);
                assert(spec_be_bytes(l as nat / 0x100, 0) + bytes@ =~= bytes@);
            }
            out.append(&mut bytes);
        },
        LenType::L16 => {
            let mut bytes = u16_be_bytes((x & 0xffff) as u16);
            proof {
                lemma_be_bytes_split(l as nat, 0, 2);
                assert(spec_be_bytes(l as nat / 0x1_0000, 0) + bytes@ =~= bytes@);
            }
            out.append(&mut bytes);
        },
        LenType::L32 => {
            let mut bytes = u32_be_bytes((x & 0xffff_ffff) as u32);
            proof {
                lemma_be_bytes_split(l as nat, 0, 4);
                assert(spec_be_bytes(l as nat / 0x1_0000_0000, 0) + bytes@ =~= bytes@);
            }
            out.append(&mut bytes);
        },
        LenType::L64 => {
            let mut bytes = u64_be_bytes(x);
            out.append(&mut bytes);
        },
    }
}

/// Appends the bytes `b` to `out`, behind their number.
pub fn encode_slice(len_type: LenType, b: &[u8], out: &mut Vec<u8>)
    ensures
        final(out)@ == old(out)@ + spec_encode_slice(len_type, b@),
{
    encode_length(len_type, b.len(), out);
    extend_bytes(out, b);
}

/// Appends the bytes `b` to `out`.
pub fn extend_bytes(out: &mut Vec<u8>, b: &[u8])
    ensures
        final(out)@ == old(out)@ + b@,
{
    let ghost before = out@;
    let mut i: usize = 0;
    while i < b.len()
        invariant
            i <= b@.len(),
            out@ == before + b@.subrange(0, i as int),
        decreases b@.len() - i,
    {
        out.push(b[i]);
        i += 1;
        assert(out@ =~= before + b@.subrange(0, i as int));
    }
    assert(b@.subrange(0, i as int) =~= b@);
}

/// Appends the integers `b_in` to `out`, four bytes each, behind their number.
pub fn encode_u32_slice(len_type: LenType, b_in: &[u32], out: &mut Vec<u8>)
    ensures
        final(out)@ == old(out)@ + spec_encode_u32_slice(len_type, b_in@),
{
    let ghost before = out@;
    encode_length(len_type, b_in.len(), out);
    let ghost head = out@;
    let mut i: usize = 0;
    while i < b_in.len()
        invariant
            i <= b_in@.len(),
            out@ == head + spec_u32s_bytes(b_in@.subrange(0, i as int)),
        decreases b_in@.len() - i,
    {
        let mut bytes = u32_be_bytes(b_in[i]);
        out.append(&mut bytes);
        i += 1;
        proof {
            let s = b_in@.subrange(0, i as int);
            assert(s.drop_last() =~= b_in@.subrange(0, i - 1));
            assert(out@ =~= head + spec_u32s_bytes(s));
        }
    }
    proof {
        assert(b_in@.subrange(0, i as int) =~= b_in@);
        assert(out@ =~= before + spec_encode_u32_slice(len_type, b_in@));
    }
}

impl<T: Encode> Encode for Option<T> {
    open spec fn spec_encode(&self) -> Seq<u8> {
        match self {
            Some(v) => seq![1u8] + v.spec_encode(),
            None => seq![0u8],
        }
    }

    fn encode(&self) -> (out: Vec<u8>) {
        let mut out = Vec::new();
        match self {
            Some(v) => {
                out.push(0x1);
                let mut bytes = v.encode();
                out.append(&mut bytes);
                assert(out@ =~= seq![1u8] + v.spec_encode());
            },
            None => {
                out.push(0x0);
                assert(out@ =~= seq![0u8]);
            },
        }
        out
    }
}

} // verus!
