//! Little-endian integers in byte ranges.

use crate::error::Error;
use vstd::prelude::*;

verus! {

/// 256 to the power `n`.
pub open spec fn pow256(n: nat) -> nat
    decreases n,
{
    if n == 0 {
        1
    } else {
        256 * pow256((n - 1) as nat)
    }
}

/// The number that the bytes `s` spell, least significant byte first.
pub open spec fn le_value(s: Seq<u8>) -> nat
    decreases s.len(),
{
    if s.len() == 0 {
        0
    } else {
        s[0] as nat + 256 * le_value(s.drop_first())
    }
}

/// The bytes `s[start .. start + width]`.
pub open spec fn window(s: Seq<u8>, start: int, width: int) -> Seq<u8> {
    s.subrange(start, start + width)
}

/// `pow256` grows with its argument.
pub proof fn lemma_pow256_monotonic(a: nat, b: nat)
    requires
        a <= b,
    ensures
        1 <= pow256(a) <= pow256(b),
    decreases b,
{
    if b == 0 {
    } else if a == b {
        lemma_pow256_monotonic(0, (b - 1) as nat);
    } else {
        lemma_pow256_monotonic(a, (b - 1) as nat);
    }
}

/// Sixteen bytes span exactly the range of a `u128`.
pub proof fn lemma_pow256_16()
    ensures
        pow256(16) == 0x1_0000_0000_0000_0000_0000_0000_0000_0000nat,
{
    reveal_with_fuel(pow256, 17);
}

/// A sequence of `n` bytes spells a number below `256^n`.
pub proof fn lemma_le_value_bound(s: Seq<u8>)
    ensures
        le_value(s) < pow256(s.len()),
    decreases s.len(),
{
    if s.len() > 0 {
        lemma_le_value_bound(s.drop_first());
    }
}

/// The number in a window is its first byte plus 256 times the number in
/// the rest of the window.
pub proof fn lemma_le_value_window_step(s: Seq<u8>, start: int, width: int)
    requires
        0 <= start,
        0 < width,
        start + width <= s.len(),
    ensures
        le_value(window(s, start, width)) == s[start] as nat + 256 * le_value(
            window(s, start + 1, width - 1),
        ),
{
    assert(window(s, start, width).drop_first() =~= window(s, start + 1, width - 1));
}

/// Eight bytes span exactly the range of a `u64`.
pub proof fn lemma_pow256_8()
    ensures
        pow256(8) == 0x1_0000_0000_0000_0000nat,
{
    reveal_with_fuel(pow256, 9);
}

/// A read-only snapshot of target memory: the bytes found at `address`.
/// Supplied anew for each request and never kept.
pub struct ByteRange {
    address: u64,
    bytes: Vec<u8>,
}

impl View for ByteRange {
    type V = Seq<u8>;

    closed spec fn view(&self) -> Seq<u8> {
        self.bytes@
    }
}

impl ByteRange {
    /// The address of the first byte.
    pub closed spec fn base(&self) -> u64 {
        self.address
    }

    /// Every snapshot lies inside the 64-bit address space.
    #[verifier::type_invariant]
    pub open spec fn fits(self) -> bool {
        self.base() + self@.len() <= u64::MAX
    }

    /// A snapshot of `bytes` found at `address`.  A range that would run past
    /// the end of the 64-bit address space is refused with `OutOfRange`.
    pub fn new(address: u64, bytes: Vec<u8>) -> (r: Result<ByteRange, Error>)
        ensures
            match r {
                Ok(b) => b.base() == address && b@ == bytes@ && address + bytes@.len()
                    <= u64::MAX,
                Err(e) => e == Error::OutOfRange && address + bytes@.len() > u64::MAX,
            },
    {
        if bytes.len() as u64 > u64::MAX - address {
            return Err(Error::OutOfRange);
        }
        Ok(ByteRange { address, bytes })
    }

    pub fn address(&self) -> (a: u64)
        ensures
            a == self.base(),
    {
        self.address
    }

    pub fn len(&self) -> (n: usize)
        ensures
            n == self@.len(),
    {
        self.bytes.len()
    }

    pub fn as_slice(&self) -> (s: &[u8])
        ensures
            s@ == self@,
    {
        self.bytes.as_slice()
    }
}

/// The `width` least significant bytes of `value`, least significant first.
pub open spec fn le_bytes(value: nat, width: nat) -> Seq<u8> {
    Seq::new(width, |i: int| ((value / pow256(i as nat)) % 256) as u8)
}

/// Whether the bytes, read as a two's complement number, are negative.
pub open spec fn is_negative(bytes: Seq<u8>) -> bool {
    bytes.len() > 0 && bytes.last() >= 128
}

/// Writes `value` into `width` bytes, least significant first, and says
/// whether the bytes hold all of it.
pub fn encode_le(value: u128, width: usize) -> (r: (Vec<u8>, bool))
    ensures
        r.0@ == le_bytes(value as nat, width as nat),
        r.1 == (value as nat / pow256(width as nat) == 0),
{
    let mut out: Vec<u8> = Vec::new();
    let mut rest: u128 = value;
    let mut i: usize = 0;
    assert(pow256(0) == 1);
    assert(value as nat / 1 == value as nat);
    while i < width
        invariant
            i <= width,
            out@.len() == i,
            rest == value as nat / pow256(i as nat),
            forall|k: int| 0 <= k < i ==> out@[k] == ((value as nat / pow256(k as nat)) % 256) as u8,
        decreases width - i,
    {
        out.push((rest % 256) as u8);
        proof {
            lemma_pow256_monotonic(0, i as nat);
            let p = pow256(i as nat) as int;
            vstd::arithmetic::div_mod::lemma_div_denominator(value as int, p, 256);
            assert(p * 256 == pow256((i + 1) as nat)) by (nonlinear_arith)
                requires
                    pow256((i + 1) as nat) == 256 * p,
            ;
        }
        rest = rest / 256;
        i += 1;
    }
    assert(out@ =~= le_bytes(value as nat, width as nat));
    (out, rest == 0)
}

/// Reads the unsigned little-endian integer held in `width` bytes of `bytes`
/// from `start` on.
pub fn read_le(bytes: &[u8], start: usize, width: usize) -> (r: u128)
    requires
        width <= 16,
        start + width <= bytes@.len(),
    ensures
        r == le_value(window(bytes@, start as int, width as int)),
{
    let len: usize = bytes.len();
    let mut acc: u128 = 0;
    let mut i: usize = width;
    proof {
        lemma_pow256_16();
    }
    while i > 0
        invariant
            i <= width <= 16,
            start + width <= bytes@.len() == len,
            acc == le_value(window(bytes@, start + i, width - i)),
            acc < pow256((width - i) as nat),
            pow256(16) == 0x1_0000_0000_0000_0000_0000_0000_0000_0000nat,
        decreases i,
    {
        i = i - 1;
        let b: u8 = bytes[start + i];
        proof {
            lemma_le_value_window_step(bytes@, start + i, width - i);
            lemma_pow256_monotonic((width - i) as nat, 16);
            let hi = pow256((width - i - 1) as nat);
            assert(pow256((width - i) as nat) == 256 * hi);
            assert(acc * 256 + b < 256 * hi) by (nonlinear_arith)
                requires
                    acc < hi,
                    b < 256,
            ;
        }
        acc = acc * 256 + b as u128;
    }
    acc
}

} // verus!
