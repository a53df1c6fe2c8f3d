//! The payload length, packed into two bytes.
//!
//! The packing is that of `ps_pint16`: nine significant bits and a scale. A
//! length below 512 is kept as it is; a larger one is rounded up to the next
//! length that has such a form.

use vstd::arithmetic::power2::{lemma2_to64, lemma_pow2_unfold, pow2};
use vstd::prelude::*;

verus! {

/// The 16-bit representation of `value`: halve, rounding up, until nine bits
/// are enough, and count the halvings in the high byte.
pub open spec fn packed(value: nat) -> nat
    decreases value,
{
    if value > 0x1ff {
        0x100 + packed(value / 2 + value % 2)
    } else {
        value
    }
}

/// The value that the representation `repr` stands for: with the exponent `e`
/// in the high byte and the mantissa `m` in the low one, `m` where `e` is 0,
/// else `2^(e+7) + m * 2^(e-1)`.
pub open spec fn unpacked(repr: nat) -> nat {
    let e = repr / 256;
    let m = repr % 256;
    if e == 0 {
        m
    } else {
        pow2((e + 7) as nat) + m * pow2((e - 1) as nat)
    }
}

/// `value` has a representation of its own: it is below 512, or it is twice
/// such a value.
pub open spec fn representable(value: nat) -> bool
    decreases value,
{
    value <= 0x1ff || (value % 2 == 0 && representable(value / 2))
}

/// Calls `PackedInt::from_usize` and `to_16_bits` of `ps_pint16`.
///
/// Trusted: the two bytes are the representation of `value`, low byte first.
#[verifier::external_body]
fn pack(value: usize) -> (r: [u8; 2])
    ensures
        r@[0] == packed(value as nat) % 256,
        r@[1] == packed(value as nat) / 256,
{
    ps_pint16::PackedInt::from_usize(value).to_16_bits()
}

/// Calls `PackedInt::from_16_bits` and `to_usize` of `ps_pint16`.
///
/// Trusted: the result is the value that the two bytes stand for, read low
/// byte first, or `usize::MAX` where that value is larger.
#[verifier::external_body]
fn unpack(bytes: &[u8; 2]) -> (r: usize)
    ensures
        r == if unpacked(bytes@[0] as nat + 256 * bytes@[1] as nat) <= usize::MAX {
            unpacked(bytes@[0] as nat + 256 * bytes@[1] as nat)
        } else {
            usize::MAX as nat
        },
{
    ps_pint16::PackedInt::from_16_bits(bytes).to_usize()
}

/// Calls `PackedInt::from_16_bits` and `to_inner_u16` of `ps_pint16`.
///
/// Trusted: the result is the representation that the two bytes spell, low
/// byte first.
#[verifier::external_body]
fn raw(bytes: &[u8; 2]) -> (r: u16)
    ensures
        r == bytes@[0] as nat + 256 * bytes@[1] as nat,
{
    ps_pint16::PackedInt::from_16_bits(bytes).to_inner_u16()
}

/// A payload length in its packed form: the two bytes that a token holds.
#[derive(Clone, Copy, Debug, Eq, Hash)]
pub struct PackedLength {
    bytes: [u8; 2],
}

impl View for PackedLength {
    type V = Seq<u8>;

    /// The two bytes, low byte first.
    closed spec fn view(&self) -> Seq<u8> {
        self.bytes@
    }
}

impl PackedLength {
    /// The 16-bit representation that the two bytes spell.
    pub open spec fn repr(self) -> nat {
        self@[0] as nat + 256 * self@[1] as nat
    }

    /// The length that this packed form stands for.
    pub open spec fn value(self) -> nat {
        unpacked(self.repr())
    }

    /// Packs `value`, rounding up where it has no representation of its own.
    pub fn from_usize(value: usize) -> (r: PackedLength)
        ensures
            r@.len() == 2,
            r.repr() == packed(value as nat),
    {
        PackedLength { bytes: pack(value) }
    }

    /// Unpacks into a `usize`, saturating at `usize::MAX`.
    pub fn to_usize(self) -> (r: usize)
        ensures
            r == if self.value() <= usize::MAX {
                self.value()
            } else {
                usize::MAX as nat
            },
    {
        unpack(&self.bytes)
    }

    /// The 16-bit representation itself.
    pub fn to_inner_u16(self) -> (r: u16)
        ensures
            r == self.repr(),
    {
        raw(&self.bytes)
    }

    /// Takes the two bytes of a packed length as they stand in a token.
    pub fn from_16_bits(bits: &[u8; 2]) -> (r: PackedLength)
        ensures
            r@ == bits@,
    {
        PackedLength { bytes: *bits }
    }

    /// The two bytes of this packed length, as they stand in a token.
    pub fn to_16_bits(self) -> (r: [u8; 2])
        ensures
            r@ == self@,
    {
        self.bytes
    }
}

impl PartialEq for PackedLength {
    fn eq(&self, other: &PackedLength) -> (r: bool) {
        let r = self.bytes[0] == other.bytes[0] && self.bytes[1] == other.bytes[1];
        assert(r == (self.bytes@ =~= other.bytes@));
        r
    }
}

impl vstd::std_specs::cmp::PartialEqSpecImpl for PackedLength {
    open spec fn obeys_eq_spec() -> bool {
        true
    }

    open spec fn eq_spec(&self, other: &PackedLength) -> bool {
        self@ == other@
    }
}

/// One more halving doubles the value that a representation stands for.
proof fn lemma_unpacked_doubles(repr: nat)
    requires
        repr >= 0x100,
    ensures
        unpacked(repr + 0x100) == 2 * unpacked(repr),
{
    let e = repr / 256;
    let m = repr % 256;
    assert((repr + 0x100) / 256 == e + 1);
    assert((repr + 0x100) % 256 == m);
    lemma_pow2_unfold((e + 8) as nat);
    lemma_pow2_unfold(e);
    assert(m * (2 * pow2((e - 1) as nat)) == 2 * (m * pow2((e - 1) as nat))) by (nonlinear_arith);
}

/// A value of nine bits or more has an exponent of at least 1.
proof fn lemma_packed_has_exponent(value: nat)
    requires
        value >= 0x100,
    ensures
        packed(value) >= 0x100,
    decreases value,
{
    if value > 0x1ff {
        lemma_packed_has_exponent(value / 2 + value % 2);
    }
}

/// A value of at most `512 * 2^k` is halved at most `k + 1` times.
proof fn lemma_packed_is_bounded(value: nat, k: nat)
    requires
        value <= 512 * pow2(k),
    ensures
        packed(value) <= 0x200 + 0x100 * k,
    decreases value,
{
    lemma2_to64();
    if value > 0x1ff {
        let half = value / 2 + value % 2;
        if k == 0 {
            assert(half == 256);
            assert(packed(half) == half);
        } else {
            lemma_pow2_unfold(k);
            let below = pow2((k - 1) as nat);
            assert(value <= 1024 * below);
            assert(half <= 512 * below);
            lemma_packed_is_bounded(half, (k - 1) as nat);
        }
    }
}

/// The representation of a length that fits in 64 bits fits in 16.
pub proof fn lemma_packed_fits(value: nat)
    requires
        value <= u64::MAX,
    ensures
        packed(value) < 0x10000,
{
    lemma2_to64();
    assert(512 * pow2(55) == 0x1_0000_0000_0000_0000) by {
        lemma2_to64();
        vstd::arithmetic::power2::lemma_pow2_adds(9, 55);
    }
    lemma_packed_is_bounded(value, 55);
}

/// Packing rounds up: what a packed length stands for is never less than
/// the length that was packed.
pub proof fn lemma_packing_rounds_up(value: nat)
    ensures
        unpacked(packed(value)) >= value,
    decreases value,
{
    if value > 0x1ff {
        let half = value / 2 + value % 2;
        lemma_packing_rounds_up(half);
        lemma_packed_has_exponent(half);
        lemma_unpacked_doubles(packed(half));
    } else {
        lemma_small_is_kept(value);
    }
}

/// A length below 512 is its own representation and stands for itself.
pub proof fn lemma_small_is_kept(value: nat)
    requires
        value <= 0x1ff,
    ensures
        packed(value) == value,
        unpacked(value) == value,
{
    lemma2_to64();
    if value >= 0x100 {
        assert(value / 256 == 1);
        assert(pow2(8) == 0x100 && pow2(0) == 1);
        assert((value % 256) * pow2(0) == value % 256);
    }
}

/// Length round trip: a length comes back from its packed form unchanged
/// exactly when it is representable, that is when it is below 512 or twice a
/// representable length.
pub proof fn lemma_length_round_trip(value: nat)
    ensures
        unpacked(packed(value)) == value <==> representable(value),
    decreases value,
{
    if value > 0x1ff {
        let half = value / 2 + value % 2;
        lemma_length_round_trip(half);
        lemma_packed_has_exponent(half);
        lemma_unpacked_doubles(packed(half));
    } else {
        lemma_small_is_kept(value);
    }
}

} // verus!
