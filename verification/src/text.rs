//! The text form: unpadded base64url, written and read by `ps_base64`.
//!
//! Writing takes the bytes six bits at a time and gives each group its
//! character. Reading is lenient: it passes over ASCII whitespace and `=`,
//! gives every other byte a 6-bit value, and packs the values into bytes for
//! as long as they last.

use vstd::prelude::*;

verus! {

/// The character that stands for the 6-bit value `v`: `A` to `Z`, `a` to `z`,
/// `0` to `9`, then `-` and `_`.
pub open spec fn symbol(v: u8) -> u8 {
    if v < 26 {
        (v + 65) as u8
    } else if v < 52 {
        (v + 71) as u8
    } else if v < 62 {
        (v - 4) as u8
    } else if v == 62 {
        45
    } else {
        95
    }
}

/// The 6-bit value that reading gives the byte `c`: that of its character in
/// either alphabet, 62 also for `.` and `~`, 63 also for `,`, and for any
/// other byte its remainder by 64.
pub open spec fn symbol_value(c: u8) -> u8 {
    if 48 <= c <= 57 {
        (c + 4) as u8
    } else if 65 <= c <= 90 {
        (c - 65) as u8
    } else if 97 <= c <= 122 {
        (c - 71) as u8
    } else if c == 46 || c == 43 || c == 45 || c == 126 {
        62
    } else if c == 44 || c == 47 || c == 95 {
        63
    } else if c == 61 {
        0
    } else {
        c % 64
    }
}

/// Reading passes over `c`: it is a space, a tab, a line feed, a form feed, a
/// carriage return or `=`.
pub open spec fn skipped(c: u8) -> bool {
    c == 32 || c == 9 || c == 10 || c == 12 || c == 13 || c == 61
}

/// The element of `s` at `k`, and 0 where `s` has none.
pub open spec fn at_or_zero(s: Seq<u8>, k: int) -> u8 {
    if 0 <= k < s.len() {
        s[k]
    } else {
        0
    }
}

/// The `i`-th group of six bits of `bytes`, counted from the first byte's high
/// bits, with zero bits where `bytes` has ended.
pub open spec fn sextet(bytes: Seq<u8>, i: int) -> u8 {
    let b0 = at_or_zero(bytes, 3 * (i / 4));
    let b1 = at_or_zero(bytes, 3 * (i / 4) + 1);
    let b2 = at_or_zero(bytes, 3 * (i / 4) + 2);
    if i % 4 == 0 {
        b0 >> 2
    } else if i % 4 == 1 {
        ((b0 & 0x3) << 4) | (b1 >> 4)
    } else if i % 4 == 2 {
        ((b1 & 0xf) << 2) | (b2 >> 6)
    } else {
        b2 & 0x3f
    }
}

/// The number of characters that `n` bytes are written with: four for each
/// three bytes, two for one byte left over, three for two.
pub open spec fn encoded_len(n: nat) -> nat {
    n / 3 * 4 + if n % 3 == 0 {
        0nat
    } else if n % 3 == 1 {
        2nat
    } else {
        3nat
    }
}

/// The text that `bytes` are written as.
pub open spec fn encoded(bytes: Seq<u8>) -> Seq<u8> {
    Seq::new(encoded_len(bytes.len()), |i: int| symbol(sextet(bytes, i)))
}

/// The 6-bit values that reading takes from `text`, in order: one for each
/// byte that it does not pass over.
pub open spec fn values(text: Seq<u8>) -> Seq<u8>
    decreases text.len(),
{
    if text.len() == 0 {
        Seq::empty()
    } else if skipped(text.last()) {
        values(text.drop_last())
    } else {
        values(text.drop_last()).push(symbol_value(text.last()))
    }
}

/// The `j`-th byte that the 6-bit values `v` pack into, with zero bits where
/// `v` has ended.
pub open spec fn octet(v: Seq<u8>, j: int) -> u8 {
    let v0 = at_or_zero(v, 4 * (j / 3) + j % 3);
    let v1 = at_or_zero(v, 4 * (j / 3) + j % 3 + 1);
    if j % 3 == 0 {
        (v0 << 2) | (v1 >> 4)
    } else if j % 3 == 1 {
        (v0 << 4) | (v1 >> 2)
    } else {
        (v0 << 6) | v1
    }
}

/// The number of bytes that `k` values pack into: three for each four values,
/// one for one or two values left over, two for three.
pub open spec fn decoded_len(k: nat) -> nat {
    k / 4 * 3 + if k % 4 == 0 {
        0nat
    } else if k % 4 == 3 {
        2nat
    } else {
        1nat
    }
}

/// The number of bytes that reading `text` into a buffer of `room` bytes
/// writes.
pub open spec fn decoded_count(text: Seq<u8>, room: nat) -> nat {
    if decoded_len(values(text).len()) <= room {
        decoded_len(values(text).len())
    } else {
        room
    }
}

/// `buffer` after `text` was read into it: the bytes that were written, then
/// the rest of the buffer as it was.
pub open spec fn decoded_onto(text: Seq<u8>, buffer: Seq<u8>) -> Seq<u8> {
    Seq::new(
        buffer.len(),
        |j: int|
            if j < decoded_count(text, buffer.len()) {
                octet(values(text), j)
            } else {
                buffer[j]
            },
    )
}

/// `text` as characters, each byte taken as the character of that number.
pub open spec fn as_chars(text: Seq<u8>) -> Seq<char> {
    Seq::new(text.len(), |i: int| text[i] as char)
}

/// Calls `encode` of `ps_base64`.
///
/// Trusted: the string holds the characters of `encoded`, as the crate
/// documents for its unpadded base64url output.
#[verifier::external_body]
pub(crate) fn encode(input: &[u8]) -> (r: String)
    ensures
        r@ == as_chars(encoded(input@)),
{
    ps_base64::encode(input)
}

/// Calls `decode_into` of `ps_base64`.
///
/// Trusted: the call writes the bytes of `decoded_onto` at the start of
/// `output`, leaves the rest of it untouched and returns how many it wrote, as
/// the crate documents.
#[verifier::external_body]
pub(crate) fn decode_into(input: &[u8], output: &mut [u8]) -> (r: usize)
    ensures
        final(output)@ == decoded_onto(input@, old(output)@),
        r == decoded_count(input@, old(output)@.len()),
{
    ps_base64::decode_into(input, output)
}

/// Every group of six bits is below 64.
pub proof fn lemma_sextet_is_small(bytes: Seq<u8>, i: int)
    ensures
        sextet(bytes, i) < 64,
{
    let b0 = at_or_zero(bytes, 3 * (i / 4));
    let b1 = at_or_zero(bytes, 3 * (i / 4) + 1);
    let b2 = at_or_zero(bytes, 3 * (i / 4) + 2);
    assert(b0 >> 2 < 64) by (bit_vector);
    assert(((b0 & 0x3) << 4) | (b1 >> 4) < 64) by (bit_vector);
    assert(((b1 & 0xf) << 2) | (b2 >> 6) < 64) by (bit_vector);
    assert(b2 & 0x3f < 64) by (bit_vector);
}

/// The character of a 6-bit value is an ASCII character that reading does
/// not pass over, and reading gives it the value back.
pub proof fn lemma_symbol_is_read_back(v: u8)
    requires
        v < 64,
    ensures
        symbol(v) < 128,
        !skipped(symbol(v)),
        symbol_value(symbol(v)) == v,
{
}

/// Three bytes come back from the four groups of six bits that they were
/// split into.
pub proof fn lemma_regrouped(b0: u8, b1: u8, b2: u8)
    ensures
        ((b0 >> 2) << 2) | ((((b0 & 0x3) << 4) | (b1 >> 4)) >> 4) == b0,
        ((((b0 & 0x3) << 4) | (b1 >> 4)) << 4) | ((((b1 & 0xf) << 2) | (b2 >> 6)) >> 2) == b1,
        ((((b1 & 0xf) << 2) | (b2 >> 6)) << 6) | (b2 & 0x3f) == b2,
{
    assert(((b0 >> 2) << 2) | ((((b0 & 0x3) << 4) | (b1 >> 4)) >> 4) == b0) by (bit_vector);
    assert(((((b0 & 0x3) << 4) | (b1 >> 4)) << 4) | ((((b1 & 0xf) << 2) | (b2 >> 6)) >> 2) == b1)
        by (bit_vector);
    assert(((((b1 & 0xf) << 2) | (b2 >> 6)) << 6) | (b2 & 0x3f) == b2) by (bit_vector);
}

/// A text without a byte that reading passes over gives one value for each
/// of its bytes.
pub proof fn lemma_values_of_clean(text: Seq<u8>)
    requires
        forall|i: int| 0 <= i < text.len() ==> !skipped(#[trigger] text[i]),
    ensures
        values(text).len() == text.len(),
        forall|i: int| 0 <= i < text.len() ==> #[trigger] values(text)[i] == symbol_value(text[i]),
    decreases text.len(),
{
    if text.len() > 0 {
        lemma_values_of_clean(text.drop_last());
    }
}

/// The values of a text are those of its start, then those of its rest.
pub proof fn lemma_values_of_parts(head: Seq<u8>, tail: Seq<u8>)
    ensures
        values(head + tail) == values(head) + values(tail),
    decreases tail.len(),
{
    if tail.len() == 0 {
        assert(head + tail =~= head);
        assert(values(head) + values(tail) =~= values(head));
    } else {
        assert((head + tail).drop_last() =~= head + tail.drop_last());
        lemma_values_of_parts(head, tail.drop_last());
        assert((head + tail).last() == tail.last());
        if skipped(tail.last()) {
        } else {
            assert(values(head + tail) =~= values(head) + values(tail));
        }
    }
}

/// A text form is read back as the values it was written from.
pub proof fn lemma_values_of_encoded(bytes: Seq<u8>)
    ensures
        values(encoded(bytes)).len() == encoded(bytes).len(),
        forall|i: int|
            0 <= i < encoded(bytes).len() ==> #[trigger] values(encoded(bytes))[i] == sextet(
                bytes,
                i,
            ),
{
    let text = encoded(bytes);
    assert forall|i: int| 0 <= i < text.len() implies !skipped(#[trigger] text[i]) by {
        lemma_sextet_is_small(bytes, i);
        lemma_symbol_is_read_back(sextet(bytes, i));
    }
    lemma_values_of_clean(text);
    assert forall|i: int| 0 <= i < text.len() implies #[trigger] values(text)[i] == sextet(
        bytes,
        i,
    ) by {
        lemma_sextet_is_small(bytes, i);
        lemma_symbol_is_read_back(sextet(bytes, i));
    }
}

/// Where the two values that the byte at `j` is packed from are the groups
/// of six bits of `bytes` at their places, that byte is the one of `bytes`.
pub proof fn lemma_octet_of_sextets(v: Seq<u8>, bytes: Seq<u8>, j: int)
    requires
        0 <= j < bytes.len(),
        bytes.len() % 3 == 0,
        4 * (j / 3) + j % 3 + 1 < v.len(),
        v[4 * (j / 3) + j % 3] == sextet(bytes, 4 * (j / 3) + j % 3),
        v[4 * (j / 3) + j % 3 + 1] == sextet(bytes, 4 * (j / 3) + j % 3 + 1),
    ensures
        octet(v, j) == bytes[j],
{
    let g = j / 3;
    let r = j % 3;
    let b0 = bytes[3 * g];
    let b1 = bytes[3 * g + 1];
    let b2 = bytes[3 * g + 2];
    lemma_regrouped(b0, b1, b2);
    let i = 4 * g + r;
    assert(i / 4 == g && (i + 1) / 4 == g);
    assert(i % 4 == r && (i + 1) % 4 == r + 1);
}

/// Nothing is lost in writing: where `bytes` come in threes, their text is
/// read back as those bytes, into any buffer of their length.
pub proof fn lemma_text_is_read_back(bytes: Seq<u8>, buffer: Seq<u8>)
    requires
        bytes.len() % 3 == 0,
        buffer.len() == bytes.len(),
    ensures
        encoded(bytes).len() == bytes.len() / 3 * 4,
        decoded_onto(encoded(bytes), buffer) == bytes,
{
    let text = encoded(bytes);
    let v = values(text);
    lemma_values_of_encoded(bytes);
    assert(decoded_count(text, buffer.len()) == bytes.len());
    assert forall|j: int| 0 <= j < bytes.len() implies decoded_onto(text, buffer)[j]
        == bytes[j] by {
        lemma_octet_of_sextets(v, bytes, j);
    }
    assert(decoded_onto(text, buffer) =~= bytes);
}

} // verus!
