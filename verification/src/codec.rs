//! Fixed-width byte encodings of a price.
//!
//! A price crosses the phase boundary as 16 bytes, least significant first.
//! The result of the tally leaves as 16 bytes, most significant first.

use vstd::prelude::*;

verus! {

/// The number of bytes of an encoded price.
pub const PRICE_WIDTH: usize = 16;

/// 256 to the power `n`.
pub open spec fn pow256(n: nat) -> nat
    decreases n,
{
    if n == 0 {
        1
    } else {
        256 * pow256((n - 1) as nat)
    }
}

/// The `width` lowest base-256 digits of `x`, least significant first.
pub open spec fn le_bytes(x: nat, width: nat) -> Seq<u8>
    decreases width,
{
    if width == 0 {
        Seq::empty()
    } else {
        seq![(x % 256) as u8] + le_bytes(x / 256, (width - 1) as nat)
    }
}

/// The `width` lowest base-256 digits of `x`, most significant first.
pub open spec fn be_bytes(x: nat, width: nat) -> Seq<u8> {
    le_bytes(x, width).reverse()
}

/// The number whose base-256 digits, least significant first, are `bytes`.
pub open spec fn le_value(bytes: Seq<u8>) -> nat
    decreases bytes.len(),
{
    if bytes.len() == 0 {
        0
    } else {
        bytes[0] as nat + 256 * le_value(bytes.drop_first())
    }
}

/// What a reveal body stands for: a price if it has exactly 16 bytes, read
/// least significant first, and nothing otherwise.
pub open spec fn decoded(body: Seq<u8>) -> Option<u128> {
    if body.len() == PRICE_WIDTH {
        Some(le_value(body) as u128)
    } else {
        None
    }
}

/// An encoding has as many bytes as asked for.
pub proof fn lemma_le_bytes_len(x: nat, width: nat)
    ensures
        le_bytes(x, width).len() == width,
        be_bytes(x, width).len() == width,
    decreases width,
{
    if width > 0 {
        lemma_le_bytes_len(x / 256, (width - 1) as nat);
    }
}

/// A sequence of `n` bytes stands for a number below `256^n`.
pub proof fn lemma_le_value_bound(bytes: Seq<u8>)
    ensures
        le_value(bytes) < pow256(bytes.len()),
    decreases bytes.len(),
{
    if bytes.len() > 0 {
        lemma_le_value_bound(bytes.drop_first());
    }
}

/// Sixteen bytes hold exactly the range of `u128`.
pub proof fn lemma_pow256_width()
    ensures
        pow256(PRICE_WIDTH as nat) == u128::MAX + 1,
{
    reveal_with_fuel(pow256, 17);
}

/// Decoding undoes encoding, for a number that fits the width.
pub proof fn lemma_le_value_of_le_bytes(x: nat, width: nat)
    requires
        x < pow256(width),
    ensures
        le_value(le_bytes(x, width)) == x,
    decreases width,
{
    if width > 0 {
        let rest = le_bytes(x / 256, (width - 1) as nat);
        lemma_le_value_of_le_bytes(x / 256, (width - 1) as nat);
        assert(le_bytes(x, width).drop_first() == rest);
    }
}

/// A price that is encoded for a reveal and decoded again is the same price.
pub proof fn lemma_price_round_trip(price: u128)
    ensures
        decoded(le_bytes(price as nat, PRICE_WIDTH as nat)) == Some(price),
{
    lemma_pow256_width();
    lemma_le_bytes_len(price as nat, PRICE_WIDTH as nat);
    lemma_le_value_of_le_bytes(price as nat, PRICE_WIDTH as nat);
}

/// The 16 bytes of `price`, least significant first: the payload of a reveal.
pub fn encode_price(price: u128) -> (bytes: Vec<u8>)
    ensures
        bytes@ == le_bytes(price as nat, PRICE_WIDTH as nat),
        bytes.len() == PRICE_WIDTH,
{
    let mut bytes: Vec<u8> = Vec::new();
    let mut rest: u128 = price;
    let mut i: usize = 0;
    while i < PRICE_WIDTH
        invariant
            i <= PRICE_WIDTH,
            bytes.len() == i,
            bytes@ + le_bytes(rest as nat, (PRICE_WIDTH - i) as nat) == le_bytes(
                price as nat,
                PRICE_WIDTH as nat,
            ),
        decreases PRICE_WIDTH - i,
    {
        let digit: u8 = (rest % 256) as u8;
        let ghost tail = le_bytes((rest / 256) as nat, (PRICE_WIDTH - i - 1) as nat);
        assert(bytes@.push(digit) + tail == bytes@ + (seq![digit] + tail));
        bytes.push(digit);
        rest = rest / 256;
        i += 1;
    }
    assert(bytes@ + Seq::<u8>::empty() == bytes@);
    bytes
}

/// The 16 bytes of `value`, most significant first: the result of a tally.
pub fn encode_result(value: u128) -> (bytes: Vec<u8>)
    ensures
        bytes@ == be_bytes(value as nat, PRICE_WIDTH as nat),
        bytes.len() == PRICE_WIDTH,
{
    let low_first = encode_price(value);
    let mut bytes: Vec<u8> = Vec::new();
    let mut i: usize = 0;
    while i < PRICE_WIDTH
        invariant
            i <= PRICE_WIDTH,
            low_first.len() == PRICE_WIDTH,
            bytes.len() == i,
            forall|k: int| 0 <= k < i ==> bytes[k] == low_first[PRICE_WIDTH - 1 - k],
        decreases PRICE_WIDTH - i,
    {
        bytes.push(low_first[PRICE_WIDTH - 1 - i]);
        i += 1;
    }
    assert(bytes@ == low_first@.reverse());
    bytes
}

/// Reads a reveal body as a price: 16 bytes, least significant first. A body
/// of any other length holds no price.
pub fn decode_price(body: &[u8]) -> (price: Option<u128>)
    ensures
        price == decoded(body@),
{
    if body.len() != PRICE_WIDTH {
        return None;
    }
    let mut value: u128 = 0;
    let mut i: usize = PRICE_WIDTH;
    while i > 0
        invariant
            i <= PRICE_WIDTH,
            body.len() == PRICE_WIDTH,
            value == le_value(body@.subrange(i as int, PRICE_WIDTH as int)),
        decreases i,
    {
        let ghost done = body@.subrange(i as int, PRICE_WIDTH as int);
        let ghost next = body@.subrange(i - 1, PRICE_WIDTH as int);
        proof {
            assert(next.drop_first() == done);
            lemma_le_value_bound(next);
            lemma_pow256_monotonic(next.len(), PRICE_WIDTH as nat);
            lemma_pow256_width();
        }
        i -= 1;
        value = value * 256 + body[i] as u128;
    }
    assert(body@.subrange(0, PRICE_WIDTH as int) == body@);
    Some(value)
}

/// Powers of 256 grow with the exponent.
pub proof fn lemma_pow256_monotonic(a: nat, b: nat)
    requires
        a <= b,
    ensures
        pow256(a) <= pow256(b),
    decreases b,
{
    if a < b {
        lemma_pow256_monotonic(a, (b - 1) as nat);
    }
}

} // verus!
