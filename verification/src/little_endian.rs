//! Fixed-width little-endian bytes of unsigned integers.

use vstd::prelude::*;

verus! {

/// The `width` low-order bytes of `value`, least significant first.
pub open spec fn le_bytes(value: nat, width: nat) -> Seq<u8>
    decreases width,
{
    if width == 0 {
        Seq::empty()
    } else {
        seq![(value % 256) as u8] + le_bytes(value / 256, (width - 1) as nat)
    }
}

/// `value` is below 256 to the power `width`: `width` bytes hold it.
pub open spec fn fits(value: nat, width: nat) -> bool
    decreases width,
{
    if width == 0 {
        value == 0
    } else {
        fits(value / 256, (width - 1) as nat)
    }
}

/// There are exactly `width` bytes.
pub proof fn lemma_le_bytes_len(value: nat, width: nat)
    ensures
        le_bytes(value, width).len() == width,
    decreases width,
{
    if width > 0 {
        lemma_le_bytes_len(value / 256, (width - 1) as nat);
    }
}

/// Values that fit in `width` bytes and have the same bytes are the same.
pub proof fn lemma_le_bytes_injective(a: nat, b: nat, width: nat)
    requires
        fits(a, width),
        fits(b, width),
        le_bytes(a, width) == le_bytes(b, width),
    ensures
        a == b,
    decreases width,
{
    if width > 0 {
        let rest = (width - 1) as nat;
        let bytes_a = le_bytes(a, width);
        let bytes_b = le_bytes(b, width);
        assert(bytes_a[0] == (a % 256) as u8);
        assert(bytes_b[0] == (b % 256) as u8);
        assert(a % 256 == b % 256);
        assert(bytes_a.drop_first() =~= le_bytes(a / 256, rest));
        assert(bytes_b.drop_first() =~= le_bytes(b / 256, rest));
        lemma_le_bytes_injective(a / 256, b / 256, rest);
    }
}

/// Eight bytes hold every 64-bit value.
pub proof fn lemma_u64_fits(value: u64)
    ensures
        fits(value as nat, 8),
{
    reveal_with_fuel(fits, 9);
    let v0 = value as nat;
    let v1 = v0 / 256;
    let v2 = v1 / 256;
    let v3 = v2 / 256;
    let v4 = v3 / 256;
    let v5 = v4 / 256;
    let v6 = v5 / 256;
    let v7 = v6 / 256;
    let v8 = v7 / 256;
    assert(v4 < 0x1_0000_0000);
    assert(v8 == 0);
}

/// Sixteen bytes hold every 128-bit value.
pub proof fn lemma_u128_fits(value: u128)
    ensures
        fits(value as nat, 16),
{
    reveal_with_fuel(fits, 17);
    let v0 = value as nat;
    let v1 = v0 / 256;
    let v2 = v1 / 256;
    let v3 = v2 / 256;
    let v4 = v3 / 256;
    assert(v4 < 0x1_0000_0000_0000_0000_0000_0000);
    let v5 = v4 / 256;
    let v6 = v5 / 256;
    let v7 = v6 / 256;
    let v8 = v7 / 256;
    assert(v8 < 0x1_0000_0000_0000_0000);
    let v9 = v8 / 256;
    let v10 = v9 / 256;
    let v11 = v10 / 256;
    let v12 = v11 / 256;
    assert(v12 < 0x1_0000_0000);
    let v13 = v12 / 256;
    let v14 = v13 / 256;
    let v15 = v14 / 256;
    let v16 = v15 / 256;
    assert(v16 == 0);
}

/// The sixteen little-endian bytes of a 128-bit value.
pub fn u128_le_bytes(value: u128) -> (bytes: Vec<u8>)
    ensures
        bytes@ == le_bytes(value as nat, 16),
{
    let mut bytes: Vec<u8> = Vec::new();
    let mut rest: u128 = value;
    let mut i: usize = 0;
    while i < 16
        invariant
            i <= 16,
            bytes@.len() == i,
            bytes@ + le_bytes(rest as nat, (16 - i) as nat) == le_bytes(value as nat, 16),
        decreases 16 - i,
    {
        let low: u8 = (rest % 256) as u8;
        proof {
            let tail = le_bytes((rest / 256) as nat, (15 - i) as nat);
            assert(le_bytes(rest as nat, (16 - i) as nat) == seq![low] + tail);
            assert(bytes@.push(low) + tail =~= bytes@ + (seq![low] + tail));
        }
        bytes.push(low);
        rest = rest / 256;
        i += 1;
    }
    assert(bytes@ + le_bytes(rest as nat, 0) =~= bytes@);
    bytes
}

} // verus!
