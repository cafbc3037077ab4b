//! Byte strings: 32-byte identifiers and big-endian integers.

use vstd::prelude::*;

verus! {

/// The number that a big-endian byte string denotes.
pub open spec fn be_value(bytes: Seq<u8>) -> nat
    decreases bytes.len(),
{
    if bytes.len() == 0 {
        0
    } else {
        be_value(bytes.drop_last()) * 256 + bytes.last() as nat
    }
}

/// The lowest `width` bytes of `value`, most significant first.
pub open spec fn be_bytes(value: nat, width: nat) -> Seq<u8>
    decreases width,
{
    if width == 0 {
        Seq::empty()
    } else {
        be_bytes(value / 256, (width - 1) as nat).push((value % 256) as u8)
    }
}

/// The number of values that `width` bytes can hold: 256 to the power `width`.
pub open spec fn span(width: nat) -> nat
    decreases width,
{
    if width == 0 {
        1
    } else {
        256 * span((width - 1) as nat)
    }
}

/// A byte string denotes a number below the span of its length.
pub proof fn lemma_be_value_bound(bytes: Seq<u8>)
    ensures
        be_value(bytes) < span(bytes.len()),
    decreases bytes.len(),
{
    if bytes.len() > 0 {
        lemma_be_value_bound(bytes.drop_last());
    }
}

/// Encoding has the width that was asked for.
pub proof fn lemma_be_bytes_len(value: nat, width: nat)
    ensures
        be_bytes(value, width).len() == width,
    decreases width,
{
    if width > 0 {
        lemma_be_bytes_len(value / 256, (width - 1) as nat);
    }
}

/// Decoding undoes encoding for every value that fits the width.
pub proof fn lemma_be_round_trip(value: nat, width: nat)
    requires
        value < span(width),
    ensures
        be_value(be_bytes(value, width)) == value,
    decreases width,
{
    if width > 0 {
        let high = be_bytes(value / 256, (width - 1) as nat);
        lemma_be_round_trip(value / 256, (width - 1) as nat);
        assert(be_bytes(value, width).drop_last() =~= high);
    }
}

/// Eight bytes span exactly the range of `u64`, sixteen that of `u128`.
pub proof fn lemma_span_of_words()
    ensures
        span(7) == 0x0100_0000_0000_0000,
        span(8) == 0x1_0000_0000_0000_0000,
        span(16) == 0x1_0000_0000_0000_0000_0000_0000_0000_0000,
{
    reveal_with_fuel(span, 17);
}

/// The span grows with the width.
pub proof fn lemma_span_monotone(narrow: nat, wide: nat)
    requires
        narrow <= wide,
    ensures
        span(narrow) <= span(wide),
    decreases wide,
{
    if narrow < wide {
        lemma_span_monotone(narrow, (wide - 1) as nat);
    }
}

/// Whether two 32-byte identifiers are the same.
pub fn same_bytes(a: &[u8; 32], b: &[u8; 32]) -> (same: bool)
    ensures
        same == (a@ == b@),
{
    let mut i: usize = 0;
    while i < 32
        invariant
            i <= 32,
            forall|k: int| 0 <= k < i ==> a@[k] == b@[k],
        decreases 32 - i,
    {
        if a[i] != b[i] {
            return false;
        }
        i += 1;
    }
    assert(a@ =~= b@);
    true
}

/// The 32 bytes of `bytes` that start at `offset`.
pub fn read_bytes32(bytes: &[u8], offset: usize) -> (id: [u8; 32])
    requires
        offset + 32 <= bytes@.len(),
    ensures
        id@ == bytes@.subrange(offset as int, offset + 32),
{
    let len: usize = bytes.len();
    let mut id = [0u8; 32];
    let mut i: usize = 0;
    while i < 32
        invariant
            i <= 32,
            offset + 32 <= bytes@.len() == len,
            forall|k: int| 0 <= k < i ==> id@[k] == bytes@[offset + k],
        decreases 32 - i,
    {
        id[i] = bytes[offset + i];
        i += 1;
    }
    assert(id@ =~= bytes@.subrange(offset as int, offset + 32));
    id
}

/// The big-endian `u64` in the 8 bytes of `bytes` that start at `offset`.
pub fn read_u64_be(bytes: &[u8], offset: usize) -> (value: u64)
    requires
        offset + 8 <= bytes@.len(),
    ensures
        value == be_value(bytes@.subrange(offset as int, offset + 8)),
{
    let len: usize = bytes.len();
    let mut value: u64 = 0;
    let mut i: usize = 0;
    while i < 8
        invariant
            i <= 8,
            offset + 8 <= bytes@.len() == len,
            value == be_value(bytes@.subrange(offset as int, offset + i)),
        decreases 8 - i,
    {
        let ghost seen = bytes@.subrange(offset as int, offset + i);
        let ghost next = bytes@.subrange(offset as int, offset + i + 1);
        proof {
            lemma_be_value_bound(seen);
            lemma_span_monotone(i as nat, 7);
            lemma_span_of_words();
            assert(next.drop_last() =~= seen);
        }
        value = value * 256 + bytes[offset + i] as u64;
        i += 1;
    }
    value
}

/// Appends the lowest `width` bytes of `value`, most significant first.
pub fn push_be(out: &mut Vec<u8>, value: u128, width: usize)
    ensures
        final(out)@ == old(out)@ + be_bytes(value as nat, width as nat),
    decreases width,
{
    if width > 0 {
        push_be(out, value / 256, (width - 1) as usize);
        out.push((value % 256) as u8);
        assert(final(out)@ =~= old(out)@ + be_bytes(value as nat, width as nat));
    } else {
        assert(out@ =~= old(out)@ + be_bytes(value as nat, 0));
    }
}

/// Appends `bytes` to `out`.
pub fn push_bytes(out: &mut Vec<u8>, bytes: &[u8])
    ensures
        final(out)@ == old(out)@ + bytes@,
{
    let mut i: usize = 0;
    while i < bytes.len()
        invariant
            i <= bytes@.len(),
            out@ == old(out)@ + bytes@.subrange(0, i as int),
        decreases bytes@.len() - i,
    {
        out.push(bytes[i]);
        i += 1;
        assert(out@ =~= old(out)@ + bytes@.subrange(0, i as int));
    }
    assert(bytes@.subrange(0, i as int) =~= bytes@);
}

} // verus!
