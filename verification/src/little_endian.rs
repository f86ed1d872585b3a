//! Fixed-width integers as bytes, least significant byte first.

use vstd::prelude::*;

verus! {

/// The `count` low bytes of `value`, least significant first.
pub open spec fn le_bytes(value: nat, count: nat) -> Seq<u8>
    decreases count,
{
    if count == 0 {
        Seq::empty()
    } else {
        seq![(value % 256) as u8] + le_bytes(value / 256, (count - 1) as nat)
    }
}

/// The number that the bytes of `s` spell, least significant byte first.
pub open spec fn le_value(s: Seq<u8>) -> nat
    decreases s.len(),
{
    if s.len() == 0 {
        0
    } else {
        s[0] as nat + 256 * le_value(s.skip(1))
    }
}

/// The number of values that `count` bytes can spell.
pub open spec fn byte_capacity(count: nat) -> nat
    decreases count,
{
    if count == 0 {
        1
    } else {
        256 * byte_capacity((count - 1) as nat)
    }
}

pub proof fn lemma_le_bytes_len(value: nat, count: nat)
    ensures
        le_bytes(value, count).len() == count,
    decreases count,
{
    if count > 0 {
        lemma_le_bytes_len(value / 256, (count - 1) as nat);
    }
}

/// More bytes spell more values.
pub proof fn lemma_byte_capacity_grows(low: nat, high: nat)
    requires
        low <= high,
    ensures
        1 <= byte_capacity(low) <= byte_capacity(high),
    decreases high,
{
    if low < high {
        lemma_byte_capacity_grows(low, (high - 1) as nat);
    } else if low > 0 {
        lemma_byte_capacity_grows((low - 1) as nat, (low - 1) as nat);
    }
}

/// The capacities of the widths in use.
pub proof fn lemma_byte_capacity_values()
    ensures
        byte_capacity(2) == 0x1_0000,
        byte_capacity(4) == 0x1_0000_0000,
        byte_capacity(16) == 0x1_0000_0000_0000_0000_0000_0000_0000_0000,
{
    reveal_with_fuel(byte_capacity, 17);
}

/// What bytes spell lies below the capacity of their number.
pub proof fn lemma_le_value_bound(s: Seq<u8>)
    ensures
        le_value(s) < byte_capacity(s.len()),
    decreases s.len(),
{
    if s.len() > 0 {
        lemma_le_value_bound(s.skip(1));
    }
}

/// Bytes written from a value that fits spell that value again.
pub proof fn lemma_le_value_of_bytes(value: nat, count: nat)
    requires
        value < byte_capacity(count),
    ensures
        le_value(le_bytes(value, count)) == value,
    decreases count,
{
    let s = le_bytes(value, count);
    lemma_le_bytes_len(value, count);
    if count > 0 {
        assert(s.skip(1) =~= le_bytes(value / 256, (count - 1) as nat));
        lemma_le_value_of_bytes(value / 256, (count - 1) as nat);
    }
}

/// Appends the `count` low bytes of `value` to `buf`.
pub fn push_le_bytes(buf: &mut Vec<u8>, value: u128, count: usize)
    ensures
        final(buf)@ == old(buf)@ + le_bytes(value as nat, count as nat),
{
    let ghost target = old(buf)@ + le_bytes(value as nat, count as nat);
    let mut rest: u128 = value;
    let mut left: usize = count;
    while left > 0
        invariant
            buf@ + le_bytes(rest as nat, left as nat) == target,
        decreases left,
    {
        let ghost written = buf@;
        let ghost before = rest;
        let byte: u8 = (rest % 256) as u8;
        buf.push(byte);
        rest = rest / 256;
        left = left - 1;
        proof {
            assert(written.push(byte) + le_bytes(rest as nat, left as nat) =~= written + le_bytes(
                before as nat,
                (left + 1) as nat,
            ));
        }
    }
    proof {
        assert(buf@ + le_bytes(rest as nat, 0) =~= buf@);
    }
}

/// Reads the number that the `count` bytes from `pos` on spell, or nothing
/// where fewer bytes are left.
pub(crate) fn take_le_bytes(data: &[u8], pos: usize, count: usize) -> (value: Option<u128>)
    requires
        pos <= data@.len(),
        count <= 16,
    ensures
        match value {
            Some(v) => {
                &&& data@.len() - pos >= count
                &&& v == le_value(data@.subrange(pos as int, pos + count))
                &&& v < byte_capacity(count as nat)
            },
            None => data@.len() - pos < count,
        },
{
    if data.len() - pos < count {
        return None;
    }
    let mut value: u128 = 0;
    let mut left: usize = count;
    proof {
        assert(data@.subrange(pos + count, pos + count) =~= Seq::<u8>::empty());
    }
    while left > 0
        invariant
            left <= count <= 16,
            pos + count <= data@.len() <= usize::MAX,
            value == le_value(data@.subrange(pos + left, pos + count)),
        decreases left,
    {
        let ghost tail = data@.subrange(pos + left, pos + count);
        left = left - 1;
        let ghost s = data@.subrange(pos + left, pos + count);
        proof {
            assert(s.skip(1) =~= tail);
            lemma_le_value_bound(tail);
            lemma_byte_capacity_grows(tail.len(), 15);
            lemma_byte_capacity_values();
            reveal_with_fuel(byte_capacity, 2);
        }
        value = data[pos + left] as u128 + 256 * value;
    }
    proof {
        lemma_le_value_bound(data@.subrange(pos as int, pos + count));
    }
    Some(value)
}

} // verus!
