//! Base-128 variable-length integers: seven value bits per byte, least
//! significant group first, the high bit set on every byte but the last.

use crate::error::DecodeError;
use vstd::prelude::*;

verus! {

/// The encoding of `n`.
pub open spec fn varint_bytes(n: nat) -> Seq<u8>
    decreases n,
{
    if n < 128 {
        seq![n as u8]
    } else {
        seq![(128 + n % 128) as u8] + varint_bytes(n / 128)
    }
}

/// What the front of a byte sequence holds when read as a varint.
pub enum VarintParse {
    /// The bytes end before the varint does.
    Incomplete,
    /// The varint is longer than allowed, or its last byte is too large.
    Malformed,
    /// A varint of `len` bytes with the given value.
    Value { value: nat, len: nat },
}

/// Reads a varint of at most `max_len` bytes from the front of `s`; a
/// varint that uses all `max_len` bytes must end in a byte of at most
/// `last_max`.
pub open spec fn parse_varint(s: Seq<u8>, max_len: nat, last_max: nat) -> VarintParse
    decreases max_len,
{
    if max_len == 0 {
        VarintParse::Malformed
    } else if s.len() == 0 {
        VarintParse::Incomplete
    } else if s[0] < 128 {
        if max_len == 1 && s[0] > last_max {
            VarintParse::Malformed
        } else {
            VarintParse::Value { value: s[0] as nat, len: 1 }
        }
    } else {
        match parse_varint(s.skip(1), (max_len - 1) as nat, last_max) {
            VarintParse::Value { value, len } => VarintParse::Value {
                value: ((s[0] - 128) + 128 * value) as nat,
                len: len + 1,
            },
            other => other,
        }
    }
}

/// One more than the largest value that `parse_varint` can return.
pub open spec fn varint_capacity(max_len: nat, last_max: nat) -> nat
    decreases max_len,
{
    if max_len <= 1 {
        last_max + 1
    } else {
        128 * varint_capacity((max_len - 1) as nat, last_max)
    }
}

/// An encoding is never empty and never longer than the bytes it stands in.
pub proof fn lemma_varint_bytes_len(n: nat)
    ensures
        varint_bytes(n).len() >= 1,
        n < 128 <==> varint_bytes(n).len() == 1,
    decreases n,
{
    if n >= 128 {
        lemma_varint_bytes_len(n / 128);
    }
}

/// Every parsed value lies below the capacity, and its length within the
/// bytes given and the length allowed.
pub proof fn lemma_parse_varint_bounds(s: Seq<u8>, max_len: nat, last_max: nat)
    requires
        last_max < 128,
    ensures
        parse_varint(s, max_len, last_max) matches VarintParse::Value { value, len } ==> {
            &&& value < varint_capacity(max_len, last_max)
            &&& 1 <= len <= max_len
            &&& len <= s.len()
        },
    decreases max_len,
{
    if max_len > 0 && s.len() > 0 {
        if s[0] < 128 {
            lemma_capacity_at_least_128(max_len, last_max);
        } else {
            lemma_parse_varint_bounds(s.skip(1), (max_len - 1) as nat, last_max);
        }
    }
}

/// With two bytes or more allowed, every single-byte value fits.
pub proof fn lemma_capacity_at_least_128(max_len: nat, last_max: nat)
    ensures
        max_len >= 2 ==> varint_capacity(max_len, last_max) >= 128,
        varint_capacity(max_len, last_max) >= 1,
    decreases max_len,
{
    if max_len >= 2 {
        lemma_capacity_at_least_128((max_len - 1) as nat, last_max);
    }
}

/// Reading back what was written: an encoding followed by any bytes parses
/// to its value and its own length, whenever the value is below the capacity.
pub proof fn lemma_parse_varint_bytes(n: nat, rest: Seq<u8>, max_len: nat, last_max: nat)
    requires
        max_len >= 1,
        last_max < 128,
        n < varint_capacity(max_len, last_max),
    ensures
        parse_varint(varint_bytes(n) + rest, max_len, last_max) == (VarintParse::Value {
            value: n,
            len: varint_bytes(n).len(),
        }),
    decreases n,
{
    let s = varint_bytes(n) + rest;
    if n < 128 {
        assert(s[0] == n as u8);
    } else {
        assert(s[0] == (128 + n % 128) as u8);
        assert(max_len >= 2);
        assert(s.skip(1) =~= varint_bytes(n / 128) + rest);
        lemma_parse_varint_bytes(n / 128, rest, (max_len - 1) as nat, last_max);
    }
}

/// The encoding of a value below the capacity is no longer than allowed.
pub proof fn lemma_varint_bytes_max_len(n: nat, max_len: nat, last_max: nat)
    requires
        max_len >= 1,
        last_max < 128,
        n < varint_capacity(max_len, last_max),
    ensures
        1 <= varint_bytes(n).len() <= max_len,
{
    lemma_parse_varint_bytes(n, Seq::empty(), max_len, last_max);
    lemma_parse_varint_bounds(varint_bytes(n) + Seq::empty(), max_len, last_max);
}

/// A strict prefix of an encoding is an unfinished varint.
pub proof fn lemma_parse_varint_prefix(n: nat, k: int, max_len: nat, last_max: nat)
    requires
        max_len >= 1,
        last_max < 128,
        n < varint_capacity(max_len, last_max),
        0 <= k < varint_bytes(n).len(),
    ensures
        parse_varint(varint_bytes(n).take(k), max_len, last_max) == VarintParse::Incomplete,
    decreases n,
{
    let s = varint_bytes(n).take(k);
    if k > 0 {
        lemma_varint_bytes_len(n);
        assert(n >= 128);
        assert(s[0] == (128 + n % 128) as u8);
        assert(s.skip(1) =~= varint_bytes(n / 128).take(k - 1));
        lemma_parse_varint_prefix(n / 128, k - 1, (max_len - 1) as nat, last_max);
    }
}

/// A varint that is there in full, or is malformed, stays what it is when
/// bytes are added behind it.
pub proof fn lemma_parse_varint_extend(s: Seq<u8>, more: Seq<u8>, max_len: nat, last_max: nat)
    requires
        parse_varint(s, max_len, last_max) != VarintParse::Incomplete,
    ensures
        parse_varint(s + more, max_len, last_max) == parse_varint(s, max_len, last_max),
    decreases max_len,
{
    if max_len > 0 && s.len() > 0 {
        assert((s + more)[0] == s[0]);
        if s[0] >= 128 {
            assert((s + more).skip(1) =~= s.skip(1) + more);
            lemma_parse_varint_extend(s.skip(1), more, (max_len - 1) as nat, last_max);
        }
    }
}

/// What `take_varint` found.
#[derive(Clone, Copy, Debug, PartialEq, Eq, Structural)]
pub enum VarintRead {
    /// The bytes end before the varint does.
    Incomplete,
    /// The varint is longer than allowed, or its last byte is too large.
    Malformed,
    /// A varint of `len` bytes with the given value.
    Value { value: u128, len: usize },
}

impl View for VarintRead {
    type V = VarintParse;

    open spec fn view(&self) -> VarintParse {
        match *self {
            VarintRead::Incomplete => VarintParse::Incomplete,
            VarintRead::Malformed => VarintParse::Malformed,
            VarintRead::Value { value, len } => VarintParse::Value {
                value: value as nat,
                len: len as nat,
            },
        }
    }
}

/// Appends the encoding of a 32-bit `value` to `buf`.
pub fn push_varint(buf: &mut Vec<u8>, value: u32)
    ensures
        final(buf)@ == old(buf)@ + varint_bytes(value as nat),
{
    let ghost target = old(buf)@ + varint_bytes(value as nat);
    let mut rest: u32 = value;
    loop
        invariant_except_break
            buf@ + varint_bytes(rest as nat) == target,
        ensures
            buf@ == target,
        decreases rest,
    {
        let ghost before = rest;
        let ghost written = buf@;
        let mut byte: u8 = (rest & 0x7F) as u8;
        rest >>= 7;
        proof {
            assert(before & 0x7F == before % 128) by (bit_vector);
            assert(before >> 7 == before / 128) by (bit_vector);
        }
        if rest != 0 {
            proof {
                assert(byte < 128 ==> byte | 0x80 == byte + 128) by (bit_vector);
            }
            byte |= 0x80;
        }
        buf.push(byte);
        proof {
            if before < 128 {
                assert(written.push(byte) =~= written + varint_bytes(before as nat));
            } else {
                assert(written.push(byte) + varint_bytes(rest as nat) =~= written + varint_bytes(
                    before as nat,
                ));
            }
        }
        if rest == 0 {
            break ;
        }
    }
}

/// Appends the encoding of `value` to `buf`, for values of any width up to
/// 128 bits.
pub fn push_wide_varint(buf: &mut Vec<u8>, value: u128)
    ensures
        final(buf)@ == old(buf)@ + varint_bytes(value as nat),
{
    let ghost target = old(buf)@ + varint_bytes(value as nat);
    let mut rest: u128 = value;
    while rest >= 128
        invariant
            buf@ + varint_bytes(rest as nat) == target,
        decreases rest,
    {
        let ghost before = rest;
        let ghost written = buf@;
        let byte: u8 = (128 + rest % 128) as u8;
        buf.push(byte);
        rest = rest / 128;
        proof {
            assert(written.push(byte) + varint_bytes(rest as nat) =~= written + varint_bytes(
                before as nat,
            ));
        }
    }
    let ghost written = buf@;
    buf.push(rest as u8);
    proof {
        assert(written.push(rest as u8) =~= written + varint_bytes(rest as nat));
    }
}

/// The integer widths that travel as varints. A width allows as many
/// bytes as its bits take, seven to a byte, and in the last of them only
/// the bits that are left.
#[derive(Clone, Copy, Debug, PartialEq, Eq, Structural)]
pub enum Width {
    U16,
    U32,
    U64,
    U128,
}

impl Width {
    /// The largest number of bytes of a varint of this width.
    pub open spec fn spec_max_len(self) -> nat {
        match self {
            Width::U16 => 3,
            Width::U32 => 5,
            Width::U64 => 10,
            Width::U128 => 19,
        }
    }

    /// The largest last byte of a varint of this width that takes
    /// `spec_max_len` bytes.
    pub open spec fn spec_last_max(self) -> nat {
        match self {
            Width::U16 => 3,
            Width::U32 => 15,
            Width::U64 => 1,
            Width::U128 => 3,
        }
    }

    /// The number of bits of the width.
    pub open spec fn bits(self) -> nat {
        match self {
            Width::U16 => 16,
            Width::U32 => 32,
            Width::U64 => 64,
            Width::U128 => 128,
        }
    }

    /// The largest number of bytes of a varint of this width.
    pub fn max_len(self) -> (len: usize)
        ensures
            len == self.spec_max_len(),
    {
        match self {
            Width::U16 => 3,
            Width::U32 => 5,
            Width::U64 => 10,
            Width::U128 => 19,
        }
    }

    /// The largest last byte of a varint of this width that takes
    /// `max_len` bytes.
    pub fn last_max(self) -> (byte: u8)
        ensures
            byte == self.spec_last_max(),
    {
        match self {
            Width::U16 => 3,
            Width::U32 => 15,
            Width::U64 => 1,
            Width::U128 => 3,
        }
    }
}

/// What the front of `s` holds when read as a varint of `width`.
pub open spec fn parse_width(s: Seq<u8>, width: Width) -> VarintParse {
    parse_varint(s, width.spec_max_len(), width.spec_last_max())
}

/// Reads a varint of at most `max_len` bytes that starts at `pos`.
fn take_varint_within(data: &[u8], pos: usize, max_len: usize, last_max: u8) -> (r: VarintRead)
    requires
        pos <= data@.len(),
        last_max < 128,
        varint_capacity(max_len as nat, last_max as nat) <= u128::MAX + 1,
    ensures
        r@ == parse_varint(data@.skip(pos as int), max_len as nat, last_max as nat),
    decreases max_len,
{
    let ghost s = data@.skip(pos as int);
    if max_len == 0 {
        return VarintRead::Malformed;
    }
    if pos >= data.len() {
        return VarintRead::Incomplete;
    }
    let byte: u8 = data[pos];
    assert(s[0] == byte);
    if byte < 128 {
        if max_len == 1 && byte > last_max {
            VarintRead::Malformed
        } else {
            VarintRead::Value { value: byte as u128, len: 1 }
        }
    } else {
        assert(s.skip(1) =~= data@.skip(pos + 1));
        proof {
            lemma_capacity_at_least_128((max_len - 1) as nat, last_max as nat);
            lemma_parse_varint_bounds(s.skip(1), (max_len - 1) as nat, last_max as nat);
        }
        match take_varint_within(data, pos + 1, max_len - 1, last_max) {
            VarintRead::Value { value, len } => VarintRead::Value {
                value: (byte - 128) as u128 + 128 * value,
                len: len + 1,
            },
            other => other,
        }
    }
}

/// Reads the varint of `width` that starts at `pos`. A value that is read
/// fits the width, and its bytes lie within `data`. Behind the end of
/// `data` there is nothing to read.
pub fn take_varint(data: &[u8], pos: usize, width: Width) -> (r: VarintRead)
    ensures
        r@ == if pos <= data@.len() {
            parse_width(data@.skip(pos as int), width)
        } else {
            VarintParse::Incomplete
        },
        r matches VarintRead::Value { value, len } ==> {
            &&& value < varint_capacity(width.spec_max_len(), width.spec_last_max())
            &&& 1 <= len <= width.spec_max_len()
            &&& pos + len <= data@.len()
        },
{
    if pos > data.len() {
        return VarintRead::Incomplete;
    }
    proof {
        lemma_capacity_values();
        lemma_parse_varint_bounds(
            data@.skip(pos as int),
            width.spec_max_len(),
            width.spec_last_max(),
        );
    }
    take_varint_within(data, pos, width.max_len(), width.last_max())
}

/// Reads a frame's length prefix from the front of `data`: a varint of at
/// most five bytes whose value fits in 32 bits. `Ok(None)` asks for more
/// bytes; a prefix that can never become valid is an error.
pub fn read_varint(data: &[u8]) -> (r: Result<Option<(u32, usize)>, DecodeError>)
    ensures
        r == match parse_width(data@, Width::U32) {
            VarintParse::Incomplete => Ok::<Option<(u32, usize)>, DecodeError>(None),
            VarintParse::Malformed => Err(DecodeError::BadLength),
            VarintParse::Value { value, len } => Ok(Some((value as u32, len as usize))),
        },
{
    proof {
        lemma_capacity_values();
        assert(data@.skip(0) =~= data@);
    }
    match take_varint(data, 0, Width::U32) {
        VarintRead::Incomplete => Ok(None),
        VarintRead::Malformed => Err(DecodeError::BadLength),
        VarintRead::Value { value, len } => Ok(Some((value as u32, len))),
    }
}

/// The capacity of each width: the number of values of its bits.
pub proof fn lemma_capacity_values()
    ensures
        varint_capacity(3, 3) == 0x1_0000,
        varint_capacity(5, 15) == 0x1_0000_0000,
        varint_capacity(10, 1) == 0x1_0000_0000_0000_0000,
        varint_capacity(19, 3) == 0x1_0000_0000_0000_0000_0000_0000_0000_0000,
{
    reveal_with_fuel(varint_capacity, 20);
}

} // verus!
