//! Little-endian integers and addresses inside byte strings.

use crate::pubkey::{lemma_pubkey_of, pubkey_of, Pubkey};
use vstd::prelude::*;

verus! {

/// The number that `bytes` spell, least significant byte first.
pub open spec fn le_value(bytes: Seq<u8>) -> nat
    decreases bytes.len(),
{
    if bytes.len() == 0 {
        0
    } else {
        bytes[0] as nat + 256 * le_value(bytes.skip(1))
    }
}

/// The `count` low bytes of `value`, least significant byte first.
pub open spec fn le_bytes(value: nat, count: nat) -> Seq<u8>
    decreases count,
{
    if count == 0 {
        Seq::empty()
    } else {
        seq![(value % 256) as u8] + le_bytes(value / 256, (count - 1) as nat)
    }
}

/// How many numbers `count` bytes can spell.
pub open spec fn byte_span(count: nat) -> nat
    decreases count,
{
    if count == 0 {
        1
    } else {
        256 * byte_span((count - 1) as nat)
    }
}

/// The `count` bytes of `data` from `offset` on.
pub open spec fn field(data: Seq<u8>, offset: int, count: int) -> Seq<u8> {
    data.subrange(offset, offset + count)
}

/// The number read as a two's-complement one of sixty-four bits.
pub open spec fn signed_value(value: nat) -> int {
    if value < 0x8000_0000_0000_0000 {
        value as int
    } else {
        value - 0x1_0000_0000_0000_0000
    }
}

proof fn lemma_byte_span_values()
    ensures
        byte_span(2) == 0x1_0000,
        byte_span(4) == 0x1_0000_0000,
        byte_span(8) == 0x1_0000_0000_0000_0000,
{
    reveal_with_fuel(byte_span, 9);
}

/// `count` bytes spell a number below their span.
proof fn lemma_le_value_bound(bytes: Seq<u8>)
    ensures
        le_value(bytes) < byte_span(bytes.len()),
    decreases bytes.len(),
{
    if bytes.len() > 0 {
        lemma_le_value_bound(bytes.skip(1));
    }
}

/// Writing a number in `count` bytes and reading it back gives the number,
/// where it fits.
pub proof fn law_le_round_trip(value: nat, count: nat)
    requires
        value < byte_span(count),
    ensures
        le_bytes(value, count).len() == count,
        le_value(le_bytes(value, count)) == value,
    decreases count,
{
    if count > 0 {
        let rest = le_bytes(value / 256, (count - 1) as nat);
        law_le_round_trip(value / 256, (count - 1) as nat);
        assert(le_bytes(value, count).skip(1) =~= rest);
    }
}

/// The first byte is the lowest digit to the base two hundred and fifty-six, and
/// the other bytes spell the rest.
pub proof fn law_first_byte_is_lowest_digit(bytes: Seq<u8>)
    ensures
        bytes.len() == 0 ==> le_value(bytes) == 0,
        bytes.len() > 0 ==> {
            &&& le_value(bytes) % 256 == bytes[0]
            &&& le_value(bytes) / 256 == le_value(bytes.subrange(1, bytes.len() as int))
        },
{
    if bytes.len() > 0 {
        assert(bytes.skip(1) =~= bytes.subrange(1, bytes.len() as int));
    }
}

/// Two, four and eight bytes spell what their digits add up to.
pub proof fn law_digits_add_up(bytes: Seq<u8>)
    ensures
        bytes.len() == 2 ==> le_value(bytes) == bytes[0] + 0x100 * bytes[1],
        bytes.len() == 4 ==> le_value(bytes) == bytes[0] + 0x100 * bytes[1] + 0x1_0000 * bytes[2]
            + 0x100_0000 * bytes[3],
        bytes.len() == 8 ==> le_value(bytes) == bytes[0] + 0x100 * bytes[1] + 0x1_0000 * bytes[2]
            + 0x100_0000 * bytes[3] + 0x1_0000_0000 * bytes[4] + 0x100_0000_0000 * bytes[5]
            + 0x1_0000_0000_0000 * bytes[6] + 0x100_0000_0000_0000 * bytes[7],
{
    let b1 = bytes.skip(1);
    let b2 = b1.skip(1);
    let b3 = b2.skip(1);
    let b4 = b3.skip(1);
    let b5 = b4.skip(1);
    let b6 = b5.skip(1);
    let b7 = b6.skip(1);
    if bytes.len() >= 2 {
        assert(b1[0] == bytes[1]);
        assert(le_value(bytes) == bytes[0] + 256 * le_value(b1));
        assert(le_value(b1) == bytes[1] + 256 * le_value(b2));
    }
    if bytes.len() >= 4 {
        assert(b2[0] == bytes[2] && b3[0] == bytes[3]);
        assert(le_value(b2) == bytes[2] + 256 * le_value(b3));
        assert(le_value(b3) == bytes[3] + 256 * le_value(b4));
    }
    if bytes.len() >= 8 {
        assert(b4[0] == bytes[4] && b5[0] == bytes[5] && b6[0] == bytes[6] && b7[0] == bytes[7]);
        assert(le_value(b4) == bytes[4] + 256 * le_value(b5));
        assert(le_value(b5) == bytes[5] + 256 * le_value(b6));
        assert(le_value(b6) == bytes[6] + 256 * le_value(b7));
        assert(le_value(b7) == bytes[7] + 256 * le_value(b7.skip(1)));
    }
}

/// Equally many bytes that spell the same number are the same bytes.
pub proof fn law_spelling_is_unique(a: Seq<u8>, b: Seq<u8>)
    requires
        a.len() == b.len(),
        le_value(a) == le_value(b),
    ensures
        a == b,
    decreases a.len(),
{
    if a.len() > 0 {
        assert(a.skip(1) =~= a.subrange(1, a.len() as int));
        assert(b.skip(1) =~= b.subrange(1, b.len() as int));
        law_first_byte_is_lowest_digit(a);
        law_first_byte_is_lowest_digit(b);
        law_spelling_is_unique(a.skip(1), b.skip(1));
        assert(a =~= seq![a[0]] + a.skip(1));
        assert(b =~= seq![b[0]] + b.skip(1));
    } else {
        assert(a =~= b);
    }
}

/// Every `u64` is written in eight bytes that spell it.
pub proof fn law_u64_round_trip(value: u64)
    ensures
        le_bytes(value as nat, 8).len() == 8,
        le_value(le_bytes(value as nat, 8)) == value,
{
    lemma_byte_span_values();
    law_le_round_trip(value as nat, 8);
}

/// A field is the bytes at its place, each of them and no other.
pub proof fn law_field_is_the_bytes_there(data: Seq<u8>, offset: int, count: int)
    requires
        0 <= offset,
        0 <= count,
        offset + count <= data.len(),
    ensures
        field(data, offset, count).len() == count,
        forall|i: int| 0 <= i < count ==> #[trigger] field(data, offset, count)[i] == data[offset + i],
{
}

/// A two's-complement number fits its type and differs from the plain one by
/// nothing or by two to the sixty-fourth.
pub proof fn law_signed_value_wraps(value: nat)
    requires
        value <= u64::MAX,
    ensures
        i64::MIN <= signed_value(value) <= i64::MAX,
        signed_value(value) == value || signed_value(value) == value - 0x1_0000_0000_0000_0000,
{
}

/// Reads a little-endian number of at most eight bytes.
fn read_le(data: &[u8], offset: usize, count: usize) -> (value: u64)
    requires
        count <= 8,
        offset + count <= data.len(),
    ensures
        value == le_value(field(data@, offset as int, count as int)),
        value < byte_span(count as nat),
{
    let mut value: u64 = 0;
    let mut left: usize = count;
    while left > 0
        invariant
            left <= count <= 8,
            offset + count <= data.len(),
            value == le_value(data@.subrange(offset + left, offset + count)),
            value < byte_span((count - left) as nat),
        decreases left,
    {
        proof {
            let longer = data@.subrange(offset + left - 1, offset + count);
            assert(longer.skip(1) =~= data@.subrange(offset + left, offset + count));
            assert(longer[0] == data@[offset + left - 1]);
            lemma_le_value_bound(longer);
            lemma_byte_span_grows((count - left + 1) as nat, 8);
            lemma_byte_span_values();
        }
        left = left - 1;
        value = value * 256 + data[offset + left] as u64;
    }
    value
}

proof fn lemma_byte_span_grows(small: nat, large: nat)
    requires
        small <= large,
    ensures
        byte_span(small) <= byte_span(large),
        byte_span(small) >= 1,
    decreases large,
{
    if large > small {
        lemma_byte_span_grows(small, (large - 1) as nat);
    } else if large > 0 {
        lemma_byte_span_grows((small - 1) as nat, (large - 1) as nat);
    }
}

/// Reads the `u64` at `offset`.
pub fn read_u64(data: &[u8], offset: usize) -> (value: u64)
    requires
        offset + 8 <= data.len(),
    ensures
        value == le_value(field(data@, offset as int, 8)),
{
    read_le(data, offset, 8)
}

/// Reads the `u32` at `offset`.
pub fn read_u32(data: &[u8], offset: usize) -> (value: u32)
    requires
        offset + 4 <= data.len(),
    ensures
        value == le_value(field(data@, offset as int, 4)),
{
    proof {
        lemma_byte_span_values();
    }
    read_le(data, offset, 4) as u32
}

/// Reads the `u16` at `offset`.
pub fn read_u16(data: &[u8], offset: usize) -> (value: u16)
    requires
        offset + 2 <= data.len(),
    ensures
        value == le_value(field(data@, offset as int, 2)),
{
    proof {
        lemma_byte_span_values();
    }
    read_le(data, offset, 2) as u16
}

/// Reads the `i64` at `offset`.
pub fn read_i64(data: &[u8], offset: usize) -> (value: i64)
    requires
        offset + 8 <= data.len(),
    ensures
        value == signed_value(le_value(field(data@, offset as int, 8))),
{
    let raw: u64 = read_u64(data, offset);
    if raw <= 0x7fff_ffff_ffff_ffff {
        raw as i64
    } else {
        let below: i64 = (u64::MAX - raw) as i64;
        -1 - below
    }
}

/// Reads the address at `offset`.
pub fn read_pubkey(data: &[u8], offset: usize) -> (key: Pubkey)
    requires
        offset + 32 <= data.len(),
    ensures
        key == pubkey_of(field(data@, offset as int, 32)),
        key@ == field(data@, offset as int, 32),
{
    let mut bytes: [u8; 32] = [0u8; 32];
    let mut i: usize = 0;
    while i < 32
        invariant
            i <= 32,
            offset + 32 <= data.len(),
            forall|j: int| 0 <= j < i ==> bytes@[j] == data@[offset + j],
        decreases 32 - i,
    {
        bytes[i] = data[offset + i];
        i = i + 1;
    }
    let key = Pubkey { bytes };
    proof {
        assert(key@ =~= field(data@, offset as int, 32));
        lemma_pubkey_of(key);
    }
    key
}

/// Appends the eight bytes of `value`.
pub fn push_u64(out: &mut Vec<u8>, value: u64)
    ensures
        final(out)@ == old(out)@ + le_bytes(value as nat, 8),
{
    let mut rest: u64 = value;
    let mut i: usize = 0;
    proof {
        assert(out@ + le_bytes(value as nat, 8) =~= old(out)@ + le_bytes(value as nat, 8));
    }
    while i < 8
        invariant
            i <= 8,
            out@ + le_bytes(rest as nat, (8 - i) as nat) == old(out)@ + le_bytes(value as nat, 8),
        decreases 8 - i,
    {
        let ghost before = out@;
        let ghost tail = le_bytes((rest / 256) as nat, (7 - i) as nat);
        out.push((rest % 256) as u8);
        proof {
            assert(out@ + tail =~= before + (seq![(rest % 256) as u8] + tail));
        }
        rest = rest / 256;
        i = i + 1;
    }
    proof {
        assert(out@ + le_bytes(rest as nat, 0) =~= out@);
    }
}

} // verus!
