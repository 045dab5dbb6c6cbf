//! Big-endian integers in byte buffers, and copying into a part of a buffer.

use vstd::prelude::*;

verus! {

/// The number that `bytes` writes in base 256, most significant byte first.
pub open spec fn be_value(bytes: Seq<u8>) -> nat
    decreases bytes.len(),
{
    if bytes.len() == 0 {
        0
    } else {
        be_value(bytes.drop_last()) * 256 + bytes.last() as nat
    }
}

/// The `len` low-order base-256 digits of `n`, most significant first.
pub open spec fn be_bytes(n: nat, len: nat) -> Seq<u8>
    decreases len,
{
    if len == 0 {
        Seq::empty()
    } else {
        be_bytes(n / 256, (len - 1) as nat).push((n % 256) as u8)
    }
}

/// `256` to the power `len`: how many numbers fit in `len` bytes.
pub open spec fn byte_range(len: nat) -> nat
    decreases len,
{
    if len == 0 {
        1
    } else {
        256 * byte_range((len - 1) as nat)
    }
}

/// `buffer` with the bytes from `at` on replaced by `piece`.
pub open spec fn splice(buffer: Seq<u8>, at: int, piece: Seq<u8>) -> Seq<u8> {
    Seq::new(
        buffer.len(),
        |i: int|
            if at <= i < at + piece.len() {
                piece[i - at]
            } else {
                buffer[i]
            },
    )
}

/// Every sequence of bytes is the big-endian form of the number it writes.
pub proof fn be_bytes_of_be_value(bytes: Seq<u8>)
    ensures
        be_bytes(be_value(bytes), bytes.len()) == bytes,
    decreases bytes.len(),
{
    if bytes.len() > 0 {
        be_bytes_of_be_value(bytes.drop_last());
        let high = be_value(bytes.drop_last());
        let low = bytes.last() as nat;
        assert((high * 256 + low) / 256 == high && (high * 256 + low) % 256 == low);
        assert(bytes.drop_last().push(bytes.last()) =~= bytes);
    }
}

/// A number that fits in `len` bytes is read back from its big-endian form.
pub proof fn be_value_of_be_bytes(n: nat, len: nat)
    requires
        n < byte_range(len),
    ensures
        be_value(be_bytes(n, len)) == n,
        be_bytes(n, len).len() == len,
    decreases len,
{
    if len > 0 {
        let shorter = (len - 1) as nat;
        be_value_of_be_bytes(n / 256, shorter);
        assert(be_bytes(n, len).drop_last() =~= be_bytes(n / 256, shorter));
    }
}

/// The big-endian form in `len` bytes is `len` bytes long.
pub proof fn be_bytes_len(n: nat, len: nat)
    ensures
        be_bytes(n, len).len() == len,
    decreases len,
{
    if len > 0 {
        be_bytes_len(n / 256, (len - 1) as nat);
    }
}

/// Reads two bytes as a big-endian number.
pub fn read_be_u16(bytes: &[u8]) -> (value: u16)
    requires
        bytes@.len() == 2,
    ensures
        value == be_value(bytes@),
{
    proof {
        reveal_with_fuel(be_value, 3);
    }
    bytes[0] as u16 * 256 + bytes[1] as u16
}

/// Reads four bytes as a big-endian number.
pub fn read_be_u32(bytes: &[u8]) -> (value: u32)
    requires
        bytes@.len() == 4,
    ensures
        value == be_value(bytes@),
{
    proof {
        reveal_with_fuel(be_value, 5);
    }
    let high: u32 = bytes[0] as u32 * 256 + bytes[1] as u32;
    let low: u32 = bytes[2] as u32 * 256 + bytes[3] as u32;
    high * 0x1_0000 + low
}

/// Reads eight bytes as a big-endian number.
pub fn read_be_u64(bytes: &[u8]) -> (value: u64)
    requires
        bytes@.len() == 8,
    ensures
        value == be_value(bytes@),
{
    let mut value: u64 = 0;
    let mut i: usize = 0;
    assert(bytes@.take(8) =~= bytes@);
    assert(byte_range(8) == 0x1_0000_0000_0000_0000) by {
        reveal_with_fuel(byte_range, 9);
    }
    while i < 8
        invariant
            bytes@.len() == 8,
            i <= 8,
            value == be_value(bytes@.take(i as int)),
            value < byte_range(i as nat),
            byte_range(8) == 0x1_0000_0000_0000_0000,
        decreases 8 - i,
    {
        let ghost next = bytes@.take(i + 1);
        assert(next.drop_last() =~= bytes@.take(i as int));
        proof {
            byte_range_monotonic((i + 1) as nat, 8);
        }
        value = value * 256 + bytes[i] as u64;
        i = i + 1;
    }
    value
}

/// More bytes hold more numbers.
pub proof fn byte_range_monotonic(short: nat, long: nat)
    requires
        short <= long,
    ensures
        0 < byte_range(short) <= byte_range(long),
    decreases long,
{
    if short < long {
        byte_range_monotonic(short, (long - 1) as nat);
    } else if long > 0 {
        byte_range_monotonic((long - 1) as nat, (long - 1) as nat);
    }
}

/// Writes `value` into two bytes, most significant first.
pub fn put_be_u16(dst: &mut [u8], value: u16)
    requires
        old(dst)@.len() == 2,
    ensures
        final(dst)@ == be_bytes(value as nat, 2),
{
    proof {
        reveal_with_fuel(be_bytes, 3);
    }
    dst[0] = (value / 256) as u8;
    dst[1] = (value % 256) as u8;
    assert(dst@ =~= be_bytes(value as nat, 2));
}

/// Writes `value` into four bytes, most significant first.
pub fn put_be_u32(dst: &mut [u8], value: u32)
    requires
        old(dst)@.len() == 4,
    ensures
        final(dst)@ == be_bytes(value as nat, 4),
{
    put_be(dst, value as u64);
}

/// Writes `value` into eight bytes, most significant first.
pub fn put_be_u64(dst: &mut [u8], value: u64)
    requires
        old(dst)@.len() == 8,
    ensures
        final(dst)@ == be_bytes(value as nat, 8),
{
    put_be(dst, value);
}

/// Fills `dst` with the low-order bytes of `value`, most significant first.
fn put_be(dst: &mut [u8], value: u64)
    ensures
        final(dst)@ == be_bytes(value as nat, old(dst)@.len()),
{
    let len: usize = dst.len();
    let mut rest: u64 = value;
    let mut left: usize = len;
    proof {
        be_bytes_len(value as nat, len as nat);
    }
    while left > 0
        invariant
            left <= len,
            dst@.len() == len,
            be_bytes(value as nat, len as nat).len() == len,
            be_bytes(value as nat, len as nat) =~= be_bytes(rest as nat, left as nat)
                + dst@.skip(left as int),
        decreases left,
    {
        left = left - 1;
        let ghost before = dst@;
        dst[left] = (rest % 256) as u8;
        proof {
            be_bytes_len(rest as nat / 256, left as nat);
            assert(be_bytes(rest as nat / 256, left as nat) + dst@.skip(left as int)
                =~= be_bytes(rest as nat, (left + 1) as nat) + before.skip(left + 1));
        }
        rest = rest / 256;
    }
}

/// Copies `piece` over the bytes of `buffer` from `at` on.
pub(crate) fn copy_into(buffer: &mut [u8], at: usize, piece: &[u8])
    requires
        at + piece@.len() <= old(buffer)@.len(),
    ensures
        final(buffer)@ == splice(old(buffer)@, at as int, piece@),
{
    let ghost before = buffer@;
    let end: usize = buffer.len();
    let mut i: usize = 0;
    while i < piece.len()
        invariant
            i <= piece@.len(),
            at + piece@.len() <= end,
            before.len() == end,
            buffer@ =~= splice(before, at as int, piece@.take(i as int)),
        decreases piece@.len() - i,
    {
        buffer[at + i] = piece[i];
        i = i + 1;
    }
    assert(piece@.take(piece@.len() as int) =~= piece@);
}

/// Appends `piece` to `buffer`.
pub(crate) fn append_bytes(buffer: &mut Vec<u8>, piece: &[u8])
    ensures
        final(buffer)@ == old(buffer)@ + piece@,
{
    let ghost before = buffer@;
    buffer.extend_from_slice(piece);
    assert(buffer@ =~= before + piece@);
}

/// A buffer of `len` zero bytes.
pub(crate) fn zeros(len: usize) -> (buffer: Vec<u8>)
    ensures
        buffer@ == Seq::new(len as nat, |i: int| 0u8),
{
    let buffer = vec![0u8; len];
    assert(buffer@ =~= Seq::new(len as nat, |i: int| 0u8));
    buffer
}

/// A copy of `bytes`.
pub(crate) fn copy_of(bytes: &[u8]) -> (copy: Vec<u8>)
    ensures
        copy@ == bytes@,
{
    let mut copy: Vec<u8> = Vec::new();
    append_bytes(&mut copy, bytes);
    copy
}

} // verus!
