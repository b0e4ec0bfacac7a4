//! Little-endian integers in byte buffers.
use vstd::prelude::*;

verus! {

/// The two bytes of `x`, least significant first.
pub open spec fn u16_le(x: u16) -> Seq<u8> {
    seq![(x % 256) as u8, (x / 256) as u8]
}

/// The four bytes of `x`, least significant first.
pub open spec fn u32_le(x: u32) -> Seq<u8> {
    seq![
        (x % 256) as u8,
        (x / 256 % 256) as u8,
        (x / 65536 % 256) as u8,
        (x / 16777216) as u8,
    ]
}

/// The 16-bit number stored little-endian at `off`.
pub open spec fn u16_at(b: Seq<u8>, off: int) -> u16 {
    (b[off] + 256 * b[off + 1]) as u16
}

/// The 32-bit number stored little-endian at `off`.
pub open spec fn u32_at(b: Seq<u8>, off: int) -> u32 {
    (b[off] + 256 * b[off + 1] + 65536 * b[off + 2] + 16777216 * b[off + 3]) as u32
}

/// `b` with the bytes of `part` in place from `off` on.
pub open spec fn splice(b: Seq<u8>, off: int, part: Seq<u8>) -> Seq<u8> {
    Seq::new(
        b.len(),
        |i: int|
            if off <= i < off + part.len() {
                part[i - off]
            } else {
                b[i]
            },
    )
}

/// A buffer of `n` zeroes.
pub open spec fn zeroes(n: nat) -> Seq<u8> {
    Seq::new(n, |i: int| 0u8)
}

/// The lesser of two numbers.
pub open spec fn least(a: int, b: int) -> int {
    if a <= b {
        a
    } else {
        b
    }
}

/// Reading a 16-bit number back from the bytes it was written as gives the number.
pub proof fn u16_roundtrip(x: u16)
    ensures
        u16_at(u16_le(x), 0) == x,
{
}

/// Reading a 32-bit number back from the bytes it was written as gives the number.
pub proof fn u32_roundtrip(x: u32)
    ensures
        u32_at(u32_le(x), 0) == x,
{
    assert(x == (x % 256) + 256 * (x / 256 % 256) + 65536 * (x / 65536 % 256) + 16777216 * (x
        / 16777216)) by (bit_vector);
}

/// A 32-bit number is determined by the four bytes it is stored in.
pub proof fn u32_bytes_roundtrip(b: Seq<u8>, off: int)
    requires
        0 <= off,
        off + 4 <= b.len(),
    ensures
        u32_le(u32_at(b, off)) == b.subrange(off, off + 4),
{
    let (b0, b1, b2, b3) = (b[off], b[off + 1], b[off + 2], b[off + 3]);
    let x: u32 = u32_at(b, off);
    assert(x % 256 == b0 && x / 256 % 256 == b1 && x / 65536 % 256 == b2 && x / 16777216 == b3)
        by (bit_vector)
        requires
            x == (b0 as u32) + 256 * (b1 as u32) + 65536 * (b2 as u32) + 16777216 * (b3 as u32),
    ;
    assert(u32_le(x) =~= b.subrange(off, off + 4));
}

/// The bytes of a number are its digits to the base 256, least significant first.
pub proof fn digits(x: u16, y: u32)
    ensures
        u16_le(x).len() == 2,
        u16_le(x)[0] + 256 * u16_le(x)[1] == x,
        u32_le(y).len() == 4,
        u32_le(y)[0] + 256 * u32_le(y)[1] + 65536 * u32_le(y)[2] + 16777216 * u32_le(y)[3] == y,
{
    u32_roundtrip(y);
}

/// A number in a buffer has the bytes from its place on as digits, least significant first.
pub proof fn number_at(b: Seq<u8>, off: int)
    ensures
        u16_at(b, off) == b[off] + 256 * b[off + 1],
        u32_at(b, off) == b[off] + 256 * b[off + 1] + 65536 * b[off + 2] + 16777216 * b[off + 3],
{
}

/// A buffer with some bytes put in place holds them there, and keeps what comes before and after.
pub proof fn spliced(b: Seq<u8>, off: int, part: Seq<u8>)
    requires
        0 <= off,
        off + part.len() <= b.len(),
    ensures
        splice(b, off, part).len() == b.len(),
        splice(b, off, part).subrange(off, off + part.len()) == part,
        splice(b, off, part).take(off) == b.take(off),
        splice(b, off, part).skip(off + part.len()) == b.skip(off + part.len()),
{
    let s = splice(b, off, part);
    assert(s.subrange(off, off + part.len()) =~= part);
    assert(s.take(off) =~= b.take(off));
    assert(s.skip(off + part.len()) =~= b.skip(off + part.len()));
}

/// Reads the 16-bit number at `off`.
pub fn read_u16(b: &[u8], off: usize) -> (x: u16)
    requires
        off + 2 <= b@.len(),
    ensures
        x == u16_at(b@, off as int),
{
    b[off] as u16 + 256 * (b[off + 1] as u16)
}

/// Reads the 32-bit number at `off`.
pub fn read_u32(b: &[u8], off: usize) -> (x: u32)
    requires
        off + 4 <= b@.len(),
    ensures
        x == u32_at(b@, off as int),
{
    b[off] as u32 + 256 * (b[off + 1] as u32) + 65536 * (b[off + 2] as u32) + 16777216 * (b[off + 3]
        as u32)
}

/// Writes the 16-bit number `x` at `off`.
pub fn write_u16(b: &mut [u8], off: usize, x: u16)
    requires
        off + 2 <= old(b)@.len(),
    ensures
        final(b)@ == splice(old(b)@, off as int, u16_le(x)),
{
    b[off] = (x % 256) as u8;
    b[off + 1] = (x / 256) as u8;
    assert(b@ =~= splice(old(b)@, off as int, u16_le(x)));
}

/// Writes the 32-bit number `x` at `off`.
pub fn write_u32(b: &mut [u8], off: usize, x: u32)
    requires
        off + 4 <= old(b)@.len(),
    ensures
        final(b)@ == splice(old(b)@, off as int, u32_le(x)),
{
    b[off] = (x % 256) as u8;
    b[off + 1] = (x / 256 % 256) as u8;
    b[off + 2] = (x / 65536 % 256) as u8;
    b[off + 3] = (x / 16777216) as u8;
    assert(b@ =~= splice(old(b)@, off as int, u32_le(x)));
}

/// Copies the first `n` bytes of `src`, from `from` on, over `dst`, from `to` on.
pub fn copy_bytes(src: &[u8], from: usize, dst: &mut [u8], to: usize, n: usize)
    requires
        from + n <= src@.len(),
        to + n <= old(dst)@.len(),
    ensures
        final(dst)@ == splice(old(dst)@, to as int, src@.subrange(from as int, from + n)),
{
    let src_len: usize = src.len();
    let dst_len: usize = dst.len();
    let mut i: usize = 0;
    while i < n
        invariant
            i <= n,
            from + n <= src_len == src@.len(),
            to + n <= dst_len == old(dst)@.len(),
            dst@ == splice(old(dst)@, to as int, src@.subrange(from as int, from + i)),
        decreases n - i,
    {
        dst[to + i] = src[from + i];
        i += 1;
        assert(dst@ =~= splice(old(dst)@, to as int, src@.subrange(from as int, from + i)));
    }
}

/// Whether two byte strings are the same.
pub fn same_bytes(a: &[u8], b: &[u8]) -> (r: bool)
    ensures
        r == (a@ == b@),
{
    if a.len() != b.len() {
        return false;
    }
    let mut i: usize = 0;
    while i < a.len()
        invariant
            i <= a@.len() == b@.len(),
            forall|j: int| 0 <= j < i ==> a@[j] == b@[j],
        decreases a@.len() - i,
    {
        if a[i] != b[i] {
            return false;
        }
        i += 1;
    }
    assert(a@ =~= b@);
    true
}

/// Whether a name is in a list.
pub fn is_listed(list: &[Vec<u8>], name: &[u8]) -> (b: bool)
    ensures
        b == exists|i: int| 0 <= i < list@.len() && (#[trigger] list@[i])@ == name@,
{
    let mut i: usize = 0;
    while i < list.len()
        invariant
            i <= list@.len(),
            forall|j: int| 0 <= j < i ==> (#[trigger] list@[j])@ != name@,
        decreases list@.len() - i,
    {
        if same_bytes(list[i].as_slice(), name) {
            assert(list@[i as int]@ == name@);
            return true;
        }
        i += 1;
    }
    false
}

/// The four bytes of `x`, least significant first.
pub fn u32_to_le_bytes(x: u32) -> (b: Vec<u8>)
    ensures
        b@ == u32_le(x),
{
    let b: Vec<u8> = vec![
        (x % 256) as u8,
        (x / 256 % 256) as u8,
        (x / 65536 % 256) as u8,
        (x / 16777216) as u8,
    ];
    assert(b@ =~= u32_le(x));
    b
}

/// The lesser of two numbers is one of them, and above neither; a buffer of zeroes holds nothing
/// else.
pub proof fn lesser_and_zero(a: int, b: int, n: nat, i: int)
    ensures
        least(a, b) <= a,
        least(a, b) <= b,
        least(a, b) == a || least(a, b) == b,
        zeroes(n).len() == n,
        0 <= i < n ==> zeroes(n)[i] == 0,
{
}

} // verus!
