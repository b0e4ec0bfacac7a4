//! Data-cache lines that shared memory occupies.
//!
//! Before the remote processor can see a write, and before this one can see the remote's, the
//! lines that hold the bytes are flushed or invalidated one by one.
use vstd::prelude::*;

verus! {

/// Size of a data-cache line in bytes.
pub const CACHE_LINE_SIZE: usize = 64;

/// Address of the line that holds the byte at `addr`.
pub open spec fn line_of(addr: int) -> int {
    addr - addr % (CACHE_LINE_SIZE as int)
}

/// The lines from the one that holds `addr` on, as long as they start below `addr + size`.
pub open spec fn lines(addr: int, size: int) -> Seq<int> {
    Seq::new(
        ((addr + size - line_of(addr) + CACHE_LINE_SIZE - 1) / CACHE_LINE_SIZE as int) as nat,
        |i: int| line_of(addr) + i * CACHE_LINE_SIZE,
    )
}

/// The lines that a maintenance operation on `size` bytes at `addr` goes through, in order.
pub fn cache_lines(addr: usize, size: usize) -> (v: Vec<usize>)
    requires
        addr + size <= usize::MAX,
        line_of(addr + size - 1) + CACHE_LINE_SIZE <= usize::MAX,
    ensures
        v@.map_values(|a: usize| a as int) == lines(addr as int, size as int),
{
    assert(addr & !63usize == addr - addr % 64) by (bit_vector);
    let start: usize = addr & !(CACHE_LINE_SIZE - 1);
    let end: usize = addr + size;
    let mut v: Vec<usize> = Vec::new();
    let mut op: usize = start;
    while op < end
        invariant
            start == line_of(addr as int),
            start <= op,
            end == addr + size,
            line_of(end - 1) + CACHE_LINE_SIZE <= usize::MAX,
            op % CACHE_LINE_SIZE == 0,
            op < end + CACHE_LINE_SIZE,
            op == start + v@.len() * CACHE_LINE_SIZE,
            forall|i: int| 0 <= i < v@.len() ==> #[trigger] v@[i] == start + i * CACHE_LINE_SIZE,
        decreases end + CACHE_LINE_SIZE - op,
    {
        v.push(op);
        op += CACHE_LINE_SIZE;
    }
    assert(v@.map_values(|a: usize| a as int) =~= lines(addr as int, size as int));
    v
}

/// Every byte of the range lies in one of the lines, and every line is aligned.
pub proof fn lines_cover(addr: int, size: int, byte: int)
    requires
        0 <= addr <= byte < addr + size,
    ensures
        lines(addr, size).contains(line_of(byte)),
        forall|i: int|
            0 <= i < lines(addr, size).len() ==> #[trigger] lines(addr, size)[i] % (
            CACHE_LINE_SIZE as int) == 0,
{
    let i = (line_of(byte) - line_of(addr)) / CACHE_LINE_SIZE as int;
    assert(lines(addr, size)[i] == line_of(byte));
    assert forall|i: int| 0 <= i < lines(addr, size).len() implies #[trigger] lines(addr, size)[i]
        % (CACHE_LINE_SIZE as int) == 0 by {
        assert(lines(addr, size)[i] == line_of(addr) + i * CACHE_LINE_SIZE);
    }
}

/// The lines of a range follow each other without a gap from the one that holds its first byte on,
/// each holds 64 bytes, and none is gone through that holds no byte of the range. An empty range
/// has at most the line that its address lies in.
pub proof fn lines_needed(addr: int, size: int, i: int)
    requires
        0 <= addr,
        0 <= size,
        0 <= i < lines(addr, size).len(),
    ensures
        lines(addr, size)[0] <= addr < lines(addr, size)[0] + 64,
        lines(addr, size)[i] == lines(addr, size)[0] + 64 * i,
        lines(addr, size)[i] % 64 == 0,
        lines(addr, size)[i] < addr + size,
        size > 0 ==> addr < lines(addr, size)[i] + 64,
{
}

} // verus!
