//! Bytes as rows of hexadecimal digits with a gutter of printable characters.

use vstd::prelude::*;
use crate::digits::{hex_pad, push_hex};
use crate::text::{joined, views};

verus! {

broadcast use vstd::seq_lib::group_seq_properties;

/// The character that stands for a byte: itself where it is printable ASCII, else a dot.
pub open spec fn shown(b: u8) -> char {
    if 0x20 <= b < 0x7F {
        b as char
    } else {
        '.'
    }
}

/// One of the sixteen columns of a row.
pub open spec fn cell(chunk: Seq<u8>, i: int) -> Seq<char> {
    (if i == 8 {
        " "@
    } else {
        Seq::empty()
    }) + (if i < chunk.len() {
        hex_pad(chunk[i] as nat, 2, true) + " "@
    } else {
        "   "@
    })
}

/// The first `n` columns of a row.
pub open spec fn cells(chunk: Seq<u8>, n: nat) -> Seq<char>
    decreases n,
{
    if n == 0 {
        Seq::empty()
    } else {
        cells(chunk, (n - 1) as nat) + cell(chunk, n - 1)
    }
}

/// A row: the offset of its first byte, sixteen columns, and the gutter.
pub open spec fn hex_line(offset: nat, chunk: Seq<u8>) -> Seq<char> {
    hex_pad(offset, 8, true) + "  "@ + cells(chunk, 16) + " "@ + chunk.map_values(|b: u8| shown(b))
}

/// The number of rows for `n` bytes.
pub open spec fn row_count(n: nat) -> nat {
    (n + 15) / 16
}

/// The bytes of row `i`.
pub open spec fn row_bytes(bytes: Seq<u8>, i: int) -> Seq<u8> {
    bytes.subrange(
        16 * i,
        if 16 * i + 16 <= bytes.len() {
            16 * i + 16
        } else {
            bytes.len() as int
        },
    )
}

/// The rows of `bytes`, of which the first stands at `start`.
pub open spec fn hex_rows(bytes: Seq<u8>, start: nat) -> Seq<Seq<char>> {
    Seq::new(row_count(bytes.len()), |i: int| hex_line((start + 16 * i) as nat, row_bytes(bytes, i)))
}

/// A hexadecimal dump: the rows, one under the other.
pub open spec fn hex_dump(bytes: Seq<u8>, start: nat) -> Seq<char> {
    joined(hex_rows(bytes, start), "\n"@)
}

/// The character that stands for a byte.
pub fn printable(b: u8) -> (c: char)
    ensures
        c == shown(b),
{
    if 0x20 <= b && b < 0x7F {
        b as char
    } else {
        '.'
    }
}

fn push_cell(out: &mut String, chunk: &[u8], i: usize)
    ensures
        final(out)@ == old(out)@ + cell(chunk@, i as int),
{
    if i == 8 {
        out.push_str(" ");
    }
    if i < chunk.len() {
        push_hex(out, chunk[i] as u64, 2, true);
        out.push_str(" ");
    } else {
        out.push_str("   ");
    }
    assert(out@ =~= old(out)@ + cell(chunk@, i as int));
}

/// One row of a dump. A row with fewer than sixteen bytes is filled with blanks.
pub fn format_hex_line(offset: usize, chunk: &[u8]) -> (r: String)
    ensures
        r@ == hex_line(offset as nat, chunk@),
{
    let mut out = String::new();
    push_hex(&mut out, offset as u64, 8, true);
    out.push_str("  ");
    let ghost head = out@;
    let mut i: usize = 0;
    assert(out@ =~= head + cells(chunk@, 0));
    while i < 16
        invariant
            0 <= i <= 16,
            out@ == head + cells(chunk@, i as nat),
        decreases 16 - i,
    {
        push_cell(&mut out, chunk, i);
        i = i + 1;
        assert(out@ =~= head + cells(chunk@, i as nat));
    }
    out.push_str(" ");
    let ghost body = out@;
    let mut j: usize = 0;
    let ghost gutter = chunk@.map_values(|b: u8| shown(b));
    assert(out@ =~= body + gutter.take(0));
    while j < chunk.len()
        invariant
            0 <= j <= chunk.len(),
            gutter == chunk@.map_values(|b: u8| shown(b)),
            out@ == body + gutter.take(j as int),
        decreases chunk.len() - j,
    {
        out.push(printable(chunk[j]));
        assert(gutter.take(j + 1) =~= gutter.take(j as int).push(shown(chunk@[j as int])));
        j = j + 1;
        assert(out@ =~= body + gutter.take(j as int));
    }
    assert(gutter.take(chunk@.len() as int) =~= gutter);
    assert(out@ =~= hex_line(offset as nat, chunk@));
    out
}

/// The rows of a dump.
pub fn format_hex_rows(bytes: &[u8], start_offset: usize) -> (r: Vec<String>)
    requires
        start_offset + bytes.len() <= usize::MAX,
    ensures
        views(r@) == hex_rows(bytes@, start_offset as nat),
{
    let mut rows: Vec<String> = Vec::new();
    let mut pos: usize = 0;
    while pos < bytes.len()
        invariant
            start_offset + bytes.len() <= usize::MAX,
            pos == 16 * rows.len() || (pos == bytes.len() && rows.len() == row_count(
                bytes@.len(),
            )),
            pos <= bytes.len(),
            pos < bytes.len() ==> rows.len() < row_count(bytes@.len()),
            pos == bytes.len() ==> rows.len() == row_count(bytes@.len()),
            views(rows@) == hex_rows(bytes@, start_offset as nat).take(rows.len() as int),
        decreases bytes.len() - pos,
    {
        let ghost n = rows@.len() as int;
        let end: usize = if bytes.len() - pos >= 16 {
            pos + 16
        } else {
            bytes.len()
        };
        let mut chunk: Vec<u8> = Vec::new();
        let mut k: usize = pos;
        while k < end
            invariant
                pos <= k <= end <= bytes.len(),
                chunk@ == bytes@.subrange(pos as int, k as int),
            decreases end - k,
        {
            chunk.push(bytes[k]);
            k = k + 1;
            assert(chunk@ =~= bytes@.subrange(pos as int, k as int));
        }
        let ghost before = rows@;
        let line = format_hex_line(start_offset + pos, chunk.as_slice());
        assert(chunk@ == row_bytes(bytes@, n));
        rows.push(line);
        assert(views(rows@) =~= views(before).push(line@));
        pos = end;
        assert(views(rows@) =~= hex_rows(bytes@, start_offset as nat).take(rows.len() as int));
    }
    assert(hex_rows(bytes@, start_offset as nat).take(rows.len() as int) =~= hex_rows(
        bytes@,
        start_offset as nat,
    ));
    rows
}

/// A dump of `bytes`, sixteen to a row, without a line break at the end.
pub fn format_hex_dump(bytes: &[u8], start_offset: usize) -> (r: String)
    requires
        start_offset + bytes.len() <= usize::MAX,
    ensures
        r@ == hex_dump(bytes@, start_offset as nat),
{
    crate::text::join(&format_hex_rows(bytes, start_offset), "\n")
}

} // verus!
