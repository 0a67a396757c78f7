//! Paged read-only view of raw bytes.

use vstd::prelude::*;
use vstd::arithmetic::div_mod::{lemma_div_is_ordered, lemma_fundamental_div_mod, lemma_mod_bound};
use crate::digits::{dec, digits, hex_pad, parse_unsigned, parsed, push_digits, push_hex, zeros};
use crate::hexdump::{format_hex_rows, hex_rows};
use crate::text::{chars_of, stripped, trim, trim_start_matches, trimmed, views};

verus! {

broadcast use vstd::seq_lib::group_seq_properties;

/// Where a byte view stands: the page, its size, and the selected offset.
#[derive(Clone, Copy, Debug)]
pub struct HexViewState {
    /// The page on display, counted from zero.
    pub page: usize,
    /// The number of bytes on a page.
    pub bytes_per_page: usize,
    /// The offset of the selected byte.
    pub selected_offset: Option<usize>,
}

impl Default for HexViewState {
    fn default() -> (r: Self)
        ensures
            r == (HexViewState { page: 0, bytes_per_page: 1024, selected_offset: None }),
    {
        HexViewState { page: 0, bytes_per_page: 1024, selected_offset: None }
    }
}

/// The number of pages for `n` bytes: as many full pages as there are, and one
/// for the rest. Pages of size zero make one page.
pub open spec fn page_count(n: nat, size: nat) -> nat {
    if size == 0 {
        1
    } else {
        n / size + (if n % size > 0 {
            1nat
        } else {
            0
        })
    }
}

/// The number of pages for a number of bytes.
pub fn total_pages(byte_count: usize, bytes_per_page: usize) -> (r: usize)
    ensures
        r == page_count(byte_count as nat, bytes_per_page as nat),
{
    if bytes_per_page == 0 {
        return 1;
    }
    proof {
        lemma_fundamental_div_mod(byte_count as int, bytes_per_page as int);
        assert(byte_count as int / bytes_per_page as int <= byte_count) by (nonlinear_arith)
            requires
                bytes_per_page >= 1,
                byte_count >= 0,
        ;
        assert(byte_count / bytes_per_page == byte_count ==> byte_count % bytes_per_page == 0)
            by (nonlinear_arith)
            requires
                bytes_per_page >= 1,
                byte_count == bytes_per_page * (byte_count / bytes_per_page) + byte_count
                    % bytes_per_page,
                byte_count % bytes_per_page >= 0,
        ;
    }
    let q: usize = byte_count / bytes_per_page;
    if byte_count % bytes_per_page > 0 {
        q + 1
    } else {
        q
    }
}

/// A page is one of those that there are.
pub open spec fn on_a_page(s: HexViewState, n: nat) -> bool {
    s.page < page_count(n, s.bytes_per_page as nat)
}

/// Brings the page back to the last one where it lies behind the end.
pub fn clamp_page(state: &mut HexViewState, byte_count: usize)
    ensures
        final(state).page == if on_a_page(*old(state), byte_count as nat) {
            old(state).page as int
        } else if page_count(byte_count as nat, old(state).bytes_per_page as nat) > 0 {
            page_count(byte_count as nat, old(state).bytes_per_page as nat) - 1
        } else {
            0
        },
        *final(state) == (HexViewState { page: final(state).page, ..*old(state) }),
{
    let total = total_pages(byte_count, state.bytes_per_page);
    if state.page >= total {
        state.page = if total > 0 {
            total - 1
        } else {
            0
        };
    }
}

/// The buttons that turn pages.
#[derive(Clone, Copy, PartialEq, Eq, Structural)]
pub enum PageTurn {
    First,
    Prev,
    Next,
    Last,
}

/// Whether a button is live on this page.
pub open spec fn can_turn(page: int, total: int, turn: PageTurn) -> bool {
    match turn {
        PageTurn::First | PageTurn::Prev => page != 0,
        PageTurn::Next | PageTurn::Last => page + 1 < total,
    }
}

/// The page that a live button leads to.
pub open spec fn turned(page: int, total: int, turn: PageTurn) -> int {
    match turn {
        PageTurn::First => 0,
        PageTurn::Prev => page - 1,
        PageTurn::Next => page + 1,
        PageTurn::Last => total - 1,
    }
}

/// Whether a button is live on this page.
pub fn turn_enabled(state: &HexViewState, total: usize, turn: PageTurn) -> (r: bool)
    ensures
        r == can_turn(state.page as int, total as int, turn),
{
    match turn {
        PageTurn::First | PageTurn::Prev => state.page != 0,
        PageTurn::Next | PageTurn::Last => total > 0 && state.page < total - 1,
    }
}

/// Turns the page, where the button is live.
pub fn turn_page(state: &mut HexViewState, total: usize, turn: PageTurn)
    ensures
        final(state).page == if can_turn(old(state).page as int, total as int, turn) {
            turned(old(state).page as int, total as int, turn)
        } else {
            old(state).page as int
        },
        *final(state) == (HexViewState { page: final(state).page, ..*old(state) }),
{
    if turn_enabled(state, total, turn) {
        state.page = match turn {
            PageTurn::First => 0,
            PageTurn::Prev => state.page - 1,
            PageTurn::Next => state.page + 1,
            PageTurn::Last => total - 1,
        };
    }
}

/// A page that there is stays one however pages are turned.
pub proof fn law_turning_stays_on_a_page(page: int, total: int, turn: PageTurn)
    requires
        0 <= page < total,
    ensures
        can_turn(page, total, turn) ==> 0 <= turned(page, total, turn) < total,
{
}

/// The next page and back is the same page, and so is the previous page and forth.
pub proof fn law_next_prev_return(page: int, total: int)
    requires
        0 <= page < total,
    ensures
        can_turn(page, total, PageTurn::Next) ==> turned(
            turned(page, total, PageTurn::Next),
            total,
            PageTurn::Prev,
        ) == page && can_turn(turned(page, total, PageTurn::Next), total, PageTurn::Prev),
        can_turn(page, total, PageTurn::Prev) ==> turned(
            turned(page, total, PageTurn::Prev),
            total,
            PageTurn::Next,
        ) == page && can_turn(turned(page, total, PageTurn::Prev), total, PageTurn::Next),
{
}

/// The offset of the first byte of the page.
pub open spec fn page_start(s: HexViewState) -> int {
    s.page * s.bytes_per_page
}

/// The offset behind the last byte of the page.
pub open spec fn page_end(s: HexViewState, n: int) -> int {
    if page_start(s) + s.bytes_per_page <= n {
        page_start(s) + s.bytes_per_page
    } else {
        n
    }
}

proof fn lemma_page_in_bytes(s: HexViewState, n: nat)
    requires
        on_a_page(s, n),
    ensures
        0 <= page_start(s) <= n,
        s.bytes_per_page > 0 ==> page_start(s) < n,
        page_start(s) <= page_end(s, n as int) <= n,
{
    let b = s.bytes_per_page as int;
    if b > 0 {
        lemma_fundamental_div_mod(n as int, b);
        let q = n as int / b;
        let p = s.page as int;
        if p < q {
            assert(p * b + b <= b * q) by (nonlinear_arith)
                requires
                    p + 1 <= q,
                    b > 0,
            ;
        } else {
            assert(p == q);
            assert(p * b == b * q) by (nonlinear_arith)
                requires
                    p == q,
            ;
        }
        assert(p * b >= 0) by (nonlinear_arith)
            requires
                p >= 0,
                b > 0,
        ;
        lemma_mod_bound(n as int, b);
        assert(page_start(s) == p * b);
    } else {
        assert(s.page * s.bytes_per_page == 0) by (nonlinear_arith)
            requires
                s.bytes_per_page == 0,
        ;
    }
}

/// The byte range of the page on display.
pub fn page_range(state: &HexViewState, byte_count: usize) -> (r: (usize, usize))
    requires
        on_a_page(*state, byte_count as nat),
    ensures
        r.0 == page_start(*state),
        r.1 == page_end(*state, byte_count as int),
        r.0 <= r.1 <= byte_count,
{
    proof {
        lemma_page_in_bytes(*state, byte_count as nat);
    }
    let start: usize = state.page * state.bytes_per_page;
    let end: usize = if byte_count - start >= state.bytes_per_page {
        start + state.bytes_per_page
    } else {
        byte_count
    };
    (start, end)
}

/// Every byte stands on one page: the one that its offset divided by the page size gives.
pub proof fn law_every_byte_on_its_page(n: nat, offset: nat, size: nat)
    requires
        size > 0,
        offset < n,
        n <= usize::MAX,
        size <= usize::MAX,
    ensures
        ({
            let s = HexViewState {
                page: (offset / size) as usize,
                bytes_per_page: size as usize,
                selected_offset: Some(offset as usize),
            };
            on_a_page(s, n) && page_start(s) <= offset < page_end(s, n as int)
        }),
{
    lemma_fundamental_div_mod(offset as int, size as int);
    lemma_fundamental_div_mod(n as int, size as int);
    assert(offset / size <= offset) by (nonlinear_arith)
        requires
            size >= 1,
    ;
    let q = offset as int / size as int;
    assert(q * size == size * q) by (nonlinear_arith);
    lemma_div_is_ordered(offset as int, n as int, size as int);
    if q == n as int / size as int {
        assert(n % size > 0);
    }
}

/// The line that says which page of how many is on display.
pub open spec fn page_line(page: nat, total: nat, bytes: nat) -> Seq<char> {
    "Page "@ + dec(page + 1) + "/"@ + dec(if total == 0 {
        1
    } else {
        total
    }) + " — "@ + dec(bytes) + " bytes total"@
}

/// The line that says which page of how many is on display.
pub fn page_label(state: &HexViewState, byte_count: usize) -> (r: String)
    requires
        on_a_page(*state, byte_count as nat),
    ensures
        r@ == page_line(
            state.page as nat,
            page_count(byte_count as nat, state.bytes_per_page as nat),
            byte_count as nat,
        ),
{
    let total = total_pages(byte_count, state.bytes_per_page);
    let mut s = "Page ".to_owned();
    push_digits(&mut s, state.page as u64 + 1, 10, false);
    s.push_str("/");
    push_digits(
        &mut s,
        if total == 0 {
            1
        } else {
            total as u64
        },
        10,
        false,
    );
    s.push_str(" — ");
    push_digits(&mut s, byte_count as u64, 10, false);
    s.push_str(" bytes total");
    s
}

/// The line that says which offsets are on display.
pub open spec fn range_line(start: nat, end: nat) -> Seq<char> {
    "Range 0x"@ + hex_pad(start, 8, true) + " – 0x"@ + hex_pad(
        (if end > 0 {
            end - 1
        } else {
            0
        }) as nat,
        8,
        true,
    )
}

/// The line that says which offsets are on display.
pub fn range_label(state: &HexViewState, byte_count: usize) -> (r: String)
    requires
        on_a_page(*state, byte_count as nat),
    ensures
        r@ == range_line(
            page_start(*state) as nat,
            page_end(*state, byte_count as int) as nat,
        ),
{
    let (start, end) = page_range(state, byte_count);
    let mut s = "Range 0x".to_owned();
    push_hex(&mut s, start as u64, 8, true);
    s.push_str(" – 0x");
    push_hex(
        &mut s,
        if end > 0 {
            end as u64 - 1
        } else {
            0
        },
        8,
        true,
    );
    s
}

/// Lines in order, each with a line break behind it.
pub open spec fn lines_of(rows: Seq<Seq<char>>) -> Seq<char>
    decreases rows.len(),
{
    if rows.len() == 0 {
        Seq::empty()
    } else {
        lines_of(rows.drop_last()) + rows.last() + "\n"@
    }
}

/// The page on display as text.
pub fn page_text(bytes: &[u8], state: &HexViewState) -> (r: String)
    requires
        on_a_page(*state, bytes@.len()),
    ensures
        r@ == lines_of(
            hex_rows(
                bytes@.subrange(page_start(*state), page_end(*state, bytes@.len() as int)),
                page_start(*state) as nat,
            ),
        ),
{
    let (start, end) = page_range(state, bytes.len());
    let page = vstd::slice::slice_subrange(bytes, start, end);
    let rows = format_hex_rows(page, start);
    let mut text = String::new();
    let mut i: usize = 0;
    assert(views(rows@).take(0) =~= Seq::empty());
    while i < rows.len()
        invariant
            0 <= i <= rows.len(),
            text@ == lines_of(views(rows@).take(i as int)),
        decreases rows.len() - i,
    {
        text.push_str(rows[i].as_str());
        text.push_str("\n");
        assert(views(rows@).take(i + 1).drop_last() =~= views(rows@).take(i as int));
        i = i + 1;
    }
    assert(views(rows@).take(rows.len() as int) =~= views(rows@));
    text
}

/// The offset field as it stands: the selected offset in hexadecimal.
pub fn offset_input(state: &HexViewState) -> (r: String)
    ensures
        r@ == match state.selected_offset {
            Some(o) => digits(o as nat, 16, true),
            None => Seq::empty(),
        },
{
    let mut s = String::new();
    match state.selected_offset {
        Some(o) => {
            push_digits(&mut s, o as u64, 16, true);
            assert(s@ =~= digits(o as nat, 16, true));
        },
        None => {},
    }
    s
}

/// The offset that a text names: hexadecimal digits, blanks around and `0x` before them ignored.
pub open spec fn typed_offset(input: Seq<char>) -> Option<nat> {
    parsed(stripped(trimmed(input), "0x"@), 16, usize::MAX as nat)
}

/// The text names nothing: it is blank or `0x` alone.
pub open spec fn typed_nothing(input: Seq<char>) -> bool {
    stripped(trimmed(input), "0x"@).len() == 0
}

/// Takes in what was typed into the offset field. A blank text clears the
/// selection; an offset of a byte selects it and turns to its page; any other
/// text changes nothing.
pub fn type_offset(state: &mut HexViewState, input: &str, byte_count: usize)
    requires
        old(state).bytes_per_page > 0,
    ensures
        typed_nothing(input@) ==> *final(state) == (HexViewState {
            selected_offset: None,
            ..*old(state)
        }),
        !typed_nothing(input@) ==> match typed_offset(input@) {
            Some(o) if o < byte_count => *final(state) == (HexViewState {
                selected_offset: Some(o as usize),
                page: (o / old(state).bytes_per_page as nat) as usize,
                ..*old(state)
            }),
            _ => *final(state) == *old(state),
        },
{
    let t = trim(input);
    let digits_part = trim_start_matches(t.as_str(), "0x");
    if digits_part.as_str().is_empty() {
        state.selected_offset = None;
    } else {
        match parse_unsigned(digits_part.as_str(), 16, usize::MAX as u64) {
            Some(o) => {
                if o < byte_count as u64 {
                    let off: usize = o as usize;
                    state.selected_offset = Some(off);
                    state.page = off / state.bytes_per_page;
                }
            },
            None => {},
        }
    }
}

/// The character of a byte in quotes, or a dot where it is not printable.
pub open spec fn shown_label(b: u8) -> Seq<char> {
    if 0x20 <= b < 0x7F {
        seq!['\'', b as char, '\'']
    } else {
        seq!['.']
    }
}

/// The character of a byte in quotes, or a dot where it is not printable.
pub fn printable_label(b: u8) -> (r: String)
    ensures
        r@ == shown_label(b),
{
    let mut s = String::new();
    if 0x20 <= b && b < 0x7F {
        s.push('\'');
        s.push(b as char);
        s.push('\'');
    } else {
        s.push('.');
    }
    assert(s@ =~= shown_label(b));
    s
}

/// A byte in binary with eight digits.
pub open spec fn binary(b: u8) -> Seq<char> {
    let d = digits(b as nat, 2, false);
    "0b"@ + zeros((8 - d.len()) as nat) + d
}

proof fn lemma_binary_len(n: nat, k: nat)
    requires
        n < vstd::arithmetic::power2::pow2(k),
        k >= 1,
    ensures
        1 <= digits(n, 2, false).len() <= k,
    decreases k,
{
    reveal(vstd::arithmetic::power2::pow2);
    if n >= 2 {
        vstd::arithmetic::power2::lemma_pow2_unfold(k);
        if k == 1 {
            vstd::arithmetic::power2::lemma2_to64();
        } else {
            lemma_binary_len(n / 2, (k - 1) as nat);
        }
    }
}

fn push_binary(s: &mut String, b: u8)
    ensures
        final(s)@ == old(s)@ + binary(b),
{
    let ghost s0 = s@;
    proof {
        vstd::arithmetic::power2::lemma2_to64();
        lemma_binary_len(b as nat, 8);
    }
    s.push_str("0b");
    let mut d = String::new();
    push_digits(&mut d, b as u64, 2, false);
    let dv = chars_of(d.as_str());
    let mut k: usize = dv.len();
    assert(zeros(0) =~= Seq::<char>::empty());
    while k < 8
        invariant
            dv.len() <= k <= 8,
            s@ == s0 + "0b"@ + zeros((k - dv.len()) as nat),
        decreases 8 - k,
    {
        s.push('0');
        k = k + 1;
        assert(s@ =~= s0 + "0b"@ + zeros((k - dv.len()) as nat));
    }
    s.push_str(d.as_str());
    assert(s@ =~= s0 + binary(b));
}

/// The line on the selected byte.
pub open spec fn selection_line(off: nat, b: u8) -> Seq<char> {
    "Selected offset 0x"@ + hex_pad(off, 8, true) + " ("@ + dec(off) + "): byte = 0x"@ + hex_pad(
        b as nat,
        2,
        true,
    ) + " ("@ + shown_label(b) + ") ("@ + binary(b) + ")"@
}

/// The line on the selected byte, where one is selected that there is.
pub fn selection_label(bytes: &[u8], state: &HexViewState) -> (r: Option<String>)
    ensures
        match (r, state.selected_offset) {
            (Some(t), Some(o)) => o < bytes@.len() && t@ == selection_line(
                o as nat,
                bytes@[o as int],
            ),
            (None, Some(o)) => o >= bytes@.len(),
            (None, None) => true,
            (Some(_), None) => false,
        },
{
    match state.selected_offset {
        Some(o) => {
            if o >= bytes.len() {
                return None;
            }
            let b: u8 = bytes[o];
            let mut s = "Selected offset 0x".to_owned();
            push_hex(&mut s, o as u64, 8, true);
            s.push_str(" (");
            push_digits(&mut s, o as u64, 10, false);
            s.push_str("): byte = 0x");
            push_hex(&mut s, b as u64, 2, true);
            s.push_str(" (");
            s.push_str(printable_label(b).as_str());
            s.push_str(") (");
            push_binary(&mut s, b);
            s.push_str(")");
            Some(s)
        },
        None => None,
    }
}

} // verus!
