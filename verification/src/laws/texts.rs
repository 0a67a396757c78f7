//! Laws of texts and numbers: searching, trimming, splitting, ordering, writing
//! and reading.

use vstd::prelude::*;
use crate::digits::{
    dec, dec_text, digits, digits_value, law_digits_read_back, law_print_parse, parse_unsigned,
};
use crate::text::{
    after_last, all_white, behind_last, byte_len, byte_prefix, comes_before, contains, ends_with,
    is_white, join, joined, leaf_name, lemma_after_last_ending, lemma_split_nonempty, lines,
    occurs_at, remove_char, split, split_on, starts_with, strip_prefix, text_before, text_lines,
    to_ascii_lower, trim, trim_start_matches, trimmed_end, trimmed_start, views, without_leading,
};
use crate::ui::entry_table::parse_user_number;

verus! {

broadcast use vstd::seq_lib::group_seq_properties;

proof fn lemma_start(s: Seq<char>) -> (k: int)
    ensures
        0 <= k <= s.len(),
        trimmed_start(s) == s.skip(k),
        all_white(s.take(k)),
        k < s.len() ==> !is_white(s[k]),
    decreases s.len(),
{
    if s.len() > 0 && is_white(s[0]) {
        let d = s.drop_first();
        let j = lemma_start(d);
        assert(d.skip(j) =~= s.skip(j + 1));
        assert forall|i: int| 0 <= i < j + 1 implies is_white(#[trigger] s.take(j + 1)[i]) by {
            if i > 0 {
                assert(d.take(j)[i - 1] == s[i]);
            }
        }
        j + 1
    } else {
        assert(s.skip(0) =~= s);
        0
    }
}

proof fn lemma_end(s: Seq<char>) -> (k: int)
    ensures
        0 <= k <= s.len(),
        trimmed_end(s) == s.take(k),
        all_white(s.skip(k)),
        k > 0 ==> !is_white(s[k - 1]),
    decreases s.len(),
{
    if s.len() > 0 && is_white(s.last()) {
        let d = s.drop_last();
        let j = lemma_end(d);
        assert(d.take(j) =~= s.take(j));
        assert forall|i: int| 0 <= i < s.len() - j implies is_white(#[trigger] s.skip(j)[i]) by {
            if i < d.len() - j {
                assert(d.skip(j)[i] == s[j + i]);
            } else {
                assert(s.skip(j)[i] == s.last());
            }
        }
        j
    } else {
        assert(s.take(s.len() as int) =~= s);
        s.len() as int
    }
}

/// Trimming takes off white space alone, all of it at both ends, and nothing in
/// between.
pub proof fn law_trim(s: &str, r: String)
    requires
        call_ensures(trim, (s,), r),
    ensures
        exists|a: Seq<char>, b: Seq<char>|
            #![trigger all_white(a), all_white(b)]
            all_white(a) && all_white(b) && s@ == a + r@ + b,
        r@.len() > 0 ==> !is_white(r@[0]) && !is_white(r@[r@.len() - 1]),
{
    let i = lemma_start(s@);
    let t = s@.skip(i);
    let j = lemma_end(t);
    let (a, b) = (s@.take(i), t.skip(j));
    assert(all_white(a) && all_white(b));
    assert(s@ =~= a + t.take(j) + b);
    if j > 0 {
        assert(r@[0] == s@[i]);
    }
}

/// The white space of a text: blanks, tabs and line ends among it, and no letter,
/// digit or mark of ASCII.
pub proof fn law_white_space(c: char)
    ensures
        c == ' ' || c == '\t' || c == '\n' || c == '\r' ==> is_white(c),
        '!' <= c <= '~' ==> !is_white(c),
{
}

/// A text is found in another exactly where the other is that text with something
/// before and behind it, be it nothing.
pub proof fn law_contains(
    h: &str,
    n: &str,
    r: bool,
    before: Seq<char>,
    behind: Seq<char>,
)
    requires
        call_ensures(contains, (h, n), r),
    ensures
        h@ == before + n@ + behind ==> r,
        r ==> exists|a: Seq<char>, b: Seq<char>| h@ == #[trigger] (a + n@ + b),
{
    if h@ == before + n@ + behind {
        let i = before.len() as int;
        assert(h@.subrange(i, i + n@.len()) =~= n@);
        assert(occurs_at(h@, n@, i));
    }
    if r {
        let i = choose|i: int| occurs_at(h@, n@, i);
        let (a, b) = (h@.take(i), h@.skip(i + n@.len()));
        assert(h@ =~= a + n@ + b);
    }
}

/// A text begins with another exactly where it is that and something behind it,
/// and what is stripped is that beginning.
pub proof fn law_starts_with(s: &str, p: &str, r: bool, rest: Option<String>, behind: Seq<char>)
    requires
        call_ensures(starts_with, (s, p), r),
        call_ensures(strip_prefix, (s, p), rest),
    ensures
        s@ == p@ + behind ==> r,
        r == (rest is Some),
        rest is Some ==> s@ == p@ + rest->Some_0@,
{
    if s@ == p@ + behind {
        assert(s@.take(p@.len() as int) =~= p@);
    }
    if rest is Some {
        assert(s@ =~= s@.take(p@.len() as int) + rest->Some_0@);
    }
}

/// A text ends with another exactly where it is something and that behind it.
pub proof fn law_ends_with(s: &str, p: &str, r: bool, before: Seq<char>)
    requires
        call_ensures(ends_with, (s, p), r),
    ensures
        s@ == before + p@ ==> r,
        r ==> exists|a: Seq<char>| s@ == #[trigger] (a + p@),
{
    if s@ == before + p@ {
        assert(s@.skip(s@.len() - p@.len()) =~= p@);
    }
    if r {
        let a = s@.take(s@.len() - p@.len());
        assert(s@ =~= a + p@);
    }
}

proof fn lemma_pieces(s: Seq<char>, sep: char)
    ensures
        split_on(s, sep).len() >= 1,
        joined(split_on(s, sep), seq![sep]) == s,
        forall|i: int| 0 <= i < split_on(s, sep).len() ==> !(#[trigger] split_on(s, sep)[i]).contains(sep),
    decreases s.len(),
{
    let p = split_on(s, sep);
    if s.len() == 0 {
        assert(joined(p, seq![sep]) =~= s);
    } else {
        let d = s.drop_last();
        let c = s.last();
        let q = split_on(d, sep);
        lemma_pieces(d, sep);
        if c == sep {
            assert(p.drop_last() =~= q);
            assert(joined(p, seq![sep]) =~= d + seq![sep] + Seq::<char>::empty());
            assert(s =~= d + seq![sep] + Seq::<char>::empty());
        } else {
            let x = q.last();
            assert(p.drop_last() =~= q.drop_last());
            if q.len() == 1 {
                assert(q[0] == d);
                assert(s =~= d.push(c));
            } else {
                let head = joined(q.drop_last(), seq![sep]);
                assert(d == head + seq![sep] + x);
                assert(joined(p, seq![sep]) =~= head + seq![sep] + x.push(c));
                assert(s =~= d.push(c));
                assert((head + seq![sep] + x).push(c) =~= head + seq![sep] + x.push(c));
            }
            assert forall|i: int| 0 <= i < p.len() implies !(#[trigger] p[i]).contains(sep) by {
                if i < p.len() - 1 {
                    assert(p[i] == q[i]);
                } else if p[i].contains(sep) {
                    let j = choose|j: int| 0 <= j < p[i].len() && p[i][j] == sep;
                    assert(x[j] == sep);
                }
            }
        }
    }
}

/// A text that is split has pieces without the separator that joined by it are
/// the text again.
pub proof fn law_split_and_join(s: &str, sep: char, r: Vec<String>, i: int)
    requires
        call_ensures(split, (s, sep), r),
        0 <= i < r@.len(),
    ensures
        !r@[i]@.contains(sep),
        joined(views(r@), seq![sep]) == s@,
{
    lemma_pieces(s@, sep);
    assert(views(r@)[i] == r@[i]@);
}

/// Joined texts stand in order with the separator between each two.
pub proof fn law_join(v: &Vec<String>, sep: &str, r: String)
    requires
        call_ensures(join, (v, sep), r),
    ensures
        v@.len() == 0 ==> r@.len() == 0,
        v@.len() == 1 ==> r@ == v@[0]@,
        v@.len() == 2 ==> r@ == v@[0]@ + sep@ + v@[1]@,
        v@.len() == 3 ==> r@ == v@[0]@ + sep@ + v@[1]@ + sep@ + v@[2]@,
{
    reveal_with_fuel(joined, 4);
    let w = views(v@);
    if v@.len() > 0 {
        assert(w[0] == v@[0]@);
    }
    if v@.len() > 1 {
        assert(w[1] == v@[1]@);
    }
    if v@.len() > 2 {
        assert(w[2] == v@[2]@);
    }
}

/// Of two texts the one whose character is less at the first place where they
/// differ comes first; and a text comes before what only goes on behind it.
pub proof fn law_order_of_texts(
    a: &str,
    b: &str,
    r: bool,
    same: Seq<char>,
    x: char,
    y: char,
    s: Seq<char>,
    t: Seq<char>,
)
    requires
        call_ensures(comes_before, (a, b), r),
    ensures
        a@ == same + seq![x] + s && b@ == same + seq![y] + t && x != y ==> r == ((x as u32) < (
        y as u32)),
        b@ == a@ + seq![y] + t ==> r,
        a@ == b@ + seq![x] + s ==> !r,
{
    if a@ == same + seq![x] + s && b@ == same + seq![y] + t && x != y {
        lemma_order(same, x, y, s, t);
    }
    if b@ == a@ + seq![y] + t {
        lemma_shorter_first(a@, y, t);
    }
    if a@ == b@ + seq![x] + s {
        lemma_shorter_first(b@, x, s);
        crate::text::law_text_order(a@, b@, a@);
    }
}

proof fn lemma_order(same: Seq<char>, x: char, y: char, s: Seq<char>, t: Seq<char>)
    requires
        x != y,
    ensures
        text_before(same + seq![x] + s, same + seq![y] + t) == ((x as u32) < (y as u32)),
    decreases same.len(),
{
    let (a, b) = (same + seq![x] + s, same + seq![y] + t);
    if same.len() == 0 {
        assert(a[0] == x && b[0] == y);
    } else {
        let d = same.drop_first();
        lemma_order(d, x, y, s, t);
        assert(a[0] == same[0] && b[0] == same[0]);
        assert(a.drop_first() =~= d + seq![x] + s);
        assert(b.drop_first() =~= d + seq![y] + t);
    }
}

proof fn lemma_shorter_first(a: Seq<char>, y: char, t: Seq<char>)
    ensures
        text_before(a, a + seq![y] + t),
    decreases a.len(),
{
    let b = a + seq![y] + t;
    if a.len() > 0 {
        lemma_shorter_first(a.drop_first(), y, t);
        assert(b[0] == a[0]);
        assert(b.drop_first() =~= a.drop_first() + seq![y] + t);
    }
}

/// What stands behind the last occurrence of a character is the end of the text
/// and holds no such character; before it stands that character, or nothing.
pub proof fn law_behind_last(s: &str, c: char, r: String)
    requires
        call_ensures(behind_last, (s, c), r),
    ensures
        !r@.contains(c),
        exists|a: Seq<char>| #![auto] s@ == a + r@ && (a.len() == 0 || a[a.len() - 1] == c),
{
    lemma_after_last_ending(s@, c);
    let a = s@.take(s@.len() - r@.len());
    assert(s@ =~= a + r@);
    lemma_before_last(s@, c);
}

proof fn lemma_before_last(s: Seq<char>, c: char)
    ensures
        after_last(s, c).len() <= s.len(),
        after_last(s, c).len() < s.len() ==> s[s.len() - after_last(s, c).len() - 1] == c,
    decreases s.len(),
{
    if s.len() > 0 && s.last() != c {
        lemma_before_last(s.drop_last(), c);
    }
}

/// The characters that are left without a character are the others, in order.
pub proof fn law_removed_character(s: &str, c: char, r: String, x: char)
    requires
        call_ensures(remove_char, (s, c), r),
    ensures
        !r@.contains(c),
        x != c ==> r@.contains(x) == s@.contains(x),
        !s@.contains(c) ==> r@.len() == s@.len(),
{
    let keep = crate::text::other_than(c);
    if r@.contains(c) {
        let i = choose|i: int| 0 <= i < r@.len() && r@[i] == c;
        s@.lemma_filter_pred(keep, i);
    }
    if x != c && s@.contains(x) {
        let i = choose|i: int| 0 <= i < s@.len() && s@[i] == x;
        s@.lemma_filter_contains(keep, i);
    }
    if r@.contains(x) {
        s@.lemma_filter_contains_rev(keep, x);
    }
    if !s@.contains(c) {
        lemma_nothing_removed(s@, c);
    }
}

proof fn lemma_nothing_removed(s: Seq<char>, c: char)
    requires
        !s.contains(c),
    ensures
        s.filter(crate::text::other_than(c)).len() == s.len(),
    decreases s.len(),
{
    reveal(Seq::filter);
    if s.len() > 0 {
        let d = s.drop_last();
        assert(s.contains(s.last()));
        if d.contains(c) {
            let i = choose|i: int| 0 <= i < d.len() && d[i] == c;
            assert(s[i] == c);
        }
        lemma_nothing_removed(d, c);
    }
}

/// A text cut behind a number of bytes is a beginning of it with so many bytes.
pub proof fn law_byte_prefix(s: &str, n: usize, r: Option<String>, k: int)
    requires
        call_ensures(byte_prefix, (s, n), r),
    ensures
        r is Some ==> byte_len(r->Some_0@) == n && exists|b: Seq<char>| #![auto] s@ == r->Some_0@ + b,
        0 <= k <= s@.len() && byte_len(s@.take(k)) == n ==> r == Some(r->Some_0) && r->Some_0@
            == s@.take(k),
{
    if r is Some {
        let j = choose|j: int| crate::text::cut_at(s@, n as nat, j);
        crate::text::lemma_one_cut(s@, n as nat, j);
        assert(s@ =~= s@.take(j) + s@.skip(j));
    }
    if 0 <= k <= s@.len() && byte_len(s@.take(k)) == n {
        assert(crate::text::cut_at(s@, n as nat, k));
        crate::text::lemma_one_cut(s@, n as nat, k);
    }
}

/// A number is written in decimal with the digits from `0` to `9`, the last of
/// which is its remainder by ten, and without a zero in front.
pub proof fn law_decimal(n: u64, r: String)
    requires
        call_ensures(dec_text, (n,), r),
    ensures
        r@.len() >= 1,
        '0' <= r@[r@.len() - 1] <= '9',
        r@[r@.len() - 1] as u32 == 48 + n % 10,
        n < 10 ==> r@.len() == 1,
        n >= 10 ==> r@.drop_last() == dec((n / 10) as nat),
        n > 0 ==> r@[0] != '0',
{
    lemma_no_zero_in_front(n as nat);
    law_digits_read_back(n as nat, 10, false);
    if n >= 10 {
        assert(r@.drop_last() =~= dec((n / 10) as nat));
    }
}

proof fn lemma_no_zero_in_front(n: nat)
    ensures
        digits(n, 10, false).len() >= 1,
        n > 0 ==> digits(n, 10, false)[0] != '0',
    decreases n,
{
    if n >= 10 {
        lemma_no_zero_in_front(n / 10);
    }
}

/// What is written in decimal, or in hexadecimal behind `0x`, is read as the
/// number that was written.
pub proof fn law_typed_numbers_are_read(
    n: u64,
    upper: bool,
    decimal: &str,
    hexadecimal: &str,
    a: Option<u64>,
    b: Option<u64>,
    c: Option<u64>,
)
    requires
        decimal@ == digits(n as nat, 10, false),
        hexadecimal@ == "0x"@ + digits(n as nat, 16, upper),
        call_ensures(parse_user_number, (decimal,), a),
        call_ensures(parse_user_number, (hexadecimal,), b),
        call_ensures(parse_unsigned, (decimal, 10u64, u64::MAX), c),
    ensures
        a == Some(n),
        b == Some(n),
        c == Some(n),
{
    reveal_strlit("0x");
    reveal_strlit("0X");
    law_print_parse(n as nat, 10, false, u64::MAX as nat);
    law_print_parse(n as nat, 16, upper, u64::MAX as nat);
    lemma_digit_chars(n as nat, 10, false);
    lemma_digit_chars(n as nat, 16, upper);
    let d = decimal@;
    if d.len() >= 2 {
        assert(d.take(2)[1] == d[1]);
    }
    assert(hexadecimal@.take(2) =~= "0x"@);
    assert(hexadecimal@.skip(2) =~= digits(n as nat, 16, upper));
}

proof fn lemma_digit_chars(n: nat, radix: nat, upper: bool)
    requires
        radix == 10 || radix == 16,
    ensures
        digits(n, radix, upper).len() >= 1,
        forall|i: int|
            0 <= i < digits(n, radix, upper).len() ==> {
                let c = #[trigger] digits(n, radix, upper)[i];
                &&& c != '+'
                &&& c != 'x'
                &&& c != 'X'
            },
    decreases n,
{
    if n >= radix {
        assert(n / radix < n) by (nonlinear_arith)
            requires
                radix >= 10,
                n >= radix,
        ;
        lemma_digit_chars(n / radix, radix, upper);
        assert(n % radix < radix) by (nonlinear_arith)
            requires
                radix >= 10,
        ;
    }
}

/// Digits are written in base sixteen as their value times sixteen and the next.
pub proof fn law_value_of_digits(s: Seq<char>, c: char, radix: nat)
    requires
        radix == 10 || radix == 16,
    ensures
        digits_value(Seq::<char>::empty(), radix) == Some(0nat),
        '0' <= c <= '9' && digits_value(s, radix) is Some ==> digits_value(s.push(c), radix) == Some(
            (digits_value(s, radix)->Some_0 * radix + (c as u32 - 48)) as nat,
        ),
        radix == 16 && 'a' <= c <= 'f' && digits_value(s, radix) is Some ==> digits_value(
            s.push(c),
            radix,
        ) == Some((digits_value(s, radix)->Some_0 * radix + (c as u32 - 87)) as nat),
        radix == 16 && 'A' <= c <= 'F' && digits_value(s, radix) is Some ==> digits_value(
            s.push(c),
            radix,
        ) == Some((digits_value(s, radix)->Some_0 * radix + (c as u32 - 55)) as nat),
        !('0' <= c <= '9') && !(radix == 16 && ('a' <= c <= 'f' || 'A' <= c <= 'F'))
            ==> digits_value(s.push(c), radix) is None,
{
    assert(s.push(c).drop_last() =~= s);
}

/// A text in lowercase has a small letter for each capital one of ASCII, and every
/// other character as it was.
pub proof fn law_ascii_lowercase(s: &str, r: String, i: int)
    requires
        call_ensures(to_ascii_lower, (s,), r),
        0 <= i < s@.len(),
    ensures
        r@.len() == s@.len(),
        'A' <= s@[i] <= 'Z' ==> r@[i] as u32 == s@[i] as u32 + 32,
        !('A' <= s@[i] <= 'Z') ==> r@[i] == s@[i],
{
}

/// The last name of a path is behind its last dot, without underscores before it.
pub proof fn law_last_name(s: &str, r: String, parent: Seq<char>)
    requires
        call_ensures(leaf_name, (s,), r),
    ensures
        r@.len() > 0 ==> r@[0] != '_',
        !s@.contains('.') && s@.len() > 0 && s@[0] != '_' ==> r@ == s@,
        !s@.contains('.') ==> without_leading(after_last(parent + seq!['.'] + s@, '.'), '_') == r@,
        without_leading("_"@ + r@, '_') == r@,
{
    reveal_strlit("_");
    crate::text::lemma_without_leading_ending(after_last(s@, '.'), '_');
    if !s@.contains('.') {
        crate::text::lemma_after_last_whole(s@, '.');
        crate::text::lemma_after_last_concat(parent + seq!['.'], s@, '.');
        assert(after_last(parent + seq!['.'], '.') =~= Seq::<char>::empty());
        assert(Seq::<char>::empty() + s@ =~= s@);
    }
    let u = "_"@ + r@;
    assert(u.drop_first() =~= r@);
    lemma_no_leading(after_last(s@, '.'), '_');
    assert(without_leading(r@, '_') == r@);
}

proof fn lemma_no_leading(s: Seq<char>, c: char)
    ensures
        without_leading(s, c).len() > 0 ==> without_leading(s, c)[0] != c,
    decreases s.len(),
{
    if s.len() > 0 && s[0] == c {
        lemma_no_leading(s.drop_first(), c);
    }
}

/// The lines of a text: a line break ends the first line, and the rest are the
/// lines behind it. A text without one is a line, and no text is none.
pub proof fn law_lines(s: &str, r: Vec<String>, a: Seq<char>, b: Seq<char>)
    requires
        call_ensures(lines, (s,), r),
        !a.contains('\n'),
    ensures
        s@.len() == 0 ==> r@.len() == 0,
        s@.len() > 0 && !s@.contains('\n') ==> views(r@) == seq![s@],
        s@ == a + seq!['\n'] + b && (a.len() == 0 || a.last() != '\r') ==> views(r@) == seq![a]
            + text_lines(b),
        s@ == a + seq!['\r', '\n'] + b && (a.len() == 0 || a.last() != '\r') ==> views(r@)
            == seq![a] + text_lines(b),
{
    if !s@.contains('\n') {
        crate::text::lemma_split_whole(s@, '\n');
        assert(views(r@) =~= if s@.len() == 0 {
            Seq::empty()
        } else {
            seq![s@]
        });
        assert(views(r@).len() == r@.len());
    }
    lemma_first_line(a, b, a);
    let c = a.push('\r');
    assert(!c.contains('\n')) by {
        if c.contains('\n') {
            let i = choose|i: int| 0 <= i < c.len() && c[i] == '\n';
            assert(a[i] == '\n');
        }
    }
    assert(c.drop_last() =~= a);
    lemma_first_line(c, b, a);
    assert(a + seq!['\r', '\n'] + b =~= c + seq!['\n'] + b);
}

proof fn lemma_first_line(a: Seq<char>, b: Seq<char>, first: Seq<char>)
    requires
        !a.contains('\n'),
    ensures
        first == crate::text::without_return(a) ==> text_lines(a + seq!['\n'] + b) == seq![first]
            + text_lines(b),
{
    crate::text::lemma_split_concat(a, b, '\n');
    crate::text::lemma_split_whole(a, '\n');
    lemma_split_nonempty(b, '\n');
    let (p, q) = (split_on(a + seq!['\n'] + b, '\n'), split_on(b, '\n'));
    assert(p == seq![a] + q);
    assert(p.last() == q.last());
    assert(p.drop_last() =~= seq![a] + q.drop_last());
    if first == crate::text::without_return(a) {
        assert(text_lines(a + seq!['\n'] + b) =~= seq![first] + text_lines(b));
    }
}

/// What is stripped off the start of a text is gone from there, as often as it
/// stood there.
pub proof fn law_stripped_start(s: &str, p: &str, r: String, t: Seq<char>)
    requires
        call_ensures(trim_start_matches, (s, p), r),
        p@.len() > 0,
    ensures
        !crate::text::has_prefix(r@, p@),
        s@ == p@ + t ==> r@ == crate::text::stripped(t, p@),
        !crate::text::has_prefix(s@, p@) ==> r@ == s@,
{
    lemma_stripped(s@, p@);
    if s@ == p@ + t {
        assert(s@.take(p@.len() as int) =~= p@);
        assert(s@.skip(p@.len() as int) =~= t);
    }
}

proof fn lemma_stripped(s: Seq<char>, p: Seq<char>)
    requires
        p.len() > 0,
    ensures
        !crate::text::has_prefix(crate::text::stripped(s, p), p),
    decreases s.len(),
{
    if crate::text::has_prefix(s, p) {
        lemma_stripped(s.skip(p.len() as int), p);
    }
}

} // verus!
