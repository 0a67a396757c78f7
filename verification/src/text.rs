//! Text as sequences of characters: searching, trimming, splitting, joining.

use vstd::prelude::*;
use vstd::utf8::encode_utf8;

verus! {

broadcast use vstd::seq_lib::group_seq_properties;

/// `String::push` appends one character.
pub assume_specification[ String::push ](s: &mut String, c: char)
    ensures
        final(s)@ == old(s)@.push(c),
;

/// `String::push_str` appends the characters of its argument.
pub assume_specification[ String::push_str ](s: &mut String, t: &str)
    ensures
        final(s)@ == old(s)@ + t@,
;

/// `String::pop` takes off the last character, where there is one.
pub assume_specification[ String::pop ](s: &mut String) -> (r: Option<char>)
    ensures
        old(s)@.len() == 0 ==> r is None && final(s)@ == old(s)@,
        old(s)@.len() > 0 ==> r == Some(old(s)@.last()) && final(s)@ == old(s)@.drop_last(),
;

/// What `str::to_lowercase` makes of a text.
pub uninterp spec fn lowercase(s: Seq<char>) -> Seq<char>;

/// The lowercase letter of an ASCII character; any other character itself.
pub open spec fn ascii_lower(c: char) -> char {
    if 'A' <= c <= 'Z' {
        (c as u32 + 32) as char
    } else {
        c
    }
}

/// `str::to_lowercase` is a function of the text alone. On ASCII text it is
/// letter by letter `A..=Z` to `a..=z`.
pub assume_specification[ str::to_lowercase ](s: &str) -> (r: String)
    ensures
        r@ == lowercase(s@),
        vstd::utf8::is_ascii_chars(s@) ==> r@ == s@.map_values(|c: char| ascii_lower(c)),
;

/// The characters with the Unicode property `White_Space`.
pub open spec fn is_white(c: char) -> bool {
    let u = c as u32;
    ||| 0x9 <= u <= 0xD
    ||| u == 0x20 || u == 0x85 || u == 0xA0 || u == 0x1680
    ||| 0x2000 <= u <= 0x200A
    ||| u == 0x2028 || u == 0x2029 || u == 0x202F || u == 0x205F || u == 0x3000
}

/// `char::is_whitespace` tests for the Unicode property `White_Space`.
pub assume_specification[ char::is_whitespace ](c: char) -> (r: bool)
    ensures
        r == is_white(c),
;

/// The text without its leading white space.
pub open spec fn trimmed_start(s: Seq<char>) -> Seq<char>
    decreases s.len(),
{
    if s.len() > 0 && is_white(s[0]) {
        trimmed_start(s.drop_first())
    } else {
        s
    }
}

/// The text without its trailing white space.
pub open spec fn trimmed_end(s: Seq<char>) -> Seq<char>
    decreases s.len(),
{
    if s.len() > 0 && is_white(s.last()) {
        trimmed_end(s.drop_last())
    } else {
        s
    }
}

/// The text without white space at either end.
pub open spec fn trimmed(s: Seq<char>) -> Seq<char> {
    trimmed_end(trimmed_start(s))
}

/// White space only.
pub open spec fn all_white(s: Seq<char>) -> bool {
    forall|i: int| 0 <= i < s.len() ==> is_white(#[trigger] s[i])
}

proof fn lemma_trimmed_start_push(s: Seq<char>, c: char)
    requires
        is_white(c),
    ensures
        trimmed_start(s.push(c)) == if trimmed_start(s).len() == 0 {
            Seq::empty()
        } else {
            trimmed_start(s).push(c)
        },
    decreases s.len(),
{
    if s.len() == 0 {
        assert(s.push(c).drop_first() =~= Seq::empty());
        reveal_with_fuel(trimmed_start, 2);
    } else if is_white(s[0]) {
        assert(s.push(c).drop_first() =~= s.drop_first().push(c));
        lemma_trimmed_start_push(s.drop_first(), c);
    }
}

/// A blank behind a text is trimmed off.
pub proof fn lemma_trimmed_push(s: Seq<char>, c: char)
    requires
        is_white(c),
    ensures
        trimmed(s.push(c)) == trimmed(s),
{
    lemma_trimmed_start_push(s, c);
    let t = trimmed_start(s);
    assert(t.push(c).drop_last() =~= t);
    assert(t.len() == 0 ==> t =~= Seq::empty());
}

/// Blanks before a text are trimmed off.
pub proof fn lemma_trimmed_behind_white(white: Seq<char>, s: Seq<char>)
    requires
        all_white(white),
    ensures
        trimmed(white + s) == trimmed(s),
    decreases white.len(),
{
    if white.len() == 0 {
        assert(white + s =~= s);
    } else {
        assert(is_white(white[0]));
        assert((white + s).drop_first() =~= white.drop_first() + s);
        lemma_trimmed_behind_white(white.drop_first(), s);
    }
}

/// `n` stands in `h` at position `i`.
pub open spec fn occurs_at(h: Seq<char>, n: Seq<char>, i: int) -> bool {
    0 <= i && i + n.len() <= h.len() && h.subrange(i, i + n.len()) == n
}

/// `n` stands somewhere in `h`.
pub open spec fn has_sub(h: Seq<char>, n: Seq<char>) -> bool {
    exists|i: int| occurs_at(h, n, i)
}

/// The first position of `n` in `h`.
pub open spec fn first_at(h: Seq<char>, n: Seq<char>, i: int) -> bool {
    occurs_at(h, n, i) && forall|j: int| 0 <= j < i ==> !occurs_at(h, n, j)
}

/// The pieces of `s` between the occurrences of `sep`: one more than there are.
pub open spec fn split_on(s: Seq<char>, sep: char) -> Seq<Seq<char>>
    decreases s.len(),
{
    if s.len() == 0 {
        seq![Seq::empty()]
    } else {
        let init = split_on(s.drop_last(), sep);
        if s.last() == sep {
            init.push(Seq::empty())
        } else {
            init.drop_last().push(init.last().push(s.last()))
        }
    }
}

/// The texts that a list of strings holds.
pub open spec fn views(v: Seq<String>) -> Seq<Seq<char>> {
    v.map_values(|s: String| s@)
}

/// The pieces in order with `sep` between each two.
pub open spec fn joined(v: Seq<Seq<char>>, sep: Seq<char>) -> Seq<char>
    decreases v.len(),
{
    if v.len() == 0 {
        Seq::empty()
    } else if v.len() == 1 {
        v[0]
    } else {
        joined(v.drop_last(), sep) + sep + v.last()
    }
}

/// The number of bytes of the text in UTF-8.
pub open spec fn byte_len(s: Seq<char>) -> nat {
    encode_utf8(s).len()
}

/// The characters of a text as a vector.
pub fn chars_of(s: &str) -> (r: Vec<char>)
    ensures
        r@ == s@,
{
    let mut v: Vec<char> = Vec::new();
    for c in it: s.chars()
        invariant
            it.seq() == s@,
            v@ == s@.take(it.index() as int),
    {
        v.push(c);
    }
    v
}

/// A text of the characters from position `i` up to position `j`.
pub fn text_between(v: &Vec<char>, i: usize, j: usize) -> (r: String)
    requires
        i <= j <= v.len(),
    ensures
        r@ == v@.subrange(i as int, j as int),
{
    let mut s = String::new();
    let mut k: usize = i;
    while k < j
        invariant
            i <= k <= j <= v.len(),
            s@ == v@.subrange(i as int, k as int),
        decreases j - k,
    {
        s.push(v[k]);
        k = k + 1;
    }
    s
}

/// Two texts hold the same characters.
pub fn same(a: &str, b: &str) -> (r: bool)
    ensures
        r == (a@ == b@),
{
    a.to_owned() == b.to_owned()
}

/// `a` followed by `b`.
pub fn concat2(a: &str, b: &str) -> (r: String)
    ensures
        r@ == a@ + b@,
{
    let mut s = a.to_owned();
    s.push_str(b);
    s
}

/// `a`, `b` and `c` in a row.
pub fn concat3(a: &str, b: &str, c: &str) -> (r: String)
    ensures
        r@ == a@ + b@ + c@,
{
    let mut s = a.to_owned();
    s.push_str(b);
    s.push_str(c);
    s
}

fn occurs(h: &Vec<char>, n: &Vec<char>, i: usize) -> (r: bool)
    requires
        i + n.len() <= h.len(),
    ensures
        r == occurs_at(h@, n@, i as int),
{
    let mut k: usize = 0;
    while k < n.len()
        invariant
            0 <= k <= n.len(),
            i + n.len() <= h.len(),
            forall|j: int| 0 <= j < k ==> h@[i + j] == n@[j],
        decreases n.len() - k,
    {
        if h[i + k] != n[k] {
            assert(h@.subrange(i as int, i + n.len())[k as int] != n@[k as int]);
            return false;
        }
        k = k + 1;
    }
    assert(h@.subrange(i as int, i + n.len()) =~= n@);
    true
}

/// The first position of `n` in `h`, counted in characters.
pub fn find(h: &Vec<char>, n: &Vec<char>) -> (r: Option<usize>)
    ensures
        match r {
            Some(i) => first_at(h@, n@, i as int),
            None => !has_sub(h@, n@),
        },
{
    if n.len() > h.len() {
        return None;
    }
    let last: usize = h.len() - n.len();
    let mut i: usize = 0;
    while i <= last
        invariant
            last == h.len() - n.len(),
            0 <= i <= last + 1,
            forall|j: int| 0 <= j < i ==> !occurs_at(h@, n@, j),
        decreases last + 1 - i,
    {
        if occurs(h, n, i) {
            return Some(i);
        }
        if i == last {
            return None;
        }
        i = i + 1;
    }
    None
}

/// Whether `n` stands somewhere in `h`.
pub fn contains(h: &str, n: &str) -> (r: bool)
    ensures
        r == has_sub(h@, n@),
{
    find(&chars_of(h), &chars_of(n)).is_some()
}

/// Whether the lowercase form of `h` holds `n`.
pub fn lower_contains(h: &str, n: &str) -> (r: bool)
    ensures
        r == has_sub(lowercase(h@), n@),
{
    let l = h.to_lowercase();
    contains(l.as_str(), n)
}

/// Whether the text holds the character.
pub fn has_char(s: &str, c: char) -> (r: bool)
    ensures
        r == s@.contains(c),
{
    let v = chars_of(s);
    let mut i: usize = 0;
    while i < v.len()
        invariant
            0 <= i <= v.len(),
            v@ == s@,
            forall|j: int| 0 <= j < i ==> s@[j] != c,
        decreases v.len() - i,
    {
        if v[i] == c {
            return true;
        }
        i = i + 1;
    }
    false
}

/// `s` begins with `p`.
pub open spec fn has_prefix(s: Seq<char>, p: Seq<char>) -> bool {
    p.len() <= s.len() && s.take(p.len() as int) == p
}

/// `s` ends with `p`.
pub open spec fn has_suffix(s: Seq<char>, p: Seq<char>) -> bool {
    p.len() <= s.len() && s.skip(s.len() - p.len()) == p
}

/// Whether `s` begins with `p`.
pub fn starts_with(s: &str, p: &str) -> (r: bool)
    ensures
        r == has_prefix(s@, p@),
{
    let v = chars_of(s);
    let q = chars_of(p);
    if q.len() > v.len() {
        return false;
    }
    assert(v@.take(q.len() as int) =~= v@.subrange(0, q.len() as int));
    occurs(&v, &q, 0)
}

/// Whether `s` ends with `p`.
pub fn ends_with(s: &str, p: &str) -> (r: bool)
    ensures
        r == has_suffix(s@, p@),
{
    let v = chars_of(s);
    let q = chars_of(p);
    if q.len() > v.len() {
        return false;
    }
    assert(v@.skip(v.len() - q.len()) =~= v@.subrange(v.len() - q.len(), v.len() as int));
    occurs(&v, &q, v.len() - q.len())
}

proof fn lemma_trimmed_start_step(s: Seq<char>, i: int)
    requires
        0 <= i < s.len(),
        is_white(s[i]),
    ensures
        trimmed_start(s.skip(i)) == trimmed_start(s.skip(i + 1)),
{
    assert(s.skip(i).drop_first() =~= s.skip(i + 1));
}

/// The text without white space at either end.
pub fn trim(s: &str) -> (r: String)
    ensures
        r@ == trimmed(s@),
{
    let v = chars_of(s);
    let n = v.len();
    let mut i: usize = 0;
    assert(v@.skip(0) =~= v@);
    while i < n && v[i].is_whitespace()
        invariant
            0 <= i <= n,
            n == v.len(),
            trimmed_start(v@.skip(i as int)) == trimmed_start(v@),
        decreases n - i,
    {
        proof {
            lemma_trimmed_start_step(v@, i as int);
        }
        i = i + 1;
    }
    assert(trimmed_start(v@) == v@.skip(i as int));
    let mut j: usize = n;
    assert(v@.skip(i as int) =~= v@.subrange(i as int, j as int));
    while j > i && v[j - 1].is_whitespace()
        invariant
            i <= j <= n,
            n == v.len(),
            trimmed_end(v@.subrange(i as int, j as int)) == trimmed_end(
                v@.subrange(i as int, n as int),
            ),
        decreases j,
    {
        assert(v@.subrange(i as int, j as int).drop_last() =~= v@.subrange(i as int, j - 1));
        j = j - 1;
    }
    text_between(&v, i, j)
}

/// The pieces of `s` between the occurrences of `sep`.
pub fn split(s: &str, sep: char) -> (r: Vec<String>)
    ensures
        views(r@) == split_on(s@, sep),
{
    let v = chars_of(s);
    let mut done: Vec<String> = Vec::new();
    let mut cur = String::new();
    let mut i: usize = 0;
    assert(views(done@).push(cur@) =~= split_on(v@.take(0), sep));
    while i < v.len()
        invariant
            0 <= i <= v.len(),
            views(done@).push(cur@) == split_on(v@.take(i as int), sep),
        decreases v.len() - i,
    {
        let ghost before = views(done@).push(cur@);
        assert(v@.take(i + 1).drop_last() =~= v@.take(i as int));
        assert(before.drop_last() =~= views(done@));
        if v[i] == sep {
            let ghost d0 = done@;
            let ghost c0 = cur@;
            done.push(cur);
            cur = String::new();
            assert(views(done@) =~= views(d0).push(c0));
        } else {
            cur.push(v[i]);
        }
        i = i + 1;
    }
    let ghost d0 = done@;
    let ghost c0 = cur@;
    done.push(cur);
    assert(views(done@) =~= views(d0).push(c0));
    assert(v@.take(v.len() as int) =~= v@);
    done
}

/// The pieces in order with `sep` between each two.
pub fn join(v: &Vec<String>, sep: &str) -> (r: String)
    ensures
        r@ == joined(views(v@), sep@),
{
    let mut s = String::new();
    let mut i: usize = 0;
    assert(views(v@).take(0) =~= Seq::empty());
    while i < v.len()
        invariant
            0 <= i <= v.len(),
            s@ == joined(views(v@).take(i as int), sep@),
        decreases v.len() - i,
    {
        assert(views(v@).take(i + 1).drop_last() =~= views(v@).take(i as int));
        if i > 0 {
            s.push_str(sep);
        }
        s.push_str(v[i].as_str());
        i = i + 1;
        assert(s@ =~= joined(views(v@).take(i as int), sep@));
    }
    assert(views(v@).take(v.len() as int) =~= views(v@));
    s
}

/// The number of bytes of one character in UTF-8.
pub open spec fn char_width(c: char) -> nat {
    let u = c as u32;
    if u < 0x80 {
        1
    } else if u < 0x800 {
        2
    } else if u < 0x1_0000 {
        3
    } else {
        4
    }
}

proof fn lemma_byte_len_first(s: Seq<char>)
    requires
        s.len() > 0,
    ensures
        byte_len(s) == char_width(s[0]) + byte_len(s.drop_first()),
{
    vstd::utf8::char_is_scalar(s[0]);
}

/// The bytes of a text are those of its parts.
pub proof fn lemma_byte_len_concat(a: Seq<char>, b: Seq<char>)
    ensures
        byte_len(a + b) == byte_len(a) + byte_len(b),
    decreases a.len(),
{
    if a.len() == 0 {
        assert(a + b =~= b);
    } else {
        lemma_byte_len_first(a);
        lemma_byte_len_first(a + b);
        assert((a + b).drop_first() =~= a.drop_first() + b);
        lemma_byte_len_concat(a.drop_first(), b);
    }
}

/// One more character is that many bytes more.
pub proof fn lemma_byte_len_push(s: Seq<char>, c: char)
    ensures
        byte_len(s.push(c)) == byte_len(s) + char_width(c),
{
    assert(s.push(c) =~= s + seq![c]);
    lemma_byte_len_concat(s, seq![c]);
    lemma_byte_len_first(seq![c]);
    assert(seq![c].drop_first() =~= Seq::empty());
}

/// A longer prefix has more bytes.
pub proof fn lemma_byte_len_take(s: Seq<char>, i: int, j: int)
    requires
        0 <= i <= j <= s.len(),
    ensures
        byte_len(s.take(i)) + (j - i) <= byte_len(s.take(j)),
        byte_len(s.take(j)) <= byte_len(s.take(i)) + 4 * (j - i),
    decreases j - i,
{
    if i < j {
        lemma_byte_len_take(s, i, j - 1);
        assert(s.take(j) =~= s.take(j - 1).push(s[j - 1]));
        lemma_byte_len_push(s.take(j - 1), s[j - 1]);
    }
}

/// The first `k` characters of `s` take up `n` bytes.
pub open spec fn cut_at(s: Seq<char>, n: nat, k: int) -> bool {
    0 <= k <= s.len() && byte_len(s.take(k)) == n
}

/// Some number of whole characters takes up the first `n` bytes of `s`.
pub open spec fn has_cut(s: Seq<char>, n: nat) -> bool {
    exists|k: int| cut_at(s, n, k)
}

/// The characters that take up the first `n` bytes of `s`.
pub open spec fn byte_take(s: Seq<char>, n: nat) -> Seq<char> {
    s.take(choose|k: int| cut_at(s, n, k))
}

/// There is one cut at most.
pub proof fn lemma_one_cut(s: Seq<char>, n: nat, k: int)
    requires
        cut_at(s, n, k),
    ensures
        has_cut(s, n),
        byte_take(s, n) == s.take(k),
{
    let m = choose|m: int| cut_at(s, n, m);
    if m < k {
        lemma_byte_len_take(s, m, k);
    } else {
        lemma_byte_len_take(s, k, m);
    }
}

fn width_of(c: char) -> (w: usize)
    ensures
        w == char_width(c),
        1 <= w <= 4,
{
    let u: u32 = c as u32;
    if u < 0x80 {
        1
    } else if u < 0x800 {
        2
    } else if u < 0x1_0000 {
        3
    } else {
        4
    }
}

/// The characters that take up the first `n` bytes, where a character ends there.
pub fn byte_prefix(s: &str, n: usize) -> (r: Option<String>)
    ensures
        match r {
            Some(p) => has_cut(s@, n as nat) && p@ == byte_take(s@, n as nat),
            None => !has_cut(s@, n as nat),
        },
{
    let v = chars_of(s);
    let mut i: usize = 0;
    let mut used: usize = 0;
    assert(v@.take(0) =~= Seq::empty());
    while i < v.len() && used < n
        invariant
            0 <= i <= v.len(),
            v@ == s@,
            used == byte_len(v@.take(i as int)),
            used <= n,
        decreases v.len() - i,
    {
        let w = width_of(v[i]);
        proof {
            assert(v@.take(i + 1) =~= v@.take(i as int).push(v@[i as int]));
            lemma_byte_len_push(v@.take(i as int), v@[i as int]);
        }
        if w > n - used {
            proof {
                assert forall|k: int| !cut_at(s@, n as nat, k) by {
                    if 0 <= k <= i {
                        lemma_byte_len_take(v@, k, i as int);
                    } else if i < k <= v@.len() {
                        lemma_byte_len_take(v@, i + 1, k);
                    }
                }
            }
            return None;
        }
        used = used + w;
        i = i + 1;
    }
    if used == n {
        proof {
            lemma_one_cut(s@, n as nat, i as int);
        }
        return Some(text_between(&v, 0, i));
    }
    proof {
        assert forall|k: int| !cut_at(s@, n as nat, k) by {
            if 0 <= k <= v@.len() {
                lemma_byte_len_take(v@, k, v@.len() as int);
            }
        }
    }
    None
}

/// Whether the text takes more than `n` bytes.
pub fn longer_than(s: &str, n: usize) -> (r: bool)
    ensures
        r == (byte_len(s@) > n),
{
    let v = chars_of(s);
    let mut i: usize = 0;
    let mut used: usize = 0;
    assert(v@.take(0) =~= Seq::empty());
    while i < v.len()
        invariant
            0 <= i <= v.len(),
            v@ == s@,
            used == byte_len(v@.take(i as int)),
            used <= n,
        decreases v.len() - i,
    {
        let w = width_of(v[i]);
        proof {
            assert(v@.take(i + 1) =~= v@.take(i as int).push(v@[i as int]));
            lemma_byte_len_push(v@.take(i as int), v@[i as int]);
            lemma_byte_len_take(v@, i + 1, v@.len() as int);
            assert(v@.take(v@.len() as int) =~= v@);
        }
        if w > n - used {
            return true;
        }
        used = used + w;
        i = i + 1;
    }
    assert(v@.take(v@.len() as int) =~= v@);
    false
}

/// The text after every `p` at its start is taken off.
pub open spec fn stripped(s: Seq<char>, p: Seq<char>) -> Seq<char>
    decreases s.len(),
{
    if p.len() > 0 && has_prefix(s, p) {
        stripped(s.skip(p.len() as int), p)
    } else {
        s
    }
}

/// Takes every `p` off the start of `s`.
pub fn trim_start_matches(s: &str, p: &str) -> (r: String)
    ensures
        r@ == stripped(s@, p@),
{
    let v = chars_of(s);
    let q = chars_of(p);
    let mut i: usize = 0;
    assert(v@.skip(0) =~= v@);
    while q.len() > 0 && q.len() <= v.len() - i && occurs(&v, &q, i)
        invariant
            0 <= i <= v.len(),
            v@ == s@,
            q@ == p@,
            stripped(v@.skip(i as int), q@) == stripped(s@, p@),
        decreases v.len() - i,
    {
        proof {
            let t = v@.skip(i as int);
            assert(t.take(q@.len() as int) =~= v@.subrange(i as int, i + q@.len()));
            assert(has_prefix(t, q@));
            assert(t.skip(q@.len() as int) =~= v@.skip(i + q@.len()));
        }
        i = i + q.len();
    }
    proof {
        let t = v@.skip(i as int);
        if has_prefix(t, q@) && q@.len() > 0 {
            assert(t.take(q@.len() as int) =~= v@.subrange(i as int, i + q@.len()));
        }
        assert(t =~= v@.subrange(i as int, v@.len() as int));
    }
    text_between(&v, i, v.len())
}

/// The text behind `p`, where `s` begins with it.
pub fn strip_prefix(s: &str, p: &str) -> (r: Option<String>)
    ensures
        match r {
            Some(t) => has_prefix(s@, p@) && t@ == s@.skip(p@.len() as int),
            None => !has_prefix(s@, p@),
        },
{
    if starts_with(s, p) {
        let v = chars_of(s);
        let k = chars_of(p).len();
        assert(v@.skip(k as int) =~= v@.subrange(k as int, v@.len() as int));
        Some(text_between(&v, k, v.len()))
    } else {
        None
    }
}

/// Any character but this one.
pub open spec fn other_than(c: char) -> spec_fn(char) -> bool {
    |x: char| x != c
}

/// The text without every occurrence of a character.
pub open spec fn without(s: Seq<char>, c: char) -> Seq<char> {
    s.filter(other_than(c))
}

/// The text without every occurrence of a character.
pub fn remove_char(s: &str, c: char) -> (r: String)
    ensures
        r@ == without(s@, c),
{
    let v = chars_of(s);
    let mut out = String::new();
    let mut i: usize = 0;
    proof {
        reveal(Seq::filter);
        assert(v@.take(0).filter(other_than(c)) =~= Seq::empty());
    }
    while i < v.len()
        invariant
            0 <= i <= v.len(),
            out@ == v@.take(i as int).filter(other_than(c)),
        decreases v.len() - i,
    {
        proof {
            reveal(Seq::filter);
            assert(v@.take(i + 1).drop_last() =~= v@.take(i as int));
        }
        if v[i] != c {
            out.push(v[i]);
        }
        i = i + 1;
    }
    assert(v@.take(v.len() as int) =~= v@);
    out
}

/// The text behind the last occurrence of a character; the whole where there is none.
pub open spec fn after_last(s: Seq<char>, c: char) -> Seq<char>
    decreases s.len(),
{
    if s.len() == 0 || s.last() == c {
        Seq::empty()
    } else {
        after_last(s.drop_last(), c).push(s.last())
    }
}

/// The text without every occurrence of a character at its start.
pub open spec fn without_leading(s: Seq<char>, c: char) -> Seq<char>
    decreases s.len(),
{
    if s.len() > 0 && s[0] == c {
        without_leading(s.drop_first(), c)
    } else {
        s
    }
}

/// The last segment of a text with another before it.
pub proof fn lemma_after_last_concat(a: Seq<char>, s: Seq<char>, c: char)
    ensures
        s.contains(c) ==> after_last(a + s, c) == after_last(s, c),
        !s.contains(c) ==> after_last(a + s, c) == after_last(a, c) + s,
    decreases s.len(),
{
    if s.len() == 0 {
        assert(a + s =~= a);
        assert(after_last(a, c) + s =~= after_last(a, c));
    } else {
        let d = s.drop_last();
        assert((a + s).drop_last() =~= a + d);
        lemma_after_last_concat(a, d, c);
        if s.last() == c {
            assert(s.contains(c));
        } else if d.contains(c) {
            let j = choose|j: int| 0 <= j < d.len() && d[j] == c;
            assert(s[j] == c);
        } else {
            assert(!s.contains(c)) by {
                if s.contains(c) {
                    let j = choose|j: int| 0 <= j < s.len() && s[j] == c;
                    assert(d[j] == c);
                }
            }
            assert(after_last(a + s, c) =~= after_last(a, c) + s);
        }
    }
}

/// A text without the character is its own last segment.
pub proof fn lemma_after_last_whole(s: Seq<char>, c: char)
    requires
        !s.contains(c),
    ensures
        after_last(s, c) == s,
{
    let none = Seq::<char>::empty();
    lemma_after_last_concat(none, s, c);
    assert(none + s =~= s);
}

/// The last segment is an ending of the text and holds no such character.
pub proof fn lemma_after_last_ending(s: Seq<char>, c: char)
    ensures
        has_suffix(s, after_last(s, c)),
        !after_last(s, c).contains(c),
    decreases s.len(),
{
    if s.len() == 0 || s.last() == c {
        assert(s.skip(s.len() as int) =~= Seq::empty());
    } else {
        let d = s.drop_last();
        lemma_after_last_ending(d, c);
        let (e, f) = (after_last(d, c), after_last(s, c));
        assert(s.skip(s.len() - f.len()) =~= d.skip(d.len() - e.len()).push(s.last()));
        if f.contains(c) {
            let j = choose|j: int| 0 <= j < f.len() && f[j] == c;
            assert(e[j] == c);
        }
    }
}

/// What is left is an ending of the text and does not begin with the character.
pub proof fn lemma_without_leading_ending(s: Seq<char>, c: char)
    ensures
        has_suffix(s, without_leading(s, c)),
        without_leading(s, c).len() > 0 ==> without_leading(s, c)[0] != c,
    decreases s.len(),
{
    if s.len() > 0 && s[0] == c {
        let d = s.drop_first();
        lemma_without_leading_ending(d, c);
        let w = without_leading(d, c);
        assert(s.skip(s.len() - w.len()) =~= d.skip(d.len() - w.len()));
    } else {
        assert(s.skip(0) =~= s);
    }
}

/// What stands behind a text stays where only its start is taken off.
pub proof fn lemma_without_leading_concat(s: Seq<char>, t: Seq<char>, c: char)
    requires
        t.len() > 0,
        t[0] != c,
    ensures
        without_leading(s + t, c) == without_leading(s, c) + t,
    decreases s.len(),
{
    if s.len() == 0 {
        assert(s + t =~= t);
    } else if s[0] == c {
        assert((s + t).drop_first() =~= s.drop_first() + t);
        lemma_without_leading_concat(s.drop_first(), t, c);
    }
}

proof fn lemma_after_last(s: Seq<char>, c: char, k: int)
    requires
        0 <= k <= s.len(),
        forall|j: int| k <= j < s.len() ==> s[j] != c,
        k == 0 || s[k - 1] == c,
    ensures
        after_last(s, c) == s.skip(k),
    decreases s.len() - k,
{
    if k < s.len() {
        lemma_after_last(s.drop_last(), c, k);
        assert(s.drop_last().skip(k).push(s.last()) =~= s.skip(k));
    } else {
        assert(s.skip(k) =~= Seq::empty());
    }
}

/// The text behind the last occurrence of a character; the whole where there is none.
pub fn behind_last(s: &str, c: char) -> (r: String)
    ensures
        r@ == after_last(s@, c),
{
    let v = chars_of(s);
    let mut k: usize = v.len();
    while k > 0 && v[k - 1] != c
        invariant
            0 <= k <= v.len(),
            forall|j: int| k <= j < v@.len() ==> v@[j] != c,
        decreases k,
    {
        k = k - 1;
    }
    proof {
        lemma_after_last(v@, c, k as int);
        assert(v@.skip(k as int) =~= v@.subrange(k as int, v@.len() as int));
    }
    text_between(&v, k, v.len())
}

/// The last segment of a dotted name without its leading underscores.
pub fn leaf_name(s: &str) -> (r: String)
    ensures
        r@ == without_leading(after_last(s@, '.'), '_'),
{
    let v = chars_of(behind_last(s, '.').as_str());
    let mut i: usize = 0;
    assert(v@.skip(0) =~= v@);
    while i < v.len() && v[i] == '_'
        invariant
            0 <= i <= v.len(),
            without_leading(v@.skip(i as int), '_') == without_leading(v@, '_'),
        decreases v.len() - i,
    {
        assert(v@.skip(i as int).drop_first() =~= v@.skip(i + 1));
        i = i + 1;
    }
    assert(v@.skip(i as int) =~= v@.subrange(i as int, v@.len() as int));
    text_between(&v, i, v.len())
}

/// The text with each ASCII letter in lowercase.
pub open spec fn ascii_lowered(s: Seq<char>) -> Seq<char> {
    s.map_values(|c: char| ascii_lower(c))
}

/// The uppercase letter of an ASCII character; any other character itself.
pub open spec fn ascii_upper(c: char) -> char {
    if 'a' <= c <= 'z' {
        (c as u32 - 32) as char
    } else {
        c
    }
}

/// The text with each ASCII letter in uppercase.
pub open spec fn ascii_uppered(s: Seq<char>) -> Seq<char> {
    s.map_values(|c: char| ascii_upper(c))
}

/// Only the letter case of ASCII letters is lost in lowercase.
pub proof fn lemma_upper_lower(s: Seq<char>)
    ensures
        ascii_lowered(ascii_uppered(s)) == ascii_lowered(s),
{
    assert forall|i: int| 0 <= i < s.len() implies ascii_lower(
        ascii_upper(#[trigger] s[i]),
    ) == ascii_lower(s[i]) by {}
    assert(ascii_lowered(ascii_uppered(s)) =~= ascii_lowered(s));
}

/// Lowercase moves no character that is no letter.
pub proof fn lemma_lowered_segments(s: Seq<char>, c: char)
    requires
        c == '.' || c == '_',
    ensures
        ascii_lowered(after_last(s, c)) == after_last(ascii_lowered(s), c),
        ascii_lowered(without_leading(s, c)) == without_leading(ascii_lowered(s), c),
    decreases s.len(),
{
    let t = ascii_lowered(s);
    if s.len() == 0 {
        assert(t =~= s);
    } else {
        let (d, f) = (s.drop_last(), s.drop_first());
        assert(ascii_lower(s.last()) == c <==> s.last() == c);
        assert(ascii_lower(s[0]) == c <==> s[0] == c);
        lemma_lowered_segments(d, c);
        lemma_lowered_segments(f, c);
        assert(t.drop_last() =~= ascii_lowered(d));
        assert(t.drop_first() =~= ascii_lowered(f));
        assert(ascii_lowered(after_last(s, c)) =~= after_last(t, c));
        assert(ascii_lowered(without_leading(s, c)) =~= without_leading(t, c));
    }
}

/// The text in lowercase: letter by letter where it is ASCII.
pub open spec fn lowered(s: Seq<char>) -> Seq<char> {
    if vstd::utf8::is_ascii_chars(s) {
        ascii_lowered(s)
    } else {
        lowercase(s)
    }
}

/// The text in lowercase.
pub fn to_lower(s: &str) -> (r: String)
    ensures
        r@ == lowered(s@),
        r@ == lowercase(s@),
{
    s.to_lowercase()
}

/// The text with each ASCII letter in lowercase.
pub fn to_ascii_lower(s: &str) -> (r: String)
    ensures
        r@ == ascii_lowered(s@),
{
    let v = chars_of(s);
    let mut out = String::new();
    let mut i: usize = 0;
    while i < v.len()
        invariant
            0 <= i <= v.len(),
            out@ == ascii_lowered(v@.take(i as int)),
        decreases v.len() - i,
    {
        let c = v[i];
        let u: u32 = c as u32;
        if 65 <= u && u <= 90 {
            let b: u8 = (u as u8) + 32;
            out.push(b as char);
        } else {
            out.push(c);
        }
        i = i + 1;
        assert(out@ =~= ascii_lowered(v@.take(i as int)));
    }
    assert(v@.take(v.len() as int) =~= v@);
    out
}

/// The line without a carriage return at its end.
pub open spec fn without_return(s: Seq<char>) -> Seq<char> {
    if s.len() > 0 && s.last() == '\r' {
        s.drop_last()
    } else {
        s
    }
}

/// The lines of a text. A line ends with a line feed, or with a carriage return
/// and a line feed; what follows the last one is a line where it is not empty.
pub open spec fn text_lines(s: Seq<char>) -> Seq<Seq<char>> {
    let p = split_on(s, '\n');
    let full = p.drop_last().map_values(|l: Seq<char>| without_return(l));
    if p.last().len() == 0 {
        full
    } else {
        full.push(p.last())
    }
}

/// A text without the separator is one piece.
pub proof fn lemma_split_whole(s: Seq<char>, sep: char)
    requires
        !s.contains(sep),
    ensures
        split_on(s, sep) == seq![s],
    decreases s.len(),
{
    if s.len() == 0 {
        assert(seq![Seq::<char>::empty()] =~= seq![s]);
    } else {
        let d = s.drop_last();
        assert(s[s.len() - 1] != sep);
        assert forall|i: int| 0 <= i < d.len() implies d[i] != sep by {
            assert(d[i] == s[i]);
        }
        lemma_split_whole(d, sep);
        assert(d.push(s.last()) =~= s);
        assert(split_on(s, sep) =~= seq![s]);
    }
}

/// The pieces of two texts with the separator between are those of the one and
/// then those of the other.
pub proof fn lemma_split_concat(a: Seq<char>, b: Seq<char>, sep: char)
    ensures
        split_on(a + seq![sep] + b, sep) == split_on(a, sep) + split_on(b, sep),
    decreases b.len(),
{
    let s = a + seq![sep] + b;
    lemma_split_nonempty(b, sep);
    if b.len() == 0 {
        assert(s.drop_last() =~= a);
        assert(split_on(s, sep) =~= split_on(a, sep) + split_on(b, sep));
    } else {
        let d = b.drop_last();
        assert(s.drop_last() =~= a + seq![sep] + d);
        lemma_split_concat(a, d, sep);
        lemma_split_nonempty(d, sep);
        assert(split_on(s, sep) =~= split_on(a, sep) + split_on(b, sep));
    }
}

/// There is a piece at least.
pub proof fn lemma_split_nonempty(s: Seq<char>, sep: char)
    ensures
        split_on(s, sep).len() >= 1,
    decreases s.len(),
{
    if s.len() > 0 {
        lemma_split_nonempty(s.drop_last(), sep);
    }
}

/// The lines of a text.
pub fn lines(s: &str) -> (r: Vec<String>)
    ensures
        views(r@) == text_lines(s@),
{
    let pieces = split(s, '\n');
    proof {
        lemma_split_nonempty(s@, '\n');
    }
    let ghost p = split_on(s@, '\n');
    let ghost full = p.drop_last().map_values(|l: Seq<char>| without_return(l));
    let n = pieces.len();
    assert(n == p.len());
    let mut out: Vec<String> = Vec::new();
    let mut i: usize = 0;
    while i + 1 < n
        invariant
            0 <= i < n,
            n == pieces.len(),
            n == p.len(),
            p == views(pieces@),
            full == p.drop_last().map_values(|l: Seq<char>| without_return(l)),
            views(out@) == full.take(i as int),
        decreases n - i,
    {
        let mut line = pieces[i].clone();
        if ends_with(line.as_str(), "\r") {
            proof {
                reveal_strlit("\r");
                assert(line@.skip(line@.len() - 1)[0] == line@.last());
            }
            let _last = line.pop();
        } else {
            proof {
                reveal_strlit("\r");
                if line@.len() > 0 && line@.last() == '\r' {
                    assert(line@.skip(line@.len() - 1) =~= "\r"@);
                }
            }
        }
        assert(line@ == without_return(p[i as int]));
        let ghost o0 = out@;
        let ghost l0 = line@;
        out.push(line);
        i = i + 1;
        assert(views(out@) =~= views(o0).push(l0));
        assert(views(out@) =~= full.take(i as int));
    }
    assert(full.take(full.len() as int) =~= full);
    if !pieces[n - 1].as_str().is_empty() {
        let ghost o0 = out@;
        let last = pieces[n - 1].clone();
        out.push(last);
        assert(views(out@) =~= views(o0).push(p.last()));
    }
    out
}

/// `a` comes before `b`: at the first place where they differ its character is
/// the smaller, or it ends there.
pub open spec fn text_before(a: Seq<char>, b: Seq<char>) -> bool
    decreases a.len(),
{
    if b.len() == 0 {
        false
    } else if a.len() == 0 {
        true
    } else if a[0] == b[0] {
        text_before(a.drop_first(), b.drop_first())
    } else {
        (a[0] as u32) < (b[0] as u32)
    }
}

/// Whether `a` comes before `b`.
pub fn comes_before(a: &str, b: &str) -> (r: bool)
    ensures
        r == text_before(a@, b@),
{
    let x = chars_of(a);
    let y = chars_of(b);
    let mut i: usize = 0;
    assert(x@.skip(0) =~= x@);
    assert(y@.skip(0) =~= y@);
    while i < x.len() && i < y.len() && x[i] == y[i]
        invariant
            0 <= i <= x.len(),
            i <= y.len(),
            text_before(x@, y@) == text_before(x@.skip(i as int), y@.skip(i as int)),
        decreases x.len() - i,
    {
        assert(x@.skip(i as int).drop_first() =~= x@.skip(i + 1));
        assert(y@.skip(i as int).drop_first() =~= y@.skip(i + 1));
        i = i + 1;
    }
    if i >= y.len() {
        false
    } else if i >= x.len() {
        true
    } else {
        (x[i] as u32) < (y[i] as u32)
    }
}

proof fn lemma_char_numbers(x: char, y: char)
    ensures
        x != y ==> x as u32 != y as u32,
{
}

/// Texts are ordered: none comes before itself, of two different ones one comes
/// before the other, and what comes before comes before what follows.
pub proof fn law_text_order(a: Seq<char>, b: Seq<char>, c: Seq<char>)
    ensures
        !text_before(a, a),
        !(text_before(a, b) && text_before(b, a)),
        a != b ==> text_before(a, b) || text_before(b, a),
        text_before(a, b) && text_before(b, c) ==> text_before(a, c),
    decreases a.len() + b.len() + c.len(),
{
    if a.len() > 0 {
        let e = Seq::<char>::empty();
        let (bt, ct) = (
            if b.len() > 0 {
                b.drop_first()
            } else {
                e
            },
            if c.len() > 0 {
                c.drop_first()
            } else {
                e
            },
        );
        law_text_order(a.drop_first(), bt, ct);
        if b.len() > 0 {
            lemma_char_numbers(a[0], b[0]);
        }
        if b.len() > 0 && a[0] == b[0] && a != b {
            assert(a.drop_first() != b.drop_first()) by {
                if a.drop_first() == b.drop_first() {
                    assert(a =~= seq![a[0]] + a.drop_first());
                    assert(b =~= seq![b[0]] + b.drop_first());
                }
            }
        }
    } else {
        assert(b.len() == 0 ==> a =~= b);
    }
}

/// The number of bytes of the first `i` characters of a text.
pub fn byte_offset(s: &str, i: usize) -> (r: usize)
    requires
        i <= s@.len(),
    ensures
        r == byte_len(s@.take(i as int)),
{
    let v = chars_of(s);
    let b = s.as_bytes();
    let n = b.len();
    assert(n == byte_len(s@));
    let mut k: usize = 0;
    let mut used: usize = 0;
    assert(v@.take(0) =~= Seq::empty());
    while k < i
        invariant
            0 <= k <= i <= v.len(),
            v@ == s@,
            n == byte_len(s@),
            used == byte_len(v@.take(k as int)),
        decreases i - k,
    {
        proof {
            assert(v@.take(k + 1) =~= v@.take(k as int).push(v@[k as int]));
            lemma_byte_len_push(v@.take(k as int), v@[k as int]);
            lemma_byte_len_take(v@, k + 1, v@.len() as int);
            assert(v@.take(v@.len() as int) =~= v@);
        }
        used = used + width_of(v[k]);
        k = k + 1;
    }
    used
}

} // verus!
