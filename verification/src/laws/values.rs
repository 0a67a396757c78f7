//! Laws of the names of fields, the ways to edit them, and several edits in a row.

use vstd::prelude::*;
use vstd::utf8::is_ascii_chars;
use crate::digits::dec;
use crate::edit_path::{path_hops, tree_at, value_at, value_with, Hop};
use crate::json::{members, trees, Json, Tree};
use crate::state::{ActiveTable, AppState};
use crate::text::{
    after_last, ascii_lowered, has_sub, has_suffix, lowered, split_on, text_lines, without,
    without_leading,
};
use crate::ui::field_panel::{
    apply_edits, bit_is_on, bitmask_kind_for, can_reset_entry, cap_rows, channel_count,
    child_element, child_member, edits_made, field_label, field_looks_like_color, from_word,
    group_header, has_cjk, integer_edit, interesting_runs, is_color_array, is_color_object,
    law_element_path, law_member_path, list_header, normalize_field_name, percent_kind_for,
    percent_start, plain_name, run_kept, selected_entry, stem, to_word, toggle_bit, truncate_lines,
    PendingEdit, PercentKind, TextRun,
};

verus! {

broadcast use vstd::seq_lib::group_seq_properties;

/// A name as tables write it: lowercase, without a parent, an index, an underscore
/// before it or an ending of many.
pub open spec fn is_plain_name(n: Seq<char>) -> bool {
    &&& n.len() > 0
    &&& is_ascii_chars(n)
    &&& forall|i: int| 0 <= i < n.len() ==> !('A' <= #[trigger] n[i] <= 'Z')
    &&& !n.contains('.')
    &&& !n.contains('[')
    &&& n[0] != '_'
    &&& n.last() != 's'
    &&& !has_suffix(n, "_list"@)
}

proof fn lemma_leaf(n: Seq<char>)
    requires
        n.len() > 0,
        is_ascii_chars(n),
        forall|i: int| 0 <= i < n.len() ==> !('A' <= #[trigger] n[i] <= 'Z'),
        !n.contains('.'),
        !n.contains('['),
        n[0] != '_',
    ensures
        lowered(without_leading(after_last(n, '.'), '_')) == n,
        plain_name(n) == stem(n),
{
    crate::text::lemma_after_last_whole(n, '.');
    assert(without_leading(n, '_') == n);
    assert(ascii_lowered(n) =~= n);
}

/// A plain name is taken as it is, and so is what it names in the plural or as a
/// list.
pub proof fn law_plain_names(n: Seq<char>)
    requires
        is_plain_name(n),
    ensures
        plain_name(n) == n,
        plain_name(n + "s"@) == n,
        plain_name(n + "_list"@) == n,
{
    reveal_strlit("s");
    reveal_strlit("_list");
    let (a, b) = (n + "s"@, n + "_list"@);
    lemma_leaf(n);
    assert forall|i: int| 0 <= i < a.len() implies !('A' <= #[trigger] a[i] <= 'Z') && a[i] != '.'
        && a[i] != '[' by {
        if i < n.len() {
            assert(a[i] == n[i]);
            assert(n.contains(n[i]));
        }
    }
    assert forall|i: int| 0 <= i < b.len() implies !('A' <= #[trigger] b[i] <= 'Z') && b[i] != '.'
        && b[i] != '[' by {
        if i < n.len() {
            assert(b[i] == n[i]);
            assert(n.contains(n[i]));
        }
    }
    assert(is_ascii_chars(a));
    assert(is_ascii_chars(b));
    lemma_leaf(a);
    lemma_leaf(b);
    assert("_list"@.last() == 't');
    if a.len() >= 5 {
        assert(a.skip(a.len() - 5).last() == 's');
    }
    assert(!has_suffix(a, "_list"@));
    assert(a.drop_last() =~= n);
    assert(b.skip(b.len() - 5) =~= "_list"@);
    assert(b.take(b.len() - 5) =~= n);
}

/// A plain name is normalized to itself.
pub proof fn law_normalized_name(field: &str, r: String)
    requires
        call_ensures(normalize_field_name, (field,), r),
        is_plain_name(field@),
    ensures
        r@ == field@,
{
    law_plain_names(field@);
}

/// A number is shown as a share of a hundred where its name speaks of a percentage,
/// as a share of one where it speaks of a rate, and plainly elsewhere. Underscores
/// in the name do not count.
pub proof fn law_shares(field: &str, r: Option<PercentKind>)
    requires
        call_ensures(percent_kind_for, (field,), r),
    ensures
        ({
            let n = without(plain_name(field@), '_');
            &&& has_sub(n, "percent"@) ==> r == Some(PercentKind::Hundred)
            &&& has_sub(n, "percentage"@) ==> r == Some(PercentKind::Hundred)
            &&& has_sub(n, "rate"@) && !has_sub(n, "percent"@) && !has_sub(n, "percentage"@) ==> r
                == Some(PercentKind::Unit)
            &&& !has_sub(n, "rate"@) && !has_sub(n, "percent"@) && !has_sub(n, "percentage"@)
                ==> r is None
        }),
{
}

/// A number whose name speaks of flags, bits or a mask is edited bit by bit.
pub proof fn law_flags(field: &str, r: Option<u32>)
    requires
        call_ensures(bitmask_kind_for, (field,), r),
    ensures
        ({
            let n = without(
                ascii_lowered(without_leading(after_last(field@, '.'), '_')),
                '_',
            );
            let flags = has_sub(n, "flag"@) || has_sub(n, "bitmask"@) || has_sub(n, "bitfield"@)
                || has_sub(n, "bits"@) || has_suffix(n, "mask"@);
            &&& flags ==> r == Some(32u32)
            &&& !flags ==> r is None
        }),
{
}

/// The name of a field speaks of a colour, whatever underscores are in it.
pub proof fn law_colour_names(field: &str, r: bool)
    requires
        call_ensures(field_looks_like_color, (field,), r),
    ensures
        ({
            let n = without(plain_name(field@), '_');
            &&& has_sub(n, "color"@) ==> r
            &&& has_sub(n, "colour"@) ==> r
            &&& has_sub(n, "tint"@) ==> r
            &&& has_sub(n, "rgb"@) ==> r
            &&& r ==> has_sub(n, "color"@) || has_sub(n, "colour"@) || has_sub(n, "tint"@)
                || has_sub(n, "rgb"@)
        }),
{
    reveal_strlit("rgb");
    reveal_strlit("rgba");
    let n = without(plain_name(field@), '_');
    if has_sub(n, "rgba"@) {
        let i = choose|i: int| crate::text::occurs_at(n, "rgba"@, i);
        assert(n.subrange(i, i + 3) =~= n.subrange(i, i + 4).take(3));
        assert("rgba"@.take(3) =~= "rgb"@);
        assert(crate::text::occurs_at(n, "rgb"@, i));
    }
}

/// Three or four numbers under the name of a colour are a colour, and nothing else
/// is.
pub proof fn law_lists_of_a_colour(name: &str, a: &[Json], r: bool, named: bool, other: int)
    requires
        call_ensures(is_color_array, (name, a), r),
        call_ensures(field_looks_like_color, (name,), named),
    ensures
        named && (a@.len() == 3 || a@.len() == 4) && (forall|i: int|
            0 <= i < a@.len() ==> (#[trigger] a@[i])@ is Int || a@[i]@ is Float) ==> r,
        !named ==> !r,
        a@.len() != 3 && a@.len() != 4 ==> !r,
        0 <= other < a@.len() && !(a@[other]@ is Int) && !(a@[other]@ is Float) ==> !r,
{
    let t = trees(a@);
    if 0 <= other < a@.len() {
        assert(t[other] == a@[other]@);
    }
    assert forall|i: int|
        (forall|i: int| 0 <= i < a@.len() ==> (#[trigger] a@[i])@ is Int || a@[i]@ is Float) && 0
            <= i < t.len() implies crate::ui::field_panel::is_number(#[trigger] t[i]) by {
        assert(t[i] == a@[i]@);
    }
}

/// A group under the name of a colour that holds numbers alone, among them a red, a
/// green and a blue one, is a colour. One with another value or fewer than three
/// members is not.
pub proof fn law_groups_of_a_colour(
    name: &str,
    obj: &Vec<(String, Json)>,
    r: bool,
    named: bool,
    i: int,
    j: int,
    k: int,
)
    requires
        call_ensures(is_color_object, (name, obj), r),
        call_ensures(field_looks_like_color, (name,), named),
    ensures
        !named ==> !r,
        obj@.len() < 3 ==> !r,
        0 <= i < obj@.len() && !(obj@[i].1@ is Int) && !(obj@[i].1@ is Float) ==> !r,
        named && 0 <= i < j < k < obj@.len() && (forall|x: int|
            0 <= x < obj@.len() ==> (#[trigger] obj@[x]).1@ is Int || obj@[x].1@ is Float)
            && channel(obj@[i].0@) && channel(obj@[j].0@) && channel(obj@[k].0@) ==> r,
{
    let e = members(obj@);
    lemma_channels_at_most(e, e.len());
    if 0 <= i < obj@.len() {
        assert(e[i] == (obj@[i].0@, obj@[i].1@));
    }
    if named && 0 <= i < j < k < obj@.len() && (forall|x: int|
        0 <= x < obj@.len() ==> (#[trigger] obj@[x]).1@ is Int || obj@[x].1@ is Float) && channel(
        obj@[i].0@,
    ) && channel(obj@[j].0@) && channel(obj@[k].0@) {
        assert(e[j] == (obj@[j].0@, obj@[j].1@));
        assert(e[k] == (obj@[k].0@, obj@[k].1@));
        lemma_channels_at_least(e, e.len(), i, j, k);
        assert forall|x: int| 0 <= x < e.len() implies crate::ui::field_panel::is_number(
            (#[trigger] e[x]).1,
        ) by {
            assert(e[x] == (obj@[x].0@, obj@[x].1@));
        }
    }
}

/// A name of one of the channels red, green and blue.
pub open spec fn channel(n: Seq<char>) -> bool {
    n == "r"@ || n == "g"@ || n == "b"@ || n == "R"@ || n == "G"@ || n == "B"@ || n == "red"@ || n
        == "green"@ || n == "blue"@
}

proof fn lemma_channels_at_most(e: Seq<(Seq<char>, Tree)>, n: nat)
    requires
        n <= e.len(),
    ensures
        channel_count(e, n) <= n,
    decreases n,
{
    if n > 0 {
        lemma_channels_at_most(e, (n - 1) as nat);
    }
}

proof fn lemma_channels_at_least(e: Seq<(Seq<char>, Tree)>, n: nat, i: int, j: int, k: int)
    requires
        0 <= i < j < k,
        n <= e.len(),
        i < n ==> channel(e[i].0),
        j < n ==> channel(e[j].0),
        k < n ==> channel(e[k].0),
    ensures
        channel_count(e, n) >= (if i < n {
            1int
        } else {
            0
        }) + (if j < n {
            1int
        } else {
            0
        }) + (if k < n {
            1int
        } else {
            0
        }),
    decreases n,
{
    if n > 0 {
        lemma_channels_at_least(e, (n - 1) as nat, i, j, k);
    }
}

/// A bit that is switched is as it was switched to, and every other bit stays.
pub proof fn law_bits_are_switched(v: i64, b: u64, on: bool, r: i64, k: u64, now: bool, was: bool)
    requires
        b < 64,
        k < 64,
        call_ensures(toggle_bit, (v, b, on), r),
        call_ensures(bit_is_on, (r, k), now),
        call_ensures(bit_is_on, (v, k), was),
    ensures
        k == b ==> now == on,
        k != b ==> now == was,
{
}

/// The lowest bit tells odd numbers from even ones, and the highest the negative.
pub proof fn law_lowest_and_highest_bit(v: i64, low: bool, high: bool)
    requires
        call_ensures(bit_is_on, (v, 0), low),
        call_ensures(bit_is_on, (v, 63), high),
    ensures
        low <==> v % 2 == 1,
        high <==> v < 0,
{
    let u = crate::ui::field_panel::word(v as int) as u64;
    assert(((u >> 0u64) & 1 == 1) == (u % 2 == 1)) by (bit_vector);
    assert(((u >> 63u64) & 1 == 1) == (u >= 0x8000_0000_0000_0000)) by (bit_vector);
}

/// The word of an integer is its own value where it is not negative, and two's
/// complement where it is; the way back is the same.
pub proof fn law_words(v: i64, u: u64, w: u64, x: i64)
    requires
        call_ensures(to_word, (v,), u),
        call_ensures(from_word, (w,), x),
    ensures
        v >= 0 ==> u == v,
        v < 0 ==> u == v + 0x1_0000_0000_0000_0000,
        w <= i64::MAX ==> x == w,
        w > i64::MAX ==> x == w - 0x1_0000_0000_0000_0000,
        u == w ==> x == v,
{
}

/// An integer that is edited is stored as it is shown; one that was read as a large
/// number without a sign is stored as such.
pub proof fn law_edited_integer(value: i64, unsigned: bool, r: Json)
    requires
        call_ensures(integer_edit, (value, unsigned), r),
    ensures
        value >= 0 || !unsigned ==> r@ == Tree::Int(value as int),
        value < 0 && unsigned ==> r@ == Tree::Int(value + 0x1_0000_0000_0000_0000),
{
}

/// A share starts within a hundred, and unchanged where it lies there.
pub proof fn law_share_starts_within(v: i64, r: i64)
    requires
        call_ensures(percent_start, (v,), r),
    ensures
        0 <= r <= 100,
        0 <= v <= 100 ==> r == v,
        v < 0 ==> r == 0,
        v > 100 ==> r == 100,
{
}

/// A text holds a Korean syllable, a Chinese character or Japanese kana exactly
/// where one of its characters lies in those ranges.
pub proof fn law_east_asian_text(s: &str, r: bool, i: int)
    requires
        call_ensures(has_cjk, (s,), r),
        0 <= i < s@.len(),
    ensures
        '\u{AC00}' <= s@[i] <= '\u{D7A3}' ==> r,
        '\u{4E00}' <= s@[i] <= '\u{9FFF}' ==> r,
        '\u{3040}' <= s@[i] <= '\u{30FF}' ==> r,
        is_ascii_chars(s@) ==> !r,
{
    assert(crate::ui::field_panel::is_cjk(s@[i]) == (0xAC00 <= s@[i] as u32 <= 0xD7A3 || 0x4E00
        <= s@[i] as u32 <= 0x9FFF || 0x3040 <= s@[i] as u32 <= 0x309F || 0x30A0 <= s@[i] as u32
        <= 0x30FF));
}

/// The path of a member leads to the member of the value at the path, and that of
/// an element to the element.
pub proof fn law_paths_lead_on(
    path: &str,
    name: &str,
    i: usize,
    m: String,
    e: String,
    t: Tree,
)
    requires
        call_ensures(child_member, (path, name), m),
        call_ensures(child_element, (path, i), e),
        path_hops(path@) is Some,
        !name@.contains('.'),
        !name@.contains('['),
        split_on(path@, '.').last().len() > 0,
    ensures
        value_at(t, m@) == match value_at(t, path@) {
            Some(x) => crate::json::tree_get(x, name@),
            None => None,
        },
        value_at(t, e@) == match value_at(t, path@) {
            Some(Tree::Arr(a)) => if i < a.len() {
                Some(a[i as int])
            } else {
                None
            },
            _ => None,
        },
{
    law_member_path(path@, name@);
    law_element_path(path@, i as nat);
    let h = path_hops(path@)->Some_0;
    lemma_one_more_hop(t, h, Hop::Member(name@));
    lemma_one_more_hop(t, h, Hop::Element(i as int));
}

proof fn lemma_one_more_hop(t: Tree, h: Seq<Hop>, hop: Hop)
    ensures
        tree_at(t, h.push(hop)) == match tree_at(t, h) {
            Some(x) => tree_at(x, seq![hop]),
            None => None,
        },
        tree_at(t, seq![hop]) == match hop {
            Hop::Member(n) => crate::json::tree_get(t, n),
            Hop::Element(i) => match t {
                Tree::Arr(a) => if 0 <= i < a.len() {
                    Some(a[i])
                } else {
                    None
                },
                _ => None,
            },
        },
        tree_at(t, h) is Some ==> tree_at(tree_at(t, h)->Some_0, seq![hop]) == match hop {
            Hop::Member(n) => crate::json::tree_get(tree_at(t, h)->Some_0, n),
            Hop::Element(i) => match tree_at(t, h)->Some_0 {
                Tree::Arr(a) => if 0 <= i < a.len() {
                    Some(a[i])
                } else {
                    None
                },
                _ => None,
            },
        },
    decreases h.len(),
{
    let p = h.push(hop);
    reveal_with_fuel(tree_at, 3);
    assert(seq![hop].drop_first() =~= Seq::<Hop>::empty());
    if h.len() == 0 {
        assert(p =~= seq![hop]);
    } else {
        assert(p.drop_first() =~= h.drop_first().push(hop));
        match h[0] {
            Hop::Member(n) => {
                match crate::json::tree_get(t, n) {
                    Some(c) => lemma_one_more_hop(c, h.drop_first(), hop),
                    None => {},
                }
            },
            Hop::Element(i) => {
                match t {
                    Tree::Arr(a) => {
                        if 0 <= i < a.len() {
                            lemma_one_more_hop(a[i], h.drop_first(), hop);
                        }
                    },
                    _ => {},
                }
            },
        }
    }
}

/// Edits in a row are all made in the table in focus, one after the other: where the
/// last one sets a member of the entry, its value is there in the end, whatever came
/// before, and the change is noted. Other tables stay.
pub proof fn law_last_edit_stands(
    state: &mut AppState,
    entry: usize,
    edits: &Vec<PendingEdit>,
    now: u64,
    active: usize,
    v: Json,
    other: int,
)
    requires
        old(state).tabs_wf(),
        old(state).active_tab_idx == Some(active),
        active < old(state).open_tabs@.len(),
        entry < old(state).open_tabs@[active as int].entries@.len(),
        old(state).open_tabs@[active as int].entries@[entry as int]@ is Obj,
        call_ensures(apply_edits, (state, entry, edits, now), ()),
        edits@.len() > 0,
        edits@.last().value == Some(v),
        !edits@.last().path@.contains('.'),
        !edits@.last().path@.contains('['),
        0 <= other < old(state).open_tabs@.len(),
    ensures
        value_at(
            final(state).open_tabs@[active as int].entries@[entry as int]@,
            edits@.last().path@,
        ) == Some(v@),
        final(state).open_tabs@[active as int].changes@.contains(
            (old(state).open_tabs@[active as int].entry_keys@[entry as int], edits@.last().path@),
        ),
        other != active ==> final(state).open_tabs@[other] == old(state).open_tabs@[other],
{
    let steps = choose|steps: Seq<ActiveTable>|
        {
            &&& #[trigger] edits_made(steps, entry as int, edits@, now)
            &&& steps[0] == old(state).open_tabs@[old(state).focus()->Some_0]
            &&& final(state).open_tabs@ == old(state).open_tabs@.update(
                old(state).focus()->Some_0,
                steps.last(),
            )
        };
    let n = edits@.len() - 1;
    lemma_still_a_group(steps, entry as int, edits@, now, n);
    assert(crate::ui::field_panel::edit_made(steps[n], steps[n + 1], entry as int, edits@[n], now));
    let (b, a) = (steps[n], steps[n + 1]);
    assert(steps.last() == a);
    let p = edits@.last().path@;
    let t = b.entries@[entry as int]@;
    lemma_one_name(p);
    let h = path_hops(p)->Some_0;
    reveal_with_fuel(crate::edit_path::tree_with, 2);
    assert(value_with(t, p, v@) is Some);
    crate::edit_path::law_set_get(t, h, v@);
    assert(trees(a.entries@)[entry as int] == a.entries@[entry as int]@);
    let (c, key) = (b.changes@, b.entry_keys@[entry as int]);
    if !c.contains((key, p)) {
        assert(c.push((key, p))[c.len() as int] == (key, p));
    }
}

proof fn lemma_one_name(p: Seq<char>)
    requires
        !p.contains('.'),
        !p.contains('['),
    ensures
        path_hops(p) == Some(seq![Hop::Member(p)]),
{
    crate::text::lemma_split_whole(p, '.');
    crate::text::lemma_split_whole(p, '[');
    reveal_with_fuel(crate::edit_path::parts_hops, 2);
    reveal_with_fuel(crate::edit_path::element_hops, 2);
    assert(seq![Hop::Member(p)] + Seq::<Hop>::empty() =~= seq![Hop::Member(p)]);
    assert(Seq::<Hop>::empty() + seq![Hop::Member(p)] =~= seq![Hop::Member(p)]);
}

proof fn lemma_elements(pieces: Seq<Seq<char>>, n: nat)
    ensures
        crate::edit_path::element_hops(pieces, n) is Some ==> crate::edit_path::element_hops(
            pieces,
            n,
        )->Some_0.len() == n,
    decreases n,
{
    if n > 0 {
        lemma_elements(pieces, (n - 1) as nat);
    }
}

proof fn lemma_some_hop(p: Seq<char>)
    ensures
        path_hops(p) is Some ==> path_hops(p)->Some_0.len() > 0,
{
    crate::text::lemma_split_nonempty(p, '.');
    let parts = split_on(p, '.');
    let last = parts[parts.len() - 1];
    crate::text::lemma_split_nonempty(last, '[');
    let pieces = split_on(last, '[');
    lemma_elements(pieces, (pieces.len() - 1) as nat);
}

proof fn lemma_still_a_group(
    steps: Seq<ActiveTable>,
    entry: int,
    edits: Seq<PendingEdit>,
    now: u64,
    n: int,
)
    requires
        edits_made(steps, entry, edits, now),
        0 <= n <= edits.len(),
        0 <= entry < steps[0].entries@.len(),
        steps[0].entries@[entry]@ is Obj,
    ensures
        steps[n].entries@.len() == steps[0].entries@.len(),
        steps[n].entries@[entry]@ is Obj,
        steps[n].entry_keys == steps[0].entry_keys,
    decreases n,
{
    if n > 0 {
        lemma_still_a_group(steps, entry, edits, now, n - 1);
        let (b, a) = (steps[n - 1], steps[n - 1 + 1]);
        assert(crate::ui::field_panel::edit_made(b, a, entry, edits[n - 1], now));
        lemma_some_hop(edits[n - 1].path@);
        assert(a == steps[n]);
        assert(trees(a.entries@).len() == a.entries@.len());
        assert(trees(b.entries@).len() == b.entries@.len());
        assert(a.entries@.len() == b.entries@.len());
        assert(trees(a.entries@)[entry] == a.entries@[entry]@);
        assert(trees(b.entries@)[entry] == b.entries@[entry]@);
    }
}

/// A row of edits with one more is the row and then that one.
pub proof fn law_edits_one_after_another(
    steps: Seq<ActiveTable>,
    next: ActiveTable,
    entry: int,
    edits: Seq<PendingEdit>,
    edit: PendingEdit,
    now: u64,
)
    requires
        steps.len() == edits.len() + 1,
    ensures
        edits_made(steps.push(next), entry, edits.push(edit), now) <==> edits_made(
            steps,
            entry,
            edits,
            now,
        ) && crate::ui::field_panel::edit_made(steps.last(), next, entry, edit, now),
{
    let (s, e) = (steps.push(next), edits.push(edit));
    let n = edits.len() as int;
    if edits_made(s, entry, e, now) {
        assert forall|k: int| 0 <= k < n implies crate::ui::field_panel::edit_made(
            #[trigger] steps[k],
            steps[k + 1],
            entry,
            edits[k],
            now,
        ) by {
            assert(crate::ui::field_panel::edit_made(s[k], s[k + 1], entry, e[k], now));
        }
        assert(crate::ui::field_panel::edit_made(s[n], s[n + 1], entry, e[n], now));
    }
    if edits_made(steps, entry, edits, now) && crate::ui::field_panel::edit_made(
        steps.last(),
        next,
        entry,
        edit,
        now,
    ) {
        assert forall|k: int| 0 <= k < e.len() implies crate::ui::field_panel::edit_made(
            #[trigger] s[k],
            s[k + 1],
            entry,
            e[k],
            now,
        ) by {
            if k < n {
                assert(crate::ui::field_panel::edit_made(
                    steps[k],
                    steps[k + 1],
                    entry,
                    edits[k],
                    now,
                ));
            }
        }
    }
}

/// A text of few enough lines is shown whole; of a longer one the first lines are,
/// and then a mark.
pub proof fn law_first_lines(s: &str, max: usize, r: String)
    requires
        call_ensures(truncate_lines, (s, max), r),
    ensures
        text_lines(s@).len() == 1 && max >= 1 ==> r@ == text_lines(s@)[0] + "\n"@,
        text_lines(s@).len() > max && max == 1 ==> r@ == text_lines(s@)[0] + "\n"@ + "...\n"@,
        text_lines(s@).len() > max && max == 0 ==> r@ == "...\n"@,
        text_lines(s@).len() == 2 && max >= 2 ==> r@ == text_lines(s@)[0] + "\n"@ + text_lines(
            s@,
        )[1] + "\n"@,
{
    reveal_with_fuel(crate::ui::field_panel::broken, 3);
    let l = text_lines(s@);
    assert(Seq::<char>::empty() + l[0] =~= l[0]);
    assert(Seq::<char>::empty() + "...\n"@ =~= "...\n"@);
}

/// Which entry of which table is edited: the selected one of the table in focus.
pub proof fn law_entry_that_is_edited(
    state: &AppState,
    r: Result<(usize, usize), &'static str>,
    tab: usize,
    entry: usize,
)
    requires
        call_ensures(selected_entry, (state,), r),
    ensures
        state.active_tab_idx == Some(tab) && tab < state.open_tabs@.len()
            && state.open_tabs@[tab as int].selected_entry_idx == Some(entry) && entry
            < state.open_tabs@[tab as int].entries@.len() ==> r == Ok::<(usize, usize), &'static str>(
            (tab, entry),
        ),
        state.active_tab_idx is None ==> r is Err,
        r is Ok ==> r->Ok_0.0 < state.open_tabs@.len() && r->Ok_0.1
            < state.open_tabs@[r->Ok_0.0 as int].entries@.len(),
{
}

/// An entry can be reset where it has a change noted and there is a shipped one.
pub proof fn law_reset_is_offered(tab: &ActiveTable, entry: usize, r: bool, path: Seq<char>)
    requires
        tab.wf(),
        entry < tab.entries@.len(),
        call_ensures(can_reset_entry, (tab, entry), r),
    ensures
        tab.changes@.contains((tab.entry_keys@[entry as int], path)) && entry < tab.vanilla@.len()
            ==> r,
        r ==> entry < tab.vanilla@.len() && exists|i: int|
            0 <= i < tab.changes@.len() && (#[trigger] tab.changes@[i]).0
                == tab.entry_keys@[entry as int],
{
    if tab.changes@.contains((tab.entry_keys@[entry as int], path)) {
        let i = choose|i: int|
            0 <= i < tab.changes@.len() && tab.changes@[i] == (tab.entry_keys@[entry as int], path);
        assert(tab.changes@[i].0 == tab.entry_keys@[entry as int]);
    }
}

/// A changed field is marked, and its name is shown in any case; lists and groups
/// with the number of what they hold.
pub proof fn law_labels_of_fields(name: &str, changed: bool, n: usize, f: String, l: String, g: String)
    requires
        call_ensures(field_label, (name, changed), f),
        call_ensures(list_header, (name, changed, n), l),
        call_ensures(group_header, (name, changed, n), g),
    ensures
        changed ==> f@ == "\u{25CF} "@ + name@,
        !changed ==> f@ == name@,
        !changed ==> l@ == name@ + " ["@ + dec(n as nat) + " items]"@,
        changed ==> l@ == "\u{25CF} "@ + name@ + " ["@ + dec(n as nat) + " items]"@,
        !changed ==> g@ == name@ + " {"@ + dec(n as nat) + " fields}"@,
        changed ==> g@ == "\u{25CF} "@ + name@ + " {"@ + dec(n as nat) + " fields}"@,
{
    reveal_strlit("");
    assert(""@ + name@ =~= name@);
}

/// Of the texts in a blob those of three characters and more are shown.
pub proof fn law_shown_runs(runs: &Vec<TextRun>, r: Vec<usize>, i: usize)
    requires
        call_ensures(interesting_runs, (runs,), r),
        i < runs@.len(),
    ensures
        r@.contains(i) <==> runs@[i as int].text@.len() >= 3,
{
    let keep = run_kept(runs@);
    assert(runs@.len() == runs.len());
    crate::rows::law_picked(runs@.len(), keep);
    assert(keep(i as int) == (runs@[i as int].text@.len() >= 3));
}

/// At most so many rows are shown, and the rest is counted.
pub proof fn law_capped_rows(total: usize, r: (usize, usize))
    requires
        call_ensures(cap_rows, (total,), r),
    ensures
        r.0 + r.1 == total,
        r.0 <= 500,
        r.1 > 0 ==> r.0 == 500,
{
}

} // verus!
