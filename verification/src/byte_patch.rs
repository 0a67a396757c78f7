//! Find-and-replace patches to the bytes of a file, and the form that drafts one.

use vstd::prelude::*;
use vstd::utf8::encode_utf8;
use crate::digits::{dec, dec_usize, digit_value, hex_pad, push_hex};
use crate::state::{failure_note, info_note, warn_note, Note, Toasts};
use crate::text::{chars_of, concat2, concat3, trim, trimmed};

verus! {

broadcast use vstd::seq_lib::group_seq_properties;

/// A patch: every occurrence of some bytes is replaced by others.
#[derive(Debug)]
pub struct BytePatch {
    pub name: String,
    pub find: Vec<u8>,
    pub replace: Vec<u8>,
    pub comment: String,
    /// The two may differ in length.
    pub allow_resize: bool,
}

/// What a patch says.
pub struct PatchText {
    pub name: Seq<char>,
    pub find: Seq<u8>,
    pub replace: Seq<u8>,
    pub comment: Seq<char>,
    pub allow_resize: bool,
}

impl View for BytePatch {
    type V = PatchText;

    open spec fn view(&self) -> PatchText {
        PatchText {
            name: self.name@,
            find: self.find@,
            replace: self.replace@,
            comment: self.comment@,
            allow_resize: self.allow_resize,
        }
    }
}

/// What patches say.
pub open spec fn patch_texts(v: Seq<BytePatch>) -> Seq<PatchText> {
    v.map_values(|p: BytePatch| p@)
}

/// The patches for one file.
#[derive(Debug)]
pub struct BytePatchDoc {
    pub dir_path: String,
    pub filename: String,
    pub description: String,
    pub patches: Vec<BytePatch>,
}

impl BytePatchDoc {
    /// No patches yet for a file.
    pub fn new(dir_path: String, filename: String) -> (r: BytePatchDoc)
        ensures
            r.dir_path == dir_path,
            r.filename == filename,
            r.description@.len() == 0,
            r.patches@.len() == 0,
    {
        BytePatchDoc { dir_path, filename, description: String::new(), patches: Vec::new() }
    }
}

/// The form that drafts a patch.
#[derive(Debug)]
pub struct PatchDraft {
    pub name: String,
    pub find: String,
    pub replace: String,
    /// What is typed to find and to replace is read as hexadecimal digits.
    pub hex_mode: bool,
    pub allow_resize: bool,
    pub comment: String,
}

impl PatchDraft {
    /// Nothing is typed, and both switches are off.
    pub open spec fn is_blank(&self) -> bool {
        &&& self.name@.len() == 0
        &&& self.find@.len() == 0
        &&& self.replace@.len() == 0
        &&& !self.hex_mode
        &&& !self.allow_resize
        &&& self.comment@.len() == 0
    }
}

impl Default for PatchDraft {
    fn default() -> (r: Self)
        ensures
            r.is_blank(),
    {
        PatchDraft {
            name: String::new(),
            find: String::new(),
            replace: String::new(),
            hex_mode: false,
            allow_resize: false,
            comment: String::new(),
        }
    }
}

/// The texts of the form are blank, and its switches are as they were.
pub open spec fn draft_cleared(before: PatchDraft, after: PatchDraft) -> bool {
    &&& after.name@.len() == 0
    &&& after.find@.len() == 0
    &&& after.replace@.len() == 0
    &&& after.comment@.len() == 0
    &&& after.hex_mode == before.hex_mode
    &&& after.allow_resize == before.allow_resize
}

impl PatchDraft {
    /// Blanks the texts of the form; its switches stay.
    pub fn clear(&mut self)
        ensures
            draft_cleared(*old(self), *final(self)),
    {
        self.name = String::new();
        self.find = String::new();
        self.replace = String::new();
        self.comment = String::new();
    }

    /// What the fields to find and to replace ask for.
    pub fn hint(&self) -> (r: &'static str)
        ensures
            r@ == if self.hex_mode {
                "hex bytes: 46 61 6c 73 65"@
            } else {
                "ASCII: False"@
            },
    {
        if self.hex_mode {
            "hex bytes: 46 61 6c 73 65"
        } else {
            "ASCII: False"
        }
    }
}

/// Characters that may stand between hexadecimal digits.
pub open spec fn is_gap(c: char) -> bool {
    c == ' ' || c == '\t' || c == '\n' || c == '\x0C' || c == '\r' || c == ','
}

/// The digits among the first `n` characters.
pub open spec fn nibbles(s: Seq<char>, n: nat) -> Seq<char>
    decreases n,
{
    if n == 0 {
        Seq::empty()
    } else if is_gap(s[n - 1]) {
        nibbles(s, (n - 1) as nat)
    } else {
        nibbles(s, (n - 1) as nat).push(s[n - 1])
    }
}

/// A character that neither is a hexadecimal digit nor may stand between some.
pub open spec fn is_stray(c: char) -> bool {
    !is_gap(c) && digit_value(c, 16) is None
}

/// The first stray character stands at `i`.
pub open spec fn first_stray(s: Seq<char>, i: int) -> bool {
    0 <= i < s.len() && is_stray(s[i]) && forall|j: int| 0 <= j < i ==> !is_stray(#[trigger] s[j])
}

/// No character is stray.
pub open spec fn no_stray(s: Seq<char>) -> bool {
    forall|j: int| 0 <= j < s.len() ==> !is_stray(#[trigger] s[j])
}

/// The bytes that pairs of digits write.
pub open spec fn paired(d: Seq<char>) -> Seq<u8> {
    Seq::new(
        d.len() / 2,
        |i: int|
            (digit_value(d[2 * i], 16)->Some_0 * 16 + digit_value(d[2 * i + 1], 16)->Some_0) as u8,
    )
}

/// `r` is what a text is read as: its bytes, or the bytes that its pairs of
/// hexadecimal digits write.
pub open spec fn read_as(input: Seq<char>, hex_mode: bool, r: Result<Vec<u8>, String>) -> bool {
    if !hex_mode {
        r matches Ok(b) && b@ == encode_utf8(input)
    } else {
        let d = nibbles(input, input.len());
        match r {
            Ok(b) => no_stray(input) && d.len() % 2 == 0 && b@ == paired(d),
            Err(m) => {
                ||| exists|i: int| #[trigger] first_stray(input, i) && m@
                    == "invalid hex character '"@ + seq![input[i]] + "'"@
                ||| no_stray(input) && d.len() % 2 == 1 && m@
                    == "hex string has odd nibble count"@
            },
        }
    }
}

fn nibble(c: char) -> (r: Option<u8>)
    ensures
        match r {
            Some(v) => digit_value(c, 16) == Some(v as nat) && v < 16,
            None => digit_value(c, 16) is None,
        },
{
    let u: u32 = c as u32;
    if 48 <= u && u <= 57 {
        Some((u - 48) as u8)
    } else if 97 <= u && u <= 102 {
        Some((u - 87) as u8)
    } else if 65 <= u && u <= 70 {
        Some((u - 55) as u8)
    } else {
        None
    }
}

/// Reads a text as bytes: as its own bytes, or as pairs of hexadecimal digits.
pub fn parse_byte_input(input: &str, hex_mode: bool) -> (r: Result<Vec<u8>, String>)
    ensures
        read_as(input@, hex_mode, r),
{
    if !hex_mode {
        let b = input.as_bytes();
        return Ok(vstd::slice::slice_to_vec(b));
    }
    let v = chars_of(input);
    let mut out: Vec<u8> = Vec::new();
    let mut half: Option<u8> = None;
    let mut i: usize = 0;
    assert(out@ =~= paired(nibbles(v@, 0)));
    while i < v.len()
        invariant
            0 <= i <= v.len(),
            hex_mode,
            v@ == input@,
            forall|j: int| 0 <= j < i ==> !is_stray(#[trigger] v@[j]),
            out@ == paired(nibbles(v@, i as nat)),
            match half {
                None => nibbles(v@, i as nat).len() % 2 == 0,
                Some(h) => nibbles(v@, i as nat).len() % 2 == 1 && digit_value(
                    nibbles(v@, i as nat).last(),
                    16,
                ) == Some(h as nat) && h < 16,
            },
        decreases v.len() - i,
    {
        let c = v[i];
        let ghost d0 = nibbles(v@, i as nat);
        if c == ' ' || c == '\t' || c == '\n' || c == '\x0C' || c == '\r' || c == ',' {
            i = i + 1;
            continue ;
        }
        match nibble(c) {
            None => {
                let mut m = "invalid hex character '".to_owned();
                m.push(c);
                m.push_str("'");
                assert(m@ =~= "invalid hex character '"@ + seq![input@[i as int]] + "'"@);
                assert(is_stray(input@[i as int]));
                assert(first_stray(input@, i as int));
                return Err(m);
            },
            Some(n) => {
                let ghost d1 = nibbles(v@, (i + 1) as nat);
                assert(d1 == d0.push(c));
                match half {
                    None => {
                        half = Some(n);
                        assert(paired(d1) =~= paired(d0));
                    },
                    Some(h) => {
                        out.push(h * 16 + n);
                        half = None;
                        assert(d1[d0.len() - 1] == d0.last());
                        assert(paired(d1) =~= paired(d0).push((h * 16 + n) as u8));
                    },
                }
            },
        }
        i = i + 1;
    }
    if half.is_some() {
        return Err("hex string has odd nibble count".to_owned());
    }
    Ok(out)
}

/// Bytes as pairs of hexadecimal digits with a blank behind each.
pub open spec fn hex_pairs(b: Seq<u8>, upper: bool) -> Seq<char>
    decreases b.len(),
{
    if b.len() == 0 {
        Seq::empty()
    } else {
        hex_pairs(b.drop_last(), upper) + hex_pad(b.last() as nat, 2, upper) + seq![' ']
    }
}

proof fn lemma_nibbles_prefix(s: Seq<char>, t: Seq<char>, n: nat)
    requires
        n <= s.len(),
        n <= t.len(),
        forall|i: int| 0 <= i < n ==> s[i] == t[i],
    ensures
        nibbles(s, n) == nibbles(t, n),
    decreases n,
{
    if n > 0 {
        lemma_nibbles_prefix(s, t, (n - 1) as nat);
    }
}

proof fn lemma_two_digits(b: u8, upper: bool)
    ensures
        ({
            let p = hex_pad(b as nat, 2, upper);
            &&& p.len() == 2
            &&& digit_value(p[0], 16) == Some((b / 16) as nat)
            &&& digit_value(p[1], 16) == Some((b % 16) as nat)
            &&& !is_gap(p[0])
            &&& !is_gap(p[1])
        }),
{
    reveal_with_fuel(crate::digits::digits, 3);
    let d = crate::digits::digits(b as nat, 16, upper);
    let p = hex_pad(b as nat, 2, upper);
    if b < 16 {
        assert(d.len() == 1);
        assert(p =~= seq!['0'] + d);
    } else {
        assert(crate::digits::digits((b / 16) as nat, 16, upper).len() == 1);
        assert(d.len() == 2);
        assert(crate::digits::zeros(0) =~= Seq::<char>::empty());
        assert(p =~= d);
    }
}

/// Bytes that are written as hexadecimal pairs are read back as they were.
pub proof fn law_hex_pairs_read_back(b: Seq<u8>, upper: bool)
    ensures
        no_stray(hex_pairs(b, upper)),
        nibbles(hex_pairs(b, upper), hex_pairs(b, upper).len()).len() == 2 * b.len(),
        paired(nibbles(hex_pairs(b, upper), hex_pairs(b, upper).len())) == b,
    decreases b.len(),
{
    let s = hex_pairs(b, upper);
    if b.len() == 0 {
        assert(paired(nibbles(s, s.len())) =~= b);
    } else {
        let t = hex_pairs(b.drop_last(), upper);
        law_hex_pairs_read_back(b.drop_last(), upper);
        lemma_two_digits(b.last(), upper);
        let p = hex_pad(b.last() as nat, 2, upper);
        let n = t.len();
        assert(s.len() == n + 3);
        assert(s[n as int] == p[0] && s[n as int + 1] == p[1] && s[n as int + 2] == ' ');
        assert forall|i: int| 0 <= i < n implies s[i] == t[i] by {}
        lemma_nibbles_prefix(s, t, n);
        let d = nibbles(t, n);
        assert(nibbles(s, n + 1) == d.push(p[0]));
        assert(nibbles(s, n + 2) == d.push(p[0]).push(p[1]));
        assert(nibbles(s, n + 3) == d.push(p[0]).push(p[1]));
        let e = d.push(p[0]).push(p[1]);
        assert forall|j: int| 0 <= j < s.len() implies !is_stray(#[trigger] s[j]) by {
            if j < n {
                assert(s[j] == t[j]);
            }
        }
        assert(paired(e) =~= b) by {
            assert forall|i: int| 0 <= i < b.len() implies paired(e)[i] == b[i] by {
                if i < b.len() - 1 {
                    assert(e[2 * i] == d[2 * i] && e[2 * i + 1] == d[2 * i + 1]);
                    assert(paired(d)[i] == b.drop_last()[i]);
                } else {
                    assert(e[2 * i] == p[0] && e[2 * i + 1] == p[1]);
                    let x = b[i];
                    assert((x / 16) * 16 + x % 16 == x);
                }
            }
        }
    }
}

/// A byte in a preview: itself where it is plain ASCII, else as an escape.
pub open spec fn preview_byte(b: u8) -> Seq<char> {
    if 0x20 <= b < 0x7f && b != 0x22 && b != 0x5c {
        seq![b as char]
    } else {
        "\\x"@ + hex_pad(b as nat, 2, false)
    }
}

/// The first `n` bytes in a preview.
pub open spec fn preview_upto(b: Seq<u8>, n: nat) -> Seq<char>
    decreases n,
{
    if n == 0 {
        Seq::empty()
    } else {
        preview_upto(b, (n - 1) as nat) + preview_byte(b[n - 1])
    }
}

/// At most `max` bytes in quotes, with a mark where some are left out.
pub open spec fn preview_text(b: Seq<u8>, max: nat) -> Seq<char> {
    "\""@ + preview_upto(
        b,
        if b.len() > max {
            max
        } else {
            b.len()
        },
    ) + "\""@ + (if b.len() > max {
        "..."@
    } else {
        ""@
    })
}

/// At most `max` bytes in quotes.
pub fn preview_bytes(b: &[u8], max: usize) -> (r: String)
    ensures
        r@ == preview_text(b@, max as nat),
{
    let n: usize = if b.len() > max {
        max
    } else {
        b.len()
    };
    let mut s = "\"".to_owned();
    let ghost head = s@;
    let mut i: usize = 0;
    assert(s@ =~= head + preview_upto(b@, 0));
    while i < n
        invariant
            0 <= i <= n <= b.len(),
            s@ == head + preview_upto(b@, i as nat),
        decreases n - i,
    {
        let x: u8 = b[i];
        if 0x20 <= x && x < 0x7f && x != 0x22 && x != 0x5c {
            s.push(x as char);
        } else {
            s.push_str("\\x");
            push_hex(&mut s, x as u64, 2, false);
        }
        i = i + 1;
        assert(s@ =~= head + preview_upto(b@, i as nat));
    }
    s.push_str("\"");
    s.push_str(
        if b.len() > max {
            "..."
        } else {
            ""
        },
    );
    s
}

/// The line on a patch.
pub open spec fn patch_line(p: PatchText) -> Seq<char> {
    "'"@ + p.name + "' :: "@ + dec(p.find.len()) + "B "@ + preview_text(p.find, 24) + " -> "@ + dec(
        p.replace.len(),
    ) + "B "@ + preview_text(p.replace, 24) + (if p.allow_resize {
        " (resize)"@
    } else {
        ""@
    })
}

/// The line on a patch.
pub fn format_patch_summary(p: &BytePatch) -> (r: String)
    ensures
        r@ == patch_line(p@),
{
    let mut s = "'".to_owned();
    s.push_str(p.name.as_str());
    s.push_str("' :: ");
    s.push_str(dec_usize(p.find.len()).as_str());
    s.push_str("B ");
    s.push_str(preview_bytes(p.find.as_slice(), 24).as_str());
    s.push_str(" -> ");
    s.push_str(dec_usize(p.replace.len()).as_str());
    s.push_str("B ");
    s.push_str(preview_bytes(p.replace.as_slice(), 24).as_str());
    s.push_str(
        if p.allow_resize {
            " (resize)"
        } else {
            ""
        },
    );
    s
}

/// How many of the first `n` bytes differ.
pub open spec fn differing(a: Seq<u8>, b: Seq<u8>, n: nat) -> nat
    decreases n,
{
    if n == 0 {
        0
    } else {
        differing(a, b, (n - 1) as nat) + (if a[n - 1] != b[n - 1] {
            1nat
        } else {
            0
        })
    }
}

/// The number of bytes in which two contents differ; each byte that one is
/// longer by counts.
pub open spec fn changed_bytes(a: Seq<u8>, b: Seq<u8>) -> nat {
    if a.len() <= b.len() {
        differing(a, b, a.len()) + (b.len() - a.len()) as nat
    } else {
        differing(a, b, b.len()) + (a.len() - b.len()) as nat
    }
}

/// The number of bytes in which two contents differ.
pub fn changed_byte_count(a: &[u8], b: &[u8]) -> (r: usize)
    ensures
        r == changed_bytes(a@, b@),
{
    let n: usize = if a.len() <= b.len() {
        a.len()
    } else {
        b.len()
    };
    let mut diff: usize = 0;
    let mut i: usize = 0;
    while i < n
        invariant
            0 <= i <= n,
            n <= a.len(),
            n <= b.len(),
            diff <= i,
            diff == differing(a@, b@, i as nat),
        decreases n - i,
    {
        if a[i] != b[i] {
            diff = diff + 1;
        }
        i = i + 1;
    }
    if a.len() <= b.len() {
        diff + (b.len() - a.len())
    } else {
        diff + (a.len() - b.len())
    }
}

/// Contents differ in no byte exactly when they are the same, and the order of
/// the two does not count.
pub proof fn law_changed_bytes(a: Seq<u8>, b: Seq<u8>)
    ensures
        changed_bytes(a, b) == 0 <==> a == b,
        changed_bytes(a, b) == changed_bytes(b, a),
{
    let n = if a.len() <= b.len() {
        a.len()
    } else {
        b.len()
    };
    lemma_differing(a, b, n);
    lemma_differing_swap(a, b, n);
    if a.len() == b.len() && differing(a, b, n) == 0 {
        assert(a =~= b);
    }
}

proof fn lemma_differing(a: Seq<u8>, b: Seq<u8>, n: nat)
    ensures
        differing(a, b, n) == 0 <==> forall|i: int| 0 <= i < n ==> a[i] == b[i],
    decreases n,
{
    if n > 0 {
        lemma_differing(a, b, (n - 1) as nat);
        if differing(a, b, n) == 0 {
            assert forall|i: int| 0 <= i < n implies a[i] == b[i] by {}
        } else if forall|i: int| 0 <= i < n ==> a[i] == b[i] {
            assert(a[n - 1] == b[n - 1]);
        }
    }
}

proof fn lemma_differing_swap(a: Seq<u8>, b: Seq<u8>, n: nat)
    ensures
        differing(a, b, n) == differing(b, a, n),
    decreases n,
{
    if n > 0 {
        lemma_differing_swap(a, b, (n - 1) as nat);
    }
}

/// What becomes of a draft.
#[derive(Debug)]
pub enum Drafted {
    Ready(BytePatch),
    /// A warning, without details.
    Warned(&'static str),
    /// An error: what failed, and why.
    Failed(&'static str, String),
}

/// `r` is what becomes of a draft. What is missing is looked for in this order:
/// a name, something to find that can be read, something to replace it by that
/// can be read, a pattern that is not empty, and two of one length.
pub open spec fn drafted_as(d: PatchDraft, r: Drafted) -> bool {
    if trimmed(d.name@).len() == 0 {
        r matches Drafted::Warned(m) && m@ == "Patch name is required."@
    } else {
        match r {
            Drafted::Failed(what, why) => {
                ||| what@ == "Find parse failed"@ && read_as(d.find@, d.hex_mode, Err(why))
                ||| what@ == "Replace parse failed"@ && readable(d.find@, d.hex_mode) && read_as(
                    d.replace@,
                    d.hex_mode,
                    Err(why),
                )
            },
            Drafted::Warned(m) => exists|f: Vec<u8>, g: Vec<u8>|
                {
                    &&& #[trigger] read_as(d.find@, d.hex_mode, Ok(f))
                    &&& #[trigger] read_as(d.replace@, d.hex_mode, Ok(g))
                    &&& if f@.len() == 0 {
                        m@ == "Find pattern can't be empty."@
                    } else {
                        &&& f@.len() != g@.len()
                        &&& !d.allow_resize
                        &&& m@
                            == "Find and replace differ in length — tick 'Allow length change' if intentional."@
                    }
                },
            Drafted::Ready(p) => {
                &&& p.name@ == trimmed(d.name@)
                &&& read_as(d.find@, d.hex_mode, Ok(p.find))
                &&& read_as(d.replace@, d.hex_mode, Ok(p.replace))
                &&& p.find@.len() > 0
                &&& p.find@.len() == p.replace@.len() || d.allow_resize
                &&& p.comment@ == d.comment@
                &&& p.allow_resize == d.allow_resize
            },
        }
    }
}

/// A text can be read as bytes.
pub open spec fn readable(input: Seq<char>, hex_mode: bool) -> bool {
    !hex_mode || (no_stray(input) && nibbles(input, input.len()).len() % 2 == 0)
}

/// Makes a patch of a draft, or says why it is none.
pub fn draft_patch(d: &PatchDraft) -> (r: Drafted)
    ensures
        drafted_as(*d, r),
{
    let name = trim(d.name.as_str());
    if name.as_str().is_empty() {
        return Drafted::Warned("Patch name is required.");
    }
    let find = match parse_byte_input(d.find.as_str(), d.hex_mode) {
        Ok(b) => b,
        Err(e) => {
            return Drafted::Failed("Find parse failed", e);
        },
    };
    let replace = match parse_byte_input(d.replace.as_str(), d.hex_mode) {
        Ok(b) => b,
        Err(e) => {
            return Drafted::Failed("Replace parse failed", e);
        },
    };
    if find.len() == 0 {
        assert(read_as(d.find@, d.hex_mode, Ok(find)));
        assert(read_as(d.replace@, d.hex_mode, Ok(replace)));
        return Drafted::Warned("Find pattern can't be empty.");
    }
    if find.len() != replace.len() && !d.allow_resize {
        assert(read_as(d.find@, d.hex_mode, Ok(find)));
        assert(read_as(d.replace@, d.hex_mode, Ok(replace)));
        return Drafted::Warned(
            "Find and replace differ in length — tick 'Allow length change' if intentional.",
        );
    }
    Drafted::Ready(
        BytePatch {
            name,
            find,
            replace,
            comment: d.comment.clone(),
            allow_resize: d.allow_resize,
        },
    )
}

/// A drafted patch was added, or what is missing was said. The texts of the
/// form are blank exactly where a patch came of it; without a list of patches
/// to put it into it is dropped.
pub open spec fn patch_added(
    draft: (PatchDraft, PatchDraft),
    doc: (Option<BytePatchDoc>, Option<BytePatchDoc>),
    toasts: (Seq<Note>, Seq<Note>),
    r: Drafted,
) -> bool {
    &&& drafted_as(draft.0, r)
    &&& match r {
        Drafted::Ready(p) => {
            &&& draft_cleared(draft.0, draft.1)
            &&& toasts.1 == toasts.0
            &&& match (doc.0, doc.1) {
                (None, None) => true,
                (Some(a), Some(b)) => {
                    &&& patch_texts(b.patches@) == patch_texts(a.patches@).push(p@)
                    &&& b == (BytePatchDoc { patches: b.patches, ..a })
                },
                _ => false,
            }
        },
        Drafted::Warned(m) => draft.1 == draft.0 && doc.1 == doc.0 && toasts.1 == toasts.0.push(
            warn_note(m@),
        ),
        Drafted::Failed(what, why) => draft.1 == draft.0 && doc.1 == doc.0 && toasts.1
            == toasts.0.push(failure_note(what@, why@)),
    }
}

/// Adds the drafted patch to the list, or says what is missing.
pub fn add_draft(draft: &mut PatchDraft, doc: &mut Option<BytePatchDoc>, toasts: &mut Toasts)
    ensures
        exists|r: Drafted| #[trigger]
            patch_added(
                (*old(draft), *final(draft)),
                (*old(doc), *final(doc)),
                (old(toasts)@, final(toasts)@),
                r,
            ),
{
    let r = draft_patch(draft);
    let ghost was = r;
    match r {
        Drafted::Ready(p) => {
            draft.clear();
            match doc {
                Some(d) => {
                    let ghost v0 = d.patches@;
                    let ghost pv = p@;
                    d.patches.push(p);
                    assert(patch_texts(d.patches@) =~= patch_texts(v0).push(pv));
                },
                None => {},
            }
        },
        Drafted::Warned(m) => {
            toasts.warn(m);
        },
        Drafted::Failed(what, why) => {
            toasts.error_with_details(what, why.as_str());
        },
    }
    assert(patch_added(
        (*old(draft), *draft),
        (*old(doc), *doc),
        (old(toasts)@, toasts@),
        was,
    ));
}

/// Whether there are patches to deploy.
pub fn has_patches(doc: &Option<BytePatchDoc>) -> (r: bool)
    ensures
        r == (doc matches Some(d) && d.patches@.len() > 0),
{
    match doc {
        Some(d) => d.patches.len() > 0,
        None => false,
    }
}

/// What is said of patches that were tried: how many bytes they change.
pub open spec fn preview_note(
    bytes: Seq<u8>,
    patches: nat,
    out: Result<Vec<u8>, String>,
) -> Note {
    match out {
        Ok(b) => info_note(
            dec(patches) + " patches dry-applied — "@ + dec(changed_bytes(bytes, b@))
                + " byte(s) changed."@,
        ),
        Err(e) => failure_note("Preview failed"@, e@),
    }
}

/// Says how many bytes the patches change. `out` is the content with the
/// patches applied, or why they cannot be. Without a file or a list of patches
/// nothing is said.
pub fn report_preview(
    bytes: &Option<Vec<u8>>,
    doc: &Option<BytePatchDoc>,
    out: &Result<Vec<u8>, String>,
    toasts: &mut Toasts,
)
    ensures
        final(toasts)@ == match (*bytes, *doc) {
            (Some(b), Some(d)) => old(toasts)@.push(preview_note(b@, d.patches@.len(), *out)),
            _ => old(toasts)@,
        },
{
    match (bytes, doc) {
        (Some(b), Some(d)) => match out {
            Ok(o) => {
                let n = changed_byte_count(b.as_slice(), o.as_slice());
                let mut m = dec_usize(d.patches.len());
                m.push_str(" patches dry-applied — ");
                m.push_str(dec_usize(n).as_str());
                m.push_str(" byte(s) changed.");
                toasts.info(m.as_str());
            },
            Err(e) => {
                toasts.error_with_details("Preview failed", e.as_str());
            },
        },
        _ => {},
    }
}

/// Takes a patch out of the list.
pub fn remove_patch(doc: &mut Option<BytePatchDoc>, idx: usize)
    requires
        (*old(doc)) matches Some(d) ==> idx < d.patches@.len(),
    ensures
        match (*old(doc), *final(doc)) {
            (Some(a), Some(b)) => b.patches@ == a.patches@.remove(idx as int) && b == (
            BytePatchDoc { patches: b.patches, ..a }),
            (None, None) => true,
            _ => false,
        },
{
    match doc {
        Some(d) => {
            let _gone = d.patches.remove(idx);
        },
        None => {},
    }
}

/// What is said when patches were saved to a file, or could not be.
pub fn report_saved(
    last_path: &mut Option<String>,
    toasts: &mut Toasts,
    path: &String,
    result: &Result<(), (bool, String)>,
)
    ensures
        match *result {
            Ok(_) => *final(last_path) == Some(*path) && final(toasts)@ == old(toasts)@.push(
                info_note("Saved patch to "@ + path@),
            ),
            Err((written, e)) => *final(last_path) == *old(last_path) && final(toasts)@ == old(
                toasts,
            )@.push(
                if written {
                    failure_note("Write failed"@, e@ + "\nPath: "@ + path@)
                } else {
                    failure_note("Serialize failed"@, e@)
                },
            ),
        },
{
    match result {
        Ok(_) => {
            *last_path = Some(path.clone());
            let m = concat2("Saved patch to ", path.as_str());
            toasts.info(m.as_str());
        },
        Err(p) => {
            if p.0 {
                let d = concat3(p.1.as_str(), "\nPath: ", path.as_str());
                toasts.error_with_details("Write failed", d.as_str());
            } else {
                toasts.error_with_details("Serialize failed", p.1.as_str());
            }
        },
    }
}

/// Takes over patches that were read from a file, or says why they could not be.
/// An error says whether the file itself was read.
pub fn report_loaded(
    doc: &mut Option<BytePatchDoc>,
    last_path: &mut Option<String>,
    toasts: &mut Toasts,
    path: &String,
    result: Result<BytePatchDoc, (bool, String)>,
)
    ensures
        match result {
            Ok(d) => {
                &&& *final(doc) == Some(d)
                &&& *final(last_path) == Some(*path)
                &&& final(toasts)@ == old(toasts)@.push(info_note("Loaded patch JSON: "@ + path@))
            },
            Err((was_read, e)) => {
                &&& *final(doc) == *old(doc)
                &&& *final(last_path) == *old(last_path)
                &&& final(toasts)@ == old(toasts)@.push(
                    failure_note(
                        if was_read {
                            "Patch JSON parse failed"@
                        } else {
                            "Read failed"@
                        },
                        e@ + "\nPath: "@ + path@,
                    ),
                )
            },
        },
{
    match result {
        Ok(d) => {
            *doc = Some(d);
            *last_path = Some(path.clone());
            let m = concat2("Loaded patch JSON: ", path.as_str());
            toasts.info(m.as_str());
        },
        Err((was_read, e)) => {
            let d = concat3(e.as_str(), "\nPath: ", path.as_str());
            toasts.error_with_details(
                if was_read {
                    "Patch JSON parse failed"
                } else {
                    "Read failed"
                },
                d.as_str(),
            );
        },
    }
}

} // verus!
