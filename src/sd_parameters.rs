//! Stable Diffusion generation parameters: the text that image generators embed
//! in a PNG, parsed into prompt tags and the main settings.
//!
//! The text reads
//!
//! ```text
//! <positive tags>
//! Negative prompt: <negative tags>
//! Steps: 20, Sampler: Euler a, CFG scale: 7, Seed: 42, Size: 512x768, ...
//! ```
//!
//! Tags are separated by commas; a tag may carry a weight, `(name:1.2)`.

use vstd::prelude::*;
use vstd::string::StrSliceExecFns;
use crate::navigation::opt_view;
use crate::error::{AppError, is_metadata_error};

verus! {

/// Unicode White_Space, the characters that trimming removes.
pub open spec fn is_white_space(c: char) -> bool {
    let u = c as u32;
    ||| 0x09 <= u <= 0x0d
    ||| u == 0x20
    ||| u == 0x85
    ||| u == 0xa0
    ||| u == 0x1680
    ||| 0x2000 <= u <= 0x200a
    ||| u == 0x2028
    ||| u == 0x2029
    ||| u == 0x202f
    ||| u == 0x205f
    ||| u == 0x3000
}

fn white_space(c: char) -> (r: bool)
    ensures
        r == is_white_space(c),
{
    let u = c as u32;
    (0x09 <= u && u <= 0x0d) || u == 0x20 || u == 0x85 || u == 0xa0 || u == 0x1680 || (0x2000
        <= u && u <= 0x200a) || u == 0x2028 || u == 0x2029 || u == 0x202f || u == 0x205f || u
        == 0x3000
}

/// `s` without its leading white space.
pub open spec fn trimmed_start(s: Seq<char>) -> Seq<char>
    decreases s.len(),
{
    if s.len() > 0 && is_white_space(s[0]) {
        trimmed_start(s.drop_first())
    } else {
        s
    }
}

/// `s` without its trailing white space.
pub open spec fn trimmed_end(s: Seq<char>) -> Seq<char>
    decreases s.len(),
{
    if s.len() > 0 && is_white_space(s.last()) {
        trimmed_end(s.drop_last())
    } else {
        s
    }
}

/// `s` without leading and trailing white space.
pub open spec fn trimmed(s: Seq<char>) -> Seq<char> {
    trimmed_end(trimmed_start(s))
}

/// The characters of `text`.
fn chars_of(text: &str) -> (r: Vec<char>)
    ensures
        r@ == text@,
{
    let n = text.unicode_len();
    let mut out: Vec<char> = Vec::new();
    let mut i: usize = 0;
    while i < n
        invariant
            n == text@.len(),
            i <= n,
            out@ == text@.subrange(0, i as int),
        decreases n - i,
    {
        out.push(text.get_char(i));
        i = i + 1;
        assert(out@ =~= text@.subrange(0, i as int));
    }
    assert(text@.subrange(0, n as int) =~= text@);
    out
}

/// The bounds of `cs[a..b]` once trimmed.
fn trim_range(cs: &Vec<char>, a: usize, b: usize) -> (r: (usize, usize))
    requires
        a <= b <= cs@.len(),
    ensures
        r.0 <= r.1,
        a <= r.0,
        r.1 <= b,
        cs@.subrange(r.0 as int, r.1 as int) == trimmed(cs@.subrange(a as int, b as int)),
{
    let mut s = a;
    while s < b && white_space(cs[s])
        invariant
            a <= s <= b <= cs@.len(),
            trimmed_start(cs@.subrange(s as int, b as int)) == trimmed_start(
                cs@.subrange(a as int, b as int),
            ),
        decreases b - s,
    {
        assert(cs@.subrange(s as int, b as int).drop_first() =~= cs@.subrange(s + 1, b as int));
        s = s + 1;
    }
    let mut e = b;
    while e > s && white_space(cs[e - 1])
        invariant
            a <= s <= e <= b <= cs@.len(),
            trimmed_end(cs@.subrange(s as int, e as int)) == trimmed(cs@.subrange(a as int, b as int)),
        decreases e - s,
    {
        assert(cs@.subrange(s as int, e as int).drop_last() =~= cs@.subrange(s as int, e - 1));
        e = e - 1;
    }
    (s, e)
}

/// `pat` occurs in `s` at index `i`.
pub open spec fn occurs_at(s: Seq<char>, pat: Seq<char>, i: int) -> bool {
    0 <= i && i + pat.len() <= s.len() && s.subrange(i, i + pat.len()) == pat
}

/// The first index at or after `i` where `pat` occurs in `s` (`pat` is not
/// empty).
pub open spec fn find_from(s: Seq<char>, pat: Seq<char>, i: int) -> Option<int>
    decreases s.len() - i,
{
    if i < 0 || i >= s.len() || i + pat.len() > s.len() {
        None
    } else if occurs_at(s, pat, i) {
        Some(i)
    } else {
        find_from(s, pat, i + 1)
    }
}

/// Whether `pat` occurs in `cs` at `i`.
fn occurs_at_exec(cs: &Vec<char>, pat: &Vec<char>, i: usize) -> (r: bool)
    ensures
        r == occurs_at(cs@, pat@, i as int),
{
    let n = cs.len();
    if pat.len() > n || i > n - pat.len() {
        return false;
    }
    let mut k: usize = 0;
    while k < pat.len()
        invariant
            n == cs@.len(),
            i + pat@.len() <= cs@.len(),
            k <= pat@.len(),
            forall|j: int| 0 <= j < k ==> cs@[i + j] == pat@[j],
        decreases pat@.len() - k,
    {
        if cs[i + k] != pat[k] {
            assert(cs@.subrange(i as int, i + pat@.len())[k as int] != pat@[k as int]);
            return false;
        }
        k = k + 1;
    }
    assert(cs@.subrange(i as int, i + pat@.len()) =~= pat@);
    true
}

/// The first index at or after `from` where `pat` occurs in `cs`.
fn find_exec(cs: &Vec<char>, pat: &Vec<char>, from: usize) -> (r: Option<usize>)
    ensures
        match r {
            Some(i) => find_from(cs@, pat@, from as int) == Some(i as int),
            None => find_from(cs@, pat@, from as int) is None,
        },
        r matches Some(i) ==> occurs_at(cs@, pat@, i as int),
{
    let n = cs.len();
    let mut i = from;
    while i < n && pat.len() <= n - i
        invariant
            n == cs@.len(),
            from <= i,
            find_from(cs@, pat@, i as int) == find_from(cs@, pat@, from as int),
        decreases cs@.len() - i,
    {
        if occurs_at_exec(cs, pat, i) {
            return Some(i);
        }
        i = i + 1;
    }
    assert(find_from(cs@, pat@, i as int) is None);
    None
}

/// A prompt tag: its name and, for `(name:1.2)`, the text of its weight.
#[derive(Debug)]
pub struct SdTag {
    pub name: String,
    pub weight: Option<String>,
}

pub struct SdTagView {
    pub name: Seq<char>,
    pub weight: Option<Seq<char>>,
}

impl View for SdTag {
    type V = SdTagView;

    open spec fn view(&self) -> SdTagView {
        SdTagView { name: self.name@, weight: opt_view(self.weight) }
    }
}

pub open spec fn tag_views(v: Seq<SdTag>) -> Seq<SdTagView> {
    v.map_values(|t: SdTag| t@)
}

pub open spec fn is_ascii_digit(c: char) -> bool {
    '0' <= c <= '9'
}

/// The end of the run of digits that starts at `i`.
pub open spec fn digits_end(t: Seq<char>, i: int) -> int
    decreases t.len() - i,
{
    if 0 <= i < t.len() && is_ascii_digit(t[i]) {
        digits_end(t, i + 1)
    } else {
        i
    }
}

/// The first ':' at or after `i`, or the end of `t`.
pub open spec fn colon_from(t: Seq<char>, i: int) -> int
    decreases t.len() - i,
{
    if 0 <= i < t.len() && t[i] != ':' {
        colon_from(t, i + 1)
    } else {
        i
    }
}

/// A weighted tag `(name:weight)` opens at `p`: the name runs to the first ':'
/// and is not empty, the weight is digits with an optional fraction, and a ')'
/// closes it. Gives the indices of that ':' and that ')'.
pub open spec fn weighted_at(t: Seq<char>, p: int) -> Option<(int, int)> {
    if !(0 <= p < t.len() && t[p] == '(') {
        None
    } else {
        let c = colon_from(t, p + 1);
        let e1 = digits_end(t, c + 1);
        if c >= t.len() || c == p + 1 || e1 == c + 1 {
            None
        } else if e1 < t.len() && t[e1] == ')' {
            Some((c, e1))
        } else if e1 + 1 < t.len() && t[e1] == '.' && is_ascii_digit(t[e1 + 1]) {
            let e2 = digits_end(t, e1 + 1);
            if e2 < t.len() && t[e2] == ')' {
                Some((c, e2))
            } else {
                None
            }
        } else {
            None
        }
    }
}

/// The leftmost weighted tag at or after `p`: where it opens, its ':' and its ')'.
pub open spec fn weighted_from(t: Seq<char>, p: int) -> Option<(int, int, int)>
    decreases t.len() - p,
{
    if p < 0 || p >= t.len() {
        None
    } else {
        match weighted_at(t, p) {
            Some((c, e)) => Some((p, c, e)),
            None => weighted_from(t, p + 1),
        }
    }
}

/// The tag that a trimmed, non-empty piece `t` gives: the leftmost weighted
/// tag in it, whose trimmed name must not be empty, or else the piece itself as
/// a plain tag.
pub open spec fn tag_of(t: Seq<char>) -> Option<SdTagView> {
    match weighted_from(t, 0) {
        Some((p, c, e)) => {
            let name = trimmed(t.subrange(p + 1, c));
            if name.len() == 0 {
                None
            } else {
                Some(SdTagView { name, weight: Some(t.subrange(c + 1, e)) })
            }
        },
        None => Some(SdTagView { name: t, weight: None }),
    }
}

/// The tags of one comma-separated piece.
pub open spec fn piece_tags(piece: Seq<char>) -> Seq<SdTagView> {
    let t = trimmed(piece);
    if t.len() == 0 {
        Seq::empty()
    } else {
        match tag_of(t) {
            Some(tag) => seq![tag],
            None => Seq::empty(),
        }
    }
}

/// The tags of `s` from a piece that began at `start`, reading on from `i`.
pub open spec fn tags_scan(s: Seq<char>, start: int, i: int) -> Seq<SdTagView>
    decreases s.len() - i,
{
    if i < 0 || i >= s.len() {
        piece_tags(s.subrange(start, s.len() as int))
    } else if s[i] == ',' {
        piece_tags(s.subrange(start, i)) + tags_scan(s, i + 1, i + 1)
    } else {
        tags_scan(s, start, i + 1)
    }
}

/// The tags of a comma-separated list.
pub open spec fn tags_of(s: Seq<char>) -> Seq<SdTagView> {
    tags_scan(s, 0, 0)
}

fn digits_end_exec(cs: &Vec<char>, i: usize) -> (r: usize)
    requires
        i <= cs@.len(),
    ensures
        r == digits_end(cs@, i as int),
        i <= r <= cs@.len(),
{
    let mut j = i;
    while j < cs.len() && '0' <= cs[j] && cs[j] <= '9'
        invariant
            i <= j <= cs@.len(),
            digits_end(cs@, j as int) == digits_end(cs@, i as int),
        decreases cs@.len() - j,
    {
        j = j + 1;
    }
    j
}

fn colon_exec(cs: &Vec<char>, i: usize) -> (r: usize)
    requires
        i <= cs@.len(),
    ensures
        r == colon_from(cs@, i as int),
        i <= r <= cs@.len(),
{
    let mut j = i;
    while j < cs.len() && cs[j] != ':'
        invariant
            i <= j <= cs@.len(),
            colon_from(cs@, j as int) == colon_from(cs@, i as int),
        decreases cs@.len() - j,
    {
        j = j + 1;
    }
    j
}

fn weighted_at_exec(cs: &Vec<char>, p: usize) -> (r: Option<(usize, usize)>)
    requires
        p < cs@.len(),
    ensures
        match r {
            Some((c, e)) => weighted_at(cs@, p as int) == Some((c as int, e as int)),
            None => weighted_at(cs@, p as int) is None,
        },
        r matches Some((c, e)) ==> p < c < e < cs@.len(),
{
    let n = cs.len();
    if cs[p] != '(' {
        return None;
    }
    let c = colon_exec(cs, p + 1);
    if c >= n || c == p + 1 {
        return None;
    }
    let e1 = digits_end_exec(cs, c + 1);
    if e1 == c + 1 {
        return None;
    }
    if e1 < n && cs[e1] == ')' {
        return Some((c, e1));
    }
    if e1 < n && e1 + 1 < n && cs[e1] == '.' && '0' <= cs[e1 + 1] && cs[e1 + 1] <= '9' {
        let e2 = digits_end_exec(cs, e1 + 1);
        if e2 < n && cs[e2] == ')' {
            return Some((c, e2));
        }
    }
    None
}

/// `text[a..b]` as a string.
fn slice_text(text: &str, a: usize, b: usize) -> (r: String)
    requires
        a <= b <= text@.len(),
    ensures
        r@ == text@.subrange(a as int, b as int),
{
    String::from_str(text.substring_char(a, b))
}

/// The tag of a trimmed, non-empty piece.
fn tag_of_exec(t: &str, tc: &Vec<char>) -> (r: Option<SdTag>)
    requires
        tc@ == t@,
        t@.len() > 0,
    ensures
        match r {
            Some(tag) => tag_of(t@) == Some(tag@),
            None => tag_of(t@) is None,
        },
{
    let mut p: usize = 0;
    while p < tc.len()
        invariant
            tc@ == t@,
            p <= tc@.len(),
            weighted_from(tc@, p as int) == weighted_from(tc@, 0),
        decreases tc@.len() - p,
    {
        match weighted_at_exec(tc, p) {
            Some((c, e)) => {
                let (na, nb) = trim_range(tc, p + 1, c);
                if na == nb {
                    assert(trimmed(tc@.subrange(p + 1, c as int)).len() == 0);
                    return None;
                }
                let name = slice_text(t, na, nb);
                let weight = slice_text(t, c + 1, e);
                return Some(SdTag { name, weight: Some(weight) });
            },
            None => {},
        }
        p = p + 1;
    }
    Some(SdTag { name: String::from_str(t), weight: None })
}

/// The tags of the comma-separated list `text`.
fn tags_exec(text: &str, cs: &Vec<char>) -> (r: Vec<SdTag>)
    requires
        cs@ == text@,
    ensures
        tag_views(r@) == tags_of(text@),
{
    let n = cs.len();
    let mut out: Vec<SdTag> = Vec::new();
    let mut start: usize = 0;
    let mut i: usize = 0;
    while i < n
        invariant
            n == cs@.len(),
            cs@ == text@,
            start <= i <= n,
            tag_views(out@) + tags_scan(cs@, start as int, i as int) == tags_of(cs@),
        decreases n - i,
    {
        if cs[i] == ',' {
            let ghost before = tag_views(out@);
            let ghost piece = piece_tags(cs@.subrange(start as int, i as int));
            push_piece_tags(text, cs, start, i, &mut out);
            assert(tag_views(out@) =~= before + piece);
            assert(tags_scan(cs@, start as int, i as int) == piece + tags_scan(cs@, i + 1, i + 1));
            start = i + 1;
        }
        i = i + 1;
    }
    let ghost before = tag_views(out@);
    let ghost piece = piece_tags(cs@.subrange(start as int, n as int));
    push_piece_tags(text, cs, start, n, &mut out);
    assert(tag_views(out@) =~= before + piece);
    out
}

/// Appends the tags of the piece `cs[a..b]`.
fn push_piece_tags(text: &str, cs: &Vec<char>, a: usize, b: usize, out: &mut Vec<SdTag>)
    requires
        cs@ == text@,
        a <= b <= cs@.len(),
    ensures
        tag_views(final(out)@) == tag_views(old(out)@) + piece_tags(cs@.subrange(a as int, b as int)),
{
    let (ta, tb) = trim_range(cs, a, b);
    if ta == tb {
        assert(tag_views(out@) =~= tag_views(out@) + Seq::<SdTagView>::empty());
        return;
    }
    let piece = slice_text(text, ta, tb);
    let pc = chars_of(piece.as_str());
    match tag_of_exec(piece.as_str(), &pc) {
        Some(tag) => {
            let ghost before = tag_views(out@);
            out.push(tag);
            assert(tag_views(out@) =~= before + seq![tag@]);
        },
        None => {
            assert(tag_views(out@) =~= tag_views(out@) + Seq::<SdTagView>::empty());
        },
    }
}

/// The number of settings that are read.
pub const FIELD_COUNT: usize = 9;

/// The label of setting `k` with its ':': Steps, Sampler, Schedule type, CFG
/// scale, Seed, Size, Model, Denoising strength, Clip skip.
pub open spec fn field_label(k: int) -> Seq<char> {
    if k == 0 {
        seq!['S', 't', 'e', 'p', 's', ':']
    } else if k == 1 {
        seq!['S', 'a', 'm', 'p', 'l', 'e', 'r', ':']
    } else if k == 2 {
        seq!['S', 'c', 'h', 'e', 'd', 'u', 'l', 'e', ' ', 't', 'y', 'p', 'e', ':']
    } else if k == 3 {
        seq!['C', 'F', 'G', ' ', 's', 'c', 'a', 'l', 'e', ':']
    } else if k == 4 {
        seq!['S', 'e', 'e', 'd', ':']
    } else if k == 5 {
        seq!['S', 'i', 'z', 'e', ':']
    } else if k == 6 {
        seq!['M', 'o', 'd', 'e', 'l', ':']
    } else if k == 7 {
        seq!['D', 'e', 'n', 'o', 'i', 's', 'i', 'n', 'g', ' ', 's', 't', 'r', 'e', 'n', 'g', 't', 'h', ':']
    } else {
        seq!['C', 'l', 'i', 'p', ' ', 's', 'k', 'i', 'p', ':']
    }
}

fn field_label_exec(k: usize) -> (r: Vec<char>)
    requires
        k < FIELD_COUNT,
    ensures
        r@ == field_label(k as int),
{
    if k == 0 {
        vec!['S', 't', 'e', 'p', 's', ':']
    } else if k == 1 {
        vec!['S', 'a', 'm', 'p', 'l', 'e', 'r', ':']
    } else if k == 2 {
        vec!['S', 'c', 'h', 'e', 'd', 'u', 'l', 'e', ' ', 't', 'y', 'p', 'e', ':']
    } else if k == 3 {
        vec!['C', 'F', 'G', ' ', 's', 'c', 'a', 'l', 'e', ':']
    } else if k == 4 {
        vec!['S', 'e', 'e', 'd', ':']
    } else if k == 5 {
        vec!['S', 'i', 'z', 'e', ':']
    } else if k == 6 {
        vec!['M', 'o', 'd', 'e', 'l', ':']
    } else if k == 7 {
        vec!['D', 'e', 'n', 'o', 'i', 's', 'i', 'n', 'g', ' ', 's', 't', 'r', 'e', 'n', 'g', 't', 'h', ':']
    } else {
        vec!['C', 'l', 'i', 'p', ' ', 's', 'k', 'i', 'p', ':']
    }
}

/// The first setting, in label order from `k`, whose label occurs at `i`.
pub open spec fn label_from(s: Seq<char>, i: int, k: int) -> Option<int>
    decreases FIELD_COUNT - k,
{
    if k < 0 || k >= FIELD_COUNT {
        None
    } else if occurs_at(s, field_label(k), i) {
        Some(k)
    } else {
        label_from(s, i, k + 1)
    }
}

/// The settings after setting `k` took the trimmed `raw` value; an empty value
/// changes nothing.
pub open spec fn with_field(acc: Seq<Option<Seq<char>>>, k: int, raw: Seq<char>) -> Seq<
    Option<Seq<char>>,
> {
    if trimmed(raw).len() > 0 {
        acc.update(k, Some(trimmed(raw)))
    } else {
        acc
    }
}

/// Reads settings from `i` on. Outside a value, a label followed by a character
/// other than ',' opens the value of its setting; a value runs to the next ','
/// or the end. A later value of a setting replaces an earlier one.
pub open spec fn fields_scan(
    s: Seq<char>,
    i: int,
    open: Option<(int, int)>,
    acc: Seq<Option<Seq<char>>>,
) -> Seq<Option<Seq<char>>>
    decreases s.len() - i,
{
    if i < 0 || i >= s.len() {
        match open {
            Some((k, v)) => with_field(acc, k, s.subrange(v, s.len() as int)),
            None => acc,
        }
    } else {
        match open {
            Some((k, v)) => if s[i] == ',' {
                fields_scan(s, i + 1, None, with_field(acc, k, s.subrange(v, i)))
            } else {
                fields_scan(s, i + 1, open, acc)
            },
            None => match label_from(s, i, 0) {
                Some(k) => {
                    // A label is never empty, so `v > i` always holds; it shows
                    // that the scan advances.
                    let v = i + field_label(k).len();
                    if v < s.len() && s[v] != ',' && v > i {
                        fields_scan(s, v, Some((k, v)), acc)
                    } else {
                        fields_scan(s, i + 1, None, acc)
                    }
                },
                None => fields_scan(s, i + 1, None, acc),
            },
        }
    }
}

pub open spec fn no_fields() -> Seq<Option<Seq<char>>> {
    Seq::new(FIELD_COUNT as nat, |k: int| None)
}

/// The settings of a settings section, by label order.
pub open spec fn fields_of(s: Seq<char>) -> Seq<Option<Seq<char>>> {
    fields_scan(s, 0, None, no_fields())
}

pub open spec fn field_views(v: Seq<Option<String>>) -> Seq<Option<Seq<char>>> {
    v.map_values(|o: Option<String>| opt_view(o))
}

fn label_from_exec(cs: &Vec<char>, labels: &Vec<Vec<char>>, i: usize) -> (r: Option<usize>)
    requires
        labels@.len() == FIELD_COUNT,
        forall|k: int| 0 <= k < FIELD_COUNT ==> (#[trigger] labels@[k])@ == field_label(k),
    ensures
        match r {
            Some(k) => label_from(cs@, i as int, 0) == Some(k as int) && k < FIELD_COUNT,
            None => label_from(cs@, i as int, 0) is None,
        },
        r matches Some(k) ==> occurs_at(cs@, field_label(k as int), i as int),
{
    let mut k: usize = 0;
    while k < FIELD_COUNT
        invariant
            labels@.len() == FIELD_COUNT,
            forall|j: int| 0 <= j < FIELD_COUNT ==> (#[trigger] labels@[j])@ == field_label(j),
            k <= FIELD_COUNT,
            label_from(cs@, i as int, k as int) == label_from(cs@, i as int, 0),
        decreases FIELD_COUNT - k,
    {
        if occurs_at_exec(cs, &labels[k], i) {
            return Some(k);
        }
        k = k + 1;
    }
    None
}

/// Records the trimmed value `cs[v..e]` for setting `k`, unless it is empty.
fn set_field(text: &str, cs: &Vec<char>, acc: &mut Vec<Option<String>>, k: usize, v: usize, e: usize)
    requires
        cs@ == text@,
        v <= e <= cs@.len(),
        k < old(acc)@.len(),
    ensures
        final(acc)@.len() == old(acc)@.len(),
        field_views(final(acc)@) == with_field(field_views(old(acc)@), k as int, cs@.subrange(v as int, e as int)),
{
    let (a, b) = trim_range(cs, v, e);
    if a < b {
        let value = slice_text(text, a, b);
        let ghost before = field_views(acc@);
        acc.set(k, Some(value));
        assert(field_views(acc@) =~= before.update(k as int, Some(cs@.subrange(a as int, b as int))));
    }
}

/// The settings of the settings section `text`.
fn fields_exec(text: &str, cs: &Vec<char>) -> (r: Vec<Option<String>>)
    requires
        cs@ == text@,
    ensures
        r@.len() == FIELD_COUNT,
        field_views(r@) == fields_of(text@),
{
    let mut labels: Vec<Vec<char>> = Vec::new();
    let mut acc: Vec<Option<String>> = Vec::new();
    let mut k: usize = 0;
    while k < FIELD_COUNT
        invariant
            k <= FIELD_COUNT,
            labels@.len() == k,
            acc@.len() == k,
            forall|j: int| 0 <= j < k ==> (#[trigger] labels@[j])@ == field_label(j),
            forall|j: int| 0 <= j < k ==> (#[trigger] acc@[j]) is None,
        decreases FIELD_COUNT - k,
    {
        labels.push(field_label_exec(k));
        acc.push(None);
        k = k + 1;
    }
    assert(field_views(acc@) =~= no_fields());
    let n = cs.len();
    let mut open: Option<(usize, usize)> = None;
    let mut i: usize = 0;
    while i < n
        invariant
            n == cs@.len(),
            cs@ == text@,
            i <= n,
            acc@.len() == FIELD_COUNT,
            labels@.len() == FIELD_COUNT,
            forall|j: int| 0 <= j < FIELD_COUNT ==> (#[trigger] labels@[j])@ == field_label(j),
            open matches Some((k, v)) ==> k < FIELD_COUNT && v <= i,
            fields_scan(
                cs@,
                i as int,
                match open {
                    Some((k, v)) => Some((k as int, v as int)),
                    None => None,
                },
                field_views(acc@),
            ) == fields_of(cs@),
        decreases n - i,
    {
        match open {
            Some((k, v)) => {
                if cs[i] == ',' {
                    set_field(text, cs, &mut acc, k, v, i);
                    open = None;
                }
                i = i + 1;
            },
            None => {
                match label_from_exec(cs, &labels, i) {
                    Some(k) => {
                        let v = i + labels[k].len();
                        if v < n && cs[v] != ',' && v > i {
                            open = Some((k, v));
                            i = v;
                        } else {
                            i = i + 1;
                        }
                    },
                    None => {
                        i = i + 1;
                    },
                }
            },
        }
    }
    match open {
        Some((k, v)) => {
            set_field(text, cs, &mut acc, k, v, n);
        },
        None => {},
    }
    acc
}

/// Generation parameters: the prompt tags, the settings, and the text they came
/// from.
#[derive(Debug)]
pub struct SdParameters {
    pub positive_sd_tags: Vec<SdTag>,
    pub negative_sd_tags: Vec<SdTag>,
    pub steps: Option<String>,
    pub sampler: Option<String>,
    pub schedule_type: Option<String>,
    pub cfg_scale: Option<String>,
    pub seed: Option<String>,
    pub size: Option<String>,
    pub model: Option<String>,
    pub denoising_strength: Option<String>,
    pub clip_skip: Option<String>,
    pub raw: String,
}

/// What `SdParameters` holds; the settings in label order.
pub struct SdParametersView {
    pub positive: Seq<SdTagView>,
    pub negative: Seq<SdTagView>,
    pub fields: Seq<Option<Seq<char>>>,
    pub raw: Seq<char>,
}

impl View for SdParameters {
    type V = SdParametersView;

    open spec fn view(&self) -> SdParametersView {
        SdParametersView {
            positive: tag_views(self.positive_sd_tags@),
            negative: tag_views(self.negative_sd_tags@),
            fields: seq![
                opt_view(self.steps),
                opt_view(self.sampler),
                opt_view(self.schedule_type),
                opt_view(self.cfg_scale),
                opt_view(self.seed),
                opt_view(self.size),
                opt_view(self.model),
                opt_view(self.denoising_strength),
                opt_view(self.clip_skip),
            ],
            raw: self.raw@,
        }
    }
}

/// The line that opens the negative prompt.
pub open spec fn negative_marker() -> Seq<char> {
    seq!['\n', 'N', 'e', 'g', 'a', 't', 'i', 'v', 'e', ' ', 'p', 'r', 'o', 'm', 'p', 't', ':']
}

/// The line that opens the settings.
pub open spec fn steps_marker() -> Seq<char> {
    seq!['\n', 'S', 't', 'e', 'p', 's', ':']
}

/// What a parameters text parses to, or the message of why it does not: the
/// text must not be blank, must hold a "Negative prompt:" line, and after it a
/// "Steps:" line. Positive tags precede the first, negative tags lie between the
/// two, and the settings are read from "Steps:" on.
pub open spec fn parse_spec(p: Seq<char>) -> Result<SdParametersView, Seq<char>> {
    if trimmed(p).len() == 0 {
        Err("Empty parameter string"@)
    } else {
        match find_from(p, negative_marker(), 0) {
            None => Err("\"Negative prompt:\" section not found"@),
            Some(i1) => {
                let rest = p.subrange(i1 + negative_marker().len(), p.len() as int);
                match find_from(rest, steps_marker(), 0) {
                    None => Err("\"Steps:\" section not found"@),
                    Some(i2) => Ok(
                        SdParametersView {
                            positive: tags_of(p.subrange(0, i1)),
                            negative: tags_of(rest.subrange(0, i2)),
                            fields: fields_of(
                                field_label(0) + rest.subrange(
                                    i2 + steps_marker().len(),
                                    rest.len() as int,
                                ),
                            ),
                            raw: p,
                        },
                    ),
                }
            },
        }
    }
}

/// `r` is `Ok` with parameters whose view is `v`.
pub open spec fn parsed_as(r: Result<SdParameters, AppError>, v: SdParametersView) -> bool {
    match r {
        Ok(x) => x@ == v,
        Err(_) => false,
    }
}

/// `cs[a..b]`.
fn sub_chars(cs: &Vec<char>, a: usize, b: usize) -> (r: Vec<char>)
    requires
        a <= b <= cs@.len(),
    ensures
        r@ == cs@.subrange(a as int, b as int),
{
    let mut out: Vec<char> = Vec::new();
    let mut i = a;
    while i < b
        invariant
            a <= i <= b <= cs@.len(),
            out@ == cs@.subrange(a as int, i as int),
        decreases b - i,
    {
        out.push(cs[i]);
        i = i + 1;
        assert(out@ =~= cs@.subrange(a as int, i as int));
    }
    out
}

fn take_field(acc: &Vec<Option<String>>, k: usize) -> (r: Option<String>)
    requires
        k < acc@.len(),
    ensures
        opt_view(r) == opt_view(acc@[k as int]),
{
    match &acc[k] {
        Some(s) => Some(s.clone()),
        None => None,
    }
}

impl SdParameters {
    /// Parses a generation-parameters text.
    pub fn parse(parameter: &str) -> (r: Result<SdParameters, AppError>)
        ensures
            match parse_spec(parameter@) {
                Ok(v) => parsed_as(r, v),
                Err(m) => is_metadata_error(r, m),
            },
    {
        let cs = chars_of(parameter);
        let n = cs.len();
        let (a, b) = trim_range(&cs, 0, n);
        assert(cs@.subrange(0, n as int) =~= cs@);
        if a == b {
            return Err(AppError::MetadataRead(String::from_str("Empty parameter string")));
        }
        let negative = vec!['\n', 'N', 'e', 'g', 'a', 't', 'i', 'v', 'e', ' ', 'p', 'r', 'o', 'm', 'p', 't', ':'];
        let i1 = match find_exec(&cs, &negative, 0) {
            Some(i) => i,
            None => {
                return Err(
                    AppError::MetadataRead(
                        String::from_str("\"Negative prompt:\" section not found"),
                    ),
                );
            },
        };
        let after = i1 + negative.len();
        let rest_cs = sub_chars(&cs, after, n);
        let rest = slice_text(parameter, after, n);
        let steps = vec!['\n', 'S', 't', 'e', 'p', 's', ':'];
        let i2 = match find_exec(&rest_cs, &steps, 0) {
            Some(i) => i,
            None => {
                return Err(
                    AppError::MetadataRead(String::from_str("\"Steps:\" section not found")),
                );
            },
        };
        let m = rest_cs.len();
        let positive_text = slice_text(parameter, 0, i1);
        let positive_cs = sub_chars(&cs, 0, i1);
        let negative_text = slice_text(rest.as_str(), 0, i2);
        let negative_cs = sub_chars(&rest_cs, 0, i2);
        let tail = slice_text(rest.as_str(), i2 + steps.len(), m);
        let mut fields_cs = field_label_exec(0);
        let mut tail_cs = sub_chars(&rest_cs, i2 + steps.len(), m);
        fields_cs.append(&mut tail_cs);
        let fields_text = String::from_str("Steps:").concat(tail.as_str());
        proof {
            reveal_strlit("Steps:");
            assert(fields_text@ =~= fields_cs@);
        }
        let fields = fields_exec(fields_text.as_str(), &fields_cs);
        let r = SdParameters {
            positive_sd_tags: tags_exec(positive_text.as_str(), &positive_cs),
            negative_sd_tags: tags_exec(negative_text.as_str(), &negative_cs),
            steps: take_field(&fields, 0),
            sampler: take_field(&fields, 1),
            schedule_type: take_field(&fields, 2),
            cfg_scale: take_field(&fields, 3),
            seed: take_field(&fields, 4),
            size: take_field(&fields, 5),
            model: take_field(&fields, 6),
            denoising_strength: take_field(&fields, 7),
            clip_skip: take_field(&fields, 8),
            raw: String::from_str(parameter),
        };
        assert(r@.fields =~= field_views(fields@));
        Ok(r)
    }
}

} // verus!
