//! Path classification and the deterministic order of a directory listing.
//!
//! A path is held as a `String`; its platform representation is its UTF-8
//! encoding, and listings are ordered lexicographically on those bytes.

use vstd::prelude::*;
use vstd::utf8::*;
use vstd::string::{StrSliceExecFns, StringSliceAdditionalSpecFns};

verus! {

broadcast use vstd::utf8::encode_utf8_decode_utf8;

/// The byte of '.'.
pub const DOT: u8 = 46;

/// The byte of '/', the path separator.
pub const SLASH: u8 = 47;

/// The byte of 'A'.
pub const UPPER_A: u8 = 65;

/// The byte of 'Z'.
pub const UPPER_Z: u8 = 90;

/// The bytes of a path as the platform stores them.
pub open spec fn path_bytes(p: Seq<char>) -> Seq<u8> {
    encode_utf8(p)
}

/// `a` and `b` agree on their first `k` bytes.
pub open spec fn agree_upto(a: Seq<u8>, b: Seq<u8>, k: int) -> bool {
    forall|i: int| 0 <= i < k ==> a[i] == b[i]
}

/// Strict lexicographic order on byte strings: `a` is a proper prefix of `b`,
/// or at the first byte where they differ, `a` holds the smaller one.
pub open spec fn bytes_before(a: Seq<u8>, b: Seq<u8>) -> bool {
    exists|k: int|
        0 <= k <= a.len() && k <= b.len() && #[trigger] agree_upto(a, b, k) && (if k == a.len() {
            k < b.len()
        } else {
            k < b.len() && a[k] < b[k]
        })
}

/// Strict order on paths, by their platform bytes.
pub open spec fn path_before(a: Seq<char>, b: Seq<char>) -> bool {
    bytes_before(path_bytes(a), path_bytes(b))
}

/// Every path of `v` comes strictly before every later one: sorted ascending,
/// without duplicates.
pub open spec fn strictly_ascending(v: Seq<String>) -> bool {
    forall|i: int, j: int| 0 <= i < j < v.len() ==> path_before(#[trigger] v[i]@, #[trigger] v[j]@)
}

/// `v` holds a path equal to `p`.
pub open spec fn holds_path(v: Seq<String>, p: Seq<char>) -> bool {
    exists|i: int| 0 <= i < v.len() && #[trigger] v[i]@ == p
}

/// The byte order is transitive.
pub proof fn lemma_bytes_before_transitive(a: Seq<u8>, b: Seq<u8>, c: Seq<u8>)
    requires
        bytes_before(a, b),
        bytes_before(b, c),
    ensures
        bytes_before(a, c),
{
    let k1 = choose|k: int|
        0 <= k <= a.len() && k <= b.len() && #[trigger] agree_upto(a, b, k) && (if k == a.len() {
            k < b.len()
        } else {
            k < b.len() && a[k] < b[k]
        });
    let k2 = choose|k: int|
        0 <= k <= b.len() && k <= c.len() && #[trigger] agree_upto(b, c, k) && (if k == b.len() {
            k < c.len()
        } else {
            k < c.len() && b[k] < c[k]
        });
    let k = if k1 <= k2 {
        k1
    } else {
        k2
    };
    assert(agree_upto(a, c, k));
}

/// Equal bytes mean equal paths.
pub proof fn lemma_path_bytes_injective(a: Seq<char>, b: Seq<char>)
    requires
        path_bytes(a) == path_bytes(b),
    ensures
        a == b,
{
    assert(decode_utf8(encode_utf8(a)) == a);
    assert(decode_utf8(encode_utf8(b)) == b);
}

/// `d` is the index of the dot that starts the extension of the file name that
/// ends `b`: the last '.' after the last '/', and not the name's first byte.
pub open spec fn extension_dot(b: Seq<u8>, d: int) -> bool {
    &&& 0 < d < b.len()
    &&& b[d] == DOT
    &&& b[d - 1] != SLASH
    &&& forall|i: int| d < i < b.len() ==> b[i] != DOT && b[i] != SLASH
}

/// ASCII case folding of one byte; other bytes are left as they are.
pub open spec fn ascii_lower(c: u8) -> u8 {
    if UPPER_A <= c <= UPPER_Z {
        (c + 32) as u8
    } else {
        c
    }
}

/// `e` with ASCII letters folded to lower case.
pub open spec fn lowered(e: Seq<u8>) -> Seq<u8> {
    e.map_values(|c: u8| ascii_lower(c))
}

/// The extensions of supported images, compared without regard to case:
/// jpg, jpeg, png, gif, bmp and webp.
pub open spec fn is_allowed_extension(e: Seq<u8>) -> bool {
    let l = lowered(e);
    ||| l == seq![106u8, 112u8, 103u8]
    ||| l == seq![106u8, 112u8, 101u8, 103u8]
    ||| l == seq![112u8, 110u8, 103u8]
    ||| l == seq![103u8, 105u8, 102u8]
    ||| l == seq![98u8, 109u8, 112u8]
    ||| l == seq![119u8, 101u8, 98u8, 112u8]
}

/// The path's file name has an extension, and it is one of the supported ones.
pub open spec fn has_image_extension(p: Seq<char>) -> bool {
    let b = path_bytes(p);
    exists|d: int| #[trigger] extension_dot(b, d) && is_allowed_extension(b.subrange(d + 1, b.len() as int))
}

/// A listed entry is a supported image: a regular file with a supported extension.
pub open spec fn is_image_entry(e: DirEntry) -> bool {
    e.is_file && has_image_extension(e.path@)
}

/// `entries` lists a supported image whose path is `q`.
pub open spec fn lists_image(entries: Seq<DirEntry>, q: Seq<char>) -> bool {
    exists|j: int| 0 <= j < entries.len() && is_image_entry(#[trigger] entries[j]) && entries[j].path@ == q
}

/// One entry of a directory listing: its path, and whether it names a regular file.
#[derive(Debug)]
pub struct DirEntry {
    pub path: String,
    pub is_file: bool,
}

/// Finds the dot that starts the extension of the file name, if there is one.
fn find_extension_dot(b: &[u8]) -> (r: Option<usize>)
    ensures
        r matches Some(d) ==> extension_dot(b@, d as int),
        r is None ==> forall|d: int| !extension_dot(b@, d),
{
    let mut i: usize = b.len();
    while i > 0 && b[i - 1] != DOT && b[i - 1] != SLASH
        invariant
            i <= b@.len(),
            forall|k: int| i <= k < b@.len() ==> b@[k] != DOT && b@[k] != SLASH,
        decreases i,
    {
        i = i - 1;
    }
    if i >= 2 && b[i - 1] == DOT && b[i - 2] != SLASH {
        let d = i - 1;
        Some(d)
    } else {
        proof {
            assert forall|d: int| !extension_dot(b@, d) by {
                if extension_dot(b@, d) {
                    if d >= i {
                    } else if i > 0 {
                        if d < i - 1 {
                            assert(b@[i - 1] == DOT || b@[i - 1] == SLASH);
                        }
                    }
                }
            }
        }
        None
    }
}

fn ascii_lower_byte(c: u8) -> (r: u8)
    ensures
        r == ascii_lower(c),
{
    if UPPER_A <= c && c <= UPPER_Z {
        c + 32
    } else {
        c
    }
}

/// The bytes of `b` from `start` on, folded to lower case, are `word`.
fn lowered_tail_is(b: &[u8], start: usize, word: &[u8]) -> (r: bool)
    requires
        start <= b@.len(),
    ensures
        r == (lowered(b@.subrange(start as int, b@.len() as int)) == word@),
{
    let ghost tail = b@.subrange(start as int, b@.len() as int);
    let n = b.len();
    if n - start != word.len() {
        assert(lowered(tail).len() != word@.len());
        return false;
    }
    let mut i: usize = 0;
    while i < word.len()
        invariant
            start + word@.len() == b@.len(),
            b@.len() == n,
            tail == b@.subrange(start as int, b@.len() as int),
            i <= word@.len(),
            forall|k: int| 0 <= k < i ==> lowered(tail)[k] == word@[k],
        decreases word@.len() - i,
    {
        if ascii_lower_byte(b[start + i]) != word[i] {
            assert(lowered(tail)[i as int] != word@[i as int]);
            return false;
        }
        i = i + 1;
    }
    assert(lowered(tail) =~= word@);
    true
}

fn is_allowed_tail(b: &[u8], start: usize) -> (r: bool)
    requires
        start <= b@.len(),
    ensures
        r == is_allowed_extension(b@.subrange(start as int, b@.len() as int)),
{
    let jpg: Vec<u8> = vec![106u8, 112u8, 103u8];
    let jpeg: Vec<u8> = vec![106u8, 112u8, 101u8, 103u8];
    let png: Vec<u8> = vec![112u8, 110u8, 103u8];
    let gif: Vec<u8> = vec![103u8, 105u8, 102u8];
    let bmp: Vec<u8> = vec![98u8, 109u8, 112u8];
    let webp: Vec<u8> = vec![119u8, 101u8, 98u8, 112u8];
    lowered_tail_is(b, start, jpg.as_slice()) || lowered_tail_is(b, start, jpeg.as_slice())
        || lowered_tail_is(b, start, png.as_slice()) || lowered_tail_is(b, start, gif.as_slice())
        || lowered_tail_is(b, start, bmp.as_slice()) || lowered_tail_is(b, start, webp.as_slice())
}

/// The path's file name carries a supported image extension (case-insensitive).
pub fn has_supported_extension(path: &str) -> (r: bool)
    ensures
        r == has_image_extension(path@),
{
    let b = path.as_bytes();
    let n = b.len();
    assert(b@ == path_bytes(path@));
    match find_extension_dot(b) {
        Some(d) => {
            assert(d < n);
            let r = is_allowed_tail(b, d + 1);
            proof {
                if r {
                    assert(extension_dot(path_bytes(path@), d as int));
                } else {
                    assert forall|d2: int| #[trigger] extension_dot(b@, d2) implies !is_allowed_extension(
                        b@.subrange(d2 + 1, b@.len() as int),
                    ) by {
                        if d2 < d {
                            assert(b@[d as int] == DOT);
                        } else if d2 > d {
                            assert(b@[d2] == DOT);
                        }
                    }
                }
            }
            r
        },
        None => false,
    }
}

/// Whether a listed path is a supported image: it names a regular file, and its
/// extension is one of jpg, jpeg, png, gif, bmp and webp, in any case.
pub fn is_supported_image(path: &str, is_file: bool) -> (r: bool)
    ensures
        r == (is_file && has_image_extension(path@)),
{
    is_file && has_supported_extension(path)
}

/// The supported images of a directory listing, sorted ascending by path and
/// without duplicates.
pub fn image_listing(entries: &Vec<DirEntry>) -> (r: Vec<String>)
    ensures
        strictly_ascending(r@),
        forall|q: Seq<char>| #[trigger] holds_path(r@, q) <==> lists_image(entries@, q),
{
    let mut out: Vec<String> = Vec::new();
    let mut j: usize = 0;
    while j < entries.len()
        invariant
            j <= entries@.len(),
            strictly_ascending(out@),
            forall|q: Seq<char>| #[trigger]
                holds_path(out@, q) <==> lists_image(entries@.subrange(0, j as int), q),
        decreases entries@.len() - j,
    {
        let e = &entries[j];
        let ghost prefix = entries@.subrange(0, j as int);
        let ghost next = entries@.subrange(0, j + 1);
        if is_supported_image(e.path.as_str(), e.is_file) {
            insert_sorted(&mut out, e.path.clone());
        }
        proof {
            assert forall|q: Seq<char>| lists_image(next, q) <==> (lists_image(prefix, q) || (
            is_image_entry(entries@[j as int]) && entries@[j as int].path@ == q)) by {
                if lists_image(next, q) {
                    let k = choose|k: int|
                        0 <= k < next.len() && is_image_entry(#[trigger] next[k]) && next[k].path@
                            == q;
                    if k < j {
                        assert(prefix[k] == next[k]);
                    }
                }
                if lists_image(prefix, q) {
                    let k = choose|k: int|
                        0 <= k < prefix.len() && is_image_entry(#[trigger] prefix[k])
                            && prefix[k].path@ == q;
                    assert(next[k] == prefix[k]);
                }
                if is_image_entry(entries@[j as int]) && entries@[j as int].path@ == q {
                    assert(next[j as int] == entries@[j as int]);
                }
            }
        }
        j = j + 1;
    }
    assert(entries@.subrange(0, j as int) =~= entries@);
    out
}

/// The outcome of comparing two byte strings.
pub enum Order {
    Before,
    Same,
    After,
}

/// Compares two byte strings lexicographically.
pub fn compare_bytes(a: &[u8], b: &[u8]) -> (r: Order)
    ensures
        r is Before ==> bytes_before(a@, b@),
        r is Same ==> a@ == b@,
        r is After ==> bytes_before(b@, a@),
{
    let mut i: usize = 0;
    while i < a.len() && i < b.len()
        invariant
            0 <= i <= a@.len(),
            i <= b@.len(),
            agree_upto(a@, b@, i as int),
        decreases a@.len() - i,
    {
        if a[i] < b[i] {
            return Order::Before;
        }
        if a[i] > b[i] {
            assert(agree_upto(b@, a@, i as int));
            return Order::After;
        }
        i = i + 1;
    }
    if a.len() == b.len() {
        assert(a@ =~= b@);
        Order::Same
    } else if a.len() < b.len() {
        Order::Before
    } else {
        assert(agree_upto(b@, a@, i as int));
        Order::After
    }
}

/// Compares two paths by their platform bytes.
pub fn compare_paths(a: &String, b: &String) -> (r: Order)
    ensures
        r is Before ==> path_before(a@, b@),
        r is Same ==> a@ == b@,
        r is After ==> path_before(b@, a@),
{
    let ab = a.as_str().as_bytes();
    let bb = b.as_str().as_bytes();
    let r = compare_bytes(ab, bb);
    proof {
        if r is Same {
            lemma_path_bytes_injective(a@, b@);
        }
    }
    r
}

/// Inserts `p` at its place in a strictly ascending list, unless an equal path is
/// already there.
pub fn insert_sorted(v: &mut Vec<String>, p: String)
    requires
        strictly_ascending(old(v)@),
    ensures
        strictly_ascending(final(v)@),
        forall|q: Seq<char>| #[trigger]
            holds_path(final(v)@, q) <==> (holds_path(old(v)@, q) || q == p@),
{
    let mut j: usize = 0;
    while j < v.len()
        invariant
            v@ == old(v)@,
            strictly_ascending(v@),
            0 <= j <= v@.len(),
            forall|i: int| 0 <= i < j ==> path_before(#[trigger] v@[i]@, p@),
        ensures
            v@ == old(v)@,
            0 <= j <= v@.len(),
            forall|i: int| 0 <= i < j ==> path_before(#[trigger] v@[i]@, p@),
            j < v@.len() ==> path_before(p@, v@[j as int]@),
        decreases v@.len() - j,
    {
        match compare_paths(&p, &v[j]) {
            Order::Before => {
                break;
            },
            Order::Same => {
                assert(v@[j as int]@ == p@);
                assert(holds_path(v@, p@));
                return;
            },
            Order::After => {},
        }
        j = j + 1;
    }
    let ghost before = v@;
    proof {
        assert forall|i: int| j <= i < before.len() implies path_before(p@, #[trigger] before[i]@) by {
            if i > j {
                lemma_bytes_before_transitive(
                    path_bytes(p@),
                    path_bytes(before[j as int]@),
                    path_bytes(before[i]@),
                );
            }
        }
    }
    v.insert(j, p);
    proof {
        assert forall|a: int, b: int| 0 <= a < b < v@.len() implies path_before(
            #[trigger] v@[a]@,
            #[trigger] v@[b]@,
        ) by {
            if a < j && b == j {
            } else if a < j && b > j {
                assert(v@[b] == before[b - 1]);
                lemma_bytes_before_transitive(
                    path_bytes(v@[a]@),
                    path_bytes(p@),
                    path_bytes(v@[b]@),
                );
            } else if a == j {
                assert(v@[b] == before[b - 1]);
            }
        }
        assert forall|q: Seq<char>| holds_path(v@, q) <==> (holds_path(before, q) || q == p@) by {
            if holds_path(v@, q) {
                let i = choose|i: int| 0 <= i < v@.len() && #[trigger] v@[i]@ == q;
                if i < j {
                    assert(before[i]@ == q);
                } else if i > j {
                    assert(before[i - 1]@ == q);
                }
            }
            if holds_path(before, q) {
                let i = choose|i: int| 0 <= i < before.len() && #[trigger] before[i]@ == q;
                if i < j {
                    assert(v@[i]@ == q);
                } else {
                    assert(v@[i + 1]@ == q);
                }
            }
            if q == p@ {
                assert(v@[j as int]@ == q);
            }
        }
        assert(before == old(v)@);
        assert(forall|q: Seq<char>| #[trigger]
            holds_path(v@, q) <==> (holds_path(old(v)@, q) || q == p@));
        assert(strictly_ascending(v@));
    }
}

/// `k` is the index of the last '/' of `b`.
pub open spec fn last_slash(b: Seq<u8>, k: int) -> bool {
    &&& 0 <= k < b.len()
    &&& b[k] == SLASH
    &&& forall|i: int| k < i < b.len() ==> b[i] != SLASH
}

/// `dir` is the parent directory of the file path `p`: what stands before the last
/// '/' ("/" when that is the first byte), or the empty path when `p` is a bare
/// file name. A path that is empty or ends in '/' names no file and has no parent.
pub open spec fn is_parent_of(dir: Seq<char>, p: Seq<char>) -> bool {
    let b = path_bytes(p);
    &&& b.len() > 0
    &&& b.last() != SLASH
    &&& if exists|k: int| #[trigger] last_slash(b, k) {
        let k = choose|k: int| #[trigger] last_slash(b, k);
        path_bytes(dir) == if k == 0 {
            b.subrange(0, 1)
        } else {
            b.subrange(0, k)
        }
    } else {
        dir.len() == 0
    }
}

/// A file path has a parent unless it is empty or ends in '/'.
pub open spec fn has_parent(p: Seq<char>) -> bool {
    let b = path_bytes(p);
    b.len() > 0 && b.last() != SLASH
}

/// The directory that holds the file `path`, if the path names a file.
pub fn parent_of(path: &str) -> (r: Option<String>)
    ensures
        r is Some <==> has_parent(path@),
        r matches Some(dir) ==> is_parent_of(dir@, path@),
{
    broadcast use vstd::utf8::encode_utf8_valid_utf8;

    let b = path.as_bytes();
    let n = b.len();
    assert(b@ == path_bytes(path@));
    if n == 0 || b[n - 1] == SLASH {
        return None;
    }
    let mut i: usize = n;
    while i > 0 && b[i - 1] != SLASH
        invariant
            i <= n == b@.len(),
            forall|k: int| i <= k < b@.len() ==> b@[k] != SLASH,
        decreases i,
    {
        i = i - 1;
    }
    if i == 0 {
        let dir = String::new();
        assert(!exists|k: int| #[trigger] last_slash(b@, k));
        return Some(dir);
    }
    let k = i - 1;
    assert(last_slash(b@, k as int));
    assert forall|k2: int| #[trigger] last_slash(b@, k2) implies k2 == k by {
        if k2 < k {
            assert(b@[k as int] == SLASH);
        }
    }
    let cut = if k == 0 {
        1
    } else {
        k
    };
    proof {
        if k == 0 {
            reveal_with_fuel(is_char_boundary, 2);
            assert(length_of_first_scalar(b@) == 1);
            vstd::utf8::is_char_boundary_start_end_of_seq(pop_first_scalar(b@));
        } else {
            vstd::utf8::is_char_boundary_iff_not_is_continuation_byte(b@, cut as int);
        }
    }
    let (head, _) = path.split_at(cut);
    let dir = head.to_owned();
    Some(dir)
}

/// The bytes of the file name: what follows the last '/'.
pub open spec fn file_name_bytes(b: Seq<u8>) -> Seq<u8> {
    if exists|k: int| #[trigger] last_slash(b, k) {
        let k = choose|k: int| #[trigger] last_slash(b, k);
        b.subrange(k + 1, b.len() as int)
    } else {
        b
    }
}

/// The compact form of a file name for logs: the name itself when it takes at
/// most 23 bytes, else its first ten characters, "..." and its last ten.
pub open spec fn log_form(name: Seq<char>, byte_len: nat) -> Seq<char> {
    if byte_len <= 23 {
        name
    } else {
        let head = if name.len() < 10 { name.len() } else { 10 };
        name.subrange(0, head as int) + "..."@ + name.subrange(name.len() - head, name.len() as int)
    }
}

/// The file name of `path`, shortened for logs.
pub fn format_path_for_log(path: &str) -> (r: String)
    ensures
        r@ == log_form(
            decode_utf8(file_name_bytes(path_bytes(path@))),
            file_name_bytes(path_bytes(path@)).len(),
        ),
{
    let b = path.as_bytes();
    let n = b.len();
    assert(b@ == path_bytes(path@));
    let mut i: usize = n;
    while i > 0 && b[i - 1] != SLASH
        invariant
            i <= n == b@.len(),
            forall|k: int| i <= k < b@.len() ==> b@[k] != SLASH,
        decreases i,
    {
        i = i - 1;
    }
    let name: &str = if i == 0 {
        assert(!exists|k: int| #[trigger] last_slash(b@, k));
        path
    } else {
        let k = i - 1;
        assert(last_slash(b@, k as int));
        assert forall|k2: int| #[trigger] last_slash(b@, k2) implies k2 == k by {
            if k2 < k {
                assert(b@[k as int] == SLASH);
            }
        }
        proof {
            broadcast use vstd::utf8::encode_utf8_valid_utf8;

            vstd::utf8::is_char_boundary_iff_not_is_continuation_byte(b@, k as int);
        }
        let (_, rest) = path.split_at(k);
        proof {
            broadcast use vstd::utf8::encode_utf8_valid_utf8;

            let rb = rest.spec_bytes();
            assert(rb[0] == SLASH);
            reveal_with_fuel(is_char_boundary, 2);
            assert(length_of_first_scalar(rb) == 1);
            vstd::utf8::is_char_boundary_start_end_of_seq(pop_first_scalar(rb));
        }
        let (_, tail) = rest.split_at(1);
        assert(tail.spec_bytes() =~= b@.subrange(k + 1, n as int));
        tail
    };
    let ghost fnb = file_name_bytes(path_bytes(path@));
    assert(name.spec_bytes() == fnb);
    assert(name@ == decode_utf8(fnb));
    if name.len() <= 23 {
        return name.to_owned();
    }
    let count = name.unicode_len();
    let head: usize = if count < 10 {
        count
    } else {
        10
    };
    let first = name.substring_char(0, head);
    let last = name.substring_char(count - head, count);
    let shortened = String::from_str(first).concat("...").concat(last);
    shortened
}

/// Logging helpers on paths.
pub trait PathExt {
    /// The file name, shortened for logs to its first ten characters, "..." and
    /// its last ten when it takes more than 23 bytes.
    fn format_for_log(&self) -> String;
}

impl PathExt for str {
    fn format_for_log(&self) -> String {
        format_path_for_log(self)
    }
}

} // verus!
