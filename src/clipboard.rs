//! Checks and text for copying file paths to the clipboard.

use vstd::prelude::*;

verus! {

/// Errors of clipboard operations.
#[derive(Debug)]
pub enum ClipboardError {
    /// No files were given.
    EmptyPaths,
    /// None of the paths could be expressed as text.
    InvalidPaths,
    /// A file does not exist.
    FileNotFound(String),
    /// The platform clipboard failed.
    PlatformError(String),
}

/// Paths joined by newlines, the plain-text form of a file list.
pub open spec fn lines_of(paths: Seq<String>) -> Seq<char>
    decreases paths.len(),
{
    if paths.len() == 0 {
        Seq::empty()
    } else if paths.len() == 1 {
        paths[0]@
    } else {
        lines_of(paths.drop_last()) + seq!['\n'] + paths.last()@
    }
}

/// The paths that were given as text, in order.
pub open spec fn present_texts(paths: Seq<Option<String>>) -> Seq<String>
    decreases paths.len(),
{
    if paths.len() == 0 {
        Seq::empty()
    } else {
        let rest = present_texts(paths.drop_last());
        match paths.last() {
            Some(s) => rest.push(s),
            None => rest,
        }
    }
}

/// Copies lists of files to the clipboard; the platform work is the caller's.
pub struct ClipboardService;

impl ClipboardService {
    pub fn new() -> (r: Self) {
        ClipboardService
    }

    /// Checks a copy request: `paths` must not be empty, and `exists[i]` tells
    /// whether `paths[i]` exists; the first missing file is reported.
    pub fn validate_paths(paths: &Vec<String>, exists: &Vec<bool>) -> (r: Result<(), ClipboardError>)
        requires
            exists@.len() == paths@.len(),
        ensures
            paths@.len() == 0 ==> r is Err && r->Err_0 is EmptyPaths,
            paths@.len() > 0 && (forall|i: int| 0 <= i < exists@.len() ==> exists@[i]) ==> r is Ok,
            paths@.len() > 0 && !(forall|i: int| 0 <= i < exists@.len() ==> exists@[i]) ==> {
                let i = choose|i: int|
                    0 <= i < exists@.len() && !exists@[i] && forall|j: int| 0 <= j < i ==> exists@[j];
                r matches Err(ClipboardError::FileNotFound(p)) && p@ == paths@[i]@
            },
    {
        if paths.len() == 0 {
            return Err(ClipboardError::EmptyPaths);
        }
        let mut i: usize = 0;
        while i < paths.len()
            invariant
                exists@.len() == paths@.len(),
                i <= paths@.len(),
                forall|j: int| 0 <= j < i ==> exists@[j],
            decreases paths@.len() - i,
        {
            if !exists[i] {
                proof {
                    let c = choose|c: int|
                        0 <= c < exists@.len() && !exists@[c] && forall|j: int| 0 <= j < c ==> exists@[j];
                    if c < i {
                    } else if c > i {
                        assert(exists@[i as int]);
                    }
                }
                return Err(ClipboardError::FileNotFound(paths[i].clone()));
            }
            i = i + 1;
        }
        Ok(())
    }

    /// The paths that could be expressed as text; `InvalidPaths` when none could.
    pub fn paths_to_strings(paths: &Vec<Option<String>>) -> (r: Result<Vec<String>, ClipboardError>)
        ensures
            present_texts(paths@).len() == 0 ==> r is Err && r->Err_0 is InvalidPaths,
            present_texts(paths@).len() > 0 ==> r is Ok && r->Ok_0@.len() == present_texts(paths@).len()
                && forall|i: int| 0 <= i < r->Ok_0@.len() ==> (#[trigger] r->Ok_0@[i])@ == present_texts(paths@)[i]@,
    {
        let mut out: Vec<String> = Vec::new();
        let mut i: usize = 0;
        while i < paths.len()
            invariant
                i <= paths@.len(),
                out@.len() == present_texts(paths@.subrange(0, i as int)).len(),
                forall|k: int| 0 <= k < out@.len() ==> (#[trigger] out@[k])@ == present_texts(
                    paths@.subrange(0, i as int),
                )[k]@,
            decreases paths@.len() - i,
        {
            assert(paths@.subrange(0, i + 1).drop_last() =~= paths@.subrange(0, i as int));
            match &paths[i] {
                Some(s) => {
                    out.push(s.clone());
                },
                None => {},
            }
            i = i + 1;
        }
        assert(paths@.subrange(0, i as int) =~= paths@);
        if out.len() == 0 {
            return Err(ClipboardError::InvalidPaths);
        }
        Ok(out)
    }

    /// The paths joined by newlines.
    pub fn text_for(paths: &Vec<String>) -> (r: String)
        ensures
            r@ == lines_of(paths@),
    {
        let mut text = String::new();
        let mut i: usize = 0;
        while i < paths.len()
            invariant
                i <= paths@.len(),
                text@ == lines_of(paths@.subrange(0, i as int)),
            decreases paths@.len() - i,
        {
            assert(paths@.subrange(0, i + 1).drop_last() =~= paths@.subrange(0, i as int));
            if i > 0 {
                text.append("\n");
                proof {
                    reveal_strlit("\n");
                }
            } else {
                assert(text@ =~= Seq::<char>::empty());
            }
            text.append(paths[i].as_str());
            i = i + 1;
        }
        assert(paths@.subrange(0, i as int) =~= paths@);
        text
    }
}

} // verus!
