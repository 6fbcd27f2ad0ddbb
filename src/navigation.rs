//! The navigation state machine: current directory, its sorted images, the
//! current file and its last known rating.

use vstd::prelude::*;
use crate::error::NavigationError;
use crate::paths::{
    DirEntry,
    holds_path,
    image_listing,
    is_parent_of,
    has_parent,
    lists_image,
    parent_of,
    path_before,
    path_bytes,
    strictly_ascending,
};

verus! {

/// What a navigation state holds, as mathematical values.
pub struct NavigationView {
    pub directory: Option<Seq<char>>,
    pub siblings: Seq<String>,
    pub current: Option<Seq<char>>,
    pub rating: Option<u8>,
}

pub open spec fn opt_view(o: Option<String>) -> Option<Seq<char>> {
    match o {
        Some(s) => Some(s@),
        None => None,
    }
}

/// `v` is exactly the sorted list of supported images that `entries` lists.
pub open spec fn is_listing_of(v: Seq<String>, entries: Seq<DirEntry>) -> bool {
    &&& strictly_ascending(v)
    &&& forall|q: Seq<char>| #[trigger] holds_path(v, q) <==> lists_image(entries, q)
}

/// The index of `p` in `v`, or 0 when `p` is not there (a rescan may have
/// removed it).
pub open spec fn position_or_zero(v: Seq<String>, p: Seq<char>) -> int {
    if exists|i: int| 0 <= i < v.len() && #[trigger] v[i]@ == p {
        choose|i: int| 0 <= i < v.len() && #[trigger] v[i]@ == p
    } else {
        0
    }
}

/// The index reached from `i` by one step forward, wrapping to the first.
pub open spec fn next_index(i: int, len: int) -> int {
    if i + 1 < len {
        i + 1
    } else {
        0
    }
}

/// The index reached from `i` by one step back, wrapping to the last.
pub open spec fn prev_index(i: int, len: int) -> int {
    if i > 0 {
        i - 1
    } else {
        len - 1
    }
}

/// The state after moving the current file to sibling `j`; the rating is unset.
pub open spec fn moved_to(v: NavigationView, j: int) -> NavigationView {
    NavigationView {
        directory: v.directory,
        siblings: v.siblings,
        current: Some(v.siblings[j]@),
        rating: None,
    }
}

/// The state after a step forward from the current file.
pub open spec fn stepped_next(v: NavigationView) -> NavigationView {
    moved_to(v, next_index(position_or_zero(v.siblings, v.current.unwrap()), v.siblings.len() as int))
}

/// The state after a step back from the current file.
pub open spec fn stepped_prev(v: NavigationView) -> NavigationView {
    moved_to(v, prev_index(position_or_zero(v.siblings, v.current.unwrap()), v.siblings.len() as int))
}

/// The state after a rescan found `siblings`: nothing else changes.
pub open spec fn rescanned(v: NavigationView, siblings: Seq<String>) -> NavigationView {
    NavigationView { directory: v.directory, siblings, current: v.current, rating: v.rating }
}

/// The sibling after the current file, without wrapping.
pub open spec fn peek_next_of(v: NavigationView) -> Option<Seq<char>> {
    match v.current {
        None => None,
        Some(p) => {
            let i = position_or_zero(v.siblings, p);
            if i + 1 < v.siblings.len() {
                Some(v.siblings[i + 1]@)
            } else {
                None
            }
        },
    }
}

/// The sibling before the current file, without wrapping.
pub open spec fn peek_prev_of(v: NavigationView) -> Option<Seq<char>> {
    match v.current {
        None => None,
        Some(p) => {
            let i = position_or_zero(v.siblings, p);
            if i > 0 {
                Some(v.siblings[i - 1]@)
            } else {
                None
            }
        },
    }
}

/// `r` is a `DirectoryScanFailed` error that carries the message `m`.
pub open spec fn is_scan_failure<T>(r: Result<T, NavigationError>, m: Seq<char>) -> bool {
    match r {
        Err(NavigationError::DirectoryScanFailed(s)) => s@ == m,
        _ => false,
    }
}

/// Why a step cannot be taken from `v`, if it cannot.
pub open spec fn step_refusal(v: NavigationView) -> Option<NavigationError> {
    if v.siblings.len() == 0 {
        Some(NavigationError::NoImages)
    } else if v.current is None {
        Some(NavigationError::NoCurrentPath)
    } else {
        None
    }
}

/// Every move of the current file (a step either way, a jump to the last image)
/// leaves the rating unset until a load records it; selecting a file does too,
/// as `update_directory` states.
pub proof fn lemma_moves_unset_rating(v: NavigationView)
    requires
        v.siblings.len() > 0,
    ensures
        stepped_next(v).rating is None,
        stepped_prev(v).rating is None,
        moved_to(v, v.siblings.len() - 1).rating is None,
{
}

proof fn lemma_position_in_range(v: Seq<String>, p: Seq<char>)
    requires
        v.len() > 0,
    ensures
        0 <= position_or_zero(v, p) < v.len(),
{
}

/// A rescan never strands navigation: whatever the new listing, as long as it
/// holds an image, a step forward or back from a state with a current file
/// succeeds and lands on one of the new images, even when the current file is
/// gone from the listing.
pub proof fn lemma_rescan_then_step(v: NavigationView, siblings: Seq<String>)
    requires
        v.current is Some,
        siblings.len() > 0,
    ensures
        step_refusal(rescanned(v, siblings)) is None,
        stepped_next(rescanned(v, siblings)).current matches Some(p) && holds_path(siblings, p),
        stepped_prev(rescanned(v, siblings)).current matches Some(p) && holds_path(siblings, p),
{
    let w = rescanned(v, siblings);
    let i = position_or_zero(siblings, v.current.unwrap());
    lemma_position_in_range(siblings, v.current.unwrap());
    let n = next_index(i, siblings.len() as int);
    let p = prev_index(i, siblings.len() as int);
    assert(siblings[n]@ == stepped_next(w).current.unwrap());
    assert(siblings[p]@ == stepped_prev(w).current.unwrap());
}

/// Which way to step through the siblings.
enum Direction {
    Next,
    Previous,
}

/// The current directory, the sorted list of its images, the current file and
/// its last known rating.
pub struct NavigationState {
    current_directory: Option<String>,
    image_files: Vec<String>,
    current_file_path: Option<String>,
    current_rating: Option<u8>,
}

impl View for NavigationState {
    type V = NavigationView;

    closed spec fn view(&self) -> NavigationView {
        NavigationView {
            directory: opt_view(self.current_directory),
            siblings: self.image_files@,
            current: opt_view(self.current_file_path),
            rating: self.current_rating,
        }
    }
}

fn clone_opt(o: &Option<String>) -> (r: Option<String>)
    ensures
        opt_view(r) == opt_view(*o),
{
    match o {
        Some(s) => Some(s.clone()),
        None => None,
    }
}

impl NavigationState {
    /// The siblings are sorted strictly ascending by path.
    pub open spec fn wf(&self) -> bool {
        strictly_ascending(self@.siblings)
    }

    /// An empty state: no directory, no images, no current file, no rating.
    pub fn new() -> (r: Self)
        ensures
            r.wf(),
            r@.directory is None,
            r@.siblings.len() == 0,
            r@.current is None,
            r@.rating is None,
    {
        NavigationState {
            current_directory: None,
            image_files: Vec::new(),
            current_file_path: None,
            current_rating: None,
        }
    }

    fn navigate_to(&mut self, direction: Direction) -> (r: Result<(), NavigationError>)
        requires
            old(self).wf(),
        ensures
            final(self).wf(),
            match step_refusal(old(self)@) {
                Some(e) => r == Err::<(), NavigationError>(e) && final(self)@ == old(self)@,
                None => r is Ok && final(self)@ == match direction {
                    Direction::Next => stepped_next(old(self)@),
                    Direction::Previous => stepped_prev(old(self)@),
                },
            },
    {
        if self.image_files.len() == 0 {
            return Err(NavigationError::NoImages);
        }
        let current_index = match &self.current_file_path {
            Some(p) => self.find_file_index(p),
            None => {
                return Err(NavigationError::NoCurrentPath);
            },
        };
        let len = self.image_files.len();
        let new_index = match direction {
            Direction::Next => if current_index + 1 < len {
                current_index + 1
            } else {
                0
            },
            Direction::Previous => if current_index > 0 {
                current_index - 1
            } else {
                len - 1
            },
        };
        let path = self.image_files[new_index].clone();
        self.current_file_path = Some(path);
        self.current_rating = None;
        Ok(())
    }

    /// Moves to the next sibling, wrapping from the last to the first; the
    /// rating becomes unset. Fails with `NoImages` when there are no siblings and
    /// with `NoCurrentPath` when no file is current; the state is then unchanged.
    pub fn navigate_next(&mut self) -> (r: Result<(), NavigationError>)
        requires
            old(self).wf(),
        ensures
            final(self).wf(),
            match step_refusal(old(self)@) {
                Some(e) => r == Err::<(), NavigationError>(e) && final(self)@ == old(self)@,
                None => r is Ok && final(self)@ == stepped_next(old(self)@),
            },
    {
        self.navigate_to(Direction::Next)
    }

    /// Moves to the previous sibling, wrapping from the first to the last; the
    /// rating becomes unset. Fails as `navigate_next` does.
    pub fn navigate_prev(&mut self) -> (r: Result<(), NavigationError>)
        requires
            old(self).wf(),
        ensures
            final(self).wf(),
            match step_refusal(old(self)@) {
                Some(e) => r == Err::<(), NavigationError>(e) && final(self)@ == old(self)@,
                None => r is Ok && final(self)@ == stepped_prev(old(self)@),
            },
    {
        self.navigate_to(Direction::Previous)
    }

    /// The index of `file_path` among the siblings, or 0 if it is not there.
    pub fn find_file_index(&self, file_path: &String) -> (r: usize)
        requires
            self.wf(),
        ensures
            r == position_or_zero(self@.siblings, file_path@),
            self@.siblings.len() > 0 ==> r < self@.siblings.len(),
    {
        let mut i: usize = 0;
        while i < self.image_files.len()
            invariant
                self.wf(),
                i <= self@.siblings.len(),
                forall|k: int| 0 <= k < i ==> (#[trigger] self@.siblings[k])@ != file_path@,
            decreases self@.siblings.len() - i,
        {
            if self.image_files[i] == *file_path {
                proof {
                    let v = self@.siblings;
                    let c = choose|k: int| 0 <= k < v.len() && #[trigger] v[k]@ == file_path@;
                    if c != i {
                        if c < i {
                        } else {
                            assert(path_before(v[i as int]@, v[c]@));
                        }
                    }
                }
                return i;
            }
            i = i + 1;
        }
        0
    }

    /// The current file, if one is set.
    pub fn current_path(&self) -> (r: Option<String>)
        ensures
            opt_view(r) == self@.current,
    {
        clone_opt(&self.current_file_path)
    }

    /// The last known rating of the current file.
    pub fn current_rating(&self) -> (r: Option<u8>)
        ensures
            r == self@.rating,
    {
        self.current_rating
    }

    /// Records the rating of the current file.
    pub fn set_current_rating(&mut self, rating: Option<u8>)
        ensures
            final(self)@ == (NavigationView { rating, ..old(self)@ }),
    {
        self.current_rating = rating;
    }

    /// The sibling after the current file, without moving and without wrapping.
    pub fn peek_next_image(&self) -> (r: Option<String>)
        requires
            self.wf(),
        ensures
            opt_view(r) == peek_next_of(self@),
    {
        match &self.current_file_path {
            None => None,
            Some(p) => {
                let i = self.find_file_index(p);
                let n = self.image_files.len();
                if n > 0 && i < n - 1 {
                    Some(self.image_files[i + 1].clone())
                } else {
                    None
                }
            },
        }
    }

    /// The sibling before the current file, without moving and without wrapping.
    pub fn peek_prev_image(&self) -> (r: Option<String>)
        requires
            self.wf(),
        ensures
            opt_view(r) == peek_prev_of(self@),
    {
        match &self.current_file_path {
            None => None,
            Some(p) => {
                let i = self.find_file_index(p);
                if i > 0 {
                    Some(self.image_files[i - 1].clone())
                } else {
                    None
                }
            },
        }
    }

    /// The current directory, if one is set.
    pub fn get_current_directory(&self) -> (r: Option<String>)
        ensures
            opt_view(r) == self@.directory,
    {
        clone_opt(&self.current_directory)
    }

    /// Moves to the last sibling; the rating becomes unset. Fails with `NoImages`
    /// when there are no siblings, leaving the state unchanged.
    pub fn navigate_to_last(&mut self) -> (r: Result<(), NavigationError>)
        requires
            old(self).wf(),
        ensures
            final(self).wf(),
            if old(self)@.siblings.len() == 0 {
                r == Err::<(), NavigationError>(NavigationError::NoImages) && final(self)@ == old(
                    self,
                )@
            } else {
                r is Ok && final(self)@ == moved_to(old(self)@, old(self)@.siblings.len() - 1)
            },
    {
        let n = self.image_files.len();
        if n == 0 {
            return Err(NavigationError::NoImages);
        }
        let path = self.image_files[n - 1].clone();
        self.current_file_path = Some(path);
        self.current_rating = None;
        Ok(())
    }

    /// Selects `file_path`. Its parent becomes the current directory and
    /// `listing`, the caller's reading of that directory, gives the siblings; the
    /// file becomes current even when the listing lacks it, and the rating is
    /// unset. A path without a parent, or a listing that failed, gives
    /// `DirectoryScanFailed` and leaves the state unchanged.
    pub fn update_directory(
        &mut self,
        file_path: String,
        listing: Result<Vec<DirEntry>, String>,
    ) -> (r: Result<(), NavigationError>)
        requires
            old(self).wf(),
        ensures
            final(self).wf(),
            !has_parent(file_path@) ==> final(self)@ == old(self)@ && is_scan_failure(r, "No parent directory"@),
            has_parent(file_path@) ==> match listing {
                Err(e) => final(self)@ == old(self)@ && is_scan_failure(r, e@),
                Ok(entries) => {
                    &&& r is Ok
                    &&& final(self)@.directory matches Some(d) && is_parent_of(d, file_path@)
                    &&& is_listing_of(final(self)@.siblings, entries@)
                    &&& final(self)@.current == Some(file_path@)
                    &&& final(self)@.rating is None
                },
            },
    {
        let parent = match parent_of(file_path.as_str()) {
            Some(d) => d,
            None => {
                return Err(NavigationError::DirectoryScanFailed(String::from_str("No parent directory")));
            },
        };
        match listing {
            Err(e) => Err(NavigationError::DirectoryScanFailed(e)),
            Ok(entries) => {
                self.current_directory = Some(parent);
                self.image_files = image_listing(&entries);
                self.current_file_path = Some(file_path);
                self.current_rating = None;
                Ok(())
            },
        }
    }

    /// Replaces the siblings with `listing`, the caller's new reading of the
    /// current directory. The current file and rating stay as they are, even when
    /// the file is no longer listed. Without a current directory, or when the
    /// listing failed, gives `DirectoryScanFailed` and leaves the state unchanged.
    pub fn rescan_directory(&mut self, listing: Result<Vec<DirEntry>, String>) -> (r: Result<
        (),
        NavigationError,
    >)
        requires
            old(self).wf(),
        ensures
            final(self).wf(),
            old(self)@.directory is None ==> final(self)@ == old(self)@ && is_scan_failure(r, "No current directory to rescan"@),
            old(self)@.directory is Some ==> match listing {
                Err(e) => final(self)@ == old(self)@ && is_scan_failure(r, e@),
                Ok(entries) => {
                    &&& r is Ok
                    &&& final(self)@ == rescanned(old(self)@, final(self)@.siblings)
                    &&& is_listing_of(final(self)@.siblings, entries@)
                },
            },
    {
        if self.current_directory.is_none() {
            return Err(
                NavigationError::DirectoryScanFailed(
                    String::from_str("No current directory to rescan"),
                ),
            );
        }
        match listing {
            Err(e) => Err(NavigationError::DirectoryScanFailed(e)),
            Ok(entries) => {
                self.image_files = image_listing(&entries);
                Ok(())
            },
        }
    }

    /// The number of images in the current directory.
    pub fn image_count(&self) -> (r: usize)
        ensures
            r == self@.siblings.len(),
    {
        self.image_files.len()
    }

    /// The images of the current directory, in order.
    pub fn image_files(&self) -> (r: Vec<String>)
        ensures
            r@.len() == self@.siblings.len(),
            forall|i: int| 0 <= i < r@.len() ==> (#[trigger] r@[i])@ == self@.siblings[i]@,
    {
        let mut out: Vec<String> = Vec::new();
        let mut i: usize = 0;
        while i < self.image_files.len()
            invariant
                i <= self@.siblings.len(),
                out@.len() == i,
                forall|k: int| 0 <= k < i ==> (#[trigger] out@[k])@ == self@.siblings[k]@,
            decreases self@.siblings.len() - i,
        {
            out.push(self.image_files[i].clone());
            i = i + 1;
        }
        out
    }
}

} // verus!
