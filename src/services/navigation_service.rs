//! A façade through which all navigation happens: each operation returns the
//! resulting current path or the reason it failed.

use vstd::prelude::*;
use crate::error::NavigationError;
use crate::navigation::{
    NavigationState,
    NavigationView,
    is_listing_of,
    is_scan_failure,
    moved_to,
    opt_view,
    peek_next_of,
    peek_prev_of,
    position_or_zero,
    rescanned,
    step_refusal,
    stepped_next,
    stepped_prev,
};
use crate::paths::{DirEntry, has_parent, is_parent_of};

verus! {

/// `r` is `Ok` with the current file of `v`.
pub open spec fn returns_current(r: Result<String, NavigationError>, v: NavigationView) -> bool {
    match r {
        Ok(p) => v.current == Some(p@),
        Err(_) => false,
    }
}

/// Owns the navigation state; callers reach it only through these operations.
pub struct NavigationService {
    navigation: NavigationState,
}

impl View for NavigationService {
    type V = NavigationView;

    closed spec fn view(&self) -> NavigationView {
        self.navigation@
    }
}

impl NavigationService {
    pub closed spec fn wf(&self) -> bool {
        self.navigation.wf()
    }

    /// A service over `navigation`.
    pub fn new(navigation: NavigationState) -> (r: Self)
        requires
            navigation.wf(),
        ensures
            r.wf(),
            r@ == navigation@,
    {
        NavigationService { navigation }
    }

    /// Steps to the next image, wrapping to the first, and returns its path.
    pub fn next(&mut self) -> (r: Result<String, NavigationError>)
        requires
            old(self).wf(),
        ensures
            final(self).wf(),
            match step_refusal(old(self)@) {
                Some(e) => r == Err::<String, NavigationError>(e) && final(self)@ == old(self)@,
                None => final(self)@ == stepped_next(old(self)@) && returns_current(r, final(self)@),
            },
    {
        match self.navigation.navigate_next() {
            Ok(()) => self.current_or_error(),
            Err(e) => Err(e),
        }
    }

    /// Steps to the previous image, wrapping to the last, and returns its path.
    pub fn previous(&mut self) -> (r: Result<String, NavigationError>)
        requires
            old(self).wf(),
        ensures
            final(self).wf(),
            match step_refusal(old(self)@) {
                Some(e) => r == Err::<String, NavigationError>(e) && final(self)@ == old(self)@,
                None => final(self)@ == stepped_prev(old(self)@) && returns_current(r, final(self)@),
            },
    {
        match self.navigation.navigate_prev() {
            Ok(()) => self.current_or_error(),
            Err(e) => Err(e),
        }
    }

    fn current_or_error(&self) -> (r: Result<String, NavigationError>)
        requires
            self@.current is Some,
        ensures
            returns_current(r, self@),
    {
        match self.navigation.current_path() {
            Some(p) => Ok(p),
            None => Err(NavigationError::NoCurrentPath),
        }
    }

    /// Selects `path`, with `listing` the caller's reading of its parent
    /// directory, and returns it.
    pub fn select_image(&mut self, path: String, listing: Result<Vec<DirEntry>, String>) -> (r:
        Result<String, NavigationError>)
        requires
            old(self).wf(),
        ensures
            final(self).wf(),
            !has_parent(path@) ==> final(self)@ == old(self)@ && is_scan_failure(
                r,
                "No parent directory"@,
            ),
            has_parent(path@) ==> match listing {
                Err(e) => final(self)@ == old(self)@ && is_scan_failure(r, e@),
                Ok(entries) => {
                    &&& r matches Ok(p) && p@ == path@
                    &&& final(self)@.directory matches Some(d) && is_parent_of(d, path@)
                    &&& is_listing_of(final(self)@.siblings, entries@)
                    &&& final(self)@.current == Some(path@)
                    &&& final(self)@.rating is None
                },
            },
    {
        let selected = path.clone();
        match self.navigation.update_directory(path, listing) {
            Ok(()) => Ok(selected),
            Err(e) => Err(e),
        }
    }

    /// Moves to the last image of the directory and returns its path.
    pub fn navigate_to_last(&mut self) -> (r: Result<String, NavigationError>)
        requires
            old(self).wf(),
        ensures
            final(self).wf(),
            if old(self)@.siblings.len() == 0 {
                r == Err::<String, NavigationError>(NavigationError::NoImages) && final(self)@
                    == old(self)@
            } else {
                final(self)@ == moved_to(old(self)@, old(self)@.siblings.len() - 1) && returns_current(r, final(self)@)
            },
    {
        match self.navigation.navigate_to_last() {
            Ok(()) => self.current_or_error(),
            Err(e) => Err(e),
        }
    }

    /// Replaces the images with `listing`, the caller's new reading of the
    /// current directory, and returns how many there are.
    pub fn rescan_directory(&mut self, listing: Result<Vec<DirEntry>, String>) -> (r: Result<
        usize,
        NavigationError,
    >)
        requires
            old(self).wf(),
        ensures
            final(self).wf(),
            old(self)@.directory is None ==> final(self)@ == old(self)@ && is_scan_failure(
                r,
                "No current directory to rescan"@,
            ),
            old(self)@.directory is Some ==> match listing {
                Err(e) => final(self)@ == old(self)@ && is_scan_failure(r, e@),
                Ok(entries) => {
                    &&& r matches Ok(n) && n == final(self)@.siblings.len()
                    &&& final(self)@ == rescanned(old(self)@, final(self)@.siblings)
                    &&& is_listing_of(final(self)@.siblings, entries@)
                },
            },
    {
        match self.navigation.rescan_directory(listing) {
            Ok(()) => Ok(self.navigation.image_count()),
            Err(e) => Err(e),
        }
    }

    /// The number of images in the current directory.
    pub fn image_count(&self) -> (r: usize)
        ensures
            r == self@.siblings.len(),
    {
        self.navigation.image_count()
    }

    /// The images after and before the current one, for prefetching; neither
    /// wraps around.
    pub fn get_adjacent_paths(&self) -> (r: (Option<String>, Option<String>))
        requires
            self.wf(),
        ensures
            opt_view(r.0) == peek_next_of(self@),
            opt_view(r.1) == peek_prev_of(self@),
    {
        (self.navigation.peek_next_image(), self.navigation.peek_prev_image())
    }

    /// The current file, if any.
    pub fn current_path(&self) -> (r: Option<String>)
        ensures
            opt_view(r) == self@.current,
    {
        self.navigation.current_path()
    }

    /// The current directory, if any.
    pub fn current_directory(&self) -> (r: Option<String>)
        ensures
            opt_view(r) == self@.directory,
    {
        self.navigation.get_current_directory()
    }

    /// The last known rating of the current file.
    pub fn current_rating(&self) -> (r: Option<u8>)
        ensures
            r == self@.rating,
    {
        self.navigation.current_rating()
    }

    /// Records the rating of the current file, as loaded or written.
    pub fn set_current_rating(&mut self, rating: Option<u8>)
        requires
            old(self).wf(),
        ensures
            final(self).wf(),
            final(self)@ == (NavigationView { rating, ..old(self)@ }),
    {
        self.navigation.set_current_rating(rating);
    }

    /// The one-based position of the current file among the images and their
    /// number, as shown to the user; the position is -1 when no file is current
    /// or the count does not fit.
    pub fn position_info(&self) -> (r: (i32, i32))
        requires
            self.wf(),
        ensures
            r.1 == (if self@.siblings.len() <= i32::MAX {
                self@.siblings.len() as i32
            } else {
                -1i32
            }),
            r.0 == (match self@.current {
                Some(p) => if self@.siblings.len() <= i32::MAX {
                    (position_or_zero(self@.siblings, p) + 1) as i32
                } else {
                    -1i32
                },
                None => -1i32,
            }),
    {
        let n = self.navigation.image_count();
        if n > i32::MAX as usize {
            return (-1, -1);
        }
        let total = n as i32;
        match self.navigation.current_path() {
            Some(p) => {
                let i = self.navigation.find_file_index(&p);
                (i as i32 + 1, total)
            },
            None => (-1, total),
        }
    }

    /// The images of the current directory, in order.
    pub fn image_files(&self) -> (r: Vec<String>)
        ensures
            r@.len() == self@.siblings.len(),
            forall|i: int| 0 <= i < r@.len() ==> (#[trigger] r@[i])@ == self@.siblings[i]@,
    {
        self.navigation.image_files()
    }
}

} // verus!
