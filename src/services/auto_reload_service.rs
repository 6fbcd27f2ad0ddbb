//! The auto-reload coordinator: while it watches, a change among the directory's
//! images moves to the newest (last-sorted) image.
//!
//! The caller owns the watcher and its debouncing; it hands each debounced batch
//! of changed paths here, together with a fresh listing of the directory.

use vstd::prelude::*;
use crate::error::NavigationError;
use crate::navigation::{
    NavigationView,
    is_listing_of,
    is_scan_failure,
    moved_to,
    rescanned,
    step_refusal,
    stepped_next,
    stepped_prev,
};
use crate::paths::{DirEntry, has_image_extension, has_parent, has_supported_extension, is_parent_of};
use crate::services::navigation_service::{NavigationService, returns_current};

verus! {

/// Some changed path carries a supported image extension.
pub open spec fn touches_images(changed: Seq<String>) -> bool {
    exists|i: int| 0 <= i < changed.len() && has_image_extension(#[trigger] changed[i]@)
}

/// The state after a reload with a listing that yields `siblings`: rescanned,
/// then moved to the last image when there is one.
pub open spec fn reloaded(v: NavigationView, siblings: Seq<String>) -> NavigationView {
    let w = rescanned(v, siblings);
    if siblings.len() == 0 {
        w
    } else {
        moved_to(w, siblings.len() - 1)
    }
}

/// A step through the images that the user takes by hand.
pub enum ManualStep {
    Next,
    Previous,
}

/// Watching or not.
pub struct AutoReloadService {
    watching: bool,
}

impl AutoReloadService {
    /// A coordinator that is not watching.
    pub fn new() -> (r: Self)
        ensures
            !r.is_watching_spec(),
    {
        AutoReloadService { watching: false }
    }

    pub closed spec fn is_watching_spec(&self) -> bool {
        self.watching
    }

    /// Whether the coordinator is watching.
    pub fn is_watching(&self) -> (r: bool)
        ensures
            r == self.is_watching_spec(),
    {
        self.watching
    }

    /// Starts watching: moves to the last image and returns it. Without a current
    /// directory it fails with `DirectoryScanFailed("No directory selected")`;
    /// when there is no image it fails with `NoImages`. A failure changes nothing,
    /// and the caller then creates no watcher.
    pub fn start_watching(&mut self, navigation: &mut NavigationService) -> (r: Result<
        String,
        NavigationError,
    >)
        requires
            old(navigation).wf(),
        ensures
            final(navigation).wf(),
            if old(navigation)@.directory is None {
                is_scan_failure(r, "No directory selected"@) && final(navigation)@ == old(
                    navigation,
                )@ && final(self).is_watching_spec() == old(self).is_watching_spec()
            } else if old(navigation)@.siblings.len() == 0 {
                r == Err::<String, NavigationError>(NavigationError::NoImages) && final(navigation)@
                    == old(navigation)@ && final(self).is_watching_spec() == old(self).is_watching_spec()
            } else {
                final(navigation)@ == moved_to(old(navigation)@, old(navigation)@.siblings.len() - 1)
                    && returns_current(r, final(navigation)@) && final(self).is_watching_spec()
            },
    {
        if navigation.current_directory().is_none() {
            return Err(
                NavigationError::DirectoryScanFailed(String::from_str("No directory selected")),
            );
        }
        let r = navigation.navigate_to_last();
        if r.is_ok() {
            self.watching = true;
        }
        r
    }

    /// Stops watching, on request or because the user navigated by hand.
    pub fn stop_watching(&mut self)
        ensures
            !final(self).is_watching_spec(),
    {
        self.watching = false;
    }

    /// A step by hand: it ends watching, since auto-reload follows the newest
    /// image only until the user navigates, then moves as `next` or `previous`
    /// of the navigation service does.
    pub fn navigate_manually(&mut self, navigation: &mut NavigationService, step: ManualStep) -> (r:
        Result<String, NavigationError>)
        requires
            old(navigation).wf(),
        ensures
            !final(self).is_watching_spec(),
            final(navigation).wf(),
            match step_refusal(old(navigation)@) {
                Some(e) => r == Err::<String, NavigationError>(e) && final(navigation)@ == old(
                    navigation,
                )@,
                None => final(navigation)@ == match step {
                    ManualStep::Next => stepped_next(old(navigation)@),
                    ManualStep::Previous => stepped_prev(old(navigation)@),
                } && returns_current(r, final(navigation)@),
            },
    {
        self.watching = false;
        match step {
            ManualStep::Next => navigation.next(),
            ManualStep::Previous => navigation.previous(),
        }
    }

    /// A selection by hand: it ends watching, then selects `path` as
    /// `select_image` of the navigation service does, with `listing` the caller's
    /// reading of its directory.
    pub fn select_manually(
        &mut self,
        navigation: &mut NavigationService,
        path: String,
        listing: Result<Vec<DirEntry>, String>,
    ) -> (r: Result<String, NavigationError>)
        requires
            old(navigation).wf(),
        ensures
            !final(self).is_watching_spec(),
            final(navigation).wf(),
            !has_parent(path@) ==> final(navigation)@ == old(navigation)@ && is_scan_failure(
                r,
                "No parent directory"@,
            ),
            has_parent(path@) ==> match listing {
                Err(e) => final(navigation)@ == old(navigation)@ && is_scan_failure(r, e@),
                Ok(entries) => {
                    &&& r matches Ok(p) && p@ == path@
                    &&& final(navigation)@.directory matches Some(d) && is_parent_of(d, path@)
                    &&& is_listing_of(final(navigation)@.siblings, entries@)
                    &&& final(navigation)@.current == Some(path@)
                    &&& final(navigation)@.rating is None
                },
            },
    {
        self.watching = false;
        navigation.select_image(path, listing)
    }

    /// Whether a batch of changed paths concerns supported images.
    pub fn is_relevant_change(changed: &Vec<String>) -> (r: bool)
        ensures
            r == touches_images(changed@),
    {
        let mut i: usize = 0;
        while i < changed.len()
            invariant
                i <= changed@.len(),
                forall|k: int| 0 <= k < i ==> !has_image_extension(#[trigger] changed@[k]@),
            decreases changed@.len() - i,
        {
            if has_supported_extension(changed[i].as_str()) {
                return true;
            }
            i = i + 1;
        }
        false
    }

    /// Moves to the last image and returns it, without a check for changes.
    pub fn navigate_to_last(&self, navigation: &mut NavigationService) -> (r: Result<
        String,
        NavigationError,
    >)
        requires
            old(navigation).wf(),
        ensures
            final(navigation).wf(),
            if old(navigation)@.siblings.len() == 0 {
                r == Err::<String, NavigationError>(NavigationError::NoImages) && final(navigation)@
                    == old(navigation)@
            } else {
                final(navigation)@ == moved_to(old(navigation)@, old(navigation)@.siblings.len() - 1)
                    && returns_current(r, final(navigation)@)
            },
    {
        navigation.navigate_to_last()
    }

    /// Reacts to a debounced batch of changed paths. While watching, when some
    /// path is a supported image, the directory is rescanned with `listing` and
    /// the last image becomes current; its path, or the first error, is returned.
    /// Otherwise nothing happens and `None` is returned.
    pub fn handle_debounced_events(
        &self,
        navigation: &mut NavigationService,
        changed: &Vec<String>,
        listing: Result<Vec<DirEntry>, String>,
    ) -> (r: Option<Result<String, NavigationError>>)
        requires
            old(navigation).wf(),
        ensures
            final(navigation).wf(),
            !(self.is_watching_spec() && touches_images(changed@)) ==> r is None && final(navigation)@
                == old(navigation)@,
            (self.is_watching_spec() && touches_images(changed@)) ==> r is Some,
            (self.is_watching_spec() && touches_images(changed@) && old(navigation)@.directory is None)
                ==> final(navigation)@ == old(navigation)@ && is_scan_failure(
                r->Some_0,
                "No current directory to rescan"@,
            ),
            (self.is_watching_spec() && touches_images(changed@) && old(navigation)@.directory is Some
                && listing is Err) ==> final(navigation)@ == old(navigation)@ && is_scan_failure(
                r->Some_0,
                listing->Err_0@,
            ),
            (self.is_watching_spec() && touches_images(changed@) && old(navigation)@.directory is Some
                && listing is Ok) ==> {
                &&& is_listing_of(final(navigation)@.siblings, listing->Ok_0@)
                &&& final(navigation)@ == reloaded(old(navigation)@, final(navigation)@.siblings)
                &&& (final(navigation)@.siblings.len() == 0 <==> r == Some(
                    Err::<String, NavigationError>(NavigationError::NoImages),
                ))
                &&& final(navigation)@.siblings.len() > 0 ==> returns_current(
                    r->Some_0,
                    final(navigation)@,
                )
            },
    {
        if !self.watching || !Self::is_relevant_change(changed) {
            return None;
        }
        match navigation.rescan_directory(listing) {
            Err(e) => Some(Err(e)),
            Ok(_) => Some(navigation.navigate_to_last()),
        }
    }
}

} // verus!
