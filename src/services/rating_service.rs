//! Serialises rating writes against the current file.
//!
//! A rating write runs in three steps: `begin_write` claims the single write
//! slot for the current file, the caller writes the file's metadata, and
//! `finish_write` releases the slot and, after a successful write, records the
//! rating in the navigation state and the cache.

use vstd::prelude::*;
use crate::cache::{ImageCache, with_rating};
use crate::error::{AppError, is_write_error};
use crate::navigation::{NavigationView, opt_view};
use crate::services::navigation_service::NavigationService;

verus! {

/// The outcome of a successful rating write.
#[derive(Debug)]
pub struct RatingSuccess {
    pub rating: u8,
}

/// A rating write is refused: no file is current, or the slot already holds it.
pub open spec fn write_refused(slot: Option<Seq<char>>, current: Option<Seq<char>>) -> bool {
    current is None || slot == current
}

/// The write slot after a claim for `current`: taken for it, unless refused.
pub open spec fn claimed(slot: Option<Seq<char>>, current: Option<Seq<char>>) -> Option<Seq<char>> {
    if write_refused(slot, current) {
        slot
    } else {
        current
    }
}

/// Holds the path whose metadata is being written, if any.
pub struct RatingService {
    current_writing: Option<String>,
}

impl View for RatingService {
    type V = Option<Seq<char>>;

    closed spec fn view(&self) -> Option<Seq<char>> {
        opt_view(self.current_writing)
    }
}

impl RatingService {
    /// A service with no write in progress.
    pub fn new() -> (r: Self)
        ensures
            r@ is None,
    {
        RatingService { current_writing: None }
    }

    /// Whether a write of `path` is in progress.
    pub fn is_write_in_progress(&self, path: &String) -> (r: bool)
        ensures
            r == (self@ == Some(path@)),
    {
        match &self.current_writing {
            Some(p) => *p == *path,
            None => false,
        }
    }

    /// Claims the write slot for the current file and returns its path. Fails,
    /// changing nothing, when no file is current or a write of the current file
    /// is already in progress.
    pub fn begin_write(&mut self, navigation: &NavigationService) -> (r: Result<String, AppError>)
        ensures
            final(self)@ == claimed(old(self)@, navigation@.current),
            navigation@.current is None ==> is_write_error(r, "No image file selected"@),
            (navigation@.current is Some && old(self)@ == navigation@.current) ==> is_write_error(
                r,
                "Write already in progress for this file"@,
            ),
            !write_refused(old(self)@, navigation@.current) ==> match r {
                Ok(p) => navigation@.current == Some(p@),
                Err(_) => false,
            },
    {
        let path = match navigation.current_path() {
            Some(p) => p,
            None => {
                return Err(AppError::XmpWrite(String::from_str("No image file selected")));
            },
        };
        if self.is_write_in_progress(&path) {
            return Err(AppError::XmpWrite(String::from_str("Write already in progress for this file")));
        }
        self.current_writing = Some(path.clone());
        Ok(path)
    }

    /// Releases the write slot after the caller wrote `rating` to `path` with
    /// `outcome`. After a success the rating is recorded as the current rating and
    /// in the cache entry of `path`, whether or not `path` is still current; after
    /// a failure nothing else changes and the error is returned as a write error.
    pub fn finish_write(
        &mut self,
        navigation: &mut NavigationService,
        cache: &mut ImageCache,
        path: &String,
        rating: u8,
        outcome: Result<(), AppError>,
    ) -> (r: Result<RatingSuccess, AppError>)
        requires
            old(navigation).wf(),
            old(cache).wf(),
        ensures
            final(self)@ is None,
            final(navigation).wf(),
            final(cache).wf(),
            final(cache)@.capacity == old(cache)@.capacity,
            match outcome {
                Ok(()) => {
                    &&& r matches Ok(s) && s.rating == rating
                    &&& final(navigation)@ == (NavigationView { rating: Some(rating), ..old(navigation)@ })
                    &&& final(cache)@.entries == with_rating(old(cache)@.entries, path@, Some(rating))
                },
                Err(e) => {
                    &&& final(navigation)@ == old(navigation)@
                    &&& final(cache)@ == old(cache)@
                    &&& is_write_error(r, e.message_spec())
                },
            },
    {
        self.current_writing = None;
        match outcome {
            Ok(()) => {
                navigation.set_current_rating(Some(rating));
                cache.update_rating(path, Some(rating));
                Ok(RatingSuccess { rating })
            },
            Err(e) => Err(AppError::XmpWrite(e.message())),
        }
    }
}

/// A write of the same file while one is in flight is refused: once a claim
/// for the current file has succeeded, a second claim for the same file is
/// refused and leaves the slot as it is, until `finish_write` releases it.
pub proof fn lemma_second_write_refused(slot: Option<Seq<char>>, current: Seq<char>)
    requires
        !write_refused(slot, Some(current)),
    ensures
        write_refused(claimed(slot, Some(current)), Some(current)),
        claimed(claimed(slot, Some(current)), Some(current)) == claimed(slot, Some(current)),
{
}

} // verus!
