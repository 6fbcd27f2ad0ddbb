//! Navigation, caching and rating-write coordination for a desktop image viewer.
//!
//! The library keeps the state of "which directory, which file, which siblings",
//! a bounded least-recently-used cache of decoded images, and the decisions of the
//! rating and auto-reload services. Reading directories, decoding images and
//! writing metadata are done by the caller, which hands the results in as values.
//!
//! - `paths`: which files are images, and the order of a directory listing.
//! - `navigation`: the navigation state machine.
//! - `cache`: the least-recently-used cache of decoded images.
//! - `services`: navigation, rating writes and auto-reload.
//! - `loading`: what to decode ahead, and how decodes enter the cache.
//! - `metadata`, `sd_parameters`: ratings and generation parameters in image
//!   metadata.
//! - `error`, `display`, `clipboard`, `color`: errors and small platform-facing
//!   pieces.

pub mod paths;
pub mod error;
pub mod navigation;
pub mod cache;
pub mod services;
pub mod loading;
pub mod metadata;
pub mod sd_parameters;
pub mod display;
pub mod clipboard;
pub mod color;
