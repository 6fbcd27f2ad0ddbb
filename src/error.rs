//! Error types of the viewer's core.

use vstd::prelude::*;

verus! {

/// Application-level errors.
#[derive(Debug)]
pub enum AppError {
    /// An image file could not be loaded or decoded.
    ImageLoad(String),
    /// A directory could not be scanned for image files.
    DirectoryScan(String),
    /// XMP metadata could not be read.
    XmpRead(String),
    /// XMP metadata could not be written.
    XmpWrite(String),
    /// Metadata (including generation parameters) could not be read.
    MetadataRead(String),
}

/// Errors of navigation through a directory's images.
#[derive(Debug)]
pub enum NavigationError {
    /// The current directory holds no supported images.
    NoImages,
    /// No current file is set.
    NoCurrentPath,
    /// The directory could not be scanned.
    DirectoryScanFailed(String),
}

/// `r` is an `XmpWrite` error with the message `m`.
pub open spec fn is_write_error<T>(r: Result<T, AppError>, m: Seq<char>) -> bool {
    match r {
        Err(AppError::XmpWrite(s)) => s@ == m,
        _ => false,
    }
}

/// `r` is a `MetadataRead` error with the message `m`.
pub open spec fn is_metadata_error<T>(r: Result<T, AppError>, m: Seq<char>) -> bool {
    match r {
        Err(AppError::MetadataRead(s)) => s@ == m,
        _ => false,
    }
}

/// `s` followed by `t`.
fn joined(s: &str, t: &str) -> (r: String)
    ensures
        r@ == s@ + t@,
{
    let head = String::from_str(s);
    head.concat(t)
}

impl AppError {
    /// The text of `message`.
    pub open spec fn message_spec(&self) -> Seq<char> {
        match self {
            AppError::ImageLoad(m) => "画像読み込みエラー: "@ + m@,
            AppError::DirectoryScan(m) => "ディレクトリスキャンエラー: "@ + m@,
            AppError::XmpRead(m) => "XMP読み取りエラー: "@ + m@,
            AppError::XmpWrite(m) => "XMP書き込みエラー: "@ + m@,
            AppError::MetadataRead(m) => "メタデータ読み取りエラー: "@ + m@,
        }
    }

    /// A short human-readable description of the error.
    pub fn message(&self) -> (r: String)
        ensures
            r@ == self.message_spec(),
    {
        match self {
            AppError::ImageLoad(m) => joined("画像読み込みエラー: ", m.as_str()),
            AppError::DirectoryScan(m) => joined("ディレクトリスキャンエラー: ", m.as_str()),
            AppError::XmpRead(m) => joined("XMP読み取りエラー: ", m.as_str()),
            AppError::XmpWrite(m) => joined("XMP書き込みエラー: ", m.as_str()),
            AppError::MetadataRead(m) => joined("メタデータ読み取りエラー: ", m.as_str()),
        }
    }
}

impl NavigationError {
    /// A short human-readable description of the error.
    pub fn message(&self) -> (r: String)
        ensures
            r@ == match self {
                NavigationError::NoImages => "No images available in the current directory"@,
                NavigationError::NoCurrentPath => "No current file path is set"@,
                NavigationError::DirectoryScanFailed(m) => "Failed to scan directory: "@ + m@,
            },
    {
        match self {
            NavigationError::NoImages => String::from_str(
                "No images available in the current directory",
            ),
            NavigationError::NoCurrentPath => String::from_str("No current file path is set"),
            NavigationError::DirectoryScanFailed(m) => joined(
                "Failed to scan directory: ",
                m.as_str(),
            ),
        }
    }
}

} // verus!
