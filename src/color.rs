//! Colour management of decoded pixels for the display they are shown on.

use vstd::prelude::*;

verus! {

/// Errors of colour management.
#[derive(Debug)]
pub enum ColorManagementError {
    /// The display's ICC profile could not be loaded.
    DisplayProfileLoad(String),
    /// The image's ICC profile could not be parsed.
    SourceProfileParse(String),
    /// The display's ICC profile could not be parsed.
    DestinationProfileParse(String),
    /// No transform between the two profiles could be made.
    TransformCreate(String),
}

/// Applies colour management to RGB8 pixels in place, for the image's ICC profile
/// (if any) and the display `screen_id` (the first display when `None`).
pub trait ColorManagementService {
    fn apply_to_rgb8(
        &self,
        rgb_data: &mut Vec<u8>,
        image_icc_profile: Option<&[u8]>,
        screen_id: Option<u32>,
    ) -> Result<(), ColorManagementError>;
}

/// Leaves pixels as they are, for platforms without display profiles.
pub struct NoopColorManagementService;

impl ColorManagementService for NoopColorManagementService {
    fn apply_to_rgb8(
        &self,
        rgb_data: &mut Vec<u8>,
        image_icc_profile: Option<&[u8]>,
        screen_id: Option<u32>,
    ) -> Result<(), ColorManagementError> {
        Ok(())
    }
}

/// The colour management service of this platform.
pub fn default_color_management_service() -> (r: NoopColorManagementService) {
    NoopColorManagementService
}

} // verus!
