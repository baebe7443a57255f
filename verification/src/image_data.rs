//! Per-photo export metadata: the chosen aspect class plus user-editable
//! fields. No pixel data is held here; images are re-read from their path.

use vstd::prelude::*;
use crate::image_size::{ImageSize, sizes_of};

verus! {

/// Metadata for one pending crop: user-supplied identifier, filename stem,
/// display name and attribution, the chosen aspect class, and the inclusion
/// flag.
#[derive(Debug, Clone)]
pub struct ImageData {
    pub id: Option<String>,
    pub filename: Option<String>,
    pub name: Option<String>,
    pub artist: Option<String>,
    pub image_size: ImageSize,
    pub selected: bool,
}

impl ImageData {
    /// Fresh metadata for a photo assigned to `image_size`: no user fields
    /// yet, and selected for export by default.
    pub fn new(image_size: ImageSize) -> (r: ImageData)
        ensures
            r.id == Option::<String>::None,
            r.filename == Option::<String>::None,
            r.name == Option::<String>::None,
            r.artist == Option::<String>::None,
            r.image_size == image_size,
            r.selected == true,
    {
        ImageData {
            id: None,
            filename: None,
            name: None,
            artist: None,
            image_size,
            selected: true,
        }
    }

    /// The concrete size multiples of this entry's aspect class.
    pub fn get_sizes(&self) -> (r: Vec<(u32, u32)>)
        ensures
            r@ == sizes_of(self.image_size),
            r@.len() >= 1,
    {
        self.image_size.get_size()
    }
}

} // verus!
