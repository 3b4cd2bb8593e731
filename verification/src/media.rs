//! Media attachments that can accompany a question: currently images hosted
//! on the corkboard store, referenced by identifier.

use vstd::prelude::*;
use vstd::string::StrSliceExecFns;

verus! {

/// The exact length of a corkboard image identifier, in characters.
pub const IMAGE_ID_LENGTH: usize = 32;

/// The longest accepted alt text, in characters.
pub const MAX_ALT_LENGTH: usize = 200;

/// An image reference.
#[derive(Debug, PartialEq, Eq)]
pub enum Image {
    Corkboard { id: String, alt: String },
}

/// Any kind of media; currently only images.
#[derive(Debug, PartialEq, Eq)]
pub enum Media {
    Image(Image),
}

impl Image {
    /// The stated length bounds hold.
    pub open spec fn spec_valid(self) -> bool {
        match self {
            Image::Corkboard { id, alt } => id@.len() == IMAGE_ID_LENGTH && alt@.len()
                <= MAX_ALT_LENGTH,
        }
    }

    /// Whether the image reference meets its length bounds.
    pub fn validate(&self) -> (r: bool)
        ensures
            r == self.spec_valid(),
    {
        match self {
            Image::Corkboard { id, alt } => id.as_str().unicode_len() == IMAGE_ID_LENGTH
                && alt.as_str().unicode_len() <= MAX_ALT_LENGTH,
        }
    }

    /// An equal copy.
    pub fn clone_value(&self) -> (r: Image)
        ensures
            r == *self,
    {
        match self {
            Image::Corkboard { id, alt } => Image::Corkboard {
                id: id.clone(),
                alt: alt.clone(),
            },
        }
    }
}

impl Media {
    /// The stated length bounds hold.
    pub open spec fn spec_valid(self) -> bool {
        match self {
            Media::Image(image) => image.spec_valid(),
        }
    }

    /// Whether the media reference meets its length bounds.
    pub fn validate(&self) -> (r: bool)
        ensures
            r == self.spec_valid(),
    {
        match self {
            Media::Image(image) => image.validate(),
        }
    }

    /// An equal copy.
    pub fn clone_value(&self) -> (r: Media)
        ensures
            r == *self,
    {
        match self {
            Media::Image(image) => Media::Image(image.clone_value()),
        }
    }
}

/// An equal copy of an optional media attachment.
pub fn clone_media_option(m: &Option<Media>) -> (r: Option<Media>)
    ensures
        r == *m,
{
    match m {
        Some(media) => Some(media.clone_value()),
        None => None,
    }
}

} // verus!
