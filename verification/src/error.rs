//! The errors of this library.

use vstd::prelude::*;

verus! {

/// Any error this library can throw.
#[derive(Debug, Clone, PartialEq, Eq)]
pub enum Error {
    /// No frame tags found in the metadata of the sprite sheet.
    NoFrameTagsInMetadata,
    /// No slices found in the metadata of the sprite sheet.
    NoSlicesInMetadata,
    /// No slice key found in the slice with the name.
    NoSliceKeyInSlice(String),
    /// No center found in the first key of the slice with the name.
    NoSliceCenterInSliceKey(String),
    /// No tag found which is equal to the tag asked for.
    NoMatchingFrameTag(String),
    /// The animation frame is out of bounds.
    FrameOutOfBounds(usize),
    /// The bytes do not have the layout of a stored buffer.
    CorruptBuffer,
}

} // verus!
