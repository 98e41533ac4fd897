//! Blit sprite sheets that were made in Aseprite.
//!
//! The sheet comes with metadata: the rectangle and the duration of each
//! frame, the tags that name ranges of frames, and the slices that tell how a
//! graphic is scaled.

use vstd::prelude::*;

use crate::error::Error;
use crate::geom::Rect;

pub mod animation;
pub mod slice9;

pub use animation::{AnimationBlitBuffer, AnimationStatus};
pub use slice9::Slice9BlitBuffer;

verus! {

/// One frame of a sprite sheet.
#[derive(Debug, Clone, PartialEq, Eq)]
pub struct Frame {
    /// Area in the sheet to which this frame belongs.
    pub frame: Rect,
    /// How long the frame is shown, in milliseconds.
    pub duration: u32,
}

/// A named range of frames.
#[derive(Debug, Clone, PartialEq, Eq)]
pub struct FrameTag {
    /// Name of the tag.
    pub name: String,
    /// First frame of the range.
    pub from: u32,
    /// Last frame of the range.
    pub to: u32,
}

/// The state of a slice from a frame on.
#[derive(Debug, Clone, PartialEq, Eq)]
pub struct SliceKey {
    /// The center piece of a 9-slice graphic, if the slice is one.
    pub center: Option<Rect>,
}

/// A named slice of the sheet.
#[derive(Debug, Clone, PartialEq, Eq)]
pub struct SheetSlice {
    /// Name of the slice.
    pub name: String,
    /// The states of the slice.
    pub keys: Vec<SliceKey>,
}

/// The metadata of a sprite sheet that drawing depends on.
#[derive(Debug, Clone, PartialEq, Eq)]
pub struct SpritesheetData {
    /// The frames in the order of the sheet.
    pub frames: Vec<Frame>,
    /// The tags, where the sheet was exported with any.
    pub frame_tags: Option<Vec<FrameTag>>,
    /// The slices of the sheet.
    pub slices: Vec<SheetSlice>,
}

impl SpritesheetData {
    /// The first and the last frame of a tag with the name, if `index` is
    /// the first tag with the name.
    pub open spec fn first_named(tags: Seq<FrameTag>, name: Seq<char>, index: int) -> bool {
        &&& 0 <= index < tags.len()
        &&& tags[index].name@ == name
        &&& forall|earlier: int| 0 <= earlier < index ==> tags[earlier].name@ != name
    }

    /// Find the range of frames that the first tag with the name stands for.
    ///
    /// Fails with [`Error::NoFrameTagsInMetadata`] where the sheet has no
    /// tags at all, and with [`Error::NoMatchingFrameTag`] where none of its
    /// tags has the name.
    pub fn frame_range(&self, tag: &String) -> (r: Result<(usize, usize), Error>)
        ensures
            match r {
                Ok(range) => self.frame_tags.is_some() && exists|index: int|
                    #[trigger] Self::first_named(self.frame_tags.unwrap()@, tag@, index) && range.0
                        == self.frame_tags.unwrap()@[index].from && range.1
                        == self.frame_tags.unwrap()@[index].to,
                Err(Error::NoFrameTagsInMetadata) => self.frame_tags.is_none(),
                Err(Error::NoMatchingFrameTag(name)) => name@ == tag@ && self.frame_tags.is_some()
                    && forall|index: int|
                    0 <= index < self.frame_tags.unwrap()@.len()
                        ==> self.frame_tags.unwrap()@[index].name@ != tag@,
                Err(_) => false,
            },
    {
        // Get the frame tags from the sheet or throw an error when there are none
        let frame_tags = match &self.frame_tags {
            Some(frame_tags) => frame_tags,
            None => {
                return Err(Error::NoFrameTagsInMetadata);
            },
        };
        // Find the frame matching the name
        let mut i: usize = 0;
        while i < frame_tags.len()
            invariant
                i <= frame_tags@.len(),
                self.frame_tags == Some(*frame_tags),
                forall|earlier: int| 0 <= earlier < i ==> frame_tags@[earlier].name@ != tag@,
            decreases frame_tags@.len() - i,
        {
            if frame_tags[i].name == *tag {
                proof {
                    assert(Self::first_named(self.frame_tags.unwrap()@, tag@, i as int));
                }
                return Ok((frame_tags[i].from as usize, frame_tags[i].to as usize));
            }
            i = i + 1;
        }
        Err(Error::NoMatchingFrameTag(tag.clone()))
    }

    /// How long the frame is shown, in milliseconds.
    ///
    /// Fails with [`Error::FrameOutOfBounds`] where the sheet has no such frame.
    pub fn frame_duration(&self, frame: usize) -> (r: Result<u32, Error>)
        ensures
            r == (if frame < self.frames@.len() {
                Ok::<u32, Error>(self.frames@[frame as int].duration)
            } else {
                Err::<u32, Error>(Error::FrameOutOfBounds(frame))
            }),
    {
        if frame < self.frames.len() {
            Ok(self.frames[frame].duration)
        } else {
            Err(Error::FrameOutOfBounds(frame))
        }
    }
}

} // verus!
