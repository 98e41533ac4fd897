//! Sprite sheets whose frames are shown one after the other.

use vstd::prelude::*;

use crate::aseprite::SpritesheetData;
use crate::buffer::{blit_drawn, Blit, BlitBuffer};
use crate::error::Error;
use crate::geom::{Rect, Size};
use crate::options::BlitOptions;
use crate::view::smaller;

verus! {

/// The animation status as returned when an animation is moved on in time.
#[derive(Debug, Copy, Clone, Eq, PartialEq, Structural)]
pub enum AnimationStatus {
    /// Animation is playing and will start at the beginning when ending.
    Repeat,
    /// Animation is playing and will stop at the end.
    Playing,
    /// Animation isn't playing.
    Stopped,
}

/// The frame that is shown when the frame counted to is `frame_current`: a
/// frame behind the last one of the range is taken back by the length of the
/// range until it is one of the range.
pub open spec fn wrapped_frame(frame_start: int, frame_end: int, frame_current: int) -> int
    decreases frame_current,
{
    if frame_current <= frame_end || frame_end <= frame_start || frame_start < 0 {
        frame_current
    } else {
        wrapped_frame(frame_start, frame_end, frame_current - (frame_end - frame_start))
    }
}

/// Bring an animation that ran past its last frame back into its range, and
/// tell its status.
///
/// An animation that has not passed its last frame stays where it is and is
/// playing. One that has passed it starts over when it repeats: its frame is
/// taken back by the length of the range until it is one of the range. One
/// that does not repeat is taken back once and has stopped.
pub fn wrap_frame(frame_start: usize, frame_end: usize, frame_current: usize, repeat: bool) -> (r:
    (usize, AnimationStatus))
    requires
        frame_start <= frame_end,
        repeat && frame_current > frame_end ==> frame_start < frame_end,
    ensures
        r.1 == (if repeat {
            AnimationStatus::Repeat
        } else if frame_current > frame_end {
            AnimationStatus::Stopped
        } else {
            AnimationStatus::Playing
        }),
        r.0 == (if frame_current <= frame_end {
            frame_current as int
        } else if repeat {
            wrapped_frame(frame_start as int, frame_end as int, frame_current as int)
        } else {
            frame_current - (frame_end - frame_start)
        }),
        repeat ==> r.0 <= frame_end,
{
    let mut frame: usize = frame_current;
    // If the frame is passed the endpoint, either loop around or return as stopped
    // depending if `repeat` is true
    while frame > frame_end
        invariant
            frame_start <= frame_end,
            repeat && frame > frame_end ==> frame_start < frame_end,
            !repeat ==> frame == frame_current,
            frame_current > frame_end && repeat ==> wrapped_frame(
                frame_start as int,
                frame_end as int,
                frame as int,
            ) == wrapped_frame(frame_start as int, frame_end as int, frame_current as int),
            frame_current <= frame_end ==> frame == frame_current,
        decreases frame,
    {
        if !repeat {
            return (frame - (frame_end - frame_start), AnimationStatus::Stopped);
        }
        frame = frame - (frame_end - frame_start);
    }

    if repeat {
        return (frame, AnimationStatus::Repeat);
    }
    (frame, AnimationStatus::Playing)
}

/// `BlitBuffer` with extra information and functions to animate a sheet.
#[derive(Debug)]
pub struct AnimationBlitBuffer {
    buffer: BlitBuffer,
    info: SpritesheetData,
    /// Current frame to render.
    frame: usize,
}

impl AnimationBlitBuffer {
    /// The sheet with all its frames.
    pub closed spec fn sheet(self) -> BlitBuffer {
        self.buffer
    }

    /// The metadata of the sheet.
    pub closed spec fn metadata(self) -> SpritesheetData {
        self.info
    }

    /// The frame that is drawn.
    pub closed spec fn current_frame(self) -> usize {
        self.frame
    }

    /// The options with which the sheet is drawn to show one frame: the
    /// rectangle of the frame is the part of the sheet that is drawn.
    pub open spec fn frame_options(options: BlitOptions, frame: Rect) -> BlitOptions {
        BlitOptions { sub_rect: Some(frame), area: Some(options.area_for(frame.size)), ..options }
    }

    /// Construct a new buffer for animating a spritesheet. It starts at the
    /// first frame.
    pub fn new(buffer: BlitBuffer, info: SpritesheetData) -> (r: Self)
        ensures
            r.sheet() == buffer,
            r.metadata() == info,
            r.current_frame() == 0,
    {
        AnimationBlitBuffer { buffer, info, frame: 0 }
    }

    /// The metadata of the sheet.
    pub fn info(&self) -> (r: &SpritesheetData)
        ensures
            *r == self.metadata(),
    {
        &self.info
    }

    /// The frame that is drawn.
    pub fn frame(&self) -> (r: usize)
        ensures
            r == self.current_frame(),
    {
        self.frame
    }

    /// Update to a specific frame to render.
    pub fn set_frame(&mut self, frame: usize)
        ensures
            final(self).sheet() == old(self).sheet(),
            final(self).metadata() == old(self).metadata(),
            final(self).current_frame() == frame,
    {
        self.frame = frame;
    }

    /// Draw one frame from the animation.
    ///
    /// Fails with [`Error::FrameOutOfBounds`] where the sheet has no such
    /// frame, and draws nothing then.
    pub fn blit_frame(
        &self,
        dst: &mut [u32],
        dst_size: Size,
        options: &BlitOptions,
        frame: usize,
    ) -> (r: Result<(), Error>)
        requires
            self.sheet().wf(),
            old(dst)@.len() == dst_size.area(),
        ensures
            r == (if frame < self.metadata().frames@.len() {
                Ok::<(), Error>(())
            } else {
                Err::<(), Error>(Error::FrameOutOfBounds(frame))
            }),
            final(dst)@ == (if frame < self.metadata().frames@.len() {
                blit_drawn(
                    old(dst)@,
                    dst_size,
                    self.sheet()@,
                    self.sheet().dimensions(),
                    Self::frame_options(*options, self.metadata().frames@[frame as int].frame),
                )
            } else {
                old(dst)@
            }),
    {
        if frame >= self.info.frames.len() {
            return Err(Error::FrameOutOfBounds(frame));
        }
        // Area in the source to which this frame belongs

        let frame_subrect = self.info.frames[frame].frame;
        let frame_options = options.with_sub_rect(frame_subrect);
        self.buffer.blit(dst, dst_size, &frame_options);

        Ok(())
    }
}

impl Blit for AnimationBlitBuffer {
    open spec fn ready(&self) -> bool {
        self.sheet().wf()
    }

    /// The current frame is drawn. Nothing is drawn where the sheet has no
    /// such frame.
    open spec fn drawn(&self, dst: Seq<u32>, dst_size: Size, options: BlitOptions) -> Seq<u32> {
        if self.current_frame() < self.metadata().frames@.len() {
            blit_drawn(
                dst,
                dst_size,
                self.sheet()@,
                self.sheet().dimensions(),
                Self::frame_options(
                    options,
                    self.metadata().frames@[self.current_frame() as int].frame,
                ),
            )
        } else {
            dst
        }
    }

    fn blit(&self, dst: &mut [u32], dst_size: Size, options: &BlitOptions) {
        let _ = self.blit_frame(dst, dst_size, options, self.frame);
    }
}

/// Take the sub rectangle from a rectangle.
///
/// Both are `(x, y, width, height)`, the sub rectangle with a position
/// inside the rectangle. What comes back is the part of the sub rectangle
/// that lies in the rectangle, at its place in the whole. Where the two do
/// not meet the width or the height is not above zero.
pub fn subrect_from_rect(rect: (i32, i32, i32, i32), subrect: (i32, i32, i32, i32)) -> (r: (
    i32,
    i32,
    i32,
    i32,
))
    requires
        rect.0 >= 0,
        rect.1 >= 0,
        rect.2 >= 0,
        rect.3 >= 0,
        subrect.0 >= 0,
        subrect.1 >= 0,
        subrect.2 >= 0,
        subrect.3 >= 0,
        rect.0 + rect.2 <= i32::MAX,
        rect.1 + rect.3 <= i32::MAX,
        rect.0 + subrect.0 + subrect.2 <= i32::MAX,
        rect.1 + subrect.1 + subrect.3 <= i32::MAX,
    ensures
        r.0 == rect.0 + subrect.0,
        r.1 == rect.1 + subrect.1,
        r.0 + r.2 == smaller(rect.0 + rect.2, rect.0 + subrect.0 + subrect.2),
        r.1 + r.3 == smaller(rect.1 + rect.3, rect.1 + subrect.1 + subrect.3),
{
    let (rect_x, rect_y, rect_width, rect_height) = rect;
    let (subrect_x, subrect_y, subrect_width, subrect_height) = subrect;

    let rect_edge_x: i32 = rect_x + rect_width;
    let rect_edge_y: i32 = rect_y + rect_height;

    let subrect_x: i32 = rect_x + subrect_x;
    let subrect_y: i32 = rect_y + subrect_y;
    let subrect_edge_x: i32 = subrect_x + subrect_width;
    let subrect_edge_y: i32 = subrect_y + subrect_height;

    let x: i32 = if rect_x >= subrect_x {
        rect_x
    } else {
        subrect_x
    };
    let y: i32 = if rect_y >= subrect_y {
        rect_y
    } else {
        subrect_y
    };
    let edge_x: i32 = if rect_edge_x <= subrect_edge_x {
        rect_edge_x
    } else {
        subrect_edge_x
    };
    let edge_y: i32 = if rect_edge_y <= subrect_edge_y {
        rect_edge_y
    } else {
        subrect_edge_y
    };

    (x, y, edge_x - x, edge_y - y)
}

} // verus!
