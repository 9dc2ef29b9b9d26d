//! A sprite that cycles through its frames as time passes and is drawn at
//! the bottom of the screen, in the middle.

use vstd::prelude::*;
use crate::canvas::{clamp_to, lemma_index_of_place, paint_region, painted, Layer, Region};
use crate::color::{alpha, alpha_of};
use crate::fixed::floor_div;
use crate::texture::{Bitmap, Texture};

verus! {

/// The colour of the pixel in `column` and `row` once `frame` is drawn over
/// the colour `under` on a screen of the given size: the frame stands on the
/// bottom edge, centred, and shows wherever it is not fully transparent.
pub open spec fn frame_pixel(
    frame: Bitmap,
    width: int,
    height: int,
    column: int,
    row: int,
    under: u32,
) -> u32 {
    let x = column - (width - frame.width) / 2;
    let y = row - (height - frame.height);
    if 0 <= column < width && 0 <= row < height && 0 <= x < frame.width && 0 <= y < frame.height
        && alpha_of(frame.texel(x, y)) > 0 {
        frame.texel(x, y)
    } else {
        under
    }
}

/// The number of the frame that follows frame `current` of `count`.
pub open spec fn next_frame(current: int, count: int) -> int {
    if count == 0 {
        0
    } else {
        (current + 1) % count
    }
}

/// One frame, placed on the screen.
struct FrameLayer<'a> {
    frame: &'a Texture,
    width: usize,
    height: usize,
}

impl<'a> Layer for FrameLayer<'a> {
    closed spec fn shade(&self, column: int, row: int, under: u32) -> u32 {
        frame_pixel(self.frame@, self.width as int, self.height as int, column, row, under)
    }

    fn paint(&self, column: usize, row: usize, under: u32) -> (color: u32) {
        if column >= self.width || row >= self.height {
            return under;
        }
        let fw: i128 = self.frame.width() as i128;
        let fh: i128 = self.frame.height() as i128;
        let left: i128 = floor_div(self.width as i128 - fw, 2);
        let x: i128 = column as i128 - left;
        let y: i128 = row as i128 - (self.height as i128 - fh);
        if x < 0 || x >= fw || y < 0 || y >= fh {
            return under;
        }
        let texel = self.frame.get_pixel(x as u32, y as u32);
        if alpha(texel) > 0 {
            texel
        } else {
            under
        }
    }
}

/// A sprite made of frames that follow one another. Each frame is shown for
/// `frame_duration` milliseconds; `last_update` is the time at which the
/// frame that is shown appeared.
pub struct AnimatedSprite {
    pub frames: Vec<Texture>,
    pub frame_duration: u64,
    pub current_frame: usize,
    pub last_update: u64,
}

impl AnimatedSprite {
    /// Whether the shown frame has had its time at the time `now`.
    pub open spec fn due(self, now: u64) -> bool {
        now - self.last_update >= self.frame_duration
    }

    /// The sprite at the time `now`: with the next frame shown if the
    /// current one has had its time, unchanged if not.
    pub open spec fn advanced(self, now: u64) -> AnimatedSprite {
        if self.due(now) {
            AnimatedSprite {
                current_frame: next_frame(
                    self.current_frame as int,
                    self.frames.len() as int,
                ) as usize,
                last_update: now,
                ..self
            }
        } else {
            self
        }
    }

    /// The colour of the pixel in `column` and `row` once the sprite is
    /// drawn over the colour `under` on a screen of the given size. A sprite
    /// without frames changes nothing.
    pub open spec fn pixel(
        self,
        width: int,
        height: int,
        column: int,
        row: int,
        under: u32,
    ) -> u32 {
        if self.frames.len() > 0 {
            frame_pixel(
                self.frames[self.current_frame as int % self.frames.len() as int]@,
                width,
                height,
                column,
                row,
                under,
            )
        } else {
            under
        }
    }

    /// A sprite that shows the first of `frames` from the time `now` on, and
    /// each frame for `frame_duration` milliseconds.
    pub fn new(frames: Vec<Texture>, frame_duration: u64, now: u64) -> (sprite: AnimatedSprite)
        ensures
            sprite == (AnimatedSprite {
                frames,
                frame_duration,
                current_frame: 0,
                last_update: now,
            }),
    {
        AnimatedSprite { frames, frame_duration, current_frame: 0, last_update: now }
    }

    /// Shows the next frame if the time `now` is at least the frame duration
    /// past the time at which the shown frame appeared; after the last frame
    /// comes the first.
    pub fn update(&mut self, now: u64)
        ensures
            *final(self) == old(self).advanced(now),
    {
        if now >= self.last_update && now - self.last_update >= self.frame_duration {
            let count = self.frames.len();
            let next: usize = if count == 0 {
                0
            } else {
                (self.current_frame % count + 1) % count
            };
            proof {
                if count > 0 {
                    vstd::arithmetic::div_mod::lemma_add_mod_noop_right(
                        1,
                        self.current_frame as int,
                        count as int,
                    );
                }
            }
            self.current_frame = next;
            self.last_update = now;
        }
    }

    /// Draws the shown frame into `buffer`, which holds a screen of the
    /// given size row after row.
    pub fn render(&self, buffer: &mut Vec<u32>, width: usize, height: usize)
        ensures
            final(buffer).len() == old(buffer).len(),
            forall|i: int|
                0 <= i < old(buffer).len() ==> #[trigger] final(buffer)[i] == (if width > 0 {
                    self.pixel(
                        width as int,
                        height as int,
                        i % (width as int),
                        i / (width as int),
                        old(buffer)[i],
                    )
                } else {
                    old(buffer)[i]
                }),
    {
        let count = self.frames.len();
        if count == 0 {
            return ;
        }
        let frame = &self.frames[self.current_frame % count];
        let layer = FrameLayer { frame, width, height };
        // The rectangle that the frame fills, cut to the screen.
        let left: i128 = floor_div(width as i128 - frame.width() as i128, 2);
        let top: i128 = height as i128 - frame.height() as i128;
        let screen = Region {
            left: clamp_to(left, width),
            top: clamp_to(top, height),
            right: clamp_to(left + frame.width() as i128, width),
            bottom: height,
        };
        paint_region(buffer, width, &layer, screen);
        assert forall|i: int| 0 <= i < old(buffer).len() && width > 0 implies #[trigger] buffer[i]
            == self.pixel(
            width as int,
            height as int,
            i % (width as int),
            i / (width as int),
            old(buffer)[i],
        ) by {
            lemma_index_of_place(i, width as int);
            assert(buffer[i] == painted(&layer, screen, width as int, i, old(buffer)[i]));
        }
    }
}

} // verus!
