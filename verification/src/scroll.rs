//! Scroll offsets for the scrollable panes (client list, command-line view).
//! Offsets are clamped to `[0, max(0, content_size - viewport_size)]`, so
//! scrolling is a no-op whenever the content fits inside the viewport.

use vstd::prelude::*;

verus! {

/// Largest admissible offset for a content size against a viewport size.
pub open spec fn spec_max_offset(content: u16, viewport: u16) -> u16 {
    if content >= viewport {
        (content - viewport) as u16
    } else {
        0
    }
}

/// `max(0, content - viewport)`: the upper bound of the admissible offset
/// range for one scroll direction.
pub fn max_offset(content: u16, viewport: u16) -> (r: u16)
    ensures
        r == spec_max_offset(content, viewport),
{
    if content >= viewport {
        content - viewport
    } else {
        0
    }
}

/// Horizontal and vertical offset of one scrollable pane.
pub struct ScrollState {
    pub x: u16,
    pub y: u16,
}

impl ScrollState {
    pub fn new() -> (r: ScrollState)
        ensures
            r.x == 0,
            r.y == 0,
    {
        ScrollState { x: 0, y: 0 }
    }

    /// One step right, clamped to the admissible range; a no-op whenever the
    /// content fits (`max_x == 0`) and the offset was already in range.
    pub fn scroll_right(&mut self, max_x: u16)
        ensures
            final(self).y == old(self).y,
            final(self).x == if old(self).x + 1 <= max_x {
                (old(self).x + 1) as u16
            } else {
                max_x
            },
            final(self).x <= max_x,
            max_x == 0 && old(self).x == 0 ==> *final(self) == *old(self),
    {
        if self.x < max_x {
            self.x = self.x + 1;
        } else {
            self.x = max_x;
        }
    }

    /// One step left; the result is clamped to the admissible range, so on a
    /// fitting content the offset stays zero.
    pub fn scroll_left(&mut self, max_x: u16)
        ensures
            final(self).y == old(self).y,
            final(self).x == if old(self).x >= 1 && old(self).x - 1 <= max_x {
                (old(self).x - 1) as u16
            } else if old(self).x >= 1 {
                max_x
            } else {
                0u16
            },
            final(self).x <= max_x,
            max_x == 0 && old(self).x == 0 ==> *final(self) == *old(self),
    {
        if self.x >= 1 {
            let stepped = self.x - 1;
            if stepped <= max_x {
                self.x = stepped;
            } else {
                self.x = max_x;
            }
        } else {
            self.x = 0;
        }
    }

    /// One step down, clamped to the admissible range.
    pub fn scroll_down(&mut self, max_y: u16)
        ensures
            final(self).x == old(self).x,
            final(self).y == if old(self).y + 1 <= max_y {
                (old(self).y + 1) as u16
            } else {
                max_y
            },
            final(self).y <= max_y,
            max_y == 0 && old(self).y == 0 ==> *final(self) == *old(self),
    {
        if self.y < max_y {
            self.y = self.y + 1;
        } else {
            self.y = max_y;
        }
    }

    /// One step up; the result is clamped to the admissible range.
    pub fn scroll_up(&mut self, max_y: u16)
        ensures
            final(self).x == old(self).x,
            final(self).y == if old(self).y >= 1 && old(self).y - 1 <= max_y {
                (old(self).y - 1) as u16
            } else if old(self).y >= 1 {
                max_y
            } else {
                0u16
            },
            final(self).y <= max_y,
            max_y == 0 && old(self).y == 0 ==> *final(self) == *old(self),
    {
        if self.y >= 1 {
            let stepped = self.y - 1;
            if stepped <= max_y {
                self.y = stepped;
            } else {
                self.y = max_y;
            }
        } else {
            self.y = 0;
        }
    }

    /// Re-clamps both offsets after the content size changed (it is
    /// recomputed every draw, as the client set and command strings change
    /// tick to tick).
    pub fn clamp(&mut self, max_x: u16, max_y: u16)
        ensures
            final(self).x == if old(self).x <= max_x {
                old(self).x
            } else {
                max_x
            },
            final(self).y == if old(self).y <= max_y {
                old(self).y
            } else {
                max_y
            },
            final(self).x <= max_x,
            final(self).y <= max_y,
    {
        if self.x > max_x {
            self.x = max_x;
        }
        if self.y > max_y {
            self.y = max_y;
        }
    }
}

} // verus!
