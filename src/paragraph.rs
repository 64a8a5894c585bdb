use vstd::prelude::*;

verus! {

/// A scroll position: columns and lines from the top left.
#[derive(Debug, Clone, Copy, PartialEq, Eq, Structural)]
pub struct ScrollPos {
    pub x: u16,
    pub y: u16,
}

/// The scroll state of a text view: where it is scrolled to, how many lines
/// the text has after wrapping, and how high the view was when last drawn.
#[derive(Debug, Clone, Copy, PartialEq, Eq, Structural)]
pub struct ParagraphState {
    pub scroll: ScrollPos,
    pub lines: u16,
    pub height: u16,
}

/// `a - b`, or 0 where `b` is larger.
pub open spec fn sat_sub(a: int, b: int) -> int {
    if a >= b {
        a - b
    } else {
        0
    }
}

/// The furthest line the view may scroll to: the text's lines less the
/// view's height without its two border lines.
pub open spec fn max_scroll_y(lines: u16, height: u16) -> int {
    sat_sub(lines as int, sat_sub(height as int, 2))
}

impl Default for ParagraphState {
    fn default() -> (r: Self)
        ensures
            r.scroll == (ScrollPos { x: 0, y: 0 }),
            r.lines == 0,
            r.height == 0,
    {
        ParagraphState { scroll: ScrollPos { x: 0, y: 0 }, lines: 0, height: 0 }
    }
}

impl ParagraphState {
    /// The current scroll position.
    pub fn scroll(self) -> (r: ScrollPos)
        ensures
            r == self.scroll,
    {
        self.scroll
    }

    /// Moves to `scroll` as it is.
    pub fn set_scroll(&mut self, scroll: ScrollPos)
        ensures
            final(self).scroll == scroll,
            final(self).lines == old(self).lines,
            final(self).height == old(self).height,
    {
        self.scroll = scroll;
    }

    /// Scrolls to line `y`, but no further than the last screenful.
    pub fn set_scroll_vertical(&mut self, y: u16)
        ensures
            final(self).scroll.y == (if y <= max_scroll_y(old(self).lines, old(self).height) {
                y as int
            } else {
                max_scroll_y(old(self).lines, old(self).height)
            }),
            final(self).scroll.x == old(self).scroll.x,
            final(self).lines == old(self).lines,
            final(self).height == old(self).height,
    {
        let inner = self.height.saturating_sub(2);
        let limit = self.lines.saturating_sub(inner);
        let y = if y <= limit {
            y
        } else {
            limit
        };
        self.scroll.y = y;
    }
}

} // verus!
