//! Where things are on the screen: the areas in which the servers are
//! shown, and how far each list has been scrolled.

use crate::policy::SERVER_COUNT;
use vstd::prelude::*;

verus! {

/// A rectangle of screen cells, given by its top left corner and its
/// extent.
#[derive(Debug, Clone, Copy, PartialEq, Eq, Structural)]
pub struct AtomicRect {
    pub x: u16,
    pub y: u16,
    pub width: u16,
    pub height: u16,
}

impl AtomicRect {
    /// Whether the cell in column `x` and row `y` lies in the rectangle.
    pub open spec fn spec_contains(&self, x: u16, y: u16) -> bool {
        &&& self.x <= x < self.x + self.width
        &&& self.y <= y < self.y + self.height
    }

    /// The empty rectangle at the origin.
    pub fn new() -> (rect: Self)
        ensures
            rect == (AtomicRect { x: 0, y: 0, width: 0, height: 0 }),
            forall|x: u16, y: u16| !rect.spec_contains(x, y),
    {
        Self { x: 0, y: 0, width: 0, height: 0 }
    }

    /// Moves the rectangle to the given place and extent.
    pub fn update_from(&mut self, x: u16, y: u16, width: u16, height: u16)
        ensures
            *final(self) == (AtomicRect { x, y, width, height }),
    {
        self.x = x;
        self.y = y;
        self.width = width;
        self.height = height;
    }

    #[verifier::when_used_as_spec(spec_contains)]
    pub fn contains(&self, x: u16, y: u16) -> (inside: bool)
        ensures
            inside == self.spec_contains(x, y),
    {
        x >= self.x && (x as u32) < self.x as u32 + self.width as u32 && y >= self.y && (y as u32)
            < self.y as u32 + self.height as u32
    }
}

/// The first of the first `count` areas that holds the cell, if any.
pub open spec fn first_hit(areas: Seq<AtomicRect>, count: int, column: u16, row: u16) -> Option<
    usize,
>
    decreases count,
{
    if count <= 0 {
        None
    } else {
        match first_hit(areas, count - 1, column, row) {
            Some(index) => Some(index),
            None => if areas[count - 1].spec_contains(column, row) {
                Some((count - 1) as usize)
            } else {
                None
            },
        }
    }
}

/// One step of scrolling: up adds one, down takes one away, and the
/// position stays within the range of the type.
pub open spec fn scrolled(position: usize, up: bool) -> usize {
    if up {
        if position < usize::MAX {
            (position + 1) as usize
        } else {
            position
        }
    } else {
        if position > 0 {
            (position - 1) as usize
        } else {
            position
        }
    }
}

/// The first request shown of a queue of `queue_len` requests, when the
/// list was scrolled to `scroll` and `visible` requests fit: the scroll
/// position, but no further than where the last request is still in view.
pub open spec fn spec_first_visible(scroll: usize, queue_len: usize, visible: usize) -> usize {
    let furthest = if queue_len >= visible {
        (queue_len - visible) as usize
    } else {
        0
    };
    if scroll <= furthest {
        scroll
    } else {
        furthest
    }
}

/// Which request of a queue is shown first; see [`spec_first_visible`].
#[verifier::when_used_as_spec(spec_first_visible)]
pub fn first_visible(scroll: usize, queue_len: usize, visible: usize) -> (first: usize)
    ensures
        first == spec_first_visible(scroll, queue_len, visible),
        first <= queue_len,
{
    let furthest = queue_len.saturating_sub(visible);
    if scroll <= furthest {
        scroll
    } else {
        furthest
    }
}

/// The scroll positions of the lists on the screen, and the screen areas
/// of the servers.
#[derive(Debug, Clone, Copy, PartialEq, Eq)]
pub struct ScrollState {
    pub selected_log: usize,
    pub server_areas: [AtomicRect; 3],
    pub server_scroll: [usize; 3],
}

impl ScrollState {
    /// Nothing scrolled, no server on the screen yet.
    pub fn new() -> (state: Self)
        ensures
            state.selected_log == 0,
            forall|i: int|
                0 <= i < SERVER_COUNT ==> #[trigger] state.server_areas@[i] == (AtomicRect {
                    x: 0,
                    y: 0,
                    width: 0,
                    height: 0,
                }) && state.server_scroll@[i] == 0,
    {
        Self {
            selected_log: 0,
            server_areas: [AtomicRect::new(), AtomicRect::new(), AtomicRect::new()],
            server_scroll: [0, 0, 0],
        }
    }

    /// The server whose area holds the given cell; the first one, should
    /// areas overlap.
    pub fn hit_server(&self, column: u16, row: u16) -> (hit: Option<usize>)
        ensures
            hit == first_hit(self.server_areas@, 3, column, row),
            hit matches Some(index) ==> index < SERVER_COUNT && self.server_areas@[index as int].spec_contains(
                column,
                row,
            ),
    {
        let mut index: usize = 0;
        while index < 3
            invariant
                index <= 3,
                first_hit(self.server_areas@, index as int, column, row) is None,
            decreases 3 - index,
        {
            if self.server_areas[index].contains(column, row) {
                proof {
                    reveal_with_fuel(first_hit, 4);
                }
                return Some(index);
            }
            index += 1;
        }
        None
    }

    /// Scrolls by one step at the given cell: the list of the server under
    /// the cell, or the event log if no server is there.
    pub fn scroll(&mut self, column: u16, row: u16, up: bool)
        ensures
            final(self).server_areas == old(self).server_areas,
            match first_hit(old(self).server_areas@, 3, column, row) {
                Some(index) => {
                    &&& final(self).selected_log == old(self).selected_log
                    &&& final(self).server_scroll@ == old(self).server_scroll@.update(
                        index as int,
                        scrolled(old(self).server_scroll@[index as int], up),
                    )
                },
                None => {
                    &&& final(self).selected_log == scrolled(old(self).selected_log, up)
                    &&& final(self).server_scroll == old(self).server_scroll
                },
            },
    {
        match self.hit_server(column, row) {
            Some(index) => {
                let current = self.server_scroll[index];
                let next = if up {
                    current.saturating_add(1)
                } else {
                    current.saturating_sub(1)
                };
                self.server_scroll[index] = next;
                assert(self.server_scroll@ =~= old(self).server_scroll@.update(index as int, next));
            },
            None => {
                let current = self.selected_log;
                self.selected_log = if up {
                    current.saturating_add(1)
                } else {
                    current.saturating_sub(1)
                };
            },
        }
    }

    /// Keeps the selected log line within a log of `log_len` lines.
    pub fn clamp_selected_log(&mut self, log_len: usize)
        ensures
            final(self).server_areas == old(self).server_areas,
            final(self).server_scroll == old(self).server_scroll,
            final(self).selected_log == spec_first_visible(old(self).selected_log, log_len, 1),
    {
        self.selected_log = first_visible(self.selected_log, log_len, 1);
    }
}

} // verus!
