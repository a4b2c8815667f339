//! The selected stretch of a document.

use std::ops::Range;
use vstd::prelude::*;
use crate::buffer::Buffer;
use crate::line::{cluster_begin, Line};
use crate::location::Location;
use crate::text::on_boundary;

verus! {

/// The stretch between two places, in either order.
#[derive(Copy, Clone, Debug, PartialEq, Eq, Structural)]
pub struct Selection {
    pub start: Location,
    pub end: Location,
}

/// The bytes of the line `line`, which is line `line_idx` of its document,
/// that lie in the selection `ordered`, whose ends are in order: from the
/// start of the selection, or of the line if the selection starts above, to
/// its end, or that of the line if it ends below. `None` if no byte of the
/// line is selected.
pub open spec fn selected_bytes(ordered: Selection, line: Seq<u8>, line_idx: int) -> Option<(int, int)> {
    let from = if line_idx == ordered.start.line_idx {
        cluster_begin(line, ordered.start.grapheme_idx as int)
    } else {
        0
    };
    let to = if line_idx == ordered.end.line_idx {
        cluster_begin(line, ordered.end.grapheme_idx as int)
    } else {
        line.len() as int
    };
    if ordered.start == ordered.end || line_idx < ordered.start.line_idx || line_idx
        > ordered.end.line_idx || from >= to {
        None
    } else {
        Some((from, to))
    }
}

/// The selected bytes of the first `n` of `lines`, each with the index of its
/// line.
pub open spec fn selected_ranges(ordered: Selection, lines: Seq<Seq<u8>>, n: int) -> Seq<
    (usize, Range<usize>),
>
    decreases n,
{
    if n <= 0 || n > lines.len() {
        Seq::empty()
    } else {
        let rest = selected_ranges(ordered, lines, n - 1);
        match selected_bytes(ordered, lines[n - 1], n - 1) {
            Some((from, to)) => rest.push(
                ((n - 1) as usize, Range { start: from as usize, end: to as usize }),
            ),
            None => rest,
        }
    }
}

impl Selection {
    /// The selection with its ends in order.
    pub open spec fn ordered(self) -> Selection {
        if self.start.at_or_before(self.end) {
            self
        } else {
            Selection { start: self.end, end: self.start }
        }
    }

    /// The place `loc` lies in the selection: at or behind its start and
    /// before its end.
    pub open spec fn contains(self, loc: Location) -> bool {
        let n = self.ordered();
        if loc.line_idx < n.start.line_idx || loc.line_idx > n.end.line_idx {
            false
        } else if loc.line_idx == n.start.line_idx {
            loc.grapheme_idx >= n.start.grapheme_idx
        } else if loc.line_idx == n.end.line_idx {
            loc.grapheme_idx < n.end.grapheme_idx
        } else {
            true
        }
    }

    /// The selection from `start` to `end`.
    pub fn new(start: Location, end: Location) -> (r: Self)
        ensures
            r == (Selection { start, end }),
    {
        Self { start, end }
    }

    /// Whether both ends are the same place.
    pub fn is_empty(&self) -> (r: bool)
        ensures
            r == (self.start == self.end),
    {
        self.start.line_idx == self.end.line_idx && self.start.grapheme_idx == self.end.grapheme_idx
    }

    /// The selection with its ends in order.
    pub fn normalize(&self) -> (r: Self)
        ensures
            r == self.ordered(),
            r.start.at_or_before(r.end),
    {
        if self.start.line_idx < self.end.line_idx || (self.start.line_idx == self.end.line_idx
            && self.start.grapheme_idx <= self.end.grapheme_idx) {
            *self
        } else {
            Self { start: self.end, end: self.start }
        }
    }

    /// Whether the place `loc` lies in the selection. On the first line of
    /// the selection everything from its start on counts, on its last line
    /// everything before its end.
    pub fn contains_location(&self, loc: Location) -> (r: bool)
        ensures
            r == self.contains(loc),
    {
        let normalized = self.normalize();
        if loc.line_idx < normalized.start.line_idx || loc.line_idx > normalized.end.line_idx {
            return false;
        }
        if loc.line_idx == normalized.start.line_idx {
            loc.grapheme_idx >= normalized.start.grapheme_idx
        } else if loc.line_idx == normalized.end.line_idx {
            loc.grapheme_idx < normalized.end.grapheme_idx
        } else {
            true
        }
    }

    /// The selected bytes of `line`, which is line `line_idx` of its
    /// document.
    pub fn byte_range_for_line(&self, line: &Line, line_idx: usize) -> (r: Option<Range<usize>>)
        requires
            line.wf(),
        ensures
            match selected_bytes(self.ordered(), line@, line_idx as int) {
                Some((from, to)) => r == Some(Range { start: from as usize, end: to as usize }),
                None => r is None,
            },
            r is Some ==> r->0.start < r->0.end <= line@.len() && on_boundary(line@, r->0.start as int)
                && on_boundary(line@, r->0.end as int) && selected_bytes(
                self.ordered(),
                line@,
                line_idx as int,
            ) == Some((r->0.start as int, r->0.end as int)),
    {
        let n = self.normalize();
        if n.is_empty() {
            return None;
        }
        if line_idx < n.start.line_idx || line_idx > n.end.line_idx {
            return None;
        }
        let start_byte = if line_idx == n.start.line_idx {
            line.grapheme_to_byte_idx(n.start.grapheme_idx)
        } else {
            0
        };
        let end_byte = if line_idx == n.end.line_idx {
            line.grapheme_to_byte_idx(n.end.grapheme_idx)
        } else {
            line.line_length()
        };
        if start_byte < end_byte {
            Some(start_byte..end_byte)
        } else {
            None
        }
    }

    /// The selected bytes of each line of `buffer` that has any, with the
    /// index of the line, from the top.
    pub fn get_ranges(&self, buffer: &Buffer) -> (r: Vec<(usize, Range<usize>)>)
        requires
            buffer.wf(),
        ensures
            r@ == selected_ranges(self.ordered(), buffer@, buffer@.len() as int),
    {
        let mut ranges: Vec<(usize, Range<usize>)> = Vec::new();
        let mut line_idx: usize = 0;
        while line_idx < buffer.lines.len()
            invariant
                buffer.wf(),
                line_idx <= buffer.lines.len(),
                ranges@ == selected_ranges(self.ordered(), buffer@, line_idx as int),
            decreases buffer.lines.len() - line_idx,
        {
            match self.byte_range_for_line(&buffer.lines[line_idx], line_idx) {
                Some(range) => {
                    ranges.push((line_idx, range));
                },
                None => {},
            }
            line_idx += 1;
        }
        ranges
    }
}

impl Default for Selection {
    fn default() -> (r: Self)
        ensures
            r == (Selection { start: Location::origin(), end: Location::origin() }),
    {
        Selection { start: Location::default(), end: Location::default() }
    }
}

} // verus!
