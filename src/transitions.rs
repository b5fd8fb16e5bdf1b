use vstd::prelude::*;
use crate::color::Color;

verus! {

/// The color that the transition at index `i` of a line leads into: lines
/// start White, so even indices lead into Black.
pub open spec fn into_color(i: int) -> Color {
    if i % 2 == 0 {
        Color::Black
    } else {
        Color::White
    }
}

/// The first index `k >= i` of `edges` whose position is above `threshold` and
/// that leads into `color`; `edges.len()` where there is none, or `i` itself
/// where `i` already lies past the end.
pub open spec fn next_index(edges: Seq<u16>, i: int, threshold: int, color: Color) -> int
    decreases edges.len() - i,
{
    if i >= edges.len() {
        if i < 0 {
            0
        } else {
            i
        }
    } else if i >= 0 && edges[i] > threshold && into_color(i) == color {
        i
    } else {
        next_index(edges, i + 1, threshold, color)
    }
}

/// The bound below which `next_color` looks no further: `a0`, or `-1` at the
/// start of a row, so that a transition at column 0 may qualify.
pub open spec fn threshold(a0: u16, start_of_row: bool) -> int {
    if start_of_row {
        -1
    } else {
        a0 as int
    }
}

/// `next_color` on a cursor at `pos`: the position found and the new cursor.
pub open spec fn next_color_spec(
    edges: Seq<u16>,
    pos: int,
    a0: u16,
    color: Color,
    start_of_row: bool,
) -> (Option<u16>, int) {
    let k = next_index(edges, pos, threshold(a0, start_of_row), color);
    if k < edges.len() {
        (Some(edges[k]), k + 1)
    } else {
        (None, k)
    }
}

/// Rewinding a cursor at `i` over the positions above `a0`.
pub open spec fn seek_back_from(edges: Seq<u16>, i: int, a0: u16) -> int
    decreases i,
{
    if i > 0 && i <= edges.len() && edges[i - 1] > a0 {
        seek_back_from(edges, i - 1, a0)
    } else {
        i
    }
}

/// `seek_back` on a cursor at `pos`: the new cursor.
pub open spec fn seek_back_spec(edges: Seq<u16>, pos: int, a0: u16) -> int {
    seek_back_from(edges, if pos < edges.len() { pos } else { edges.len() as int }, a0)
}

pub proof fn lemma_next_index_bounds(edges: Seq<u16>, i: int, threshold: int, color: Color)
    requires
        0 <= i,
    ensures
        i <= next_index(edges, i, threshold, color),
        i <= edges.len() ==> next_index(edges, i, threshold, color) <= edges.len(),
    decreases edges.len() - i,
{
    if i < edges.len() {
        lemma_next_index_bounds(edges, i + 1, threshold, color);
    }
}

/// A cursor over the transitions of the reference line.
pub struct Transitions<'a> {
    pub edges: &'a [u16],
    pub pos: usize,
}

impl<'a> Transitions<'a> {
    pub open spec fn wf(&self) -> bool {
        self.pos <= self.edges@.len() + 1
    }

    pub fn new(edges: &'a [u16]) -> (r: Transitions<'a>)
        ensures
            r.edges@ == edges@,
            r.pos == 0,
            r.wf(),
    {
        Transitions { edges, pos: 0 }
    }

    /// Advances to the first transition above `a0` (above `-1` at the start
    /// of a row) that leads into `color`, returns it and moves past it.
    pub fn next_color(&mut self, a0: u16, color: Color, start_of_row: bool) -> (r: Option<u16>)
        requires
            old(self).wf(),
        ensures
            final(self).wf(),
            final(self).edges@ == old(self).edges@,
            (r, final(self).pos as int) == next_color_spec(
                old(self).edges@,
                old(self).pos as int,
                a0,
                color,
                start_of_row,
            ),
    {
        let ghost thr = threshold(a0, start_of_row);
        proof {
            lemma_next_index_bounds(self.edges@, self.pos as int, thr, color);
        }
        while self.pos < self.edges.len()
            invariant
                thr == threshold(a0, start_of_row),
                self.edges@ == old(self).edges@,
                old(self).pos <= self.pos,
                self.pos <= self.edges@.len() + 1,
                next_index(self.edges@, self.pos as int, thr, color) == next_index(
                    old(self).edges@,
                    old(self).pos as int,
                    thr,
                    color,
                ),
            decreases self.edges@.len() - self.pos,
        {
            let e = self.edges[self.pos];
            let above = if start_of_row {
                true
            } else {
                e > a0
            };
            let even = self.pos % 2 == 0;
            let into = if even {
                Color::Black
            } else {
                Color::White
            };
            if above && into == color {
                let r = Some(e);
                self.pos = self.pos + 1;
                return r;
            }
            self.pos = self.pos + 1;
        }
        None
    }

    /// Returns the transition at the cursor and moves past it.
    pub fn next(&mut self) -> (r: Option<u16>)
        requires
            old(self).wf(),
        ensures
            final(self).wf(),
            final(self).edges@ == old(self).edges@,
            old(self).pos < old(self).edges@.len() ==> r == Some(old(self).edges@[old(self).pos as int])
                && final(self).pos == old(self).pos + 1,
            old(self).pos >= old(self).edges@.len() ==> r.is_none() && final(self).pos == old(
                self,
            ).pos,
    {
        if self.pos < self.edges.len() {
            let v = self.edges[self.pos];
            self.pos = self.pos + 1;
            Some(v)
        } else {
            None
        }
    }

    /// Skips the transition at the cursor of a fresh row.
    pub fn skip_first(&mut self)
        requires
            old(self).pos == 0,
        ensures
            final(self).wf(),
            final(self).edges@ == old(self).edges@,
            final(self).pos == 1,
    {
        self.pos = 1;
    }

    /// Rewinds the cursor to just past the last transition at or before `a0`.
    pub fn seek_back(&mut self, a0: u16)
        requires
            old(self).wf(),
        ensures
            final(self).wf(),
            final(self).edges@ == old(self).edges@,
            final(self).pos == seek_back_spec(old(self).edges@, old(self).pos as int, a0),
    {
        if self.pos > self.edges.len() {
            self.pos = self.edges.len();
        }
        while self.pos > 0 && self.edges[self.pos - 1] > a0
            invariant
                self.edges@ == old(self).edges@,
                self.pos <= self.edges@.len(),
                seek_back_from(self.edges@, self.pos as int, a0) == seek_back_spec(
                    old(self).edges@,
                    old(self).pos as int,
                    a0,
                ),
            decreases self.pos,
        {
            self.pos = self.pos - 1;
        }
    }
}

} // verus!
