//! Entities: an axis-aligned rectangle around a center coordinate, with a
//! downward speed, an appearance color and an alive flag. The overlap test
//! derives each edge from the center by subtracting half the extent
//! (truncating division, so odd extents bias toward the lower edge) and
//! saturates all edge arithmetic at the coordinate bounds.

use vstd::prelude::*;
use vstd::arithmetic::div_mod::lemma_fundamental_div_mod;
use vstd::arithmetic::div_mod::lemma_fundamental_div_mod_converse_div;
use vstd::arithmetic::div_mod::lemma_fundamental_div_mod_converse_mod;
use crate::color::Color;
use crate::geometry::Coordinate;
use crate::geometry::COORD_EDGE;
use crate::geometry::SCREEN_SIZE;

verus! {

/// A rectangular entity of the simulation: player, hazard or pickup.
#[derive(Copy, Clone, Debug, PartialEq, Eq, Structural)]
pub struct Shape {
    /// Center of the rectangle.
    pub position: Coordinate,
    /// Appearance only: never read by collision logic.
    pub color: Color,
    /// Horizontal extent; always positive.
    pub width: u8,
    /// Vertical extent; always positive.
    pub height: u8,
    /// Downward drift per tick.
    pub speed: u8,
    /// Cleared when the entity is destroyed; sweeps remove cleared entities.
    pub is_alive: bool,
}

impl Shape {
    /// The rectangle invariant: both extents are positive.
    pub open spec fn wf(self) -> bool {
        self.width > 0 && self.height > 0
    }

    /// Leftmost column covered: center minus half the width, floored at zero.
    pub open spec fn left_edge(self) -> u8 {
        self.position.x.saturating_sub(self.width / 2)
    }

    /// Topmost row covered: center minus half the height, floored at zero.
    pub open spec fn top_edge(self) -> u8 {
        self.position.y.saturating_sub(self.height / 2)
    }

    /// One past the rightmost column: left edge plus width, saturating.
    pub open spec fn right_edge(self) -> u8 {
        self.left_edge().saturating_add(self.width)
    }

    /// One past the bottommost row: top edge plus height, saturating.
    pub open spec fn bottom_edge(self) -> u8 {
        self.top_edge().saturating_add(self.height)
    }

    /// Whether the rectangles of `a` and `b` intersect with non-zero area.
    /// The comparisons are strict, so exactly touching edges do not overlap.
    pub open spec fn overlaps(a: Shape, b: Shape) -> bool {
        &&& a.left_edge() < b.right_edge()
        &&& a.right_edge() > b.left_edge()
        &&& a.top_edge() < b.bottom_edge()
        &&& a.bottom_edge() > b.top_edge()
    }

    /// Whether the cell in column `cx`, row `cy` of the coordinate grid lies
    /// inside this rectangle. Unlike the edge arithmetic of the overlap
    /// test, drawing computes each cell exactly and simply skips cells off
    /// the grid, so the rectangle is cut off, not shifted, at the bounds.
    pub open spec fn covers(self, cx: int, cy: int) -> bool {
        &&& self.position.x - self.width / 2 <= cx < self.position.x - self.width / 2 + self.width
        &&& self.position.y - self.height / 2 <= cy < self.position.y - self.height / 2
            + self.height
        &&& 0 <= cx < COORD_EDGE
        &&& 0 <= cy < COORD_EDGE
    }

    /// A row-major pixel buffer after this rectangle is drawn over it: every
    /// covered cell takes this entity's color, every other cell keeps its
    /// previous color.
    pub open spec fn draw_spec(self, p: Seq<Color>) -> Seq<Color> {
        Seq::new(
            p.len(),
            |i: int|
                if self.covers(i % (SCREEN_SIZE as int), i / (SCREEN_SIZE as int)) {
                    self.color
                } else {
                    p[i]
                },
        )
    }

    /// Draw this rectangle into a row-major pixel buffer: every covered
    /// cell is overwritten with this entity's color.
    #[verifier::loop_isolation(false)]
    pub fn draw(&self, pixels: &mut Vec<Color>)
        requires
            old(pixels)@.len() == SCREEN_SIZE * SCREEN_SIZE,
        ensures
            final(pixels)@ == self.draw_spec(old(pixels)@),
    {
        broadcast use lemma_fundamental_div_mod;
        broadcast use lemma_fundamental_div_mod_converse_div;
        broadcast use lemma_fundamental_div_mod_converse_mod;

        let ghost p0 = pixels@;
        let ghost n = SCREEN_SIZE as int;
        let ghost x0: int = self.position.x - self.width / 2;
        let ghost y0: int = self.position.y - self.height / 2;
        let mut dy: u8 = 0;
        while dy < self.height
            invariant
                dy <= self.height,
                pixels@.len() == p0.len(),
                p0.len() == SCREEN_SIZE * SCREEN_SIZE,
                forall|i: int|
                    0 <= i < p0.len() ==> #[trigger] pixels@[i] == (if self.covers(i % n, i / n)
                        && i / n < y0 + dy {
                        self.color
                    } else {
                        p0[i]
                    }),
            decreases self.height - dy,
        {
            let mut dx: u8 = 0;
            while dx < self.width
                invariant
                    dx <= self.width,
                    dy < self.height,
                    pixels@.len() == p0.len(),
                    p0.len() == SCREEN_SIZE * SCREEN_SIZE,
                    forall|i: int|
                        0 <= i < p0.len() ==> #[trigger] pixels@[i] == (if self.covers(
                            i % n,
                            i / n,
                        ) && (i / n < y0 + dy || (i / n == y0 + dy && i % n < x0 + dx)) {
                            self.color
                        } else {
                            p0[i]
                        }),
                decreases self.width - dx,
            {
                let delta_x: i32 = dx as i32 - (self.width / 2) as i32;
                let delta_y: i32 = dy as i32 - (self.height / 2) as i32;
                if let Some(c) = self.position.add_delta(delta_x, delta_y) {
                    let idx = c.pixel_index();
                    proof {
                        assert(c.x == x0 + dx && c.y == y0 + dy);
                        assert(idx == (y0 + dy) * n + (x0 + dx));
                        assert(idx as int % n == x0 + dx && idx as int / n == y0 + dy);
                    }
                    pixels.set(idx, self.color);
                }
                dx += 1;
            }
            dy += 1;
        }
        proof {
            assert(pixels@ =~= self.draw_spec(p0));
        }
    }

    /// Overlap test between this entity's rectangle and another's.
    pub fn collides(&self, other: &Shape) -> (r: bool)
        ensures
            r == Shape::overlaps(*self, *other),
    {
        let self_x = self.position.x.saturating_sub(self.width / 2);
        let self_y = self.position.y.saturating_sub(self.height / 2);
        let other_x = other.position.x.saturating_sub(other.width / 2);
        let other_y = other.position.y.saturating_sub(other.height / 2);
        self_x < other_x.saturating_add(other.width) && self_x.saturating_add(self.width) > other_x
            && self_y < other_y.saturating_add(other.height)
            && self_y.saturating_add(self.height) > other_y
    }
}

/// Overlap is symmetric: the test gives the same answer however the two
/// rectangles are ordered.
pub proof fn lemma_overlaps_symmetric(a: Shape, b: Shape)
    ensures
        Shape::overlaps(a, b) == Shape::overlaps(b, a),
{
}

/// Rectangles whose edges exactly touch on some axis do not overlap: the
/// overlap comparisons are strict.
pub proof fn lemma_touching_edges_disjoint(a: Shape, b: Shape)
    requires
        a.right_edge() == b.left_edge() || b.right_edge() == a.left_edge()
            || a.bottom_edge() == b.top_edge() || b.bottom_edge() == a.top_edge(),
    ensures
        !Shape::overlaps(a, b),
{
}

} // verus!
