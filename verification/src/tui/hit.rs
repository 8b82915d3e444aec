//! Click targets. Every draw registers `(Rect, Action)` pairs; a mouse click is resolved against them.

use vstd::prelude::*;
use super::model::Action;

verus! {

/// A screen rectangle in cells.
#[derive(Clone, Copy, Debug, PartialEq, Eq, Structural)]
pub struct Rect {
    pub x: u16,
    pub y: u16,
    pub width: u16,
    pub height: u16,
}

/// `a + b`, saturating at `u16::MAX`.
pub open spec fn sat_add(a: u16, b: u16) -> int {
    if a + b > u16::MAX {
        u16::MAX as int
    } else {
        a + b
    }
}

impl Rect {
    /// The cell `(x, y)` lies inside the rectangle (right and bottom edges saturate).
    pub open spec fn holds(self, x: u16, y: u16) -> bool {
        x >= self.x && x < sat_add(self.x, self.width) && y >= self.y && y < sat_add(self.y, self.height)
    }

    pub fn contains(self, x: u16, y: u16) -> (r: bool)
        ensures
            r == self.holds(x, y),
    {
        let right = self.x.saturating_add(self.width);
        let bottom = self.y.saturating_add(self.height);
        x >= self.x && x < right && y >= self.y && y < bottom
    }
}

/// The click targets registered by the last draw, in drawing order.
pub struct HitMap {
    pub targets: Vec<(Rect, Action)>,
}

impl Default for HitMap {
    fn default() -> (r: Self)
        ensures
            r.targets@.len() == 0,
    {
        HitMap { targets: Vec::new() }
    }
}

/// The action of the most recently registered (topmost) target under `(x, y)`, if any.
pub open spec fn topmost(targets: Seq<(Rect, Action)>, x: u16, y: u16) -> Option<Action>
    decreases targets.len(),
{
    if targets.len() == 0 {
        None
    } else if targets.last().0.holds(x, y) {
        Some(targets.last().1)
    } else {
        topmost(targets.drop_last(), x, y)
    }
}

impl HitMap {
    pub fn clear(&mut self)
        ensures
            final(self).targets@.len() == 0,
    {
        self.targets.clear();
    }

    pub fn add(&mut self, rect: Rect, action: Action)
        ensures
            final(self).targets@ == old(self).targets@.push((rect, action)),
    {
        self.targets.push((rect, action));
    }

    /// The most recently registered (topmost) target under the point.
    pub fn at(&self, x: u16, y: u16) -> (r: Option<Action>)
        ensures
            r == topmost(self.targets@, x, y),
    {
        let mut i = self.targets.len();
        proof {
            assert(self.targets@.take(i as int) =~= self.targets@);
        }
        while i > 0
            invariant
                i <= self.targets@.len(),
                topmost(self.targets@, x, y) == topmost(self.targets@.take(i as int), x, y),
            decreases i,
        {
            let (rect, action) = self.targets[i - 1];
            proof {
                assert(self.targets@.take(i as int).drop_last() =~= self.targets@.take(i - 1));
            }
            if rect.contains(x, y) {
                return Some(action);
            }
            i = i - 1;
        }
        None
    }
}

} // verus!
