//! Selecting entries by dragging a rectangle over the grid.

use vstd::prelude::*;

verus! {

/// A point in the coordinates in which the grid is drawn, in whole units.
#[derive(Clone, Copy, Debug, PartialEq, Eq, Structural)]
pub struct Point {
    pub x: i32,
    pub y: i32,
}

/// An axis-aligned rectangle, given by the corner with the smallest and the
/// corner with the largest coordinates.
#[derive(Clone, Copy, Debug, PartialEq, Eq, Structural)]
pub struct Rect {
    pub min: Point,
    pub max: Point,
}

impl Rect {
    /// The smallest rectangle that holds both points, whichever of them is
    /// the upper left one.
    pub open spec fn bounding(a: Point, b: Point) -> Rect {
        Rect {
            min: Point {
                x: if a.x <= b.x { a.x } else { b.x },
                y: if a.y <= b.y { a.y } else { b.y },
            },
            max: Point {
                x: if a.x <= b.x { b.x } else { a.x },
                y: if a.y <= b.y { b.y } else { a.y },
            },
        }
    }

    /// The two rectangles have a point in common: their extents overlap on
    /// both axes, where touching edges count as overlapping.
    pub open spec fn overlaps(self, other: Rect) -> bool {
        &&& self.min.x <= other.max.x
        &&& other.min.x <= self.max.x
        &&& self.min.y <= other.max.y
        &&& other.min.y <= self.max.y
    }

    /// The point lies in the rectangle or on its edge.
    pub open spec fn holds(self, point: Point) -> bool {
        &&& self.min.x <= point.x <= self.max.x
        &&& self.min.y <= point.y <= self.max.y
    }

    /// The rectangle that two opposite corners span.
    pub fn from_two_pos(a: Point, b: Point) -> (rect: Rect)
        ensures
            rect == Rect::bounding(a, b),
            rect.min.x <= rect.max.x,
            rect.min.y <= rect.max.y,
    {
        Rect {
            min: Point {
                x: if a.x <= b.x { a.x } else { b.x },
                y: if a.y <= b.y { a.y } else { b.y },
            },
            max: Point {
                x: if a.x <= b.x { b.x } else { a.x },
                y: if a.y <= b.y { b.y } else { a.y },
            },
        }
    }

    /// Whether the two rectangles overlap.
    pub fn intersects(self, other: Rect) -> (hit: bool)
        ensures
            hit == self.overlaps(other),
    {
        self.min.x <= other.max.x && other.min.x <= self.max.x && self.min.y <= other.max.y
            && other.min.y <= self.max.y
    }

    /// Whether the point lies in the rectangle or on its edge.
    pub fn contains(self, point: Point) -> (inside: bool)
        ensures
            inside == self.holds(point),
    {
        self.min.x <= point.x && point.x <= self.max.x && self.min.y <= point.y && point.y
            <= self.max.y
    }
}

/// Overlapping does not depend on which rectangle is asked.
pub proof fn lemma_overlaps_symmetric(a: Rect, b: Rect)
    ensures
        a.overlaps(b) == b.overlaps(a),
{
}

/// The rectangle that a drag spans is the same whichever corner the drag
/// began at.
pub proof fn lemma_bounding_symmetric(a: Point, b: Point)
    ensures
        Rect::bounding(a, b) == Rect::bounding(b, a),
{
}

/// Pointing and dragging agree: a drag that has not moved yet selects the
/// entries that hold the pointer, their edges included.
pub proof fn lemma_still_drag_selects_what_holds_it(point: Point, bounds: Rect)
    ensures
        Rect::bounding(point, point).overlaps(bounds) == bounds.holds(point),
{
}

/// The rectangle of the drag that is under way, if one is.
pub open spec fn drag_rectangle(
    pointer_down: bool,
    press_origin: Option<Point>,
    current_point: Option<Point>,
) -> Option<Rect> {
    if pointer_down && press_origin is Some && current_point is Some {
        Some(Rect::bounding(press_origin->0, current_point->0))
    } else {
        None
    }
}

/// The selection rectangle of this frame: while the button is held and both
/// the place of the press and the place of the pointer are known, the
/// rectangle that the two span; otherwise none, and what was highlighted for
/// an earlier rectangle is to be cleared.
pub fn begin_or_update(
    pointer_down: bool,
    press_origin: Option<Point>,
    current_point: Option<Point>,
) -> (selection: Option<Rect>)
    ensures
        selection == drag_rectangle(pointer_down, press_origin, current_point),
{
    if !pointer_down {
        return None;
    }
    match (press_origin, current_point) {
        (Some(origin), Some(current)) => Some(Rect::from_two_pos(origin, current)),
        _ => None,
    }
}

/// Whether an entry with the given bounds is drawn highlighted: during a
/// drag the rectangle alone decides, and the pointer resting on an entry
/// counts only while no drag is under way.
pub open spec fn highlights(selection: Option<Rect>, bounds: Rect, hovered: bool) -> bool {
    match selection {
        Some(rect) => rect.overlaps(bounds),
        None => hovered,
    }
}

/// Whether to highlight the entry with the given bounds in this frame.
pub fn is_highlighted(selection: Option<Rect>, bounds: Rect, hovered: bool) -> (lit: bool)
    ensures
        lit == highlights(selection, bounds, hovered),
{
    match selection {
        Some(rect) => rect.intersects(bounds),
        None => hovered,
    }
}

/// The entries that the rectangle selects: the indices, in rising order, of
/// the bounds that it overlaps.
pub fn selected_entries(selection: Rect, bounds: &Vec<Rect>) -> (hits: Vec<usize>)
    ensures
        forall|k: int|
            0 <= k < hits.len() ==> hits[k] < bounds.len() && selection.overlaps(
                bounds[hits[k] as int],
            ),
        forall|k: int, l: int| 0 <= k < l < hits.len() ==> hits[k] < hits[l],
        forall|i: int|
            0 <= i < bounds.len() && selection.overlaps(bounds[i]) ==> hits@.contains(i as usize),
{
    let mut hits: Vec<usize> = Vec::new();
    let mut i: usize = 0;
    while i < bounds.len()
        invariant
            i <= bounds.len(),
            forall|k: int|
                0 <= k < hits.len() ==> hits[k] < i && selection.overlaps(bounds[hits[k] as int]),
            forall|k: int, l: int| 0 <= k < l < hits.len() ==> hits[k] < hits[l],
            forall|j: int|
                0 <= j < i && selection.overlaps(bounds[j]) ==> hits@.contains(j as usize),
        decreases bounds.len() - i,
    {
        if selection.intersects(bounds[i]) {
            let ghost before = hits@;
            hits.push(i);
            proof {
                assert forall|j: int|
                    0 <= j < i + 1 && selection.overlaps(bounds[j]) implies hits@.contains(
                    j as usize,
                ) by {
                    if j < i {
                        let k = choose|k: int| 0 <= k < before.len() && before[k] == j as usize;
                        assert(hits@[k] == j as usize);
                    } else {
                        assert(hits@[hits.len() - 1] == j as usize);
                    }
                }
            }
        }
        i += 1;
    }
    hits
}

} // verus!
