//! Nearest-atom picking: given the bounding boxes of the drawn spheres and
//! a resolved world-space pick point, choose the box whose center is
//! nearest, ties going to the lowest index, and compute the highlight
//! placed over it.

use vstd::prelude::*;

use crate::geom::dist_sq;
use crate::geom::is_sqrt_floor;
use crate::geom::isqrt;
use crate::geom::lemma_sqrt_floor_unique;
use crate::geom::norm_sq;
use crate::geom::spec_dist_sq;
use crate::geom::Vec3i;

verus! {

/// Axis-aligned bounding box of a drawn sphere: center and full extents,
/// in subunits.
#[derive(Clone, Copy, PartialEq, Eq, Structural, Debug)]
pub struct Aabb {
    pub center: Vec3i,
    pub size: Vec3i,
}

impl Aabb {
    pub open spec fn wf(self) -> bool {
        &&& self.center.in_range()
        &&& self.size.in_range()
    }
}

/// `i` names the box nearest `pick`: no box is strictly nearer, and every
/// earlier box is strictly farther.
pub open spec fn is_nearest(boxes: Seq<Aabb>, pick: Vec3i, i: int) -> bool {
    &&& 0 <= i < boxes.len()
    &&& forall|j: int|
        0 <= j < boxes.len() ==> spec_dist_sq(pick, boxes[i].center) <= spec_dist_sq(
            pick,
            (#[trigger] boxes[j]).center,
        )
    &&& forall|j: int|
        0 <= j < i ==> spec_dist_sq(pick, (#[trigger] boxes[j]).center) > spec_dist_sq(
            pick,
            boxes[i].center,
        )
}

/// Picking is deterministic: for a fixed pick point and fixed boxes, only
/// one index is the nearest pick.
pub proof fn lemma_pick_unique(boxes: Seq<Aabb>, pick: Vec3i, i1: int, i2: int)
    requires
        is_nearest(boxes, pick, i1),
        is_nearest(boxes, pick, i2),
    ensures
        i1 == i2,
{
    if i1 < i2 {
        assert(spec_dist_sq(pick, boxes[i1].center) > spec_dist_sq(pick, boxes[i2].center));
        assert(spec_dist_sq(pick, boxes[i2].center) >= spec_dist_sq(pick, boxes[i1].center));
    }
    if i2 < i1 {
        assert(spec_dist_sq(pick, boxes[i2].center) > spec_dist_sq(pick, boxes[i1].center));
        assert(spec_dist_sq(pick, boxes[i1].center) >= spec_dist_sq(pick, boxes[i2].center));
    }
}

/// The index of the box whose center is nearest `pick`; `None` only when
/// there is no box.
pub fn pick_nearest(boxes: &Vec<Aabb>, pick: Vec3i) -> (r: Option<usize>)
    requires
        pick.in_range(),
        forall|i: int| 0 <= i < boxes@.len() ==> (#[trigger] boxes@[i]).wf(),
    ensures
        r is Some <==> boxes@.len() > 0,
        r matches Some(i) ==> is_nearest(boxes@, pick, i as int),
{
    let n: usize = boxes.len();
    if n == 0 {
        return None;
    }
    let mut best: usize = 0;
    let mut best_d: i64 = dist_sq(pick, boxes[0].center);
    let mut j: usize = 1;
    while j < n
        invariant
            n == boxes@.len(),
            pick.in_range(),
            forall|i: int| 0 <= i < boxes@.len() ==> (#[trigger] boxes@[i]).wf(),
            1 <= j <= n,
            best < j,
            best_d == spec_dist_sq(pick, boxes@[best as int].center),
            forall|k: int|
                0 <= k < j ==> best_d <= spec_dist_sq(pick, (#[trigger] boxes@[k]).center),
            forall|k: int|
                0 <= k < best ==> spec_dist_sq(pick, (#[trigger] boxes@[k]).center) > best_d,
        decreases n - j,
    {
        let d = dist_sq(pick, boxes[j].center);
        if d < best_d {
            best = j;
            best_d = d;
        }
        j = j + 1;
    }
    Some(best)
}

/// The transform highlighting a picked box: translate to `center`, scale
/// uniformly by `scale`. `diag` is the floor of the box diagonal's length;
/// the scale is half of it divided by one and a half, i.e. a third,
/// rounded down to a subunit.
#[derive(Clone, Copy, PartialEq, Eq, Structural, Debug)]
pub struct Highlight {
    pub center: Vec3i,
    pub diag: i64,
    pub scale: i64,
}

/// `h` highlights the box nearest `pick`.
pub open spec fn is_highlight_for(boxes: Seq<Aabb>, pick: Vec3i, h: Highlight) -> bool {
    exists|i: int|
        #[trigger] is_nearest(boxes, pick, i) && h.center == boxes[i].center && is_sqrt_floor(
            boxes[i].size.norm_sq(),
            h.diag as int,
        ) && h.scale == h.diag / 3
}

/// The highlight is as deterministic as the pick: only one highlight fits
/// a fixed pick point and fixed boxes.
pub proof fn lemma_highlight_unique(boxes: Seq<Aabb>, pick: Vec3i, h1: Highlight, h2: Highlight)
    requires
        is_highlight_for(boxes, pick, h1),
        is_highlight_for(boxes, pick, h2),
    ensures
        h1 == h2,
{
    let i1 = choose|i: int|
        #[trigger] is_nearest(boxes, pick, i) && h1.center == boxes[i].center && is_sqrt_floor(
            boxes[i].size.norm_sq(),
            h1.diag as int,
        ) && h1.scale == h1.diag / 3;
    let i2 = choose|i: int|
        #[trigger] is_nearest(boxes, pick, i) && h2.center == boxes[i].center && is_sqrt_floor(
            boxes[i].size.norm_sq(),
            h2.diag as int,
        ) && h2.scale == h2.diag / 3;
    lemma_pick_unique(boxes, pick, i1, i2);
    lemma_sqrt_floor_unique(boxes[i1].size.norm_sq(), h1.diag as int, h2.diag as int);
}

/// The pick state a render loop threads through its frames: the highlight
/// over the most recently picked atom, if any.
#[derive(Clone, Copy, Debug)]
pub struct PickState {
    pub highlight: Option<Highlight>,
}

/// Feeds one frame's pick event into the state. A miss (`None`) is no
/// error: it leaves the prior highlight untouched and reports no change.
/// A hit replaces the highlight with the one for the nearest box and
/// reports a change — unless there is no box at all.
pub fn update_pick(state: &mut PickState, boxes: &Vec<Aabb>, pick: Option<Vec3i>) -> (changed:
    bool)
    requires
        pick matches Some(p) ==> p.in_range(),
        forall|i: int| 0 <= i < boxes@.len() ==> (#[trigger] boxes@[i]).wf(),
    ensures
        changed == (pick is Some && boxes@.len() > 0),
        !changed ==> *final(state) == *old(state),
        changed ==> (final(state).highlight matches Some(h) && is_highlight_for(
            boxes@,
            pick->Some_0,
            h,
        )),
{
    match pick {
        None => false,
        Some(p) => match highlight_for_pick(boxes, p) {
            None => false,
            Some(h) => {
                state.highlight = Some(h);
                true
            },
        },
    }
}

/// Computes the highlight for the box nearest `pick`; `None` only when
/// there is no box.
pub fn highlight_for_pick(boxes: &Vec<Aabb>, pick: Vec3i) -> (r: Option<Highlight>)
    requires
        pick.in_range(),
        forall|i: int| 0 <= i < boxes@.len() ==> (#[trigger] boxes@[i]).wf(),
    ensures
        r is Some <==> boxes@.len() > 0,
        r matches Some(h) ==> is_highlight_for(boxes@, pick, h),
{
    match pick_nearest(boxes, pick) {
        None => None,
        Some(i) => {
            let b = boxes[i];
            let d = isqrt(norm_sq(b.size));
            let h = Highlight { center: b.center, diag: d, scale: d / 3 };
            proof {
                assert(is_nearest(boxes@, pick, i as int) && h.center == boxes@[i as int].center
                    && is_sqrt_floor(boxes@[i as int].size.norm_sq(), h.diag as int) && h.scale
                    == h.diag / 3);
            }
            Some(h)
        },
    }
}

} // verus!
