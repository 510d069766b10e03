//! What a host needs to draw a blob.

use vstd::prelude::*;
use crate::components::shapes::{Blob, Point};
use crate::util::vector::Vec2;

verus! {

/// The positions of the points that `handles` name, in that order, without
/// the handles that name no point.
pub open spec fn outline(points: Seq<Point>, handles: Seq<usize>) -> Seq<Vec2>
    decreases handles.len(),
{
    if handles.len() == 0 {
        Seq::empty()
    } else {
        let before = outline(points, handles.drop_last());
        if handles.last() < points.len() {
            before.push(points[handles.last() as int].position)
        } else {
            before
        }
    }
}

/// Lists the positions of the vertices of `blob` in the order of the loop, for
/// a host that draws its silhouette.
pub fn blob_outline(blob: &Blob, points: &Vec<Point>) -> (positions: Vec<Vec2>)
    ensures
        positions@ == outline(points@, blob.points@),
{
    let mut positions: Vec<Vec2> = Vec::with_capacity(blob.points.len());
    let mut i: usize = 0;
    while i < blob.points.len()
        invariant
            i <= blob.points.len(),
            positions@ == outline(points@, blob.points@.take(i as int)),
        decreases blob.points.len() - i,
    {
        let h: usize = blob.points[i];
        proof {
            assert(blob.points@.take(i + 1).drop_last() =~= blob.points@.take(i as int));
        }
        if h < points.len() {
            positions.push(points[h].position);
        }
        i += 1;
    }
    assert(blob.points@.take(blob.points.len() as int) =~= blob.points@);
    positions
}

} // verus!
