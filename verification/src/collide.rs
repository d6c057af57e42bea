//! Axis-separated collision resolution of a moving rectangle against fixed
//! ones.
//!
//! Rectangles have their origin at the corner of least `x` and `y`. A
//! correction always carries the mover a tolerance past the obstacle, so
//! that it no longer touches it.

use vstd::prelude::*;
use crate::grid::{Grid, TileAt};
use crate::math::{rect_from_point, Point2, Rect, Vector2, WorldCoord, COORD_LIMIT};

verus! {

pub type WorldRect = Rect;

/// Clearance left between a mover and the obstacle it was pushed out of.
pub const COLLISION_TOLERANCE: WorldCoord = 10;

/// Horizontal displacement and resulting velocity of `rect`, moving at
/// `velocity`, against `fixed`. A mover that overlaps the obstacle is pushed
/// out against its direction of travel (to the right if it moves left, to the
/// left otherwise) and loses its horizontal velocity; one that does not
/// overlap is left alone.
pub open spec fn resolve_horiz(rect: Rect, velocity: Vector2, fixed: Rect) -> (int, Vector2) {
    if rect.spec_overlaps(&fixed) {
        if velocity.x < 0 {
            (fixed.right() - rect.left() + COLLISION_TOLERANCE, Vector2 { x: 0, y: velocity.y })
        } else {
            (fixed.left() - rect.right() - COLLISION_TOLERANCE, Vector2 { x: 0, y: velocity.y })
        }
    } else {
        (0, velocity)
    }
}

/// Vertical displacement and resulting velocity of `rect`, moving at
/// `velocity`, against `fixed`. A mover that overlaps the obstacle is pushed
/// down if it moves up and up otherwise, and loses its vertical velocity; one
/// that does not overlap is left alone.
pub open spec fn resolve_vert(rect: Rect, velocity: Vector2, fixed: Rect) -> (int, Vector2) {
    if rect.spec_overlaps(&fixed) {
        if velocity.y > 0 {
            (fixed.top() - rect.bottom() - COLLISION_TOLERANCE, Vector2 { x: velocity.x, y: 0 })
        } else {
            (fixed.bottom() - rect.top() + COLLISION_TOLERANCE, Vector2 { x: velocity.x, y: 0 })
        }
    } else {
        (0, velocity)
    }
}

/// A displacement that keeps a mover that started well formed within the
/// bounds of the arithmetic.
pub open spec fn displacement_ok(d: int) -> bool {
    -8 * COORD_LIMIT <= d <= 8 * COORD_LIMIT
}

pub fn resolve_collider_horiz(rect: Rect, velocity: Vector2, fixed: Rect) -> (r: (
    WorldCoord,
    Vector2,
))
    requires
        rect.wf(),
        fixed.collider_wf(),
    ensures
        r.0 == resolve_horiz(rect, velocity, fixed).0,
        r.1 == resolve_horiz(rect, velocity, fixed).1,
        !rect.spec_overlaps(&fixed) ==> r.0 == 0 && r.1 == velocity,
        rect.spec_overlaps(&fixed) ==> -3 * COORD_LIMIT - COLLISION_TOLERANCE <= rect.x + r.0
            <= 3 * COORD_LIMIT + COLLISION_TOLERANCE,
{
    if rect.overlaps(&fixed) {
        // Intersects while moving left, so push out right
        if velocity.x < 0 {
            return (
                fixed.x + fixed.w - rect.x + COLLISION_TOLERANCE,
                Vector2::new(0, velocity.y),
            );
        } else {
            return (
                fixed.x - (rect.x + rect.w) - COLLISION_TOLERANCE,
                Vector2::new(0, velocity.y),
            );
        }
    }
    (0, velocity)
}

pub fn resolve_collider_vert(rect: Rect, velocity: Vector2, fixed: Rect) -> (r: (
    WorldCoord,
    Vector2,
))
    requires
        rect.wf(),
        fixed.collider_wf(),
    ensures
        r.0 == resolve_vert(rect, velocity, fixed).0,
        r.1 == resolve_vert(rect, velocity, fixed).1,
        !rect.spec_overlaps(&fixed) ==> r.0 == 0 && r.1 == velocity,
        rect.spec_overlaps(&fixed) ==> -3 * COORD_LIMIT - COLLISION_TOLERANCE <= rect.y + r.0
            <= 3 * COORD_LIMIT + COLLISION_TOLERANCE,
{
    if rect.overlaps(&fixed) {
        // Intersects while moving up, so push out down
        if velocity.y > 0 {
            return (
                fixed.y - (rect.y + rect.h) - COLLISION_TOLERANCE,
                Vector2::new(velocity.x, 0),
            );
        } else {
            return (
                (fixed.y + fixed.h) - rect.y + COLLISION_TOLERANCE,
                Vector2::new(velocity.x, 0),
            );
        }
    }
    (0, velocity)
}

/// Net horizontal displacement and final velocity after resolving against
/// each collider in turn, the mover displaced by what the earlier colliders
/// asked for. The order of the colliders matters.
pub open spec fn resolve_all_horiz(rect: Rect, velocity: Vector2, colliders: Seq<Rect>) -> (
    int,
    Vector2,
)
    decreases colliders.len(),
{
    if colliders.len() == 0 {
        (0, velocity)
    } else {
        let before = resolve_all_horiz(rect, velocity, colliders.drop_last());
        let step = resolve_horiz(rect.shifted(before.0, 0), before.1, colliders.last());
        (before.0 + step.0, step.1)
    }
}

/// Net vertical displacement and final velocity after resolving against each
/// collider in turn, the mover displaced by what the earlier colliders asked
/// for. The order of the colliders matters.
pub open spec fn resolve_all_vert(rect: Rect, velocity: Vector2, colliders: Seq<Rect>) -> (
    int,
    Vector2,
)
    decreases colliders.len(),
{
    if colliders.len() == 0 {
        (0, velocity)
    } else {
        let before = resolve_all_vert(rect, velocity, colliders.drop_last());
        let step = resolve_vert(rect.shifted(0, before.0), before.1, colliders.last());
        (before.0 + step.0, step.1)
    }
}

/// Every rectangle of `colliders` may stand as an obstacle.
pub open spec fn colliders_wf(colliders: Seq<Rect>) -> bool {
    forall|i: int| 0 <= i < colliders.len() ==> (#[trigger] colliders[i]).collider_wf()
}

pub fn resolve_colliders_horiz(rect: Rect, velocity: Vector2, colliders: &[Rect]) -> (r: (
    WorldCoord,
    Vector2,
))
    requires
        rect.wf(),
        colliders_wf(colliders@),
    ensures
        r.0 == resolve_all_horiz(rect, velocity, colliders@).0,
        r.1 == resolve_all_horiz(rect, velocity, colliders@).1,
        displacement_ok(r.0 as int),
        velocity.wf() ==> r.1.wf(),
        rect.shifted(r.0 as int, 0).wf(),
{
    let mut net_disp: WorldCoord = 0;
    let mut net_vel = velocity;
    let mut i: usize = 0;
    assert(colliders@.take(0) =~= Seq::<Rect>::empty());
    while i < colliders.len()
        invariant
            i <= colliders.len(),
            rect.wf(),
            colliders_wf(colliders@),
            -4 * COORD_LIMIT <= rect.x + net_disp <= 4 * COORD_LIMIT,
            net_disp == resolve_all_horiz(rect, velocity, colliders@.take(i as int)).0,
            net_vel == resolve_all_horiz(rect, velocity, colliders@.take(i as int)).1,
            velocity.wf() ==> net_vel.wf(),
        decreases colliders.len() - i,
    {
        let disp_rect = rect_from_point(Point2::new(rect.x + net_disp, rect.y), rect.w, rect.h);
        assert(disp_rect == rect.shifted(net_disp as int, 0));
        let (res_disp, res_vel) = resolve_collider_horiz(disp_rect, net_vel, colliders[i]);
        assert(colliders@.take(i + 1).drop_last() =~= colliders@.take(i as int));
        net_disp += res_disp;
        net_vel = res_vel;
        i += 1;
    }
    assert(colliders@.take(i as int) =~= colliders@);
    (net_disp, net_vel)
}

pub fn resolve_colliders_vert(rect: Rect, velocity: Vector2, colliders: &[Rect]) -> (r: (
    WorldCoord,
    Vector2,
))
    requires
        rect.wf(),
        colliders_wf(colliders@),
    ensures
        r.0 == resolve_all_vert(rect, velocity, colliders@).0,
        r.1 == resolve_all_vert(rect, velocity, colliders@).1,
        displacement_ok(r.0 as int),
        velocity.wf() ==> r.1.wf(),
        rect.shifted(0, r.0 as int).wf(),
{
    let mut net_disp: WorldCoord = 0;
    let mut net_vel = velocity;
    let mut i: usize = 0;
    assert(colliders@.take(0) =~= Seq::<Rect>::empty());
    while i < colliders.len()
        invariant
            i <= colliders.len(),
            rect.wf(),
            colliders_wf(colliders@),
            -4 * COORD_LIMIT <= rect.y + net_disp <= 4 * COORD_LIMIT,
            net_disp == resolve_all_vert(rect, velocity, colliders@.take(i as int)).0,
            net_vel == resolve_all_vert(rect, velocity, colliders@.take(i as int)).1,
            velocity.wf() ==> net_vel.wf(),
        decreases colliders.len() - i,
    {
        let disp_rect = rect_from_point(Point2::new(rect.x, rect.y + net_disp), rect.w, rect.h);
        assert(disp_rect == rect.shifted(0, net_disp as int));
        let (res_disp, res_vel) = resolve_collider_vert(disp_rect, net_vel, colliders[i]);
        assert(colliders@.take(i + 1).drop_last() =~= colliders@.take(i as int));
        net_disp += res_disp;
        net_vel = res_vel;
        i += 1;
    }
    assert(colliders@.take(i as int) =~= colliders@);
    (net_disp, net_vel)
}

/// The obstacles that `grid` puts in the way of `rect`, in the order of the
/// grid's answer.
pub open spec fn grid_colliders(grid: Grid, rect: Rect) -> Seq<Rect> {
    grid.overlapping(rect).map_values(|tile: TileAt| grid.world_collider(tile))
}

/// The obstacles that the grids put in the way of `rect`, grid by grid.
pub open spec fn colliders_of(grids: Seq<Grid>, rect: Rect) -> Seq<Rect>
    decreases grids.len(),
{
    if grids.len() == 0 {
        Seq::empty()
    } else {
        colliders_of(grids.drop_last(), rect) + grid_colliders(grids.last(), rect)
    }
}

/// Every grid of `grids` is well formed.
pub open spec fn grids_wf(grids: Seq<Grid>) -> bool {
    forall|i: int| 0 <= i < grids.len() ==> (#[trigger] grids[i]).wf()
}

/// Appends to `out` the obstacles that the grids put in the way of `rect`.
pub fn get_overlapping_tiles(grids: &[Grid], rect: Rect, out: &mut Vec<WorldRect>)
    requires
        grids_wf(grids@),
        rect.wf(),
        colliders_wf(old(out)@),
    ensures
        final(out)@ == old(out)@ + colliders_of(grids@, rect),
        colliders_wf(final(out)@),
{
    let mut tiles: Vec<TileAt> = Vec::with_capacity(6);
    let mut g: usize = 0;
    assert(grids@.take(0) =~= Seq::<Grid>::empty());
    while g < grids.len()
        invariant
            g <= grids.len(),
            grids_wf(grids@),
            rect.wf(),
            out@ == old(out)@ + colliders_of(grids@.take(g as int), rect),
            colliders_wf(out@),
        decreases grids.len() - g,
    {
        let grid = &grids[g];
        tiles.clear();
        grid.overlapping_tiles(rect, &mut tiles);
        assert(tiles@ =~= grid.overlapping(rect));
        proof {
            grid.lemma_overlapping_members(rect);
        }
        let ghost start = out@;
        let ghost answer = grid_colliders(*grid, rect);
        let mut t: usize = 0;
        while t < tiles.len()
            invariant
                t <= tiles.len(),
                grid.wf(),
                tiles@ == grid.overlapping(rect),
                answer == grid_colliders(*grid, rect),
                grid.members_ok(tiles@),
                out@ == start + answer.take(t as int),
                colliders_wf(out@),
            decreases tiles.len() - t,
        {
            let tile = tiles[t];
            out.push(grid.to_world_collider(tile));
            assert(out@ =~= start + answer.take(t + 1));
            t += 1;
        }
        assert(answer.take(t as int) =~= answer);
        assert(grids@.take(g + 1).drop_last() =~= grids@.take(g as int));
        assert(grids@.take(g + 1).last() == *grid);
        assert(out@ =~= old(out)@ + colliders_of(grids@.take(g + 1), rect));
        g += 1;
    }
    assert(grids@.take(g as int) =~= grids@);
}

/// Resolution is idempotent: once a mover has been displaced as the
/// horizontal resolution against an obstacle asked, resolving it against the
/// same obstacle again asks for no displacement and leaves the velocity as
/// it came out of the first resolution.
pub proof fn lemma_resolve_horiz_idempotent(rect: Rect, velocity: Vector2, fixed: Rect)
    requires
        rect.wf(),
        fixed.collider_wf(),
    ensures
        ({
            let first = resolve_horiz(rect, velocity, fixed);
            resolve_horiz(rect.shifted(first.0, 0), first.1, fixed) == (0int, first.1)
        }),
{
    let first = resolve_horiz(rect, velocity, fixed);
    if !rect.spec_overlaps(&fixed) {
        assert(rect.shifted(0, 0) == rect);
    }
}

/// Resolution is idempotent: once a mover has been displaced as the vertical
/// resolution against an obstacle asked, resolving it against the same
/// obstacle again asks for no displacement and leaves the velocity as it
/// came out of the first resolution.
pub proof fn lemma_resolve_vert_idempotent(rect: Rect, velocity: Vector2, fixed: Rect)
    requires
        rect.wf(),
        fixed.collider_wf(),
    ensures
        ({
            let first = resolve_vert(rect, velocity, fixed);
            resolve_vert(rect.shifted(0, first.0), first.1, fixed) == (0int, first.1)
        }),
{
    let first = resolve_vert(rect, velocity, fixed);
    if !rect.spec_overlaps(&fixed) {
        assert(rect.shifted(0, 0) == rect);
    }
}

/// A mover that does not overlap an obstacle is not displaced on either
/// axis and keeps its velocity.
pub proof fn lemma_no_overlap_no_change(rect: Rect, velocity: Vector2, fixed: Rect)
    requires
        !rect.spec_overlaps(&fixed),
    ensures
        resolve_horiz(rect, velocity, fixed) == (0int, velocity),
        resolve_vert(rect, velocity, fixed) == (0int, velocity),
{
}

/// A mover travelling left that overlaps an obstacle is pushed right by a
/// positive distance, ends with exactly the tolerance between the obstacle's
/// right edge and its own left edge, and keeps only its vertical velocity.
pub proof fn lemma_push_right_leaves_tolerance(rect: Rect, velocity: Vector2, fixed: Rect)
    requires
        rect.wf(),
        fixed.collider_wf(),
        rect.spec_overlaps(&fixed),
        velocity.x < 0,
    ensures
        resolve_horiz(rect, velocity, fixed).0 > 0,
        rect.shifted(resolve_horiz(rect, velocity, fixed).0, 0).left() - fixed.right()
            == COLLISION_TOLERANCE,
        resolve_horiz(rect, velocity, fixed).1 == (Vector2 { x: 0, y: velocity.y }),
{
}

/// A mover travelling right or standing still that overlaps an obstacle is
/// pushed left by a positive distance, ends with exactly the tolerance
/// between its own right edge and the obstacle's left edge, and keeps only
/// its vertical velocity.
pub proof fn lemma_push_left_leaves_tolerance(rect: Rect, velocity: Vector2, fixed: Rect)
    requires
        rect.wf(),
        fixed.collider_wf(),
        rect.spec_overlaps(&fixed),
        velocity.x >= 0,
    ensures
        resolve_horiz(rect, velocity, fixed).0 < 0,
        fixed.left() - rect.shifted(resolve_horiz(rect, velocity, fixed).0, 0).right()
            == COLLISION_TOLERANCE,
        resolve_horiz(rect, velocity, fixed).1 == (Vector2 { x: 0, y: velocity.y }),
{
}

} // verus!
