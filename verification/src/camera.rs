//! The view: a point that moves toward a target at a fixed speed and stops
//! exactly on it.

use vstd::prelude::*;
use crate::geometry::{Point, Point3};

verus! {

/// How far the view moves in one millisecond.
pub const CAMERA_SPEED: u32 = 900;

/// Distance from the target within which the view snaps onto it.
pub const CAMERA_SNAP_DISTANCE: u32 = 10_000;

/// Stacking order of the masks around the view.
pub const CAMERA_BOUND_Z: i32 = 999_000;

/// Where the view is asked to go, if anywhere.
#[derive(Clone, Copy, Debug, PartialEq, Eq, Structural)]
pub struct MoveCameraTo(pub Option<Point>);

/// A mask that hides what lies beside the view: it stays at a fixed offset
/// from the view.
#[derive(Clone, Copy, Debug, PartialEq, Eq, Structural)]
pub struct CameraBound(pub Point);

/// Whether `root` is the whole part of the square root of `n`.
pub open spec fn is_floor_sqrt(n: int, root: int) -> bool {
    0 <= root && root * root <= n < (root + 1) * (root + 1)
}

/// The whole part of the square root of `n`.
pub open spec fn floor_sqrt(n: int) -> int {
    choose|root: int| is_floor_sqrt(n, root)
}

/// A number has one whole square root only.
pub proof fn lemma_floor_sqrt_unique(n: int, root: int)
    requires
        is_floor_sqrt(n, root),
    ensures
        floor_sqrt(n) == root,
{
    let other = floor_sqrt(n);
    assert(is_floor_sqrt(n, other));
    if other < root {
        assert((other + 1) * (other + 1) <= root * root) by (nonlinear_arith)
            requires
                0 <= other + 1 <= root,
        ;
    }
    if root < other {
        assert((root + 1) * (root + 1) <= other * other) by (nonlinear_arith)
            requires
                0 <= root + 1 <= other,
        ;
    }
}

/// The whole part of the square root of `n`, found by halving.
pub fn integer_sqrt(n: u128) -> (root: u64)
    ensures
        is_floor_sqrt(n as int, root as int),
        root == floor_sqrt(n as int),
{
    let mut low: u128 = 0;
    let mut high: u128 = 0x1_0000_0000_0000_0000;
    assert(0x1_0000_0000_0000_0000int * 0x1_0000_0000_0000_0000int
        == 0x1_0000_0000_0000_0000_0000_0000_0000_0000int);
    while high - low > 1
        invariant
            0 <= low < high <= 0x1_0000_0000_0000_0000,
            low * low <= n < high * high,
        decreases high - low,
    {
        let mid: u128 = low + (high - low) / 2;
        assert(mid * mid <= 0xffff_ffff_ffff_ffff * 0xffff_ffff_ffff_ffff) by (nonlinear_arith)
            requires
                0 <= mid <= 0xffff_ffff_ffff_ffff,
        ;
        if mid * mid <= n {
            low = mid;
        } else {
            high = mid;
        }
    }
    proof {
        assert(high == low + 1);
        lemma_floor_sqrt_unique(n as int, low as int);
    }
    low as u64
}

/// The square of the distance between two points.
pub open spec fn distance_squared(from: Point, to: Point) -> int {
    (to.x - from.x) * (to.x - from.x) + (to.y - from.y) * (to.y - from.y)
}

/// How far the view gets in `dt` milliseconds.
pub open spec fn reach(dt: u64) -> int {
    CAMERA_SPEED * dt
}

/// Whether a tick of `dt` milliseconds brings the view onto the target: it
/// is within the snap distance already, or the way that the view covers in
/// the tick is at least as long as the way that is left.
pub open spec fn arrives(current: Point, target: Point, dt: u64) -> bool {
    ||| distance_squared(current, target) <= CAMERA_SNAP_DISTANCE * CAMERA_SNAP_DISTANCE
    ||| reach(dt) * reach(dt) >= distance_squared(current, target)
}

/// One coordinate moved from `from` toward `to` by the share `step` in
/// `length` of the way between them, rounded toward `from`.
pub open spec fn toward(from: int, to: int, step: int, length: int) -> int {
    if to >= from {
        from + (to - from) * step / length
    } else {
        from - (from - to) * step / length
    }
}

/// The view after a tick of `dt` milliseconds on its way to `target`: on
/// the target where it arrives, and else moved along the straight line to
/// it by the way that it covers in the tick.
pub open spec fn moved(current: Point, target: Point, dt: u64) -> Point {
    if arrives(current, target, dt) {
        target
    } else {
        let length = floor_sqrt(distance_squared(current, target));
        Point {
            x: toward(current.x as int, target.x as int, reach(dt), length) as i32,
            y: toward(current.y as int, target.y as int, reach(dt), length) as i32,
        }
    }
}

/// Whether `middle` lies between `from` and `to`, the ends included.
pub open spec fn between(from: int, middle: int, to: int) -> bool {
    (from <= middle <= to) || (to <= middle <= from)
}

/// A coordinate that moves by a share of at most the whole way stays
/// between where it was and where it goes.
pub proof fn lemma_toward_between(from: int, to: int, step: int, length: int)
    requires
        0 <= step <= length,
        0 < length,
    ensures
        between(from, toward(from, to, step, length), to),
{
    let way: int = if to >= from {
        to - from
    } else {
        from - to
    };
    assert(0 <= way * step / length <= way) by (nonlinear_arith)
        requires
            0 <= way,
            0 <= step <= length,
            0 < length,
    ;
}

/// A view that is sent to where it is already arrives at once and stays:
/// asking for the same target again changes nothing.
pub proof fn lemma_camera_at_target(at: Point, dt: u64)
    ensures
        arrives(at, at, dt),
        moved(at, at, dt) == at,
{
    assert(distance_squared(at, at) == 0) by (nonlinear_arith)
        requires
            distance_squared(at, at) == (at.x - at.x) * (at.x - at.x) + (at.y - at.y) * (at.y
                - at.y),
    ;
    assert(CAMERA_SNAP_DISTANCE * CAMERA_SNAP_DISTANCE >= 0) by (nonlinear_arith);
}

/// Every number from zero on has a whole square root.
pub proof fn lemma_floor_sqrt_exists(n: int)
    requires
        0 <= n,
    ensures
        is_floor_sqrt(n, floor_sqrt(n)),
    decreases n,
{
    if n == 0 {
        assert(is_floor_sqrt(0, 0));
    } else {
        lemma_floor_sqrt_exists(n - 1);
        let root = floor_sqrt(n - 1);
        if (root + 1) * (root + 1) <= n {
            assert((root + 2) * (root + 2) > (root + 1) * (root + 1)) by (nonlinear_arith)
                requires
                    0 <= root,
            ;
            assert(is_floor_sqrt(n, root + 1));
        } else {
            assert(is_floor_sqrt(n, root));
        }
    }
}

/// While the view has not arrived, every tick of at least one millisecond
/// brings it closer to its target: the view cannot hover short of it for
/// ever.
pub proof fn lemma_camera_gets_closer(current: Point, target: Point, dt: u64)
    requires
        dt >= 1,
        !arrives(current, target, dt),
    ensures
        distance_squared(moved(current, target, dt), target) < distance_squared(current, target),
{
    let far = distance_squared(current, target);
    let across: int = if target.x >= current.x {
        target.x - current.x
    } else {
        current.x - target.x
    };
    let along: int = if target.y >= current.y {
        target.y - current.y
    } else {
        current.y - target.y
    };
    assert(far == across * across + along * along) by (nonlinear_arith)
        requires
            far == (target.x - current.x) * (target.x - current.x) + (target.y - current.y) * (
            target.y - current.y),
            across == target.x - current.x || across == current.x - target.x,
            along == target.y - current.y || along == current.y - target.y,
    ;
    assert(far >= 0) by (nonlinear_arith)
        requires
            far == across * across + along * along,
    ;
    lemma_floor_sqrt_exists(far);
    let length = floor_sqrt(far);
    let step = reach(dt);
    assert(step >= 900) by (nonlinear_arith)
        requires
            step == CAMERA_SPEED * dt,
            CAMERA_SPEED == 900,
            dt >= 1,
    ;
    assert(step <= length) by (nonlinear_arith)
        requires
            step * step < far,
            far < (length + 1) * (length + 1),
            0 <= step,
            0 <= length,
    ;
    lemma_toward_between(current.x as int, target.x as int, step, length);
    lemma_toward_between(current.y as int, target.y as int, step, length);
    let x = toward(current.x as int, target.x as int, step, length);
    let y = toward(current.y as int, target.y as int, step, length);
    let after = moved(current, target, dt);
    assert(after.x == x && after.y == y);
    let moved_across = across * step / length;
    let moved_along = along * step / length;
    assert(0 <= moved_across <= across) by (nonlinear_arith)
        requires
            moved_across == across * step / length,
            0 <= across,
            0 <= step <= length,
            0 < length,
    ;
    assert(0 <= moved_along <= along) by (nonlinear_arith)
        requires
            moved_along == along * step / length,
            0 <= along,
            0 <= step <= length,
            0 < length,
    ;
    // the longer of the two ways is at least half the distance, so the view
    // moves along it by at least one
    assert(length <= across + along) by (nonlinear_arith)
        requires
            length * length <= across * across + along * along,
            0 <= across,
            0 <= along,
            0 <= length,
    ;
    if across >= along {
        assert(moved_across >= 1) by (nonlinear_arith)
            requires
                moved_across == across * step / length,
                length <= 2 * across,
                step >= 2,
                0 < length,
        ;
    } else {
        assert(moved_along >= 1) by (nonlinear_arith)
            requires
                moved_along == along * step / length,
                length <= 2 * along,
                step >= 2,
                0 < length,
        ;
    }
    let left_across = across - moved_across;
    let left_along = along - moved_along;
    assert(distance_squared(after, target) == left_across * left_across + left_along
        * left_along) by (nonlinear_arith)
        requires
            distance_squared(after, target) == (target.x - after.x) * (target.x - after.x) + (
            target.y - after.y) * (target.y - after.y),
            target.x - after.x == left_across || after.x - target.x == left_across,
            target.y - after.y == left_along || after.y - target.y == left_along,
    ;
    assert(left_across * left_across + left_along * left_along < across * across + along
        * along) by (nonlinear_arith)
        requires
            0 <= left_across <= across,
            0 <= left_along <= along,
            left_across < across || left_along < along,
    ;
}

fn gap(from: i32, to: i32) -> (way: u128)
    ensures
        way == (if to >= from {
            to - from
        } else {
            from - to
        }),
        way < 0x1_0000_0000,
{
    if to >= from {
        ((to as i64) - (from as i64)) as u128
    } else {
        ((from as i64) - (to as i64)) as u128
    }
}

fn step_toward(from: i32, to: i32, step: u128, length: u128) -> (at: i32)
    requires
        0 <= step <= length,
        0 < length < 0x2_0000_0000,
    ensures
        at == toward(from as int, to as int, step as int, length as int),
        between(from as int, at as int, to as int),
{
    proof {
        lemma_toward_between(from as int, to as int, step as int, length as int);
    }
    let way: u128 = gap(from, to);
    assert(way * step <= 0x1_0000_0000 * 0x2_0000_0000) by (nonlinear_arith)
        requires
            way < 0x1_0000_0000,
            step < 0x2_0000_0000,
    ;
    let part: u128 = way * step / length;
    assert(part <= way) by (nonlinear_arith)
        requires
            part as int == (way as int * step as int) / length as int,
            0 <= way,
            0 <= step <= length,
            0 < length,
    ;
    if to >= from {
        ((from as i64) + (part as i64)) as i32
    } else {
        ((from as i64) - (part as i64)) as i32
    }
}

impl CameraBound {
    /// Whether the mask's place can be held when the view is at `camera`.
    pub open spec fn fits(self, camera: Point) -> bool {
        &&& i32::MIN <= self.0.x + camera.x <= i32::MAX
        &&& i32::MIN <= self.0.y + camera.y <= i32::MAX
    }

    pub open spec fn spec_follow(self, camera: Point) -> Point3 {
        Point3 {
            x: (self.0.x + camera.x) as i32,
            y: (self.0.y + camera.y) as i32,
            z: CAMERA_BOUND_Z,
        }
    }

    /// Where the mask belongs when the view is at `camera`: at its offset
    /// from the view, in front of everything.
    pub fn follow(&self, camera: Point) -> (place: Point3)
        requires
            self.fits(camera),
        ensures
            place == self.spec_follow(camera),
            place.x - camera.x == self.0.x,
            place.y - camera.y == self.0.y,
    {
        Point3 { x: self.0.x + camera.x, y: self.0.y + camera.y, z: CAMERA_BOUND_Z }
    }

    /// Whether the mask's place can be held when the view is at `camera`.
    pub fn check_fits(&self, camera: Point) -> (ok: bool)
        ensures
            ok == self.fits(camera),
    {
        let x: i64 = self.0.x as i64 + camera.x as i64;
        let y: i64 = self.0.y as i64 + camera.y as i64;
        -0x8000_0000 <= x && x <= 0x7fff_ffff && -0x8000_0000 <= y && y <= 0x7fff_ffff
    }
}

/// A mask as it stands in the world.
#[derive(Clone, Copy, Debug, PartialEq, Eq, Structural)]
pub struct BoundMask {
    pub bound: CameraBound,
    /// Where the mask is now.
    pub translation: Point3,
}

/// Whether every mask is at its offset from the view at `camera`.
pub open spec fn attached(masks: Seq<BoundMask>, camera: Point) -> bool {
    forall|i: int|
        0 <= i < masks.len() ==> (#[trigger] masks[i]).translation == masks[i].bound.spec_follow(
            camera,
        )
}

/// Whether the place of every mask can be held when the view is at
/// `camera`.
pub open spec fn all_fit(masks: Seq<BoundMask>, camera: Point) -> bool {
    forall|i: int| 0 <= i < masks.len() ==> (#[trigger] masks[i]).bound.fits(camera)
}

/// Where the view is after a tick of `dt` milliseconds: where it was if it
/// has no target, else moved toward the target.
pub open spec fn camera_after(current: Point, move_camera_to: MoveCameraTo, dt: u64) -> Point {
    match move_camera_to.0 {
        None => current,
        Some(target) => moved(current, target, dt),
    }
}

/// The target of the view after a tick of `dt` milliseconds: none once the
/// view has arrived.
pub open spec fn target_after(current: Point, move_camera_to: MoveCameraTo, dt: u64)
    -> MoveCameraTo {
    match move_camera_to.0 {
        None => move_camera_to,
        Some(target) => if arrives(current, target, dt) {
            MoveCameraTo(None)
        } else {
            move_camera_to
        },
    }
}

/// A mask whose place can be held at both ends of a move can be held at
/// every point between them.
pub proof fn lemma_fits_between(bound: CameraBound, from: Point, middle: Point, to: Point)
    requires
        bound.fits(from),
        bound.fits(to),
        between(from.x as int, middle.x as int, to.x as int),
        between(from.y as int, middle.y as int, to.y as int),
    ensures
        bound.fits(middle),
{
}

/// The view stays between where it was and its target, so masks that can
/// be held at both can be held where the view comes to.
pub proof fn lemma_masks_fit_after(
    masks: Seq<BoundMask>,
    current: Point,
    move_camera_to: MoveCameraTo,
    dt: u64,
)
    requires
        all_fit(masks, current),
        move_camera_to.0 is Some ==> all_fit(masks, move_camera_to.0->0),
    ensures
        all_fit(masks, camera_after(current, move_camera_to, dt)),
{
    if move_camera_to.0 is Some {
        let target = move_camera_to.0->0;
        let after = moved(current, target, dt);
        lemma_moved_between(current, target, dt);
        assert forall|i: int| 0 <= i < masks.len() implies (#[trigger] masks[i]).bound.fits(
            after,
        ) by {
            lemma_fits_between(masks[i].bound, current, after, target);
        }
    }
}

/// The view never passes its target: each coordinate stays between where
/// it was and the target's.
pub proof fn lemma_moved_between(current: Point, target: Point, dt: u64)
    ensures
        between(current.x as int, moved(current, target, dt).x as int, target.x as int),
        between(current.y as int, moved(current, target, dt).y as int, target.y as int),
{
    if !arrives(current, target, dt) {
        let far = distance_squared(current, target);
        assert(far >= 0) by (nonlinear_arith)
            requires
                far == (target.x - current.x) * (target.x - current.x) + (target.y - current.y)
                    * (target.y - current.y),
        ;
        lemma_floor_sqrt_exists(far);
        let length = floor_sqrt(far);
        let step = reach(dt);
        assert(step >= 0) by (nonlinear_arith)
            requires
                step == CAMERA_SPEED * dt,
                CAMERA_SPEED == 900,
                dt >= 0,
        ;
        assert(step <= length) by (nonlinear_arith)
            requires
                step * step < far,
                far < (length + 1) * (length + 1),
                0 <= step,
                0 <= length,
        ;
        assert(length > 0) by (nonlinear_arith)
            requires
                far > 0,
                far < (length + 1) * (length + 1),
                0 <= length,
        ;
        lemma_toward_between(current.x as int, target.x as int, step, length);
        lemma_toward_between(current.y as int, target.y as int, step, length);
    }
}

/// The way between two points that lie on one line with an axis.
pub open spec fn axis_distance(from: Point, to: Point) -> int {
    (if to.x >= from.x {
        to.x - from.x
    } else {
        from.x - to.x
    }) + (if to.y >= from.y {
        to.y - from.y
    } else {
        from.y - to.y
    })
}

/// Along an axis nothing is lost to rounding: a view that has not arrived
/// is nearer to its target by exactly the way that it covers in the tick,
/// and stays on the line.
pub proof fn lemma_moved_along_axis(current: Point, target: Point, dt: u64)
    requires
        current.x == target.x || current.y == target.y,
    ensures
        arrives(current, target, dt) <==> axis_distance(current, target) <= CAMERA_SNAP_DISTANCE
            || reach(dt) >= axis_distance(current, target),
        !arrives(current, target, dt) ==> {
            &&& axis_distance(moved(current, target, dt), target) == axis_distance(
                current,
                target,
            ) - reach(dt)
            &&& moved(current, target, dt).x == target.x || moved(current, target, dt).y
                == target.y
        },
{
    let way = axis_distance(current, target);
    let far = distance_squared(current, target);
    let step = reach(dt);
    assert(far == way * way) by (nonlinear_arith)
        requires
            far == (target.x - current.x) * (target.x - current.x) + (target.y - current.y) * (
            target.y - current.y),
            (current.x == target.x && (way == target.y - current.y || way == current.y
                - target.y)) || (current.y == target.y && (way == target.x - current.x || way
                == current.x - target.x)),
    ;
    assert(step >= 0) by (nonlinear_arith)
        requires
            step == CAMERA_SPEED * dt,
            CAMERA_SPEED == 900,
    ;
    assert(step * step >= way * way <==> step >= way) by (nonlinear_arith)
        requires
            step >= 0,
            way >= 0,
    ;
    assert(way * way <= CAMERA_SNAP_DISTANCE * CAMERA_SNAP_DISTANCE <==> way
        <= CAMERA_SNAP_DISTANCE) by (nonlinear_arith)
        requires
            way >= 0,
            CAMERA_SNAP_DISTANCE == 10_000,
    ;
    if !arrives(current, target, dt) {
        assert(is_floor_sqrt(far, way)) by (nonlinear_arith)
            requires
                far == way * way,
                way >= 0,
        ;
        lemma_floor_sqrt_unique(far, way);
        assert(way * step / way == step) by (nonlinear_arith)
            requires
                way > 0,
                step >= 0,
        ;
        assert(0 * step / way == 0) by (nonlinear_arith)
            requires
                way > 0,
        ;
    }
}

/// The view and its target after a run of ticks, one after the other.
pub open spec fn camera_run(current: Point, move_camera_to: MoveCameraTo, ticks: Seq<u64>) -> (
    Point,
    MoveCameraTo,
)
    decreases ticks.len(),
{
    if ticks.len() == 0 {
        (current, move_camera_to)
    } else {
        camera_run(
            camera_after(current, move_camera_to, ticks[0]),
            target_after(current, move_camera_to, ticks[0]),
            ticks.drop_first(),
        )
    }
}

/// The way that the view covers in a run of ticks.
pub open spec fn total_reach(ticks: Seq<u64>) -> int
    decreases ticks.len(),
{
    if ticks.len() == 0 {
        0
    } else {
        reach(ticks[0]) + total_reach(ticks.drop_first())
    }
}

/// A view without a target stays where it is, however long.
pub proof fn lemma_camera_rests(current: Point, ticks: Seq<u64>)
    ensures
        camera_run(current, MoveCameraTo(None), ticks) == (current, MoveCameraTo(None)),
    decreases ticks.len(),
{
    if ticks.len() > 0 {
        lemma_camera_rests(current, ticks.drop_first());
    }
}

/// However many ticks pass, the view is never beyond its target: each
/// coordinate stays between where the view started and the target's.
pub proof fn lemma_camera_run_between(current: Point, target: Point, ticks: Seq<u64>)
    ensures
        between(
            current.x as int,
            camera_run(current, MoveCameraTo(Some(target)), ticks).0.x as int,
            target.x as int,
        ),
        between(
            current.y as int,
            camera_run(current, MoveCameraTo(Some(target)), ticks).0.y as int,
            target.y as int,
        ),
    decreases ticks.len(),
{
    if ticks.len() > 0 {
        let dt = ticks[0];
        let rest = ticks.drop_first();
        lemma_moved_between(current, target, dt);
        if arrives(current, target, dt) {
            lemma_camera_rests(target, rest);
        } else {
            lemma_camera_run_between(moved(current, target, dt), target, rest);
        }
    }
}

/// A view that moves along an axis is exactly on its target, and has no
/// target any more, as soon as the ways of the ticks add up to the way
/// that was to go; more ticks do not move it on.
pub proof fn lemma_camera_converges(current: Point, target: Point, ticks: Seq<u64>)
    requires
        current.x == target.x || current.y == target.y,
        ticks.len() > 0,
        total_reach(ticks) >= axis_distance(current, target),
    ensures
        camera_run(current, MoveCameraTo(Some(target)), ticks) == (target, MoveCameraTo(None)),
    decreases ticks.len(),
{
    let dt = ticks[0];
    let rest = ticks.drop_first();
    lemma_moved_along_axis(current, target, dt);
    if arrives(current, target, dt) {
        lemma_camera_rests(target, rest);
    } else {
        assert(total_reach(rest) > 0);
        assert(rest.len() > 0);
        lemma_camera_converges(moved(current, target, dt), target, rest);
    }
}

/// Moves the view alone for one tick of `dt` milliseconds.
///
/// Without a target nothing moves. With one, the view either arrives, is
/// then exactly on the target and has no target any more, or it moves along
/// the straight line toward the target and keeps it. It never passes the
/// target: each coordinate stays between where it was and the target's.
pub fn move_view(translation: &mut Point, move_camera_to: &mut MoveCameraTo, dt: u64)
    ensures
        *final(translation) == camera_after(*old(translation), *old(move_camera_to), dt),
        *final(move_camera_to) == target_after(*old(translation), *old(move_camera_to), dt),
        final(move_camera_to).0 is None && old(move_camera_to).0 is Some ==> *final(translation)
            == old(move_camera_to).0->0,
        old(move_camera_to).0 is Some ==> between(
            old(translation).x as int,
            final(translation).x as int,
            old(move_camera_to).0->0.x as int,
        ) && between(
            old(translation).y as int,
            final(translation).y as int,
            old(move_camera_to).0->0.y as int,
        ),
{
    match move_camera_to.0 {
        None => {},
        Some(target) => {
            let across: u128 = gap(translation.x, target.x);
            let along: u128 = gap(translation.y, target.y);
            assert(across * across <= 0xffff_ffff * 0xffff_ffff) by (nonlinear_arith)
                requires
                    across <= 0xffff_ffff,
            ;
            assert(along * along <= 0xffff_ffff * 0xffff_ffff) by (nonlinear_arith)
                requires
                    along <= 0xffff_ffff,
            ;
            let far: u128 = across * across + along * along;
            assert(far == distance_squared(*translation, target)) by (nonlinear_arith)
                requires
                    far == across * across + along * along,
                    across == (if target.x >= translation.x {
                        target.x - translation.x
                    } else {
                        translation.x - target.x
                    }),
                    along == (if target.y >= translation.y {
                        target.y - translation.y
                    } else {
                        translation.y - target.y
                    }),
                    distance_squared(*translation, target) == (target.x - translation.x) * (target.x
                        - translation.x) + (target.y - translation.y) * (target.y
                        - translation.y),
            ;
            assert(CAMERA_SNAP_DISTANCE * CAMERA_SNAP_DISTANCE == 100_000_000);
            let snap: u128 = (CAMERA_SNAP_DISTANCE as u128) * (CAMERA_SNAP_DISTANCE as u128);
            assert(0 <= CAMERA_SPEED * dt <= 900 * 0xffff_ffff_ffff_ffff) by (nonlinear_arith)
                requires
                    CAMERA_SPEED == 900,
                    0 <= dt <= 0xffff_ffff_ffff_ffff,
            ;
            let step: u128 = (CAMERA_SPEED as u128) * (dt as u128);
            assert(step == reach(dt)) by (nonlinear_arith)
                requires
                    step == (CAMERA_SPEED as u128) * (dt as u128),
                    reach(dt) == CAMERA_SPEED * dt,
            ;
            let covers: bool = if step >= 0x2_0000_0000 {
                assert(step * step >= 0x2_0000_0000 * 0x2_0000_0000) by (nonlinear_arith)
                    requires
                        step >= 0x2_0000_0000,
                ;
                true
            } else {
                assert(step * step <= 0x2_0000_0000 * 0x2_0000_0000) by (nonlinear_arith)
                    requires
                        0 <= step < 0x2_0000_0000,
                ;
                step * step >= far
            };
            if far <= snap || covers {
                *translation = target;
                move_camera_to.0 = None;
            } else {
                let length: u128 = integer_sqrt(far) as u128;
                assert(length < 0x2_0000_0000) by (nonlinear_arith)
                    requires
                        length * length <= far,
                        far <= 2 * (0xffff_ffff * 0xffff_ffff),
                        0 <= length,
                ;
                assert(step <= length) by (nonlinear_arith)
                    requires
                        step * step < far,
                        far < (length + 1) * (length + 1),
                        0 <= step,
                        0 <= length,
                ;
                assert(length > 0) by (nonlinear_arith)
                    requires
                        far > 0,
                        far < (length + 1) * (length + 1),
                        0 <= length,
                ;
                let x = step_toward(translation.x, target.x, step, length);
                let y = step_toward(translation.y, target.y, step, length);
                *translation = Point { x, y };
            }
        },
    }
}

/// Moves the view for one tick of `dt` milliseconds, and every mask with
/// it.
///
/// The view moves as `move_view` says. After the tick every mask stands at
/// its offset from where the view is now, whether the view has moved or
/// not, and whether it has a target or not.
pub fn move_camera_system(
    translation: &mut Point,
    move_camera_to: &mut MoveCameraTo,
    masks: &mut Vec<BoundMask>,
    dt: u64,
)
    requires
        all_fit(old(masks)@, camera_after(*old(translation), *old(move_camera_to), dt)),
    ensures
        *final(translation) == camera_after(*old(translation), *old(move_camera_to), dt),
        *final(move_camera_to) == target_after(*old(translation), *old(move_camera_to), dt),
        final(move_camera_to).0 is None && old(move_camera_to).0 is Some ==> *final(translation)
            == old(move_camera_to).0->0,
        old(move_camera_to).0 is Some ==> between(
            old(translation).x as int,
            final(translation).x as int,
            old(move_camera_to).0->0.x as int,
        ) && between(
            old(translation).y as int,
            final(translation).y as int,
            old(move_camera_to).0->0.y as int,
        ),
        final(masks)@.len() == old(masks)@.len(),
        forall|i: int|
            0 <= i < old(masks)@.len() ==> (#[trigger] final(masks)@[i]).bound == old(
                masks,
            )@[i].bound,
        attached(final(masks)@, *final(translation)),
{
    move_view(translation, move_camera_to, dt);
    let ghost before = masks@;
    let mut at: usize = 0;
    while at < masks.len()
        invariant
            0 <= at <= masks.len(),
            masks@.len() == before.len(),
            all_fit(before, *translation),
            forall|i: int| 0 <= i < before.len() ==> (#[trigger] masks@[i]).bound == before[i].bound,
            forall|i: int|
                0 <= i < at ==> (#[trigger] masks@[i]).translation == masks@[i].bound.spec_follow(
                    *translation,
                ),
        decreases masks.len() - at,
    {
        let mut mask = masks[at];
        assert(before[at as int].bound.fits(*translation));
        mask.translation = mask.bound.follow(*translation);
        masks[at] = mask;
        at = at + 1;
    }
}

/// The heights at which the view can rest.
#[derive(Clone, Copy, Debug, PartialEq, Eq, Structural)]
pub enum CameraPosition {
    Zero,
    OneShelf,
    TwoShelf,
}

impl CameraPosition {
    pub open spec fn lower(self) -> CameraPosition {
        match self {
            CameraPosition::Zero => CameraPosition::OneShelf,
            CameraPosition::OneShelf => CameraPosition::TwoShelf,
            CameraPosition::TwoShelf => CameraPosition::TwoShelf,
        }
    }

    pub open spec fn higher(self) -> CameraPosition {
        match self {
            CameraPosition::Zero => CameraPosition::Zero,
            CameraPosition::OneShelf => CameraPosition::Zero,
            CameraPosition::TwoShelf => CameraPosition::OneShelf,
        }
    }

    pub open spec fn point(self) -> Point {
        match self {
            CameraPosition::Zero => Point { x: 0, y: 0 },
            CameraPosition::OneShelf => Point { x: 0, y: -275_000i32 },
            CameraPosition::TwoShelf => Point { x: 0, y: -630_000i32 },
        }
    }

    /// One shelf down; the lowest stays.
    pub fn down(&mut self)
        ensures
            *final(self) == old(self).lower(),
    {
        *self = match *self {
            CameraPosition::Zero => CameraPosition::OneShelf,
            CameraPosition::OneShelf => CameraPosition::TwoShelf,
            CameraPosition::TwoShelf => CameraPosition::TwoShelf,
        }
    }

    /// One shelf up; the highest stays.
    pub fn up(&mut self)
        ensures
            *final(self) == old(self).higher(),
    {
        *self = match *self {
            CameraPosition::Zero => CameraPosition::Zero,
            CameraPosition::OneShelf => CameraPosition::Zero,
            CameraPosition::TwoShelf => CameraPosition::OneShelf,
        }
    }

    /// The point of the world on which the view rests at this height.
    pub fn to_vec2(&self) -> (point: Point)
        ensures
            point == self.point(),
    {
        match *self {
            CameraPosition::Zero => Point { x: 0, y: 0 },
            CameraPosition::OneShelf => Point { x: 0, y: -275_000 },
            CameraPosition::TwoShelf => Point { x: 0, y: -630_000 },
        }
    }
}

/// Which way the wheel was turned.
#[derive(Clone, Copy, Debug, PartialEq, Eq, Structural)]
pub enum Scroll {
    Up,
    Down,
}

/// The height of the view after the keys and the wheel of one tick: first
/// the key for up, then the key for down, then the wheel.
pub open spec fn steered(
    position: CameraPosition,
    up_pressed: bool,
    down_pressed: bool,
    scroll: Option<Scroll>,
) -> CameraPosition {
    let after_up = if up_pressed {
        position.higher()
    } else {
        position
    };
    let after_down = if down_pressed {
        after_up.lower()
    } else {
        after_up
    };
    match scroll {
        Some(Scroll::Down) => after_down.lower(),
        Some(Scroll::Up) => after_down.higher(),
        None => after_down,
    }
}

/// Moves the height of the view by the keys and the wheel of one tick. If
/// any of them was used, the view is sent to the new height; if none was,
/// its target stays as it is.
pub fn keys_camera_control(
    camera_position: &mut CameraPosition,
    move_camera_to: &mut MoveCameraTo,
    up_pressed: bool,
    down_pressed: bool,
    scroll: Option<Scroll>,
)
    ensures
        *final(camera_position) == steered(*old(camera_position), up_pressed, down_pressed, scroll),
        up_pressed || down_pressed || scroll is Some ==> final(move_camera_to).0 == Some(
            final(camera_position).point(),
        ),
        !(up_pressed || down_pressed || scroll is Some) ==> *final(move_camera_to) == *old(
            move_camera_to,
        ),
{
    if up_pressed {
        camera_position.up();
        move_camera_to.0 = Some(camera_position.to_vec2());
    }
    if down_pressed {
        camera_position.down();
        move_camera_to.0 = Some(camera_position.to_vec2());
    }
    match scroll {
        Some(Scroll::Down) => {
            camera_position.down();
            move_camera_to.0 = Some(camera_position.to_vec2());
        },
        Some(Scroll::Up) => {
            camera_position.up();
            move_camera_to.0 = Some(camera_position.to_vec2());
        },
        None => {},
    }
}

} // verus!
