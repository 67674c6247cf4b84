//! Screen-space drag selection.
//!
//! When a drag gesture completes, every mobile unit owned by the local
//! player is projected through the camera's view-projection matrix
//! into homogeneous clip coordinates `(x, y, z, w)`.  A unit behind
//! the camera (`z <= 0`) or outside the clip volume on x or y is
//! rejected before any divide; the remaining units are selected when
//! their normalized device coordinates fall strictly inside the drag
//! rectangle.  All tests are carried out on cross-multiplied integer
//! products, which is exact: passing the clip test forces `w > 0`
//! (otherwise `x < w` and `x > -w` cannot both hold), so
//! `x / w > b` is equivalent to the divide-free `x * d > b' * w` forms
//! used here.
//!
//! The matrix itself comes from an external camera module; this
//! library takes it as plain fixed-point integer entries.

use vstd::prelude::*;
use vstd::math::{max, min};
use crate::blend::LIVE_COORD_LIMIT;
use crate::collections::{lemma_map_of_last, map_of, IdSet};
use crate::frame::{KBot, Vec3};
use crate::game_state::State;
use crate::utils::{Id, IdValue};

verus! {

/// Largest magnitude a view-projection matrix entry may carry.
pub const MAT_LIMIT: i64 = 17_179_869_184;

/// Largest pixel coordinate or viewport dimension the selector
/// accepts.
pub const PIXEL_LIMIT: u32 = 2_147_483_647;

/// Bound on every homogeneous clip coordinate of a projected unit:
/// four terms, each a matrix entry times a live coordinate.
pub const CLIP_LIMIT: i128 = 19_807_040_628_566_084_398_385_987_584;

/// One row of a view-projection matrix, in fixed-point units.
#[derive(Clone, Copy, PartialEq, Eq, Structural, Debug)]
pub struct Vec4 {
    pub x: i64,
    pub y: i64,
    pub z: i64,
    pub w: i64,
}

impl Vec4 {
    /// Every component has magnitude at most `l`.
    pub open spec fn bounded(&self, l: i64) -> bool {
        &&& -l <= self.x <= l
        &&& -l <= self.y <= l
        &&& -l <= self.z <= l
        &&& -l <= self.w <= l
    }

    /// Build a row from its components.
    pub fn new(x: i64, y: i64, z: i64, w: i64) -> (r: Self)
        ensures
            r == (Vec4 { x, y, z, w }),
    {
        Vec4 { x, y, z, w }
    }
}

/// A row-major view-projection matrix.
#[derive(Clone, Copy, PartialEq, Eq, Structural, Debug)]
pub struct Mat4 {
    pub r0: Vec4,
    pub r1: Vec4,
    pub r2: Vec4,
    pub r3: Vec4,
}

impl Mat4 {
    /// Every entry has magnitude at most `l`.
    pub open spec fn bounded(&self, l: i64) -> bool {
        &&& self.r0.bounded(l)
        &&& self.r1.bounded(l)
        &&& self.r2.bounded(l)
        &&& self.r3.bounded(l)
    }

    /// Build a matrix from its rows.
    pub fn new(r0: Vec4, r1: Vec4, r2: Vec4, r3: Vec4) -> (r: Self)
        ensures
            r == (Mat4 { r0, r1, r2, r3 }),
    {
        Mat4 { r0, r1, r2, r3 }
    }
}

/// One row applied to the homogeneous world point `(p, 1)`.
pub open spec fn dot4(r: Vec4, p: Vec3) -> int {
    (r.x as int) * (p.x as int) + (r.y as int) * (p.y as int) + (r.z as int) * (p.z as int) + (
    r.w as int)
}

/// The homogeneous clip coordinates of a projected point.
pub open spec fn clip_x(m: Mat4, p: Vec3) -> int {
    dot4(m.r0, p)
}

pub open spec fn clip_y(m: Mat4, p: Vec3) -> int {
    dot4(m.r1, p)
}

pub open spec fn clip_z(m: Mat4, p: Vec3) -> int {
    dot4(m.r2, p)
}

pub open spec fn clip_w(m: Mat4, p: Vec3) -> int {
    dot4(m.r3, p)
}

/// A projected unit survives clipping when it is in front of the
/// camera and strictly inside the clip volume on x and y.
pub open spec fn visible(m: Mat4, p: Vec3) -> bool {
    let w = clip_w(m, p);
    &&& clip_z(m, p) > 0
    &&& clip_x(m, p) < w
    &&& clip_x(m, p) > -w
    &&& clip_y(m, p) < w
    &&& clip_y(m, p) > -w
}

/// A point that survives clipping has a positive homogeneous `w`, so
/// the divide-free rectangle test below agrees with the normalized
/// device coordinates.
pub proof fn lemma_visible_w_positive(m: Mat4, p: Vec3)
    ensures
        visible(m, p) ==> clip_w(m, p) > 0,
{
}

/// The normalized device coordinates of the projected point fall
/// strictly inside the drag rectangle.  A pixel coordinate `px` on an
/// axis of `d` pixels maps to `2 * px / d - 1` in device coordinates;
/// with `clip_w > 0` the strict comparison `clip_x / clip_w > (2 * px
/// - d) / d` is exactly the cross-multiplied form stated here.
pub open spec fn in_rect(
    m: Mat4,
    p: Vec3,
    x0: int,
    y0: int,
    x1: int,
    y1: int,
    w: int,
    h: int,
) -> bool {
    let cx = clip_x(m, p);
    let cy = clip_y(m, p);
    let cw = clip_w(m, p);
    &&& cx * w > (2 * min(x0, x1) - w) * cw
    &&& cx * w < (2 * max(x0, x1) - w) * cw
    &&& cy * h > (2 * min(y0, y1) - h) * cw
    &&& cy * h < (2 * max(y0, y1) - h) * cw
}

/// The set of unit ids a completed drag selects: units of the live
/// collection that the local player owns, that survive clipping, and
/// whose normalized device coordinates fall strictly inside the
/// rectangle.
pub open spec fn selected_spec(
    m: Mat4,
    kbots: Map<IdValue, KBot>,
    mobiles: Set<IdValue>,
    x0: int,
    y0: int,
    x1: int,
    y1: int,
    w: int,
    h: int,
) -> Set<IdValue> {
    Set::new(
        |k: IdValue|
            kbots.contains_key(k) && mobiles.contains(k) && visible(m, kbots[k].position)
                && in_rect(m, kbots[k].position, x0, y0, x1, y1, w, h),
    )
}

/// Selection rectangle containment: a unit id is in the selected set
/// exactly when the live collection holds it, the local player owns
/// it, it survives clipping, and its normalized device coordinates
/// fall strictly inside the drag rectangle — ties at the boundary are
/// excluded by the strict comparisons.
pub proof fn lemma_selection_containment(
    m: Mat4,
    kbots: Map<IdValue, KBot>,
    mobiles: Set<IdValue>,
    x0: int,
    y0: int,
    x1: int,
    y1: int,
    w: int,
    h: int,
    k: IdValue,
)
    ensures
        selected_spec(m, kbots, mobiles, x0, y0, x1, y1, w, h).contains(k) <==> (
        kbots.contains_key(k) && mobiles.contains(k) && visible(m, kbots[k].position) && in_rect(
            m,
            kbots[k].position,
            x0,
            y0,
            x1,
            y1,
            w,
            h,
        )),
{
}

/// A unit that projects to `z <= 0` (behind the camera) is never
/// selected, whatever its other clip coordinates and whatever the
/// rectangle.
pub proof fn lemma_behind_camera_excluded(
    m: Mat4,
    kbots: Map<IdValue, KBot>,
    mobiles: Set<IdValue>,
    x0: int,
    y0: int,
    x1: int,
    y1: int,
    w: int,
    h: int,
    k: IdValue,
)
    requires
        kbots.contains_key(k) ==> clip_z(m, kbots[k].position) <= 0,
    ensures
        !selected_spec(m, kbots, mobiles, x0, y0, x1, y1, w, h).contains(k),
{
}

/// The unit ids the local player owns, or the empty set when no local
/// player is assigned or its record is missing.
pub open spec fn my_mobiles(s: State) -> Set<IdValue> {
    match s.my_player_id {
        Some(id) => if s.players@.contains_key(id.value) {
            s.players@[id.value].mobiles@
        } else {
            Set::empty()
        },
        None => Set::empty(),
    }
}

/// Bound on a product from bounds on its factors.
proof fn lemma_mul_bound(a: int, b: int, aa: int, bb: int)
    requires
        -aa <= a <= aa,
        -bb <= b <= bb,
        0 <= aa,
        0 <= bb,
    ensures
        -(aa * bb) <= a * b <= aa * bb,
{
    assert(-(aa * bb) <= a * b <= aa * bb) by (nonlinear_arith)
        requires
            -aa <= a <= aa,
            -bb <= b <= bb,
            0 <= aa,
            0 <= bb,
    ;
}

/// One matrix row applied to the homogeneous point `(p, 1)`.
fn dot4_exec(r: &Vec4, p: &Vec3) -> (c: i128)
    requires
        r.bounded(MAT_LIMIT),
        p.bounded(LIVE_COORD_LIMIT),
    ensures
        c == dot4(*r, *p),
        -CLIP_LIMIT <= c <= CLIP_LIMIT,
{
    proof {
        lemma_mul_bound(r.x as int, p.x as int, MAT_LIMIT as int, LIVE_COORD_LIMIT as int);
        lemma_mul_bound(r.y as int, p.y as int, MAT_LIMIT as int, LIVE_COORD_LIMIT as int);
        lemma_mul_bound(r.z as int, p.z as int, MAT_LIMIT as int, LIVE_COORD_LIMIT as int);
    }
    (r.x as i128) * (p.x as i128) + (r.y as i128) * (p.y as i128) + (r.z as i128) * (p.z as i128)
        + (r.w as i128)
}

impl State {
    /// A completed drag gesture: replace the entire selection with
    /// exactly the units the rectangle selects.  When no local player
    /// is assigned, or its record is missing, no unit is owned and the
    /// selection becomes empty.
    pub fn update_selection_from_drag(
        &mut self,
        view_proj: &Mat4,
        width: u32,
        height: u32,
        x0: u32,
        y0: u32,
        x1: u32,
        y1: u32,
    )
        requires
            old(self).wf(),
            view_proj.bounded(MAT_LIMIT),
            1 <= width <= PIXEL_LIMIT,
            1 <= height <= PIXEL_LIMIT,
            x0 <= PIXEL_LIMIT,
            y0 <= PIXEL_LIMIT,
            x1 <= PIXEL_LIMIT,
            y1 <= PIXEL_LIMIT,
        ensures
            final(self).selected@ == selected_spec(
                *view_proj,
                old(self).kbots@,
                my_mobiles(*old(self)),
                x0 as int,
                y0 as int,
                x1 as int,
                y1 as int,
                width as int,
                height as int,
            ),
            final(self).frame_zero == old(self).frame_zero,
            final(self).frame_minus_one == old(self).frame_minus_one,
            final(self).kbots == old(self).kbots,
            final(self).kinematic_projectiles == old(self).kinematic_projectiles,
            final(self).players == old(self).players,
            final(self).my_player_id == old(self).my_player_id,
            final(self).server_time_micros == old(self).server_time_micros,
            final(self).fps == old(self).fps,
            final(self).wf(),
    {
        let ghost vp = *view_proj;
        let ghost gx0 = x0 as int;
        let ghost gy0 = y0 as int;
        let ghost gx1 = x1 as int;
        let ghost gy1 = y1 as int;
        let ghost gw = width as int;
        let ghost gh = height as int;
        let mut sel = IdSet::new();
        let has_player = match self.my_player_id {
            Some(id) => self.players.contains_key(id.value),
            None => false,
        };
        if !has_player {
            proof {
                assert(sel@ =~= selected_spec(
                    vp,
                    self.kbots@,
                    my_mobiles(*self),
                    gx0,
                    gy0,
                    gx1,
                    gy1,
                    gw,
                    gh,
                ));
            }
        } else {
            let id = match self.my_player_id {
                Some(id) => id,
                None => Id::new(0),
            };
            let me = self.players.get(id.value).unwrap();
            let ghost mob = me.mobiles@;
            proof {
                assert(mob == my_mobiles(*self));
            }
            let n = self.kbots.num_entries();
            let ghost kv = self.kbots.kv_seq();
            proof {
                self.kbots.lemma_view_is_map_of_kv_seq();
            }
            let mut i: usize = 0;
            while i < n
                invariant
                    self.wf(),
                    view_proj.bounded(MAT_LIMIT),
                    vp == *view_proj,
                    1 <= width <= PIXEL_LIMIT,
                    1 <= height <= PIXEL_LIMIT,
                    x0 <= PIXEL_LIMIT,
                    y0 <= PIXEL_LIMIT,
                    x1 <= PIXEL_LIMIT,
                    y1 <= PIXEL_LIMIT,
                    gx0 == x0 as int,
                    gy0 == y0 as int,
                    gx1 == x1 as int,
                    gy1 == y1 as int,
                    gw == width as int,
                    gh == height as int,
                    n == kv.len(),
                    i <= n,
                    kv == self.kbots.kv_seq(),
                    self.kbots@ == map_of(kv),
                    mob == me.mobiles@,
                    forall|kk: IdValue|
                        #[trigger] sel@.contains(kk) <==> (map_of(
                            kv.take(i as int),
                        ).contains_key(kk) && mob.contains(kk) && visible(
                            vp,
                            self.kbots@[kk].position,
                        ) && in_rect(
                            vp,
                            self.kbots@[kk].position,
                            gx0,
                            gy0,
                            gx1,
                            gy1,
                            gw,
                            gh,
                        )),
                decreases n - i,
            {
                let k = self.kbots.entry_at(i).0;
                proof {
                    lemma_map_of_last(kv, k);
                    assert(kv[i as int].0 == k);
                }
                let kb = *self.kbots.get(k).unwrap();
                let mut hit = false;
                if me.mobiles.contains(k) {
                    let cx = dot4_exec(&view_proj.r0, &kb.position);
                    let cy = dot4_exec(&view_proj.r1, &kb.position);
                    let cz = dot4_exec(&view_proj.r2, &kb.position);
                    let cw = dot4_exec(&view_proj.r3, &kb.position);
                    if cz > 0 && cx < cw && cx > -cw && cy < cw && cy > -cw {
                        let wi = width as i128;
                        let hi = height as i128;
                        let mnx = 2 * (if x0 < x1 {
                            x0
                        } else {
                            x1
                        }) as i128 - wi;
                        let mxx = 2 * (if x0 < x1 {
                            x1
                        } else {
                            x0
                        }) as i128 - wi;
                        let mny = 2 * (if y0 < y1 {
                            y0
                        } else {
                            y1
                        }) as i128 - hi;
                        let mxy = 2 * (if y0 < y1 {
                            y1
                        } else {
                            y0
                        }) as i128 - hi;
                        proof {
                            let pb: int = 3 * (PIXEL_LIMIT as int);
                            lemma_mul_bound(cx as int, wi as int, CLIP_LIMIT as int, pb);
                            lemma_mul_bound(cy as int, hi as int, CLIP_LIMIT as int, pb);
                            lemma_mul_bound(mnx as int, cw as int, pb, CLIP_LIMIT as int);
                            lemma_mul_bound(mxx as int, cw as int, pb, CLIP_LIMIT as int);
                            lemma_mul_bound(mny as int, cw as int, pb, CLIP_LIMIT as int);
                            lemma_mul_bound(mxy as int, cw as int, pb, CLIP_LIMIT as int);
                        }
                        if cx * wi > mnx * cw && cx * wi < mxx * cw && cy * hi > mny * cw && cy * hi
                            < mxy * cw {
                            hit = true;
                        }
                    }
                }
                proof {
                    assert(hit == (mob.contains(k) && visible(vp, self.kbots@[k].position)
                        && in_rect(vp, self.kbots@[k].position, gx0, gy0, gx1, gy1, gw, gh)));
                }
                if hit {
                    sel.insert(k);
                }
                i = i + 1;
                proof {
                    assert(kv.take(i as int).drop_last() =~= kv.take(i - 1));
                }
            }
            proof {
                assert(kv.take(n as int) =~= kv);
                assert(sel@ =~= selected_spec(
                    vp,
                    self.kbots@,
                    my_mobiles(*self),
                    gx0,
                    gy0,
                    gx1,
                    gy1,
                    gw,
                    gh,
                ));
            }
        }
        self.selected = sel;
    }

    /// A plain release-click with no drag extent: clear the selection
    /// unconditionally.
    pub fn clear_selection(&mut self)
        ensures
            final(self).selected@ == Set::<IdValue>::empty(),
            final(self).frame_zero == old(self).frame_zero,
            final(self).frame_minus_one == old(self).frame_minus_one,
            final(self).kbots == old(self).kbots,
            final(self).kinematic_projectiles == old(self).kinematic_projectiles,
            final(self).players == old(self).players,
            final(self).my_player_id == old(self).my_player_id,
            final(self).server_time_micros == old(self).server_time_micros,
            final(self).fps == old(self).fps,
            old(self).wf() ==> final(self).wf(),
    {
        self.selected.clear();
    }
}

} // verus!
