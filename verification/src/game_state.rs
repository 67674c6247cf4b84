//! The session state: the two-frame snapshot store, the interpolated
//! live state, and the selection set.
//!
//! [`State`] owns the two most recent frames, the instant the newest
//! one arrived, and the display-ready ("live") entity collections that
//! [`State::interpolate`] rebuilds every display tick by blending the
//! two frames.  The selection set persists across ticks and is pruned
//! whenever an arriving frame reports a selected unit dead.

use vstd::prelude::*;
use crate::blend::{
    blend, blend_round, server_time, LIVE_COORD_LIMIT, MAX_ELAPSED_MICROS, STEP_MICROS,
};
use crate::collections::{map_of, IdMap, IdSet};
use crate::collections::lemma_map_of_last;
use crate::frame::{Frame, KBot, KinematicProjectile, Player, Vec3};
use crate::utils::{instant_now, micros_since, Id, IdValue};

verus! {

/// The blend of two scalar snapshot values at elapsed time `e`,
/// as the library computes it.
pub open spec fn blend_i64(a: i64, b: i64, e: int) -> i64 {
    blend_round(a as int, b as int, e) as i64
}

/// The componentwise blend of two positions or directions.
pub open spec fn blend_vec3(a: Vec3, b: Vec3, e: int) -> Vec3 {
    Vec3 { x: blend_i64(a.x, b.x, e), y: blend_i64(a.y, b.y, e), z: blend_i64(a.z, b.z, e) }
}

/// The interpolated mobile unit: position, direction and life are
/// blended; every other field copies from the newest record.
pub open spec fn interp_kbot(k0: KBot, km: KBot, e: int) -> KBot {
    KBot {
        id: k0.id,
        position: blend_vec3(k0.position, km.position, e),
        dir: blend_vec3(k0.dir, km.dir, e),
        life: blend_i64(k0.life, km.life, e),
    }
}

/// The live record for unit `k`: blended when the older frame has
/// history for it, the newest record unchanged when it does not.
pub open spec fn live_kbot(
    fz: Map<IdValue, KBot>,
    fm: Map<IdValue, KBot>,
    e: int,
    k: IdValue,
) -> KBot {
    if fm.contains_key(k) {
        interp_kbot(fz[k], fm[k], e)
    } else {
        fz[k]
    }
}

/// The live record for projectile `k`: when the older frame has
/// history, the blend of the two current positions is prepended to a
/// copy of the newest history; otherwise the newest record unchanged.
pub open spec fn is_live_projectile(
    fz: Map<IdValue, KinematicProjectile>,
    fm: Map<IdValue, KinematicProjectile>,
    e: int,
    k: IdValue,
    out: KinematicProjectile,
) -> bool {
    &&& out.id == fz[k].id
    &&& if fm.contains_key(k) {
        out.positions@ == seq![blend_vec3(fz[k].positions@[0], fm[k].positions@[0], e)]
            + fz[k].positions@
    } else {
        out.positions@ == fz[k].positions@
    }
}

/// Two player records that agree on everything observable: same id,
/// same team, same set of owned unit ids.
pub open spec fn player_eq(a: Player, b: Player) -> bool {
    &&& a.id == b.id
    &&& a.team == b.team
    &&& a.mobiles@ == b.mobiles@
}

/// What accepting the frame `f` leaves behind: the incoming frame in
/// the newest slot, the previously newest frame demoted to the old
/// slot (the previous old frame is discarded entirely), the selection
/// pruned by the incoming dead-set, and everything else untouched.
/// The receipt timestamp is rewritten to the instant of the call, a
/// clock reading of which nothing can be stated.
pub open spec fn frame_step(pre: State, f: Frame, post: State) -> bool {
    &&& post.frame_zero == f
    &&& post.frame_minus_one == pre.frame_zero
    &&& post.selected@ == pre.selected@.difference(f.kbots_dead@)
    &&& post.kbots == pre.kbots
    &&& post.kinematic_projectiles == pre.kinematic_projectiles
    &&& post.players == pre.players
    &&& post.my_player_id == pre.my_player_id
    &&& post.server_time_micros == pre.server_time_micros
    &&& post.start_time == pre.start_time
    &&& post.last_frame == pre.last_frame
    &&& post.fps == pre.fps
}

/// The whole mutable session state.
pub struct State {
    pub frame_minus_one: Frame,
    pub frame_zero: Frame,
    pub frame_zero_time_received: std::time::Instant,
    pub kbots: IdMap<KBot>,
    pub kinematic_projectiles: IdMap<KinematicProjectile>,
    pub server_time_micros: i64,
    pub selected: IdSet,
    pub my_player_id: Option<Id<Player>>,
    pub players: IdMap<Player>,
    pub start_time: std::time::Instant,
    pub last_frame: std::time::Instant,
    pub fps: u64,
}

/// What one interpolation tick at elapsed time `e` leaves behind:
/// live collections rebuilt from the snapshot store, players copied
/// verbatim from the newest frame, the displayed server time blended
/// from the two sequence numbers, and everything else untouched.
pub open spec fn interp_rel(pre: State, post: State, e: int) -> bool {
    &&& post.kbots@.dom() == pre.frame_zero.kbots@.dom()
    &&& forall|k: IdValue|
        #[trigger] pre.frame_zero.kbots@.contains_key(k) ==> post.kbots@[k] == live_kbot(
            pre.frame_zero.kbots@,
            pre.frame_minus_one.kbots@,
            e,
            k,
        )
    &&& post.kinematic_projectiles@.dom() == pre.frame_zero.kinematic_projectiles@.dom()
    &&& forall|k: IdValue|
        #[trigger] pre.frame_zero.kinematic_projectiles@.contains_key(k) ==> is_live_projectile(
            pre.frame_zero.kinematic_projectiles@,
            pre.frame_minus_one.kinematic_projectiles@,
            e,
            k,
            post.kinematic_projectiles@[k],
        )
    &&& post.server_time_micros == (pre.frame_zero.number as int) * e + (
    pre.frame_minus_one.number as int) * ((STEP_MICROS as int) - e)
    &&& post.players@.dom() == pre.frame_zero.players@.dom()
    &&& forall|k: IdValue|
        #[trigger] pre.frame_zero.players@.contains_key(k) ==> player_eq(
            post.players@[k],
            pre.frame_zero.players@[k],
        )
    &&& post.frame_zero == pre.frame_zero
    &&& post.frame_minus_one == pre.frame_minus_one
    &&& post.frame_zero_time_received == pre.frame_zero_time_received
    &&& post.selected == pre.selected
    &&& post.my_player_id == pre.my_player_id
    &&& post.start_time == pre.start_time
    &&& post.last_frame == pre.last_frame
    &&& post.fps == pre.fps
}

impl State {
    /// Both stored frames are well-formed and every live unit stays
    /// within the bounds the blend guarantees.
    pub open spec fn wf(&self) -> bool {
        &&& self.frame_minus_one.wf()
        &&& self.frame_zero.wf()
        &&& forall|i: int|
            0 <= i < self.kbots.kv_seq().len() ==> (#[trigger] self.kbots.kv_seq()[i]).1.bounded(
                LIVE_COORD_LIMIT,
            )
        &&& forall|k: IdValue|
            self.kbots@.contains_key(k) ==> (#[trigger] self.kbots@[k]).bounded(LIVE_COORD_LIMIT)
    }

    /// A fresh session: two empty frames, empty live state, nothing
    /// selected, no player assigned yet.
    pub fn new() -> (r: Self)
        ensures
            r.frame_zero.number == 0,
            r.frame_zero.kbots@ == Map::<IdValue, KBot>::empty(),
            r.frame_zero.kinematic_projectiles@ == Map::<IdValue, KinematicProjectile>::empty(),
            r.frame_zero.players@ == Map::<IdValue, Player>::empty(),
            r.frame_zero.kbots_dead@ == Set::<IdValue>::empty(),
            r.frame_minus_one.number == 0,
            r.frame_minus_one.kbots@ == Map::<IdValue, KBot>::empty(),
            r.frame_minus_one.kinematic_projectiles@ == Map::<
                IdValue,
                KinematicProjectile,
            >::empty(),
            r.frame_minus_one.players@ == Map::<IdValue, Player>::empty(),
            r.frame_minus_one.kbots_dead@ == Set::<IdValue>::empty(),
            r.kbots@ == Map::<IdValue, KBot>::empty(),
            r.kinematic_projectiles@ == Map::<IdValue, KinematicProjectile>::empty(),
            r.players@ == Map::<IdValue, Player>::empty(),
            r.selected@ == Set::<IdValue>::empty(),
            r.my_player_id is None,
            r.server_time_micros == 0,
            r.fps == 144,
            r.wf(),
    {
        State {
            frame_minus_one: Frame::new(),
            frame_zero: Frame::new(),
            frame_zero_time_received: instant_now(),
            kbots: IdMap::new(),
            kinematic_projectiles: IdMap::new(),
            server_time_micros: 0,
            selected: IdSet::new(),
            my_player_id: None,
            players: IdMap::new(),
            start_time: instant_now(),
            last_frame: instant_now(),
            fps: 144,
        }
    }

    /// Accept a snapshot: record the instant of receipt, demote the
    /// current newest frame to the old slot (discarding the previous
    /// old frame entirely), install the incoming frame as the newest,
    /// and prune from the selection every id the incoming frame
    /// reports dead.  A frame is always accepted as-is.
    pub fn handle_new_frame(&mut self, frame: Frame)
        requires
            old(self).wf(),
            frame.wf(),
        ensures
            frame_step(*old(self), frame, *final(self)),
            final(self).wf(),
    {
        self.frame_zero_time_received = instant_now();
        let mut f = frame;
        core::mem::swap(&mut self.frame_zero, &mut f);
        self.frame_minus_one = f;
        self.selected.remove_all(&self.frame_zero.kbots_dead);
    }

    /// Rebuild the live state for a display tick that runs
    /// `elapsed_micros` after the newest frame arrived.  Every entity
    /// of the newest frame is blended with its record in the older
    /// frame when one exists and passed through unchanged when none
    /// does; entities absent from the newest frame are dropped; the
    /// player mapping is copied verbatim from the newest frame.
    #[verifier::rlimit(60)]
    pub fn interpolate_at(&mut self, elapsed_micros: u64)
        requires
            old(self).wf(),
            elapsed_micros <= MAX_ELAPSED_MICROS,
        ensures
            interp_rel(*old(self), *final(self), elapsed_micros as int),
            final(self).wf(),
    {
        let ghost fz0 = self.frame_zero;
        let ghost fm0 = self.frame_minus_one;
        let ghost e = elapsed_micros as int;

        self.server_time_micros = server_time(
            self.frame_zero.number,
            self.frame_minus_one.number,
            elapsed_micros,
        );

        // Mobile units.
        let ghost kv = fz0.kbots.kv_seq();
        proof {
            fz0.kbots.lemma_view_is_map_of_kv_seq();
        }
        self.kbots.clear();
        let n = self.frame_zero.kbots.num_entries();
        let mut i: usize = 0;
        while i < n
            invariant
                self.frame_zero == fz0,
                self.frame_minus_one == fm0,
                fz0.wf(),
                fm0.wf(),
                self.kinematic_projectiles == old(self).kinematic_projectiles,
                self.selected == old(self).selected,
                self.players == old(self).players,
                self.my_player_id == old(self).my_player_id,
                self.fps == old(self).fps,
                self.frame_zero_time_received == old(self).frame_zero_time_received,
                self.start_time == old(self).start_time,
                self.last_frame == old(self).last_frame,
                self.server_time_micros == (fz0.number as int) * e + (fm0.number as int) * ((
                STEP_MICROS as int) - e),
                elapsed_micros <= MAX_ELAPSED_MICROS,
                e == elapsed_micros as int,
                kv == fz0.kbots.kv_seq(),
                fz0.kbots@ == map_of(kv),
                n == kv.len(),
                i <= n,
                self.kbots@.dom() == map_of(kv.take(i as int)).dom(),
                forall|k: IdValue|
                    #[trigger] self.kbots@.contains_key(k) ==> self.kbots@[k] == live_kbot(
                        fz0.kbots@,
                        fm0.kbots@,
                        e,
                        k,
                    ),
                forall|j: int|
                    0 <= j < self.kbots.kv_seq().len() ==> (
                    #[trigger] self.kbots.kv_seq()[j]).1.bounded(LIVE_COORD_LIMIT),
                forall|k: IdValue|
                    self.kbots@.contains_key(k) ==> (#[trigger] self.kbots@[k]).bounded(
                        LIVE_COORD_LIMIT,
                    ),
            decreases n - i,
        {
            let k = self.frame_zero.kbots.entry_at(i).0;
            proof {
                lemma_map_of_last(kv, k);
                assert(kv[i as int].0 == k);
            }
            let kb0 = *self.frame_zero.kbots.get(k).unwrap();
            let to_insert = match self.frame_minus_one.kbots.get(k) {
                Some(kbm_ref) => {
                    let kbm = *kbm_ref;
                    let b = KBot {
                        id: kb0.id,
                        position: Vec3::new(
                            blend(kb0.position.x, kbm.position.x, elapsed_micros),
                            blend(kb0.position.y, kbm.position.y, elapsed_micros),
                            blend(kb0.position.z, kbm.position.z, elapsed_micros),
                        ),
                        dir: Vec3::new(
                            blend(kb0.dir.x, kbm.dir.x, elapsed_micros),
                            blend(kb0.dir.y, kbm.dir.y, elapsed_micros),
                            blend(kb0.dir.z, kbm.dir.z, elapsed_micros),
                        ),
                        life: blend(kb0.life, kbm.life, elapsed_micros),
                    };
                    proof {
                        assert(b == interp_kbot(kb0, kbm, e));
                    }
                    b
                },
                None => kb0,
            };
            proof {
                assert(to_insert == live_kbot(fz0.kbots@, fm0.kbots@, e, k));
                assert(kv.take(i + 1).drop_last() =~= kv.take(i as int));
            }
            self.kbots.insert(k, to_insert);
            i = i + 1;
            proof {
                assert(self.kbots@.dom() =~= map_of(kv.take(i as int)).dom());
            }
        }
        proof {
            assert(kv.take(n as int) =~= kv);
        }

        // Projectiles.
        let ghost pv = fz0.kinematic_projectiles.kv_seq();
        proof {
            fz0.kinematic_projectiles.lemma_view_is_map_of_kv_seq();
        }
        self.kinematic_projectiles.clear();
        let np = self.frame_zero.kinematic_projectiles.num_entries();
        let mut i: usize = 0;
        while i < np
            invariant
                self.frame_zero == fz0,
                self.frame_minus_one == fm0,
                fz0.wf(),
                fm0.wf(),
                self.selected == old(self).selected,
                self.players == old(self).players,
                self.my_player_id == old(self).my_player_id,
                self.fps == old(self).fps,
                self.frame_zero_time_received == old(self).frame_zero_time_received,
                self.start_time == old(self).start_time,
                self.last_frame == old(self).last_frame,
                self.server_time_micros == (fz0.number as int) * e + (fm0.number as int) * ((
                STEP_MICROS as int) - e),
                elapsed_micros <= MAX_ELAPSED_MICROS,
                e == elapsed_micros as int,
                pv == fz0.kinematic_projectiles.kv_seq(),
                fz0.kinematic_projectiles@ == map_of(pv),
                np == pv.len(),
                i <= np,
                self.kbots@.dom() == fz0.kbots@.dom(),
                forall|k: IdValue|
                    #[trigger] self.kbots@.contains_key(k) ==> self.kbots@[k] == live_kbot(
                        fz0.kbots@,
                        fm0.kbots@,
                        e,
                        k,
                    ),
                forall|j: int|
                    0 <= j < self.kbots.kv_seq().len() ==> (
                    #[trigger] self.kbots.kv_seq()[j]).1.bounded(LIVE_COORD_LIMIT),
                forall|k: IdValue|
                    self.kbots@.contains_key(k) ==> (#[trigger] self.kbots@[k]).bounded(
                        LIVE_COORD_LIMIT,
                    ),
                self.kinematic_projectiles@.dom() == map_of(pv.take(i as int)).dom(),
                forall|k: IdValue|
                    #[trigger] self.kinematic_projectiles@.contains_key(k) ==> is_live_projectile(
                        fz0.kinematic_projectiles@,
                        fm0.kinematic_projectiles@,
                        e,
                        k,
                        self.kinematic_projectiles@[k],
                    ),
            decreases np - i,
        {
            let k = self.frame_zero.kinematic_projectiles.entry_at(i).0;
            proof {
                lemma_map_of_last(pv, k);
                assert(pv[i as int].0 == k);
            }
            let p0 = self.frame_zero.kinematic_projectiles.get(k).unwrap();
            let to_insert = match self.frame_minus_one.kinematic_projectiles.get(k) {
                Some(pm) => {
                    let p0_first = p0.positions[0];
                    let pm_first = pm.positions[0];
                    let blended = Vec3::new(
                        blend(p0_first.x, pm_first.x, elapsed_micros),
                        blend(p0_first.y, pm_first.y, elapsed_micros),
                        blend(p0_first.z, pm_first.z, elapsed_micros),
                    );
                    let m = p0.positions.len();
                    let mut positions: Vec<Vec3> = Vec::new();
                    positions.push(blended);
                    let mut j: usize = 0;
                    while j < m
                        invariant
                            m == p0.positions@.len(),
                            j <= m,
                            positions@ == seq![blended] + p0.positions@.take(j as int),
                        decreases m - j,
                    {
                        let q = p0.positions[j];
                        positions.push(q);
                        j = j + 1;
                        proof {
                            assert(positions@ =~= seq![blended] + p0.positions@.take(j as int));
                        }
                    }
                    proof {
                        assert(p0.positions@.take(m as int) =~= p0.positions@);
                    }
                    KinematicProjectile { id: p0.id, positions }
                },
                None => {
                    let m = p0.positions.len();
                    let mut positions: Vec<Vec3> = Vec::new();
                    let mut j: usize = 0;
                    while j < m
                        invariant
                            m == p0.positions@.len(),
                            j <= m,
                            positions@ == p0.positions@.take(j as int),
                        decreases m - j,
                    {
                        let q = p0.positions[j];
                        positions.push(q);
                        j = j + 1;
                        proof {
                            assert(positions@ =~= p0.positions@.take(j as int));
                        }
                    }
                    proof {
                        assert(p0.positions@.take(m as int) =~= p0.positions@);
                    }
                    KinematicProjectile { id: p0.id, positions }
                },
            };
            proof {
                assert(is_live_projectile(
                    fz0.kinematic_projectiles@,
                    fm0.kinematic_projectiles@,
                    e,
                    k,
                    to_insert,
                ));
                assert(pv.take(i + 1).drop_last() =~= pv.take(i as int));
            }
            self.kinematic_projectiles.insert(k, to_insert);
            i = i + 1;
            proof {
                assert(self.kinematic_projectiles@.dom() =~= map_of(pv.take(i as int)).dom());
            }
        }
        proof {
            assert(pv.take(np as int) =~= pv);
        }

        // Players, copied verbatim from the newest frame.
        let ghost lv = fz0.players.kv_seq();
        proof {
            fz0.players.lemma_view_is_map_of_kv_seq();
        }
        self.players.clear();
        let nl = self.frame_zero.players.num_entries();
        let mut i: usize = 0;
        while i < nl
            invariant
                self.frame_zero == fz0,
                self.frame_minus_one == fm0,
                fz0.wf(),
                fm0.wf(),
                self.selected == old(self).selected,
                self.my_player_id == old(self).my_player_id,
                self.fps == old(self).fps,
                self.frame_zero_time_received == old(self).frame_zero_time_received,
                self.start_time == old(self).start_time,
                self.last_frame == old(self).last_frame,
                self.server_time_micros == (fz0.number as int) * e + (fm0.number as int) * ((
                STEP_MICROS as int) - e),
                e == elapsed_micros as int,
                lv == fz0.players.kv_seq(),
                fz0.players@ == map_of(lv),
                nl == lv.len(),
                i <= nl,
                self.kbots@.dom() == fz0.kbots@.dom(),
                forall|k: IdValue|
                    #[trigger] self.kbots@.contains_key(k) ==> self.kbots@[k] == live_kbot(
                        fz0.kbots@,
                        fm0.kbots@,
                        e,
                        k,
                    ),
                forall|j: int|
                    0 <= j < self.kbots.kv_seq().len() ==> (
                    #[trigger] self.kbots.kv_seq()[j]).1.bounded(LIVE_COORD_LIMIT),
                forall|k: IdValue|
                    self.kbots@.contains_key(k) ==> (#[trigger] self.kbots@[k]).bounded(
                        LIVE_COORD_LIMIT,
                    ),
                self.kinematic_projectiles@.dom() == fz0.kinematic_projectiles@.dom(),
                forall|k: IdValue|
                    #[trigger] self.kinematic_projectiles@.contains_key(k) ==> is_live_projectile(
                        fz0.kinematic_projectiles@,
                        fm0.kinematic_projectiles@,
                        e,
                        k,
                        self.kinematic_projectiles@[k],
                    ),
                self.players@.dom() == map_of(lv.take(i as int)).dom(),
                forall|k: IdValue|
                    #[trigger] self.players@.contains_key(k) ==> player_eq(
                        self.players@[k],
                        fz0.players@[k],
                    ),
            decreases nl - i,
        {
            let k = self.frame_zero.players.entry_at(i).0;
            proof {
                lemma_map_of_last(lv, k);
                assert(lv[i as int].0 == k);
            }
            let p = self.frame_zero.players.get(k).unwrap();
            let np2 = Player { id: p.id, team: p.team, mobiles: p.mobiles.duplicate() };
            proof {
                assert(player_eq(np2, *p));
                assert(lv.take(i + 1).drop_last() =~= lv.take(i as int));
            }
            self.players.insert(k, np2);
            i = i + 1;
            proof {
                assert(self.players@.dom() =~= map_of(lv.take(i as int)).dom());
            }
        }
        proof {
            assert(lv.take(nl as int) =~= lv);
            assert(self.players@.dom() =~= fz0.players@.dom());
        }
    }

    /// Rebuild the live state for the current display tick, from the
    /// clock: the elapsed time is whatever the host clock reports
    /// since the newest frame arrived (capped at the largest elapsed
    /// time the blend accepts), so the postcondition holds for some
    /// such elapsed time rather than a caller-chosen one.
    pub fn interpolate(&mut self)
        requires
            old(self).wf(),
        ensures
            exists|e: int|
                0 <= e <= MAX_ELAPSED_MICROS && #[trigger] interp_rel(*old(self), *final(self), e),
            final(self).wf(),
    {
        let raw = micros_since(&self.frame_zero_time_received);
        let elapsed = if raw > MAX_ELAPSED_MICROS {
            MAX_ELAPSED_MICROS
        } else {
            raw
        };
        self.interpolate_at(elapsed);
        proof {
            assert(0 <= elapsed as int <= MAX_ELAPSED_MICROS && interp_rel(
                *old(self),
                *self,
                elapsed as int,
            ));
        }
    }

    /// Insert or replace a player record under its key: the facade's
    /// mutation access to the player mapping (a mutable borrow of a
    /// stored record cannot be returned here).
    pub fn set_player(&mut self, k: IdValue, p: Player)
        ensures
            final(self).players@ == old(self).players@.insert(k, p),
            final(self).frame_zero == old(self).frame_zero,
            final(self).frame_minus_one == old(self).frame_minus_one,
            final(self).frame_zero_time_received == old(self).frame_zero_time_received,
            final(self).kbots == old(self).kbots,
            final(self).kinematic_projectiles == old(self).kinematic_projectiles,
            final(self).selected == old(self).selected,
            final(self).my_player_id == old(self).my_player_id,
            final(self).server_time_micros == old(self).server_time_micros,
            final(self).start_time == old(self).start_time,
            final(self).last_frame == old(self).last_frame,
            final(self).fps == old(self).fps,
            old(self).wf() ==> final(self).wf(),
    {
        self.players.insert(k, p);
    }

    /// The team of a player that owns the unit, or `None` when no
    /// player claims it.  A unit on screen with no owning player is a
    /// desynchronized snapshot: callers should fail the tick on
    /// `None`, not substitute a default.
    pub fn owner_team(&self, id: IdValue) -> (r: Option<u8>)
        ensures
            match r {
                Some(t) => exists|k: IdValue|
                    #[trigger] self.players@.contains_key(k) && self.players@[k].mobiles@.contains(
                        id,
                    ) && self.players@[k].team == t,
                None => forall|k: IdValue|
                    #[trigger] self.players@.contains_key(k) ==> !self.players@[k].mobiles@.contains(
                        id,
                    ),
            },
    {
        let ghost lv = self.players.kv_seq();
        proof {
            self.players.lemma_view_is_map_of_kv_seq();
        }
        let n = self.players.num_entries();
        let mut i: usize = 0;
        while i < n
            invariant
                n == lv.len(),
                i <= n,
                lv == self.players.kv_seq(),
                self.players@ == map_of(lv),
                forall|k: IdValue|
                    #[trigger] map_of(lv.take(i as int)).contains_key(k)
                        ==> !self.players@[k].mobiles@.contains(id),
            decreases n - i,
        {
            let k = self.players.entry_at(i).0;
            proof {
                lemma_map_of_last(lv, k);
                assert(lv[i as int].0 == k);
            }
            let p = self.players.get(k).unwrap();
            if p.mobiles.contains(id) {
                proof {
                    assert(self.players@.contains_key(k) && self.players@[k].mobiles@.contains(id)
                        && self.players@[k].team == p.team);
                }
                return Some(p.team);
            }
            i = i + 1;
            proof {
                assert(lv.take(i as int).drop_last() =~= lv.take(i - 1));
                assert(lv.take(i as int).last() == lv[i - 1]);
                assert forall|kk: IdValue| #[trigger] map_of(lv.take(i as int)).contains_key(kk)
                    implies !self.players@[kk].mobiles@.contains(id) by {
                    if kk != k {
                        assert(map_of(lv.take(i - 1)).contains_key(kk));
                    }
                };
            }
        }
        proof {
            assert(lv.take(n as int) =~= lv);
        }
        None
    }

    /// The local player's record, when one is assigned and present.
    pub fn my_player(&self) -> (r: Option<&Player>)
        ensures
            match self.my_player_id {
                Some(id) => match r {
                    Some(p) => self.players@.contains_key(id.value) && *p == self.players@[id.value],
                    None => !self.players@.contains_key(id.value),
                },
                None => r is None,
            },
    {
        match self.my_player_id {
            Some(id) => self.players.get(id.value),
            None => None,
        }
    }
}

/// Two-frame ring: after a first and a second frame arrive, the
/// newest slot holds the second and the old slot the first; a third
/// arrival evicts the first frame entirely — neither slot refers to it
/// any more.
pub proof fn lemma_two_frame_ring(
    s0: State,
    f1: Frame,
    s1: State,
    f2: Frame,
    s2: State,
    f3: Frame,
    s3: State,
)
    requires
        frame_step(s0, f1, s1),
        frame_step(s1, f2, s2),
        frame_step(s2, f3, s3),
    ensures
        s2.frame_zero == f2,
        s2.frame_minus_one == f1,
        s3.frame_zero == f3,
        s3.frame_minus_one == f2,
{
}

/// Selection pruning: an id the incoming frame reports dead is absent
/// from the selection as soon as the frame is accepted, before any
/// interpolation tick runs.
pub proof fn lemma_selection_pruning(pre: State, f: Frame, post: State, k: IdValue)
    requires
        frame_step(pre, f, post),
        f.kbots_dead@.contains(k),
    ensures
        !post.selected@.contains(k),
{
}

/// Interpolation identity at zero elapsed time: immediately after a
/// frame arrives, a tick at elapsed time zero gives every unit present
/// in both frames exactly the older frame's position, direction and
/// life (the new frame's weight is zero), with the rest of the record
/// taken from the newest frame.
pub proof fn lemma_interp_identity_at_zero(pre: State, post: State, k: IdValue)
    requires
        interp_rel(pre, post, 0),
        pre.frame_zero.kbots@.contains_key(k),
        pre.frame_minus_one.kbots@.contains_key(k),
    ensures
        post.kbots@[k].position == pre.frame_minus_one.kbots@[k].position,
        post.kbots@[k].dir == pre.frame_minus_one.kbots@[k].dir,
        post.kbots@[k].life == pre.frame_minus_one.kbots@[k].life,
        post.kbots@[k].id == pre.frame_zero.kbots@[k].id,
{
    let k0 = pre.frame_zero.kbots@[k];
    let km = pre.frame_minus_one.kbots@[k];
    crate::blend::lemma_blend_at_zero(k0.position.x as int, km.position.x as int);
    crate::blend::lemma_blend_at_zero(k0.position.y as int, km.position.y as int);
    crate::blend::lemma_blend_at_zero(k0.position.z as int, km.position.z as int);
    crate::blend::lemma_blend_at_zero(k0.dir.x as int, km.dir.x as int);
    crate::blend::lemma_blend_at_zero(k0.dir.y as int, km.dir.y as int);
    crate::blend::lemma_blend_at_zero(k0.dir.z as int, km.dir.z as int);
    crate::blend::lemma_blend_at_zero(k0.life as int, km.life as int);
    assert(post.kbots@[k] == interp_kbot(k0, km, 0));
}

/// No-history passthrough: a unit present only in the newest frame is
/// displayed exactly as that frame reports it.
pub proof fn lemma_no_history_passthrough(pre: State, post: State, e: int, k: IdValue)
    requires
        interp_rel(pre, post, e),
        pre.frame_zero.kbots@.contains_key(k),
        !pre.frame_minus_one.kbots@.contains_key(k),
    ensures
        post.kbots@[k] == pre.frame_zero.kbots@[k],
{
}

/// Projectile history growth: a projectile with history in both
/// frames gains exactly one position per tick — the blended sample in
/// front, the newest frame's whole history unchanged behind it.
pub proof fn lemma_projectile_history_growth(pre: State, post: State, e: int, k: IdValue)
    requires
        interp_rel(pre, post, e),
        pre.frame_zero.kinematic_projectiles@.contains_key(k),
        pre.frame_minus_one.kinematic_projectiles@.contains_key(k),
    ensures
        post.kinematic_projectiles@[k].positions@.len() == pre.frame_zero.kinematic_projectiles@[
            k
        ].positions@.len() + 1,
        post.kinematic_projectiles@[k].positions@[0] == blend_vec3(
            pre.frame_zero.kinematic_projectiles@[k].positions@[0],
            pre.frame_minus_one.kinematic_projectiles@[k].positions@[0],
            e,
        ),
        post.kinematic_projectiles@[k].positions@.skip(1)
            == pre.frame_zero.kinematic_projectiles@[k].positions@,
{
    let p0 = pre.frame_zero.kinematic_projectiles@[k];
    let pm = pre.frame_minus_one.kinematic_projectiles@[k];
    let b = blend_vec3(p0.positions@[0], pm.positions@[0], e);
    assert(post.kinematic_projectiles@[k].positions@ == seq![b] + p0.positions@);
    assert((seq![b] + p0.positions@).skip(1) =~= p0.positions@);
}

} // verus!
