//! The snapshot data model.
//!
//! A [`Frame`] is an immutable-once-received world snapshot produced
//! by the network layer: a sequence number, the mobile units, the
//! projectiles, the players, and the set of unit ids that died since
//! the previous frame.  Coordinates are fixed-point world units held
//! in plain integers; the conversion from whatever the transport
//! carries is the caller's concern.

use vstd::prelude::*;
use crate::blend::{COORD_LIMIT, NUMBER_LIMIT};
use crate::collections::{IdMap, IdSet};
use crate::utils::IdValue;

verus! {

/// A 3-component vector or point, in fixed-point world units.
#[derive(Clone, Copy, PartialEq, Eq, Structural, Debug)]
pub struct Vec3 {
    pub x: i64,
    pub y: i64,
    pub z: i64,
}

impl Vec3 {
    /// Every component has magnitude at most `l`.
    pub open spec fn bounded(&self, l: i64) -> bool {
        &&& -l <= self.x <= l
        &&& -l <= self.y <= l
        &&& -l <= self.z <= l
    }

    /// Build a vector from its components.
    pub fn new(x: i64, y: i64, z: i64) -> (r: Self)
        ensures
            r == (Vec3 { x, y, z }),
    {
        Vec3 { x, y, z }
    }
}

/// A mobile unit ("KBot"): position, facing direction (not necessarily
/// of unit length) and integer life.  Ownership is recorded by
/// membership in a player's unit-id set, not here.
#[derive(Clone, Copy, PartialEq, Eq, Structural, Debug)]
pub struct KBot {
    pub id: IdValue,
    pub position: Vec3,
    pub dir: Vec3,
    pub life: i64,
}

impl KBot {
    /// Position, direction and life all have magnitude at most `l`.
    pub open spec fn bounded(&self, l: i64) -> bool {
        &&& self.position.bounded(l)
        &&& self.dir.bounded(l)
        &&& -l <= self.life <= l
    }

    /// A well-formed snapshot record stays within the snapshot bounds.
    pub open spec fn wf(&self) -> bool {
        self.bounded(COORD_LIMIT)
    }
}

/// A projectile with its recorded positions, most recent first; a
/// projectile always reports at least one position.
#[derive(Debug)]
pub struct KinematicProjectile {
    pub id: IdValue,
    pub positions: Vec<Vec3>,
}

impl KinematicProjectile {
    /// Non-empty history within the snapshot bounds.
    pub open spec fn wf(&self) -> bool {
        &&& self.positions@.len() >= 1
        &&& forall|i: int|
            0 <= i < self.positions@.len() ==> (#[trigger] self.positions@[i]).bounded(COORD_LIMIT)
    }

    /// The current position: the first recorded one.
    pub fn position(&self) -> (r: Vec3)
        requires
            self.positions@.len() >= 1,
        ensures
            r == self.positions@[0],
    {
        self.positions[0]
    }
}

/// A player: team tag and the set of unit ids the player owns.
#[verifier::ext_equal]
#[derive(Debug)]
pub struct Player {
    pub id: IdValue,
    pub team: u8,
    pub mobiles: IdSet,
}

/// One world snapshot, as received from the server.
pub struct Frame {
    pub number: u64,
    pub kbots: IdMap<KBot>,
    pub kinematic_projectiles: IdMap<KinematicProjectile>,
    pub players: IdMap<Player>,
    pub kbots_dead: IdSet,
}

impl Frame {
    /// A well-formed frame: the sequence number and every record stay
    /// within the snapshot bounds, and every projectile reports at
    /// least one position.  Stated over the stored entries and over
    /// the abstract mappings they describe.
    pub open spec fn wf(&self) -> bool {
        &&& self.number <= NUMBER_LIMIT
        &&& forall|i: int|
            0 <= i < self.kbots.kv_seq().len() ==> (#[trigger] self.kbots.kv_seq()[i]).1.wf()
        &&& forall|k: IdValue|
            self.kbots@.contains_key(k) ==> (#[trigger] self.kbots@[k]).wf()
        &&& forall|i: int|
            0 <= i < self.kinematic_projectiles.kv_seq().len() ==> (
            #[trigger] self.kinematic_projectiles.kv_seq()[i]).1.wf()
        &&& forall|k: IdValue|
            self.kinematic_projectiles@.contains_key(k) ==> (
            #[trigger] self.kinematic_projectiles@[k]).wf()
    }

    /// An empty frame with sequence number zero.
    pub fn new() -> (r: Self)
        ensures
            r.number == 0,
            r.kbots@ == Map::<IdValue, KBot>::empty(),
            r.kinematic_projectiles@ == Map::<IdValue, KinematicProjectile>::empty(),
            r.players@ == Map::<IdValue, Player>::empty(),
            r.kbots_dead@ == Set::<IdValue>::empty(),
            r.wf(),
    {
        Frame {
            number: 0,
            kbots: IdMap::new(),
            kinematic_projectiles: IdMap::new(),
            players: IdMap::new(),
            kbots_dead: IdSet::new(),
        }
    }
}

} // verus!
