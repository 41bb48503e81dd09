//! Stable handles of the simulation's entities.

use vstd::prelude::*;

verus! {

/// The bit that every handle given out by a table carries: the lowest bit of
/// the slot's generation count, which is odd while the slot is occupied.
pub const LIVE_BIT: u64 = 0x1_0000_0000;

/// Whether `raw` has the shape of a handle that a table can have given out.
pub open spec fn well_formed_handle(raw: u64) -> bool {
    raw & LIVE_BIT == LIVE_BIT
}

/// Whether `raw` carries the last generation count that a slot can have.
/// When such a handle is taken back the slot's count begins anew, and the
/// slot gives out again the handles that it gave out before.
pub open spec fn is_last_generation(raw: u64) -> bool {
    raw >> 32 == 0xffff_ffff
}

/// Whether `n` is the number of the keys `keys`, of which there are finitely
/// many.
pub open spec fn is_count_of<K>(n: int, keys: Set<K>) -> bool {
    keys.finite() && keys.len() == n
}

/// Handle of a non-player character.
#[derive(Clone, Copy, Debug, PartialEq, Eq, Hash, Structural)]
pub struct NpcId(pub u64);

/// Handle of a vehicle.
#[derive(Clone, Copy, Debug, PartialEq, Eq, Hash, Structural)]
pub struct VehicleId(pub u64);

/// Handle of a site.
#[derive(Clone, Copy, Debug, PartialEq, Eq, Hash, Structural)]
pub struct SiteId(pub u64);

/// Handle of a faction.
#[derive(Clone, Copy, Debug, PartialEq, Eq, Hash, Structural)]
pub struct FactionId(pub u64);

/// Number of a report.
#[derive(Clone, Copy, Debug, PartialEq, Eq, Hash, Structural)]
pub struct ReportId(pub u64);

/// Identity of a player character.
#[derive(Clone, Copy, Debug, PartialEq, Eq, Hash, Structural)]
pub struct CharacterId(pub i64);

/// Identity of a site of the generated world, to which a simulated site may
/// be linked.
#[derive(Clone, Copy, Debug, PartialEq, Eq, Hash, Structural)]
pub struct WorldSiteId(pub u64);

/// Identity of a track between two sites of the generated world.
#[derive(Clone, Copy, Debug, PartialEq, Eq, Hash, Structural)]
pub struct TrackId(pub u64);

/// Someone who can act, feel and be felt about: a player character or a
/// non-player character.
#[derive(Clone, Copy, Debug, PartialEq, Eq, Hash, Structural)]
pub enum Actor {
    Character(CharacterId),
    Npc(NpcId),
}

impl NpcId {
    /// Whether a table can have given this handle out.
    pub fn is_well_formed(&self) -> (b: bool)
        ensures
            b == well_formed_handle(self.0),
    {
        self.0 & LIVE_BIT == LIVE_BIT
    }
}

impl VehicleId {
    /// Whether a table can have given this handle out.
    pub fn is_well_formed(&self) -> (b: bool)
        ensures
            b == well_formed_handle(self.0),
    {
        self.0 & LIVE_BIT == LIVE_BIT
    }
}

impl FactionId {
    /// Whether a table can have given this handle out.
    pub fn is_well_formed(&self) -> (b: bool)
        ensures
            b == well_formed_handle(self.0),
    {
        self.0 & LIVE_BIT == LIVE_BIT
    }
}

impl SiteId {
    /// Whether a table can have given this handle out.
    pub fn is_well_formed(&self) -> (b: bool)
        ensures
            b == well_formed_handle(self.0),
    {
        self.0 & LIVE_BIT == LIVE_BIT
    }
}

impl Actor {
    /// The non-player character behind this actor, if it is one.
    pub fn npc(&self) -> (r: Option<NpcId>)
        ensures
            r == match *self {
                Actor::Npc(id) => Some(id),
                Actor::Character(_) => None,
            },
    {
        match *self {
            Actor::Npc(id) => Some(id),
            Actor::Character(_) => None,
        }
    }
}

} // verus!
