//! Non-player characters, vehicles and the tables and grid that hold them.

use vstd::prelude::*;
use std::collections::VecDeque;
use crate::geom::chunk_of;
use crate::geom::dist_sqr;
use crate::geom::locality;
use crate::geom::Vec2i;
use crate::geom::Vec3i;
use crate::geom::CHUNK_SIZE;
use crate::grid::without_npc;
use crate::grid::NpcGrid;
use crate::ids::is_count_of;
use crate::ids::is_last_generation;
use crate::ids::well_formed_handle;
use crate::ids::Actor;
use crate::ids::FactionId;
use crate::ids::NpcId;
use crate::ids::ReportId;
use crate::ids::SiteId;
use crate::ids::TrackId;
use crate::ids::VehicleId;
use crate::ids::WorldSiteId;
use crate::sentiment::Sentiments;

verus! {

/// Who drives an entity forward.
#[derive(Clone, Copy, Debug, PartialEq, Eq, Structural)]
pub enum SimulationMode {
    /// No game entity exists: the simulation moves the record itself.
    Simulated,
    /// A game entity exists: the record mirrors it.
    Loaded,
}

impl Default for SimulationMode {
    fn default() -> (m: Self)
        ensures
            m == SimulationMode::Simulated,
    {
        SimulationMode::Simulated
    }
}

/// What a character does for a living.
#[derive(Clone, Copy, Debug, PartialEq, Eq, Hash, Structural)]
pub enum Profession {
    Farmer,
    Hunter,
    Merchant,
    Guard,
    Adventurer(u32),
    Blacksmith,
    Chef,
    Alchemist,
    Pirate,
    Cultist,
    Herbalist,
    Captain,
}

/// A path that is being followed: where it leads, what is left of it, and
/// whether it is to be looked for anew.
pub struct PathData<P, N> {
    pub end: N,
    pub path: VecDeque<P>,
    pub repoll: bool,
}

/// The paths that a character remembers: the one within the site that it is
/// at, and the one between sites, over tracks that are walked forward or
/// backward.
pub struct PathingMemory {
    pub intrasite_path: Option<(PathData<Vec2i, Vec2i>, WorldSiteId)>,
    pub intersite_path: Option<(PathData<(TrackId, bool), SiteId>, usize)>,
}

impl Default for PathingMemory {
    fn default() -> (m: Self)
        ensures
            m.intrasite_path.is_none(),
            m.intersite_path.is_none(),
    {
        PathingMemory { intrasite_path: None, intersite_path: None }
    }
}

/// A directive for the movement of a character.
#[derive(Clone, Copy, Debug, PartialEq, Eq, Structural)]
pub enum NpcAction {
    /// Move toward a point, at a speed factor given in thousandths.
    Goto(Vec3i, u32),
}

/// The one directive that a character's behaviour has queued for the movement
/// step.
#[derive(Clone, Copy, Debug, PartialEq, Eq, Structural)]
pub struct Controller {
    pub action: Option<NpcAction>,
}

impl Controller {
    /// A controller that asks for nothing.
    pub fn idle() -> (c: Self)
        ensures
            c == (Controller { action: None }),
    {
        Controller { action: None }
    }

    /// A controller that asks to move toward `wpos`.
    pub fn goto(wpos: Vec3i, speed_factor: u32) -> (c: Self)
        ensures
            c == (Controller { action: Some(NpcAction::Goto(wpos, speed_factor)) }),
    {
        Controller { action: Some(NpcAction::Goto(wpos, speed_factor)) }
    }
}

/// A seat on a vehicle.
#[derive(Clone, Copy, Debug, PartialEq, Eq, Structural)]
pub struct Riding {
    pub vehicle: VehicleId,
    pub steering: bool,
}

/// The kinds of vehicle.
#[derive(Clone, Copy, Debug, PartialEq, Eq, Structural)]
pub enum VehicleKind {
    Airship,
    Boat,
}

/// The body of a ship.
#[derive(Clone, Copy, Debug, PartialEq, Eq, Structural)]
pub enum ShipBody {
    DefaultAirship,
    Galleon,
}

/// Species of large birds.
#[derive(Clone, Copy, Debug, PartialEq, Eq, Structural)]
pub enum BirdLargeSpecies {
    Phoenix,
    Cockatrice,
    Roc,
    FlameWyvern,
    CloudWyvern,
    FrostWyvern,
    SeaWyvern,
    WealdWyvern,
}

/// Species of large bipeds.
#[derive(Clone, Copy, Debug, PartialEq, Eq, Structural)]
pub enum BipedLargeSpecies {
    Ogre,
    Cyclops,
    Wendigo,
    Werewolf,
    Cavetroll,
    Mountaintroll,
    Swamptroll,
    Blueoni,
    Redoni,
    Tursus,
    Gigasfrost,
    /// A species for which no game entity can be made.
    Other,
}

/// The kinds of body.
#[derive(Clone, Copy, Debug, PartialEq, Eq, Structural)]
pub enum Body {
    Humanoid,
    BirdLarge(BirdLargeSpecies),
    BipedLarge(BipedLargeSpecies),
    Ship(ShipBody),
}

impl Body {
    /// The top speed of the body, in length units per second.
    pub open spec fn max_speed_spec(self) -> u32 {
        match self {
            Body::Humanoid => 1408,
            Body::BirdLarge(_) => 2048,
            Body::BipedLarge(_) => 1152,
            Body::Ship(ShipBody::DefaultAirship) => 3840,
            Body::Ship(ShipBody::Galleon) => 3328,
        }
    }

    /// The top speed of the body, in length units per second.
    pub fn max_speed_approx(&self) -> (speed: u32)
        ensures
            speed == self.max_speed_spec(),
    {
        match self {
            Body::Humanoid => 1408,
            Body::BirdLarge(_) => 2048,
            Body::BipedLarge(_) => 1152,
            Body::Ship(ShipBody::DefaultAirship) => 3840,
            Body::Ship(ShipBody::Galleon) => 3328,
        }
    }
}

/// A non-player character.
pub struct Npc {
    // What is kept when the world is saved
    /// Drives the traits that are drawn for the character.
    pub seed: u32,
    /// Where the character is.
    pub wpos: Vec3i,
    pub profession: Option<Profession>,
    pub home: Option<SiteId>,
    pub faction: Option<FactionId>,
    pub riding: Option<Riding>,
    pub body: Body,
    pub is_dead: bool,
    pub sentiments: Sentiments,
    /// The reports that have reached the character and that it has not yet
    /// taken note of.
    pub inbox: Vec<ReportId>,
    // What is rebuilt when the world is loaded
    /// The chunk under which the grid lists the character.
    pub chunk_pos: Option<Vec2i>,
    pub current_site: Option<SiteId>,
    /// What the character's behaviour last asked of the movement step.
    pub action: Option<NpcAction>,
    /// Whether the character is simulated or mirrors a game entity.
    pub mode: SimulationMode,
}

impl Clone for Npc {
    /// A copy of what is kept of the character when the world is saved; what
    /// is rebuilt when the world is loaded is as in a fresh character.
    fn clone(&self) -> (copy: Self)
        ensures
            copy.seed == self.seed,
            copy.wpos == self.wpos,
            copy.profession == self.profession,
            copy.home == self.home,
            copy.faction == self.faction,
            copy.riding == self.riding,
            copy.body == self.body,
            copy.is_dead == self.is_dead,
            copy.sentiments.entries() == self.sentiments.entries(),
            copy.inbox@ == Seq::<ReportId>::empty(),
            copy.chunk_pos.is_none(),
            copy.current_site.is_none(),
            copy.action.is_none(),
            copy.mode == SimulationMode::Simulated,
    {
        Npc {
            seed: self.seed,
            wpos: self.wpos,
            profession: self.profession,
            home: self.home,
            faction: self.faction,
            riding: self.riding,
            body: self.body,
            is_dead: self.is_dead,
            sentiments: self.sentiments.clone(),
            inbox: Vec::new(),
            chunk_pos: None,
            current_site: None,
            action: None,
            mode: SimulationMode::Simulated,
        }
    }
}

impl Npc {
    pub const PERM_SPECIES: u32 = 0;

    pub const PERM_BODY: u32 = 1;

    /// A simulated character without ties, at `wpos`.
    pub fn new(seed: u32, wpos: Vec3i) -> (npc: Self)
        ensures
            npc.seed == seed,
            npc.wpos == wpos,
            npc.profession.is_none(),
            npc.home.is_none(),
            npc.faction.is_none(),
            npc.riding.is_none(),
            npc.body == Body::Humanoid,
            !npc.is_dead,
            npc.sentiments.entries() == Map::<(u8, i128), i8>::empty(),
            npc.inbox@ == Seq::<ReportId>::empty(),
            npc.chunk_pos.is_none(),
            npc.current_site.is_none(),
            npc.action.is_none(),
            npc.mode == SimulationMode::Simulated,
    {
        Npc {
            seed,
            wpos,
            profession: None,
            home: None,
            faction: None,
            riding: None,
            body: Body::Humanoid,
            is_dead: false,
            sentiments: Sentiments::default(),
            inbox: Vec::new(),
            chunk_pos: None,
            current_site: None,
            action: None,
            mode: SimulationMode::Simulated,
        }
    }

    pub fn with_profession(self, profession: Option<Profession>) -> (npc: Self)
        ensures
            npc == (Npc { profession, ..self }),
    {
        let mut npc = self;
        npc.profession = profession;
        npc
    }

    pub fn with_body(self, body: Body) -> (npc: Self)
        ensures
            npc == (Npc { body, ..self }),
    {
        let mut npc = self;
        npc.body = body;
        npc
    }

    pub fn with_home(self, home: Option<SiteId>) -> (npc: Self)
        ensures
            npc == (Npc { home, ..self }),
    {
        let mut npc = self;
        npc.home = home;
        npc
    }

    pub fn with_faction(self, faction: Option<FactionId>) -> (npc: Self)
        ensures
            npc == (Npc { faction, ..self }),
    {
        let mut npc = self;
        npc.faction = faction;
        npc
    }

    /// Puts the character at the helm of `vehicle`, or on foot where there is
    /// none.
    pub fn steering(self, vehicle: Option<VehicleId>) -> (npc: Self)
        ensures
            npc == (Npc {
                riding: match vehicle {
                    Some(vehicle) => Some(Riding { vehicle, steering: true }),
                    None => None,
                },
                ..self
            }),
    {
        let mut npc = self;
        npc.riding = match vehicle {
            Some(vehicle) => Some(Riding { vehicle, steering: true }),
            None => None,
        };
        npc
    }

    /// Puts the character aboard `vehicle` as a passenger, or on foot where
    /// there is none.
    pub fn riding(self, vehicle: Option<VehicleId>) -> (npc: Self)
        ensures
            npc == (Npc {
                riding: match vehicle {
                    Some(vehicle) => Some(Riding { vehicle, steering: false }),
                    None => None,
                },
                ..self
            }),
    {
        let mut npc = self;
        npc.riding = match vehicle {
            Some(vehicle) => Some(Riding { vehicle, steering: false }),
            None => None,
        };
        npc
    }

    /// The seed of the generator that draws the character's trait number
    /// `perm`: the character's seed plus `perm`, wrapping around.
    pub fn rng_seed(&self, perm: u32) -> (seed: u32)
        ensures
            seed == (self.seed + perm) % 0x1_0000_0000,
    {
        self.seed.wrapping_add(perm)
    }
}

/// A vehicle.
pub struct Vehicle {
    pub wpos: Vec3i,
    pub kind: VehicleKind,
    pub chunk_pos: Option<Vec2i>,
    pub driver: Option<Actor>,
    pub riders: Vec<Actor>,
    /// Whether the vehicle is simulated or mirrors a game entity.
    pub mode: SimulationMode,
}

impl Vehicle {
    /// A simulated vehicle without crew, at `wpos`.
    pub fn new(wpos: Vec3i, kind: VehicleKind) -> (v: Self)
        ensures
            v.wpos == wpos,
            v.kind == kind,
            v.chunk_pos.is_none(),
            v.driver.is_none(),
            v.riders@ == Seq::<Actor>::empty(),
            v.mode == SimulationMode::Simulated,
    {
        Vehicle {
            wpos,
            kind,
            chunk_pos: None,
            driver: None,
            riders: Vec::new(),
            mode: SimulationMode::Simulated,
        }
    }

    pub fn get_ship(&self) -> (body: ShipBody)
        ensures
            body == match self.kind {
                VehicleKind::Airship => ShipBody::DefaultAirship,
                VehicleKind::Boat => ShipBody::Galleon,
            },
    {
        match self.kind {
            VehicleKind::Airship => ShipBody::DefaultAirship,
            VehicleKind::Boat => ShipBody::Galleon,
        }
    }

    pub fn get_body(&self) -> (body: Body)
        ensures
            body == Body::Ship(
                match self.kind {
                    VehicleKind::Airship => ShipBody::DefaultAirship,
                    VehicleKind::Boat => ShipBody::Galleon,
                },
            ),
    {
        Body::Ship(self.get_ship())
    }

    /// Greatest speed, in length units per second: 15 blocks for an airship,
    /// 13 for a boat.
    pub fn get_speed(&self) -> (speed: u32)
        ensures
            speed == match self.kind {
                VehicleKind::Airship => 3840u32,
                VehicleKind::Boat => 3328u32,
            },
    {
        match self.kind {
            VehicleKind::Airship => 3840,
            VehicleKind::Boat => 3328,
        }
    }
}

/// The largest number of entries that a table holds.
pub const TABLE_LIMIT: usize = 0xffff_fffe;

/// The table of characters: a `slotmap::HopSlotMap` whose keys are handed out
/// as the numbers that `KeyData::as_ffi` makes of them.
#[verifier::external_body]
pub struct NpcTable {
    map: slotmap::HopSlotMap<slotmap::DefaultKey, Npc>,
}

/// What a table of characters holds: the character stored under each handle.
pub uninterp spec fn npc_entries(t: NpcTable) -> Map<u64, Npc>;

/// The handles that a table of characters has retired: for each of its
/// slots, the handles with a generation count that is odd and below the
/// count that the slot has now. They are the handles that the table gave
/// out for the slot and took back, since the slot's count last began anew.
pub uninterp spec fn npc_retired(t: NpcTable) -> Set<u64>;

/// `HopSlotMap::new`: a table that holds nothing and has retired nothing.
#[verifier::external_body]
pub(crate) fn npcs_new() -> (table: NpcTable)
    ensures
        npc_entries(table) =~= Map::empty(),
        npc_retired(table) =~= Set::empty(),
{
    NpcTable { map: slotmap::HopSlotMap::new() }
}

/// `HopSlotMap::len`: the number of handles in use, of which there are
/// finitely many.
#[verifier::external_body]
pub(crate) fn npcs_len(t: &NpcTable) -> (n: usize)
    ensures
        is_count_of(n as int, npc_entries(*t).dom()),
{
    t.map.len()
}

/// `HopSlotMap::insert`: stores `npc` under a handle that was not in use,
/// and returns the handle. Nothing else changes, and the table holds finitely
/// many entries. The handle has the shape of `KeyData::as_ffi`, whose bit 32
/// is set. It is none of the retired: a slot that is filled again has its
/// generation count raised by one, so the new handle's count is above those
/// of the retired handles of the slot, which stay retired. The call panics
/// where the table holds [`TABLE_LIMIT`] entries, which the precondition
/// leaves out.
#[verifier::external_body]
pub(crate) fn npcs_insert(t: &mut NpcTable, npc: Npc) -> (id: u64)
    requires
        npc_entries(*old(t)).dom().len() < TABLE_LIMIT,
    ensures
        !npc_entries(*old(t)).dom().contains(id),
        !npc_retired(*old(t)).contains(id),
        well_formed_handle(id),
        npc_entries(*final(t)) == npc_entries(*old(t)).insert(id, npc),
        npc_entries(*final(t)).dom().finite(),
        npc_retired(*final(t)) == npc_retired(*old(t)),
{
    slotmap::Key::data(&t.map.insert(npc)).as_ffi()
}

/// `HopSlotMap::get` with the key that `KeyData::from_ffi` makes of `id`: the
/// character stored under `id`, if the handle is in use. A retired handle is
/// not in use: the call finds only a handle with the generation count that
/// its slot has now.
#[verifier::external_body]
pub(crate) fn npcs_get(t: &NpcTable, id: u64) -> (r: Option<&Npc>)
    requires
        well_formed_handle(id),
    ensures
        match r {
            Some(npc) => npc_entries(*t).dom().contains(id) && *npc == npc_entries(*t)[id],
            None => !npc_entries(*t).dom().contains(id),
        },
        r.is_some() ==> !npc_retired(*t).contains(id),
{
    t.map.get(slotmap::DefaultKey::from(slotmap::KeyData::from_ffi(id)))
}

/// `HopSlotMap::get_mut` with the key that `KeyData::from_ffi` makes of `id`:
/// the character stored under `id`, if the handle is in use. What is written
/// through the reference is what the table holds under `id` afterwards;
/// nothing else changes, and no handle is retired.
#[verifier::external_body]
pub(crate) fn npcs_get_mut(t: &mut NpcTable, id: u64) -> (r: Option<&mut Npc>)
    requires
        well_formed_handle(id),
    ensures
        npc_retired(*final(t)) == npc_retired(*old(t)),
        match r {
            Some(npc) => npc_entries(*old(t)).dom().contains(id) && *npc == npc_entries(
                *old(t),
            )[id] && npc_entries(*final(t)) == npc_entries(*old(t)).insert(id, *final(npc)),
            None => !npc_entries(*old(t)).dom().contains(id) && npc_entries(*final(t))
                == npc_entries(*old(t)),
        },
{
    t.map.get_mut(slotmap::DefaultKey::from(slotmap::KeyData::from_ffi(id)))
}

/// `HopSlotMap::remove` with the key that `KeyData::from_ffi` makes of `id`:
/// takes the character stored under `id` out of the table, if the handle is
/// in use. Nothing else changes. The slot's generation count is raised by
/// one, which retires the handle; only after the last count does it begin
/// anew, and of that case nothing is said here.
#[verifier::external_body]
pub(crate) fn npcs_remove(t: &mut NpcTable, id: u64) -> (r: Option<Npc>)
    requires
        well_formed_handle(id),
    ensures
        npc_entries(*final(t)) == npc_entries(*old(t)).remove(id),
        !is_last_generation(id) ==> npc_retired(*final(t)) == (if npc_entries(*old(t)).dom().contains(
            id,
        ) {
            npc_retired(*old(t)).insert(id)
        } else {
            npc_retired(*old(t))
        }),
        r == (if npc_entries(*old(t)).dom().contains(id) {
            Some(npc_entries(*old(t))[id])
        } else {
            None
        }),
{
    t.map.remove(slotmap::DefaultKey::from(slotmap::KeyData::from_ffi(id)))
}

/// `HopSlotMap::keys`, each key as the number that `KeyData::as_ffi` makes of
/// it: every handle in use once, in an order that is not stated here.
#[verifier::external_body]
pub(crate) fn npcs_keys(t: &NpcTable) -> (keys: Vec<u64>)
    ensures
        keys@.no_duplicates(),
        forall|k: u64| keys@.contains(k) <==> npc_entries(*t).dom().contains(k),
        forall|k: u64| keys@.contains(k) ==> well_formed_handle(k),
{
    t.map.keys().map(|k| slotmap::Key::data(&k).as_ffi()).collect()
}

/// The table of vehicles: a `slotmap::HopSlotMap` whose keys are handed out
/// as the numbers that `KeyData::as_ffi` makes of them.
#[verifier::external_body]
pub struct VehicleTable {
    map: slotmap::HopSlotMap<slotmap::DefaultKey, Vehicle>,
}

/// What a table of vehicles holds: the vehicle stored under each handle.
pub uninterp spec fn vehicle_entries(t: VehicleTable) -> Map<u64, Vehicle>;

/// `HopSlotMap::new`: a table that holds nothing.
#[verifier::external_body]
pub(crate) fn vehicles_new() -> (table: VehicleTable)
    ensures
        vehicle_entries(table) =~= Map::empty(),
{
    VehicleTable { map: slotmap::HopSlotMap::new() }
}

/// `HopSlotMap::len`: the number of handles in use, of which there are
/// finitely many.
#[verifier::external_body]
pub(crate) fn vehicles_len(t: &VehicleTable) -> (n: usize)
    ensures
        is_count_of(n as int, vehicle_entries(*t).dom()),
{
    t.map.len()
}

/// `HopSlotMap::insert`: stores `vehicle` under a handle that was not in
/// use, and returns the handle. Nothing else changes, and the table holds
/// finitely many entries. The handle has the shape of `KeyData::as_ffi`,
/// whose bit 32 is set. The call panics where the
/// table holds [`TABLE_LIMIT`] entries, which the precondition leaves out.
#[verifier::external_body]
pub(crate) fn vehicles_insert(t: &mut VehicleTable, vehicle: Vehicle) -> (id: u64)
    requires
        vehicle_entries(*old(t)).dom().len() < TABLE_LIMIT,
    ensures
        !vehicle_entries(*old(t)).dom().contains(id),
        well_formed_handle(id),
        vehicle_entries(*final(t)) == vehicle_entries(*old(t)).insert(id, vehicle),
        vehicle_entries(*final(t)).dom().finite(),
{
    slotmap::Key::data(&t.map.insert(vehicle)).as_ffi()
}

/// `HopSlotMap::get` with the key that `KeyData::from_ffi` makes of `id`: the
/// vehicle stored under `id`, if the handle is in use.
#[verifier::external_body]
pub(crate) fn vehicles_get(t: &VehicleTable, id: u64) -> (r: Option<&Vehicle>)
    requires
        well_formed_handle(id),
    ensures
        match r {
            Some(v) => vehicle_entries(*t).dom().contains(id) && *v == vehicle_entries(*t)[id],
            None => !vehicle_entries(*t).dom().contains(id),
        },
{
    t.map.get(slotmap::DefaultKey::from(slotmap::KeyData::from_ffi(id)))
}

/// `HopSlotMap::get_mut` with the key that `KeyData::from_ffi` makes of `id`:
/// the vehicle stored under `id`, if the handle is in use. What is written
/// through the reference is what the table holds under `id` afterwards;
/// nothing else changes.
#[verifier::external_body]
pub(crate) fn vehicles_get_mut(t: &mut VehicleTable, id: u64) -> (r: Option<&mut Vehicle>)
    requires
        well_formed_handle(id),
    ensures
        match r {
            Some(v) => vehicle_entries(*old(t)).dom().contains(id) && *v == vehicle_entries(
                *old(t),
            )[id] && vehicle_entries(*final(t)) == vehicle_entries(*old(t)).insert(
                id,
                *final(v),
            ),
            None => !vehicle_entries(*old(t)).dom().contains(id) && vehicle_entries(*final(t))
                == vehicle_entries(*old(t)),
        },
{
    t.map.get_mut(slotmap::DefaultKey::from(slotmap::KeyData::from_ffi(id)))
}

/// `HopSlotMap::keys`, each key as the number that `KeyData::as_ffi` makes of
/// it: every handle in use once, in an order that is not stated here.
#[verifier::external_body]
pub(crate) fn vehicles_keys(t: &VehicleTable) -> (keys: Vec<u64>)
    ensures
        keys@.no_duplicates(),
        forall|k: u64| keys@.contains(k) <==> vehicle_entries(*t).dom().contains(k),
        forall|k: u64| keys@.contains(k) ==> well_formed_handle(k),
{
    t.map.keys().map(|k| slotmap::Key::data(&k).as_ffi()).collect()
}

/// The offset from a chunk to the `n`th chunk of its neighbourhood.
pub fn neighbor(n: usize) -> (o: Vec2i)
    requires
        n < 9,
    ensures
        o == locality()[n as int],
        -1 <= o.x <= 1,
        -1 <= o.y <= 1,
{
    match n {
        0 => Vec2i { x: 0, y: 0 },
        1 => Vec2i { x: 0, y: 1 },
        2 => Vec2i { x: 1, y: 0 },
        3 => Vec2i { x: 0, y: -1 },
        4 => Vec2i { x: -1, y: 0 },
        5 => Vec2i { x: 1, y: 1 },
        6 => Vec2i { x: 1, y: -1 },
        7 => Vec2i { x: -1, y: 1 },
        _ => Vec2i { x: -1, y: -1 },
    }
}

/// The chunk at the offset `o` from the chunk `c`.
pub open spec fn shifted(c: Vec2i, o: Vec2i) -> Vec2i {
    Vec2i { x: (c.x + o.x) as i32, y: (c.y + o.y) as i32 }
}

/// All characters and vehicles, and the grid that finds them by chunk.
pub struct Npcs {
    pub npcs: NpcTable,
    pub vehicles: VehicleTable,
    pub npc_grid: NpcGrid,
}

impl Npcs {
    /// The character stored under each handle.
    pub open spec fn npc_map(&self) -> Map<u64, Npc> {
        npc_entries(self.npcs)
    }

    /// The vehicle stored under each handle.
    pub open spec fn vehicle_map(&self) -> Map<u64, Vehicle> {
        vehicle_entries(self.vehicles)
    }

    /// The grid has a cell for each of its chunks.
    pub open spec fn wf(&self) -> bool {
        self.npc_grid.wf()
    }

    /// The character that `id` stands for, if it stands for one.
    pub open spec fn npc_spec(&self, id: NpcId) -> Option<Npc> {
        if well_formed_handle(id.0) && self.npc_map().dom().contains(id.0) {
            Some(self.npc_map()[id.0])
        } else {
            None
        }
    }

    /// The vehicle that `id` stands for, if it stands for one.
    pub open spec fn vehicle_spec(&self, id: VehicleId) -> Option<Vehicle> {
        if well_formed_handle(id.0) && self.vehicle_map().dom().contains(id.0) {
            Some(self.vehicle_map()[id.0])
        } else {
            None
        }
    }

    /// Whether the grid is up to date for the character `id`: the character
    /// remembers the chunk it stands in, and the grid lists it there, if the
    /// chunk lies on the grid.
    pub open spec fn placed(&self, id: NpcId) -> bool {
        self.npc_spec(id) matches Some(npc) ==> {
            let c = chunk_of(npc.wpos.xy());
            &&& npc.chunk_pos == Some(c)
            &&& self.npc_grid.in_bounds(c) ==> self.npc_grid.npcs_at(c).contains(id)
        }
    }

    /// Whether the grid is up to date for every character.
    pub open spec fn indexed(&self) -> bool {
        forall|id: NpcId| #[trigger] self.placed(id)
    }

    /// The test that holds of the characters that are less than `radius`
    /// away from `origin`.
    pub open spec fn within(&self, origin: Vec2i, radius: int) -> spec_fn(NpcId) -> bool {
        |id: NpcId|
            self.npc_spec(id) matches Some(npc) && dist_sqr(npc.wpos.xy(), origin) < radius
                * radius
    }

    /// The characters listed for chunk `c` that are less than `radius` away
    /// from `origin`, in the order of the list.
    pub open spec fn cell_hits(&self, c: Vec2i, origin: Vec2i, radius: int) -> Seq<NpcId> {
        self.npc_grid.npcs_at(c).filter(self.within(origin, radius))
    }

    /// What the first `n` chunks of the neighbourhood of `origin` contribute
    /// to a query.
    pub open spec fn nearby_upto(&self, n: int, origin: Vec2i, radius: int) -> Seq<NpcId>
        decreases n,
    {
        if n <= 0 {
            Seq::empty()
        } else {
            self.nearby_upto(n - 1, origin, radius) + self.cell_hits(
                shifted(chunk_of(origin), locality()[n - 1]),
                origin,
                radius,
            )
        }
    }

    /// The answer to a query: for each of the nine chunks around `origin`, in
    /// order, the characters listed there that are less than `radius` away.
    pub open spec fn nearby_spec(&self, origin: Vec2i, radius: int) -> Seq<NpcId> {
        self.nearby_upto(9, origin, radius)
    }

    /// Whether `id` is a handle of a character that the table has given out
    /// and taken back. See [`npc_retired`] for the one way in which a table
    /// comes to forget such a handle.
    pub open spec fn is_retired(&self, id: NpcId) -> bool {
        self.retired().contains(id.0)
    }

    /// The handles of characters that the table has retired, as numbers.
    pub open spec fn retired(&self) -> Set<u64> {
        npc_retired(self.npcs)
    }

    /// Tables that hold nothing, with the given grid.
    pub fn new(npc_grid: NpcGrid) -> (n: Self)
        ensures
            forall|id: NpcId| !n.is_retired(id),
            n.npc_map() == Map::<u64, Npc>::empty(),
            n.vehicle_map() == Map::<u64, Vehicle>::empty(),
            n.npc_grid == npc_grid,
            n.indexed(),
    {
        let n = Npcs { npcs: npcs_new(), vehicles: vehicles_new(), npc_grid };
        assert forall|id: NpcId| #[trigger] n.placed(id) by {}
        n
    }

    /// The number of characters.
    pub fn npc_count(&self) -> (n: usize)
        ensures
            self.npc_map().dom().finite(),
            n == self.npc_map().dom().len(),
    {
        npcs_len(&self.npcs)
    }

    /// The number of vehicles.
    pub fn vehicle_count(&self) -> (n: usize)
        ensures
            self.vehicle_map().dom().finite(),
            n == self.vehicle_map().dom().len(),
    {
        vehicles_len(&self.vehicles)
    }

    /// Stores a character and returns its handle, which was not in use and
    /// is none of the retired. The grid does not list the character until it
    /// is placed.
    pub fn create_npc(&mut self, npc: Npc) -> (id: NpcId)
        requires
            old(self).npc_map().dom().len() < TABLE_LIMIT,
        ensures
            old(self).npc_spec(id).is_none(),
            !old(self).is_retired(id),
            final(self).retired() == old(self).retired(),
            well_formed_handle(id.0),
            final(self).npc_map() == old(self).npc_map().insert(id.0, npc),
            final(self).npc_map().dom().finite(),
            final(self).npc_map().dom().len() == old(self).npc_map().dom().len() + 1,
            final(self).vehicles == old(self).vehicles,
            final(self).npc_grid == old(self).npc_grid,
    {
        let id = npcs_insert(&mut self.npcs, npc);
        proof {
            assert(old(self).npc_map().dom() =~= self.npc_map().dom().remove(id));
        }
        NpcId(id)
    }

    /// Stores a character and returns its handle, unless the table is full:
    /// then the character is handed back.
    pub fn try_create_npc(&mut self, npc: Npc) -> (r: Result<NpcId, Npc>)
        ensures
            r is Ok ==> final(self).npc_map().dom().finite() && final(self).npc_map().dom().len() == old(self).npc_map().dom().len() + 1,
            match r {
                Ok(id) => old(self).npc_map().dom().len() < TABLE_LIMIT && old(self).npc_spec(
                    id,
                ).is_none() && well_formed_handle(id.0) && final(self).npc_map() == old(self).npc_map().insert(id.0, npc),
                Err(back) => old(self).npc_map().dom().len() >= TABLE_LIMIT && back == npc
                    && final(self).npc_map() == old(self).npc_map(),
            },
            r matches Ok(id) ==> !old(self).is_retired(id),
            final(self).retired() == old(self).retired(),
            final(self).vehicles == old(self).vehicles,
            final(self).npc_grid == old(self).npc_grid,
    {
        if self.npc_count() < TABLE_LIMIT {
            Ok(self.create_npc(npc))
        } else {
            Err(npc)
        }
    }

    /// Stores a vehicle and returns its handle, which was not in use.
    pub fn create_vehicle(&mut self, vehicle: Vehicle) -> (id: VehicleId)
        requires
            old(self).vehicle_map().dom().len() < TABLE_LIMIT,
        ensures
            old(self).vehicle_spec(id).is_none(),
            well_formed_handle(id.0),
            final(self).vehicle_map() == old(self).vehicle_map().insert(id.0, vehicle),
            final(self).vehicle_map().dom().finite(),
            final(self).vehicle_map().dom().len() == old(self).vehicle_map().dom().len() + 1,
            final(self).npcs == old(self).npcs,
            final(self).npc_grid == old(self).npc_grid,
    {
        let id = vehicles_insert(&mut self.vehicles, vehicle);
        proof {
            assert(old(self).vehicle_map().dom() =~= self.vehicle_map().dom().remove(id));
        }
        VehicleId(id)
    }

    /// Stores a vehicle and returns its handle, unless the table is full:
    /// then the vehicle is handed back.
    pub fn try_create_vehicle(&mut self, vehicle: Vehicle) -> (r: Result<VehicleId, Vehicle>)
        ensures
            r is Ok ==> final(self).vehicle_map().dom().finite() && final(self).vehicle_map().dom().len() == old(self).vehicle_map().dom().len() + 1,
            match r {
                Ok(id) => old(self).vehicle_map().dom().len() < TABLE_LIMIT && old(self).vehicle_spec(id).is_none() && well_formed_handle(id.0) && final(self).vehicle_map() == old(self).vehicle_map().insert(id.0, vehicle),
                Err(back) => old(self).vehicle_map().dom().len() >= TABLE_LIMIT && back
                    == vehicle && final(self).vehicle_map() == old(self).vehicle_map(),
            },
            final(self).npcs == old(self).npcs,
            final(self).npc_grid == old(self).npc_grid,
    {
        if self.vehicle_count() < TABLE_LIMIT {
            Ok(self.create_vehicle(vehicle))
        } else {
            Err(vehicle)
        }
    }

    /// The character that `id` stands for. A handle that is stale, or that no
    /// table gave out, stands for none.
    pub fn get(&self, id: NpcId) -> (r: Option<&Npc>)
        ensures
            match r {
                Some(npc) => self.npc_spec(id) == Some(*npc),
                None => self.npc_spec(id).is_none(),
            },
            self.is_retired(id) ==> r.is_none(),
    {
        if id.is_well_formed() {
            npcs_get(&self.npcs, id.0)
        } else {
            None
        }
    }

    /// The vehicle that `id` stands for. A handle that is stale, or that no
    /// table gave out, stands for none.
    pub fn get_vehicle(&self, id: VehicleId) -> (r: Option<&Vehicle>)
        ensures
            match r {
                Some(v) => self.vehicle_spec(id) == Some(*v),
                None => self.vehicle_spec(id).is_none(),
            },
    {
        if id.is_well_formed() {
            vehicles_get(&self.vehicles, id.0)
        } else {
            None
        }
    }

    /// The handles of all characters, each once.
    pub fn npc_ids(&self) -> (ids: Vec<NpcId>)
        ensures
            ids@.no_duplicates(),
            forall|id: NpcId| ids@.contains(id) <==> self.npc_spec(id).is_some(),
    {
        let keys = npcs_keys(&self.npcs);
        let mut ids: Vec<NpcId> = Vec::new();
        let mut i: usize = 0;
        while i < keys.len()
            invariant
                i <= keys.len(),
                ids@.len() == i,
                forall|j: int| 0 <= j < i ==> (#[trigger] ids@[j]).0 == keys@[j],
            decreases keys.len() - i,
        {
            ids.push(NpcId(keys[i]));
            i = i + 1;
        }
        proof {
            assert forall|a: int, b: int| 0 <= a < ids@.len() && 0 <= b < ids@.len() && a
                != b implies ids@[a] != ids@[b] by {
                assert(keys@[a] != keys@[b]);
            }
            assert forall|id: NpcId| ids@.contains(id) <==> self.npc_spec(id).is_some() by {
                if ids@.contains(id) {
                    let j = choose|j: int| 0 <= j < ids@.len() && ids@[j] == id;
                    assert(keys@.contains(keys@[j]));
                }
                if self.npc_spec(id).is_some() {
                    assert(keys@.contains(id.0));
                    let j = choose|j: int| 0 <= j < keys@.len() && keys@[j] == id.0;
                    assert(ids@[j] == id);
                }
            }
        }
        ids
    }

    /// The handles of all vehicles, each once.
    pub fn vehicle_ids(&self) -> (ids: Vec<VehicleId>)
        ensures
            ids@.no_duplicates(),
            forall|id: VehicleId| ids@.contains(id) <==> self.vehicle_spec(id).is_some(),
    {
        let keys = vehicles_keys(&self.vehicles);
        let mut ids: Vec<VehicleId> = Vec::new();
        let mut i: usize = 0;
        while i < keys.len()
            invariant
                i <= keys.len(),
                ids@.len() == i,
                forall|j: int| 0 <= j < i ==> (#[trigger] ids@[j]).0 == keys@[j],
            decreases keys.len() - i,
        {
            ids.push(VehicleId(keys[i]));
            i = i + 1;
        }
        proof {
            assert forall|a: int, b: int| 0 <= a < ids@.len() && 0 <= b < ids@.len() && a
                != b implies ids@[a] != ids@[b] by {
                assert(keys@[a] != keys@[b]);
            }
            assert forall|id: VehicleId| ids@.contains(id) <==> self.vehicle_spec(
                id,
            ).is_some() by {
                if ids@.contains(id) {
                    let j = choose|j: int| 0 <= j < ids@.len() && ids@[j] == id;
                    assert(keys@.contains(keys@[j]));
                }
                if self.vehicle_spec(id).is_some() {
                    assert(keys@.contains(id.0));
                    let j = choose|j: int| 0 <= j < keys@.len() && keys@[j] == id.0;
                    assert(ids@[j] == id);
                }
            }
        }
        ids
    }

    /// Whether `id` stands for a character that is less than `radius` away
    /// from `origin`.
    pub fn is_within(&self, id: NpcId, origin: Vec2i, radius: u32) -> (b: bool)
        ensures
            b == (self.within(origin, radius as int))(id),
    {
        match self.get(id) {
            Some(npc) => {
                let r: u128 = radius as u128;
                assert(r * r <= 0xffff_ffff * 0xffff_ffff) by (nonlinear_arith)
                    requires
                        r <= 0xffff_ffff,
                ;
                npc.wpos.xy().distance_squared(origin) < r * r
            },
            None => false,
        }
    }

    /// Queries nearby characters: those less than `radius` away from `wpos`
    /// among the characters that the grid lists for the chunk of `wpos` and
    /// the eight chunks around it.
    ///
    /// No character that is farther away is returned. A character that is
    /// near enough may be missed where `radius` is larger than a chunk is
    /// wide, or where the grid is not up to date.
    pub fn nearby(&self, wpos: Vec2i, radius: u32) -> (out: Vec<NpcId>)
        requires
            self.wf(),
        ensures
            out@ == self.nearby_spec(wpos, radius as int),
            forall|id: NpcId|
                out@.contains(id) ==> (self.npc_spec(id) matches Some(npc) && dist_sqr(
                    npc.wpos.xy(),
                    wpos,
                ) < radius * radius),
    {
        let chunk = wpos.to_chunk();
        let ghost pred = self.within(wpos, radius as int);
        let mut out: Vec<NpcId> = Vec::new();
        let mut n: usize = 0;
        while n < 9
            invariant
                n <= 9,
                self.wf(),
                chunk == chunk_of(wpos),
                -262144 <= chunk.x <= 262143,
                -262144 <= chunk.y <= 262143,
                pred == self.within(wpos, radius as int),
                out@ == self.nearby_upto(n as int, wpos, radius as int),
                forall|id: NpcId| out@.contains(id) ==> pred(id),
            decreases 9 - n,
        {
            let o = neighbor(n);
            let c = Vec2i { x: chunk.x + o.x, y: chunk.y + o.y };
            assert(c == shifted(chunk_of(wpos), locality()[n as int]));
            let ghost start = out@;
            match self.npc_grid.get(c) {
                Some(cell) => {
                    let mut j: usize = 0;
                    while j < cell.npcs.len()
                        invariant
                            j <= cell.npcs.len(),
                            cell.npcs@ == self.npc_grid.npcs_at(c),
                            pred == self.within(wpos, radius as int),
                            out@ == start + cell.npcs@.take(j as int).filter(pred),
                            forall|id: NpcId| out@.contains(id) ==> pred(id),
                        decreases cell.npcs.len() - j,
                    {
                        let id = cell.npcs[j];
                        proof {
                            reveal(Seq::filter);
                            assert(cell.npcs@.take(j + 1).drop_last() == cell.npcs@.take(
                                j as int,
                            ));
                        }
                        if self.is_within(id, wpos, radius) {
                            let ghost prior = out@;
                            out.push(id);
                            assert forall|x: NpcId| out@.contains(x) implies pred(x) by {
                                let k = choose|k: int| 0 <= k < out@.len() && out@[k] == x;
                                if k < prior.len() {
                                    assert(prior.contains(x));
                                }
                            }
                        }
                        j = j + 1;
                    }
                    proof {
                        assert(cell.npcs@.take(cell.npcs.len() as int) == cell.npcs@);
                    }
                },
                None => {
                    proof {
                        reveal(Seq::filter);
                        assert(self.cell_hits(c, wpos, radius as int) == Seq::<NpcId>::empty());
                        assert(start + Seq::<NpcId>::empty() == start);
                    }
                },
            }
            n = n + 1;
        }
        out
    }
}

impl Npcs {
    /// Brings the grid up to date for the character `id`: the character is
    /// taken off the list of the chunk that it remembers and listed, once,
    /// for the chunk that it stands in, which it remembers from now on.
    pub fn place(&mut self, id: NpcId)
        requires
            old(self).wf(),
        ensures
            final(self).wf(),
            final(self).placed(id),
            final(self).npc_grid.size == old(self).npc_grid.size,
            final(self).retired() == old(self).retired(),
            final(self).vehicles == old(self).vehicles,
            final(self).npc_map() == (match old(self).npc_spec(id) {
                Some(npc) => old(self).npc_map().insert(
                    id.0,
                    Npc { chunk_pos: Some(chunk_of(npc.wpos.xy())), ..npc },
                ),
                None => old(self).npc_map(),
            }),
            old(self).npc_spec(id).is_none() ==> final(self).npc_grid == old(self).npc_grid,
            forall|other: NpcId|
                other != id && old(self).placed(other) ==> #[trigger] final(self).placed(other),
            old(self).indexed() ==> final(self).indexed(),
    {
        if !id.is_well_formed() {
            return ;
        }
        let (had, c) = match npcs_get_mut(&mut self.npcs, id.0) {
            Some(npc) => {
                let c = npc.wpos.xy().to_chunk();
                let had = npc.chunk_pos;
                npc.chunk_pos = Some(c);
                (had, c)
            },
            None => {
                proof {
                    assert forall|other: NpcId| old(self).placed(other) implies self.placed(
                        other,
                    ) by {}
                }
                return ;
            },
        };
        let ghost g0 = self.npc_grid;
        match had {
            Some(h) => {
                self.npc_grid.remove_npc(h, id);
            },
            None => {},
        }
        let ghost g1 = self.npc_grid;
        self.npc_grid.remove_npc(c, id);
        let ghost g2 = self.npc_grid;
        self.npc_grid.add_npc(c, id);
        proof {
            assert forall|other: NpcId| other != id && old(self).placed(other) implies #[trigger] self.placed(
                other,
            ) by {
                assert(other.0 != id.0);
                assert(self.npc_spec(other) == old(self).npc_spec(other));
                if let Some(o) = self.npc_spec(other) {
                    let d = chunk_of(o.wpos.xy());
                    if g0.in_bounds(d) {
                        assert(g0.npcs_at(d).contains(other));
                        assert(g1.npcs_at(d).contains(other));
                        assert(g2.npcs_at(d).contains(other));
                        if d == c {
                            let k = choose|k: int|
                                0 <= k < g2.npcs_at(d).len() && g2.npcs_at(d)[k] == other;
                            assert(g2.npcs_at(d).push(id)[k] == other);
                        }
                    }
                }
            }
            if self.npc_grid.in_bounds(c) {
                let listed = self.npc_grid.npcs_at(c);
                assert(listed[listed.len() - 1] == id);
            }
            assert(self.placed(id));
            if old(self).indexed() {
                assert forall|other: NpcId| #[trigger] self.placed(other) by {
                    assert(old(self).placed(other));
                }
            }
        }
    }

    /// Moves the character `id` to `wpos` and brings the grid up to date for
    /// it. Returns whether `id` stands for a character.
    pub fn set_npc_wpos(&mut self, id: NpcId, wpos: Vec3i) -> (found: bool)
        requires
            old(self).wf(),
        ensures
            final(self).wf(),
            found == old(self).npc_spec(id).is_some(),
            final(self).placed(id),
            final(self).npc_grid.size == old(self).npc_grid.size,
            final(self).retired() == old(self).retired(),
            final(self).vehicles == old(self).vehicles,
            final(self).npc_map() == (match old(self).npc_spec(id) {
                Some(npc) => old(self).npc_map().insert(
                    id.0,
                    Npc { wpos, chunk_pos: Some(chunk_of(wpos.xy())), ..npc },
                ),
                None => old(self).npc_map(),
            }),
            !found ==> final(self).npc_grid == old(self).npc_grid,
            forall|other: NpcId|
                other != id && old(self).placed(other) ==> #[trigger] final(self).placed(other),
            old(self).indexed() ==> final(self).indexed(),
    {
        if !id.is_well_formed() {
            return false;
        }
        match npcs_get_mut(&mut self.npcs, id.0) {
            Some(npc) => {
                npc.wpos = wpos;
            },
            None => {
                proof {
                    assert forall|other: NpcId| old(self).placed(other) implies self.placed(
                        other,
                    ) by {}
                }
                return false;
            },
        }
        let ghost mid = *self;
        proof {
            assert forall|other: NpcId| other != id && old(self).placed(other) implies mid.placed(
                other,
            ) by {
                assert(other.0 != id.0);
                assert(mid.npc_spec(other) == old(self).npc_spec(other));
            }
        }
        self.place(id);
        proof {
            assert(self.npc_map() =~= old(self).npc_map().insert(
                id.0,
                Npc { wpos, chunk_pos: Some(chunk_of(wpos.xy())), ..old(self).npc_map()[id.0] },
            ));
        }
        true
    }

    /// Takes the character `id` out of the table and off the grid, and
    /// returns it. The handle stands for no character from then on: it is
    /// retired, unless it is of the last generation of its slot.
    pub fn remove_npc(&mut self, id: NpcId) -> (r: Option<Npc>)
        requires
            old(self).wf(),
        ensures
            final(self).wf(),
            r == old(self).npc_spec(id),
            final(self).npc_spec(id).is_none(),
            final(self).npc_map() == (if r.is_some() {
                old(self).npc_map().remove(id.0)
            } else {
                old(self).npc_map()
            }),
            !is_last_generation(id.0) ==> final(self).retired() == (if r.is_some() {
                old(self).retired().insert(id.0)
            } else {
                old(self).retired()
            }),
            final(self).npc_grid.size == old(self).npc_grid.size,
            final(self).vehicles == old(self).vehicles,
            r matches Some(npc) ==> (npc.chunk_pos matches Some(c) ==> !final(self).npc_grid.npcs_at(c).contains(id)),
            forall|d: Vec2i|
                #[trigger] final(self).npc_grid.npcs_at(d) == (if r.is_some()
                    && r.unwrap().chunk_pos == Some(d) {
                    without_npc(old(self).npc_grid.npcs_at(d), id)
                } else {
                    old(self).npc_grid.npcs_at(d)
                }),
            forall|d: Vec2i|
                #[trigger] final(self).npc_grid.vehicles_at(d) == old(self).npc_grid.vehicles_at(d),
            forall|other: NpcId|
                other != id && old(self).placed(other) ==> #[trigger] final(self).placed(other),
            old(self).indexed() ==> final(self).indexed(),
    {
        if !id.is_well_formed() {
            return None;
        }
        let r = npcs_remove(&mut self.npcs, id.0);
        match &r {
            Some(npc) => {
                match npc.chunk_pos {
                    Some(c) => {
                        self.npc_grid.remove_npc(c, id);
                    },
                    None => {},
                }
            },
            None => {
                assert(self.npc_map() =~= old(self).npc_map());
            },
        }
        proof {
            assert forall|other: NpcId| other != id && old(self).placed(other) implies #[trigger] self.placed(
                other,
            ) by {
                assert(other.0 != id.0);
                assert(self.npc_spec(other) == old(self).npc_spec(other));
            }
        }
        r
    }

    /// The character that `id` stands for, to be changed in place. Whoever
    /// moves a character in this way leaves the grid out of date for it until
    /// the character is placed again.
    pub fn get_mut(&mut self, id: NpcId) -> (r: Option<&mut Npc>)
        ensures
            final(self).retired() == old(self).retired(),
            final(self).vehicles == old(self).vehicles,
            final(self).npc_grid == old(self).npc_grid,
            match r {
                Some(npc) => old(self).npc_spec(id) == Some(*npc) && final(self).npc_map() == old(self).npc_map().insert(id.0, *final(npc)),
                None => old(self).npc_spec(id).is_none() && final(self).npc_map() == old(self).npc_map(),
            },
    {
        if id.is_well_formed() {
            npcs_get_mut(&mut self.npcs, id.0)
        } else {
            None
        }
    }

    /// The vehicle that `id` stands for, to be changed in place.
    pub fn get_vehicle_mut(&mut self, id: VehicleId) -> (r: Option<&mut Vehicle>)
        ensures
            final(self).npcs == old(self).npcs,
            final(self).npc_grid == old(self).npc_grid,
            match r {
                Some(v) => old(self).vehicle_spec(id) == Some(*v) && final(self).vehicle_map()
                    == old(self).vehicle_map().insert(id.0, *final(v)),
                None => old(self).vehicle_spec(id).is_none() && final(self).vehicle_map() == old(self).vehicle_map(),
            },
    {
        if id.is_well_formed() {
            vehicles_get_mut(&mut self.vehicles, id.0)
        } else {
            None
        }
    }

    /// Sets the mode of the character `id`. Returns whether `id` stands for
    /// a character.
    pub fn set_npc_mode(&mut self, id: NpcId, mode: SimulationMode) -> (found: bool)
        ensures
            found == old(self).npc_spec(id).is_some(),
            final(self).npc_grid == old(self).npc_grid,
            final(self).retired() == old(self).retired(),
            final(self).vehicles == old(self).vehicles,
            final(self).npc_map() == (match old(self).npc_spec(id) {
                Some(npc) => old(self).npc_map().insert(id.0, Npc { mode, ..npc }),
                None => old(self).npc_map(),
            }),
    {
        if !id.is_well_formed() {
            return false;
        }
        match npcs_get_mut(&mut self.npcs, id.0) {
            Some(npc) => {
                npc.mode = mode;
                true
            },
            None => false,
        }
    }

    /// Sets the mode of the vehicle `id`. Returns whether `id` stands for a
    /// vehicle.
    pub fn set_vehicle_mode(&mut self, id: VehicleId, mode: SimulationMode) -> (found: bool)
        ensures
            found == old(self).vehicle_spec(id).is_some(),
            final(self).npc_grid == old(self).npc_grid,
            final(self).npcs == old(self).npcs,
            final(self).vehicle_map() == (match old(self).vehicle_spec(id) {
                Some(v) => old(self).vehicle_map().insert(id.0, Vehicle { mode, ..v }),
                None => old(self).vehicle_map(),
            }),
    {
        if !id.is_well_formed() {
            return false;
        }
        match vehicles_get_mut(&mut self.vehicles, id.0) {
            Some(v) => {
                v.mode = mode;
                true
            },
            None => false,
        }
    }

    /// Whether the grid is up to date for the vehicle `id`: the vehicle
    /// remembers the chunk it is in, and the grid lists it there, if the
    /// chunk lies on the grid.
    pub open spec fn vehicle_placed(&self, id: VehicleId) -> bool {
        self.vehicle_spec(id) matches Some(v) ==> {
            let c = chunk_of(v.wpos.xy());
            &&& v.chunk_pos == Some(c)
            &&& self.npc_grid.in_bounds(c) ==> self.npc_grid.vehicles_at(c).contains(id)
        }
    }

    /// Brings the grid up to date for the vehicle `id`: the vehicle is taken
    /// off the list of the chunk that it remembers and listed, once, for the
    /// chunk that it is in, which it remembers from now on.
    pub fn place_vehicle(&mut self, id: VehicleId)
        requires
            old(self).wf(),
        ensures
            final(self).wf(),
            final(self).vehicle_placed(id),
            final(self).npc_grid.size == old(self).npc_grid.size,
            final(self).npcs == old(self).npcs,
            forall|d: Vec2i| final(self).npc_grid.npcs_at(d) == old(self).npc_grid.npcs_at(d),
            final(self).vehicle_map() == (match old(self).vehicle_spec(id) {
                Some(v) => old(self).vehicle_map().insert(
                    id.0,
                    Vehicle { chunk_pos: Some(chunk_of(v.wpos.xy())), ..v },
                ),
                None => old(self).vehicle_map(),
            }),
            old(self).vehicle_spec(id).is_none() ==> final(self).npc_grid == old(self).npc_grid,
            forall|other: VehicleId|
                other != id && old(self).vehicle_placed(other) ==> #[trigger] final(self).vehicle_placed(other),
            forall|other: NpcId| old(self).placed(other) ==> #[trigger] final(self).placed(other),
            old(self).indexed() ==> final(self).indexed(),
    {
        if !id.is_well_formed() {
            return ;
        }
        let (had, c) = match vehicles_get_mut(&mut self.vehicles, id.0) {
            Some(v) => {
                let c = v.wpos.xy().to_chunk();
                let had = v.chunk_pos;
                v.chunk_pos = Some(c);
                (had, c)
            },
            None => {
                proof {
                    assert forall|other: VehicleId|
                        old(self).vehicle_placed(other) implies self.vehicle_placed(other) by {}
                    assert forall|other: NpcId| old(self).placed(other) implies self.placed(
                        other,
                    ) by {}
                }
                return ;
            },
        };
        let ghost g0 = self.npc_grid;
        match had {
            Some(h) => {
                self.npc_grid.remove_vehicle(h, id);
            },
            None => {},
        }
        let ghost g1 = self.npc_grid;
        self.npc_grid.remove_vehicle(c, id);
        let ghost g2 = self.npc_grid;
        self.npc_grid.add_vehicle(c, id);
        proof {
            assert forall|other: VehicleId|
                other != id && old(self).vehicle_placed(other) implies #[trigger] self.vehicle_placed(
                other,
            ) by {
                assert(other.0 != id.0);
                assert(self.vehicle_spec(other) == old(self).vehicle_spec(other));
                if let Some(o) = self.vehicle_spec(other) {
                    let d = chunk_of(o.wpos.xy());
                    if g0.in_bounds(d) {
                        assert(g0.vehicles_at(d).contains(other));
                        if had == Some(d) {
                            crate::grid::lemma_without_vehicle_contains(
                                g0.vehicles_at(d),
                                id,
                                other,
                            );
                        }
                        assert(g1.vehicles_at(d).contains(other));
                        if d == c {
                            crate::grid::lemma_without_vehicle_contains(
                                g1.vehicles_at(d),
                                id,
                                other,
                            );
                        }
                        assert(g2.vehicles_at(d).contains(other));
                        if d == c {
                            let k = choose|k: int|
                                0 <= k < g2.vehicles_at(d).len() && g2.vehicles_at(d)[k] == other;
                            assert(g2.vehicles_at(d).push(id)[k] == other);
                        }
                    }
                }
            }
            if self.npc_grid.in_bounds(c) {
                let listed = self.npc_grid.vehicles_at(c);
                assert(listed[listed.len() - 1] == id);
            }
            assert forall|other: NpcId| old(self).placed(other) implies #[trigger] self.placed(
                other,
            ) by {}
            if old(self).indexed() {
                assert forall|other: NpcId| #[trigger] self.placed(other) by {
                    assert(old(self).placed(other));
                }
            }
        }
    }

    /// Moves the vehicle `id` to `wpos` and brings the grid up to date for
    /// it. Returns whether `id` stands for a vehicle.
    pub fn set_vehicle_wpos(&mut self, id: VehicleId, wpos: Vec3i) -> (found: bool)
        requires
            old(self).wf(),
        ensures
            final(self).wf(),
            found == old(self).vehicle_spec(id).is_some(),
            final(self).vehicle_placed(id),
            final(self).npc_grid.size == old(self).npc_grid.size,
            final(self).npcs == old(self).npcs,
            forall|d: Vec2i| final(self).npc_grid.npcs_at(d) == old(self).npc_grid.npcs_at(d),
            final(self).vehicle_map() == (match old(self).vehicle_spec(id) {
                Some(v) => old(self).vehicle_map().insert(
                    id.0,
                    Vehicle { wpos, chunk_pos: Some(chunk_of(wpos.xy())), ..v },
                ),
                None => old(self).vehicle_map(),
            }),
            !found ==> final(self).npc_grid == old(self).npc_grid,
            forall|other: NpcId| old(self).placed(other) ==> #[trigger] final(self).placed(other),
            old(self).indexed() ==> final(self).indexed(),
    {
        if !id.is_well_formed() {
            return false;
        }
        match vehicles_get_mut(&mut self.vehicles, id.0) {
            Some(v) => {
                v.wpos = wpos;
            },
            None => {
                proof {
                    assert forall|other: NpcId| old(self).placed(other) implies self.placed(
                        other,
                    ) by {}
                }
                return false;
            },
        }
        let ghost mid = *self;
        proof {
            assert forall|other: NpcId| old(self).placed(other) implies mid.placed(other) by {}
        }
        self.place_vehicle(id);
        proof {
            assert(self.vehicle_map() =~= old(self).vehicle_map().insert(
                id.0,
                Vehicle {
                    wpos,
                    chunk_pos: Some(chunk_of(wpos.xy())),
                    ..old(self).vehicle_map()[id.0]
                },
            ));
        }
        true
    }

    /// A query holds whatever one of the first `n` chunks of the
    /// neighbourhood contributes.
    pub proof fn lemma_nearby_upto_contains(
        &self,
        n: int,
        j: int,
        origin: Vec2i,
        radius: int,
        id: NpcId,
    )
        requires
            0 <= j < n,
            self.cell_hits(shifted(chunk_of(origin), locality()[j]), origin, radius).contains(id),
        ensures
            self.nearby_upto(n, origin, radius).contains(id),
        decreases n,
    {
        let head = self.nearby_upto(n - 1, origin, radius);
        let tail = self.cell_hits(shifted(chunk_of(origin), locality()[n - 1]), origin, radius);
        if j == n - 1 {
            let k = choose|k: int| 0 <= k < tail.len() && tail[k] == id;
            assert((head + tail)[head.len() + k] == id);
        } else {
            self.lemma_nearby_upto_contains(n - 1, j, origin, radius, id);
            let k = choose|k: int| 0 <= k < head.len() && head[k] == id;
            assert((head + tail)[k] == id);
        }
    }

    /// Whatever the first `n` chunks of the neighbourhood contribute to a
    /// query is a character less than `radius` away.
    pub proof fn lemma_nearby_upto_within(&self, n: int, origin: Vec2i, radius: int, id: NpcId)
        requires
            self.nearby_upto(n, origin, radius).contains(id),
        ensures
            (self.within(origin, radius))(id),
        decreases n,
    {
        if n > 0 {
            let head = self.nearby_upto(n - 1, origin, radius);
            let c = shifted(chunk_of(origin), locality()[n - 1]);
            let tail = self.cell_hits(c, origin, radius);
            let k = choose|k: int| 0 <= k < (head + tail).len() && (head + tail)[k] == id;
            if k < head.len() {
                assert(head[k] == id);
                self.lemma_nearby_upto_within(n - 1, origin, radius, id);
            } else {
                assert(tail[k - head.len()] == id);
                self.npc_grid.npcs_at(c).lemma_filter_pred(
                    self.within(origin, radius),
                    k - head.len(),
                );
            }
        }
    }

    /// A query has no false positives: every character that it returns
    /// exists and is less than `radius` away from `origin`.
    pub proof fn lemma_nearby_is_sound(&self, origin: Vec2i, radius: int, id: NpcId)
        requires
            self.nearby_spec(origin, radius).contains(id),
        ensures
            self.npc_spec(id) matches Some(npc) && dist_sqr(npc.wpos.xy(), origin) < radius
                * radius,
    {
        self.lemma_nearby_upto_within(9, origin, radius, id);
    }

    /// A query with a radius of no more than a chunk's width has no false
    /// negatives: where the grid is up to date, every character that is less
    /// than `radius` away from `origin`, and stands on the grid, is returned.
    pub proof fn lemma_nearby_is_complete(&self, origin: Vec2i, radius: int, id: NpcId)
        requires
            self.wf(),
            self.indexed(),
            0 <= radius <= CHUNK_SIZE,
            self.npc_spec(id) matches Some(npc) && dist_sqr(npc.wpos.xy(), origin) < radius
                * radius && self.npc_grid.in_bounds(chunk_of(npc.wpos.xy())),
        ensures
            self.nearby_spec(origin, radius).contains(id),
    {
        let npc = self.npc_spec(id).unwrap();
        let p = npc.wpos.xy();
        let cn = chunk_of(p);
        let co = chunk_of(origin);
        let dx = p.x - origin.x;
        let dy = p.y - origin.y;
        assert(-radius < dx < radius && -radius < dy < radius) by (nonlinear_arith)
            requires
                dx * dx + dy * dy < radius * radius,
                0 <= radius,
        ;
        let ox = cn.x - co.x;
        let oy = cn.y - co.y;
        assert(-1 <= ox <= 1);
        assert(-1 <= oy <= 1);
        let j: int = if ox == 0 && oy == 0 {
            0
        } else if ox == 0 && oy == 1 {
            1
        } else if ox == 1 && oy == 0 {
            2
        } else if ox == 0 && oy == -1 {
            3
        } else if ox == -1 && oy == 0 {
            4
        } else if ox == 1 && oy == 1 {
            5
        } else if ox == 1 && oy == -1 {
            6
        } else if ox == -1 && oy == 1 {
            7
        } else {
            8
        };
        assert(locality()[j] == (Vec2i { x: ox as i32, y: oy as i32 }));
        assert(shifted(co, locality()[j]) == cn);
        assert(self.placed(id));
        let listed = self.npc_grid.npcs_at(cn);
        let i = choose|i: int| 0 <= i < listed.len() && listed[i] == id;
        listed.lemma_filter_contains(self.within(origin, radius), i);
        self.lemma_nearby_upto_contains(9, j, origin, radius, id);
    }
}

} // verus!
