//! Factions: the powers that sites and characters belong to.

use vstd::prelude::*;
use crate::ids::is_count_of;
use crate::ids::well_formed_handle;
use crate::ids::Actor;
use crate::ids::FactionId;
use crate::npc::TABLE_LIMIT;
use crate::rng::gen_ratio;
use crate::rng::gen_u32;
use crate::sentiment::Sentiments;

verus! {

/// A faction.
pub struct Faction {
    /// Spreads the work that is done for the faction once in a number of
    /// ticks.
    pub seed: u32,
    pub leader: Option<Actor>,
    pub good_or_evil: bool,
    pub sentiments: Sentiments,
}

impl Faction {
    /// A faction without a leader that feels nothing yet, good or evil as
    /// `good` says.
    pub fn new(seed: u32, good: bool) -> (f: Self)
        ensures
            f.seed == seed,
            f.leader.is_none(),
            f.good_or_evil == good,
            f.sentiments.entries() == Map::<(u8, i128), i8>::empty(),
    {
        Faction { seed, leader: None, good_or_evil: good, sentiments: Sentiments::default() }
    }

    /// A faction without a leader that feels nothing yet, with a seed that is
    /// drawn, and good or evil with equal chance.
    pub fn generate(rng: &mut rand_chacha::ChaCha20Rng) -> (f: Self)
        ensures
            f.leader.is_none(),
            f.sentiments.entries() == Map::<(u8, i128), i8>::empty(),
    {
        let seed = gen_u32(rng);
        let good = gen_ratio(rng, 1, 2);
        Faction::new(seed, good)
    }
}

/// The table of factions: a `slotmap::HopSlotMap` whose keys are handed out
/// as the numbers that `KeyData::as_ffi` makes of them.
#[verifier::external_body]
pub struct FactionTable {
    map: slotmap::HopSlotMap<slotmap::DefaultKey, Faction>,
}

/// What a table of factions holds: the faction stored under each handle.
pub uninterp spec fn faction_entries(t: FactionTable) -> Map<u64, Faction>;

/// `HopSlotMap::new`: a table that holds nothing.
#[verifier::external_body]
pub(crate) fn factions_new() -> (table: FactionTable)
    ensures
        faction_entries(table) =~= Map::empty(),
{
    FactionTable { map: slotmap::HopSlotMap::new() }
}

/// `HopSlotMap::len`: the number of handles in use, of which there are
/// finitely many.
#[verifier::external_body]
pub(crate) fn factions_len(t: &FactionTable) -> (n: usize)
    ensures
        is_count_of(n as int, faction_entries(*t).dom()),
{
    t.map.len()
}

/// `HopSlotMap::insert`: stores `faction` under a handle that was not in
/// use, and returns the handle. Nothing else changes, and the table holds
/// finitely many entries. The handle has the shape of `KeyData::as_ffi`,
/// whose bit 32 is set. The call panics where the
/// table holds [`TABLE_LIMIT`] entries, which the precondition leaves out.
#[verifier::external_body]
pub(crate) fn factions_insert(t: &mut FactionTable, faction: Faction) -> (id: u64)
    requires
        faction_entries(*old(t)).dom().len() < TABLE_LIMIT,
    ensures
        !faction_entries(*old(t)).dom().contains(id),
        well_formed_handle(id),
        faction_entries(*final(t)) == faction_entries(*old(t)).insert(id, faction),
        faction_entries(*final(t)).dom().finite(),
{
    slotmap::Key::data(&t.map.insert(faction)).as_ffi()
}

/// `HopSlotMap::get` with the key that `KeyData::from_ffi` makes of `id`: the
/// faction stored under `id`, if the handle is in use.
#[verifier::external_body]
pub(crate) fn factions_get(t: &FactionTable, id: u64) -> (r: Option<&Faction>)
    requires
        well_formed_handle(id),
    ensures
        match r {
            Some(f) => faction_entries(*t).dom().contains(id) && *f == faction_entries(*t)[id],
            None => !faction_entries(*t).dom().contains(id),
        },
{
    t.map.get(slotmap::DefaultKey::from(slotmap::KeyData::from_ffi(id)))
}

/// `HopSlotMap::get_mut` with the key that `KeyData::from_ffi` makes of `id`:
/// the faction stored under `id`, if the handle is in use. What is written
/// through the reference is what the table holds under `id` afterwards;
/// nothing else changes.
#[verifier::external_body]
pub(crate) fn factions_get_mut(t: &mut FactionTable, id: u64) -> (r: Option<&mut Faction>)
    requires
        well_formed_handle(id),
    ensures
        match r {
            Some(f) => faction_entries(*old(t)).dom().contains(id) && *f == faction_entries(
                *old(t),
            )[id] && faction_entries(*final(t)) == faction_entries(*old(t)).insert(id, *final(f)),
            None => !faction_entries(*old(t)).dom().contains(id) && faction_entries(*final(t))
                == faction_entries(*old(t)),
        },
{
    t.map.get_mut(slotmap::DefaultKey::from(slotmap::KeyData::from_ffi(id)))
}

/// `HopSlotMap::keys`, each key as the number that `KeyData::as_ffi` makes of
/// it: every handle in use once, in an order that is not stated here.
#[verifier::external_body]
pub(crate) fn factions_keys(t: &FactionTable) -> (keys: Vec<u64>)
    ensures
        keys@.no_duplicates(),
        forall|k: u64| keys@.contains(k) <==> faction_entries(*t).dom().contains(k),
        forall|k: u64| keys@.contains(k) ==> well_formed_handle(k),
{
    t.map.keys().map(|k| slotmap::Key::data(&k).as_ffi()).collect()
}

/// All factions.
pub struct Factions {
    pub factions: FactionTable,
}

impl Factions {
    /// The faction stored under each handle.
    pub open spec fn faction_map(&self) -> Map<u64, Faction> {
        faction_entries(self.factions)
    }

    /// The faction that `id` stands for, if it stands for one.
    pub open spec fn faction_spec(&self, id: FactionId) -> Option<Faction> {
        if well_formed_handle(id.0) && self.faction_map().dom().contains(id.0) {
            Some(self.faction_map()[id.0])
        } else {
            None
        }
    }

    /// No factions.
    pub fn new() -> (f: Self)
        ensures
            f.faction_map() == Map::<u64, Faction>::empty(),
    {
        Factions { factions: factions_new() }
    }

    /// The number of factions.
    pub fn len(&self) -> (n: usize)
        ensures
            self.faction_map().dom().finite(),
            n == self.faction_map().dom().len(),
    {
        factions_len(&self.factions)
    }

    /// Stores a faction and returns its handle, which was not in use.
    pub fn create(&mut self, faction: Faction) -> (id: FactionId)
        requires
            old(self).faction_map().dom().len() < TABLE_LIMIT,
        ensures
            old(self).faction_spec(id).is_none(),
            well_formed_handle(id.0),
            final(self).faction_map() == old(self).faction_map().insert(id.0, faction),
            final(self).faction_map().dom().finite(),
            final(self).faction_map().dom().len() == old(self).faction_map().dom().len() + 1,
    {
        let id = factions_insert(&mut self.factions, faction);
        proof {
            assert(old(self).faction_map().dom() =~= self.faction_map().dom().remove(id));
        }
        FactionId(id)
    }

    /// Stores a faction and returns its handle, unless the table is full:
    /// then the faction is handed back.
    pub fn try_create(&mut self, faction: Faction) -> (r: Result<FactionId, Faction>)
        ensures
            r is Ok ==> final(self).faction_map().dom().finite() && final(self).faction_map().dom().len() == old(self).faction_map().dom().len() + 1,
            match r {
                Ok(id) => old(self).faction_map().dom().len() < TABLE_LIMIT && old(self).faction_spec(id).is_none() && well_formed_handle(id.0) && final(self).faction_map() == old(self).faction_map().insert(id.0, faction),
                Err(back) => old(self).faction_map().dom().len() >= TABLE_LIMIT && back
                    == faction && final(self).faction_map() == old(self).faction_map(),
            },
    {
        if self.len() < TABLE_LIMIT {
            Ok(self.create(faction))
        } else {
            Err(faction)
        }
    }

    /// The faction that `id` stands for. A handle that is stale, or that no
    /// table gave out, stands for none.
    pub fn get(&self, id: FactionId) -> (r: Option<&Faction>)
        ensures
            match r {
                Some(f) => self.faction_spec(id) == Some(*f),
                None => self.faction_spec(id).is_none(),
            },
    {
        if id.is_well_formed() {
            factions_get(&self.factions, id.0)
        } else {
            None
        }
    }

    /// The faction that `id` stands for, to be changed in place.
    pub fn get_mut(&mut self, id: FactionId) -> (r: Option<&mut Faction>)
        ensures
            match r {
                Some(f) => old(self).faction_spec(id) == Some(*f) && final(self).faction_map()
                    == old(self).faction_map().insert(id.0, *final(f)),
                None => old(self).faction_spec(id).is_none() && final(self).faction_map() == old(self).faction_map(),
            },
    {
        if id.is_well_formed() {
            factions_get_mut(&mut self.factions, id.0)
        } else {
            None
        }
    }

    /// The handles of all factions, each once.
    pub fn faction_ids(&self) -> (ids: Vec<FactionId>)
        ensures
            ids@.no_duplicates(),
            forall|id: FactionId| ids@.contains(id) <==> self.faction_spec(id).is_some(),
    {
        let keys = factions_keys(&self.factions);
        let mut ids: Vec<FactionId> = Vec::new();
        let mut i: usize = 0;
        while i < keys.len()
            invariant
                i <= keys.len(),
                ids@.len() == i,
                forall|j: int| 0 <= j < i ==> (#[trigger] ids@[j]).0 == keys@[j],
            decreases keys.len() - i,
        {
            ids.push(FactionId(keys[i]));
            i = i + 1;
        }
        proof {
            assert forall|a: int, b: int| 0 <= a < ids@.len() && 0 <= b < ids@.len() && a
                != b implies ids@[a] != ids@[b] by {
                assert(keys@[a] != keys@[b]);
            }
            assert forall|id: FactionId| ids@.contains(id) <==> self.faction_spec(
                id,
            ).is_some() by {
                if ids@.contains(id) {
                    let j = choose|j: int| 0 <= j < ids@.len() && ids@[j] == id;
                    assert(keys@.contains(keys@[j]));
                }
                if self.faction_spec(id).is_some() {
                    assert(keys@.contains(id.0));
                    let j = choose|j: int| 0 <= j < keys@.len() && keys@[j] == id.0;
                    assert(ids@[j] == id);
                }
            }
        }
        ids
    }
}

} // verus!
