//! Sites: the places of the world that characters call home.

use vstd::prelude::*;
use crate::geom::Vec2i;
use crate::grid::remove_npc_from;
use crate::grid::without_npc;
use crate::ids::is_count_of;
use crate::ids::well_formed_handle;
use crate::ids::FactionId;
use crate::ids::NpcId;
use crate::ids::SiteId;
use crate::ids::WorldSiteId;
use crate::npc::TABLE_LIMIT;

verus! {

/// A site.
pub struct Site {
    pub wpos: Vec2i,
    pub faction: Option<FactionId>,
    /// The site of the generated world that this site corresponds to. The
    /// link is made when the simulation is set up and is not saved; a site
    /// whose counterpart the world no longer has is an orphan.
    pub world_site: Option<WorldSiteId>,
    /// The characters whose home the site is.
    pub population: Vec<NpcId>,
}

impl Site {
    /// A site at `wpos` that nobody owns or lives in.
    pub fn new(wpos: Vec2i, world_site: Option<WorldSiteId>) -> (site: Self)
        ensures
            site.wpos == wpos,
            site.faction.is_none(),
            site.world_site == world_site,
            site.population@ == Seq::<NpcId>::empty(),
    {
        Site { wpos, faction: None, world_site, population: Vec::new() }
    }

    pub fn with_faction(self, faction: Option<FactionId>) -> (site: Self)
        ensures
            site == (Site { faction, ..self }),
    {
        let mut site = self;
        site.faction = faction;
        site
    }
}

/// The table of sites: a `slotmap::HopSlotMap` whose keys are handed out as
/// the numbers that `KeyData::as_ffi` makes of them.
#[verifier::external_body]
pub struct SiteTable {
    map: slotmap::HopSlotMap<slotmap::DefaultKey, Site>,
}

/// What a table of sites holds: the site stored under each handle.
pub uninterp spec fn site_entries(t: SiteTable) -> Map<u64, Site>;

/// `HopSlotMap::new`: a table that holds nothing.
#[verifier::external_body]
pub(crate) fn sites_new() -> (table: SiteTable)
    ensures
        site_entries(table) =~= Map::empty(),
{
    SiteTable { map: slotmap::HopSlotMap::new() }
}

/// `HopSlotMap::len`: the number of handles in use, of which there are
/// finitely many.
#[verifier::external_body]
pub(crate) fn sites_len(t: &SiteTable) -> (n: usize)
    ensures
        is_count_of(n as int, site_entries(*t).dom()),
{
    t.map.len()
}

/// `HopSlotMap::insert`: stores `site` under a handle that was not in use,
/// and returns the handle. Nothing else changes, and the table holds finitely
/// many entries. The handle has the shape of `KeyData::as_ffi`, whose bit 32
/// is set. The call panics where the table
/// holds [`TABLE_LIMIT`] entries, which the precondition leaves out.
#[verifier::external_body]
pub(crate) fn sites_insert(t: &mut SiteTable, site: Site) -> (id: u64)
    requires
        site_entries(*old(t)).dom().len() < TABLE_LIMIT,
    ensures
        !site_entries(*old(t)).dom().contains(id),
        well_formed_handle(id),
        site_entries(*final(t)) == site_entries(*old(t)).insert(id, site),
        site_entries(*final(t)).dom().finite(),
{
    slotmap::Key::data(&t.map.insert(site)).as_ffi()
}

/// `HopSlotMap::get` with the key that `KeyData::from_ffi` makes of `id`: the
/// site stored under `id`, if the handle is in use.
#[verifier::external_body]
pub(crate) fn sites_get(t: &SiteTable, id: u64) -> (r: Option<&Site>)
    requires
        well_formed_handle(id),
    ensures
        match r {
            Some(site) => site_entries(*t).dom().contains(id) && *site == site_entries(*t)[id],
            None => !site_entries(*t).dom().contains(id),
        },
{
    t.map.get(slotmap::DefaultKey::from(slotmap::KeyData::from_ffi(id)))
}

/// `HopSlotMap::get_mut` with the key that `KeyData::from_ffi` makes of `id`:
/// the site stored under `id`, if the handle is in use. What is written
/// through the reference is what the table holds under `id` afterwards;
/// nothing else changes.
#[verifier::external_body]
pub(crate) fn sites_get_mut(t: &mut SiteTable, id: u64) -> (r: Option<&mut Site>)
    requires
        well_formed_handle(id),
    ensures
        match r {
            Some(site) => site_entries(*old(t)).dom().contains(id) && *site == site_entries(
                *old(t),
            )[id] && site_entries(*final(t)) == site_entries(*old(t)).insert(id, *final(site)),
            None => !site_entries(*old(t)).dom().contains(id) && site_entries(*final(t))
                == site_entries(*old(t)),
        },
{
    t.map.get_mut(slotmap::DefaultKey::from(slotmap::KeyData::from_ffi(id)))
}

/// `HopSlotMap::keys`, each key as the number that `KeyData::as_ffi` makes of
/// it: every handle in use once, in an order that is not stated here.
#[verifier::external_body]
pub(crate) fn sites_keys(t: &SiteTable) -> (keys: Vec<u64>)
    ensures
        keys@.no_duplicates(),
        forall|k: u64| keys@.contains(k) <==> site_entries(*t).dom().contains(k),
        forall|k: u64| keys@.contains(k) ==> well_formed_handle(k),
{
    t.map.keys().map(|k| slotmap::Key::data(&k).as_ffi()).collect()
}

/// The links from the sites of the generated world to the sites of the
/// simulation: a `hashbrown::HashMap` from the number of the one to the
/// handle of the other.
#[verifier::external_body]
pub struct WorldSiteLinks {
    map: hashbrown::HashMap<u64, u64>,
}

/// What the links hold: the handle stored for each site of the world.
pub uninterp spec fn link_entries(t: WorldSiteLinks) -> Map<u64, u64>;

/// `HashMap::new`: no links.
#[verifier::external_body]
pub(crate) fn links_new() -> (table: WorldSiteLinks)
    ensures
        link_entries(table) =~= Map::empty(),
{
    WorldSiteLinks { map: hashbrown::HashMap::new() }
}

/// `HashMap::insert`: afterwards `value` is stored for `key`, and every other
/// key holds what it held.
#[verifier::external_body]
pub(crate) fn links_insert(t: &mut WorldSiteLinks, key: u64, value: u64)
    ensures
        link_entries(*final(t)) == link_entries(*old(t)).insert(key, value),
{
    t.map.insert(key, value);
}

/// `HashMap::get`: what is stored for `key`, if anything.
#[verifier::external_body]
pub(crate) fn links_get(t: &WorldSiteLinks, key: u64) -> (r: Option<u64>)
    ensures
        r == (if link_entries(*t).dom().contains(key) {
            Some(link_entries(*t)[key])
        } else {
            None
        }),
{
    t.map.get(&key).copied()
}

/// All sites, and the links to them from the sites of the generated world.
pub struct Sites {
    pub sites: SiteTable,
    pub world_site_map: WorldSiteLinks,
}

impl Sites {
    /// The site stored under each handle.
    pub open spec fn site_map(&self) -> Map<u64, Site> {
        site_entries(self.sites)
    }

    /// The handle linked to each site of the generated world.
    pub open spec fn links(&self) -> Map<u64, u64> {
        link_entries(self.world_site_map)
    }

    /// The site that `id` stands for, if it stands for one.
    pub open spec fn site_spec(&self, id: SiteId) -> Option<Site> {
        if well_formed_handle(id.0) && self.site_map().dom().contains(id.0) {
            Some(self.site_map()[id.0])
        } else {
            None
        }
    }

    /// No sites and no links.
    pub fn new() -> (s: Self)
        ensures
            s.site_map() == Map::<u64, Site>::empty(),
            s.links() == Map::<u64, u64>::empty(),
    {
        Sites { sites: sites_new(), world_site_map: links_new() }
    }

    /// The number of sites.
    pub fn len(&self) -> (n: usize)
        ensures
            self.site_map().dom().finite(),
            n == self.site_map().dom().len(),
    {
        sites_len(&self.sites)
    }

    /// Stores a site and returns its handle, which was not in use. Where the
    /// site corresponds to a site of the generated world, that site is linked
    /// to the handle, in place of an earlier link.
    pub fn create(&mut self, site: Site) -> (id: SiteId)
        requires
            old(self).site_map().dom().len() < TABLE_LIMIT,
        ensures
            old(self).site_spec(id).is_none(),
            well_formed_handle(id.0),
            final(self).site_map() == old(self).site_map().insert(id.0, site),
            final(self).site_map().dom().finite(),
            final(self).site_map().dom().len() == old(self).site_map().dom().len() + 1,
            final(self).links() == (match site.world_site {
                Some(world_site) => old(self).links().insert(world_site.0, id.0),
                None => old(self).links(),
            }),
    {
        let world_site = site.world_site;
        let key = sites_insert(&mut self.sites, site);
        proof {
            assert(old(self).site_map().dom() =~= self.site_map().dom().remove(key));
        }
        match world_site {
            Some(world_site) => {
                links_insert(&mut self.world_site_map, world_site.0, key);
            },
            None => {},
        }
        SiteId(key)
    }

    /// Stores a site as [`Sites::create`] does, unless the table is full:
    /// then the site is handed back and nothing changes.
    pub fn try_create(&mut self, site: Site) -> (r: Result<SiteId, Site>)
        ensures
            r is Ok ==> final(self).site_map().dom().finite() && final(self).site_map().dom().len() == old(self).site_map().dom().len() + 1,
            match r {
                Ok(id) => old(self).site_map().dom().len() < TABLE_LIMIT && old(self).site_spec(
                    id,
                ).is_none() && well_formed_handle(id.0) && final(self).site_map() == old(
                    self,
                ).site_map().insert(id.0, site) && final(self).links() == (
                match site.world_site {
                    Some(world_site) => old(self).links().insert(world_site.0, id.0),
                    None => old(self).links(),
                }),
                Err(back) => old(self).site_map().dom().len() >= TABLE_LIMIT && back == site
                    && final(self).site_map() == old(self).site_map() && final(self).links()
                    == old(self).links(),
            },
    {
        if self.len() < TABLE_LIMIT {
            Ok(self.create(site))
        } else {
            Err(site)
        }
    }

    /// The site that `id` stands for. A handle that is stale, or that no
    /// table gave out, stands for none.
    pub fn get(&self, id: SiteId) -> (r: Option<&Site>)
        ensures
            match r {
                Some(site) => self.site_spec(id) == Some(*site),
                None => self.site_spec(id).is_none(),
            },
    {
        if id.is_well_formed() {
            sites_get(&self.sites, id.0)
        } else {
            None
        }
    }

    /// The handles of all sites, each once.
    pub fn site_ids(&self) -> (ids: Vec<SiteId>)
        ensures
            ids@.no_duplicates(),
            forall|id: SiteId| ids@.contains(id) <==> self.site_spec(id).is_some(),
    {
        let keys = sites_keys(&self.sites);
        let mut ids: Vec<SiteId> = Vec::new();
        let mut i: usize = 0;
        while i < keys.len()
            invariant
                i <= keys.len(),
                ids@.len() == i,
                forall|j: int| 0 <= j < i ==> (#[trigger] ids@[j]).0 == keys@[j],
            decreases keys.len() - i,
        {
            ids.push(SiteId(keys[i]));
            i = i + 1;
        }
        proof {
            assert forall|a: int, b: int| 0 <= a < ids@.len() && 0 <= b < ids@.len() && a
                != b implies ids@[a] != ids@[b] by {
                assert(keys@[a] != keys@[b]);
            }
            assert forall|id: SiteId| ids@.contains(id) <==> self.site_spec(id).is_some() by {
                if ids@.contains(id) {
                    let j = choose|j: int| 0 <= j < ids@.len() && ids@[j] == id;
                    assert(keys@.contains(keys@[j]));
                }
                if self.site_spec(id).is_some() {
                    assert(keys@.contains(id.0));
                    let j = choose|j: int| 0 <= j < keys@.len() && keys@[j] == id.0;
                    assert(ids@[j] == id);
                }
            }
        }
        ids
    }

    /// The site that is linked to the site `world_site` of the generated
    /// world.
    pub fn linked(&self, world_site: WorldSiteId) -> (r: Option<SiteId>)
        ensures
            r == (if self.links().dom().contains(world_site.0) {
                Some(SiteId(self.links()[world_site.0]))
            } else {
                None
            }),
    {
        match links_get(&self.world_site_map, world_site.0) {
            Some(raw) => Some(SiteId(raw)),
            None => None,
        }
    }

    /// Makes the character `npc` a resident of the site `id`. Returns whether
    /// `id` stands for a site.
    pub fn add_resident(&mut self, id: SiteId, npc: NpcId) -> (found: bool)
        ensures
            found == old(self).site_spec(id).is_some(),
            final(self).links() == old(self).links(),
            final(self).site_map() == (match old(self).site_spec(id) {
                Some(site) => old(self).site_map().insert(
                    id.0,
                    final(self).site_map()[id.0],
                ),
                None => old(self).site_map(),
            }),
            old(self).site_spec(id) matches Some(site) ==> {
                let after = final(self).site_map()[id.0];
                &&& after.wpos == site.wpos
                &&& after.faction == site.faction
                &&& after.world_site == site.world_site
                &&& after.population@ == site.population@.push(npc)
            },
    {
        if !id.is_well_formed() {
            return false;
        }
        match sites_get_mut(&mut self.sites, id.0) {
            Some(site) => {
                site.population.push(npc);
                true
            },
            None => false,
        }
    }

    /// Strikes the character `npc` from the residents of the site `id`.
    /// Returns whether `id` stands for a site.
    pub fn remove_resident(&mut self, id: SiteId, npc: NpcId) -> (found: bool)
        ensures
            found == old(self).site_spec(id).is_some(),
            final(self).links() == old(self).links(),
            final(self).site_map().dom() == old(self).site_map().dom(),
            forall|k: u64|
                k != id.0 && old(self).site_map().dom().contains(k) ==> final(self).site_map()[k] == old(self).site_map()[k],
            old(self).site_spec(id) matches Some(site) ==> {
                let after = final(self).site_map()[id.0];
                &&& after.wpos == site.wpos
                &&& after.faction == site.faction
                &&& after.world_site == site.world_site
                &&& after.population@ == without_npc(site.population@, npc)
            },
            !found ==> final(self).site_map() == old(self).site_map(),
    {
        if !id.is_well_formed() {
            return false;
        }
        match sites_get_mut(&mut self.sites, id.0) {
            Some(site) => {
                remove_npc_from(&mut site.population, npc);
                true
            },
            None => false,
        }
    }
}

} // verus!
