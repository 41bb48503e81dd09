//! The decisions of the server's tick: which chunks are loaded, which
//! simulated entities become game entities, and what they are made from.

use vstd::prelude::*;
use crate::geom::terrain_chunk_of;
use crate::geom::Vec2i;
use crate::geom::Vec3i;
use crate::data::Data;
use crate::ids::well_formed_handle;
use crate::ids::Actor;
use crate::ids::NpcId;
use crate::ids::VehicleId;
use crate::ids::WorldSiteId;
use crate::npc::npcs_get_mut;
use crate::npc::vehicles_get_mut;
use crate::npc::ShipBody;
use crate::npc::SimulationMode;
use crate::npc::Vehicle;
use crate::npc::BipedLargeSpecies;
use crate::npc::BirdLargeSpecies;
use crate::npc::Body;
use crate::npc::Npc;
use crate::npc::Profession;
use crate::site::Sites;

verus! {

/// The goods of trade.
#[derive(Clone, Copy, Debug, PartialEq, Eq, Structural)]
pub enum Good {
    Territory,
    Flour,
    Meat,
    Terrain,
    Transportation,
    Food,
    Wood,
    Stone,
    Tools,
    Armor,
    Ingredients,
    Potions,
    Coin,
    RoadSecurity,
}

/// What marks an agent for players.
#[derive(Clone, Copy, Debug, PartialEq, Eq, Structural)]
pub enum Mark {
    Merchant,
    Guard,
}

/// Whose side an entity is on.
#[derive(Clone, Copy, Debug, PartialEq, Eq, Structural)]
pub enum Alignment {
    /// A peaceful inhabitant.
    Npc,
    /// Hostile to players.
    Enemy,
}

/// The name of the entity configuration of each profession. An adventurer of
/// a rank above 3 is configured as one of rank 3.
pub open spec fn humanoid_config_spec(profession: Profession) -> Seq<char> {
    match profession {
        Profession::Farmer => "common.entity.village.farmer"@,
        Profession::Hunter => "common.entity.village.hunter"@,
        Profession::Herbalist => "common.entity.village.herbalist"@,
        Profession::Captain => "common.entity.village.captain"@,
        Profession::Merchant => "common.entity.village.merchant"@,
        Profession::Guard => "common.entity.village.guard"@,
        Profession::Adventurer(rank) => if rank == 0 {
            "common.entity.world.traveler0"@
        } else if rank == 1 {
            "common.entity.world.traveler1"@
        } else if rank == 2 {
            "common.entity.world.traveler2"@
        } else {
            "common.entity.world.traveler3"@
        },
        Profession::Blacksmith => "common.entity.village.blacksmith"@,
        Profession::Chef => "common.entity.village.chef"@,
        Profession::Alchemist => "common.entity.village.alchemist"@,
        Profession::Pirate => "common.entity.spot.pirate"@,
        Profession::Cultist => "common.entity.dungeon.tier-5.cultist"@,
    }
}

/// The name of the entity configuration of a profession.
pub fn humanoid_config(profession: &Profession) -> (name: &'static str)
    ensures
        name@ == humanoid_config_spec(*profession),
{
    match profession {
        Profession::Farmer => "common.entity.village.farmer",
        Profession::Hunter => "common.entity.village.hunter",
        Profession::Herbalist => "common.entity.village.herbalist",
        Profession::Captain => "common.entity.village.captain",
        Profession::Merchant => "common.entity.village.merchant",
        Profession::Guard => "common.entity.village.guard",
        Profession::Adventurer(rank) => match rank {
            0 => "common.entity.world.traveler0",
            1 => "common.entity.world.traveler1",
            2 => "common.entity.world.traveler2",
            _ => "common.entity.world.traveler3",
        },
        Profession::Blacksmith => "common.entity.village.blacksmith",
        Profession::Chef => "common.entity.village.chef",
        Profession::Alchemist => "common.entity.village.alchemist",
        Profession::Pirate => "common.entity.spot.pirate",
        Profession::Cultist => "common.entity.dungeon.tier-5.cultist",
    }
}

/// The name of the entity configuration of a wild creature, for the bodies
/// that a game entity can be made of.
pub open spec fn wild_config_spec(body: Body) -> Option<Seq<char>> {
    match body {
        Body::BirdLarge(species) => Some(
            match species {
                BirdLargeSpecies::Phoenix => "common.entity.wild.peaceful.phoenix"@,
                BirdLargeSpecies::Cockatrice => "common.entity.wild.aggressive.cockatrice"@,
                BirdLargeSpecies::Roc => "common.entity.wild.aggressive.roc"@,
                BirdLargeSpecies::CloudWyvern => "common.entity.wild.aggressive.cloudwyvern"@,
                BirdLargeSpecies::FlameWyvern => "common.entity.wild.aggressive.flamewyvern"@,
                BirdLargeSpecies::FrostWyvern => "common.entity.wild.aggressive.frostwyvern"@,
                BirdLargeSpecies::SeaWyvern => "common.entity.wild.aggressive.seawyvern"@,
                BirdLargeSpecies::WealdWyvern => "common.entity.wild.aggressive.wealdwyvern"@,
            },
        ),
        Body::BipedLarge(species) => match species {
            BipedLargeSpecies::Ogre => Some("common.entity.wild.aggressive.ogre"@),
            BipedLargeSpecies::Cyclops => Some("common.entity.wild.aggressive.cyclops"@),
            BipedLargeSpecies::Wendigo => Some("common.entity.wild.aggressive.wendigo"@),
            BipedLargeSpecies::Werewolf => Some("common.entity.wild.aggressive.werewolf"@),
            BipedLargeSpecies::Cavetroll => Some("common.entity.wild.aggressive.cave_troll"@),
            BipedLargeSpecies::Mountaintroll => Some(
                "common.entity.wild.aggressive.mountain_troll"@,
            ),
            BipedLargeSpecies::Swamptroll => Some("common.entity.wild.aggressive.swamp_troll"@),
            BipedLargeSpecies::Blueoni => Some("common.entity.wild.aggressive.blue_oni"@),
            BipedLargeSpecies::Redoni => Some("common.entity.wild.aggressive.red_oni"@),
            BipedLargeSpecies::Tursus => Some("common.entity.wild.aggressive.tursus"@),
            BipedLargeSpecies::Gigasfrost => Some(
                "common.entity.world.world_bosses.gigas_frost"@,
            ),
            BipedLargeSpecies::Other => None,
        },
        _ => None,
    }
}

/// The name of the entity configuration of a wild creature, or `None` for a
/// body that no game entity can be made of.
pub fn wild_config(body: &Body) -> (name: Option<&'static str>)
    ensures
        match name {
            Some(n) => wild_config_spec(*body) == Some(n@),
            None => wild_config_spec(*body).is_none(),
        },
{
    match body {
        Body::BirdLarge(species) => Some(
            match species {
                BirdLargeSpecies::Phoenix => "common.entity.wild.peaceful.phoenix",
                BirdLargeSpecies::Cockatrice => "common.entity.wild.aggressive.cockatrice",
                BirdLargeSpecies::Roc => "common.entity.wild.aggressive.roc",
                BirdLargeSpecies::CloudWyvern => "common.entity.wild.aggressive.cloudwyvern",
                BirdLargeSpecies::FlameWyvern => "common.entity.wild.aggressive.flamewyvern",
                BirdLargeSpecies::FrostWyvern => "common.entity.wild.aggressive.frostwyvern",
                BirdLargeSpecies::SeaWyvern => "common.entity.wild.aggressive.seawyvern",
                BirdLargeSpecies::WealdWyvern => "common.entity.wild.aggressive.wealdwyvern",
            },
        ),
        Body::BipedLarge(species) => match species {
            BipedLargeSpecies::Ogre => Some("common.entity.wild.aggressive.ogre"),
            BipedLargeSpecies::Cyclops => Some("common.entity.wild.aggressive.cyclops"),
            BipedLargeSpecies::Wendigo => Some("common.entity.wild.aggressive.wendigo"),
            BipedLargeSpecies::Werewolf => Some("common.entity.wild.aggressive.werewolf"),
            BipedLargeSpecies::Cavetroll => Some("common.entity.wild.aggressive.cave_troll"),
            BipedLargeSpecies::Mountaintroll => Some(
                "common.entity.wild.aggressive.mountain_troll",
            ),
            BipedLargeSpecies::Swamptroll => Some("common.entity.wild.aggressive.swamp_troll"),
            BipedLargeSpecies::Blueoni => Some("common.entity.wild.aggressive.blue_oni"),
            BipedLargeSpecies::Redoni => Some("common.entity.wild.aggressive.red_oni"),
            BipedLargeSpecies::Tursus => Some("common.entity.wild.aggressive.tursus"),
            BipedLargeSpecies::Gigasfrost => Some("common.entity.world.world_bosses.gigas_frost"),
            BipedLargeSpecies::Other => None,
        },
        _ => None,
    }
}

/// Whether an entity without a trade carries `good` for sale: it never does.
pub fn loadout_default(good: Good) -> (sells: bool)
    ensures
        !sells,
{
    false
}

/// Whether a merchant carries `good` for sale: every good.
pub fn merchant_loadout(good: Good) -> (sells: bool)
    ensures
        sells,
{
    true
}

/// Whether a farmer carries `good` for sale: food.
pub fn farmer_loadout(good: Good) -> (sells: bool)
    ensures
        sells == (good == Good::Food),
{
    matches!(good, Good::Food)
}

/// Whether a herbalist carries `good` for sale: ingredients.
pub fn herbalist_loadout(good: Good) -> (sells: bool)
    ensures
        sells == (good == Good::Ingredients),
{
    matches!(good, Good::Ingredients)
}

/// Whether a chef carries `good` for sale: food.
pub fn chef_loadout(good: Good) -> (sells: bool)
    ensures
        sells == (good == Good::Food),
{
    matches!(good, Good::Food)
}

/// Whether a blacksmith carries `good` for sale: tools and armor.
pub fn blacksmith_loadout(good: Good) -> (sells: bool)
    ensures
        sells == (good == Good::Tools || good == Good::Armor),
{
    matches!(good, Good::Tools | Good::Armor)
}

/// Whether an alchemist carries `good` for sale: potions.
pub fn alchemist_loadout(good: Good) -> (sells: bool)
    ensures
        sells == (good == Good::Potions),
{
    matches!(good, Good::Potions)
}

/// The trades whose members carry goods for sale.
#[derive(Clone, Copy, Debug, PartialEq, Eq, Structural)]
pub enum ExtraLoadout {
    Default,
    Merchant,
    Farmer,
    Herbalist,
    Chef,
    Blacksmith,
    Alchemist,
}

impl ExtraLoadout {
    /// Whether a member of the trade carries `good` for sale.
    pub open spec fn sells_spec(self, good: Good) -> bool {
        match self {
            ExtraLoadout::Default => false,
            ExtraLoadout::Merchant => true,
            ExtraLoadout::Farmer => good == Good::Food,
            ExtraLoadout::Herbalist => good == Good::Ingredients,
            ExtraLoadout::Chef => good == Good::Food,
            ExtraLoadout::Blacksmith => good == Good::Tools || good == Good::Armor,
            ExtraLoadout::Alchemist => good == Good::Potions,
        }
    }

    /// Whether a member of the trade carries `good` for sale.
    pub fn sells(&self, good: Good) -> (sells: bool)
        ensures
            sells == self.sells_spec(good),
    {
        match self {
            ExtraLoadout::Default => loadout_default(good),
            ExtraLoadout::Merchant => merchant_loadout(good),
            ExtraLoadout::Farmer => farmer_loadout(good),
            ExtraLoadout::Herbalist => herbalist_loadout(good),
            ExtraLoadout::Chef => chef_loadout(good),
            ExtraLoadout::Blacksmith => blacksmith_loadout(good),
            ExtraLoadout::Alchemist => alchemist_loadout(good),
        }
    }
}

/// The trade whose goods a character of the profession carries.
pub open spec fn extra_loadout_spec(profession: Option<Profession>) -> ExtraLoadout {
    match profession {
        Some(Profession::Merchant) => ExtraLoadout::Merchant,
        Some(Profession::Farmer) => ExtraLoadout::Farmer,
        Some(Profession::Herbalist) => ExtraLoadout::Herbalist,
        Some(Profession::Chef) => ExtraLoadout::Chef,
        Some(Profession::Blacksmith) => ExtraLoadout::Blacksmith,
        Some(Profession::Alchemist) => ExtraLoadout::Alchemist,
        _ => ExtraLoadout::Default,
    }
}

/// The trade whose goods a character of the profession carries.
pub fn profession_extra_loadout(profession: Option<&Profession>) -> (trade: ExtraLoadout)
    ensures
        trade == extra_loadout_spec(
            match profession {
                Some(p) => Some(*p),
                None => None,
            },
        ),
{
    match profession {
        Some(Profession::Merchant) => ExtraLoadout::Merchant,
        Some(Profession::Farmer) => ExtraLoadout::Farmer,
        Some(Profession::Herbalist) => ExtraLoadout::Herbalist,
        Some(Profession::Chef) => ExtraLoadout::Chef,
        Some(Profession::Blacksmith) => ExtraLoadout::Blacksmith,
        Some(Profession::Alchemist) => ExtraLoadout::Alchemist,
        _ => ExtraLoadout::Default,
    }
}

/// The mark that an agent of the profession bears: traders are marked as
/// merchants, guards as guards.
pub open spec fn agent_mark_spec(profession: Option<Profession>) -> Option<Mark> {
    match profession {
        Some(Profession::Merchant) | Some(Profession::Farmer) | Some(Profession::Herbalist) | Some(
            Profession::Chef,
        ) | Some(Profession::Blacksmith) | Some(Profession::Alchemist) => Some(Mark::Merchant),
        Some(Profession::Guard) => Some(Mark::Guard),
        _ => None,
    }
}

/// The mark that an agent of the profession bears.
pub fn profession_agent_mark(profession: Option<&Profession>) -> (mark: Option<Mark>)
    ensures
        mark == agent_mark_spec(
            match profession {
                Some(p) => Some(*p),
                None => None,
            },
        ),
{
    match profession {
        Some(Profession::Merchant) => Some(Mark::Merchant),
        Some(Profession::Farmer) => Some(Mark::Merchant),
        Some(Profession::Herbalist) => Some(Mark::Merchant),
        Some(Profession::Chef) => Some(Mark::Merchant),
        Some(Profession::Blacksmith) => Some(Mark::Merchant),
        Some(Profession::Alchemist) => Some(Mark::Merchant),
        Some(Profession::Guard) => Some(Mark::Guard),
        _ => None,
    }
}

/// What a game entity is made from.
#[derive(Clone, Copy, Debug)]
pub struct EntityInfo {
    pub pos: Vec3i,
    pub body: Body,
    /// The name of the entity configuration.
    pub config: &'static str,
    pub alignment: Alignment,
    /// The site of the generated world whose economy stocks the entity.
    pub economy: Option<WorldSiteId>,
    pub extra_loadout: ExtraLoadout,
    pub agent_mark: Option<Mark>,
    /// The seed of the generator that draws what the configuration leaves
    /// open.
    pub seed: u32,
}

impl Npc {
    pub const PERM_ENTITY_CONFIG: u32 = 3;
}

/// The site of the generated world that a character's home is linked to.
pub open spec fn economy_spec(npc: Npc, sites: Sites) -> Option<WorldSiteId> {
    match npc.home {
        Some(home) => match sites.site_spec(home) {
            Some(site) => site.world_site,
            None => None,
        },
        None => None,
    }
}

/// Whether `info` is what a game entity for `npc` is made from.
pub open spec fn is_entity_info_of(info: EntityInfo, npc: Npc, sites: Sites) -> bool {
    &&& info.pos == npc.wpos
    &&& info.body == npc.body
    &&& info.seed == (npc.seed + Npc::PERM_ENTITY_CONFIG) % 0x1_0000_0000
    &&& match npc.profession {
        Some(profession) => {
            &&& info.config@ == humanoid_config_spec(profession)
            &&& info.alignment == (if profession == Profession::Cultist {
                Alignment::Enemy
            } else {
                Alignment::Npc
            })
            &&& info.economy == economy_spec(npc, sites)
            &&& info.extra_loadout == extra_loadout_spec(Some(profession))
            &&& info.agent_mark == agent_mark_spec(Some(profession))
        },
        None => {
            &&& wild_config_spec(npc.body) == Some(info.config@)
            &&& info.alignment == Alignment::Npc
            &&& info.economy.is_none()
            &&& info.extra_loadout == ExtraLoadout::Default
            &&& info.agent_mark.is_none()
        },
    }
}

/// Whether a game entity can be made for `npc`: it has a profession, or a
/// body of a wild creature that has an entity configuration.
pub open spec fn can_spawn(npc: Npc) -> bool {
    npc.profession.is_some() || wild_config_spec(npc.body).is_some()
}

/// What a game entity for `npc` is made from, or `None` where none can be
/// made.
///
/// A character with a profession is made from the configuration of the
/// profession, stocked by the economy of its home and on the side of the
/// inhabitants, unless it is a cultist. A character without one is made from
/// the configuration of its species.
pub fn get_npc_entity_info(npc: &Npc, sites: &Sites) -> (r: Option<EntityInfo>)
    ensures
        r.is_some() == can_spawn(*npc),
        r matches Some(info) ==> is_entity_info_of(info, *npc, *sites),
{
    let seed = npc.rng_seed(Npc::PERM_ENTITY_CONFIG);
    match npc.profession {
        Some(profession) => {
            let economy = match npc.home {
                Some(home) => match sites.get(home) {
                    Some(site) => site.world_site,
                    None => None,
                },
                None => None,
            };
            Some(
                EntityInfo {
                    pos: npc.wpos,
                    body: npc.body,
                    config: humanoid_config(&profession),
                    alignment: if matches!(profession, Profession::Cultist) {
                        Alignment::Enemy
                    } else {
                        Alignment::Npc
                    },
                    economy,
                    extra_loadout: profession_extra_loadout(Some(&profession)),
                    agent_mark: profession_agent_mark(Some(&profession)),
                    seed,
                },
            )
        },
        None => match wild_config(&npc.body) {
            Some(config) => Some(
                EntityInfo {
                    pos: npc.wpos,
                    body: npc.body,
                    config,
                    alignment: Alignment::Npc,
                    economy: None,
                    extra_loadout: ExtraLoadout::Default,
                    agent_mark: None,
                    seed,
                },
            ),
            None => None,
        },
    }
}

/// What is known of a chunk that is loaded.
pub struct LoadedChunkState {
    /// The largest possible number of each resource in the chunk.
    pub max_res: Vec<usize>,
}

/// For each chunk of the world, whether it is loaded.
pub struct ChunkStates {
    pub size: Vec2i,
    pub chunks: Vec<Option<LoadedChunkState>>,
}

impl ChunkStates {
    /// There is an entry for each chunk of the world.
    pub open spec fn wf(&self) -> bool {
        &&& 0 <= self.size.x
        &&& 0 <= self.size.y
        &&& self.chunks@.len() == self.size.x * self.size.y
    }

    /// Whether the chunk `c` lies in the world.
    pub open spec fn in_bounds(&self, c: Vec2i) -> bool {
        0 <= c.x < self.size.x && 0 <= c.y < self.size.y
    }

    /// Where the entry of chunk `c` is stored.
    pub open spec fn index_of(&self, c: Vec2i) -> int {
        c.y * self.size.x + c.x
    }

    /// What is known of the chunk `c`: nothing where it is not loaded or lies
    /// outside the world.
    pub open spec fn state_at(&self, c: Vec2i) -> Option<LoadedChunkState> {
        if self.in_bounds(c) {
            self.chunks@[self.index_of(c)]
        } else {
            None
        }
    }

    /// The entries after the chunk `key` has been loaded with `state`: the
    /// entry of `key` holds `state`, where `key` lies in the world, and every
    /// other entry what it held.
    pub open spec fn cells_after_load(&self, key: Vec2i, state: LoadedChunkState) -> Seq<
        Option<LoadedChunkState>,
    > {
        if self.in_bounds(key) {
            self.chunks@.update(self.index_of(key), Some(state))
        } else {
            self.chunks@
        }
    }

    /// Loading a chunk again with the same state changes nothing: `once` is
    /// what a first notification makes of `before`, and a second would make
    /// of `once` what `once` is.
    pub proof fn lemma_load_twice_is_load_once(
        before: Self,
        once: Self,
        key: Vec2i,
        state: LoadedChunkState,
    )
        requires
            before.wf(),
            once.size == before.size,
            once.chunks@ == before.cells_after_load(key, state),
        ensures
            once.cells_after_load(key, state) == once.chunks@,
    {
        if before.in_bounds(key) {
            before.lemma_index(key);
            assert(once.cells_after_load(key, state) =~= once.chunks@);
        }
    }

    /// Whether the chunk `c` is loaded.
    pub open spec fn is_loaded_spec(&self, c: Vec2i) -> bool {
        self.in_bounds(c) && self.chunks@[c.y * self.size.x + c.x].is_some()
    }

    proof fn lemma_index(&self, c: Vec2i)
        requires
            self.wf(),
            self.in_bounds(c),
        ensures
            0 <= c.y * self.size.x + c.x < self.chunks@.len(),
            0 <= c.y * self.size.x,
            forall|d: Vec2i|
                self.in_bounds(d) && d.y * self.size.x + d.x == c.y * self.size.x + c.x ==> d == c,
    {
        let w = self.size.x as int;
        let h = self.size.y as int;
        let (x, y) = (c.x as int, c.y as int);
        assert(y * w + x < h * w && 0 <= y * w) by (nonlinear_arith)
            requires
                0 <= x < w,
                0 <= y < h,
        ;
        assert(h * w == w * h) by (nonlinear_arith);
        assert forall|d: Vec2i|
            self.in_bounds(d) && d.y * self.size.x + d.x == c.y * self.size.x
                + c.x implies d == c by {
            let (dx, dy) = (d.x as int, d.y as int);
            assert(dy == y) by (nonlinear_arith)
                requires
                    0 <= x < w,
                    0 <= dx < w,
                    dy * w + dx == y * w + x,
            ;
        }
    }

    /// A world of `size.x` times `size.y` chunks, none of them loaded.
    pub fn new(size: Vec2i) -> (s: Self)
        requires
            0 <= size.x,
            0 <= size.y,
            size.x * size.y <= usize::MAX,
        ensures
            s.wf(),
            s.size == size,
            forall|c: Vec2i| !s.is_loaded_spec(c),
    {
        let n: usize = (size.x as usize) * (size.y as usize);
        let mut chunks: Vec<Option<LoadedChunkState>> = Vec::new();
        let mut i: usize = 0;
        while i < n
            invariant
                i <= n,
                chunks@.len() == i,
                forall|j: int| 0 <= j < i ==> (#[trigger] chunks@[j]).is_none(),
            decreases n - i,
        {
            chunks.push(None);
            i = i + 1;
        }
        let s = ChunkStates { size, chunks };
        proof {
            assert forall|c: Vec2i| !s.is_loaded_spec(c) by {
                if s.in_bounds(c) {
                    s.lemma_index(c);
                }
            }
        }
        s
    }

    /// Where the entry of chunk `c` is stored, if `c` lies in the world.
    fn slot(&self, c: Vec2i) -> (r: Option<usize>)
        requires
            self.wf(),
        ensures
            r.is_some() == self.in_bounds(c),
            r matches Some(i) ==> i as int == c.y * self.size.x + c.x && i < self.chunks@.len(),
    {
        if 0 <= c.x && c.x < self.size.x && 0 <= c.y && c.y < self.size.y {
            let n: usize = self.chunks.len();
            let w: usize = self.size.x as usize;
            proof {
                self.lemma_index(c);
            }
            Some((c.y as usize) * w + (c.x as usize))
        } else {
            None
        }
    }

    /// Whether the chunk `c` is loaded. A chunk outside the world is not.
    pub fn is_loaded(&self, c: Vec2i) -> (b: bool)
        requires
            self.wf(),
        ensures
            b == self.is_loaded_spec(c),
    {
        match self.slot(c) {
            Some(i) => self.chunks[i].is_some(),
            None => false,
        }
    }

    /// Notes that the chunk `key` has been loaded, and keeps what is known of
    /// it in place of what was known. A chunk outside the world is passed
    /// over. Every other chunk is as it was.
    pub fn load(&mut self, key: Vec2i, state: LoadedChunkState)
        requires
            old(self).wf(),
        ensures
            final(self).wf(),
            final(self).size == old(self).size,
            final(self).chunks@ == old(self).cells_after_load(key, state),
            forall|c: Vec2i|
                #[trigger] final(self).state_at(c) == (if c == key && old(self).in_bounds(key) {
                    Some(state)
                } else {
                    old(self).state_at(c)
                }),
            forall|c: Vec2i|
                final(self).is_loaded_spec(c) == (old(self).is_loaded_spec(c) || (c == key
                    && old(self).in_bounds(key))),
    {
        match self.slot(key) {
            Some(i) => {
                self.chunks[i] = Some(state);
                proof {
                    old(self).lemma_index(key);
                    assert(self.chunks@ =~= old(self).chunks@.update(
                        old(self).index_of(key),
                        Some(state),
                    ));
                    assert forall|c: Vec2i|
                        #[trigger] self.state_at(c) == (if c == key && old(self).in_bounds(key) {
                            Some(state)
                        } else {
                            old(self).state_at(c)
                        }) by {
                        if old(self).in_bounds(c) {
                            old(self).lemma_index(c);
                        }
                    }
                    assert forall|c: Vec2i|
                        self.is_loaded_spec(c) == (old(self).is_loaded_spec(c) || (c == key
                            && old(self).in_bounds(key))) by {
                        if old(self).in_bounds(c) {
                            old(self).lemma_index(c);
                        }
                    }
                }
            },
            None => {},
        }
    }

    /// Notes that the chunk `key` has been unloaded, and forgets what was
    /// known of it. A chunk outside the world is passed over. Every other
    /// chunk is as it was.
    pub fn unload(&mut self, key: Vec2i)
        requires
            old(self).wf(),
        ensures
            final(self).wf(),
            final(self).size == old(self).size,
            final(self).chunks@ == (if old(self).in_bounds(key) {
                old(self).chunks@.update(old(self).index_of(key), None)
            } else {
                old(self).chunks@
            }),
            forall|c: Vec2i|
                #[trigger] final(self).state_at(c) == (if c == key {
                    None
                } else {
                    old(self).state_at(c)
                }),
            forall|c: Vec2i|
                final(self).is_loaded_spec(c) == (old(self).is_loaded_spec(c) && c != key),
    {
        match self.slot(key) {
            Some(i) => {
                self.chunks[i] = None;
                proof {
                    old(self).lemma_index(key);
                    assert(self.chunks@ =~= old(self).chunks@.update(old(self).index_of(key), None));
                    assert forall|c: Vec2i|
                        #[trigger] self.state_at(c) == (if c == key {
                            None
                        } else {
                            old(self).state_at(c)
                        }) by {
                        if old(self).in_bounds(c) {
                            old(self).lemma_index(c);
                        }
                    }
                    assert forall|c: Vec2i|
                        self.is_loaded_spec(c) == (old(self).is_loaded_spec(c) && c != key) by {
                        if old(self).in_bounds(c) {
                            old(self).lemma_index(c);
                        }
                    }
                }
            },
            None => {},
        }
    }
}

/// A game entity that is to be made.
pub enum SpawnRequest {
    /// Make the game entity of a character.
    CreateNpc { npc: NpcId, info: EntityInfo },
    /// Make the game entity of a vehicle, and that of its driver where there
    /// is one to be made.
    CreateShip { vehicle: VehicleId, pos: Vec3i, ship: ShipBody, driver: Option<(NpcId, EntityInfo)> },
}

/// Whether a character is to be made a game entity: it is simulated, it
/// stands in a loaded chunk, it has a body that a game entity can be made
/// of, and it does not ride a vehicle, which would bring it along.
pub open spec fn should_load_npc(npc: Npc, chunks: ChunkStates) -> bool {
    &&& npc.mode == SimulationMode::Simulated
    &&& chunks.is_loaded_spec(terrain_chunk_of(npc.wpos.xy()))
    &&& npc.riding.is_none()
    &&& can_spawn(npc)
}

/// Whether a vehicle is to be made a game entity: it is simulated and in a
/// loaded chunk.
pub open spec fn should_load_vehicle(v: Vehicle, chunks: ChunkStates) -> bool {
    v.mode == SimulationMode::Simulated && chunks.is_loaded_spec(terrain_chunk_of(v.wpos.xy()))
}

/// Whether `requests` asks for the game entity of the character `id`.
pub open spec fn requests_npc(requests: Seq<SpawnRequest>, id: NpcId) -> bool {
    exists|i: int| 0 <= i < requests.len() && (#[trigger] requests[i])->CreateNpc_npc == id
}

/// A character that mirrors a game entity is not made one again, whichever
/// chunks are loaded or are reported as loaded once more.
pub proof fn lemma_loaded_npc_is_not_loaded_again(npc: Npc, chunks: ChunkStates)
    requires
        npc.mode == SimulationMode::Loaded,
    ensures
        !should_load_npc(npc, chunks),
{
}

/// A load notification for a chunk that is loaded already changes nothing
/// about which chunks are loaded.
pub proof fn lemma_second_load_changes_nothing(before: ChunkStates, after: ChunkStates, key: Vec2i)
    requires
        before.is_loaded_spec(key),
        forall|c: Vec2i|
            after.is_loaded_spec(c) == (before.is_loaded_spec(c) || (c == key && before.in_bounds(
                key,
            ))),
    ensures
        forall|c: Vec2i| after.is_loaded_spec(c) == before.is_loaded_spec(c),
{
}

/// Whether `after` and `requests` are what the pass over the characters
/// makes of `before` where the chunks `chunks` are loaded: every character for
/// which [`should_load_npc`] holds is now `Loaded` and has one request, with
/// what its game entity is to be made from; nothing else has changed, and
/// there is no other request.
pub open spec fn npcs_loaded(
    before: Data,
    after: Data,
    chunks: ChunkStates,
    requests: Seq<SpawnRequest>,
) -> bool {
    &&& after.sites == before.sites
    &&& after.factions == before.factions
    &&& after.reports == before.reports
    &&& after.tick == before.tick
    &&& after.time_of_day == before.time_of_day
    &&& after.should_purge == before.should_purge
    &&& after.npcs.npc_grid == before.npcs.npc_grid
    &&& after.npcs.vehicles == before.npcs.vehicles
    &&& after.npcs.npc_map().dom() == before.npcs.npc_map().dom()
    &&& forall|k: u64| #[trigger]
        before.npcs.npc_map().dom().contains(k) ==> after.npcs.npc_map()[k] == (
        if well_formed_handle(k) && should_load_npc(before.npcs.npc_map()[k], chunks) {
            Npc { mode: SimulationMode::Loaded, ..before.npcs.npc_map()[k] }
        } else {
            before.npcs.npc_map()[k]
        })
    &&& forall|i: int|
        0 <= i < requests.len() ==> (#[trigger] requests[i] matches SpawnRequest::CreateNpc {
            npc,
            info,
        } && before.npcs.npc_spec(npc) matches Some(n) && should_load_npc(n, chunks)
            && is_entity_info_of(info, n, before.sites))
    &&& forall|i: int, j: int|
        0 <= i < j < requests.len() ==> requests[i]->CreateNpc_npc != requests[j]->CreateNpc_npc
    &&& forall|id: NpcId|
        (before.npcs.npc_spec(id) matches Some(n) && should_load_npc(n, chunks))
            ==> #[trigger] requests_npc(requests, id)
}

/// Turns the simulated characters that stand in loaded chunks into mirrors of
/// game entities, and returns what their game entities are to be made from.
///
/// Every character for which [`should_load_npc`] holds is set to `Loaded`
/// and has one request; nothing else changes, and no other request is made.
/// Afterwards [`should_load_npc`] holds of no character, so that a second
/// pass over the same chunks requests nothing.
pub fn load_npcs(data: &mut Data, chunks: &ChunkStates) -> (requests: Vec<SpawnRequest>)
    requires
        chunks.wf(),
    ensures
        npcs_loaded(*old(data), *final(data), *chunks, requests@),
{
    let ids = data.npcs.npc_ids();
    let mut requests: Vec<SpawnRequest> = Vec::new();
    let ghost before = data.npcs.npc_map();
    let mut i: usize = 0;
    while i < ids.len()
        invariant
            i <= ids.len(),
            chunks.wf(),
            ids@.no_duplicates(),
            forall|id: NpcId| ids@.contains(id) <==> old(data).npcs.npc_spec(id).is_some(),
            before == old(data).npcs.npc_map(),
            data.sites == old(data).sites,
            data.factions == old(data).factions,
            data.reports == old(data).reports,
            data.tick == old(data).tick,
            data.time_of_day == old(data).time_of_day,
            data.should_purge == old(data).should_purge,
            data.npcs.npc_grid == old(data).npcs.npc_grid,
            data.npcs.vehicles == old(data).npcs.vehicles,
            data.npcs.npc_map().dom() == before.dom(),
            forall|k: u64|
                before.dom().contains(k) && !well_formed_handle(k)
                    ==> #[trigger] data.npcs.npc_map()[k] == before[k],
            forall|j: int|
                i <= j < ids@.len() ==> data.npcs.npc_map()[(#[trigger] ids@[j]).0]
                    == before[ids@[j].0],
            forall|j: int|
                0 <= j < i ==> data.npcs.npc_map()[(#[trigger] ids@[j]).0] == (if should_load_npc(
                    before[ids@[j].0],
                    *chunks,
                ) {
                    Npc { mode: SimulationMode::Loaded, ..before[ids@[j].0] }
                } else {
                    before[ids@[j].0]
                }),
            forall|r: int|
                0 <= r < requests@.len() ==> (#[trigger] requests@[r] matches SpawnRequest::CreateNpc {
                    npc,
                    info,
                } && old(data).npcs.npc_spec(npc) matches Some(n) && should_load_npc(n, *chunks)
                    && is_entity_info_of(info, n, old(data).sites) && exists|j: int|
                    0 <= j < i && ids@[j] == npc),
            forall|a: int, b: int|
                0 <= a < b < requests@.len() ==> requests@[a]->CreateNpc_npc
                    != requests@[b]->CreateNpc_npc,
            forall|j: int|
                0 <= j < i && should_load_npc(before[(#[trigger] ids@[j]).0], *chunks)
                    ==> exists|r: int|
                    0 <= r < requests@.len() && (#[trigger] requests@[r])->CreateNpc_npc == ids@[j],
        decreases ids.len() - i,
    {
        let id = ids[i];
        assert(ids@.contains(id));
        assert(old(data).npcs.npc_spec(id).is_some());
        let ghost mid = data.npcs.npc_map();
        let ghost reqs = requests@;
        let info = match data.npcs.get(id) {
            Some(npc) => {
                if matches!(npc.mode, SimulationMode::Simulated) && chunks.is_loaded(
                    npc.wpos.xy().wpos_to_cpos(),
                ) && npc.riding.is_none() {
                    get_npc_entity_info(npc, &data.sites)
                } else {
                    None
                }
            },
            None => None,
        };
        match info {
            Some(info) => {
                match npcs_get_mut(&mut data.npcs.npcs, id.0) {
                    Some(npc) => {
                        npc.mode = SimulationMode::Loaded;
                    },
                    None => {},
                }
                requests.push(SpawnRequest::CreateNpc { npc: id, info });
                proof {
                    assert forall|a: int, b: int| 0 <= a < b < requests@.len() implies requests@[a]->CreateNpc_npc
                        != requests@[b]->CreateNpc_npc by {
                        if b == reqs.len() {
                            let j = choose|j: int| 0 <= j < i && ids@[j] == reqs[a]->CreateNpc_npc;
                            assert(ids@[j] != ids@[i as int]);
                        }
                    }
                    assert forall|j: int|
                        0 <= j < i + 1 && should_load_npc(
                            before[(#[trigger] ids@[j]).0],
                            *chunks,
                        ) implies exists|r: int|
                        0 <= r < requests@.len() && (#[trigger] requests@[r])->CreateNpc_npc
                            == ids@[j] by {
                        if j < i {
                            let r = choose|r: int|
                                0 <= r < reqs.len() && (#[trigger] reqs[r])->CreateNpc_npc
                                    == ids@[j];
                            assert(requests@[r] == reqs[r]);
                        } else {
                            assert(requests@[reqs.len() as int]->CreateNpc_npc == id);
                        }
                    }
                }
            },
            None => {
                assert(data.npcs.npc_map() == mid);
            },
        }
        proof {
            assert forall|j: int| i < j < ids@.len() implies data.npcs.npc_map()[(#[trigger] ids@[j]).0]
                == before[ids@[j].0] by {
                assert(ids@[j] != ids@[i as int]);
                assert(mid[ids@[j].0] == before[ids@[j].0]);
            }
            assert forall|j: int| 0 <= j < i implies data.npcs.npc_map()[(#[trigger] ids@[j]).0]
                == (if should_load_npc(before[ids@[j].0], *chunks) {
                Npc { mode: SimulationMode::Loaded, ..before[ids@[j].0] }
            } else {
                before[ids@[j].0]
            }) by {
                assert(ids@[j] != ids@[i as int]);
                assert(data.npcs.npc_map()[ids@[j].0] == mid[ids@[j].0]);
            }
            assert(data.npcs.npc_map().dom() =~= before.dom());
        }
        i = i + 1;
    }
    proof {
        assert forall|k: u64| #[trigger] before.dom().contains(k) implies data.npcs.npc_map()[k]
            == (if well_formed_handle(k) && should_load_npc(before[k], *chunks) {
            Npc { mode: SimulationMode::Loaded, ..before[k] }
        } else {
            before[k]
        }) by {
            let id = NpcId(k);
            if well_formed_handle(k) {
                assert(old(data).npcs.npc_spec(id).is_some());
                assert(ids@.contains(id));
                let j = choose|j: int| 0 <= j < ids@.len() && ids@[j] == id;
                assert(ids@[j].0 == k);
            } else {
                assert(data.npcs.npc_map()[k] == before[k]);
            }
        }
        assert forall|id: NpcId|
            (old(data).npcs.npc_spec(id) matches Some(n) && should_load_npc(
                n,
                *chunks,
            )) implies #[trigger] requests_npc(requests@, id) by {
            assert(ids@.contains(id));
            let j = choose|j: int| 0 <= j < ids@.len() && ids@[j] == id;
            assert(should_load_npc(before[ids@[j].0], *chunks));
        }
    }
    requests
}

/// Whether `requests` asks for the game entity of the vehicle `id`.
pub open spec fn requests_vehicle(requests: Seq<SpawnRequest>, id: VehicleId) -> bool {
    exists|i: int| 0 <= i < requests.len() && (#[trigger] requests[i])->CreateShip_vehicle == id
}

/// Whether `requests` asks for the game entity of the character `id` as the
/// driver of a vehicle.
pub open spec fn requests_driver(requests: Seq<SpawnRequest>, id: NpcId) -> bool {
    exists|i: int|
        0 <= i < requests.len() && (#[trigger] requests[i])->CreateShip_driver.is_some()
            && requests[i]->CreateShip_driver.unwrap().0 == id
}

/// Whether `request` is what the game entity of the vehicle `v`, stored
/// under `id`, is to be made from. A driver is named only where the vehicle
/// has a character for a driver that was simulated.
pub open spec fn is_ship_request_of(
    request: SpawnRequest,
    id: VehicleId,
    v: Vehicle,
    data: Data,
) -> bool {
    &&& request matches SpawnRequest::CreateShip { vehicle, pos, ship, driver }
    &&& vehicle == id
    &&& pos == v.wpos
    &&& ship == (match v.kind {
        crate::npc::VehicleKind::Airship => ShipBody::DefaultAirship,
        crate::npc::VehicleKind::Boat => ShipBody::Galleon,
    })
    &&& driver matches Some(d) ==> {
        &&& v.driver == Some(Actor::Npc(d.0))
        &&& data.npcs.npc_spec(d.0) matches Some(npc)
        &&& npc.mode == SimulationMode::Simulated
        &&& is_entity_info_of(d.1, npc, data.sites)
    }
}

/// Whether the driver `driver` is a simulated character of `data` that a
/// game entity can be made of.
pub open spec fn is_waiting_driver(data: Data, driver: Option<Actor>) -> bool {
    driver matches Some(Actor::Npc(id)) && data.npcs.npc_spec(id) matches Some(npc) && npc.mode
        == SimulationMode::Simulated && can_spawn(npc)
}

/// Whether `after` and `requests` are what the pass over the vehicles makes
/// of `before` where the chunks `chunks` are loaded.
///
/// Every vehicle for which [`should_load_vehicle`] holds is now `Loaded` and
/// has one request. A character has changed only by becoming `Loaded`, and
/// only if a request names it as a driver; no two requests name the same
/// driver, and no driver of a requested vehicle is left waiting. Nothing
/// else has changed.
pub open spec fn vehicles_loaded(
    before: Data,
    after: Data,
    chunks: ChunkStates,
    requests: Seq<SpawnRequest>,
) -> bool {
    &&& after.sites == before.sites
    &&& after.factions == before.factions
    &&& after.reports == before.reports
    &&& after.tick == before.tick
    &&& after.time_of_day == before.time_of_day
    &&& after.should_purge == before.should_purge
    &&& after.npcs.npc_grid == before.npcs.npc_grid
    &&& after.npcs.vehicle_map().dom() == before.npcs.vehicle_map().dom()
    &&& forall|k: u64| #[trigger]
        before.npcs.vehicle_map().dom().contains(k) ==> after.npcs.vehicle_map()[k] == (
        if well_formed_handle(k) && should_load_vehicle(before.npcs.vehicle_map()[k], chunks) {
            Vehicle { mode: SimulationMode::Loaded, ..before.npcs.vehicle_map()[k] }
        } else {
            before.npcs.vehicle_map()[k]
        })
    &&& after.npcs.npc_map().dom() == before.npcs.npc_map().dom()
    &&& forall|k: u64| #[trigger]
        before.npcs.npc_map().dom().contains(k) ==> {
            ||| after.npcs.npc_map()[k] == before.npcs.npc_map()[k]
            ||| after.npcs.npc_map()[k] == (Npc {
                mode: SimulationMode::Loaded,
                ..before.npcs.npc_map()[k]
            }) && requests_driver(requests, NpcId(k))
        }
    &&& forall|i: int|
        0 <= i < requests.len() ==> (before.npcs.vehicle_spec(
            (#[trigger] requests[i])->CreateShip_vehicle,
        ) matches Some(v) && should_load_vehicle(v, chunks) && is_ship_request_of(
            requests[i],
            requests[i]->CreateShip_vehicle,
            v,
            before,
        ) && !is_waiting_driver(after, v.driver))
    &&& forall|i: int, j: int|
        0 <= i < j < requests.len() ==> requests[i]->CreateShip_vehicle
            != requests[j]->CreateShip_vehicle
    &&& forall|i: int, j: int|
        0 <= i < j < requests.len() && requests[i]->CreateShip_driver.is_some()
            && requests[j]->CreateShip_driver.is_some()
            ==> requests[i]->CreateShip_driver.unwrap().0
            != requests[j]->CreateShip_driver.unwrap().0
    &&& forall|id: VehicleId|
        (before.npcs.vehicle_spec(id) matches Some(v) && should_load_vehicle(v, chunks))
            ==> #[trigger] requests_vehicle(requests, id)
}

/// Turns the simulated vehicles that are in loaded chunks into mirrors of
/// game entities, their drivers with them, and returns what the game
/// entities are to be made from.
///
/// Every vehicle for which [`should_load_vehicle`] holds is set to `Loaded`
/// and has one request. The driver of such a vehicle, where it is a
/// simulated character that a game entity can be made of, is set to `Loaded`
/// and named in the request: in one request only, also where it drives
/// several vehicles. Nothing else changes.
pub fn load_vehicles(data: &mut Data, chunks: &ChunkStates) -> (requests: Vec<SpawnRequest>)
    requires
        chunks.wf(),
    ensures
        vehicles_loaded(*old(data), *final(data), *chunks, requests@),
{
    let ids = data.npcs.vehicle_ids();
    let mut requests: Vec<SpawnRequest> = Vec::new();
    let ghost before = data.npcs.vehicle_map();
    let ghost npcs_before = data.npcs.npc_map();
    let mut i: usize = 0;
    while i < ids.len()
        invariant
            i <= ids.len(),
            chunks.wf(),
            ids@.no_duplicates(),
            forall|id: VehicleId| ids@.contains(id) <==> old(data).npcs.vehicle_spec(id).is_some(),
            before == old(data).npcs.vehicle_map(),
            npcs_before == old(data).npcs.npc_map(),
            data.sites == old(data).sites,
            data.factions == old(data).factions,
            data.reports == old(data).reports,
            data.tick == old(data).tick,
            data.time_of_day == old(data).time_of_day,
            data.should_purge == old(data).should_purge,
            data.npcs.npc_grid == old(data).npcs.npc_grid,
            data.npcs.vehicle_map().dom() == before.dom(),
            data.npcs.npc_map().dom() == npcs_before.dom(),
            forall|k: u64|
                before.dom().contains(k) && !well_formed_handle(k)
                    ==> #[trigger] data.npcs.vehicle_map()[k] == before[k],
            forall|j: int|
                i <= j < ids@.len() ==> data.npcs.vehicle_map()[(#[trigger] ids@[j]).0]
                    == before[ids@[j].0],
            forall|j: int|
                0 <= j < i ==> data.npcs.vehicle_map()[(#[trigger] ids@[j]).0] == (
                if should_load_vehicle(before[ids@[j].0], *chunks) {
                    Vehicle { mode: SimulationMode::Loaded, ..before[ids@[j].0] }
                } else {
                    before[ids@[j].0]
                }),
            forall|k: u64| #[trigger]
                npcs_before.dom().contains(k) ==> {
                    ||| data.npcs.npc_map()[k] == npcs_before[k]
                    ||| data.npcs.npc_map()[k] == (Npc {
                        mode: SimulationMode::Loaded,
                        ..npcs_before[k]
                    }) && requests_driver(requests@, NpcId(k))
                },
            forall|r: int|
                0 <= r < requests@.len() ==> (old(data).npcs.vehicle_spec(
                    (#[trigger] requests@[r])->CreateShip_vehicle,
                ) matches Some(v) && should_load_vehicle(v, *chunks) && is_ship_request_of(
                    requests@[r],
                    requests@[r]->CreateShip_vehicle,
                    v,
                    *old(data),
                ) && exists|j: int| 0 <= j < i && ids@[j] == requests@[r]->CreateShip_vehicle),
            forall|r: int|
                0 <= r < requests@.len() ==> ((#[trigger] requests@[r])->CreateShip_driver matches Some(
                    d,
                ) ==> data.npcs.npc_map()[d.0.0].mode == SimulationMode::Loaded),
            forall|r: int|
                0 <= r < requests@.len() ==> !is_waiting_driver(
                    *data,
                    before[(#[trigger] requests@[r])->CreateShip_vehicle.0].driver,
                ),
            forall|a: int, b: int|
                0 <= a < b < requests@.len() ==> requests@[a]->CreateShip_vehicle
                    != requests@[b]->CreateShip_vehicle,
            forall|a: int, b: int|
                0 <= a < b < requests@.len() && requests@[a]->CreateShip_driver.is_some()
                    && requests@[b]->CreateShip_driver.is_some()
                    ==> requests@[a]->CreateShip_driver.unwrap().0
                    != requests@[b]->CreateShip_driver.unwrap().0,
            forall|j: int|
                0 <= j < i && should_load_vehicle(before[(#[trigger] ids@[j]).0], *chunks)
                    ==> requests_vehicle(requests@, ids@[j]),
        decreases ids.len() - i,
    {
        let id = ids[i];
        assert(ids@.contains(id));
        assert(old(data).npcs.vehicle_spec(id).is_some());
        let ghost mid = data.npcs.vehicle_map();
        let ghost npcs_mid = data.npcs.npc_map();
        let ghost reqs = requests@;
        let ghost at_entry = *data;
        let loading = match vehicles_get_mut(&mut data.npcs.vehicles, id.0) {
            Some(v) => {
                if matches!(v.mode, SimulationMode::Simulated) && chunks.is_loaded(
                    v.wpos.xy().wpos_to_cpos(),
                ) {
                    v.mode = SimulationMode::Loaded;
                    Some((v.wpos, v.get_ship(), v.driver))
                } else {
                    None
                }
            },
            None => None,
        };
        match loading {
            Some((pos, ship, driver)) => {
                let driver = load_driver(data, driver);
                proof {
                    assert forall|r: int| 0 <= r < reqs.len() implies ((#[trigger] reqs[r])->CreateShip_driver matches Some(
                        d,
                    ) ==> data.npcs.npc_map()[d.0.0].mode == SimulationMode::Loaded) by {
                        if let Some(d) = reqs[r]->CreateShip_driver {
                            assert(npcs_mid[d.0.0].mode == SimulationMode::Loaded);
                        }
                    }
                }
                requests.push(SpawnRequest::CreateShip { vehicle: id, pos, ship, driver });
                proof {
                    let last = reqs.len() as int;
                    assert(requests@[last]->CreateShip_vehicle == id);
                    assert forall|r: int| 0 <= r < requests@.len() implies !is_waiting_driver(
                        *data,
                        before[(#[trigger] requests@[r])->CreateShip_vehicle.0].driver,
                    ) by {
                        if r < last {
                            assert(requests@[r] == reqs[r]);
                            let d = before[reqs[r]->CreateShip_vehicle.0].driver;
                            assert(!is_waiting_driver(at_entry, d));
                            if let Some(Actor::Npc(n)) = d {
                                if at_entry.npcs.npc_spec(n).is_some() {
                                    assert(npcs_before.dom().contains(n.0));
                                }
                            }
                        }
                    }
                    assert forall|a: int, b: int| 0 <= a < b < requests@.len() implies requests@[a]->CreateShip_vehicle
                        != requests@[b]->CreateShip_vehicle by {
                        if b == last {
                            let j = choose|j: int|
                                0 <= j < i && ids@[j] == reqs[a]->CreateShip_vehicle;
                            assert(ids@[j] != ids@[i as int]);
                        }
                    }
                    assert forall|a: int, b: int|
                        0 <= a < b < requests@.len() && requests@[a]->CreateShip_driver.is_some()
                            && requests@[b]->CreateShip_driver.is_some() implies requests@[a]->CreateShip_driver.unwrap().0
                        != requests@[b]->CreateShip_driver.unwrap().0 by {
                        if b == last {
                            let da = reqs[a]->CreateShip_driver.unwrap();
                            assert(npcs_mid[da.0.0].mode == SimulationMode::Loaded);
                        }
                    }
                    assert forall|j: int|
                        0 <= j < i + 1 && should_load_vehicle(
                            before[(#[trigger] ids@[j]).0],
                            *chunks,
                        ) implies requests_vehicle(requests@, ids@[j]) by {
                        if j < i {
                            let r = choose|r: int|
                                0 <= r < reqs.len() && (#[trigger] reqs[r])->CreateShip_vehicle
                                    == ids@[j];
                            assert(requests@[r] == reqs[r]);
                        } else {
                            assert(requests@[last]->CreateShip_vehicle == ids@[j]);
                        }
                    }
                    assert forall|k: u64| #[trigger] npcs_before.dom().contains(k) implies ({
                        ||| data.npcs.npc_map()[k] == npcs_before[k]
                        ||| data.npcs.npc_map()[k] == (Npc {
                            mode: SimulationMode::Loaded,
                            ..npcs_before[k]
                        }) && requests_driver(requests@, NpcId(k))
                    }) by {
                        if npcs_mid[k] != npcs_before[k] {
                            let r = choose|r: int|
                                0 <= r < reqs.len() && (#[trigger] reqs[r])->CreateShip_driver.is_some()
                                    && reqs[r]->CreateShip_driver.unwrap().0 == NpcId(k);
                            assert(requests@[r] == reqs[r]);
                            assert(data.npcs.npc_map()[k] == npcs_mid[k]);
                        } else if data.npcs.npc_map()[k] != npcs_mid[k] {
                            assert(requests@[last]->CreateShip_driver.unwrap().0 == NpcId(k));
                        }
                    }
                    assert forall|r: int| 0 <= r < requests@.len() implies (old(data).npcs.vehicle_spec(
                        (#[trigger] requests@[r])->CreateShip_vehicle,
                    ) matches Some(v) && should_load_vehicle(v, *chunks) && is_ship_request_of(
                        requests@[r],
                        requests@[r]->CreateShip_vehicle,
                        v,
                        *old(data),
                    ) && exists|j: int|
                        0 <= j < i + 1 && ids@[j] == requests@[r]->CreateShip_vehicle) by {
                        if r < last {
                            assert(requests@[r] == reqs[r]);
                            let j = choose|j: int|
                                0 <= j < i && ids@[j] == reqs[r]->CreateShip_vehicle;
                            assert(0 <= j < i + 1);
                        } else {
                            assert(ids@[i as int] == id);
                        }
                    }
                }
            },
            None => {
                assert(data.npcs.vehicle_map() =~= mid);
            },
        }
        proof {
            assert forall|j: int| i < j < ids@.len() implies data.npcs.vehicle_map()[(#[trigger] ids@[j]).0]
                == before[ids@[j].0] by {
                assert(ids@[j] != ids@[i as int]);
                assert(mid[ids@[j].0] == before[ids@[j].0]);
            }
            assert forall|j: int| 0 <= j < i implies data.npcs.vehicle_map()[(#[trigger] ids@[j]).0]
                == (if should_load_vehicle(before[ids@[j].0], *chunks) {
                Vehicle { mode: SimulationMode::Loaded, ..before[ids@[j].0] }
            } else {
                before[ids@[j].0]
            }) by {
                assert(ids@[j] != ids@[i as int]);
                assert(data.npcs.vehicle_map()[ids@[j].0] == mid[ids@[j].0]);
            }
            assert(data.npcs.vehicle_map().dom() =~= before.dom());
        }
        i = i + 1;
    }
    proof {
        assert forall|k: u64| #[trigger] before.dom().contains(k) implies data.npcs.vehicle_map()[k]
            == (if well_formed_handle(k) && should_load_vehicle(before[k], *chunks) {
            Vehicle { mode: SimulationMode::Loaded, ..before[k] }
        } else {
            before[k]
        }) by {
            let id = VehicleId(k);
            if well_formed_handle(k) {
                assert(old(data).npcs.vehicle_spec(id).is_some());
                assert(ids@.contains(id));
                let j = choose|j: int| 0 <= j < ids@.len() && ids@[j] == id;
                assert(ids@[j].0 == k);
            }
        }
        assert forall|id: VehicleId|
            (old(data).npcs.vehicle_spec(id) matches Some(v) && should_load_vehicle(
                v,
                *chunks,
            )) implies #[trigger] requests_vehicle(requests@, id) by {
            assert(ids@.contains(id));
            let j = choose|j: int| 0 <= j < ids@.len() && ids@[j] == id;
            assert(should_load_vehicle(before[ids@[j].0], *chunks));
        }
    }
    requests
}

/// Turns the driver of a vehicle that is being loaded into the mirror of a
/// game entity, and returns what its game entity is to be made from: for a
/// driver that is a simulated character that a game entity can be made of.
/// Any other driver is left as it is.
pub fn load_driver(data: &mut Data, driver: Option<Actor>) -> (r: Option<(NpcId, EntityInfo)>)
    ensures
        final(data).sites == old(data).sites,
        final(data).factions == old(data).factions,
        final(data).reports == old(data).reports,
        final(data).tick == old(data).tick,
        final(data).time_of_day == old(data).time_of_day,
        final(data).should_purge == old(data).should_purge,
        final(data).npcs.npc_grid == old(data).npcs.npc_grid,
        final(data).npcs.vehicles == old(data).npcs.vehicles,
        match r {
            Some((id, info)) => {
                &&& driver == Some(Actor::Npc(id))
                &&& old(data).npcs.npc_spec(id) matches Some(npc)
                &&& npc.mode == SimulationMode::Simulated
                &&& is_entity_info_of(info, npc, old(data).sites)
                &&& final(data).npcs.npc_map() == old(data).npcs.npc_map().insert(
                    id.0,
                    Npc { mode: SimulationMode::Loaded, ..npc },
                )
            },
            None => {
                &&& final(data).npcs.npc_map() == old(data).npcs.npc_map()
                &&& !(driver matches Some(Actor::Npc(id)) && old(data).npcs.npc_spec(
                    id,
                ) matches Some(npc) && npc.mode == SimulationMode::Simulated && can_spawn(npc))
            },
        },
{
    let id = match driver {
        Some(Actor::Npc(id)) => id,
        _ => {
            return None;
        },
    };
    let info = match data.npcs.get(id) {
        Some(npc) => {
            if matches!(npc.mode, SimulationMode::Simulated) {
                get_npc_entity_info(npc, &data.sites)
            } else {
                None
            }
        },
        None => None,
    };
    match info {
        Some(info) => {
            match npcs_get_mut(&mut data.npcs.npcs, id.0) {
                Some(npc) => {
                    npc.mode = SimulationMode::Loaded;
                },
                None => {},
            }
            Some((id, info))
        },
        None => None,
    }
}

} // verus!
