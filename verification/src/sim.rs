//! The simulation as the server holds it: the state with its rules, the
//! chunks that are loaded, where the players are, and when the state was
//! last saved. The server reports what happens in the game through the
//! hooks, and asks here what to do when it starts and on each tick.

use vstd::prelude::*;
use crate::data::Data;
use crate::geom::terrain_chunk_of;
use crate::geom::Vec2i;
use crate::geom::Vec3i;
use crate::ids::Actor;
use crate::ids::CharacterId;
use crate::ids::NpcId;
use crate::ids::VehicleId;
use crate::npc::Npc;
use crate::npc::SimulationMode;
use crate::npc::Vehicle;
use crate::rule::default_bindings;
use crate::rule::dispatched;
use crate::rule::start_rules;
use crate::rule::Binding;
use crate::rule::Handle;
use crate::rule::Handler;
use crate::rule::Event;
use crate::rule::OnBlockChange;
use crate::rule::OnDeath;
use crate::rule::OnTick;
use crate::rule::RtState;
use crate::rule::RuleError;
use crate::tick::load_npcs;
use crate::tick::load_vehicles;
use crate::tick::ChunkStates;
use crate::tick::LoadedChunkState;
use crate::tick::SpawnRequest;

verus! {

/// Where the players' characters are, by chunk: a `hashbrown::HashMap` from
/// the coordinates of a chunk to the characters in it, each with its
/// position.
#[verifier::external_body]
pub struct CharacterMap {
    map: hashbrown::HashMap<(i32, i32), Vec<(CharacterId, Vec3i)>>,
}

/// What the map holds: the characters listed for each chunk.
pub uninterp spec fn character_entries(m: CharacterMap) -> Map<(i32, i32), Vec<(CharacterId, Vec3i)>>;

/// `HashMap::new`: a map that lists nobody.
#[verifier::external_body]
pub(crate) fn characters_new() -> (m: CharacterMap)
    ensures
        character_entries(m) =~= Map::empty(),
{
    CharacterMap { map: hashbrown::HashMap::new() }
}

/// `HashMap::clear`: afterwards the map lists nobody.
#[verifier::external_body]
pub(crate) fn characters_clear(m: &mut CharacterMap)
    ensures
        character_entries(*final(m)) =~= Map::empty(),
{
    m.map.clear();
}

/// `HashMap::entry` and `Entry::or_default`: the list of the chunk `key`,
/// which is empty where the chunk had none. What is written through the
/// reference is what the map lists for `key` afterwards; nothing else
/// changes.
#[verifier::external_body]
pub(crate) fn characters_entry(m: &mut CharacterMap, key: (i32, i32)) -> (list: &mut Vec<
    (CharacterId, Vec3i),
>)
    ensures
        list@ == (if character_entries(*old(m)).dom().contains(key) {
            character_entries(*old(m))[key]@
        } else {
            Seq::empty()
        }),
        character_entries(*final(m)) == character_entries(*old(m)).insert(key, *final(list)),
{
    m.map.entry(key).or_default()
}

/// `HashMap::get`: the list of the chunk `key`, if it has one.
#[verifier::external_body]
pub(crate) fn characters_get(m: &CharacterMap, key: (i32, i32)) -> (r: Option<&Vec<(CharacterId, Vec3i)>>)
    ensures
        match r {
            Some(list) => character_entries(*m).dom().contains(key) && *list == character_entries(
                *m,
            )[key],
            None => !character_entries(*m).dom().contains(key),
        },
{
    m.map.get(&key)
}

impl CharacterMap {
    /// The characters listed for the chunk `c`, in the order in which they
    /// were listed.
    pub open spec fn at(&self, c: Vec2i) -> Seq<(CharacterId, Vec3i)> {
        if character_entries(*self).dom().contains((c.x, c.y)) {
            character_entries(*self)[(c.x, c.y)]@
        } else {
            Seq::empty()
        }
    }

    /// A map that lists nobody.
    pub fn new() -> (m: Self)
        ensures
            forall|c: Vec2i| m.at(c) == Seq::<(CharacterId, Vec3i)>::empty(),
    {
        characters_new()
    }

    /// Lists the characters anew: each of `characters` for the chunk that it
    /// stands in, in the order given. Whoever was listed before is not, unless
    /// it is among them.
    pub fn update(&mut self, characters: &Vec<(CharacterId, Vec3i)>)
        ensures
            forall|c: Vec2i|
                final(self).at(c) == characters@.filter(
                    |e: (CharacterId, Vec3i)| terrain_chunk_of(e.1.xy()) == c,
                ),
    {
        characters_clear(self);
        let mut i: usize = 0;
        proof {
            reveal(Seq::filter);
        }
        while i < characters.len()
            invariant
                i <= characters.len(),
                forall|c: Vec2i|
                    self.at(c) == characters@.take(i as int).filter(
                        |e: (CharacterId, Vec3i)| terrain_chunk_of(e.1.xy()) == c,
                    ),
            decreases characters.len() - i,
        {
            let e = characters[i];
            let chunk = e.1.xy().wpos_to_cpos();
            let ghost mid = *self;
            let list = characters_entry(self, (chunk.x, chunk.y));
            list.push(e);
            proof {
                reveal(Seq::filter);
                assert(characters@.take(i + 1).drop_last() == characters@.take(i as int));
                assert forall|c: Vec2i|
                    self.at(c) == characters@.take(i + 1).filter(
                        |e: (CharacterId, Vec3i)| terrain_chunk_of(e.1.xy()) == c,
                    ) by {
                    if c == chunk {
                        assert(self.at(c) == mid.at(c).push(e));
                    } else {
                        assert((c.x, c.y) != (chunk.x, chunk.y));
                        assert(self.at(c) == mid.at(c));
                    }
                }
            }
            i = i + 1;
        }
        proof {
            assert(characters@.take(characters@.len() as int) == characters@);
        }
    }

    /// The characters listed for the chunk `c`.
    pub fn characters_at(&self, c: Vec2i) -> (r: Vec<(CharacterId, Vec3i)>)
        ensures
            r@ == self.at(c),
    {
        match characters_get(self, (c.x, c.y)) {
            Some(list) => {
                let mut out: Vec<(CharacterId, Vec3i)> = Vec::new();
                let mut i: usize = 0;
                while i < list.len()
                    invariant
                        i <= list.len(),
                        out@ == list@.take(i as int),
                    decreases list.len() - i,
                {
                    out.push(list[i]);
                    assert(list@.take(i + 1) == list@.take(i as int).push(list@[i as int]));
                    i = i + 1;
                }
                assert(list@.take(list@.len() as int) == list@);
                out
            },
            None => Vec::new(),
        }
    }
}

/// How long the state may go unsaved, in milliseconds.
pub const SAVE_INTERVAL: u64 = 60_000;

/// What came of the attempt to read the saved state when the server starts.
#[derive(Clone, Copy, Debug, PartialEq, Eq, Structural)]
pub enum LoadOutcome {
    /// Loading was switched off.
    Skipped,
    /// There is no saved state.
    NotFound,
    /// The file could not be opened.
    Unreadable,
    /// The file was read and does not hold a state.
    Corrupt,
    /// The file was read and holds a state, which asks to be thrown away or
    /// not.
    Loaded { should_purge: bool },
}

/// What the server does next when it starts.
#[derive(Clone, Copy, Debug, PartialEq, Eq, Structural)]
pub enum StartAction {
    /// Go on with the state that was read.
    UseLoaded,
    /// Make a fresh state from the world.
    Generate,
    /// Move the file out of the way, under a name that is not taken, and then
    /// make a fresh state from the world.
    BackUpAndGenerate,
    /// Give up.
    Fail,
}

/// What the server does when the attempt to read the saved state came out as
/// `outcome`: a state that was read is used unless it asks to be thrown
/// away; a file that does not hold a state is kept under another name, never
/// overwritten; only a file that cannot be opened stops the server.
pub fn start_action(outcome: LoadOutcome) -> (action: StartAction)
    ensures
        action == match outcome {
            LoadOutcome::Skipped => StartAction::Generate,
            LoadOutcome::NotFound => StartAction::Generate,
            LoadOutcome::Unreadable => StartAction::Fail,
            LoadOutcome::Corrupt => StartAction::BackUpAndGenerate,
            LoadOutcome::Loaded { should_purge } => if should_purge {
                StartAction::Generate
            } else {
                StartAction::UseLoaded
            },
        },
{
    match outcome {
        LoadOutcome::Skipped => StartAction::Generate,
        LoadOutcome::NotFound => StartAction::Generate,
        LoadOutcome::Unreadable => StartAction::Fail,
        LoadOutcome::Corrupt => StartAction::BackUpAndGenerate,
        LoadOutcome::Loaded { should_purge } => if should_purge {
            StartAction::Generate
        } else {
            StartAction::UseLoaded
        },
    }
}

/// The name under which a file that does not hold a state is kept: the
/// extension `ron_backup`, followed where `number` is given by `_` and the
/// number.
#[derive(Clone, Copy, Debug, PartialEq, Eq, Structural)]
pub struct BackupName {
    pub number: Option<u32>,
}

/// A step of the search for a backup name that is not taken.
#[derive(Clone, Copy, Debug, PartialEq, Eq, Structural)]
pub enum BackupStep {
    /// Move the file to the name that was tried.
    Rename(BackupName),
    /// Try this name next.
    Try(BackupName),
    /// Every name is taken.
    GiveUp,
}

/// The `i`th name that is tried: without a number first, then with the
/// numbers from 1.
pub open spec fn backup_name_spec(i: u32) -> BackupName {
    if i == 0 {
        BackupName { number: None }
    } else {
        BackupName { number: Some(i) }
    }
}

/// The `i`th name that is tried.
pub fn backup_name(i: u32) -> (name: BackupName)
    ensures
        name == backup_name_spec(i),
{
    if i == 0 {
        BackupName { number: None }
    } else {
        BackupName { number: Some(i) }
    }
}

/// What to do when the `i`th name has been tried and is taken or not: a name
/// that is not taken is used; else the next is tried.
pub open spec fn next_backup_step_spec(i: u32, taken: bool) -> BackupStep {
    if !taken {
        BackupStep::Rename(backup_name_spec(i))
    } else if i < u32::MAX {
        BackupStep::Try(backup_name_spec((i + 1) as u32))
    } else {
        BackupStep::GiveUp
    }
}

/// Where the search for a backup name ends when it begins with the `from`th
/// name and the names with the numbers in `taken` are in use: the step that
/// ends it, which moves the file or gives up.
pub open spec fn backup_search(taken: Set<u32>, from: u32) -> BackupStep
    decreases u32::MAX - from,
{
    match next_backup_step_spec(from, taken.contains(from)) {
        BackupStep::Try(_) => if from < u32::MAX {
            backup_search(taken, (from + 1) as u32)
        } else {
            BackupStep::GiveUp
        },
        step => step,
    }
}

/// The search for a backup name ends at the first name that is not taken: the
/// file is moved there, and to no name that an earlier backup has.
pub proof fn lemma_backup_search_finds_first_free(taken: Set<u32>, from: u32, free: u32)
    requires
        from <= free,
        !taken.contains(free),
        forall|j: u32| from <= j < free ==> taken.contains(j),
    ensures
        backup_search(taken, from) == BackupStep::Rename(backup_name_spec(free)),
    decreases free - from,
{
    if from < free {
        assert(taken.contains(from));
        lemma_backup_search_finds_first_free(taken, (from + 1) as u32, free);
    }
}

/// The names that are tried differ from one another: no two backups go by
/// one name.
pub proof fn lemma_backup_names_differ(i: u32, j: u32)
    requires
        i != j,
    ensures
        backup_name_spec(i) != backup_name_spec(j),
{
}

/// What to do when the `i`th name has been tried and is taken or not: a name
/// that is not taken is used; else the next is tried.
pub fn next_backup_step(i: u32, taken: bool) -> (step: BackupStep)
    ensures
        step == next_backup_step_spec(i, taken),
{
    if !taken {
        BackupStep::Rename(backup_name(i))
    } else if i < u32::MAX {
        BackupStep::Try(backup_name(i + 1))
    } else {
        BackupStep::GiveUp
    }
}

/// Whether `after` is what the two passes that load entities make of
/// `before`, with `mid` as the state between them: `ships` is what the pass
/// over the vehicles requests, `others` what the pass over the characters
/// requests after it.
pub open spec fn entities_loaded(
    before: Data,
    mid: Data,
    after: Data,
    chunks: ChunkStates,
    ships: Seq<SpawnRequest>,
    others: Seq<SpawnRequest>,
) -> bool {
    crate::tick::vehicles_loaded(before, mid, chunks, ships) && crate::tick::npcs_loaded(
        mid,
        after,
        chunks,
        others,
    )
}

/// The simulation as the server holds it.
pub struct RtSim<H> {
    pub state: RtState<H>,
    pub chunk_states: ChunkStates,
    pub characters: CharacterMap,
    /// When the state was last saved, in milliseconds since the server
    /// started; `None` before the first save.
    pub last_saved: Option<u64>,
}

/// What the server is to do after a tick.
pub struct TickOutput {
    /// Whether the state is to be saved now.
    pub save: bool,
    /// The game entities that are to be made.
    pub spawns: Vec<SpawnRequest>,
}

impl<H: Handle> RtSim<H> {
    /// The state and the chunk states are well formed.
    pub open spec fn wf(&self) -> bool {
        self.state.data.wf() && self.chunk_states.wf()
    }

    /// The simulation of `data` in a world of `world_size` chunks, none of
    /// them loaded, with the default rules started and the set-up event
    /// emitted.
    pub fn new(data: Data, world_size: Vec2i, rng: &mut rand_chacha::ChaCha20Rng) -> (r: Result<
        Self,
        RuleError,
    >)
        requires
            data.wf(),
            data.reports.next < u64::MAX - 3,
            0 <= world_size.x,
            0 <= world_size.y,
            world_size.x * world_size.y <= usize::MAX,
        ensures
            r matches Ok(sim) ==> {
                &&& sim.wf()
                &&& sim.state.bindings@ == default_bindings::<H>()
                &&& sim.state.rules@ == crate::rule::default_rules()
                &&& sim.state.data == data
                &&& sim.chunk_states.size == world_size
                &&& forall|c: Vec2i| !sim.chunk_states.is_loaded_spec(c)
                &&& sim.last_saved.is_none()
            },
            r is Ok,
    {
        let mut state = RtState::new(data);
        match start_rules(&mut state) {
            Ok(_) => {},
            Err(e) => {
                return Err(e);
            },
        }
        assert(state.bindings@ == default_bindings::<H>());
        assert(state.rules@ == crate::rule::default_rules());
        let mut this = RtSim {
            state,
            chunk_states: ChunkStates::new(world_size),
            characters: CharacterMap::new(),
            last_saved: None,
        };
        this.state.emit(&Event::OnSetup, rng);
        proof {
            lemma_setup_changes_nothing(this.state.bindings@, data, this.state.data);
        }
        Ok(this)
    }

    /// Notes that the chunk `key` has been loaded, and keeps the largest
    /// possible number of each resource in it, in place of what was kept. A
    /// second notification with the same numbers leaves everything as the
    /// first has left it. A chunk outside the world is passed over. Every
    /// other chunk, and the state of the simulation, is as it was.
    pub fn hook_load_chunk(&mut self, key: Vec2i, max_res: Vec<usize>)
        requires
            old(self).wf(),
        ensures
            final(self).wf(),
            final(self).state == old(self).state,
            final(self).characters == old(self).characters,
            final(self).last_saved == old(self).last_saved,
            final(self).chunk_states.size == old(self).chunk_states.size,
            final(self).chunk_states.chunks@ == old(self).chunk_states.cells_after_load(
                key,
                (LoadedChunkState { max_res }),
            ),
            forall|c: Vec2i|
                #[trigger] final(self).chunk_states.state_at(c) == (if c == key && old(self).chunk_states.in_bounds(key) {
                    Some(LoadedChunkState { max_res })
                } else {
                    old(self).chunk_states.state_at(c)
                }),
            forall|c: Vec2i|
                final(self).chunk_states.is_loaded_spec(c) == (old(self).chunk_states.is_loaded_spec(
                    c,
                ) || (c == key && old(self).chunk_states.in_bounds(key))),
    {
        self.chunk_states.load(key, LoadedChunkState { max_res });
    }

    /// Notes that the chunk `key` has been unloaded, and forgets what was
    /// kept of it. The characters and vehicles in it stay as they are: each
    /// is simulated again when its game entity is reported gone. A chunk
    /// outside the world is passed over.
    pub fn hook_unload_chunk(&mut self, key: Vec2i)
        requires
            old(self).wf(),
        ensures
            final(self).wf(),
            final(self).state == old(self).state,
            final(self).characters == old(self).characters,
            final(self).last_saved == old(self).last_saved,
            final(self).chunk_states.size == old(self).chunk_states.size,
            forall|c: Vec2i|
                #[trigger] final(self).chunk_states.state_at(c) == (if c == key {
                    None
                } else {
                    old(self).chunk_states.state_at(c)
                }),
            forall|c: Vec2i|
                final(self).chunk_states.is_loaded_spec(c) == (old(self).chunk_states.is_loaded_spec(
                    c,
                ) && c != key),
    {
        self.chunk_states.unload(key);
    }

    /// Emits the change of a block to the rules.
    pub fn hook_block_update(
        &mut self,
        wpos: Vec3i,
        old_block: u32,
        new_block: u32,
        rng: &mut rand_chacha::ChaCha20Rng,
    )
        requires
            old(self).wf(),
            old(self).state.data.reports.next + old(self).state.bindings@.len() < u64::MAX,
        ensures
            final(self).wf(),
            final(self).chunk_states == old(self).chunk_states,
            final(self).last_saved == old(self).last_saved,
            final(self).state.bindings == old(self).state.bindings,
            final(self).state.rules == old(self).state.rules,
            dispatched(
                old(self).state.bindings@,
                old(self).state.data,
                final(self).state.data,
                Event::OnBlockChange(OnBlockChange { wpos, old: old_block, new: new_block }),
            ),
    {
        self.state.emit(
            &Event::OnBlockChange(OnBlockChange { wpos, old: old_block, new: new_block }),
            rng,
        );
    }

    /// Notes that the game entity of the character `entity` is gone: the
    /// character is simulated again.
    pub fn hook_rtsim_entity_unload(&mut self, entity: NpcId)
        ensures
            final(self).chunk_states == old(self).chunk_states,
            final(self).last_saved == old(self).last_saved,
            final(self).state.bindings == old(self).state.bindings,
            final(self).state.rules == old(self).state.rules,
            final(self).state.data.sites == old(self).state.data.sites,
            final(self).state.data.factions == old(self).state.data.factions,
            final(self).state.data.reports == old(self).state.data.reports,
            final(self).state.data.npcs.npc_grid == old(self).state.data.npcs.npc_grid,
            final(self).state.data.npcs.vehicles == old(self).state.data.npcs.vehicles,
            final(self).state.data.npcs.npc_map() == (match old(self).state.data.npcs.npc_spec(
                entity,
            ) {
                Some(npc) => old(self).state.data.npcs.npc_map().insert(
                    entity.0,
                    Npc { mode: SimulationMode::Simulated, ..npc },
                ),
                None => old(self).state.data.npcs.npc_map(),
            }),
    {
        self.state.data.npcs.set_npc_mode(entity, SimulationMode::Simulated);
    }

    /// Notes that the game entity of the vehicle `entity` is gone: the
    /// vehicle is simulated again.
    pub fn hook_rtsim_vehicle_unload(&mut self, entity: VehicleId)
        ensures
            final(self).chunk_states == old(self).chunk_states,
            final(self).last_saved == old(self).last_saved,
            final(self).state.bindings == old(self).state.bindings,
            final(self).state.rules == old(self).state.rules,
            final(self).state.data.sites == old(self).state.data.sites,
            final(self).state.data.factions == old(self).state.data.factions,
            final(self).state.data.reports == old(self).state.data.reports,
            final(self).state.data.npcs.npc_grid == old(self).state.data.npcs.npc_grid,
            final(self).state.data.npcs.npcs == old(self).state.data.npcs.npcs,
            final(self).state.data.npcs.vehicle_map() == (
            match old(self).state.data.npcs.vehicle_spec(entity) {
                Some(v) => old(self).state.data.npcs.vehicle_map().insert(
                    entity.0,
                    Vehicle { mode: SimulationMode::Simulated, ..v },
                ),
                None => old(self).state.data.npcs.vehicle_map(),
            }),
    {
        self.state.data.npcs.set_vehicle_mode(entity, SimulationMode::Simulated);
    }

    /// Emits the death of an actor to the rules.
    pub fn hook_rtsim_actor_death(
        &mut self,
        actor: Actor,
        wpos: Option<Vec3i>,
        killer: Option<Actor>,
        rng: &mut rand_chacha::ChaCha20Rng,
    )
        requires
            old(self).wf(),
            old(self).state.data.reports.next + old(self).state.bindings@.len() < u64::MAX,
        ensures
            final(self).wf(),
            final(self).chunk_states == old(self).chunk_states,
            final(self).last_saved == old(self).last_saved,
            final(self).state.bindings == old(self).state.bindings,
            final(self).state.rules == old(self).state.rules,
            dispatched(
                old(self).state.bindings@,
                old(self).state.data,
                final(self).state.data,
                Event::OnDeath(OnDeath { actor, wpos, killer }),
            ),
    {
        self.state.emit(&Event::OnDeath(OnDeath { actor, wpos, killer }), rng);
    }

    /// Whether the state is to be saved at the time `now`, in milliseconds
    /// since the server started: it has never been saved, or not for more
    /// than [`SAVE_INTERVAL`].
    pub fn should_save(&self, now: u64) -> (b: bool)
        ensures
            b == match self.last_saved {
                Some(at) => now - at > SAVE_INTERVAL,
                None => true,
            },
    {
        match self.last_saved {
            Some(at) => now > at && now - at > SAVE_INTERVAL,
            None => true,
        }
    }

    /// Notes that a save was begun at the time `now`, whether or not it
    /// succeeds: a save that fails is tried again when the next is due.
    pub fn note_saved(&mut self, now: u64)
        ensures
            final(self).state == old(self).state,
            final(self).chunk_states == old(self).chunk_states,
            final(self).last_saved == Some(now),
    {
        self.last_saved = Some(now);
    }

    pub fn state(&self) -> (s: &RtState<H>)
        ensures
            *s == self.state,
    {
        &self.state
    }

    pub fn set_should_purge(&mut self, should_purge: bool)
        ensures
            final(self).state.bindings == old(self).state.bindings,
            final(self).state.rules == old(self).state.rules,
            final(self).chunk_states == old(self).chunk_states,
            final(self).last_saved == old(self).last_saved,
            final(self).state.data == (Data { should_purge, ..old(self).state.data }),
    {
        self.state.data.should_purge = should_purge;
    }

    /// The first half of a tick: takes the time of day and the places of the
    /// players' characters from the game, and emits the tick to the rules.
    /// Returns the handles of the simulated characters, which are to be put
    /// on the ground before the second half.
    pub fn tick(
        &mut self,
        event: OnTick,
        characters: &Vec<(CharacterId, Vec3i)>,
        rng: &mut rand_chacha::ChaCha20Rng,
    ) -> (simulated: Vec<NpcId>)
        requires
            old(self).wf(),
            old(self).state.data.reports.next + old(self).state.bindings@.len() < u64::MAX,
        ensures
            final(self).wf(),
            final(self).chunk_states == old(self).chunk_states,
            final(self).last_saved == old(self).last_saved,
            final(self).state.bindings == old(self).state.bindings,
            final(self).state.rules == old(self).state.rules,
            dispatched(
                old(self).state.bindings@,
                Data { time_of_day: event.time_of_day, tick: event.tick, ..old(self).state.data },
                final(self).state.data,
                Event::OnTick(event),
            ),
            forall|c: Vec2i|
                final(self).characters.at(c) == characters@.filter(
                    |e: (CharacterId, Vec3i)| terrain_chunk_of(e.1.xy()) == c,
                ),
    {
        self.state.data.time_of_day = event.time_of_day;
        self.state.data.tick = event.tick;
        self.characters.update(characters);
        self.state.emit(&Event::OnTick(event), rng)
    }

    /// The second half of a tick: says whether the state is to be saved, and
    /// turns the simulated vehicles and characters in loaded chunks into
    /// mirrors of game entities, which are to be made from what is returned:
    /// first the vehicles with their drivers, then the other characters.
    pub fn load_entities(&mut self, now: u64) -> (out: TickOutput)
        requires
            old(self).wf(),
        ensures
            final(self).chunk_states == old(self).chunk_states,
            final(self).state.bindings == old(self).state.bindings,
            final(self).state.rules == old(self).state.rules,
            out.save == old(self).should_save_spec(now),
            final(self).last_saved == (if out.save {
                Some(now)
            } else {
                old(self).last_saved
            }),
            exists|mid: Data, ships: Seq<SpawnRequest>, others: Seq<SpawnRequest>|
                #[trigger] entities_loaded(
                    old(self).state.data,
                    mid,
                    final(self).state.data,
                    old(self).chunk_states,
                    ships,
                    others,
                ) && out.spawns@ == ships + others,
            forall|id: NpcId|
                (#[trigger] final(self).state.data.npcs.npc_spec(id)) matches Some(npc)
                    ==> !crate::tick::should_load_npc(npc, final(self).chunk_states),
    {
        let save = self.should_save(now);
        if save {
            self.note_saved(now);
        }
        let mut spawns = load_vehicles(&mut self.state.data, &self.chunk_states);
        let ghost mid = self.state.data;
        let ghost ships = spawns@;
        let mut npcs = load_npcs(&mut self.state.data, &self.chunk_states);
        let ghost others = npcs@;
        spawns.append(&mut npcs);
        proof {
            assert(entities_loaded(
                old(self).state.data,
                mid,
                self.state.data,
                old(self).chunk_states,
                ships,
                others,
            ));
        }
        TickOutput { save, spawns }
    }

    /// Whether the state is to be saved at the time `now`.
    pub open spec fn should_save_spec(&self, now: u64) -> bool {
        match self.last_saved {
            Some(at) => now - at > SAVE_INTERVAL,
            None => true,
        }
    }

    /// Takes the place of the game entity of the character `id` over into
    /// the simulation, and keeps the grid up to date. A character that does
    /// not mirror a game entity stays where it is. Returns whether the place
    /// was taken over.
    pub fn sync_npc(&mut self, id: NpcId, wpos: Vec3i) -> (synced: bool)
        requires
            old(self).wf(),
        ensures
            final(self).wf(),
            final(self).chunk_states == old(self).chunk_states,
            final(self).last_saved == old(self).last_saved,
            final(self).state.bindings == old(self).state.bindings,
            final(self).state.rules == old(self).state.rules,
            final(self).state.data.sites == old(self).state.data.sites,
            final(self).state.data.factions == old(self).state.data.factions,
            final(self).state.data.reports == old(self).state.data.reports,
            final(self).state.data.npcs.vehicles == old(self).state.data.npcs.vehicles,
            synced == (old(self).state.data.npcs.npc_spec(id) matches Some(npc) && npc.mode
                == SimulationMode::Loaded),
            final(self).state.data.npcs.npc_map() == (if synced {
                old(self).state.data.npcs.npc_map().insert(
                    id.0,
                    Npc {
                        wpos,
                        chunk_pos: Some(crate::geom::chunk_of(wpos.xy())),
                        ..old(self).state.data.npcs.npc_map()[id.0]
                    },
                )
            } else {
                old(self).state.data.npcs.npc_map()
            }),
            !synced ==> final(self).state.data.npcs.npc_grid == old(self).state.data.npcs.npc_grid,
            old(self).state.data.npcs.indexed() ==> final(self).state.data.npcs.indexed(),
    {
        let loaded = match self.state.data.npcs.get(id) {
            Some(npc) => matches!(npc.mode, SimulationMode::Loaded),
            None => false,
        };
        if loaded {
            self.state.data.npcs.set_npc_wpos(id, wpos);
        }
        loaded
    }

    /// Takes the place of the game entity of the vehicle `id` over into the
    /// simulation, and keeps the grid up to date. A vehicle that does not
    /// mirror a game entity stays where it is. Returns whether the place was
    /// taken over.
    pub fn sync_vehicle(&mut self, id: VehicleId, wpos: Vec3i) -> (synced: bool)
        requires
            old(self).wf(),
        ensures
            final(self).wf(),
            final(self).chunk_states == old(self).chunk_states,
            final(self).last_saved == old(self).last_saved,
            final(self).state.bindings == old(self).state.bindings,
            final(self).state.rules == old(self).state.rules,
            final(self).state.data.sites == old(self).state.data.sites,
            final(self).state.data.factions == old(self).state.data.factions,
            final(self).state.data.reports == old(self).state.data.reports,
            final(self).state.data.npcs.npcs == old(self).state.data.npcs.npcs,
            synced == (old(self).state.data.npcs.vehicle_spec(id) matches Some(v) && v.mode
                == SimulationMode::Loaded),
            final(self).state.data.npcs.vehicle_map() == (if synced {
                old(self).state.data.npcs.vehicle_map().insert(
                    id.0,
                    Vehicle {
                        wpos,
                        chunk_pos: Some(crate::geom::chunk_of(wpos.xy())),
                        ..old(self).state.data.npcs.vehicle_map()[id.0]
                    },
                )
            } else {
                old(self).state.data.npcs.vehicle_map()
            }),
            synced ==> final(self).state.data.npcs.vehicle_placed(id),
            !synced ==> final(self).state.data.npcs.npc_grid == old(self).state.data.npcs.npc_grid,
            old(self).state.data.npcs.indexed() ==> final(self).state.data.npcs.indexed(),
    {
        let loaded = match self.state.data.npcs.get_vehicle(id) {
            Some(v) => matches!(v.mode, SimulationMode::Loaded),
            None => false,
        };
        if loaded {
            self.state.data.npcs.set_vehicle_wpos(id, wpos);
        }
        loaded
    }
}

/// No handler of the library answers the set-up event: where no rule has
/// bound a handler of its own, emitting it leaves the state as it is.
pub proof fn lemma_setup_changes_nothing<H: Handle>(
    bindings: Seq<Binding<H>>,
    before: Data,
    after: Data,
)
    requires
        dispatched(bindings, before, after, Event::OnSetup),
        forall|i: int| 0 <= i < bindings.len() ==> !(#[trigger] bindings[i].handler is Custom),
    ensures
        after == before,
    decreases bindings.len(),
{
    if bindings.len() > 0 {
        let mid = choose|mid: Data|
            dispatched(bindings.drop_last(), before, mid, Event::OnSetup)
                && #[trigger] crate::rule::answered(bindings.last(), mid, after, Event::OnSetup);
        lemma_setup_changes_nothing(bindings.drop_last(), before, mid);
    }
}

} // verus!
