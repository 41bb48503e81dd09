use rand::SeedableRng;
use rand_chacha::ChaCha20Rng;
use rtsim::data::Data;
use rtsim::data::Reports;
use rtsim::faction::Factions;
use rtsim::geom::Vec2i;
use rtsim::geom::Vec3i;
use rtsim::geom::SUBDIV;
use rtsim::grid::NpcGrid;
use rtsim::ids::Actor;
use rtsim::ids::CharacterId;
use rtsim::ids::NpcId;
use rtsim::ids::VehicleId;
use rtsim::ids::WorldSiteId;
use rtsim::npc::BipedLargeSpecies;
use rtsim::npc::BirdLargeSpecies;
use rtsim::npc::Body;
use rtsim::npc::Npc;
use rtsim::npc::Npcs;
use rtsim::npc::Profession;
use rtsim::npc::ShipBody;
use rtsim::npc::SimulationMode;
use rtsim::npc::Vehicle;
use rtsim::npc::VehicleKind;
use rtsim::rule::OnTick;
use rtsim::sim::backup_name;
use rtsim::sim::next_backup_step;
use rtsim::sim::start_action;
use rtsim::sim::BackupName;
use rtsim::sim::BackupStep;
use rtsim::sim::CharacterMap;
use rtsim::sim::LoadOutcome;
use rtsim::rule::NoHandler;
use rtsim::sim::RtSim;
use rtsim::sim::StartAction;
use rtsim::site::Site;
use rtsim::site::Sites;
use rtsim::tick::get_npc_entity_info;
use rtsim::tick::humanoid_config;
use rtsim::tick::load_npcs;
use rtsim::tick::load_vehicles;
use rtsim::tick::profession_agent_mark;
use rtsim::tick::profession_extra_loadout;
use rtsim::tick::wild_config;
use rtsim::tick::Alignment;
use rtsim::tick::ChunkStates;
use rtsim::tick::ExtraLoadout;
use rtsim::tick::Good;
use rtsim::tick::LoadedChunkState;
use rtsim::tick::Mark;
use rtsim::tick::SpawnRequest;

fn blocks(x: i32, y: i32) -> Vec3i {
    Vec3i::new(x * SUBDIV, y * SUBDIV, 0)
}

fn data() -> Data {
    Data {
        npcs: Npcs::new(NpcGrid::new(Vec2i::new(8, 8))),
        sites: Sites::new(),
        factions: Factions::new(),
        reports: Reports::new(),
        tick: 0,
        time_of_day: 0,
        should_purge: false,
    }
}

fn rng() -> ChaCha20Rng {
    ChaCha20Rng::from_seed([9u8; 32])
}

fn sim() -> RtSim<NoHandler> {
    RtSim::new(data(), Vec2i::new(8, 8), &mut rng()).ok().unwrap()
}

fn guard(data: &mut Data, x: i32, y: i32) -> NpcId {
    let npc = Npc::new(1, blocks(x, y)).with_profession(Some(Profession::Guard));
    let id = data.npcs.create_npc(npc);
    data.npcs.place(id);
    id
}

fn requested_npcs(requests: &[SpawnRequest]) -> Vec<NpcId> {
    let mut ids: Vec<NpcId> = requests
        .iter()
        .filter_map(|r| match r {
            SpawnRequest::CreateNpc { npc, .. } => Some(*npc),
            _ => None,
        })
        .collect();
    ids.sort_by_key(|id| id.0);
    ids
}

#[test]
fn entity_configurations() {
    assert_eq!(humanoid_config(&Profession::Farmer), "common.entity.village.farmer");
    assert_eq!(humanoid_config(&Profession::Adventurer(0)), "common.entity.world.traveler0");
    assert_eq!(humanoid_config(&Profession::Adventurer(2)), "common.entity.world.traveler2");
    assert_eq!(humanoid_config(&Profession::Adventurer(9)), "common.entity.world.traveler3");
    assert_eq!(humanoid_config(&Profession::Cultist), "common.entity.dungeon.tier-5.cultist");
    assert_eq!(
        wild_config(&Body::BirdLarge(BirdLargeSpecies::Phoenix)),
        Some("common.entity.wild.peaceful.phoenix")
    );
    assert_eq!(
        wild_config(&Body::BipedLarge(BipedLargeSpecies::Gigasfrost)),
        Some("common.entity.world.world_bosses.gigas_frost")
    );
    assert_eq!(wild_config(&Body::BipedLarge(BipedLargeSpecies::Other)), None);
    assert_eq!(wild_config(&Body::Humanoid), None);
    assert_eq!(wild_config(&Body::Ship(ShipBody::Galleon)), None);
}

#[test]
fn professions_trade_and_bear_marks() {
    assert_eq!(profession_extra_loadout(Some(&Profession::Merchant)), ExtraLoadout::Merchant);
    assert_eq!(profession_extra_loadout(Some(&Profession::Guard)), ExtraLoadout::Default);
    assert_eq!(profession_extra_loadout(None), ExtraLoadout::Default);
    assert!(ExtraLoadout::Merchant.sells(Good::Coin));
    assert!(ExtraLoadout::Farmer.sells(Good::Food));
    assert!(!ExtraLoadout::Farmer.sells(Good::Tools));
    assert!(ExtraLoadout::Herbalist.sells(Good::Ingredients));
    assert!(ExtraLoadout::Chef.sells(Good::Food));
    assert!(ExtraLoadout::Blacksmith.sells(Good::Tools));
    assert!(ExtraLoadout::Blacksmith.sells(Good::Armor));
    assert!(!ExtraLoadout::Blacksmith.sells(Good::Potions));
    assert!(ExtraLoadout::Alchemist.sells(Good::Potions));
    assert!(!ExtraLoadout::Default.sells(Good::Food));
    assert_eq!(profession_agent_mark(Some(&Profession::Chef)), Some(Mark::Merchant));
    assert_eq!(profession_agent_mark(Some(&Profession::Guard)), Some(Mark::Guard));
    assert_eq!(profession_agent_mark(Some(&Profession::Hunter)), None);
    assert_eq!(profession_agent_mark(None), None);
}

#[test]
fn entity_info_of_characters() {
    let mut sites = Sites::new();
    let home = sites.create(Site::new(Vec2i::new(0, 0), Some(WorldSiteId(4))));
    let npc = Npc::new(10, Vec3i::new(1, 2, 3))
        .with_profession(Some(Profession::Blacksmith))
        .with_home(Some(home));
    let info = get_npc_entity_info(&npc, &sites).unwrap();
    assert_eq!(info.pos, Vec3i::new(1, 2, 3));
    assert_eq!(info.config, "common.entity.village.blacksmith");
    assert_eq!(info.alignment, Alignment::Npc);
    assert_eq!(info.economy, Some(WorldSiteId(4)));
    assert_eq!(info.extra_loadout, ExtraLoadout::Blacksmith);
    assert_eq!(info.agent_mark, Some(Mark::Merchant));
    assert_eq!(info.seed, 13);
    let cultist = Npc::new(1, blocks(0, 0)).with_profession(Some(Profession::Cultist));
    assert_eq!(get_npc_entity_info(&cultist, &sites).unwrap().alignment, Alignment::Enemy);
    let bird = Npc::new(1, blocks(0, 0)).with_body(Body::BirdLarge(BirdLargeSpecies::Roc));
    let info = get_npc_entity_info(&bird, &sites).unwrap();
    assert_eq!(info.config, "common.entity.wild.aggressive.roc");
    assert_eq!(info.economy, None);
    assert_eq!(info.agent_mark, None);
    // Nothing can be made of a humanoid without a profession.
    assert!(get_npc_entity_info(&Npc::new(1, blocks(0, 0)), &sites).is_none());
}

#[test]
fn chunk_states() {
    let mut chunks = ChunkStates::new(Vec2i::new(4, 3));
    assert!(!chunks.is_loaded(Vec2i::new(1, 1)));
    chunks.load(Vec2i::new(1, 1), LoadedChunkState { max_res: vec![3] });
    chunks.load(Vec2i::new(3, 2), LoadedChunkState { max_res: vec![] });
    chunks.load(Vec2i::new(4, 0), LoadedChunkState { max_res: vec![] });
    chunks.load(Vec2i::new(0, -1), LoadedChunkState { max_res: vec![] });
    assert!(chunks.is_loaded(Vec2i::new(1, 1)));
    assert!(chunks.is_loaded(Vec2i::new(3, 2)));
    assert!(!chunks.is_loaded(Vec2i::new(4, 0)));
    assert!(!chunks.is_loaded(Vec2i::new(0, 1)));
    assert!(!chunks.is_loaded(Vec2i::new(0, -1)));
    // What is known of a loaded chunk is kept, and replaced by a later load.
    assert_eq!(chunks.chunks[1 * 4 + 1].as_ref().map(|s| s.max_res.clone()), Some(vec![3]));
    chunks.load(Vec2i::new(1, 1), LoadedChunkState { max_res: vec![5, 6] });
    assert_eq!(chunks.chunks[1 * 4 + 1].as_ref().map(|s| s.max_res.clone()), Some(vec![5, 6]));
    assert!(chunks.chunks[0].is_none());
    chunks.unload(Vec2i::new(1, 1));
    chunks.unload(Vec2i::new(9, 9));
    assert!(!chunks.is_loaded(Vec2i::new(1, 1)));
    assert!(chunks.chunks[1 * 4 + 1].is_none());
    assert!(chunks.is_loaded(Vec2i::new(3, 2)));
    // A world may be long and narrow.
    let mut long = ChunkStates::new(Vec2i::new(100_000, 2));
    long.load(Vec2i::new(99_999, 1), LoadedChunkState { max_res: vec![] });
    assert!(long.is_loaded(Vec2i::new(99_999, 1)));
    assert!(!long.is_loaded(Vec2i::new(99_999, 0)));
}

#[test]
fn load_notifications_keep_the_resources() {
    let mut sim = sim();
    sim.hook_load_chunk(Vec2i::new(2, 3), vec![7, 8, 9]);
    let kept = |sim: &RtSim<NoHandler>| sim.chunk_states.chunks[3 * 8 + 2].as_ref().map(|s| s.max_res.clone());
    assert_eq!(kept(&sim), Some(vec![7, 8, 9]));
    // A second notification leaves what the first has left.
    sim.hook_load_chunk(Vec2i::new(2, 3), vec![7, 8, 9]);
    assert_eq!(kept(&sim), Some(vec![7, 8, 9]));
    assert_eq!(sim.chunk_states.chunks.iter().filter(|c| c.is_some()).count(), 1);
    sim.hook_load_chunk(Vec2i::new(8, 3), vec![1]);
    assert_eq!(sim.chunk_states.chunks.iter().filter(|c| c.is_some()).count(), 1);
    sim.hook_unload_chunk(Vec2i::new(2, 3));
    assert_eq!(kept(&sim), None);
}

#[test]
fn mode_transition_scenario() {
    let mut sim = sim();
    let inside = guard(&mut sim.state.data, 40, 40);
    let outside = guard(&mut sim.state.data, 100, 100);
    let key = Vec2i::new(1, 1);
    // Nothing is loaded: nothing is made.
    assert!(sim.load_entities(0).spawns.is_empty());
    sim.hook_load_chunk(key, vec![]);
    // The load is (erroneously) reported twice.
    sim.hook_load_chunk(key, vec![]);
    let out = sim.load_entities(10);
    assert_eq!(requested_npcs(&out.spawns), vec![inside]);
    assert_eq!(sim.state.data.npcs.get(inside).unwrap().mode, SimulationMode::Loaded);
    assert_eq!(sim.state.data.npcs.get(outside).unwrap().mode, SimulationMode::Simulated);
    // The next ticks make nothing more of it, nor does another report.
    assert!(sim.load_entities(20).spawns.is_empty());
    sim.hook_load_chunk(key, vec![]);
    assert!(sim.load_entities(30).spawns.is_empty());
    // When its game entity is gone the character is simulated again, and is
    // made a game entity once more while its chunk stays loaded.
    sim.hook_rtsim_entity_unload(inside);
    assert_eq!(sim.state.data.npcs.get(inside).unwrap().mode, SimulationMode::Simulated);
    assert_eq!(requested_npcs(&sim.load_entities(40).spawns), vec![inside]);
    sim.hook_rtsim_entity_unload(inside);
    sim.hook_unload_chunk(key);
    assert!(sim.load_entities(50).spawns.is_empty());
    assert_eq!(sim.state.data.npcs.get(inside).unwrap().mode, SimulationMode::Simulated);
}

#[test]
fn riders_and_the_unspawnable_are_not_loaded() {
    let mut d = data();
    let mut chunks = ChunkStates::new(Vec2i::new(8, 8));
    chunks.load(Vec2i::new(0, 0), LoadedChunkState { max_res: vec![] });
    let rider = d.npcs.create_npc(
        Npc::new(1, blocks(1, 1)).with_profession(Some(Profession::Guard)).riding(Some(VehicleId(1))),
    );
    let nobody = d.npcs.create_npc(Npc::new(1, blocks(1, 1)));
    let bird = d.npcs.create_npc(
        Npc::new(1, blocks(1, 1)).with_body(Body::BirdLarge(BirdLargeSpecies::Phoenix)),
    );
    let requests = load_npcs(&mut d, &chunks);
    assert_eq!(requested_npcs(&requests), vec![bird]);
    assert_eq!(d.npcs.get(rider).unwrap().mode, SimulationMode::Simulated);
    assert_eq!(d.npcs.get(nobody).unwrap().mode, SimulationMode::Simulated);
    assert_eq!(d.npcs.get(bird).unwrap().mode, SimulationMode::Loaded);
}

#[test]
fn vehicles_bring_their_drivers() {
    let mut d = data();
    let mut chunks = ChunkStates::new(Vec2i::new(8, 8));
    chunks.load(Vec2i::new(0, 0), LoadedChunkState { max_res: vec![] });
    let captain = d.npcs.create_npc(
        Npc::new(1, blocks(500, 500)).with_profession(Some(Profession::Captain)),
    );
    let mut ship = Vehicle::new(blocks(2, 2), VehicleKind::Airship);
    ship.driver = Some(Actor::Npc(captain));
    let ship = d.npcs.create_vehicle(ship);
    // A second ship with the same driver, and one with a player at the helm.
    let mut second = Vehicle::new(blocks(3, 3), VehicleKind::Boat);
    second.driver = Some(Actor::Npc(captain));
    let second = d.npcs.create_vehicle(second);
    let mut third = Vehicle::new(blocks(4, 4), VehicleKind::Boat);
    third.driver = Some(Actor::Character(CharacterId(1)));
    let third = d.npcs.create_vehicle(third);
    let away = d.npcs.create_vehicle(Vehicle::new(blocks(100, 100), VehicleKind::Boat));
    d.npcs.get_mut(captain).unwrap().riding =
        Some(rtsim::npc::Riding { vehicle: ship, steering: true });
    let requests = load_vehicles(&mut d, &chunks);
    assert_eq!(requests.len(), 3);
    let mut drivers = 0;
    for r in &requests {
        match r {
            SpawnRequest::CreateShip { vehicle, pos, ship: body, driver } => {
                assert!([ship, second, third].contains(vehicle));
                let v = d.npcs.get_vehicle(*vehicle).unwrap();
                assert_eq!(*pos, v.wpos);
                assert_eq!(*body, v.get_ship());
                assert_eq!(v.mode, SimulationMode::Loaded);
                if let Some((id, info)) = driver {
                    drivers += 1;
                    assert_eq!(*id, captain);
                    assert_ne!(*vehicle, third);
                    assert_eq!(info.config, "common.entity.village.captain");
                }
            },
            _ => panic!("a character was requested in the pass over the vehicles"),
        }
    }
    // The driver is made once, though it drives two ships.
    assert_eq!(drivers, 1);
    assert_eq!(d.npcs.get(captain).unwrap().mode, SimulationMode::Loaded);
    assert_eq!(d.npcs.get_vehicle(away).unwrap().mode, SimulationMode::Simulated);
    assert!(load_vehicles(&mut d, &chunks).is_empty());
    // The pass over the characters does not make the driver again.
    assert!(load_npcs(&mut d, &chunks).is_empty());
}

#[test]
fn positions_are_taken_over_from_loaded_entities_only() {
    let mut sim = sim();
    let id = guard(&mut sim.state.data, 10, 10);
    assert!(!sim.sync_npc(id, blocks(50, 50)));
    assert_eq!(sim.state.data.npcs.get(id).unwrap().wpos, blocks(10, 10));
    sim.state.data.npcs.set_npc_mode(id, SimulationMode::Loaded);
    assert!(sim.sync_npc(id, blocks(50, 50)));
    assert_eq!(sim.state.data.npcs.get(id).unwrap().wpos, blocks(50, 50));
    assert_eq!(sim.state.data.npcs.nearby(blocks(50, 50).xy(), 100), vec![id]);
    assert!(!sim.sync_npc(NpcId(3), blocks(1, 1)));
    let v = sim.state.data.npcs.create_vehicle(Vehicle::new(blocks(1, 1), VehicleKind::Boat));
    assert!(!sim.sync_vehicle(v, blocks(2, 2)));
    sim.state.data.npcs.set_vehicle_mode(v, SimulationMode::Loaded);
    assert!(sim.sync_vehicle(v, blocks(2, 2)));
    assert_eq!(sim.state.data.npcs.get_vehicle(v).unwrap().wpos, blocks(2, 2));
    sim.hook_rtsim_vehicle_unload(v);
    assert_eq!(sim.state.data.npcs.get_vehicle(v).unwrap().mode, SimulationMode::Simulated);
}

#[test]
fn ticks_take_time_and_players_in() {
    let mut sim = sim();
    let walker = guard(&mut sim.state.data, 10, 10);
    let players = vec![
        (CharacterId(1), blocks(5, 5)),
        (CharacterId(2), blocks(40, 5)),
        (CharacterId(3), blocks(6, 6)),
    ];
    let event = OnTick { tick: 4, dt: 33, time_of_day: 777, time: 132 };
    let simulated = sim.tick(event, &players, &mut rng());
    assert_eq!(simulated, vec![walker]);
    assert_eq!(sim.state.data.time_of_day, 777);
    assert_eq!(sim.state.data.tick, 4);
    assert_eq!(
        sim.characters.characters_at(Vec2i::new(0, 0)),
        vec![(CharacterId(1), blocks(5, 5)), (CharacterId(3), blocks(6, 6))]
    );
    assert_eq!(sim.characters.characters_at(Vec2i::new(1, 0)), vec![(CharacterId(2), blocks(40, 5))]);
    assert!(sim.characters.characters_at(Vec2i::new(2, 2)).is_empty());
    // The next tick lists the players anew.
    sim.tick(event, &vec![(CharacterId(2), blocks(5, 5))], &mut rng());
    assert_eq!(sim.characters.characters_at(Vec2i::new(0, 0)), vec![(CharacterId(2), blocks(5, 5))]);
    assert!(sim.characters.characters_at(Vec2i::new(1, 0)).is_empty());
    let mut map = CharacterMap::new();
    assert!(map.characters_at(Vec2i::new(0, 0)).is_empty());
    map.update(&players);
    assert_eq!(map.characters_at(Vec2i::new(1, 0)).len(), 1);
}

#[test]
fn deaths_reach_the_rules_through_the_hook() {
    let mut sim = sim();
    let witness = guard(&mut sim.state.data, 10, 10);
    sim.hook_rtsim_actor_death(Actor::Character(CharacterId(1)), Some(blocks(11, 10)), None, &mut rng());
    assert_eq!(sim.state.data.npcs.get(witness).unwrap().inbox.len(), 1);
    sim.hook_block_update(blocks(1, 1), 0, 1, &mut rng());
    assert_eq!(sim.state.data.reports.entries.len(), 1);
    sim.set_should_purge(true);
    assert!(sim.state().data.should_purge);
}

#[test]
fn saves_are_due_every_minute() {
    let mut sim = sim();
    assert!(sim.should_save(0));
    let out = sim.load_entities(5_000);
    assert!(out.save);
    assert_eq!(sim.last_saved, Some(5_000));
    assert!(!sim.should_save(65_000));
    assert!(sim.should_save(65_001));
    assert!(!sim.load_entities(30_000).save);
    assert_eq!(sim.last_saved, Some(5_000));
    sim.note_saved(70_000);
    assert!(!sim.should_save(1_000));
    assert!(!sim.should_save(130_000));
}

#[test]
fn corrupt_saves_are_kept() {
    assert_eq!(start_action(LoadOutcome::Skipped), StartAction::Generate);
    assert_eq!(start_action(LoadOutcome::NotFound), StartAction::Generate);
    assert_eq!(start_action(LoadOutcome::Unreadable), StartAction::Fail);
    assert_eq!(start_action(LoadOutcome::Corrupt), StartAction::BackUpAndGenerate);
    assert_eq!(start_action(LoadOutcome::Loaded { should_purge: false }), StartAction::UseLoaded);
    assert_eq!(start_action(LoadOutcome::Loaded { should_purge: true }), StartAction::Generate);
    assert_eq!(backup_name(0), BackupName { number: None });
    assert_eq!(backup_name(3), BackupName { number: Some(3) });
    assert_eq!(next_backup_step(0, false), BackupStep::Rename(BackupName { number: None }));
    assert_eq!(next_backup_step(0, true), BackupStep::Try(BackupName { number: Some(1) }));
    assert_eq!(next_backup_step(4, false), BackupStep::Rename(BackupName { number: Some(4) }));
    assert_eq!(next_backup_step(u32::MAX, true), BackupStep::GiveUp);
}
