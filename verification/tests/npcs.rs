use rtsim::geom::advance;
use rtsim::geom::isqrt;
use rtsim::geom::Vec2i;
use rtsim::geom::Vec3i;
use rtsim::geom::CHUNK_SIZE;
use rtsim::geom::SUBDIV;
use rtsim::grid::NpcGrid;
use rtsim::ids::FactionId;
use rtsim::ids::NpcId;
use rtsim::ids::SiteId;
use rtsim::ids::VehicleId;
use rtsim::ids::WorldSiteId;
use rtsim::npc::Body;
use rtsim::npc::Controller;
use rtsim::npc::Npc;
use rtsim::npc::Npcs;
use rtsim::npc::Profession;
use rtsim::npc::Riding;
use rtsim::npc::ShipBody;
use rtsim::npc::SimulationMode;
use rtsim::npc::Vehicle;
use rtsim::npc::VehicleKind;
use rtsim::site::Site;
use rtsim::site::Sites;

fn blocks(x: i32, y: i32) -> Vec3i {
    Vec3i::new(x * SUBDIV, y * SUBDIV, 0)
}

fn world() -> Npcs {
    Npcs::new(NpcGrid::new(Vec2i::new(8, 8)))
}

fn place(npcs: &mut Npcs, x: i32, y: i32) -> NpcId {
    let id = npcs.create_npc(Npc::new(1, blocks(x, y)));
    npcs.place(id);
    id
}

#[test]
fn npc_builders() {
    let npc = Npc::new(7, blocks(1, 2))
        .with_profession(Some(Profession::Guard))
        .with_home(Some(SiteId(5)))
        .with_faction(Some(FactionId(6)))
        .steering(Some(VehicleId(9)));
    assert_eq!(npc.seed, 7);
    assert_eq!(npc.wpos, blocks(1, 2));
    assert_eq!(npc.profession, Some(Profession::Guard));
    assert_eq!(npc.home, Some(SiteId(5)));
    assert_eq!(npc.faction, Some(FactionId(6)));
    assert_eq!(npc.riding, Some(Riding { vehicle: VehicleId(9), steering: true }));
    assert_eq!(npc.mode, SimulationMode::Simulated);
    assert_eq!(npc.body, Body::Humanoid);
    assert!(npc.chunk_pos.is_none());
    let npc = npc.riding(Some(VehicleId(3)));
    assert_eq!(npc.riding, Some(Riding { vehicle: VehicleId(3), steering: false }));
    let npc = npc.riding(None);
    assert_eq!(npc.riding, None);
    assert_eq!(Npc::new(u32::MAX, blocks(0, 0)).rng_seed(2), 1);
    assert_eq!(SimulationMode::default(), SimulationMode::Simulated);
    assert_eq!(Controller::idle().action, None);
}

#[test]
fn vehicles() {
    let v = Vehicle::new(blocks(3, 4), VehicleKind::Airship);
    assert_eq!(v.get_ship(), ShipBody::DefaultAirship);
    assert_eq!(v.get_speed(), 15 * 256);
    assert_eq!(v.mode, SimulationMode::Simulated);
    let b = Vehicle::new(blocks(3, 4), VehicleKind::Boat);
    assert_eq!(b.get_ship(), ShipBody::Galleon);
    assert_eq!(b.get_speed(), 13 * 256);
    let mut npcs = world();
    let id = npcs.create_vehicle(v);
    assert_eq!(npcs.vehicle_count(), 1);
    assert_eq!(npcs.get_vehicle(id).map(|v| v.wpos), Some(blocks(3, 4)));
    assert!(npcs.set_vehicle_mode(id, SimulationMode::Loaded));
    assert_eq!(npcs.get_vehicle(id).map(|v| v.mode), Some(SimulationMode::Loaded));
    assert!(npcs.set_vehicle_wpos(id, blocks(9, 9)));
    assert_eq!(npcs.get_vehicle(id).map(|v| v.wpos), Some(blocks(9, 9)));
    assert_eq!(npcs.get_vehicle(id).map(|v| v.chunk_pos), Some(Some(Vec2i::new(0, 0))));
    assert_eq!(npcs.npc_grid.get(Vec2i::new(0, 0)).unwrap().vehicles, vec![id]);
    assert!(npcs.set_vehicle_wpos(id, blocks(40, 9)));
    assert!(npcs.npc_grid.get(Vec2i::new(0, 0)).unwrap().vehicles.is_empty());
    assert_eq!(npcs.npc_grid.get(Vec2i::new(1, 0)).unwrap().vehicles, vec![id]);
    assert_eq!(npcs.get_vehicle(id).unwrap().get_body(), rtsim::npc::Body::Ship(ShipBody::DefaultAirship));
    assert_eq!(npcs.vehicle_ids(), vec![id]);
    assert!(npcs.get_vehicle(VehicleId(0)).is_none());
    assert!(npcs.try_create_vehicle(Vehicle::new(blocks(0, 0), VehicleKind::Boat)).is_ok());
}

#[test]
fn handles_are_stable_and_never_alias() {
    let mut npcs = world();
    let a = npcs.create_npc(Npc::new(1, blocks(1, 1)));
    let b = npcs.create_npc(Npc::new(2, blocks(2, 2)));
    assert_ne!(a, b);
    assert!(a.is_well_formed() && b.is_well_formed());
    assert_eq!(npcs.npc_count(), 2);
    assert_eq!(npcs.get(a).map(|n| n.seed), Some(1));
    assert_eq!(npcs.get(b).map(|n| n.seed), Some(2));
    let gone = npcs.remove_npc(a);
    assert_eq!(gone.map(|n| n.seed), Some(1));
    // A stale handle finds nothing and removes nothing.
    assert!(npcs.get(a).is_none());
    assert!(npcs.remove_npc(a).is_none());
    assert!(!npcs.set_npc_mode(a, SimulationMode::Loaded));
    // The slot is used again under another handle.
    let c = npcs.create_npc(Npc::new(3, blocks(3, 3)));
    assert_ne!(c, a);
    assert!(npcs.get(a).is_none());
    assert_eq!(npcs.get(c).map(|n| n.seed), Some(3));
    // A handle that no table gave out finds nothing.
    assert!(npcs.get(NpcId(0)).is_none());
    assert!(npcs.get(NpcId(a.0 & 0xffff_ffff)).is_none());
    let mut ids = npcs.npc_ids();
    ids.sort_by_key(|id| id.0);
    let mut expected = vec![b, c];
    expected.sort_by_key(|id| id.0);
    assert_eq!(ids, expected);
    assert_eq!(npcs.npc_count(), 2);
    assert!(npcs.try_create_npc(Npc::new(4, blocks(0, 0))).is_ok());
    assert_eq!(npcs.npc_count(), 3);
    // A grid may be long and narrow.
    let long = Npcs::new(NpcGrid::new(Vec2i::new(2, 100_000)));
    assert_eq!(long.npc_grid.cells.len(), 200_000);
}

#[test]
fn retired_handles_are_not_given_out_again() {
    let mut npcs = world();
    let keeper = npcs.create_npc(Npc::new(0, blocks(0, 0)));
    let mut retired: Vec<NpcId> = Vec::new();
    let mut seed: u32 = 1;
    while seed <= 200 {
        let id = npcs.create_npc(Npc::new(seed, blocks(1, 1)));
        assert_ne!(id, keeper);
        assert!(!retired.contains(&id));
        assert_eq!(npcs.npc_count(), 2);
        assert_eq!(npcs.remove_npc(id).map(|n| n.seed), Some(seed));
        retired.push(id);
        seed += 1;
    }
    // The slot was used again each time, and every handle of it but the
    // present one finds nothing.
    assert!(retired.iter().all(|id| id.0 & 0xffff_ffff == retired[0].0 & 0xffff_ffff));
    assert!(retired.iter().all(|id| npcs.get(*id).is_none()));
    assert_eq!(npcs.get(keeper).map(|n| n.seed), Some(0));
    assert_eq!(npcs.npc_count(), 1);
}

#[test]
fn chunks_of_points() {
    assert_eq!(Vec2i::new(0, 0).to_chunk(), Vec2i::new(0, 0));
    assert_eq!(Vec2i::new(8191, 8192).to_chunk(), Vec2i::new(0, 1));
    assert_eq!(Vec2i::new(-1, -8192).to_chunk(), Vec2i::new(0, -1));
    assert_eq!(Vec2i::new(-1, -8192).wpos_to_cpos(), Vec2i::new(-1, -1));
    assert_eq!(Vec2i::new(-8193, 16384).wpos_to_cpos(), Vec2i::new(-2, 2));
    assert_eq!(Vec2i::new(3, 4).distance_squared(Vec2i::new(0, 0)), 25);
    assert_eq!(
        Vec2i::new(i32::MIN, i32::MIN).distance_squared(Vec2i::new(i32::MAX, i32::MAX)),
        2 * (u32::MAX as u128) * (u32::MAX as u128)
    );
    assert_eq!(CHUNK_SIZE, 32 * SUBDIV);
}

#[test]
fn grid_query_soundness() {
    let mut npcs = world();
    let origin = blocks(100, 100);
    let near = place(&mut npcs, 100, 100);
    // Across the boundary of the chunk, and within the radius.
    let across = place(&mut npcs, 90, 95);
    let edge = place(&mut npcs, 100, 131);
    let beyond = place(&mut npcs, 100, 132);
    let far = place(&mut npcs, 200, 200);
    let radius = (32 * SUBDIV) as u32;
    let mut found = npcs.nearby(origin.xy(), radius);
    found.sort_by_key(|id| id.0);
    let mut expected = vec![near, across, edge];
    expected.sort_by_key(|id| id.0);
    assert_eq!(found, expected);
    assert!(!found.contains(&beyond));
    assert!(!found.contains(&far));
    // A radius of nothing finds nobody, not even at the very place.
    assert_eq!(npcs.nearby(origin.xy(), 0), vec![]);
    assert_eq!(npcs.nearby(origin.xy(), 1), vec![near]);
}

#[test]
fn grid_query_is_blind_to_the_unplaced_and_the_far() {
    let mut npcs = world();
    let unplaced = npcs.create_npc(Npc::new(1, blocks(10, 10)));
    assert_eq!(npcs.nearby(blocks(10, 10).xy(), 100), vec![]);
    npcs.place(unplaced);
    assert_eq!(npcs.nearby(blocks(10, 10).xy(), 100), vec![unplaced]);
    // Two chunks away the grid is not looked at, whatever the radius.
    assert_eq!(npcs.nearby(blocks(10 + 64, 10).xy(), 100 * SUBDIV as u32), vec![]);
    // Off the grid nothing is listed.
    let outside = place(&mut npcs, 10_000, 10);
    assert_eq!(npcs.nearby(blocks(10_000, 10).xy(), 100), vec![]);
    assert_eq!(npcs.get(outside).map(|n| n.chunk_pos), Some(Some(Vec2i::new(10_000 / 32, 0))));
}

#[test]
fn grid_follows_moves() {
    let mut npcs = world();
    let id = place(&mut npcs, 10, 10);
    assert_eq!(npcs.get(id).unwrap().chunk_pos, Some(Vec2i::new(0, 0)));
    assert_eq!(npcs.npc_grid.get(Vec2i::new(0, 0)).unwrap().npcs, vec![id]);
    assert!(npcs.set_npc_wpos(id, blocks(100, 40)));
    assert_eq!(npcs.get(id).unwrap().wpos, blocks(100, 40));
    assert_eq!(npcs.get(id).unwrap().chunk_pos, Some(Vec2i::new(3, 1)));
    assert!(npcs.npc_grid.get(Vec2i::new(0, 0)).unwrap().npcs.is_empty());
    assert_eq!(npcs.npc_grid.get(Vec2i::new(3, 1)).unwrap().npcs, vec![id]);
    assert_eq!(npcs.nearby(blocks(10, 10).xy(), 5 * SUBDIV as u32), vec![]);
    assert_eq!(npcs.nearby(blocks(101, 40).xy(), 5 * SUBDIV as u32), vec![id]);
    // A move within the chunk keeps the one listing.
    assert!(npcs.set_npc_wpos(id, blocks(101, 41)));
    assert_eq!(npcs.npc_grid.get(Vec2i::new(3, 1)).unwrap().npcs, vec![id]);
    // Removal takes the character off the grid as well.
    assert!(npcs.remove_npc(id).is_some());
    assert!(npcs.npc_grid.get(Vec2i::new(3, 1)).unwrap().npcs.is_empty());
    assert!(!npcs.set_npc_wpos(id, blocks(1, 1)));
    assert!(npcs.npc_grid.get(Vec2i::new(-1, 0)).is_none());
    assert!(npcs.npc_grid.get(Vec2i::new(8, 0)).is_none());
}

#[test]
fn integer_square_roots() {
    assert_eq!(isqrt(0), 0);
    assert_eq!(isqrt(1), 1);
    assert_eq!(isqrt(24), 4);
    assert_eq!(isqrt(25), 5);
    assert_eq!(isqrt((1u128 << 66) - 1), (1u64 << 33) - 1);
}

#[test]
fn steps_toward_a_target() {
    let from = Vec2i::new(0, 0);
    // 5 blocks a second for a second, along a 3-4-5 triangle.
    let to = advance(from, Vec2i::new(3000, 4000), 5 * 256, 1000, 1000);
    assert_eq!(to, Vec2i::new(768, 1024));
    // Half the speed factor, half the way; toward smaller coordinates too.
    let to = advance(from, Vec2i::new(-3000, -4000), 5 * 256, 500, 1000);
    assert_eq!(to, Vec2i::new(-384, -512));
    // At the target nothing moves; no time, no way.
    assert_eq!(advance(from, from, 5 * 256, 1000, 1000), from);
    assert_eq!(advance(from, Vec2i::new(10, 0), 5 * 256, 1000, 0), from);
    // The step is not cut short at the target.
    assert_eq!(advance(from, Vec2i::new(10, 0), 256, 1000, 1000), Vec2i::new(256, 0));
    // Coordinates stay in range.
    let edge = Vec2i::new(i32::MAX - 5, 0);
    let to = advance(edge, Vec2i::new(i32::MAX, 0), u32::MAX, 1000, 1000);
    assert_eq!(to, Vec2i::new(i32::MAX, 0));
}

#[test]
fn sites_and_links() {
    let mut sites = Sites::new();
    let a = sites.create(Site::new(Vec2i::new(1, 2), Some(WorldSiteId(7))).with_faction(Some(FactionId(3))));
    let b = sites.create(Site::new(Vec2i::new(5, 6), None));
    assert_eq!(sites.len(), 2);
    assert_eq!(sites.get(a).map(|s| s.faction), Some(Some(FactionId(3))));
    assert_eq!(sites.get(b).map(|s| s.wpos), Some(Vec2i::new(5, 6)));
    assert_eq!(sites.linked(WorldSiteId(7)), Some(a));
    assert_eq!(sites.linked(WorldSiteId(8)), None);
    assert!(sites.get(SiteId(1)).is_none());
    assert!(sites.add_resident(a, NpcId(1)));
    assert!(sites.add_resident(a, NpcId(2)));
    assert!(sites.add_resident(a, NpcId(1)));
    assert!(sites.remove_resident(a, NpcId(1)));
    assert_eq!(sites.get(a).unwrap().population, vec![NpcId(2)]);
    assert!(!sites.remove_resident(SiteId(0), NpcId(2)));
    // A later site for the same site of the world takes the link over.
    let c = sites.try_create(Site::new(Vec2i::new(0, 0), Some(WorldSiteId(7)))).ok().unwrap();
    assert_eq!(sites.linked(WorldSiteId(7)), Some(c));
}

#[test]
fn duplicates_keep_what_is_saved() {
    let mut npc = Npc::new(7, blocks(1, 2))
        .with_profession(Some(Profession::Chef))
        .with_home(Some(SiteId(5)))
        .with_body(Body::Humanoid);
    npc.mode = SimulationMode::Loaded;
    npc.chunk_pos = Some(Vec2i::new(0, 0));
    npc.action = Controller::goto(blocks(5, 5), 1000).action;
    npc.sentiments.set(rtsim::sentiment::Target::Npc(NpcId(3)), rtsim::sentiment::Sentiment { positivity: 4 });
    let copy = npc.clone();
    assert_eq!(copy.seed, 7);
    assert_eq!(copy.wpos, blocks(1, 2));
    assert_eq!(copy.profession, Some(Profession::Chef));
    assert_eq!(copy.home, Some(SiteId(5)));
    assert_eq!(copy.sentiments.toward(rtsim::sentiment::Target::Npc(NpcId(3))).positivity, 4);
    assert_eq!(copy.mode, SimulationMode::Simulated);
    assert_eq!(copy.chunk_pos, None);
    assert_eq!(copy.action, None);
}
