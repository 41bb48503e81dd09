use rand::SeedableRng;
use rand_chacha::ChaCha20Rng;
use rtsim::ai::just;
use rtsim::ai::repeat;
use rtsim::ai::Brain;
use rtsim::ai::NpcCtx;
use rtsim::data::Data;
use rtsim::data::Report;
use rtsim::data::ReportKind;
use rtsim::data::Reports;
use rtsim::faction::Faction;
use rtsim::faction::Factions;
use rtsim::data::REPORT_AGE;
use rtsim::gen::inhabitant_count;
use rtsim::gen::merchant_count;
use rtsim::gen::nearest_faction;
use rtsim::gen::profession_for_roll;
use rtsim::geom::Vec2i;
use rtsim::geom::Vec3i;
use rtsim::geom::SUBDIV;
use rtsim::grid::NpcGrid;
use rtsim::ids::Actor;
use rtsim::ids::CharacterId;
use rtsim::ids::FactionId;
use rtsim::ids::NpcId;
use rtsim::ids::ReportId;
use rtsim::ids::WorldSiteId;
use rtsim::npc::Controller;
use rtsim::npc::Npc;
use rtsim::npc::Npcs;
use rtsim::npc::Profession;
use rtsim::npc::SimulationMode;
use rtsim::rule::cleanup;
use rtsim::rule::ground_npc;
use rtsim::rule::is_due;
use rtsim::rule::on_death;
use rtsim::rule::simulate_npcs;
use rtsim::rule::start_rules;
use rtsim::rule::think_for;
use rtsim::rule::Binding;
use rtsim::rule::CleanUp;
use rtsim::rule::Event;
use rtsim::rule::EventKind;
use rtsim::rule::Handle;
use rtsim::rule::Handler;
use rtsim::rule::NoHandler;
use rtsim::rule::OnBlockChange;
use rtsim::rule::OnDeath;
use rtsim::rule::OnTick;
use rtsim::rule::ReportEvents;
use rtsim::rule::RtState;
use rtsim::rule::Rule;
use rtsim::rule::RuleError;
use rtsim::rule::RuleKind;
use rtsim::rule::SimulateNpcs;
use rtsim::sentiment::Target;
use rtsim::site::Site;
use rtsim::site::Sites;

fn blocks(x: i32, y: i32) -> Vec3i {
    Vec3i::new(x * SUBDIV, y * SUBDIV, 0)
}

fn data() -> Data {
    Data {
        npcs: Npcs::new(NpcGrid::new(Vec2i::new(8, 8))),
        sites: Sites::new(),
        factions: Factions::new(),
        reports: Reports::new(),
        tick: 0,
        time_of_day: 1000,
        should_purge: false,
    }
}

fn rng() -> ChaCha20Rng {
    ChaCha20Rng::from_seed([3u8; 32])
}

fn spawn(data: &mut Data, seed: u32, x: i32, y: i32) -> NpcId {
    let id = data.npcs.create_npc(Npc::new(seed, blocks(x, y)));
    data.npcs.place(id);
    id
}

/// Tells a character to walk, and marks it as dead.
fn doom(data: &mut Data, id: NpcId) {
    let npc = data.npcs.get_mut(id).unwrap();
    npc.action = Controller::goto(blocks(100, 10), 1000).action;
    npc.is_dead = true;
}

fn tick(tick: u64, dt: u32) -> OnTick {
    OnTick { tick, dt, time_of_day: 1000, time: 0 }
}

#[test]
fn rules_bind_in_order() {
    let mut state = RtState::<NoHandler>::new(data());
    assert!(state.bindings.is_empty());
    assert!(CleanUp::start(&mut state).is_ok());
    assert!(ReportEvents::start(&mut state).is_ok());
    assert!(SimulateNpcs::start(&mut state).is_ok());
    assert_eq!(
        state.bindings,
        vec![
            Binding { event: EventKind::OnTick, handler: Handler::CleanUp },
            Binding { event: EventKind::OnDeath, handler: Handler::ReportDeath },
            Binding { event: EventKind::OnTick, handler: Handler::SimulateNpcs },
        ]
    );
    let mut state = RtState::<NoHandler>::new(data());
    assert!(start_rules(&mut state).is_ok());
    assert_eq!(
        state.bindings,
        vec![
            Binding { event: EventKind::OnDeath, handler: Handler::ReportDeath },
            Binding { event: EventKind::OnTick, handler: Handler::SimulateNpcs },
            Binding { event: EventKind::OnTick, handler: Handler::CleanUp },
        ]
    );
    // The rules that were started are known by name, and the others missed.
    assert!(state.rule(RuleKind::CleanUp).is_ok());
    let mut bare = RtState::<NoHandler>::new(data());
    assert!(bare.start_rule::<ReportEvents>().is_ok());
    assert!(bare.rule(RuleKind::ReportEvents).is_ok());
    match bare.rule(RuleKind::SimulateNpcs) {
        Err(RuleError::NoSuchRule(name)) => assert_eq!(name, "SimulateNpcs"),
        Ok(()) => panic!("a rule that was not started was found"),
    }
    assert_eq!(bare.rules, vec![RuleKind::ReportEvents]);
    assert_eq!(<CleanUp as Rule<NoHandler>>::kind().name(), "CleanUp");
    assert_eq!(Event::OnSetup.kind(), EventKind::OnSetup);
    assert_eq!(Event::OnTick(tick(0, 0)).kind(), EventKind::OnTick);
}

#[test]
fn emit_runs_the_handlers_of_the_kind_in_order() {
    // Movement is bound before clean-up: a character that walks and is dead
    // has walked before it is removed, and is on the list of the moved.
    let mut state = RtState::<NoHandler>::new(data());
    start_rules(&mut state).unwrap();
    let walker = spawn(&mut state.data, 0, 10, 10);
    doom(&mut state.data, walker);
    let mut r = rng();
    let moved = state.emit(&Event::OnTick(tick(0, 1000)), &mut r);
    assert_eq!(moved, vec![walker]);
    assert!(state.data.npcs.get(walker).is_none());
    // With the bindings the other way round the dead is gone before it moves.
    let mut state = RtState::<NoHandler>::new(data());
    state.bind(EventKind::OnTick, Handler::CleanUp);
    state.bind(EventKind::OnTick, Handler::SimulateNpcs);
    let walker = spawn(&mut state.data, 0, 10, 10);
    doom(&mut state.data, walker);
    let moved = state.emit(&Event::OnTick(tick(0, 1000)), &mut r);
    assert_eq!(moved, vec![]);
    // Events of other kinds reach no handler.
    let before = state.data.npcs.npc_count();
    let change = OnBlockChange { wpos: blocks(1, 1), old: 1, new: 2 };
    assert_eq!(state.emit(&Event::OnBlockChange(change), &mut r), vec![]);
    assert_eq!(state.emit(&Event::OnSetup, &mut r), vec![]);
    assert_eq!(state.data.npcs.npc_count(), before);
}

/// A handler of a rule of the embedder's own: it counts the changed blocks
/// in the tick counter, by its weight.
#[derive(Clone, Copy, Debug, PartialEq, Eq)]
struct CountBlocks {
    weight: u64,
}

impl Handle for CountBlocks {
    fn answers(&self, before: Data, after: Data, _event: Event) -> bool {
        after.tick == before.tick + self.weight
    }

    fn handle(&self, data: &mut Data, event: &Event) {
        if let Event::OnBlockChange(_) = event {
            data.tick += self.weight;
        }
    }
}

/// The rule that binds two of them, the heavier after the lighter.
struct Surveying;

impl Rule<CountBlocks> for Surveying {
    fn kind_spec() -> RuleKind {
        RuleKind::Custom(7)
    }

    fn binds() -> vstd::seq::Seq<Binding<CountBlocks>> {
        vstd::seq::Seq::empty()
    }

    fn can_start(_rtstate: RtState<CountBlocks>) -> bool {
        true
    }

    fn kind() -> RuleKind {
        RuleKind::Custom(7)
    }

    fn start(rtstate: &mut RtState<CountBlocks>) -> Result<Self, RuleError> {
        rtstate.bind(EventKind::OnBlockChange, Handler::Custom(CountBlocks { weight: 1 }));
        rtstate.bind(EventKind::OnBlockChange, Handler::Custom(CountBlocks { weight: 10 }));
        Ok(Surveying)
    }
}

#[test]
fn a_rule_may_bring_its_own_handlers() {
    let mut state = RtState::<CountBlocks>::new(data());
    start_rules(&mut state).unwrap();
    assert!(state.rule(RuleKind::Custom(7)).is_err());
    assert!(state.start_rule::<Surveying>().is_ok());
    assert!(state.rule(RuleKind::Custom(7)).is_ok());
    match state.rule(RuleKind::Custom(8)) {
        Err(RuleError::NoSuchRule(name)) => assert_eq!(name, "Custom"),
        Ok(()) => panic!("a rule that was not started was found"),
    }
    assert_eq!(state.bindings.len(), 5);
    assert_eq!(
        state.bindings[4],
        Binding { event: EventKind::OnBlockChange, handler: Handler::Custom(CountBlocks { weight: 10 }) }
    );
    let mut r = rng();
    let change = OnBlockChange { wpos: blocks(1, 1), old: 1, new: 2 };
    // Both handlers answer a changed block, and none of the library's does.
    assert_eq!(state.emit(&Event::OnBlockChange(change), &mut r), vec![]);
    assert_eq!(state.data.tick, 11);
    assert_eq!(state.emit(&Event::OnBlockChange(change), &mut r), vec![]);
    assert_eq!(state.data.tick, 22);
    // Events of the other kinds pass them by.
    state.emit(&Event::OnSetup, &mut r);
    spawn(&mut state.data, 1, 1, 1);
    let death = OnDeath { actor: Actor::Character(CharacterId(5)), wpos: Some(blocks(1, 1)), killer: None };
    state.emit(&Event::OnDeath(death), &mut r);
    assert_eq!(state.data.tick, 22);
    assert_eq!(state.data.reports.entries.len(), 1);
    // A simulation without such rules has nothing to run there.
    let mut plain = RtState::<NoHandler>::new(data());
    start_rules(&mut plain).unwrap();
    plain.bind(EventKind::OnBlockChange, Handler::Custom(NoHandler));
    plain.emit(&Event::OnBlockChange(change), &mut r);
    assert_eq!(plain.data.tick, 0);
}

#[test]
fn death_is_reported_to_those_nearby() {
    let mut d = data();
    let witness = spawn(&mut d, 1, 100, 100);
    let other = spawn(&mut d, 2, 110, 100);
    let far = spawn(&mut d, 3, 200, 200);
    let victim = Actor::Character(CharacterId(5));
    let event = OnDeath { actor: victim, wpos: Some(blocks(101, 100)), killer: Some(Actor::Npc(far)) };
    on_death(&mut d, &event);
    assert_eq!(d.reports.entries.len(), 1);
    let (id, report) = d.reports.entries[0];
    assert_eq!(id, ReportId(0));
    assert_eq!(report.kind, ReportKind::Death { actor: victim, killer: Some(Actor::Npc(far)) });
    assert_eq!(report.at, 1000);
    assert_eq!(d.npcs.get(witness).unwrap().inbox, vec![id]);
    assert_eq!(d.npcs.get(other).unwrap().inbox, vec![id]);
    assert!(d.npcs.get(far).unwrap().inbox.is_empty());
    // A death that nobody is near, or whose place is not known, is reported
    // to nobody.
    on_death(&mut d, &OnDeath { actor: victim, wpos: Some(blocks(20, 200)), killer: None });
    on_death(&mut d, &OnDeath { actor: victim, wpos: None, killer: None });
    assert_eq!(d.reports.entries.len(), 1);
    // A second death gets a number of its own.
    on_death(&mut d, &OnDeath { actor: Actor::Npc(other), wpos: Some(blocks(101, 100)), killer: None });
    assert_eq!(d.reports.entries[1].0, ReportId(1));
    assert_eq!(d.npcs.get(witness).unwrap().inbox, vec![ReportId(0), ReportId(1)]);
    assert!(d.reports.contains(ReportId(1)));
    assert!(!d.reports.contains(ReportId(2)));
}

#[test]
fn reports_grow_old() {
    let mut reports = Reports::new();
    let kind = ReportKind::Death { actor: Actor::Character(CharacterId(1)), killer: None };
    let a = reports.create(Report { kind, at: 0 });
    let b = reports.create(Report { kind, at: 500 });
    reports.cleanup(REPORT_AGE - 1);
    assert_eq!(reports.entries.len(), 2);
    reports.cleanup(REPORT_AGE);
    assert!(!reports.contains(a));
    assert!(reports.contains(b));
    reports.cleanup(u64::MAX);
    assert!(reports.entries.is_empty());
    // Numbers are not given out again.
    assert_eq!(reports.create(Report { kind, at: 0 }), ReportId(2));
}

#[test]
fn simulated_characters_walk() {
    let mut d = data();
    let walker = spawn(&mut d, 1, 10, 10);
    let idler = spawn(&mut d, 2, 20, 20);
    let loaded = spawn(&mut d, 3, 30, 30);
    d.npcs.get_mut(walker).unwrap().action = Controller::goto(blocks(200, 10), 1000).action;
    d.npcs.get_mut(loaded).unwrap().action = Controller::goto(blocks(200, 10), 1000).action;
    d.npcs.set_npc_mode(loaded, SimulationMode::Loaded);
    let mut moved = simulate_npcs(&mut d, &tick(0, 2000));
    moved.sort_by_key(|id| id.0);
    let mut expected = vec![walker, idler];
    expected.sort_by_key(|id| id.0);
    assert_eq!(moved, expected);
    // A humanoid covers 5.5 blocks a second.
    assert_eq!(d.npcs.get(walker).unwrap().wpos, Vec3i::new(10 * 256 + 2816, 10 * 256, 0));
    assert_eq!(d.npcs.get(idler).unwrap().wpos, blocks(20, 20));
    assert_eq!(d.npcs.get(loaded).unwrap().wpos, blocks(30, 30));
    // Across the boundary of a chunk the grid follows.
    for _ in 0..3 {
        simulate_npcs(&mut d, &tick(0, 2000));
    }
    assert_eq!(d.npcs.get(walker).unwrap().chunk_pos, Some(Vec2i::new(1, 0)));
    assert_eq!(d.npcs.npc_grid.get(Vec2i::new(1, 0)).unwrap().npcs, vec![walker]);
    assert!(d.npcs.npc_grid.get(Vec2i::new(0, 0)).unwrap().npcs.contains(&idler));
    assert!(!d.npcs.npc_grid.get(Vec2i::new(0, 0)).unwrap().npcs.contains(&walker));
}

#[test]
fn grounding_sets_height_and_site() {
    let mut d = data();
    let id = spawn(&mut d, 1, 10, 10);
    let site = d.sites.create(Site::new(Vec2i::new(0, 0), Some(WorldSiteId(4))));
    assert!(ground_npc(&mut d, id, Some(77), Some(WorldSiteId(4))));
    assert_eq!(d.npcs.get(id).unwrap().wpos, Vec3i::new(2560, 2560, 77));
    assert_eq!(d.npcs.get(id).unwrap().current_site, Some(site));
    assert!(ground_npc(&mut d, id, None, Some(WorldSiteId(5))));
    assert_eq!(d.npcs.get(id).unwrap().wpos.z, 0);
    assert_eq!(d.npcs.get(id).unwrap().current_site, None);
    assert!(!ground_npc(&mut d, NpcId(1), None, None));
}

#[test]
fn cleanup_removes_the_dead() {
    let mut d = data();
    let home = d.sites.create(Site::new(Vec2i::new(0, 0), None));
    let alive = spawn(&mut d, 1, 10, 10);
    let dead = spawn(&mut d, 1, 11, 11);
    for id in [alive, dead] {
        d.npcs.get_mut(id).unwrap().home = Some(home);
        d.sites.add_resident(home, id);
    }
    d.npcs.get_mut(dead).unwrap().is_dead = true;
    cleanup(&mut d, &tick(1, 33), &mut rng());
    assert!(d.npcs.get(dead).is_none());
    assert!(d.npcs.get(alive).is_some());
    assert_eq!(d.npcs.npc_count(), 1);
    assert_eq!(d.sites.get(home).unwrap().population, vec![alive]);
    assert_eq!(d.npcs.npc_grid.get(Vec2i::new(0, 0)).unwrap().npcs, vec![alive]);
    assert_eq!(d.npcs.nearby(blocks(10, 10).xy(), 8000), vec![alive]);
}

#[test]
fn cleanup_is_spread_over_the_ticks() {
    assert!(is_due(0, 0, 30));
    assert!(is_due(7, 23, 30));
    assert!(!is_due(7, 24, 30));
    assert!(is_due(u32::MAX, u64::MAX, 30) == ((u32::MAX as u128 + u64::MAX as u128) % 30 == 0));
    let mut d = data();
    let due = spawn(&mut d, 0, 10, 10);
    let later = spawn(&mut d, 1, 11, 11);
    for id in [due, later] {
        let npc = d.npcs.get_mut(id).unwrap();
        // One step of feeling: gone for certain in a round of decay.
        npc.sentiments.change_by(Target::Npc(NpcId(99)), 1, 1000);
        npc.inbox.push(ReportId(5));
    }
    // Tick 0 is a tick of decay and of cleaning for seed 0 alone. The round
    // stands for the thirty ticks between two rounds: for more than a second.
    cleanup(&mut d, &tick(0, 34), &mut rng());
    assert_eq!(d.npcs.get(due).unwrap().sentiments.len(), 0);
    assert!(d.npcs.get(due).unwrap().inbox.is_empty());
    assert_eq!(d.npcs.get(later).unwrap().sentiments.len(), 1);
    assert_eq!(d.npcs.get(later).unwrap().inbox, vec![ReportId(5)]);
    // Tick 29 is a tick of decay for seed 1, and not yet one of cleaning.
    cleanup(&mut d, &tick(29, 34), &mut rng());
    assert_eq!(d.npcs.get(later).unwrap().sentiments.len(), 0);
    assert_eq!(d.npcs.get(later).unwrap().inbox, vec![ReportId(5)]);
    cleanup(&mut d, &tick(99, 33), &mut rng());
    assert!(d.npcs.get(later).unwrap().inbox.is_empty());
}

#[test]
fn cleanup_caps_sentiments() {
    let mut d = data();
    let id = spawn(&mut d, 0, 10, 10);
    {
        let npc = d.npcs.get_mut(id).unwrap();
        for i in 0..200u64 {
            npc.sentiments.change_by(Target::Npc(NpcId(i)), 8 * (i as i32 + 1), 1000);
        }
    }
    // Tick 100 is one of cleaning for seed 0, and none of decay.
    cleanup(&mut d, &tick(100, 33), &mut rng());
    let npc = d.npcs.get(id).unwrap();
    assert_eq!(npc.sentiments.len(), 128);
    // The weakest have gone.
    assert_eq!(npc.sentiments.toward(Target::Npc(NpcId(0))).positivity, 0);
    assert_eq!(npc.sentiments.toward(Target::Npc(NpcId(199))).positivity, 126);
}

#[test]
fn world_generation_decisions() {
    assert_eq!(profession_for_roll(0, 2), Profession::Hunter);
    assert_eq!(profession_for_roll(1, 2), Profession::Blacksmith);
    assert_eq!(profession_for_roll(2, 2), Profession::Chef);
    assert_eq!(profession_for_roll(3, 2), Profession::Alchemist);
    assert_eq!(profession_for_roll(4, 2), Profession::Adventurer(2));
    assert_eq!(profession_for_roll(5, 2), Profession::Farmer);
    assert_eq!(profession_for_roll(8, 2), Profession::Farmer);
    assert_eq!(profession_for_roll(10, 2), Profession::Herbalist);
    assert_eq!(profession_for_roll(16, 2), Profession::Guard);
    assert_eq!(profession_for_roll(19, 3), Profession::Adventurer(3));
    assert_eq!(inhabitant_count(12, true), 12);
    assert_eq!(inhabitant_count(12, false), 15);
    assert_eq!(merchant_count(12, true), 3);
    assert_eq!(merchant_count(12, false), 0);
    let f = Faction::generate(&mut rng());
    assert!(f.leader.is_none());
    assert_eq!(f.sentiments.len(), 0);
    assert!(Faction::new(4, true).good_or_evil);
    assert_eq!(Faction::new(4, false).seed, 4);
    assert_eq!(rtsim::gen::AIRSHIP_ODDS, (2, 5));
}

#[test]
fn factions_are_kept_and_cleaned() {
    let mut d = data();
    let a = d.factions.create(Faction::new(0, true));
    let b = d.factions.try_create(Faction::new(1, false)).ok().unwrap();
    assert_ne!(a, b);
    assert_eq!(d.factions.len(), 2);
    assert_eq!(d.factions.get(b).map(|f| f.good_or_evil), Some(false));
    assert!(d.factions.get(rtsim::ids::FactionId(0)).is_none());
    let mut ids = d.factions.faction_ids();
    ids.sort_by_key(|id| id.0);
    let mut expected = vec![a, b];
    expected.sort_by_key(|id| id.0);
    assert_eq!(ids, expected);
    for id in [a, b] {
        let f = d.factions.get_mut(id).unwrap();
        for i in 0..1100u64 {
            f.sentiments.change_by(Target::Npc(NpcId(i)), 1 + (i as i32 % 900), 1000);
        }
    }
    // Tick 30 is one of cleaning for the faction with seed 0 alone.
    cleanup(&mut d, &tick(30, 33), &mut rng());
    assert_eq!(d.factions.get(a).unwrap().sentiments.len(), 1024);
    assert_eq!(d.factions.get(b).unwrap().sentiments.len(), 1100);
    // The weakest have gone: those of a single step.
    assert_eq!(d.factions.get(a).unwrap().sentiments.toward(Target::Npc(NpcId(0))).positivity, 0);
    assert_eq!(d.factions.get(a).unwrap().sentiments.toward(Target::Npc(NpcId(899))).positivity, 113);
}

#[test]
fn thinking_tells_the_character_what_to_do() {
    let mut d = data();
    let id = spawn(&mut d, 1, 10, 10);
    let go_home = repeat(just(|c: &NpcCtx| {
        // Walk a hundred blocks east of where the character stands.
        let mut target = c.wpos;
        target.x += 100 * SUBDIV;
        (Controller::goto(target, 500), ())
    }));
    let mut brain = Some(Brain { action: go_home });
    think_for(&mut d, id, &mut brain, &tick(1, 33));
    assert!(brain.is_some());
    assert_eq!(d.npcs.get(id).unwrap().action, Controller::goto(blocks(110, 10), 500).action);
    // The movement of the tick follows what the brain has asked for.
    simulate_npcs(&mut d, &tick(1, 1000));
    assert_eq!(d.npcs.get(id).unwrap().wpos, Vec3i::new(10 * 256 + 704, 10 * 256, 0));
    // A character that mirrors a game entity does not think.
    d.npcs.set_npc_mode(id, SimulationMode::Loaded);
    d.npcs.get_mut(id).unwrap().action = None;
    think_for(&mut d, id, &mut brain, &tick(2, 33));
    assert!(brain.is_none());
    assert_eq!(d.npcs.get(id).unwrap().action, None);
}

#[test]
fn sites_fall_to_the_nearest_faction() {
    let at = vec![
        (Vec2i::new(0, 0), FactionId(1), true),
        (Vec2i::new(100, 0), FactionId(2), false),
        (Vec2i::new(0, 100), FactionId(3), true),
        (Vec2i::new(100, 0), FactionId(4), true),
    ];
    assert_eq!(nearest_faction(&at, Vec2i::new(10, 10)), Some(0));
    assert_eq!(nearest_faction(&at, Vec2i::new(90, 10)), Some(1));
    assert_eq!(nearest_faction(&at, Vec2i::new(-5, 300)), Some(2));
    // Of two that are as near as each other the first is chosen.
    assert_eq!(nearest_faction(&at, Vec2i::new(50, 0)), Some(0));
    assert_eq!(nearest_faction(&at, Vec2i::new(i32::MAX, i32::MIN)), Some(1));
    assert_eq!(nearest_faction(&Vec::new(), Vec2i::new(0, 0)), None);
}
