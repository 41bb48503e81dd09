//! Events, the rules that answer them, and the dispatch from the one to the
//! other.
//!
//! A rule binds handlers to kinds of event when it is started. Emitting an
//! event runs the handlers that are bound to its kind, in the order in which
//! they were bound, each on the state that the one before it has left.
//!
//! The rules of this module bind the handlers of this module. A rule written
//! elsewhere brings its handlers along, as a type that implements
//! [`Handle`], and is told apart by a [`RuleKind::Custom`] of its choice.

use vstd::prelude::*;
use std::convert::Infallible;
use crate::ai::think;
use crate::ai::Action;
use crate::ai::Brain;
use crate::ai::NpcCtx;
use crate::data::is_current;
use crate::npc::Controller;
use crate::data::Data;
use crate::data::Report;
use crate::data::ReportKind;
use crate::geom::Vec3i;
use crate::ids::Actor;
use crate::ids::NpcId;
use crate::ids::ReportId;
use crate::geom::advanced;
use crate::geom::chunk_of;
use crate::ids::well_formed_handle;
use crate::ids::SiteId;
use crate::ids::WorldSiteId;
use crate::data::Reports;
use crate::grid::lemma_without_npc_contains;
use crate::npc::npcs_get_mut;
use crate::sentiment::is_cleanup_of;
use crate::sentiment::is_decay_of;
use crate::faction::Faction;
use crate::ids::FactionId;
use crate::sentiment::FACTION_MAX_SENTIMENTS;
use crate::sentiment::NPC_MAX_SENTIMENTS;
use crate::site::Site;
use crate::npc::Npc;
use crate::npc::NpcAction;
use crate::npc::SimulationMode;

verus! {

/// The kinds of event.
#[derive(Clone, Copy, Debug, PartialEq, Eq, Structural)]
pub enum EventKind {
    OnSetup,
    OnTick,
    OnDeath,
    OnBlockChange,
}

/// A tick of the simulation.
#[derive(Clone, Copy, Debug, PartialEq, Eq, Structural)]
pub struct OnTick {
    /// The number of the tick.
    pub tick: u64,
    /// The time that has passed since the tick before, in milliseconds.
    pub dt: u32,
    /// The time of day, in milliseconds.
    pub time_of_day: u64,
    /// The time since the simulation began, in milliseconds.
    pub time: u64,
}

/// The death of an actor.
#[derive(Clone, Copy, Debug, PartialEq, Eq, Structural)]
pub struct OnDeath {
    pub actor: Actor,
    pub wpos: Option<Vec3i>,
    pub killer: Option<Actor>,
}

/// The change of a block of the terrain.
#[derive(Clone, Copy, Debug, PartialEq, Eq, Structural)]
pub struct OnBlockChange {
    pub wpos: Vec3i,
    pub old: u32,
    pub new: u32,
}

/// An event.
#[derive(Clone, Copy, Debug, PartialEq, Eq, Structural)]
pub enum Event {
    OnSetup,
    OnTick(OnTick),
    OnDeath(OnDeath),
    OnBlockChange(OnBlockChange),
}

impl Event {
    /// The kind of the event.
    pub open spec fn kind_spec(self) -> EventKind {
        match self {
            Event::OnSetup => EventKind::OnSetup,
            Event::OnTick(_) => EventKind::OnTick,
            Event::OnDeath(_) => EventKind::OnDeath,
            Event::OnBlockChange(_) => EventKind::OnBlockChange,
        }
    }

    /// The kind of the event.
    pub fn kind(&self) -> (k: EventKind)
        ensures
            k == self.kind_spec(),
    {
        match self {
            Event::OnSetup => EventKind::OnSetup,
            Event::OnTick(_) => EventKind::OnTick,
            Event::OnDeath(_) => EventKind::OnDeath,
            Event::OnBlockChange(_) => EventKind::OnBlockChange,
        }
    }
}

/// How far away a death is noticed, in length units: 32 blocks.
pub const REPORT_RADIUS: u32 = 8192;

/// Whether `after` is what a death leaves of `before`.
///
/// Where the place of the death is known and characters are less than
/// [`REPORT_RADIUS`] away from it, a report of the death is made, at the time
/// of day of `before`, and its number is put at the end of the inbox of each
/// of them. Else nothing changes.
pub open spec fn death_reported(before: Data, after: Data, event: OnDeath) -> bool {
    let nearby = match event.wpos {
        Some(wpos) => before.npcs.nearby_spec(wpos.xy(), REPORT_RADIUS as int),
        None => Seq::empty(),
    };
    &&& after.sites == before.sites
    &&& after.factions == before.factions
    &&& after.tick == before.tick
    &&& after.time_of_day == before.time_of_day
    &&& after.should_purge == before.should_purge
    &&& after.npcs.npc_grid == before.npcs.npc_grid
    &&& after.npcs.vehicles == before.npcs.vehicles
    &&& after.npcs.npc_map().dom() == before.npcs.npc_map().dom()
    &&& if nearby.len() == 0 {
        &&& after.reports == before.reports
        &&& after.npcs.npc_map() == before.npcs.npc_map()
    } else {
        let id = ReportId(before.reports.next);
        let report = Report {
            kind: ReportKind::Death { actor: event.actor, killer: event.killer },
            at: before.time_of_day,
        };
        &&& after.reports.next == before.reports.next + 1
        &&& after.reports.entries@ == before.reports.entries@.push((id, report))
        &&& forall|k: u64| #[trigger]
            before.npcs.npc_map().dom().contains(k) ==> {
                let was = before.npcs.npc_map()[k];
                let is = after.npcs.npc_map()[k];
                &&& is.inbox@ == was.inbox@ + Seq::new(
                    nearby.filter(|n: NpcId| n.0 == k).len(),
                    |i: int| id,
                )
                &&& same_but_inbox(was, is)
            }
    }
}

/// Whether two characters differ in nothing but what is in their inbox.
pub open spec fn same_but_inbox(a: Npc, b: Npc) -> bool {
    b == (Npc { inbox: b.inbox, ..a })
}

/// Reports a death to the characters near it.
pub fn on_death(data: &mut Data, event: &OnDeath)
    requires
        old(data).wf(),
        old(data).reports.next < u64::MAX,
    ensures
        final(data).wf(),
        death_reported(*old(data), *final(data), *event),
{
    let nearby = match event.wpos {
        Some(wpos) => data.npcs.nearby(wpos.xy(), REPORT_RADIUS),
        None => Vec::new(),
    };
    if nearby.len() > 0 {
        let report = data.reports.create(
            Report {
                kind: ReportKind::Death { actor: event.actor, killer: event.killer },
                at: data.time_of_day,
            },
        );
        let ghost before = data.npcs.npc_map();
        let mut i: usize = 0;
        assert forall|j: int| 0 <= j < nearby@.len() implies old(data).npcs.npc_spec(
            #[trigger] nearby@[j],
        ).is_some() by {
            assert(nearby@.contains(nearby@[j]));
        }
        while i < nearby.len()
            invariant
                i <= nearby.len(),
                data.wf(),
                data.sites == old(data).sites,
                data.factions == old(data).factions,
                data.tick == old(data).tick,
                data.time_of_day == old(data).time_of_day,
                data.should_purge == old(data).should_purge,
                data.npcs.npc_grid == old(data).npcs.npc_grid,
                data.npcs.vehicles == old(data).npcs.vehicles,
                data.reports.next == old(data).reports.next + 1,
                data.reports.entries@ == old(data).reports.entries@.push(
                    (
                        report,
                        Report {
                            kind: ReportKind::Death { actor: event.actor, killer: event.killer },
                            at: old(data).time_of_day,
                        },
                    ),
                ),
                before == old(data).npcs.npc_map(),
                data.npcs.npc_map().dom() == before.dom(),
                forall|j: int|
                    0 <= j < nearby@.len() ==> old(data).npcs.npc_spec(#[trigger] nearby@[j]).is_some(),
                forall|k: u64| #[trigger]
                    before.dom().contains(k) ==> {
                        let was = before[k];
                        let is = data.npcs.npc_map()[k];
                        &&& is.inbox@ == was.inbox@ + Seq::new(
                            nearby@.take(i as int).filter(|n: NpcId| n.0 == k).len(),
                            |i: int| report,
                        )
                        &&& same_but_inbox(was, is)
                    },
            decreases nearby.len() - i,
        {
            let id = nearby[i];
            let ghost mid = data.npcs.npc_map();
            proof {
                reveal(Seq::filter);
                assert(nearby@.take(i + 1).drop_last() == nearby@.take(i as int));
                assert(old(data).npcs.npc_spec(id).is_some());
            }
            match npcs_get_mut(&mut data.npcs.npcs, id.0) {
                Some(npc) => {
                    npc.inbox.push(report);
                },
                None => {},
            }
            proof {
                assert(data.npcs.npc_map().dom() =~= before.dom());
                assert forall|k: u64| #[trigger] before.dom().contains(k) implies ({
                    let was = before[k];
                    let is = data.npcs.npc_map()[k];
                    &&& is.inbox@ == was.inbox@ + Seq::new(
                        nearby@.take(i + 1).filter(|n: NpcId| n.0 == k).len(),
                        |i: int| report,
                    )
                    &&& same_but_inbox(was, is)
                }) by {
                    let pred = |n: NpcId| n.0 == k;
                    let seen = nearby@.take(i as int).filter(pred);
                    let more = nearby@.take(i + 1).filter(pred);
                    if k == id.0 {
                        assert(more == seen.push(id));
                        assert(data.npcs.npc_map()[k].inbox@ =~= before[k].inbox@ + Seq::new(
                            more.len(),
                            |i: int| report,
                        ));
                    } else {
                        assert(more == seen);
                        assert(data.npcs.npc_map()[k] == mid[k]);
                    }
                }
            }
            i = i + 1;
        }
        proof {
            assert(nearby@.take(nearby@.len() as int) == nearby@);
        }
    }
}

/// Where a simulated character stands after `dt` milliseconds: nearer to the
/// point that it was told to go to, by as much as its body and the speed
/// factor allow, and at the height that it was at; where it was, if it was
/// told nothing.
pub open spec fn moved_wpos(npc: Npc, dt: int) -> Vec3i {
    match npc.action {
        Some(NpcAction::Goto(target, speed_factor)) => {
            let to = advanced(
                npc.wpos.xy(),
                target.xy(),
                npc.body.max_speed_spec() as int,
                speed_factor as int,
                dt,
            );
            Vec3i { x: to.x, y: to.y, z: npc.wpos.z }
        },
        None => npc.wpos,
    }
}

/// What a tick of `dt` milliseconds makes of a character: a simulated
/// character that was told to go somewhere has moved and remembers the chunk
/// that it stands in; any other is as it was.
pub open spec fn simulated_npc(npc: Npc, dt: int) -> Npc {
    if npc.mode == SimulationMode::Simulated && npc.action.is_some() {
        Npc {
            wpos: moved_wpos(npc, dt),
            chunk_pos: Some(chunk_of(moved_wpos(npc, dt).xy())),
            ..npc
        }
    } else {
        npc
    }
}

/// Whether `after` is what the movement of a tick leaves of `before`.
pub open spec fn npcs_simulated(before: Data, after: Data, event: OnTick) -> bool {
    &&& after.sites == before.sites
    &&& after.factions == before.factions
    &&& after.reports == before.reports
    &&& after.tick == before.tick
    &&& after.time_of_day == before.time_of_day
    &&& after.should_purge == before.should_purge
    &&& after.npcs.vehicles == before.npcs.vehicles
    &&& after.npcs.npc_grid.size == before.npcs.npc_grid.size
    &&& after.npcs.npc_map().dom() == before.npcs.npc_map().dom()
    &&& forall|k: u64| #[trigger]
        before.npcs.npc_map().dom().contains(k) ==> after.npcs.npc_map()[k] == (
        if well_formed_handle(k) {
            simulated_npc(before.npcs.npc_map()[k], event.dt as int)
        } else {
            before.npcs.npc_map()[k]
        })
    &&& before.npcs.indexed() ==> after.npcs.indexed()
}

/// Moves every simulated character that was told to go somewhere, and keeps
/// the grid up to date for it. Returns the handles of the simulated
/// characters, each once: those whose height and site are to be looked up in
/// the terrain where they stand now.
pub fn simulate_npcs(data: &mut Data, event: &OnTick) -> (simulated: Vec<NpcId>)
    requires
        old(data).wf(),
    ensures
        final(data).wf(),
        npcs_simulated(*old(data), *final(data), *event),
        simulated@.no_duplicates(),
        forall|id: NpcId|
            simulated@.contains(id) <==> (old(data).npcs.npc_spec(id) matches Some(npc)
                && npc.mode == SimulationMode::Simulated),
{
    let ids = data.npcs.npc_ids();
    let mut simulated: Vec<NpcId> = Vec::new();
    let ghost before = data.npcs.npc_map();
    let mut i: usize = 0;
    while i < ids.len()
        invariant
            i <= ids.len(),
            data.wf(),
            ids@.no_duplicates(),
            forall|id: NpcId| ids@.contains(id) <==> old(data).npcs.npc_spec(id).is_some(),
            before == old(data).npcs.npc_map(),
            data.sites == old(data).sites,
            data.factions == old(data).factions,
            data.reports == old(data).reports,
            data.tick == old(data).tick,
            data.time_of_day == old(data).time_of_day,
            data.should_purge == old(data).should_purge,
            data.npcs.vehicles == old(data).npcs.vehicles,
            data.npcs.npc_grid.size == old(data).npcs.npc_grid.size,
            data.npcs.npc_map().dom() == before.dom(),
            old(data).npcs.indexed() ==> data.npcs.indexed(),
            forall|k: u64|
                before.dom().contains(k) && !well_formed_handle(k)
                    ==> #[trigger] data.npcs.npc_map()[k] == before[k],
            forall|j: int|
                i <= j < ids@.len() ==> data.npcs.npc_map()[(#[trigger] ids@[j]).0]
                    == before[ids@[j].0],
            forall|j: int|
                0 <= j < i ==> data.npcs.npc_map()[(#[trigger] ids@[j]).0] == simulated_npc(
                    before[ids@[j].0],
                    event.dt as int,
                ),
            simulated@.no_duplicates(),
            forall|id: NpcId|
                simulated@.contains(id) <==> (exists|j: int|
                    0 <= j < i && ids@[j] == id && before[id.0].mode
                        == SimulationMode::Simulated),
        decreases ids.len() - i,
    {
        let id = ids[i];
        assert(ids@.contains(id));
        assert(old(data).npcs.npc_spec(id).is_some());
        let ghost mid = data.npcs.npc_map();
        let ghost sims = simulated@;
        let plan = match data.npcs.get(id) {
            Some(npc) => {
                if matches!(npc.mode, SimulationMode::Simulated) {
                    match npc.action {
                        Some(NpcAction::Goto(target, speed_factor)) => {
                            let to = crate::geom::advance(
                                npc.wpos.xy(),
                                target.xy(),
                                npc.body.max_speed_approx(),
                                speed_factor,
                                event.dt,
                            );
                            Some(Some(Vec3i { x: to.x, y: to.y, z: npc.wpos.z }))
                        },
                        None => Some(None),
                    }
                } else {
                    None
                }
            },
            None => None,
        };
        match plan {
            Some(target) => {
                match target {
                    Some(wpos) => {
                        data.npcs.set_npc_wpos(id, wpos);
                    },
                    None => {},
                }
                simulated.push(id);
                proof {
                    assert forall|a: int, b: int|
                        0 <= a < simulated@.len() && 0 <= b < simulated@.len() && a
                            != b implies simulated@[a] != simulated@[b] by {
                        if a == sims.len() || b == sims.len() {
                            let other = if a == sims.len() {
                                b
                            } else {
                                a
                            };
                            assert(sims.contains(sims[other]));
                            let j = choose|j: int| 0 <= j < i && ids@[j] == sims[other];
                            assert(ids@[j] != ids@[i as int]);
                        }
                    }
                }
            },
            None => {},
        }
        proof {
            assert(data.npcs.npc_map().dom() =~= before.dom());
            assert forall|j: int| i < j < ids@.len() implies data.npcs.npc_map()[(#[trigger] ids@[j]).0]
                == before[ids@[j].0] by {
                assert(ids@[j] != ids@[i as int]);
                assert(mid[ids@[j].0] == before[ids@[j].0]);
            }
            assert forall|j: int| 0 <= j < i implies data.npcs.npc_map()[(#[trigger] ids@[j]).0]
                == simulated_npc(before[ids@[j].0], event.dt as int) by {
                assert(ids@[j] != ids@[i as int]);
                assert(data.npcs.npc_map()[ids@[j].0] == mid[ids@[j].0]);
            }
            assert forall|x: NpcId|
                simulated@.contains(x) <==> (exists|j: int|
                    0 <= j < i + 1 && ids@[j] == x && before[x.0].mode
                        == SimulationMode::Simulated) by {
                if simulated@.contains(x) {
                    let a = choose|a: int| 0 <= a < simulated@.len() && simulated@[a] == x;
                    if a < sims.len() {
                        assert(sims.contains(x));
                        let j = choose|j: int|
                            0 <= j < i && ids@[j] == x && before[x.0].mode
                                == SimulationMode::Simulated;
                        assert(0 <= j < i + 1);
                    } else {
                        assert(ids@[i as int] == x);
                    }
                }
                if exists|j: int|
                    0 <= j < i + 1 && ids@[j] == x && before[x.0].mode
                        == SimulationMode::Simulated {
                    let j = choose|j: int|
                        0 <= j < i + 1 && ids@[j] == x && before[x.0].mode
                            == SimulationMode::Simulated;
                    if j < i {
                        assert(sims.contains(x));
                        let a = choose|a: int| 0 <= a < sims.len() && sims[a] == x;
                        assert(simulated@[a] == x);
                    } else {
                        assert(simulated@[simulated@.len() - 1] == x);
                    }
                }
            }
        }
        i = i + 1;
    }
    proof {
        assert forall|k: u64| #[trigger] before.dom().contains(k) implies data.npcs.npc_map()[k]
            == (if well_formed_handle(k) {
            simulated_npc(before[k], event.dt as int)
        } else {
            before[k]
        }) by {
            if well_formed_handle(k) {
                let id = NpcId(k);
                assert(old(data).npcs.npc_spec(id).is_some());
                assert(ids@.contains(id));
                let j = choose|j: int| 0 <= j < ids@.len() && ids@[j] == id;
                assert(ids@[j].0 == k);
            }
        }
        assert forall|id: NpcId|
            simulated@.contains(id) <==> (old(data).npcs.npc_spec(id) matches Some(npc)
                && npc.mode == SimulationMode::Simulated) by {
            if old(data).npcs.npc_spec(id) matches Some(npc) && npc.mode
                == SimulationMode::Simulated {
                assert(ids@.contains(id));
                let j = choose|j: int| 0 <= j < ids@.len() && ids@[j] == id;
                assert(0 <= j < i && ids@[j] == id);
            }
            if simulated@.contains(id) {
                let j = choose|j: int|
                    0 <= j < i && ids@[j] == id && before[id.0].mode == SimulationMode::Simulated;
                assert(ids@.contains(ids@[j]));
                assert(old(data).npcs.npc_spec(id) == Some(before[id.0]));
            }
        }
    }
    simulated
}

/// Puts the character `id` on the ground and notes the site that it is at:
/// `alt` is the height of the terrain where it stands, 0 where that is not
/// known, and `world_site` the site of the generated world that its chunk
/// belongs to, if any. Returns whether `id` stands for a character.
pub fn ground_npc(data: &mut Data, id: NpcId, alt: Option<i32>, world_site: Option<WorldSiteId>) -> (found:
    bool)
    ensures
        found == old(data).npcs.npc_spec(id).is_some(),
        final(data).sites == old(data).sites,
        final(data).factions == old(data).factions,
        final(data).reports == old(data).reports,
        final(data).tick == old(data).tick,
        final(data).time_of_day == old(data).time_of_day,
        final(data).should_purge == old(data).should_purge,
        final(data).npcs.vehicles == old(data).npcs.vehicles,
        final(data).npcs.npc_grid == old(data).npcs.npc_grid,
        final(data).npcs.npc_map() == (match old(data).npcs.npc_spec(id) {
            Some(npc) => old(data).npcs.npc_map().insert(
                id.0,
                Npc {
                    wpos: Vec3i {
                        z: match alt {
                            Some(z) => z,
                            None => 0,
                        },
                        ..npc.wpos
                    },
                    current_site: match world_site {
                        Some(ws) => if old(data).sites.links().dom().contains(ws.0) {
                            Some(SiteId(old(data).sites.links()[ws.0]))
                        } else {
                            None
                        },
                        None => None,
                    },
                    ..npc
                },
            ),
            None => old(data).npcs.npc_map(),
        }),
{
    if !id.is_well_formed() {
        return false;
    }
    let site = match world_site {
        Some(ws) => data.sites.linked(ws),
        None => None,
    };
    match npcs_get_mut(&mut data.npcs.npcs, id.0) {
        Some(npc) => {
            npc.wpos.z = match alt {
                Some(z) => z,
                None => 0,
            };
            npc.current_site = site;
            true
        },
        None => false,
    }
}

/// What a character sees when it thinks in the tick `event`: the time, and
/// itself, with a controller that asks for nothing yet.
pub open spec fn ctx_of(npc: Npc, id: NpcId, event: OnTick) -> NpcCtx {
    NpcCtx {
        time_of_day: event.time_of_day,
        time: event.time,
        npc_id: id,
        seed: npc.seed,
        wpos: npc.wpos,
        profession: npc.profession,
        home: npc.home,
        faction: npc.faction,
        controller: Controller { action: None },
    }
}

/// Lets the character `id` think for the tick `event`.
///
/// A simulated character with a brain performs the action of its brain for
/// the tick, in the context of [`ctx_of`]; what the action leaves in the
/// controller is what the character is told to do from now on. A character
/// that mirrors a game entity loses its brain and is told nothing new; so is
/// a handle that stands for no character.
pub fn think_for<A: Action<Infallible>>(
    data: &mut Data,
    id: NpcId,
    brain: &mut Option<Brain<A>>,
    event: &OnTick,
)
    requires
        *old(brain) matches Some(b) ==> b.action.wf(),
    ensures
        *final(brain) matches Some(b) ==> b.action.wf(),
        final(data).sites == old(data).sites,
        final(data).factions == old(data).factions,
        final(data).reports == old(data).reports,
        final(data).tick == old(data).tick,
        final(data).time_of_day == old(data).time_of_day,
        final(data).should_purge == old(data).should_purge,
        final(data).npcs.vehicles == old(data).npcs.vehicles,
        final(data).npcs.npc_grid == old(data).npcs.npc_grid,
        match old(data).npcs.npc_spec(id) {
            Some(npc) => match (npc.mode, *old(brain)) {
                (SimulationMode::Simulated, Some(b)) => {
                    let after = b.action.step(ctx_of(npc, id, *event));
                    &&& *final(brain) == Some(Brain { action: after.0 })
                    &&& final(data).npcs.npc_map() == old(data).npcs.npc_map().insert(
                        id.0,
                        Npc { action: after.1.controller.action, ..npc },
                    )
                },
                (SimulationMode::Simulated, None) => final(brain).is_none() && final(data).npcs.npc_map() == old(data).npcs.npc_map(),
                (SimulationMode::Loaded, _) => final(brain).is_none() && final(data).npcs.npc_map() == old(data).npcs.npc_map(),
            },
            None => final(brain).is_none() && final(data).npcs.npc_map() == old(data).npcs.npc_map(),
        },
{
    let seen = match data.npcs.get(id) {
        Some(npc) => Some(
            (
                npc.mode,
                NpcCtx {
                    time_of_day: event.time_of_day,
                    time: event.time,
                    npc_id: id,
                    seed: npc.seed,
                    wpos: npc.wpos,
                    profession: npc.profession,
                    home: npc.home,
                    faction: npc.faction,
                    controller: Controller::idle(),
                },
            ),
        ),
        None => None,
    };
    match seen {
        Some((mode, ctx)) => {
            let had_brain = brain.is_some();
            let mut ctx = ctx;
            think(brain, mode, &mut ctx);
            if had_brain && matches!(mode, SimulationMode::Simulated) {
                match npcs_get_mut(&mut data.npcs.npcs, id.0) {
                    Some(npc) => {
                        npc.action = ctx.controller.action;
                    },
                    None => {},
                }
            }
        },
        None => {
            *brain = None;
        },
    }
}

/// Sentiments decay in one tick out of this many, for each character in a
/// tick of its own: the cost is spread over the ticks.
pub const NPC_SENTIMENT_TICK_SKIP: u64 = 30;

/// A character's memory is cleaned up in one tick out of this many.
pub const NPC_CLEANUP_TICK_SKIP: u64 = 100;

/// Whether the tick `tick` is one in which the work that is done every
/// `skip` ticks is due for the character with seed `seed`.
pub open spec fn is_due_spec(seed: u32, tick: u64, skip: u64) -> bool {
    (seed + tick) % (skip as int) == 0
}

/// Whether the tick `tick` is one in which the work that is done every
/// `skip` ticks is due for the character with seed `seed`.
pub fn is_due(seed: u32, tick: u64, skip: u64) -> (b: bool)
    requires
        skip > 0,
    ensures
        b == is_due_spec(seed, tick, skip),
{
    (seed as u128 + tick as u128) % (skip as u128) == 0
}

/// The time that a round of decay stands for where a tick takes `dt`
/// milliseconds: that of the ticks between two rounds, as far as a `u32`
/// holds it.
pub open spec fn decay_dt(dt: u32) -> u32 {
    if dt * NPC_SENTIMENT_TICK_SKIP > u32::MAX {
        u32::MAX
    } else {
        (dt * NPC_SENTIMENT_TICK_SKIP) as u32
    }
}

/// Whether two characters differ in nothing but what they feel.
pub open spec fn same_but_sentiments(a: Npc, b: Npc) -> bool {
    b == (Npc { sentiments: b.sentiments, ..a })
}

/// Whether two characters differ in nothing but what they feel and what is
/// in their inbox.
pub open spec fn same_but_memory(a: Npc, b: Npc) -> bool {
    b == (Npc { sentiments: b.sentiments, inbox: b.inbox, ..a })
}

/// Whether all of `after` but its characters is as in `before`, and `after`
/// has the characters of `before`, under the same handles.
pub open spec fn same_but_npcs(before: Data, after: Data) -> bool {
    &&& after.sites == before.sites
    &&& after.factions == before.factions
    &&& after.reports == before.reports
    &&& after.tick == before.tick
    &&& after.time_of_day == before.time_of_day
    &&& after.should_purge == before.should_purge
    &&& after.npcs.vehicles == before.npcs.vehicles
    &&& after.npcs.npc_grid == before.npcs.npc_grid
    &&& after.npcs.npc_map().dom() == before.npcs.npc_map().dom()
}

/// Whether `after` is what the decay of a tick leaves of `before`: the
/// sentiments of each character for which decay is due have decayed; nothing
/// else has changed.
pub open spec fn sentiments_decayed(before: Data, after: Data, event: OnTick) -> bool {
    &&& same_but_npcs(before, after)
    &&& forall|k: u64| #[trigger]
        before.npcs.npc_map().dom().contains(k) ==> {
            let was = before.npcs.npc_map()[k];
            let is = after.npcs.npc_map()[k];
            if well_formed_handle(k) && is_due_spec(was.seed, event.tick, NPC_SENTIMENT_TICK_SKIP) {
                &&& same_but_sentiments(was, is)
                &&& is_decay_of(
                    was.sentiments.entries(),
                    is.sentiments.entries(),
                    decay_dt(event.dt) as int,
                )
            } else {
                is == was
            }
        }
}

/// Lets the sentiments of the characters for which it is due decay.
pub fn decay_sentiments(data: &mut Data, event: &OnTick, rng: &mut rand_chacha::ChaCha20Rng)
    ensures
        sentiments_decayed(*old(data), *final(data), *event),
{
    let ids = data.npcs.npc_ids();
    let dt: u32 = if event.dt as u64 * NPC_SENTIMENT_TICK_SKIP > u32::MAX as u64 {
        u32::MAX
    } else {
        (event.dt as u64 * NPC_SENTIMENT_TICK_SKIP) as u32
    };
    let ghost before = data.npcs.npc_map();
    let mut i: usize = 0;
    while i < ids.len()
        invariant
            i <= ids.len(),
            dt == decay_dt(event.dt),
            ids@.no_duplicates(),
            forall|id: NpcId| ids@.contains(id) <==> old(data).npcs.npc_spec(id).is_some(),
            before == old(data).npcs.npc_map(),
            same_but_npcs(*old(data), *data),
            forall|k: u64|
                before.dom().contains(k) && !well_formed_handle(k)
                    ==> #[trigger] data.npcs.npc_map()[k] == before[k],
            forall|j: int|
                i <= j < ids@.len() ==> data.npcs.npc_map()[(#[trigger] ids@[j]).0]
                    == before[ids@[j].0],
            forall|j: int|
                0 <= j < i ==> {
                    let was = before[(#[trigger] ids@[j]).0];
                    let is = data.npcs.npc_map()[ids@[j].0];
                    if is_due_spec(was.seed, event.tick, NPC_SENTIMENT_TICK_SKIP) {
                        &&& same_but_sentiments(was, is)
                        &&& is_decay_of(
                            was.sentiments.entries(),
                            is.sentiments.entries(),
                            dt as int,
                        )
                    } else {
                        is == was
                    }
                },
        decreases ids.len() - i,
    {
        let id = ids[i];
        assert(ids@.contains(id));
        assert(old(data).npcs.npc_spec(id).is_some());
        let ghost mid = data.npcs.npc_map();
        match npcs_get_mut(&mut data.npcs.npcs, id.0) {
            Some(npc) => {
                if is_due(npc.seed, event.tick, NPC_SENTIMENT_TICK_SKIP) {
                    npc.sentiments.decay(rng, dt);
                }
            },
            None => {},
        }
        proof {
            assert(data.npcs.npc_map().dom() =~= before.dom());
            assert forall|j: int| i < j < ids@.len() implies data.npcs.npc_map()[(#[trigger] ids@[j]).0]
                == before[ids@[j].0] by {
                assert(ids@[j] != ids@[i as int]);
                assert(mid[ids@[j].0] == before[ids@[j].0]);
            }
            assert forall|j: int| 0 <= j < i implies data.npcs.npc_map()[(#[trigger] ids@[j]).0]
                == mid[ids@[j].0] by {
                assert(ids@[j] != ids@[i as int]);
            }
        }
        i = i + 1;
    }
    proof {
        assert forall|k: u64| #[trigger] before.dom().contains(k) implies ({
            let was = before[k];
            let is = data.npcs.npc_map()[k];
            if well_formed_handle(k) && is_due_spec(was.seed, event.tick, NPC_SENTIMENT_TICK_SKIP) {
                &&& same_but_sentiments(was, is)
                &&& is_decay_of(
                    was.sentiments.entries(),
                    is.sentiments.entries(),
                    decay_dt(event.dt) as int,
                )
            } else {
                is == was
            }
        }) by {
            if well_formed_handle(k) {
                let id = NpcId(k);
                assert(old(data).npcs.npc_spec(id).is_some());
                assert(ids@.contains(id));
                let j = choose|j: int| 0 <= j < ids@.len() && ids@[j] == id;
                assert(ids@[j].0 == k);
            }
        }
    }
}

/// Whether the character `x` is dead and at home at the site stored under
/// `s`.
pub open spec fn is_dead_resident(data: Data, x: NpcId, s: u64) -> bool {
    data.npcs.npc_spec(x) matches Some(npc) && npc.is_dead && npc.home == Some(SiteId(s))
}

/// Whether two sites differ in nothing but their residents.
pub open spec fn same_but_population(a: Site, b: Site) -> bool {
    b.wpos == a.wpos && b.faction == a.faction && b.world_site == a.world_site
}

/// Whether the character `id`, if it was dead in `before`, is no longer
/// listed in `after` for the chunk that it remembered.
pub open spec fn off_the_grid(before: Data, after: Data, id: NpcId) -> bool {
    before.npcs.npc_spec(id) matches Some(npc) ==> (npc.is_dead ==> (
    npc.chunk_pos matches Some(c) ==> !after.npcs.npc_grid.npcs_at(c).contains(id)))
}

/// Whether `after` is what the removal of the dead leaves of `before`: the
/// dead characters are gone from the table, from the grid and from the
/// residents of their homes; nothing else has changed.
pub open spec fn dead_removed(before: Data, after: Data) -> bool {
    &&& after.reports == before.reports
    &&& after.factions == before.factions
    &&& after.tick == before.tick
    &&& after.time_of_day == before.time_of_day
    &&& after.should_purge == before.should_purge
    &&& after.npcs.vehicles == before.npcs.vehicles
    &&& after.npcs.npc_grid.size == before.npcs.npc_grid.size
    &&& after.sites.links() == before.sites.links()
    &&& after.sites.site_map().dom() == before.sites.site_map().dom()
    &&& forall|k: u64| #[trigger]
        after.npcs.npc_map().dom().contains(k) <==> (before.npcs.npc_map().dom().contains(k) && !(
        well_formed_handle(k) && before.npcs.npc_map()[k].is_dead))
    &&& forall|k: u64| #[trigger]
        after.npcs.npc_map().dom().contains(k) ==> after.npcs.npc_map()[k]
            == before.npcs.npc_map()[k]
    &&& forall|s: u64| #[trigger]
        before.sites.site_map().dom().contains(s) ==> {
            let was = before.sites.site_map()[s];
            let is = after.sites.site_map()[s];
            &&& same_but_population(was, is)
            &&& forall|x: NpcId|
                is.population@.contains(x) <==> (was.population@.contains(x) && !(
                well_formed_handle(s) && is_dead_resident(before, x, s)))
        }
    &&& forall|id: NpcId| #[trigger] off_the_grid(before, after, id)
    &&& before.npcs.indexed() ==> after.npcs.indexed()
}

/// Removes the dead characters: from the residents of their homes, from the
/// grid and from the table.
pub fn remove_dead(data: &mut Data)
    requires
        old(data).wf(),
    ensures
        final(data).wf(),
        dead_removed(*old(data), *final(data)),
{
    let ids = data.npcs.npc_ids();
    let ghost before = data.npcs.npc_map();
    let ghost sites_before = data.sites.site_map();
    let mut i: usize = 0;
    assert forall|j: int| 0 <= j < ids@.len() implies data.npcs.npc_map().dom().contains(
        (#[trigger] ids@[j]).0,
    ) by {
        assert(ids@.contains(ids@[j]));
    }
    while i < ids.len()
        invariant
            i <= ids.len(),
            data.wf(),
            ids@.no_duplicates(),
            forall|id: NpcId| ids@.contains(id) <==> old(data).npcs.npc_spec(id).is_some(),
            before == old(data).npcs.npc_map(),
            sites_before == old(data).sites.site_map(),
            data.reports == old(data).reports,
            data.factions == old(data).factions,
            data.tick == old(data).tick,
            data.time_of_day == old(data).time_of_day,
            data.should_purge == old(data).should_purge,
            data.npcs.vehicles == old(data).npcs.vehicles,
            data.npcs.npc_grid.size == old(data).npcs.npc_grid.size,
            data.sites.links() == old(data).sites.links(),
            data.sites.site_map().dom() == sites_before.dom(),
            old(data).npcs.indexed() ==> data.npcs.indexed(),
            forall|k: u64| #[trigger]
                data.npcs.npc_map().dom().contains(k) ==> before.dom().contains(k)
                    && data.npcs.npc_map()[k] == before[k],
            forall|k: u64|
                before.dom().contains(k) && !well_formed_handle(k)
                    ==> #[trigger] data.npcs.npc_map().dom().contains(k),
            forall|j: int|
                i <= j < ids@.len() ==> data.npcs.npc_map().dom().contains(
                    (#[trigger] ids@[j]).0,
                ),
            forall|j: int|
                0 <= j < i ==> (data.npcs.npc_map().dom().contains((#[trigger] ids@[j]).0)
                    <==> !before[ids@[j].0].is_dead),
            forall|j: int|
                0 <= j < i && before[(#[trigger] ids@[j]).0].is_dead
                    ==> (before[ids@[j].0].chunk_pos matches Some(c)
                    ==> !data.npcs.npc_grid.npcs_at(c).contains(ids@[j])),
            forall|s: u64| #[trigger]
                sites_before.dom().contains(s) ==> {
                    let was = sites_before[s];
                    let is = data.sites.site_map()[s];
                    &&& same_but_population(was, is)
                    &&& forall|x: NpcId|
                        is.population@.contains(x) <==> (was.population@.contains(x) && !(
                        well_formed_handle(s) && is_dead_resident(*old(data), x, s)
                            && exists|j: int| 0 <= j < i && ids@[j] == x))
                },
        decreases ids.len() - i,
    {
        let id = ids[i];
        assert(ids@.contains(id));
        assert(old(data).npcs.npc_spec(id) == Some(before[id.0]));
        let ghost mid = *data;
        let verdict = match data.npcs.get(id) {
            Some(npc) => {
                if npc.is_dead {
                    Some(npc.home)
                } else {
                    None
                }
            },
            None => None,
        };
        match verdict {
            Some(home) => {
                match home {
                    Some(home) => {
                        data.sites.remove_resident(home, id);
                    },
                    None => {},
                }
                let ghost grid_mid = data.npcs.npc_grid;
                data.npcs.remove_npc(id);
                proof {
                    assert forall|j: int|
                        0 <= j < i && before[(#[trigger] ids@[j]).0].is_dead implies (before[ids@[j].0].chunk_pos matches Some(
                        c,
                    ) ==> !data.npcs.npc_grid.npcs_at(c).contains(ids@[j])) by {
                        // A list of the grid only loses entries here.
                        if let Some(c) = before[ids@[j].0].chunk_pos {
                            assert(!grid_mid.npcs_at(c).contains(ids@[j]));
                            if let Some(gone) = before[id.0].chunk_pos {
                                if gone == c {
                                    lemma_without_npc_contains(grid_mid.npcs_at(c), id, ids@[j]);
                                }
                            }
                        }
                    }
                    assert forall|s: u64| #[trigger] sites_before.dom().contains(s) implies ({
                        let was = sites_before[s];
                        let is = data.sites.site_map()[s];
                        &&& same_but_population(was, is)
                        &&& forall|x: NpcId|
                            is.population@.contains(x) <==> (was.population@.contains(x) && !(
                            well_formed_handle(s) && is_dead_resident(*old(data), x, s)
                                && exists|j: int| 0 <= j < i + 1 && ids@[j] == x))
                    }) by {
                        let was = sites_before[s];
                        let then = mid.sites.site_map()[s];
                        let is = data.sites.site_map()[s];
                        assert forall|x: NpcId|
                            is.population@.contains(x) <==> (was.population@.contains(x) && !(
                            well_formed_handle(s) && is_dead_resident(*old(data), x, s)
                                && exists|j: int| 0 <= j < i + 1 && ids@[j] == x)) by {
                            let hit = well_formed_handle(s) && before[id.0].home == Some(SiteId(s));
                            if hit {
                                lemma_without_npc_contains(then.population@, id, x);
                            } else {
                                assert(is == then);
                            }
                            if x == id {
                                assert(ids@[i as int] == x);
                            } else {
                                if exists|j: int| 0 <= j < i + 1 && ids@[j] == x {
                                    let j = choose|j: int| 0 <= j < i + 1 && ids@[j] == x;
                                    assert(j < i);
                                }
                            }
                        }
                    }
                }
            },
            None => {},
        }
        proof {
            assert forall|j: int| i < j < ids@.len() implies data.npcs.npc_map().dom().contains(
                (#[trigger] ids@[j]).0,
            ) by {
                assert(ids@[j] != ids@[i as int]);
                assert(mid.npcs.npc_map().dom().contains(ids@[j].0));
            }
            assert forall|j: int| 0 <= j < i implies (data.npcs.npc_map().dom().contains(
                (#[trigger] ids@[j]).0,
            ) <==> !before[ids@[j].0].is_dead) by {
                assert(ids@[j] != ids@[i as int]);
                assert(mid.npcs.npc_map().dom().contains(ids@[j].0) <==> !before[ids@[j].0].is_dead);
            }
            if verdict.is_none() {
                assert forall|s: u64| #[trigger] sites_before.dom().contains(s) implies ({
                    let was = sites_before[s];
                    let is = data.sites.site_map()[s];
                    &&& same_but_population(was, is)
                    &&& forall|x: NpcId|
                        is.population@.contains(x) <==> (was.population@.contains(x) && !(
                        well_formed_handle(s) && is_dead_resident(*old(data), x, s)
                            && exists|j: int| 0 <= j < i + 1 && ids@[j] == x))
                }) by {
                    let was = sites_before[s];
                    let is = data.sites.site_map()[s];
                    assert forall|x: NpcId|
                        is.population@.contains(x) <==> (was.population@.contains(x) && !(
                        well_formed_handle(s) && is_dead_resident(*old(data), x, s)
                            && exists|j: int| 0 <= j < i + 1 && ids@[j] == x)) by {
                        if x != id {
                            if exists|j: int| 0 <= j < i + 1 && ids@[j] == x {
                                let j = choose|j: int| 0 <= j < i + 1 && ids@[j] == x;
                                assert(j < i);
                            }
                        }
                    }
                }
            }
        }
        i = i + 1;
    }
    proof {
        assert forall|k: u64| #[trigger]
            data.npcs.npc_map().dom().contains(k) <==> (before.dom().contains(k) && !(
            well_formed_handle(k) && before[k].is_dead)) by {
            if before.dom().contains(k) && well_formed_handle(k) {
                let id = NpcId(k);
                assert(old(data).npcs.npc_spec(id).is_some());
                assert(ids@.contains(id));
                let j = choose|j: int| 0 <= j < ids@.len() && ids@[j] == id;
                assert(ids@[j].0 == k);
            }
        }
        assert forall|s: u64| #[trigger] sites_before.dom().contains(s) implies ({
            let was = sites_before[s];
            let is = data.sites.site_map()[s];
            &&& same_but_population(was, is)
            &&& forall|x: NpcId|
                is.population@.contains(x) <==> (was.population@.contains(x) && !(
                well_formed_handle(s) && is_dead_resident(*old(data), x, s)))
        }) by {
            let was = sites_before[s];
            let is = data.sites.site_map()[s];
            assert forall|x: NpcId|
                is.population@.contains(x) <==> (was.population@.contains(x) && !(
                well_formed_handle(s) && is_dead_resident(*old(data), x, s))) by {
                if is_dead_resident(*old(data), x, s) {
                    assert(ids@.contains(x));
                    let j = choose|j: int| 0 <= j < ids@.len() && ids@[j] == x;
                    assert(0 <= j < i && ids@[j] == x);
                }
            }
        }
        assert forall|id: NpcId| #[trigger] off_the_grid(*old(data), *data, id) by {
            if old(data).npcs.npc_spec(id) matches Some(npc) && npc.is_dead {
                assert(ids@.contains(id));
                let j = choose|j: int| 0 <= j < ids@.len() && ids@[j] == id;
                assert(before[ids@[j].0].is_dead);
            }
        }
    }
}

/// The reports of `inbox` that are known.
pub open spec fn known_reports(inbox: Seq<ReportId>, reports: Reports) -> Seq<ReportId> {
    inbox.filter(|r: ReportId| reports.report_spec(r).is_some())
}

/// Strikes from `inbox` the reports that are no longer known, and keeps the
/// others in their order.
pub fn prune_inbox(inbox: &mut Vec<ReportId>, reports: &Reports)
    ensures
        final(inbox)@ == known_reports(old(inbox)@, *reports),
{
    let ghost pred = |r: ReportId| reports.report_spec(r).is_some();
    let ghost initial = inbox@;
    let mut kept: Vec<ReportId> = Vec::new();
    let mut i: usize = 0;
    while i < inbox.len()
        invariant
            i <= inbox.len(),
            inbox@ == initial,
            pred == (|r: ReportId| reports.report_spec(r).is_some()),
            kept@ == inbox@.take(i as int).filter(pred),
        decreases inbox.len() - i,
    {
        let r = inbox[i];
        proof {
            reveal(Seq::filter);
            assert(inbox@.take(i + 1).drop_last() == inbox@.take(i as int));
        }
        if reports.contains(r) {
            kept.push(r);
        }
        i = i + 1;
    }
    proof {
        assert(inbox@.take(inbox.len() as int) == inbox@);
    }
    *inbox = kept;
}

/// Whether `after` is what the cleaning of memories in a tick leaves of
/// `before`: each character for which it is due has forgotten its weakest
/// sentiments beyond [`NPC_MAX_SENTIMENTS`] and the reports that are no
/// longer known; nothing else has changed.
pub open spec fn memories_cleaned(before: Data, after: Data, event: OnTick) -> bool {
    &&& same_but_npcs(before, after)
    &&& forall|k: u64| #[trigger]
        before.npcs.npc_map().dom().contains(k) ==> {
            let was = before.npcs.npc_map()[k];
            let is = after.npcs.npc_map()[k];
            if well_formed_handle(k) && is_due_spec(was.seed, event.tick, NPC_CLEANUP_TICK_SKIP) {
                &&& same_but_memory(was, is)
                &&& is_cleanup_of(
                    was.sentiments.entries(),
                    is.sentiments.entries(),
                    NPC_MAX_SENTIMENTS as int,
                )
                &&& is.inbox@ == known_reports(was.inbox@, before.reports)
            } else {
                is == was
            }
        }
}

/// Cleans the memory of the characters for which it is due.
pub fn cleanup_npcs(data: &mut Data, event: &OnTick)
    ensures
        memories_cleaned(*old(data), *final(data), *event),
{
    let ids = data.npcs.npc_ids();
    let ghost before = data.npcs.npc_map();
    let mut i: usize = 0;
    while i < ids.len()
        invariant
            i <= ids.len(),
            ids@.no_duplicates(),
            forall|id: NpcId| ids@.contains(id) <==> old(data).npcs.npc_spec(id).is_some(),
            before == old(data).npcs.npc_map(),
            same_but_npcs(*old(data), *data),
            forall|k: u64|
                before.dom().contains(k) && !well_formed_handle(k)
                    ==> #[trigger] data.npcs.npc_map()[k] == before[k],
            forall|j: int|
                i <= j < ids@.len() ==> data.npcs.npc_map()[(#[trigger] ids@[j]).0]
                    == before[ids@[j].0],
            forall|j: int|
                0 <= j < i ==> {
                    let was = before[(#[trigger] ids@[j]).0];
                    let is = data.npcs.npc_map()[ids@[j].0];
                    if is_due_spec(was.seed, event.tick, NPC_CLEANUP_TICK_SKIP) {
                        &&& same_but_memory(was, is)
                        &&& is_cleanup_of(
                            was.sentiments.entries(),
                            is.sentiments.entries(),
                            NPC_MAX_SENTIMENTS as int,
                        )
                        &&& is.inbox@ == known_reports(was.inbox@, old(data).reports)
                    } else {
                        is == was
                    }
                },
        decreases ids.len() - i,
    {
        let id = ids[i];
        assert(ids@.contains(id));
        assert(old(data).npcs.npc_spec(id).is_some());
        let ghost mid = data.npcs.npc_map();
        match npcs_get_mut(&mut data.npcs.npcs, id.0) {
            Some(npc) => {
                if is_due(npc.seed, event.tick, NPC_CLEANUP_TICK_SKIP) {
                    npc.sentiments.cleanup(NPC_MAX_SENTIMENTS);
                    prune_inbox(&mut npc.inbox, &data.reports);
                }
            },
            None => {},
        }
        proof {
            assert(data.npcs.npc_map().dom() =~= before.dom());
            assert forall|j: int| i < j < ids@.len() implies data.npcs.npc_map()[(#[trigger] ids@[j]).0]
                == before[ids@[j].0] by {
                assert(ids@[j] != ids@[i as int]);
                assert(mid[ids@[j].0] == before[ids@[j].0]);
            }
            assert forall|j: int| 0 <= j < i implies data.npcs.npc_map()[(#[trigger] ids@[j]).0]
                == mid[ids@[j].0] by {
                assert(ids@[j] != ids@[i as int]);
            }
        }
        i = i + 1;
    }
    proof {
        assert forall|k: u64| #[trigger] before.dom().contains(k) implies ({
            let was = before[k];
            let is = data.npcs.npc_map()[k];
            if well_formed_handle(k) && is_due_spec(was.seed, event.tick, NPC_CLEANUP_TICK_SKIP) {
                &&& same_but_memory(was, is)
                &&& is_cleanup_of(
                    was.sentiments.entries(),
                    is.sentiments.entries(),
                    NPC_MAX_SENTIMENTS as int,
                )
                &&& is.inbox@ == known_reports(was.inbox@, old(data).reports)
            } else {
                is == was
            }
        }) by {
            if well_formed_handle(k) {
                let id = NpcId(k);
                assert(old(data).npcs.npc_spec(id).is_some());
                assert(ids@.contains(id));
                let j = choose|j: int| 0 <= j < ids@.len() && ids@[j] == id;
                assert(ids@[j].0 == k);
            }
        }
    }
}

/// The memory of a faction is cleaned up in one tick out of this many.
pub const FACTION_CLEANUP_TICK_SKIP: u64 = 30;

/// Whether two factions differ in nothing but what they feel.
pub open spec fn same_but_faction_sentiments(a: Faction, b: Faction) -> bool {
    b == (Faction { sentiments: b.sentiments, ..a })
}

/// Whether `after` is what the cleaning of the factions in a tick leaves of
/// `before`: each faction for which it is due has forgotten its weakest
/// sentiments beyond [`FACTION_MAX_SENTIMENTS`]; nothing else has changed.
pub open spec fn factions_cleaned(before: Data, after: Data, event: OnTick) -> bool {
    &&& after.npcs == before.npcs
    &&& after.sites == before.sites
    &&& after.reports == before.reports
    &&& after.tick == before.tick
    &&& after.time_of_day == before.time_of_day
    &&& after.should_purge == before.should_purge
    &&& after.factions.faction_map().dom() == before.factions.faction_map().dom()
    &&& forall|k: u64| #[trigger]
        before.factions.faction_map().dom().contains(k) ==> {
            let was = before.factions.faction_map()[k];
            let is = after.factions.faction_map()[k];
            if well_formed_handle(k) && is_due_spec(was.seed, event.tick, FACTION_CLEANUP_TICK_SKIP) {
                &&& same_but_faction_sentiments(was, is)
                &&& is_cleanup_of(
                    was.sentiments.entries(),
                    is.sentiments.entries(),
                    FACTION_MAX_SENTIMENTS as int,
                )
            } else {
                is == was
            }
        }
}

/// Cleans the memory of the factions for which it is due.
pub fn cleanup_factions(data: &mut Data, event: &OnTick)
    ensures
        factions_cleaned(*old(data), *final(data), *event),
{
    let ids = data.factions.faction_ids();
    let ghost before = data.factions.faction_map();
    let mut i: usize = 0;
    while i < ids.len()
        invariant
            i <= ids.len(),
            ids@.no_duplicates(),
            forall|id: FactionId| ids@.contains(id) <==> old(data).factions.faction_spec(id).is_some(),
            before == old(data).factions.faction_map(),
            data.npcs == old(data).npcs,
            data.sites == old(data).sites,
            data.reports == old(data).reports,
            data.tick == old(data).tick,
            data.time_of_day == old(data).time_of_day,
            data.should_purge == old(data).should_purge,
            data.factions.faction_map().dom() == before.dom(),
            forall|k: u64|
                before.dom().contains(k) && !well_formed_handle(k)
                    ==> #[trigger] data.factions.faction_map()[k] == before[k],
            forall|j: int|
                i <= j < ids@.len() ==> data.factions.faction_map()[(#[trigger] ids@[j]).0]
                    == before[ids@[j].0],
            forall|j: int|
                0 <= j < i ==> {
                    let was = before[(#[trigger] ids@[j]).0];
                    let is = data.factions.faction_map()[ids@[j].0];
                    if is_due_spec(was.seed, event.tick, FACTION_CLEANUP_TICK_SKIP) {
                        &&& same_but_faction_sentiments(was, is)
                        &&& is_cleanup_of(
                            was.sentiments.entries(),
                            is.sentiments.entries(),
                            FACTION_MAX_SENTIMENTS as int,
                        )
                    } else {
                        is == was
                    }
                },
        decreases ids.len() - i,
    {
        let id = ids[i];
        assert(ids@.contains(id));
        assert(old(data).factions.faction_spec(id).is_some());
        let ghost mid = data.factions.faction_map();
        match data.factions.get_mut(id) {
            Some(faction) => {
                if is_due(faction.seed, event.tick, FACTION_CLEANUP_TICK_SKIP) {
                    faction.sentiments.cleanup(FACTION_MAX_SENTIMENTS);
                }
            },
            None => {},
        }
        proof {
            assert(data.factions.faction_map().dom() =~= before.dom());
            assert forall|j: int| i < j < ids@.len() implies data.factions.faction_map()[(#[trigger] ids@[j]).0]
                == before[ids@[j].0] by {
                assert(ids@[j] != ids@[i as int]);
                assert(mid[ids@[j].0] == before[ids@[j].0]);
            }
            assert forall|j: int| 0 <= j < i implies data.factions.faction_map()[(#[trigger] ids@[j]).0]
                == mid[ids@[j].0] by {
                assert(ids@[j] != ids@[i as int]);
            }
        }
        i = i + 1;
    }
    proof {
        assert forall|k: u64| #[trigger] before.dom().contains(k) implies ({
            let was = before[k];
            let is = data.factions.faction_map()[k];
            if well_formed_handle(k) && is_due_spec(was.seed, event.tick, FACTION_CLEANUP_TICK_SKIP) {
                &&& same_but_faction_sentiments(was, is)
                &&& is_cleanup_of(
                    was.sentiments.entries(),
                    is.sentiments.entries(),
                    FACTION_MAX_SENTIMENTS as int,
                )
            } else {
                is == was
            }
        }) by {
            if well_formed_handle(k) {
                let id = FactionId(k);
                assert(old(data).factions.faction_spec(id).is_some());
                assert(ids@.contains(id));
                let j = choose|j: int| 0 <= j < ids@.len() && ids@[j] == id;
                assert(ids@[j].0 == k);
            }
        }
    }
}

/// Whether `after` is what the forgetting of stale reports leaves of
/// `before`: the reports that are no longer current at the time of day have
/// gone; nothing else has changed.
pub open spec fn reports_cleaned(before: Data, after: Data) -> bool {
    &&& after.sites == before.sites
    &&& after.factions == before.factions
    &&& after.npcs == before.npcs
    &&& after.tick == before.tick
    &&& after.time_of_day == before.time_of_day
    &&& after.should_purge == before.should_purge
    &&& after.reports.next == before.reports.next
    &&& after.reports.entries@ == before.reports.entries@.filter(
        |e: (ReportId, Report)| is_current(e.1.at, before.time_of_day),
    )
}

/// Whether `after` is what the clean-up of a tick leaves of `before`: what is
/// left when sentiments have decayed, then the dead have been removed, then
/// the memories of the living and those of the factions have been cleaned,
/// then stale reports have been forgotten.
pub open spec fn cleaned_up(before: Data, after: Data, event: OnTick) -> bool {
    exists|a: Data, b: Data, c: Data, d: Data| #[trigger]
        cleaned_up_by_way_of(before, a, b, c, d, after, event)
}

/// Whether `after` is what the clean-up of a tick leaves of `before`, with
/// `a`, `b`, `c` and `d` as the states in between.
pub open spec fn cleaned_up_by_way_of(
    before: Data,
    a: Data,
    b: Data,
    c: Data,
    d: Data,
    after: Data,
    event: OnTick,
) -> bool {
    &&& sentiments_decayed(before, a, event)
    &&& dead_removed(a, b)
    &&& memories_cleaned(b, c, event)
    &&& factions_cleaned(c, d, event)
    &&& reports_cleaned(d, after)
}

/// Cleans up the state of the simulation: lets sentiments decay, removes the
/// dead, cleans the memory of the living and of the factions, and forgets
/// stale reports. Most of it is done for each character and faction only once
/// in a number of ticks.
pub fn cleanup(data: &mut Data, event: &OnTick, rng: &mut rand_chacha::ChaCha20Rng)
    requires
        old(data).wf(),
    ensures
        final(data).wf(),
        cleaned_up(*old(data), *final(data), *event),
        final(data).reports.next == old(data).reports.next,
        forall|id: NpcId|
            (#[trigger] final(data).npcs.npc_spec(id)).is_some() ==> !final(data).npcs.npc_spec(
                id,
            ).unwrap().is_dead && old(data).npcs.npc_spec(id).is_some(),
        old(data).npcs.indexed() ==> final(data).npcs.indexed(),
{
    decay_sentiments(data, event, rng);
    let ghost a = *data;
    remove_dead(data);
    let ghost b = *data;
    cleanup_npcs(data, event);
    let ghost c = *data;
    cleanup_factions(data, event);
    let ghost d = *data;
    data.reports.cleanup(data.time_of_day);
    proof {
        assert(reports_cleaned(d, *data));
        assert(cleaned_up_by_way_of(*old(data), a, b, c, d, *data, *event));
        assert forall|id: NpcId| (#[trigger] data.npcs.npc_spec(id)).is_some() implies !data.npcs.npc_spec(
            id,
        ).unwrap().is_dead && old(data).npcs.npc_spec(id).is_some() by {
            let k = id.0;
            assert(c.npcs.npc_map().dom().contains(k));
            assert(b.npcs.npc_map().dom().contains(k));
            assert(a.npcs.npc_map().dom().contains(k));
            assert(old(data).npcs.npc_map().dom().contains(k));
        }
        if old(data).npcs.indexed() {
            assert forall|id: NpcId| #[trigger] a.npcs.placed(id) by {
                assert(old(data).npcs.placed(id));
                if a.npcs.npc_spec(id).is_some() {
                    assert(old(data).npcs.npc_map().dom().contains(id.0));
                }
            }
            assert forall|id: NpcId| #[trigger] c.npcs.placed(id) by {
                assert(b.npcs.placed(id));
                if c.npcs.npc_spec(id).is_some() {
                    assert(b.npcs.npc_map().dom().contains(id.0));
                }
            }
        }
    }
}

/// A handler that a rule brings along, to answer events in a way of its own.
///
/// Whoever writes a rule that the handlers of this module do not serve gives
/// the rule a type of handlers, says in [`Handle::answers`] what they do, and
/// binds them as [`Handler::Custom`]. The dispatch runs them in their turn.
pub trait Handle: Sized {
    /// Whether `after` can be what the handler leaves of `before` when it
    /// answers `event`.
    spec fn answers(&self, before: Data, after: Data, event: Event) -> bool;

    /// Answers `event` on the state of the simulation. A handler keeps the
    /// state well formed and the grid up to date where it was, and makes no
    /// more than one report.
    fn handle(&self, data: &mut Data, event: &Event)
        requires
            old(data).wf(),
            old(data).reports.next < u64::MAX,
        ensures
            final(data).wf(),
            self.answers(*old(data), *final(data), *event),
            final(data).reports.next <= old(data).reports.next + 1,
            old(data).npcs.indexed() ==> final(data).npcs.indexed(),
    ;
}

/// The handlers of a simulation whose rules bring none along: there is one,
/// and it leaves everything as it is.
#[derive(Clone, Copy, Debug, PartialEq, Eq, Structural)]
pub struct NoHandler;

impl Handle for NoHandler {
    open spec fn answers(&self, before: Data, after: Data, event: Event) -> bool {
        after == before
    }

    fn handle(&self, data: &mut Data, event: &Event) {
    }
}

/// What a binding runs.
#[derive(Clone, Copy, Debug, PartialEq, Eq)]
pub enum Handler<H> {
    /// The clean-up of a tick: see [`cleanup`].
    CleanUp,
    /// The report of a death: see [`on_death`].
    ReportDeath,
    /// The movement of a tick: see [`simulate_npcs`].
    SimulateNpcs,
    /// A handler that a rule has brought along: see [`Handle`].
    Custom(H),
}

/// A handler bound to a kind of event.
#[derive(Clone, Copy, Debug, PartialEq, Eq)]
pub struct Binding<H> {
    pub event: EventKind,
    pub handler: Handler<H>,
}

/// The rules that there are.
#[derive(Clone, Copy, Debug, PartialEq, Eq, Structural)]
pub enum RuleKind {
    CleanUp,
    ReportEvents,
    SimulateNpcs,
    /// A rule that is none of this module's, under the number that whoever
    /// wrote it has given it.
    Custom(u32),
}

impl RuleKind {
    /// The name of the rule.
    pub open spec fn name_spec(self) -> Seq<char> {
        match self {
            RuleKind::CleanUp => "CleanUp"@,
            RuleKind::ReportEvents => "ReportEvents"@,
            RuleKind::SimulateNpcs => "SimulateNpcs"@,
            RuleKind::Custom(_) => "Custom"@,
        }
    }

    /// The name of the rule.
    pub fn name(&self) -> (name: &'static str)
        ensures
            name@ == self.name_spec(),
    {
        match self {
            RuleKind::CleanUp => "CleanUp",
            RuleKind::ReportEvents => "ReportEvents",
            RuleKind::SimulateNpcs => "SimulateNpcs",
            RuleKind::Custom(_) => "Custom",
        }
    }
}

/// What can go wrong with a rule.
#[derive(Clone, Copy, Debug)]
pub enum RuleError {
    /// The rule of this name has not been started.
    NoSuchRule(&'static str),
}

/// The state of the simulation together with the rules that have been
/// started and the handlers that answer its events.
pub struct RtState<H> {
    pub data: Data,
    /// The rules that have been started, in the order in which they were.
    pub rules: Vec<RuleKind>,
    /// The bindings, in the order in which they were made.
    pub bindings: Vec<Binding<H>>,
}

/// Whether `after` is what the handler `h` leaves of `before` when it
/// answers `event`. A handler of this module leaves everything as it is when
/// it meets an event of a kind that it does not answer; a handler that a
/// rule has brought along does what it says of itself.
pub open spec fn handled<H: Handle>(h: Handler<H>, before: Data, after: Data, event: Event) -> bool {
    match (h, event) {
        (Handler::CleanUp, Event::OnTick(ev)) => cleaned_up(before, after, ev),
        (Handler::ReportDeath, Event::OnDeath(ev)) => death_reported(before, after, ev),
        (Handler::SimulateNpcs, Event::OnTick(ev)) => npcs_simulated(before, after, ev),
        (Handler::Custom(custom), _) => custom.answers(before, after, event),
        _ => after == before,
    }
}

/// Whether `after` is what `bindings` leave of `before` when `event` is
/// emitted: each binding of the kind of the event, from the first to the
/// last, has had its handler answer the event, on the state that the one
/// before it has left. The other bindings have done nothing.
pub open spec fn dispatched<H: Handle>(
    bindings: Seq<Binding<H>>,
    before: Data,
    after: Data,
    event: Event,
) -> bool
    decreases bindings.len(),
{
    if bindings.len() == 0 {
        after == before
    } else {
        exists|mid: Data|
            dispatched(bindings.drop_last(), before, mid, event) && #[trigger] answered(
                bindings.last(),
                mid,
                after,
                event,
            )
    }
}

/// Whether `after` is what the binding `last` leaves of `mid` when `event` is
/// emitted.
pub open spec fn answered<H: Handle>(last: Binding<H>, mid: Data, after: Data, event: Event) -> bool {
    if last.event == event.kind_spec() {
        handled(last.handler, mid, after, event)
    } else {
        after == mid
    }
}

impl<H: Handle> RtState<H> {
    /// A state to which nothing is bound.
    pub fn new(data: Data) -> (s: Self)
        ensures
            s.data == data,
            s.rules@ == Seq::<RuleKind>::empty(),
            s.bindings@ == Seq::<Binding<H>>::empty(),
    {
        RtState { data, rules: Vec::new(), bindings: Vec::new() }
    }

    /// Binds `handler` to the events of kind `event`, after the handlers
    /// that are bound already.
    pub fn bind(&mut self, event: EventKind, handler: Handler<H>)
        ensures
            final(self).data == old(self).data,
            final(self).rules == old(self).rules,
            final(self).bindings@ == old(self).bindings@.push(Binding { event, handler }),
    {
        self.bindings.push(Binding { event, handler });
    }

    /// Starts the rule `R` and notes that it has been started: it succeeds
    /// where the rule can be started on this state. Where it cannot nothing
    /// changes.
    pub fn start_rule<R: Rule<H>>(&mut self) -> (r: Result<(), RuleError>)
        ensures
            r is Ok <==> R::can_start(*old(self)),
            final(self).data == old(self).data,
            r is Ok ==> final(self).bindings@ == old(self).bindings@ + R::binds() && final(self).rules@ == old(self).rules@.push(R::kind_spec()),
            r is Err ==> final(self).bindings@ == old(self).bindings@ && final(self).rules@
                == old(self).rules@,
    {
        match R::start(self) {
            Ok(_) => {
                self.rules.push(R::kind());
                Ok(())
            },
            Err(e) => Err(e),
        }
    }

    /// Whether the rule `kind` has been started: `Ok` if it has, else the
    /// error that names the rule.
    pub fn rule(&self, kind: RuleKind) -> (r: Result<(), RuleError>)
        ensures
            r is Ok <==> self.rules@.contains(kind),
            r matches Err(RuleError::NoSuchRule(name)) ==> name@ == kind.name_spec(),
    {
        let mut i: usize = 0;
        while i < self.rules.len()
            invariant
                i <= self.rules.len(),
                forall|j: int| 0 <= j < i ==> self.rules@[j] != kind,
            decreases self.rules.len() - i,
        {
            if self.rules[i] == kind {
                return Ok(());
            }
            i = i + 1;
        }
        Err(RuleError::NoSuchRule(kind.name()))
    }

    /// Emits `event`: runs the handlers bound to its kind, in the order in
    /// which they were bound. Returns the handles of the characters that a
    /// handler has moved by simulation and that are to be put on the ground.
    pub fn emit(&mut self, event: &Event, rng: &mut rand_chacha::ChaCha20Rng) -> (simulated: Vec<
        NpcId,
    >)
        requires
            old(self).data.wf(),
            old(self).data.reports.next + old(self).bindings@.len() < u64::MAX,
        ensures
            final(self).data.wf(),
            final(self).bindings == old(self).bindings,
            final(self).rules == old(self).rules,
            dispatched(old(self).bindings@, old(self).data, final(self).data, *event),
            final(self).data.reports.next <= old(self).data.reports.next + old(self).bindings@.len(),
            old(self).data.npcs.indexed() ==> final(self).data.npcs.indexed(),
    {
        let mut simulated: Vec<NpcId> = Vec::new();
        let mut i: usize = 0;
        while i < self.bindings.len()
            invariant
                i <= self.bindings.len(),
                self.bindings == old(self).bindings,
                self.rules == old(self).rules,
                self.data.wf(),
                self.data.reports.next <= old(self).data.reports.next + i,
                old(self).data.reports.next + old(self).bindings@.len() < u64::MAX,
                dispatched(old(self).bindings@.take(i as int), old(self).data, self.data, *event),
                old(self).data.npcs.indexed() ==> self.data.npcs.indexed(),
            decreases self.bindings.len() - i,
        {
            let binding = &self.bindings[i];
            let ghost mid = self.data;
            if binding.event == event.kind() {
                match (&binding.handler, event) {
                    (Handler::CleanUp, Event::OnTick(ev)) => {
                        cleanup(&mut self.data, ev, rng);
                    },
                    (Handler::ReportDeath, Event::OnDeath(ev)) => {
                        on_death(&mut self.data, ev);
                        assert(mid.npcs.indexed() ==> self.data.npcs.indexed()) by {
                            if mid.npcs.indexed() {
                                assert forall|id: NpcId| #[trigger] self.data.npcs.placed(id) by {
                                    assert(mid.npcs.placed(id));
                                    if self.data.npcs.npc_spec(id).is_some() {
                                        assert(mid.npcs.npc_map().dom().contains(id.0));
                                    }
                                }
                            }
                        }
                    },
                    (Handler::SimulateNpcs, Event::OnTick(ev)) => {
                        let mut moved = simulate_npcs(&mut self.data, ev);
                        simulated.append(&mut moved);
                    },
                    (Handler::Custom(custom), _) => {
                        custom.handle(&mut self.data, event);
                    },
                    _ => {},
                }
            }
            proof {
                let upto = old(self).bindings@.take(i + 1);
                assert(upto.drop_last() == old(self).bindings@.take(i as int));
                assert(upto.last() == *binding);
                assert(answered(upto.last(), mid, self.data, *event));
            }
            i = i + 1;
        }
        proof {
            assert(old(self).bindings@.take(old(self).bindings@.len() as int) == old(self).bindings@);
        }
        simulated
    }
}

/// A rule: a concern of the simulation that answers events.
pub trait Rule<H: Handle>: Sized {
    /// Which rule this is.
    spec fn kind_spec() -> RuleKind;

    /// The bindings that the rule makes when it is started, in order.
    spec fn binds() -> Seq<Binding<H>>;

    /// Whether the rule can be started on the state `rtstate`.
    spec fn can_start(rtstate: RtState<H>) -> bool;

    /// Which rule this is.
    fn kind() -> (k: RuleKind)
        ensures
            k == Self::kind_spec(),
    ;

    /// Starts the rule: binds its handlers, after those that are bound
    /// already. Where the rule cannot be started nothing is bound.
    fn start(rtstate: &mut RtState<H>) -> (r: Result<Self, RuleError>)
        ensures
            r is Ok <==> Self::can_start(*old(rtstate)),
            final(rtstate).data == old(rtstate).data,
            final(rtstate).rules == old(rtstate).rules,
            r is Ok ==> final(rtstate).bindings@ == old(rtstate).bindings@ + Self::binds(),
            r is Err ==> final(rtstate).bindings@ == old(rtstate).bindings@,
    ;
}

/// A rule that cleans up the state of the simulation, on every tick: it
/// removes the dead, old reports and sentiments of little weight, and lets
/// sentiments decay.
pub struct CleanUp;

impl<H: Handle> Rule<H> for CleanUp {
    open spec fn kind_spec() -> RuleKind {
        RuleKind::CleanUp
    }

    /// The rule can always be started.
    open spec fn can_start(rtstate: RtState<H>) -> bool {
        true
    }

    open spec fn binds() -> Seq<Binding<H>> {
        seq![Binding { event: EventKind::OnTick, handler: Handler::CleanUp }]
    }

    fn start(rtstate: &mut RtState<H>) -> (r: Result<Self, RuleError>)
        ensures
            r is Ok,
    {
        rtstate.bind(EventKind::OnTick, Handler::CleanUp);
        assert(rtstate.bindings@ == old(rtstate).bindings@ + <Self as Rule<H>>::binds());
        Ok(CleanUp)
    }

    fn kind() -> (k: RuleKind) {
        RuleKind::CleanUp
    }
}

/// A rule that reports deaths to the characters near them.
pub struct ReportEvents;

impl<H: Handle> Rule<H> for ReportEvents {
    open spec fn kind_spec() -> RuleKind {
        RuleKind::ReportEvents
    }

    /// The rule can always be started.
    open spec fn can_start(rtstate: RtState<H>) -> bool {
        true
    }

    open spec fn binds() -> Seq<Binding<H>> {
        seq![Binding { event: EventKind::OnDeath, handler: Handler::ReportDeath }]
    }

    fn start(rtstate: &mut RtState<H>) -> (r: Result<Self, RuleError>)
        ensures
            r is Ok,
    {
        rtstate.bind(EventKind::OnDeath, Handler::ReportDeath);
        assert(rtstate.bindings@ == old(rtstate).bindings@ + <Self as Rule<H>>::binds());
        Ok(ReportEvents)
    }

    fn kind() -> (k: RuleKind) {
        RuleKind::ReportEvents
    }
}

/// A rule that moves the simulated characters, on every tick.
pub struct SimulateNpcs;

impl<H: Handle> Rule<H> for SimulateNpcs {
    open spec fn kind_spec() -> RuleKind {
        RuleKind::SimulateNpcs
    }

    /// The rule can always be started.
    open spec fn can_start(rtstate: RtState<H>) -> bool {
        true
    }

    open spec fn binds() -> Seq<Binding<H>> {
        seq![Binding { event: EventKind::OnTick, handler: Handler::SimulateNpcs }]
    }

    fn start(rtstate: &mut RtState<H>) -> (r: Result<Self, RuleError>)
        ensures
            r is Ok,
    {
        rtstate.bind(EventKind::OnTick, Handler::SimulateNpcs);
        assert(rtstate.bindings@ == old(rtstate).bindings@ + <Self as Rule<H>>::binds());
        Ok(SimulateNpcs)
    }

    fn kind() -> (k: RuleKind) {
        RuleKind::SimulateNpcs
    }
}

/// The bindings of the rules that are started by default, in order: deaths
/// are reported; on a tick characters move, then the state is cleaned up.
pub open spec fn default_bindings<H>() -> Seq<Binding<H>> {
    seq![
        Binding { event: EventKind::OnDeath, handler: Handler::ReportDeath },
        Binding { event: EventKind::OnTick, handler: Handler::SimulateNpcs },
        Binding { event: EventKind::OnTick, handler: Handler::CleanUp },
    ]
}

/// The rules that are started by default, in order.
pub open spec fn default_rules() -> Seq<RuleKind> {
    seq![RuleKind::ReportEvents, RuleKind::SimulateNpcs, RuleKind::CleanUp]
}

/// Starts the rules that every simulation runs.
pub fn start_rules<H: Handle>(rtstate: &mut RtState<H>) -> (r: Result<(), RuleError>)
    ensures
        r is Ok,
        final(rtstate).data == old(rtstate).data,
        final(rtstate).bindings@ == old(rtstate).bindings@ + default_bindings(),
        final(rtstate).rules@ == old(rtstate).rules@ + default_rules(),
{
    match <ReportEvents as Rule<H>>::start(rtstate) {
        Ok(_) => {
            rtstate.rules.push(RuleKind::ReportEvents);
        },
        Err(e) => {
            return Err(e);
        },
    }
    match <SimulateNpcs as Rule<H>>::start(rtstate) {
        Ok(_) => {
            rtstate.rules.push(RuleKind::SimulateNpcs);
        },
        Err(e) => {
            return Err(e);
        },
    }
    match <CleanUp as Rule<H>>::start(rtstate) {
        Ok(_) => {
            rtstate.rules.push(RuleKind::CleanUp);
        },
        Err(e) => {
            return Err(e);
        },
    }
    assert(rtstate.bindings@ == old(rtstate).bindings@ + default_bindings());
    assert(rtstate.rules@ == old(rtstate).rules@ + default_rules());
    Ok(())
}

/// Handlers answer an event in the order in which they were bound: a handler
/// that is bound last answers last, on the state that the dispatch to the
/// bindings before it has left.
pub proof fn lemma_last_bound_answers_last<H: Handle>(
    bindings: Seq<Binding<H>>,
    last: Binding<H>,
    before: Data,
    mid: Data,
    after: Data,
    event: Event,
)
    requires
        dispatched(bindings, before, mid, event),
        last.event == event.kind_spec(),
        handled(last.handler, mid, after, event),
    ensures
        dispatched(bindings.push(last), before, after, event),
{
    let all = bindings.push(last);
    assert(all.drop_last() == bindings);
    assert(answered(all.last(), mid, after, event));
}

/// A handler that a rule has brought along is run on the events of the kind
/// that it is bound to: where it is the only binding, the dispatch does what
/// the handler says of itself.
pub proof fn lemma_custom_handler_answers<H: Handle>(
    custom: H,
    before: Data,
    after: Data,
    event: Event,
)
    requires
        dispatched(
            seq![(Binding { event: event.kind_spec(), handler: Handler::Custom(custom) })],
            before,
            after,
            event,
        ),
    ensures
        custom.answers(before, after, event),
{
    let only = seq![(Binding { event: event.kind_spec(), handler: Handler::Custom(custom) })];
    let mid = choose|mid: Data|
        dispatched(only.drop_last(), before, mid, event) && #[trigger] answered(
            only.last(),
            mid,
            after,
            event,
        );
    assert(mid == before);
}

/// A binding to another kind of event takes no part in a dispatch.
pub proof fn lemma_other_kinds_are_passed_over<H: Handle>(
    bindings: Seq<Binding<H>>,
    other: Binding<H>,
    before: Data,
    after: Data,
    event: Event,
)
    requires
        dispatched(bindings, before, after, event),
        other.event != event.kind_spec(),
    ensures
        dispatched(bindings.push(other), before, after, event),
{
    let all = bindings.push(other);
    assert(all.drop_last() == bindings);
    assert(answered(all.last(), after, after, event));
}

} // verus!
