use rtsim::ai::casual;
use rtsim::ai::decide;
use rtsim::ai::finish;
use rtsim::ai::important;
use rtsim::ai::just;
use rtsim::ai::now;
use rtsim::ai::repeat;
use rtsim::ai::stop_if;
use rtsim::ai::then;
use rtsim::ai::think;
use rtsim::ai::urgent;
use rtsim::ai::watch;
use rtsim::ai::Action;
use rtsim::ai::Brain;
use rtsim::ai::Either;
use rtsim::ai::NpcCtx;
use rtsim::ai::CASUAL;
use rtsim::ai::IMPORTANT;
use rtsim::ai::URGENT;
use rtsim::geom::Vec3i;
use rtsim::ids::NpcId;
use rtsim::npc::Controller;
use rtsim::npc::NpcAction;
use rtsim::npc::SimulationMode;
use std::ops::ControlFlow;

fn ctx(time: u64) -> NpcCtx {
    NpcCtx {
        time_of_day: 0,
        time,
        npc_id: NpcId(0x1_0000_0000),
        seed: 1,
        wpos: Vec3i::new(0, 0, 0),
        profession: None,
        home: None,
        faction: None,
        controller: Controller::idle(),
    }
}

/// An action that goes on for a number of ticks and then finishes with the
/// number of its restarts; it counts its ticks and its resets.
#[derive(Clone, Debug, PartialEq)]
struct Count {
    goal: u32,
    ticks: u32,
    total_ticks: u32,
    resets: u32,
    tag: u32,
}

fn count(goal: u32, tag: u32) -> Count {
    Count { goal, ticks: 0, total_ticks: 0, resets: 0, tag }
}

impl Action<u32> for Count {
    fn wf(&self) -> bool {
        true
    }

    fn same(&self, other: &Self) -> bool {
        self.tag == other.tag
    }

    fn rewound(self) -> Self {
        let mut a = self;
        a.reset();
        a
    }

    fn step(self, ctx: NpcCtx) -> (Self, NpcCtx, ControlFlow<u32>) {
        let mut a = self;
        let mut c = ctx;
        let flow = a.tick(&mut c);
        (a, c, flow)
    }

    fn is_same(&self, other: &Self) -> bool {
        self.tag == other.tag
    }

    fn reset(&mut self) {
        self.ticks = 0;
        self.resets += 1;
    }

    fn tick(&mut self, _ctx: &mut NpcCtx) -> ControlFlow<u32> {
        self.ticks += 1;
        self.total_ticks += 1;
        if self.ticks >= self.goal {
            ControlFlow::Break(self.tag)
        } else {
            ControlFlow::Continue(())
        }
    }
}

#[test]
fn finish_finishes_at_once() {
    let mut a = finish();
    let mut c = ctx(0);
    assert_eq!(a.tick(&mut c), ControlFlow::Break(()));
    assert!(a.is_same(&finish()));
    a.reset();
    assert_eq!(a.tick(&mut c), ControlFlow::Break(()));
}

#[test]
fn just_runs_once_and_writes_the_controller() {
    let target = Vec3i::new(5, 6, 7);
    let mut a = just(move |_c: &NpcCtx| (Controller::goto(target, 500), 42u8));
    let mut c = ctx(0);
    assert_eq!(a.tick(&mut c), ControlFlow::Break(42));
    assert_eq!(c.controller.action, Some(NpcAction::Goto(target, 500)));
}

#[test]
fn then_ordering() {
    let mut a = then(count(3, 1), count(2, 2));
    let mut c = ctx(0);
    // While the first goes on the second is not ticked.
    for _ in 0..2 {
        assert_eq!(a.tick(&mut c), ControlFlow::Continue(()));
        assert_eq!(a.a1.total_ticks, 0);
        assert!(!a.a0_finished);
    }
    // In the tick in which the first finishes the second is ticked.
    assert_eq!(a.tick(&mut c), ControlFlow::Continue(()));
    assert!(a.a0_finished);
    assert_eq!(a.a0.total_ticks, 3);
    assert_eq!(a.a1.total_ticks, 1);
    // The chain finishes with the result of the second.
    assert_eq!(a.tick(&mut c), ControlFlow::Break(2));
    assert_eq!(a.a0.total_ticks, 3);
    a.reset();
    assert!(!a.a0_finished);
    assert_eq!(a.tick(&mut c), ControlFlow::Continue(()));
    assert_eq!(a.a0.total_ticks, 4);
    assert_eq!(a.a1.total_ticks, 2);
}

#[test]
fn then_never_starts_second_if_first_never_finishes() {
    let mut a = then(repeat(count(2, 1)), count(1, 2));
    let mut c = ctx(0);
    for _ in 0..50 {
        assert_eq!(a.tick(&mut c), ControlFlow::Continue(()));
    }
    assert_eq!(a.a1.total_ticks, 0);
}

#[test]
fn repeat_never_completes() {
    let mut a = repeat(count(3, 1));
    let mut c = ctx(0);
    for _ in 0..30 {
        assert_eq!(a.tick(&mut c), ControlFlow::Continue(()));
    }
    // Ten cycles of three ticks each, and a reset after each of them.
    assert_eq!(a.0.total_ticks, 30);
    assert_eq!(a.0.resets, 10);
    assert_eq!(a.0.ticks, 0);
}

#[test]
fn stop_if_aborts_at_tick_boundaries() {
    let mut a = stop_if(count(10, 1), |c: &NpcCtx| c.time >= 3);
    for t in 0..3 {
        let mut c = ctx(t);
        assert_eq!(a.tick(&mut c), ControlFlow::Continue(()));
    }
    let mut c = ctx(3);
    assert_eq!(a.tick(&mut c), ControlFlow::Break(None));
    // The wrapped action was not ticked in the tick of the stop.
    assert_eq!(a.0.total_ticks, 3);
    // Without a stop the result of the wrapped action comes through.
    let mut b = stop_if(count(2, 7), |_c: &NpcCtx| false);
    let mut c = ctx(0);
    assert_eq!(b.tick(&mut c), ControlFlow::Continue(()));
    assert_eq!(b.tick(&mut c), ControlFlow::Break(Some(7)));
}

#[test]
fn map_changes_the_result_only() {
    let mut a = rtsim::ai::map(count(2, 5), |r: u32| r * 10);
    let mut c = ctx(0);
    assert_eq!(a.tick(&mut c), ControlFlow::Continue(()));
    assert_eq!(a.tick(&mut c), ControlFlow::Break(50));
}

#[test]
fn now_decides_at_first_tick() {
    let mut a = now(|c: &NpcCtx| count(2, c.time as u32));
    let mut c = ctx(9);
    assert_eq!(a.tick(&mut c), ControlFlow::Continue(()));
    // The action was made in the first tick and is not made again.
    let mut c = ctx(10);
    assert_eq!(a.tick(&mut c), ControlFlow::Break(9));
    a.reset();
    assert!(a.1.is_none());
    let mut c = ctx(11);
    assert_eq!(a.tick(&mut c), ControlFlow::Continue(()));
    assert_eq!(a.1.as_ref().map(|x| x.tag), Some(11));
}

#[test]
fn seq_performs_in_order() {
    let mut a = rtsim::ai::seq(vec![count(2, 1), count(1, 2), count(3, 3)]);
    let mut c = ctx(0);
    // Two, one and three ticks, each of them reported as going on.
    for _ in 0..6 {
        assert_eq!(a.tick(&mut c), ControlFlow::Continue(()));
    }
    assert_eq!(a.tick(&mut c), ControlFlow::Break(()));
    a.reset();
    for _ in 0..6 {
        assert_eq!(a.tick(&mut c), ControlFlow::Continue(()));
    }
    assert_eq!(a.tick(&mut c), ControlFlow::Break(()));
    let mut none = rtsim::ai::seq(Vec::<Count>::new());
    assert_eq!(none.tick(&mut c), ControlFlow::Break(()));
}

#[test]
fn priorities_are_ranked() {
    assert!(URGENT < IMPORTANT && IMPORTANT < CASUAL);
    assert_eq!(urgent(count(1, 1)).1, URGENT);
    assert_eq!(important(count(1, 1)).1, IMPORTANT);
    assert_eq!(casual(count(1, 1)).1, CASUAL);
}

#[test]
fn choose_stickiness() {
    // Even ticks propose the long urgent task anew, odd ticks a casual one.
    let propose = |c: &NpcCtx| {
        if c.time % 2 == 0 {
            urgent(count(100, 1))
        } else {
            casual(count(100, 2))
        }
    };
    let mut tree = decide(propose);
    for t in 0..20 {
        let mut c = ctx(t);
        assert_eq!(tree.tick(&mut c), ControlFlow::Continue(()));
        let running = tree.prev.as_ref().unwrap();
        // The first choice is kept and advanced, never restarted.
        assert_eq!(running.1, URGENT);
        assert_eq!(running.0.tag, 1);
        assert_eq!(running.0.total_ticks, t as u32 + 1);
    }
}

#[test]
fn choose_yields_to_more_urgent() {
    let propose = |c: &NpcCtx| {
        if c.time < 5 {
            casual(count(100, 1))
        } else if c.time < 8 {
            urgent(count(100, 2))
        } else {
            important(count(100, 3))
        }
    };
    let mut tree = decide(propose);
    for t in 0..5 {
        let mut c = ctx(t);
        tree.tick(&mut c);
        assert_eq!(tree.prev.as_ref().unwrap().0.tag, 1);
    }
    let mut c = ctx(5);
    tree.tick(&mut c);
    let running = tree.prev.as_ref().unwrap();
    assert_eq!((running.0.tag, running.0.total_ticks, running.1), (2, 1, URGENT));
    // What is less urgent does not interrupt.
    for t in 8..12 {
        let mut c = ctx(t);
        tree.tick(&mut c);
        assert_eq!(tree.prev.as_ref().unwrap().0.tag, 2);
    }
}

#[test]
fn choose_finishes_and_chooses_anew() {
    let propose = |c: &NpcCtx| {
        if c.time < 2 {
            urgent(count(2, 1))
        } else {
            casual(count(2, 2))
        }
    };
    let mut tree = decide(propose);
    let mut c = ctx(0);
    assert_eq!(tree.tick(&mut c), ControlFlow::Continue(()));
    let mut c = ctx(1);
    assert_eq!(tree.tick(&mut c), ControlFlow::Break(1));
    assert!(tree.prev.is_none());
    let mut c = ctx(2);
    assert_eq!(tree.tick(&mut c), ControlFlow::Continue(()));
    assert_eq!(tree.prev.as_ref().unwrap().0.tag, 2);
}

#[test]
fn watch_restarts_on_every_change() {
    let propose = |c: &NpcCtx| {
        if c.time % 2 == 0 {
            urgent(count(100, 1))
        } else {
            casual(count(100, 2))
        }
    };
    let mut tree = watch(propose);
    for t in 0..20 {
        let mut c = ctx(t);
        assert_eq!(tree.tick(&mut c), ControlFlow::Continue(()));
        let running = tree.prev.as_ref().unwrap();
        // The proposal of the tick is adopted and begun anew.
        assert_eq!(running.0.tag, if t % 2 == 0 { 1 } else { 2 });
        assert_eq!(running.0.total_ticks, 1);
    }
    // The same task with no more urgency goes on.
    let mut same = watch(|_c: &NpcCtx| casual(count(100, 4)));
    for t in 0..5 {
        let mut c = ctx(t);
        same.tick(&mut c);
        assert_eq!(same.prev.as_ref().unwrap().0.total_ticks, t as u32 + 1);
    }
}

#[test]
fn either_joins_branches_of_different_types() {
    let propose = |c: &NpcCtx| {
        if c.time == 0 {
            casual(Either::Left(rtsim::ai::map(count(1, 1), |_r: u32| ())))
        } else {
            casual(Either::Right(finish()))
        }
    };
    let mut tree = decide(propose);
    let mut c = ctx(0);
    assert_eq!(tree.tick(&mut c), ControlFlow::Break(()));
    let mut c = ctx(1);
    assert_eq!(tree.tick(&mut c), ControlFlow::Break(()));
    let left: Either<Count, Count> = Either::Left(count(1, 1));
    let right: Either<Count, Count> = Either::Right(count(1, 1));
    assert!(left.is_same(&Either::Left(count(5, 1))));
    assert!(!left.is_same(&right));
}

#[test]
fn brains_think_while_simulated() {
    let target = Vec3i::new(1, 2, 3);
    let walk = repeat(just(move |_c: &NpcCtx| (Controller::goto(target, 1000), ())));
    let mut brain = Some(Brain { action: walk });
    let mut c = ctx(0);
    think(&mut brain, SimulationMode::Simulated, &mut c);
    assert!(brain.is_some());
    assert_eq!(c.controller.action, Some(NpcAction::Goto(target, 1000)));
    // A character that mirrors a game entity has no brain.
    let mut c = ctx(1);
    think(&mut brain, SimulationMode::Loaded, &mut c);
    assert!(brain.is_none());
    assert_eq!(c.controller.action, None);
    think(&mut brain, SimulationMode::Simulated, &mut c);
    assert!(brain.is_none());
}
