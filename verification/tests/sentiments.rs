use rand::SeedableRng;
use rand_chacha::ChaCha20Rng;
use rtsim::ids::Actor;
use rtsim::ids::CharacterId;
use rtsim::ids::FactionId;
use rtsim::ids::NpcId;
use rtsim::sentiment::decay_chance;
use rtsim::sentiment::draw_decay;
use rtsim::sentiment::Sentiment;
use rtsim::sentiment::Sentiments;
use rtsim::sentiment::Target;
use rtsim::sentiment::NPC_MAX_SENTIMENTS;

fn npc(n: u64) -> Target {
    Target::Npc(NpcId(n))
}

#[test]
fn sentiment_default_is_neutral() {
    let s = Sentiments::default();
    assert_eq!(s.len(), 0);
    assert_eq!(s.toward(npc(1)).positivity, 0);
    assert!(Sentiment::default().is_redundant());
    assert!(!Sentiment::default().is(Sentiment::POSITIVE));
    assert!(!Sentiment::default().is(Sentiment::NEGATIVE));
}

#[test]
fn sentiment_change_quantizes() {
    let mut s = Sentiment::default();
    // 0.3 of 126 steps is 37.8: 37 steps.
    s.change_by(300, 1000);
    assert_eq!(s.positivity, 37);
    assert_eq!(s.value(), 293);
    assert!(s.is(Sentiment::POSITIVE));
    assert!(!s.is(Sentiment::ALLY));
    s.change_by(100, 1000);
    assert_eq!(s.positivity, 49);
    assert!(s.is(Sentiment::ALLY));
    // A change that is too small for a step still moves by one.
    s.change_by(1, 1000);
    assert_eq!(s.positivity, 50);
    s.change_by(-1, 1000);
    assert_eq!(s.positivity, 49);
    // No change leaves the value.
    s.change_by(0, 0);
    assert_eq!(s.positivity, 49);
}

#[test]
fn sentiment_bounds() {
    // Whatever is done under one cap stays within the cap.
    let cap = 500;
    let mut s = Sentiment::default();
    for i in 0..1000 {
        let change = if i % 7 < 5 { 90 } else { -40 };
        s.change_by(change, cap);
        assert!(s.positivity <= 63 && s.positivity >= -63);
    }
    s.change_by(2000, cap);
    assert_eq!(s.positivity, 63);
    for _ in 0..1000 {
        s.change_by(-2000, cap);
    }
    assert_eq!(s.positivity, -63);
    // A cap beyond 1 is 1, and the representation does not overflow.
    let mut s = Sentiment::default();
    for _ in 0..10 {
        s.change_by(i32::MAX, i32::MIN);
    }
    assert_eq!(s.positivity, 126);
    for _ in 0..10 {
        s.change_by(i32::MIN, i32::MAX);
    }
    assert_eq!(s.positivity, -126);
    assert!(s.is(Sentiment::VILLAIN));
    assert_eq!(s.value(), -1000);
}

#[test]
fn sentiment_thresholds() {
    let s = Sentiment { positivity: 76 };
    assert!(s.is(Sentiment::FRIEND));
    assert!(!s.is(Sentiment::HERO));
    let s = Sentiment { positivity: -38 };
    assert!(s.is(Sentiment::RIVAL));
    assert!(!s.is(Sentiment::ENEMY));
    assert!(Sentiment { positivity: 0 }.is(0));
}

#[test]
fn sentiments_store_by_target() {
    let mut s = Sentiments::default();
    s.change_by(npc(1), 500, 1000);
    s.change_by(Target::Faction(FactionId(1)), -500, 1000);
    s.change_by(Target::from(Actor::Character(CharacterId(-4))), 250, 1000);
    assert_eq!(s.len(), 3);
    assert_eq!(s.toward(npc(1)).positivity, 63);
    assert_eq!(s.toward(Target::Faction(FactionId(1))).positivity, -63);
    assert_eq!(s.toward(Target::Character(CharacterId(-4))).positivity, 31);
    assert_eq!(s.toward(npc(2)).positivity, 0);
    assert_eq!(Target::from(NpcId(9)), npc(9));
    // The cap holds for the stored value as well.
    s.change_by(npc(1), 500, 600);
    assert_eq!(s.toward(npc(1)).positivity, 75);
}

#[test]
fn sentiment_decay_with_draws() {
    let mut s = Sentiment { positivity: 2 };
    s.decay_with(false);
    assert_eq!(s.positivity, 2);
    s.decay_with(true);
    assert_eq!(s.positivity, 1);
    s.decay_with(true);
    assert_eq!(s.positivity, 0);
    s.decay_with(true);
    assert_eq!(s.positivity, 0);
    let mut s = Sentiment { positivity: -2 };
    s.decay_with(true);
    assert_eq!(s.positivity, -1);
}

#[test]
fn sentiments_decay_monotonic() {
    let mut rng = ChaCha20Rng::from_seed([7u8; 32]);
    let mut s = Sentiments::default();
    s.change_by(npc(1), 100, 1000);
    s.change_by(npc(2), -100, 1000);
    let mut last = (s.toward(npc(1)).positivity, s.toward(npc(2)).positivity);
    assert_eq!(last, (12, -12));
    let mut rounds = 0;
    while s.len() > 0 {
        s.decay(&mut rng, 1000);
        let now = (s.toward(npc(1)).positivity, s.toward(npc(2)).positivity);
        assert!(0 <= now.0 && now.0 <= last.0);
        assert!(last.1 <= now.1 && now.1 <= 0);
        last = now;
        rounds += 1;
        assert!(rounds < 100_000);
    }
    assert_eq!(s.toward(npc(1)).positivity, 0);
    assert_eq!(s.toward(npc(2)).positivity, 0);
}

#[test]
fn sentiments_decay_certain_within_a_second() {
    // A round that stands for a second lets every sentiment of one step
    // decay for certain, and with it go.
    let mut rng = ChaCha20Rng::from_seed([1u8; 32]);
    let mut s = Sentiments::default();
    s.change_by(npc(1), 1, 1000);
    s.change_by(npc(2), 0, 1000);
    assert_eq!(s.len(), 2);
    s.decay(&mut rng, 1000);
    assert_eq!(s.len(), 0);
}

#[test]
fn sentiments_decay_asymmetry() {
    // With the same draws the stronger sentiment is neutral no sooner.
    let mut strong = Sentiment { positivity: 9 };
    let mut weak = Sentiment { positivity: 4 };
    let draws = [true, false, true, true, true, false, true, true, true, true, true, true];
    let mut strong_at = None;
    let mut weak_at = None;
    for (i, hit) in draws.iter().enumerate() {
        strong.decay_with(*hit);
        weak.decay_with(*hit);
        if weak.is_redundant() && weak_at.is_none() {
            weak_at = Some(i);
        }
        if strong.is_redundant() && strong_at.is_none() {
            strong_at = Some(i);
        }
        assert!(strong.positivity >= weak.positivity);
    }
    assert_eq!(weak_at, Some(4));
    assert_eq!(strong_at, Some(10));
}

#[test]
fn sentiments_cleanup_evicts_weakest() {
    let mut s = Sentiments::default();
    for i in 1..=10u64 {
        let change = if i % 2 == 0 { 10 * i as i32 } else { -10 * i as i32 };
        s.change_by(npc(i), change, 1000);
    }
    assert_eq!(s.len(), 10);
    s.cleanup(NPC_MAX_SENTIMENTS);
    assert_eq!(s.len(), 10);
    s.cleanup(4);
    assert_eq!(s.len(), 4);
    for i in 1..=6u64 {
        assert_eq!(s.toward(npc(i)).positivity, 0);
    }
    assert_eq!(s.toward(npc(7)).positivity, -8);
    assert_eq!(s.toward(npc(8)).positivity, 10);
    assert_eq!(s.toward(npc(9)).positivity, -11);
    assert_eq!(s.toward(npc(10)).positivity, 12);
    s.cleanup(0);
    assert_eq!(s.len(), 0);
    assert_eq!(s.weakest(), None);
}

#[test]
fn sentiments_are_listed_and_copied() {
    let mut s = Sentiments::default();
    s.set(npc(1), Sentiment { positivity: 5 });
    s.set(Target::Faction(FactionId(2)), Sentiment { positivity: -7 });
    s.set(Target::Character(CharacterId(-3)), Sentiment { positivity: 9 });
    s.set(npc(1), Sentiment { positivity: 6 });
    let mut list: Vec<(Target, i8)> = s.list().into_iter().map(|(t, s)| (t, s.positivity)).collect();
    list.sort_by_key(|(_, p)| *p);
    assert_eq!(
        list,
        vec![
            (Target::Faction(FactionId(2)), -7),
            (npc(1), 6),
            (Target::Character(CharacterId(-3)), 9)
        ]
    );
    let copy = s.clone();
    s.change_by(npc(1), 1000, 1000);
    assert_eq!(copy.toward(npc(1)).positivity, 6);
    assert_eq!(copy.len(), 3);
    assert_eq!(s.toward(npc(1)).positivity, 126);
}

#[test]
fn target_keys_round_trip() {
    for t in [
        Target::Character(CharacterId(i64::MIN)),
        Target::Character(CharacterId(5)),
        Target::Npc(NpcId(u64::MAX)),
        Target::Faction(FactionId(0)),
    ] {
        assert_eq!(Target::from_key(t.key()), Some(t));
    }
    assert_eq!(Target::from_key((3, 0)), None);
    assert_eq!(Target::from_key((1, -1)), None);
    assert_eq!(Target::from_key((0, i64::MAX as i128 + 1)), None);
    assert_ne!(Target::Npc(NpcId(1)).key(), Target::Faction(FactionId(1)).key());
}

#[test]
fn decay_chances() {
    // The milliseconds of the round to a thousand for each step.
    assert_eq!(decay_chance(12, 1000), (1000, 12_000));
    assert_eq!(decay_chance(-12, 1000), (1000, 12_000));
    assert_eq!(decay_chance(3, 500), (500, 3000));
    // The longer the round, the likelier the step.
    assert_eq!(decay_chance(2, 500), (500, 2000));
    assert_eq!(decay_chance(2, 1999), (1999, 2000));
    assert_eq!(decay_chance(2, 2000), (1, 1));
    assert_eq!(decay_chance(2, 4000), (1, 1));
    // Never more than certain.
    assert_eq!(decay_chance(1, 1000), (1, 1));
    assert_eq!(decay_chance(0, 5000), (1, 1));
    assert_eq!(decay_chance(0, 0), (1, 1));
    assert_eq!(decay_chance(-128, u32::MAX), (1, 1));
    assert_eq!(decay_chance(-128, 127_999), (127_999, 128_000));
    // In no time nothing decays.
    assert_eq!(decay_chance(7, 0), (0, 7000));
    let mut rng = ChaCha20Rng::from_seed([5u8; 32]);
    assert!(draw_decay(&mut rng, 1, 1000));
    assert!(draw_decay(&mut rng, 0, 1));
    assert!(draw_decay(&mut rng, 126, 126_000));
    for _ in 0..100 {
        assert!(!draw_decay(&mut rng, 1, 0));
    }
}

#[test]
fn decay_is_scaled_by_the_time_of_the_round() {
    let mut rng = ChaCha20Rng::from_seed([11u8; 32]);
    // Rounds of no time leave everything but the neutral.
    let mut s = Sentiments::default();
    s.set(npc(1), Sentiment { positivity: 5 });
    s.set(npc(2), Sentiment { positivity: 0 });
    for _ in 0..50 {
        s.decay(&mut rng, 0);
    }
    assert_eq!(s.toward(npc(1)).positivity, 5);
    assert_eq!(s.len(), 1);
    // A round of a second for each step takes a step for certain.
    s.set(npc(3), Sentiment { positivity: -30 });
    s.decay(&mut rng, 30_000);
    assert_eq!(s.toward(npc(1)).positivity, 4);
    assert_eq!(s.toward(npc(3)).positivity, -29);
    // Shorter rounds take as long on the whole: a step of 4 takes about 40
    // rounds of a tenth of a second, and many more than 4.
    let mut rounds = 0;
    while s.toward(npc(1)).positivity == 4 {
        s.decay(&mut rng, 100);
        rounds += 1;
        assert!(rounds < 10_000);
    }
    assert_eq!(s.toward(npc(1)).positivity, 3);
    // At most a step in a round, however long it is.
    s.set(npc(4), Sentiment { positivity: 3 });
    s.decay(&mut rng, u32::MAX);
    assert_eq!(s.toward(npc(4)).positivity, 2);
    s.decay(&mut rng, u32::MAX);
    s.decay(&mut rng, u32::MAX);
    assert_eq!(s.toward(npc(4)).positivity, 0);
}
