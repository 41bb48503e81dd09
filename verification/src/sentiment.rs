//! Sentiments: what an actor feels toward another actor or a faction.
//!
//! A sentiment is one signed step count between -126 and 126 that stands for
//! a value between -1 and 1. Changes, caps and thresholds are given in
//! thousandths of that value.

use vstd::prelude::*;
use crate::ids::is_count_of;
use crate::ids::Actor;
use crate::ids::CharacterId;
use crate::ids::FactionId;
use crate::ids::NpcId;
use crate::rng::gen_ratio;

verus! {

/// A faction remembers more than a single character does.
pub const FACTION_MAX_SENTIMENTS: usize = 1024;

pub const NPC_MAX_SENTIMENTS: usize = 128;

/// Slows decay down: the higher, the slower.
pub const DECAY_TIME_FACTOR: u32 = 1;

/// Whom or what a sentiment is felt toward.
#[derive(Clone, Copy, Debug, PartialEq, Eq, Hash, Structural)]
pub enum Target {
    Character(CharacterId),
    Npc(NpcId),
    Faction(FactionId),
}

impl Target {
    /// The pair of integers under which a target is stored: its kind and its
    /// number.
    pub open spec fn key_spec(self) -> (u8, i128) {
        match self {
            Target::Character(c) => (0u8, c.0 as i128),
            Target::Npc(n) => (1u8, n.0 as i128),
            Target::Faction(f) => (2u8, f.0 as i128),
        }
    }

    /// The pair of integers under which a target is stored.
    pub fn key(&self) -> (k: (u8, i128))
        ensures
            k == self.key_spec(),
    {
        match *self {
            Target::Character(c) => (0u8, c.0 as i128),
            Target::Npc(n) => (1u8, n.0 as i128),
            Target::Faction(f) => (2u8, f.0 as i128),
        }
    }

    /// The target that is stored under `key`, if `key` is the key of a
    /// target.
    pub fn from_key(key: (u8, i128)) -> (t: Option<Self>)
        ensures
            match t {
                Some(t) => t.key_spec() == key,
                None => forall|t: Target| t.key_spec() != key,
            },
    {
        if key.0 == 0 && i64::MIN as i128 <= key.1 && key.1 <= i64::MAX as i128 {
            Some(Target::Character(CharacterId(key.1 as i64)))
        } else if key.0 == 1 && 0 <= key.1 && key.1 <= u64::MAX as i128 {
            Some(Target::Npc(NpcId(key.1 as u64)))
        } else if key.0 == 2 && 0 <= key.1 && key.1 <= u64::MAX as i128 {
            Some(Target::Faction(FactionId(key.1 as u64)))
        } else {
            None
        }
    }

    /// Different targets are stored under different keys.
    pub proof fn lemma_key_is_injective(a: Target, b: Target)
        requires
            a.key_spec() == b.key_spec(),
        ensures
            a == b,
    {
    }
}

impl From<NpcId> for Target {
    fn from(npc: NpcId) -> (t: Self) {
        Target::Npc(npc)
    }
}

impl vstd::std_specs::convert::FromSpecImpl<NpcId> for Target {
    open spec fn obeys_from_spec() -> bool {
        true
    }

    open spec fn from_spec(npc: NpcId) -> Self {
        Target::Npc(npc)
    }
}

impl From<FactionId> for Target {
    fn from(faction: FactionId) -> (t: Self) {
        Target::Faction(faction)
    }
}

impl vstd::std_specs::convert::FromSpecImpl<FactionId> for Target {
    open spec fn obeys_from_spec() -> bool {
        true
    }

    open spec fn from_spec(faction: FactionId) -> Self {
        Target::Faction(faction)
    }
}

impl From<CharacterId> for Target {
    fn from(character: CharacterId) -> (t: Self) {
        Target::Character(character)
    }
}

impl vstd::std_specs::convert::FromSpecImpl<CharacterId> for Target {
    open spec fn obeys_from_spec() -> bool {
        true
    }

    open spec fn from_spec(character: CharacterId) -> Self {
        Target::Character(character)
    }
}

impl From<Actor> for Target {
    fn from(actor: Actor) -> (t: Self) {
        match actor {
            Actor::Character(character) => Target::Character(character),
            Actor::Npc(npc) => Target::Npc(npc),
        }
    }
}

impl vstd::std_specs::convert::FromSpecImpl<Actor> for Target {
    open spec fn obeys_from_spec() -> bool {
        true
    }

    open spec fn from_spec(actor: Actor) -> Self {
        match actor {
            Actor::Character(character) => Target::Character(character),
            Actor::Npc(npc) => Target::Npc(npc),
        }
    }
}

/// Absolute value.
pub open spec fn magnitude(v: int) -> int {
    if v < 0 {
        -v
    } else {
        v
    }
}

/// The number of steps by which a change of `change` thousandths moves a
/// sentiment: at least one, so that no change is too small to be felt, and at
/// most the whole range.
pub open spec fn change_steps(change: int) -> int {
    let steps = magnitude(change) * 126 / 1000;
    if steps < 1 {
        1
    } else if steps > 126 {
        126
    } else {
        steps
    }
}

/// The number of steps that a cap of `cap` thousandths allows, in either
/// direction.
pub open spec fn cap_steps(cap: int) -> int {
    let bounded = if magnitude(cap) > 1000 {
        1000
    } else {
        magnitude(cap)
    };
    bounded * 126 / 1000
}

/// The step count `p` after a change of `change` thousandths, capped at `cap`
/// thousandths.
pub open spec fn changed(p: int, change: int, cap: int) -> int {
    if change > 0 {
        let raised = if p + change_steps(change) > 127 {
            127
        } else {
            p + change_steps(change)
        };
        if raised < cap_steps(cap) {
            raised
        } else {
            cap_steps(cap)
        }
    } else if change < 0 {
        let lowered = if p - change_steps(change) < -128 {
            -128
        } else {
            p - change_steps(change)
        };
        if lowered > -cap_steps(cap) {
            lowered
        } else {
            -cap_steps(cap)
        }
    } else {
        p
    }
}

/// The step count `p` one step nearer to zero.
pub open spec fn toward_zero(p: int) -> int {
    if p > 0 {
        p - 1
    } else if p < 0 {
        p + 1
    } else {
        0
    }
}

/// The step count `p` after one round of decay in which the draw came out as
/// `hit`.
pub open spec fn decayed(p: int, hit: bool) -> int {
    if hit {
        toward_zero(p)
    } else {
        p
    }
}

/// What slows the decay of a sentiment of `p` steps down: the time in
/// milliseconds that a round must stand for to let it decay for certain, a
/// second for each step, times the square of [`DECAY_TIME_FACTOR`].
pub open spec fn decay_slowness(p: int) -> int {
    magnitude(p) * 1000 * DECAY_TIME_FACTOR * DECAY_TIME_FACTOR
}

/// The chance that a sentiment of `p` steps decays in a round that stands for
/// `dt` milliseconds, as the ratio of the first to the second number: `dt` to
/// [`decay_slowness`], and never more than 1. The longer the round and the
/// weaker the sentiment, the likelier the step; in a round of no time nothing
/// decays but what is neutral.
pub open spec fn decay_odds(p: int, dt: int) -> (int, int) {
    if dt >= decay_slowness(p) {
        (1, 1)
    } else {
        (dt, decay_slowness(p))
    }
}

/// Whether the odds `odds` are those of a step that is sure to be taken.
pub open spec fn is_certain(odds: (int, int)) -> bool {
    odds.0 == odds.1
}

/// Whether the odds `odds` are those of a step that cannot be taken.
pub open spec fn is_impossible(odds: (int, int)) -> bool {
    odds.0 == 0
}

/// The step count `p` after rounds of decay whose draws came out as `hits`.
pub open spec fn decayed_all(p: int, hits: Seq<bool>) -> int
    decreases hits.len(),
{
    if hits.len() == 0 {
        p
    } else {
        decayed(decayed_all(p, hits.drop_last()), hits.last())
    }
}

/// The step count 0 after the changes `changes`, each capped at `cap`.
pub open spec fn changed_all(changes: Seq<int>, cap: int) -> int
    decreases changes.len(),
{
    if changes.len() == 0 {
        0
    } else {
        changed(changed_all(changes.drop_last(), cap), changes.last(), cap)
    }
}

/// How often `true` occurs in `hits`.
pub open spec fn count_hits(hits: Seq<bool>) -> int
    decreases hits.len(),
{
    if hits.len() == 0 {
        0
    } else {
        count_hits(hits.drop_last()) + if hits.last() {
            1int
        } else {
            0int
        }
    }
}

/// One sentiment.
#[derive(Clone, Copy, Debug, PartialEq, Eq, Structural)]
pub struct Sentiment {
    /// How positive the sentiment is, in steps of 1/126.
    pub positivity: i8,
}

impl Default for Sentiment {
    fn default() -> (s: Self)
        ensures
            s.positivity == 0,
    {
        Sentiment { positivity: 0 }
    }
}

impl Sentiment {
    /// Minor positive sentiments: more willing to help, better deals.
    pub const POSITIVE: i32 = 100;

    /// Minor negative sentiments: less willing to help, worse deals.
    pub const NEGATIVE: i32 = -100;

    /// Substantial positive sentiments: goes out of their way to help.
    pub const ALLY: i32 = 300;

    /// Substantial negative sentiments: avoids and insults, without force.
    pub const RIVAL: i32 = -300;

    /// Very positive sentiments: may join as a companion.
    pub const FRIEND: i32 = 600;

    /// Very negative sentiments: may confront and use force.
    pub const ENEMY: i32 = -600;

    /// Extremely positive sentiments: protects at all costs.
    pub const HERO: i32 = 800;

    /// Extremely negative sentiments: hunts down.
    pub const VILLAIN: i32 = -800;

    /// Whether the sentiment has reached the threshold `val`, given in
    /// thousandths: is at least `val` where `val` is positive, at most `val`
    /// where it is not.
    pub open spec fn reaches(self, val: int) -> bool {
        if val > 0 {
            self.positivity * 1000 >= val * 126
        } else {
            self.positivity * 1000 <= val * 126
        }
    }

    /// The sentiment's value in thousandths, rounded toward zero.
    pub fn value(&self) -> (v: i32)
        ensures
            v == crate::geom::div_toward_zero(self.positivity * 1000, 126),
            -1016 <= v <= 1008,
    {
        let p: i32 = self.positivity as i32;
        if p >= 0 {
            (p * 1000) / 126
        } else {
            -(((-p) * 1000) / 126)
        }
    }

    /// Changes the sentiment by `change` thousandths, in the direction of its
    /// sign and by at least one step, without leaving the range that `cap`
    /// thousandths allows on that side.
    pub fn change_by(&mut self, change: i32, cap: i32)
        ensures
            final(self).positivity == changed(old(self).positivity as int, change as int, cap as int),
            change > 0 ==> final(self).positivity <= cap_steps(cap as int),
            change < 0 ==> final(self).positivity >= -cap_steps(cap as int),
            magnitude(old(self).positivity as int) <= cap_steps(cap as int) ==> {
                &&& magnitude(final(self).positivity as int) <= cap_steps(cap as int)
                &&& change > 0 ==> final(self).positivity >= old(self).positivity
                &&& change < 0 ==> final(self).positivity <= old(self).positivity
            },
    {
        if change != 0 {
            let mag: i64 = if change < 0 {
                -(change as i64)
            } else {
                change as i64
            };
            let raw: i64 = mag * 126 / 1000;
            let steps: i16 = if raw < 1 {
                1
            } else if raw > 126 {
                126
            } else {
                raw as i16
            };
            let cap_mag: i64 = if cap < 0 {
                -(cap as i64)
            } else {
                cap as i64
            };
            let bounded: i64 = if cap_mag > 1000 {
                1000
            } else {
                cap_mag
            };
            let limit: i16 = (bounded * 126 / 1000) as i16;
            let p: i16 = self.positivity as i16;
            if change > 0 {
                let raised: i16 = if p + steps > 127 {
                    127
                } else {
                    p + steps
                };
                self.positivity = if raised < limit {
                    raised as i8
                } else {
                    limit as i8
                };
            } else {
                let lowered: i16 = if p - steps < -128 {
                    -128
                } else {
                    p - steps
                };
                self.positivity = if lowered > -limit {
                    lowered as i8
                } else {
                    (-limit) as i8
                };
            }
        }
    }

    /// One round of decay whose draw came out as `hit`: on a hit the
    /// sentiment moves one step toward neutral.
    pub fn decay_with(&mut self, hit: bool)
        ensures
            final(self).positivity == decayed(old(self).positivity as int, hit),
            magnitude(final(self).positivity as int) <= magnitude(old(self).positivity as int),
    {
        if hit {
            if self.positivity > 0 {
                self.positivity = self.positivity - 1;
            } else if self.positivity < 0 {
                self.positivity = self.positivity + 1;
            }
        }
    }

    /// Return `true` if the sentiment can be forgotten without changing
    /// anything: it is neutral.
    pub fn is_redundant(&self) -> (b: bool)
        ensures
            b == (self.positivity == 0),
    {
        self.positivity == 0
    }

    /// Returns `true` if the sentiment has reached the threshold `val`, given
    /// in thousandths.
    pub fn is(&self, val: i32) -> (b: bool)
        ensures
            b == self.reaches(val as int),
    {
        let lhs: i64 = self.positivity as i64 * 1000;
        let rhs: i64 = val as i64 * 126;
        if val > 0 {
            lhs >= rhs
        } else {
            lhs <= rhs
        }
    }
}

/// The stored sentiments of one actor or faction: a `hashbrown::HashMap` from
/// a target's key to a step count.
#[verifier::external_body]
pub struct SentimentTable {
    map: hashbrown::HashMap<(u8, i128), i8>,
}

/// What a table holds: the step count stored under each key.
pub uninterp spec fn table_entries(t: SentimentTable) -> Map<(u8, i128), i8>;

/// `HashMap::new`: a table that holds nothing.
#[verifier::external_body]
pub(crate) fn table_new() -> (table: SentimentTable)
    ensures
        table_entries(table) =~= Map::empty(),
{
    SentimentTable { map: hashbrown::HashMap::new() }
}

/// `HashMap::len`: the number of keys, of which there are finitely many.
#[verifier::external_body]
pub(crate) fn table_len(t: &SentimentTable) -> (n: usize)
    ensures
        is_count_of(n as int, table_entries(*t).dom()),
{
    t.map.len()
}

/// `HashMap::get`: the step count stored under `key`, if there is one.
#[verifier::external_body]
pub(crate) fn table_get(t: &SentimentTable, key: (u8, i128)) -> (r: Option<i8>)
    ensures
        r == (if table_entries(*t).dom().contains(key) {
            Some(table_entries(*t)[key])
        } else {
            None
        }),
{
    t.map.get(&key).copied()
}

/// `HashMap::insert`: afterwards `value` is stored under `key`, and every
/// other key holds what it held.
#[verifier::external_body]
pub(crate) fn table_insert(t: &mut SentimentTable, key: (u8, i128), value: i8)
    ensures
        table_entries(*final(t)) == table_entries(*old(t)).insert(key, value),
{
    t.map.insert(key, value);
}

/// `HashMap::remove`: afterwards nothing is stored under `key`, and every
/// other key holds what it held.
#[verifier::external_body]
pub(crate) fn table_remove(t: &mut SentimentTable, key: (u8, i128))
    ensures
        table_entries(*final(t)) == table_entries(*old(t)).remove(key),
{
    t.map.remove(&key);
}

/// `HashMap::keys`: every key of the table once, in an order that is not
/// specified.
#[verifier::external_body]
pub(crate) fn table_keys(t: &SentimentTable) -> (keys: Vec<(u8, i128)>)
    ensures
        keys@.no_duplicates(),
        forall|k: (u8, i128)| keys@.contains(k) <==> table_entries(*t).dom().contains(k),
{
    t.map.keys().copied().collect()
}

/// `HashMap::clone`: a table that holds what `t` holds.
#[verifier::external_body]
pub(crate) fn table_clone(t: &SentimentTable) -> (copy: SentimentTable)
    ensures
        table_entries(copy) == table_entries(*t),
{
    SentimentTable { map: t.map.clone() }
}

/// What is stored under `key` after a round of decay whose draw came out as
/// `hit`: the decayed step count, or nothing once it is neutral.
pub open spec fn entry_after_decay(p: i8, hit: bool) -> Option<i8> {
    if decayed(p as int, hit) == 0 {
        None
    } else {
        Some(decayed(p as int, hit) as i8)
    }
}

/// What `m` holds under `key`, if anything.
pub open spec fn entry(m: Map<(u8, i128), i8>, key: (u8, i128)) -> Option<i8> {
    if m.dom().contains(key) {
        Some(m[key])
    } else {
        None
    }
}

/// Whether what is stored under a key after a round of decay over `dt`
/// milliseconds, `after`, can be what the round leaves of the step count `p`:
/// the count one step nearer to neutral, unless that step was impossible, or
/// the count as it was, unless the step was certain; nothing where that is
/// neutral.
pub open spec fn is_decayed_entry(p: i8, after: Option<i8>, dt: int) -> bool {
    ||| after == entry_after_decay(p, true) && !is_impossible(decay_odds(p as int, dt))
    ||| after == entry_after_decay(p, false) && !is_certain(decay_odds(p as int, dt))
}

/// Whether `new` can be what a round of decay over `dt` milliseconds leaves of
/// `old`: nothing has come in, and every entry has decayed by one step or
/// stayed as it was, as far as its odds allow either; what is or became
/// neutral has gone.
pub open spec fn is_decay_of(old: Map<(u8, i128), i8>, new: Map<(u8, i128), i8>, dt: int) -> bool {
    &&& forall|k: (u8, i128)| new.dom().contains(k) ==> old.dom().contains(k)
    &&& forall|k: (u8, i128)| #[trigger]
        old.dom().contains(k) ==> is_decayed_entry(old[k], entry(new, k), dt)
}

/// Whether `new` is what a clean-up down to `max` entries leaves of `old`:
/// nothing where `old` is no larger; else `max` of its entries, none of them
/// weaker than one that has gone.
pub open spec fn is_cleanup_of(old: Map<(u8, i128), i8>, new: Map<(u8, i128), i8>, max: int) -> bool {
    if old.dom().len() <= max {
        new == old
    } else {
        &&& new.dom().finite()
        &&& new.dom().len() == max
        &&& forall|k: (u8, i128)| #[trigger]
            new.dom().contains(k) ==> old.dom().contains(k) && new[k] == old[k]
        &&& forall|gone: (u8, i128), kept: (u8, i128)|
            old.dom().contains(gone) && !new.dom().contains(gone) && new.dom().contains(kept)
                ==> magnitude(old[gone] as int) <= magnitude(old[kept] as int)
    }
}

/// Whether the key `k` is in the list of `buckets` for the strength of what
/// `m` holds under it.
pub open spec fn is_in_bucket(m: Map<(u8, i128), i8>, buckets: Seq<Vec<(u8, i128)>>, k: (u8, i128)) -> bool {
    exists|i: int|
        0 <= i < buckets[magnitude(m[k] as int)]@.len() && buckets[magnitude(m[k] as int)]@[i]
            == k
}

/// Whether `buckets` holds the keys of `m` sorted by strength: one list for
/// each strength from 0 to 128, each key of `m` in the list of the strength
/// of what is stored under it, and nothing else in the lists.
pub open spec fn is_sorted_by_strength(m: Map<(u8, i128), i8>, buckets: Seq<Vec<(u8, i128)>>) -> bool {
    &&& buckets.len() == 129
    &&& forall|b: int, i: int|
        0 <= b < 129 && 0 <= i < buckets[b]@.len() ==> m.dom().contains(#[trigger] buckets[b]@[i])
            && magnitude(m[buckets[b]@[i]] as int) == b
    &&& forall|k: (u8, i128)| m.dom().contains(k) ==> #[trigger] is_in_bucket(m, buckets, k)
}

/// All that one actor or faction feels.
pub struct Sentiments {
    pub map: SentimentTable,
}

impl Default for Sentiments {
    fn default() -> (s: Self)
        ensures
            s.entries() == Map::<(u8, i128), i8>::empty(),
    {
        Sentiments { map: table_new() }
    }
}

impl Clone for Sentiments {
    /// A copy that holds the same sentiments.
    fn clone(&self) -> (copy: Self)
        ensures
            copy.entries() == self.entries(),
    {
        Sentiments { map: table_clone(&self.map) }
    }
}

impl Sentiments {
    /// The step count stored for each target's key. A target without an
    /// entry is felt neutrally about.
    pub open spec fn entries(&self) -> Map<(u8, i128), i8> {
        table_entries(self.map)
    }

    /// The sentiment felt toward `target`.
    pub open spec fn toward_spec(&self, target: Target) -> Sentiment {
        match entry(self.entries(), target.key_spec()) {
            Some(p) => Sentiment { positivity: p },
            None => Sentiment { positivity: 0 },
        }
    }

    /// Stores `sentiment` as what is felt toward `target`, in place of what
    /// was stored.
    pub fn set(&mut self, target: Target, sentiment: Sentiment)
        ensures
            final(self).entries() == old(self).entries().insert(
                target.key_spec(),
                sentiment.positivity,
            ),
    {
        table_insert(&mut self.map, target.key(), sentiment.positivity);
    }

    /// The stored sentiments, each with its target, in no stated order:
    /// every target that a sentiment is stored for occurs once.
    pub fn list(&self) -> (out: Vec<(Target, Sentiment)>)
        ensures
            forall|i: int|
                0 <= i < out@.len() ==> self.entries().dom().contains(
                    (#[trigger] out@[i]).0.key_spec(),
                ) && out@[i].1.positivity == self.entries()[out@[i].0.key_spec()],
            forall|i: int, j: int| 0 <= i < j < out@.len() ==> out@[i].0 != out@[j].0,
            forall|t: Target|
                self.entries().dom().contains(t.key_spec()) ==> exists|i: int|
                    0 <= i < out@.len() && (#[trigger] out@[i]).0 == t,
    {
        let keys = table_keys(&self.map);
        let mut out: Vec<(Target, Sentiment)> = Vec::new();
        let mut i: usize = 0;
        while i < keys.len()
            invariant
                i <= keys.len(),
                keys@.no_duplicates(),
                forall|k: (u8, i128)| keys@.contains(k) <==> self.entries().dom().contains(k),
                forall|r: int|
                    0 <= r < out@.len() ==> self.entries().dom().contains(
                        (#[trigger] out@[r]).0.key_spec(),
                    ) && out@[r].1.positivity == self.entries()[out@[r].0.key_spec()]
                        && exists|j: int| 0 <= j < i && keys@[j] == out@[r].0.key_spec(),
                forall|a: int, b: int| 0 <= a < b < out@.len() ==> out@[a].0 != out@[b].0,
                forall|j: int, t: Target|
                    0 <= j < i && #[trigger] keys@[j] == #[trigger] t.key_spec() ==> exists|r: int|
                        0 <= r < out@.len() && (#[trigger] out@[r]).0 == t,
            decreases keys.len() - i,
        {
            let key = keys[i];
            assert(keys@.contains(key));
            let ghost prior = out@;
            match Target::from_key(key) {
                Some(t) => {
                    let positivity = match table_get(&self.map, key) {
                        Some(p) => p,
                        None => 0,
                    };
                    out.push((t, Sentiment { positivity }));
                    proof {
                        assert forall|a: int, b: int| 0 <= a < b < out@.len() implies out@[a].0
                            != out@[b].0 by {
                            if b == prior.len() {
                                let j = choose|j: int|
                                    0 <= j < i && keys@[j] == prior[a].0.key_spec();
                                assert(keys@[j] != keys@[i as int]);
                            }
                        }
                        assert forall|j: int, u: Target|
                            0 <= j < i + 1 && #[trigger] keys@[j]
                                == #[trigger] u.key_spec() implies exists|r: int|
                            0 <= r < out@.len() && (#[trigger] out@[r]).0 == u by {
                            if j < i {
                                let r = choose|r: int|
                                    0 <= r < prior.len() && (#[trigger] prior[r]).0 == u;
                                assert(out@[r] == prior[r]);
                            } else {
                                Target::lemma_key_is_injective(t, u);
                                assert(out@[prior.len() as int].0 == u);
                            }
                        }
                        assert forall|r: int| 0 <= r < out@.len() implies self.entries().dom().contains(
                            (#[trigger] out@[r]).0.key_spec(),
                        ) && out@[r].1.positivity == self.entries()[out@[r].0.key_spec()]
                            && exists|j: int| 0 <= j < i + 1 && keys@[j] == out@[r].0.key_spec() by {
                            if r < prior.len() {
                                assert(out@[r] == prior[r]);
                                let j = choose|j: int|
                                    0 <= j < i && keys@[j] == prior[r].0.key_spec();
                                assert(0 <= j < i + 1);
                            } else {
                                assert(keys@[i as int] == out@[r].0.key_spec());
                            }
                        }
                    }
                },
                None => {},
            }
            i = i + 1;
        }
        proof {
            assert forall|t: Target| self.entries().dom().contains(t.key_spec()) implies exists|
                r: int,
            |
                0 <= r < out@.len() && (#[trigger] out@[r]).0 == t by {
                assert(keys@.contains(t.key_spec()));
                let j = choose|j: int| 0 <= j < keys@.len() && keys@[j] == t.key_spec();
                assert(keys@[j] == t.key_spec());
            }
        }
        out
    }

    /// The number of stored sentiments.
    pub fn len(&self) -> (n: usize)
        ensures
            self.entries().dom().finite(),
            n == self.entries().dom().len(),
    {
        table_len(&self.map)
    }

    /// Return the sentiment that is felt toward the given target: neutral
    /// where none is stored.
    pub fn toward(&self, target: Target) -> (s: Sentiment)
        ensures
            s == self.toward_spec(target),
    {
        match table_get(&self.map, target.key()) {
            Some(p) => Sentiment { positivity: p },
            None => Sentiment { positivity: 0 },
        }
    }

    /// Change the sentiment toward the given target by the given amount,
    /// capping out at the given value, both in thousandths. The result is
    /// stored, also where it is neutral.
    pub fn change_by(&mut self, target: Target, change: i32, cap: i32)
        ensures
            final(self).entries() == old(self).entries().insert(
                target.key_spec(),
                changed(old(self).toward_spec(target).positivity as int, change as int, cap as int) as i8,
            ),
            final(self).toward_spec(target).positivity == changed(
                old(self).toward_spec(target).positivity as int,
                change as int,
                cap as int,
            ),
    {
        let mut s = self.toward(target);
        s.change_by(change, cap);
        table_insert(&mut self.map, target.key(), s.positivity);
    }

    /// One round of decay for what is stored under `key`, with a draw that
    /// came out as `hit`. An entry that is or becomes neutral is removed.
    pub fn decay_entry(&mut self, key: (u8, i128), hit: bool)
        ensures
            !old(self).entries().dom().contains(key) ==> final(self).entries() == old(
                self,
            ).entries(),
            old(self).entries().dom().contains(key) ==> final(self).entries() == (
            match entry_after_decay(old(self).entries()[key], hit) {
                Some(p) => old(self).entries().insert(key, p),
                None => old(self).entries().remove(key),
            }),
    {
        match table_get(&self.map, key) {
            Some(p) => {
                let mut s = Sentiment { positivity: p };
                s.decay_with(hit);
                if s.is_redundant() {
                    table_remove(&mut self.map, key);
                } else {
                    table_insert(&mut self.map, key, s.positivity);
                }
            },
            None => {},
        }
    }

    /// Progressively decay the sentiments back to neutral, and forget those
    /// that are neutral.
    ///
    /// `dt` is the time that the round stands for, in milliseconds. Each
    /// sentiment moves one step toward neutral with the chance that
    /// [`decay_odds`] gives: the longer the round, the likelier, and the
    /// stronger the sentiment, the less likely. On average a sentiment of `p`
    /// steps takes about `p * p / 2` seconds to become neutral, however the
    /// time is cut into rounds of less than a second.
    pub fn decay(&mut self, rng: &mut rand_chacha::ChaCha20Rng, dt: u32)
        ensures
            is_decay_of(old(self).entries(), final(self).entries(), dt as int),
    {
        let keys = table_keys(&self.map);
        let ghost before = self.entries();
        let mut i: usize = 0;
        assert forall|j: int| 0 <= j < keys.len() implies entry(
            self.entries(),
            #[trigger] keys[j],
        ) == Some(before[keys[j]]) by {
            assert(keys@.contains(keys[j]));
        }
        while i < keys.len()
            invariant
                i <= keys.len(),
                keys@.no_duplicates(),
                forall|k: (u8, i128)| keys@.contains(k) <==> before.dom().contains(k),
                forall|k: (u8, i128)| self.entries().dom().contains(k) ==> before.dom().contains(k),
                forall|j: int|
                    i <= j < keys.len() ==> entry(self.entries(), #[trigger] keys[j]) == Some(
                        before[keys[j]],
                    ),
                forall|j: int|
                    0 <= j < i ==> is_decayed_entry(
                        before[#[trigger] keys[j]],
                        entry(self.entries(), keys[j]),
                        dt as int,
                    ),
            decreases keys.len() - i,
        {
            let key = keys[i];
            assert(keys@.contains(key));
            let p = match table_get(&self.map, key) {
                Some(p) => p,
                None => 0,
            };
            assert(p == before[key]);
            let hit = draw_decay(rng, p, dt);
            let ghost mid = self.entries();
            self.decay_entry(key, hit);
            assert forall|j: int| i < j < keys.len() implies entry(
                self.entries(),
                #[trigger] keys[j],
            ) == Some(before[keys[j]]) by {
                assert(keys[j] != key);
                assert(entry(mid, keys[j]) == Some(before[keys[j]]));
            }
            assert forall|j: int| 0 <= j < i implies is_decayed_entry(
                before[#[trigger] keys[j]],
                entry(self.entries(), keys[j]),
                dt as int,
            ) by {
                assert(keys[j] != key);
                assert(entry(self.entries(), keys[j]) == entry(mid, keys[j]));
            }
            i = i + 1;
        }
        assert forall|k: (u8, i128)| #[trigger] before.dom().contains(k) implies is_decayed_entry(
            before[k],
            entry(self.entries(), k),
            dt as int,
        ) by {
            assert(keys@.contains(k));
            let j = choose|j: int| 0 <= j < keys.len() && keys[j] == k;
            assert(keys[j] == k);
        }
    }

    /// Clean up sentiments to keep them from growing too many: where more
    /// than `max_sentiments` are stored, the weakest are forgotten until that
    /// many are left.
    ///
    /// The keys are sorted into one list for each strength, and the lists
    /// are emptied from the weakest on: the work grows with the number of
    /// sentiments, not with its square.
    pub fn cleanup(&mut self, max_sentiments: usize)
        ensures
            old(self).entries().dom().finite(),
            is_cleanup_of(old(self).entries(), final(self).entries(), max_sentiments as int),
    {
        let ghost before = self.entries();
        let keys = table_keys(&self.map);
        let len = keys.len();
        proof {
            assert(before.dom() =~= keys@.to_set());
            keys@.unique_seq_to_set();
        }
        if len > max_sentiments {
            let excess = len - max_sentiments;
            let buckets = self.by_strength(&keys);
            let mut done: usize = 0;
            let mut m: usize = 0;
            while m < 129 && done < excess
                invariant
                    m <= 129,
                    done <= excess,
                    excess == len - max_sentiments,
                    len == before.dom().len(),
                    before.dom().finite(),
                    is_sorted_by_strength(before, buckets@),
                    self.entries().dom().finite(),
                    self.entries().dom().len() == len - done,
                    forall|k: (u8, i128)| #[trigger]
                        self.entries().dom().contains(k) ==> before.dom().contains(k)
                            && self.entries()[k] == before[k],
                    forall|gone: (u8, i128), kept: (u8, i128)|
                        before.dom().contains(gone) && !self.entries().dom().contains(gone)
                            && self.entries().dom().contains(kept) ==> magnitude(
                            before[gone] as int,
                        ) <= magnitude(before[kept] as int),
                    done < excess ==> forall|k: (u8, i128)|
                        self.entries().dom().contains(k) ==> magnitude(#[trigger] before[k] as int)
                            >= m,
                    done < excess ==> forall|gone: (u8, i128)|
                        before.dom().contains(gone) && !self.entries().dom().contains(gone)
                            ==> magnitude(#[trigger] before[gone] as int) < m,
                decreases 129 - m,
            {
                let bucket = &buckets[m];
                let mut i: usize = 0;
                while i < bucket.len() && done < excess
                    invariant
                        m < 129,
                        i <= bucket@.len(),
                        bucket@ == buckets@[m as int]@,
                        done <= excess,
                        excess == len - max_sentiments,
                        len == before.dom().len(),
                        before.dom().finite(),
                        is_sorted_by_strength(before, buckets@),
                        self.entries().dom().finite(),
                        self.entries().dom().len() == len - done,
                        forall|k: (u8, i128)| #[trigger]
                            self.entries().dom().contains(k) ==> before.dom().contains(k)
                                && self.entries()[k] == before[k],
                        forall|k: (u8, i128)|
                            self.entries().dom().contains(k) ==> magnitude(
                                #[trigger] before[k] as int,
                            ) >= m,
                        forall|gone: (u8, i128)|
                            before.dom().contains(gone) && !self.entries().dom().contains(gone)
                                ==> magnitude(#[trigger] before[gone] as int) <= m,
                        forall|j: int|
                            0 <= j < i ==> !self.entries().dom().contains(#[trigger] bucket@[j]),
                    decreases bucket@.len() - i,
                {
                    let key = bucket[i];
                    if table_get(&self.map, key).is_some() {
                        table_remove(&mut self.map, key);
                        done = done + 1;
                    }
                    i = i + 1;
                }
                proof {
                    if done < excess {
                        // The list of this strength is empty now: whatever is
                        // left is stronger.
                        assert forall|k: (u8, i128)|
                            self.entries().dom().contains(k) implies magnitude(
                            #[trigger] before[k] as int,
                        ) >= m + 1 by {
                            if magnitude(before[k] as int) == m {
                                assert(before.dom().contains(k));
                                assert(is_in_bucket(before, buckets@, k));
                                let j = choose|j: int|
                                    0 <= j < buckets@[m as int]@.len() && buckets@[m as int]@[j]
                                        == k;
                                assert(!self.entries().dom().contains(bucket@[j]));
                            }
                        }
                    }
                }
                m = m + 1;
            }
            proof {
                if done < excess {
                    let left = self.entries().dom();
                    assert(left.len() > 0);
                    let k = left.choose();
                    assert(left.contains(k));
                    assert(magnitude(before[k] as int) >= 129);
                }
            }
        }
    }

    /// The keys `keys` of the stored sentiments, sorted into one list for
    /// each strength from 0 to 128.
    fn by_strength(&self, keys: &Vec<(u8, i128)>) -> (buckets: Vec<Vec<(u8, i128)>>)
        requires
            forall|k: (u8, i128)| keys@.contains(k) <==> self.entries().dom().contains(k),
        ensures
            is_sorted_by_strength(self.entries(), buckets@),
    {
        let mut buckets: Vec<Vec<(u8, i128)>> = Vec::new();
        let mut m: usize = 0;
        while m < 129
            invariant
                m <= 129,
                buckets@.len() == m,
                forall|b: int| 0 <= b < m ==> (#[trigger] buckets@[b])@.len() == 0,
            decreases 129 - m,
        {
            buckets.push(Vec::new());
            m = m + 1;
        }
        let mut j: usize = 0;
        while j < keys.len()
            invariant
                j <= keys.len(),
                buckets@.len() == 129,
                forall|k: (u8, i128)| keys@.contains(k) <==> self.entries().dom().contains(k),
                forall|b: int, i: int|
                    0 <= b < 129 && 0 <= i < buckets@[b]@.len() ==> self.entries().dom().contains(
                        #[trigger] buckets@[b]@[i],
                    ) && magnitude(self.entries()[buckets@[b]@[i]] as int) == b,
                forall|jj: int|
                    0 <= jj < j ==> is_in_bucket(self.entries(), buckets@, #[trigger] keys@[jj]),
            decreases keys.len() - j,
        {
            let key = keys[j];
            assert(keys@.contains(key));
            let p = match table_get(&self.map, key) {
                Some(p) => p,
                None => 0,
            };
            let mag: usize = if p < 0 {
                (-(p as i16)) as usize
            } else {
                p as usize
            };
            let ghost prior = buckets@;
            buckets[mag].push(key);
            proof {
                assert(buckets@.len() == 129);
                assert(buckets@[mag as int]@ == prior[mag as int]@.push(key));
                assert(forall|b: int| 0 <= b < 129 && b != mag ==> buckets@[b] == prior[b]);
                assert forall|jj: int| 0 <= jj < j + 1 implies is_in_bucket(
                    self.entries(),
                    buckets@,
                    #[trigger] keys@[jj],
                ) by {
                    let k = keys@[jj];
                    assert(keys@.contains(k));
                    let b = magnitude(self.entries()[k] as int);
                    if jj < j {
                        assert(is_in_bucket(self.entries(), prior, k));
                        let i = choose|i: int| 0 <= i < prior[b]@.len() && prior[b]@[i] == k;
                        assert(buckets@[b]@[i] == k);
                    } else {
                        assert(buckets@[b]@[prior[b]@.len() as int] == k);
                    }
                }
            }
            j = j + 1;
        }
        proof {
            assert forall|k: (u8, i128)| self.entries().dom().contains(k) implies is_in_bucket(
                self.entries(),
                buckets@,
                k,
            ) by {
                assert(keys@.contains(k));
                let jj = choose|jj: int| 0 <= jj < keys@.len() && keys@[jj] == k;
                assert(is_in_bucket(self.entries(), buckets@, keys@[jj]));
            }
        }
        buckets
    }

    /// The key of a weakest stored sentiment, if any is stored.
    pub fn weakest(&self) -> (r: Option<(u8, i128)>)
        ensures
            match r {
                Some(key) => self.entries().dom().contains(key) && forall|k: (u8, i128)|
                    self.entries().dom().contains(k) ==> magnitude(self.entries()[key] as int)
                        <= magnitude(#[trigger] self.entries()[k] as int),
                None => self.entries().dom() == Set::<(u8, i128)>::empty(),
            },
    {
        let keys = table_keys(&self.map);
        if keys.len() == 0 {
            assert forall|k: (u8, i128)| !self.entries().dom().contains(k) by {
                assert(!keys@.contains(k));
            }
            assert(self.entries().dom() =~= Set::<(u8, i128)>::empty());
            return None;
        }
        let mut best: usize = 0;
        let mut best_mag: i16 = 129;
        let mut i: usize = 0;
        while i < keys.len()
            invariant
                i <= keys.len(),
                keys.len() > 0,
                best < keys.len(),
                forall|k: (u8, i128)| keys@.contains(k) <==> self.entries().dom().contains(k),
                i == 0 ==> best_mag == 129 && best == 0,
                i > 0 ==> best < i && best_mag == magnitude(self.entries()[keys[best as int]] as int),
                forall|j: int|
                    0 <= j < i ==> best_mag <= magnitude(
                        #[trigger] self.entries()[keys[j]] as int,
                    ),
            decreases keys.len() - i,
        {
            let key = keys[i];
            assert(keys@.contains(key));
            let p = match table_get(&self.map, key) {
                Some(p) => p,
                None => 0,
            };
            let mag: i16 = if p < 0 {
                -(p as i16)
            } else {
                p as i16
            };
            if mag < best_mag {
                best = i;
                best_mag = mag;
            }
            i = i + 1;
        }
        let key = keys[best];
        assert(keys@.contains(key));
        assert forall|k: (u8, i128)| self.entries().dom().contains(k) implies magnitude(
            self.entries()[key] as int,
        ) <= magnitude(#[trigger] self.entries()[k] as int) by {
            assert(keys@.contains(k));
            let j = choose|j: int| 0 <= j < keys.len() && keys[j] == k;
            assert(keys[j] == k);
        }
        Some(key)
    }
}

/// The chance that a sentiment of `p` steps decays in a round that stands for
/// `dt` milliseconds, as the ratio of the first to the second number: what
/// [`decay_odds`] says, and what is handed to the generator where the draw is
/// not certain.
pub fn decay_chance(p: i8, dt: u32) -> (odds: (u32, u32))
    ensures
        odds.0 == decay_odds(p as int, dt as int).0,
        odds.1 == decay_odds(p as int, dt as int).1,
        odds.0 <= odds.1,
        odds.1 > 0,
{
    let mag: u32 = if p < 0 {
        (-(p as i16)) as u32
    } else {
        p as u32
    };
    let slowness: u32 = mag * 1000 * DECAY_TIME_FACTOR * DECAY_TIME_FACTOR;
    if dt >= slowness {
        (1, 1)
    } else {
        (dt, slowness)
    }
}

/// Draws whether a sentiment of `p` steps decays in a round of `dt`
/// milliseconds, with the chance that [`decay_odds`] gives. Where that chance
/// is 1 the result is `true`, where it is 0 the result is `false`; else it
/// may be either.
pub fn draw_decay(rng: &mut rand_chacha::ChaCha20Rng, p: i8, dt: u32) -> (hit: bool)
    ensures
        is_certain(decay_odds(p as int, dt as int)) ==> hit,
        is_impossible(decay_odds(p as int, dt as int)) ==> !hit,
{
    let (numerator, denominator) = decay_chance(p, dt);
    if numerator == denominator {
        true
    } else {
        gen_ratio(rng, numerator, denominator)
    }
}

/// A round of decay over a store never strengthens a sentiment nor turns it
/// around, and leaves no neutral sentiment behind: what has become neutral
/// is absent from the store.
pub proof fn lemma_decay_only_weakens(
    old: Map<(u8, i128), i8>,
    new: Map<(u8, i128), i8>,
    dt: int,
    k: (u8, i128),
)
    requires
        is_decay_of(old, new, dt),
        new.dom().contains(k),
    ensures
        old.dom().contains(k),
        new[k] != 0,
        magnitude(new[k] as int) <= magnitude(old[k] as int),
        old[k] > 0 ==> new[k] > 0,
        old[k] < 0 ==> new[k] < 0,
        toward_zero(old[k] as int) == 0 ==> new[k] == old[k],
{
    assert(old.dom().contains(k));
}

/// A sentiment that is neutral, or one step from neutral when its decay is
/// certain, is absent from the store after a round of decay.
pub proof fn lemma_decay_forgets(
    old: Map<(u8, i128), i8>,
    new: Map<(u8, i128), i8>,
    dt: int,
    k: (u8, i128),
)
    requires
        is_decay_of(old, new, dt),
        old.dom().contains(k),
        old[k] == 0 || (toward_zero(old[k] as int) == 0 && is_certain(
            decay_odds(old[k] as int, dt),
        )),
    ensures
        !new.dom().contains(k),
{
}

/// After a clean-up down to `max` entries a store holds no more than `max`,
/// and nothing that it did not hold before.
pub proof fn lemma_cleanup_bounds_count(old: Map<(u8, i128), i8>, new: Map<(u8, i128), i8>, max: int)
    requires
        is_cleanup_of(old, new, max),
    ensures
        new.dom().len() <= max,
        forall|k: (u8, i128)| new.dom().contains(k) ==> old.dom().contains(k) && new[k] == old[k],
{
}

/// Starting from neutral, no sequence of changes that are all capped at `cap`
/// thousandths leads beyond what the cap allows: the value stays within
/// `cap` on both sides, and within the range of the representation.
pub proof fn lemma_changes_stay_within_cap(changes: Seq<int>, cap: int)
    ensures
        magnitude(changed_all(changes, cap)) <= cap_steps(cap),
        cap_steps(cap) <= 126,
        cap_steps(cap) * 1000 <= magnitude(cap) * 126,
    decreases changes.len(),
{
    if changes.len() > 0 {
        lemma_changes_stay_within_cap(changes.drop_last(), cap);
    }
}

/// One change keeps a value within the cap that it was within before, and
/// moves it in the direction of the change or leaves it at the cap.
pub proof fn lemma_change_is_monotonic(p: int, change: int, cap: int)
    requires
        magnitude(p) <= cap_steps(cap),
    ensures
        magnitude(changed(p, change, cap)) <= cap_steps(cap),
        change > 0 ==> changed(p, change, cap) >= p && (changed(p, change, cap) > p || p
            == cap_steps(cap)),
        change < 0 ==> changed(p, change, cap) <= p && (changed(p, change, cap) < p || p
            == -cap_steps(cap)),
{
}

/// Decay never strengthens a sentiment nor turns it around, whatever the
/// draws: after any rounds the magnitude is what it was less the number of
/// hits, or zero if there were more hits than steps.
pub proof fn lemma_decay_counts_hits(p: int, hits: Seq<bool>)
    ensures
        magnitude(decayed_all(p, hits)) == if magnitude(p) > count_hits(hits) {
            magnitude(p) - count_hits(hits)
        } else {
            0
        },
        p >= 0 ==> decayed_all(p, hits) >= 0,
        p <= 0 ==> decayed_all(p, hits) <= 0,
        0 <= count_hits(hits) <= hits.len(),
    decreases hits.len(),
{
    if hits.len() > 0 {
        lemma_decay_counts_hits(p, hits.drop_last());
    }
}

/// Of two sentiments of the same sign that meet the same draws, the stronger
/// one stays at least as strong: it is neutral no sooner than the weaker one.
pub proof fn lemma_stronger_decays_no_sooner(strong: int, weak: int, hits: Seq<bool>)
    requires
        magnitude(strong) >= magnitude(weak),
    ensures
        magnitude(decayed_all(strong, hits)) >= magnitude(decayed_all(weak, hits)),
        decayed_all(strong, hits) == 0 ==> decayed_all(weak, hits) == 0,
{
    lemma_decay_counts_hits(strong, hits);
    lemma_decay_counts_hits(weak, hits);
}

/// Whether `stores` is what a store holds before, between and after rounds
/// of decay that stand for the times `dts`.
pub open spec fn is_decay_run(stores: Seq<Map<(u8, i128), i8>>, dts: Seq<int>) -> bool {
    &&& stores.len() == dts.len() + 1
    &&& forall|i: int|
        0 <= i < dts.len() ==> is_decay_of(stores[i], stores[i + 1], #[trigger] dts[i])
}

/// Decay takes at least a round for each step: a sentiment of `n` steps is
/// still stored after fewer than `n` rounds, whatever the draws and however
/// long the rounds, on the side that it was on, and has lost no more steps
/// than there were rounds. So a stronger sentiment never needs fewer rounds
/// to become neutral than the least that a weaker one needs.
pub proof fn lemma_decay_takes_a_round_per_step(
    stores: Seq<Map<(u8, i128), i8>>,
    dts: Seq<int>,
    k: (u8, i128),
)
    requires
        is_decay_run(stores, dts),
        stores[0].dom().contains(k),
        dts.len() < magnitude(stores[0][k] as int),
    ensures
        stores.last().dom().contains(k),
        magnitude(stores.last()[k] as int) >= magnitude(stores[0][k] as int) - dts.len(),
        magnitude(stores.last()[k] as int) <= magnitude(stores[0][k] as int),
        stores[0][k] > 0 ==> stores.last()[k] > 0,
        stores[0][k] < 0 ==> stores.last()[k] < 0,
    decreases dts.len(),
{
    if dts.len() > 0 {
        let shorter = stores.drop_last();
        let fewer = dts.drop_last();
        assert forall|i: int| 0 <= i < fewer.len() implies is_decay_of(
            shorter[i],
            shorter[i + 1],
            #[trigger] fewer[i],
        ) by {
            assert(is_decay_of(stores[i], stores[i + 1], dts[i]));
        }
        lemma_decay_takes_a_round_per_step(shorter, fewer, k);
        let last = dts.len() - 1;
        assert(shorter.last() == stores[last]);
        assert(is_decay_of(stores[last], stores[last + 1], dts[last]));
        assert(stores[last].dom().contains(k));
        assert(is_decayed_entry(stores[last][k], entry(stores[last + 1], k), dts[last]));
    }
}

/// In every round the stronger of two sentiments is no more likely to decay
/// than the weaker one.
pub proof fn lemma_stronger_decays_less_often(strong: int, weak: int, dt: int)
    requires
        magnitude(strong) >= magnitude(weak),
        dt >= 0,
    ensures
        decay_odds(strong, dt).0 * decay_odds(weak, dt).1 <= decay_odds(weak, dt).0 * decay_odds(
            strong,
            dt,
        ).1,
        0 <= decay_odds(strong, dt).0 <= decay_odds(strong, dt).1,
        0 < decay_odds(strong, dt).1,
{
    let s = decay_slowness(strong);
    let w = decay_slowness(weak);
    assert(s == magnitude(strong) * 1000);
    assert(w == magnitude(weak) * 1000);
    assert(dt * w <= dt * s) by (nonlinear_arith)
        requires
            0 <= w <= s,
            dt >= 0,
    ;
    let os = decay_odds(strong, dt);
    let ow = decay_odds(weak, dt);
    if dt >= s {
        assert(os == (1int, 1int) && ow == (1int, 1int));
    } else if dt >= w {
        assert(os == (dt, s) && ow == (1int, 1int));
        assert(os.0 * ow.1 == dt);
        assert(ow.0 * os.1 == s);
    } else {
        assert(os == (dt, s) && ow == (dt, w));
        assert(os.0 * ow.1 == dt * w);
        assert(ow.0 * os.1 == dt * s);
    }
}

/// The longer a round of decay stands for, the likelier a sentiment is to
/// decay in it: the chance grows with the time, up to certainty.
pub proof fn lemma_longer_rounds_decay_more_often(p: int, shorter: int, longer: int)
    requires
        0 <= shorter <= longer,
    ensures
        decay_odds(p, shorter).0 * decay_odds(p, longer).1 <= decay_odds(p, longer).0 * decay_odds(
            p,
            shorter,
        ).1,
        is_certain(decay_odds(p, shorter)) ==> is_certain(decay_odds(p, longer)),
        is_impossible(decay_odds(p, longer)) ==> is_impossible(decay_odds(p, shorter)),
{
    let s = decay_slowness(p);
    assert(s == magnitude(p) * 1000);
    assert(shorter * s <= longer * s) by (nonlinear_arith)
        requires
            0 <= shorter <= longer,
            0 <= s,
    ;
    let a = decay_odds(p, shorter);
    let b = decay_odds(p, longer);
    if shorter >= s {
        assert(a == (1int, 1int) && b == (1int, 1int));
    } else if longer >= s {
        assert(a == (shorter, s) && b == (1int, 1int));
        assert(a.0 * b.1 == shorter);
        assert(b.0 * a.1 == s);
    } else {
        assert(a == (shorter, s) && b == (longer, s));
        assert(a.0 * b.1 == shorter * s);
        assert(b.0 * a.1 == longer * s);
    }
}

} // verus!
