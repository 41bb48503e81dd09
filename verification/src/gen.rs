//! The decisions that are taken when a world is populated.

use vstd::prelude::*;
use crate::geom::dist_sqr;
use crate::geom::Vec2i;
use crate::ids::FactionId;
use crate::npc::Profession;

verus! {

/// The number of factions that a fresh world has.
pub const INITIAL_FACTIONS: u32 = 16;

/// The number of cultists that live at a site of an evil faction.
pub const CULTISTS_PER_SITE: u32 = 15;

/// Chooses the faction that holds sway nearest to `wpos` among `at`, where
/// each faction comes with the place that it holds sway from, its handle and
/// whether it is good: the place in the list of the first of the nearest.
/// There is none only where there are no factions.
pub fn nearest_faction(at: &Vec<(Vec2i, FactionId, bool)>, wpos: Vec2i) -> (r: Option<usize>)
    ensures
        r.is_none() == (at@.len() == 0),
        r matches Some(i) ==> {
            &&& i < at@.len()
            &&& forall|j: int|
                0 <= j < at@.len() ==> dist_sqr(at@[i as int].0, wpos) <= dist_sqr(
                    (#[trigger] at@[j]).0,
                    wpos,
                )
            &&& forall|j: int|
                0 <= j < i ==> dist_sqr(at@[i as int].0, wpos) < dist_sqr(
                    (#[trigger] at@[j]).0,
                    wpos,
                )
        },
{
    if at.len() == 0 {
        return None;
    }
    let mut best: usize = 0;
    let mut best_dist: u128 = at[0].0.distance_squared(wpos);
    let mut j: usize = 1;
    while j < at.len()
        invariant
            1 <= j <= at.len(),
            best < j,
            best_dist == dist_sqr(at@[best as int].0, wpos),
            forall|k: int| 0 <= k < j ==> best_dist <= dist_sqr((#[trigger] at@[k]).0, wpos),
            forall|k: int| 0 <= k < best ==> best_dist < dist_sqr((#[trigger] at@[k]).0, wpos),
        decreases at.len() - j,
    {
        let d = at[j].0.distance_squared(wpos);
        if d < best_dist {
            best = j;
            best_dist = d;
        }
        j = j + 1;
    }
    Some(best)
}

/// The profession that an inhabitant of a site of a good faction gets for a
/// draw `roll` out of 20: mostly guards and farmers, some herbalists, one
/// each of the crafts, and adventurers of the rank `rank` for the rest.
pub open spec fn profession_for_roll_spec(roll: u32, rank: u32) -> Profession {
    if roll == 0 {
        Profession::Hunter
    } else if roll == 1 {
        Profession::Blacksmith
    } else if roll == 2 {
        Profession::Chef
    } else if roll == 3 {
        Profession::Alchemist
    } else if 5 <= roll <= 8 {
        Profession::Farmer
    } else if 9 <= roll <= 10 {
        Profession::Herbalist
    } else if 11 <= roll <= 16 {
        Profession::Guard
    } else {
        Profession::Adventurer(rank)
    }
}

/// The profession that an inhabitant of a site of a good faction gets for a
/// draw `roll` out of 20.
pub fn profession_for_roll(roll: u32, rank: u32) -> (p: Profession)
    ensures
        p == profession_for_roll_spec(roll, rank),
{
    match roll {
        0 => Profession::Hunter,
        1 => Profession::Blacksmith,
        2 => Profession::Chef,
        3 => Profession::Alchemist,
        5..=8 => Profession::Farmer,
        9..=10 => Profession::Herbalist,
        11..=16 => Profession::Guard,
        _ => Profession::Adventurer(rank),
    }
}

/// The number of inhabitants with a trade that a site with `plots` plots
/// gets: one for each plot at a site of a good faction, a fixed number of
/// cultists at one of an evil faction.
pub fn inhabitant_count(plots: u32, good: bool) -> (n: u32)
    ensures
        n == (if good {
            plots
        } else {
            CULTISTS_PER_SITE
        }),
{
    if good {
        plots
    } else {
        CULTISTS_PER_SITE
    }
}

/// The number of merchants that a site with `plots` plots gets: one, and one
/// more for every six plots, at a site of a good faction; none at one of an
/// evil faction.
pub fn merchant_count(plots: u32, good: bool) -> (n: u32)
    ensures
        n == (if good {
            plots / 6 + 1
        } else {
            0
        }),
{
    if good {
        plots / 6 + 1
    } else {
        0
    }
}

/// The chance that a site gets an airship with its captain, as the ratio of
/// the first number to the second.
pub const AIRSHIP_ODDS: (u32, u32) = (2, 5);

} // verus!
