//! A tick-driven simulation of persistent non-player characters.
//!
//! The population of the world lives in tables of stable handles ([`npc`],
//! [`site`], [`faction`]), is found by position through a grid of chunks
//! ([`grid`]), remembers what it feels ([`sentiment`]) and acts through
//! resumable actions ([`ai`]). Events reach the rules that answer them through
//! a dispatcher ([`rule`]); the server drives the whole tick by tick and
//! turns simulated entities into game entities and back ([`sim`], [`tick`]).
//! What a fresh world is populated with is decided in [`gen`]. The skills and
//! abilities of characters, and some small components of game entities, are
//! in [`skills`], [`ability`] and [`comp`].
//!
//! Real quantities are kept as integers: lengths in [`geom::SUBDIV`]ths of a
//! block, time in milliseconds, factors and thresholds in thousandths.

pub mod ability;
pub mod ai;
pub mod comp;
pub mod data;
pub mod faction;
pub mod gen;
pub mod geom;
pub mod grid;
pub mod ids;
pub mod npc;
pub mod rng;
pub mod rule;
pub mod sentiment;
pub mod sim;
pub mod site;
pub mod skills;
pub mod tick;
