//! The authoritative core of a small multiplayer hide-and-seek game: a
//! fixed-tick tile-grid simulation of players and wandering NPCs
//! ([`world`]), the round lifecycle from lobby through countdown, running
//! round and ending phase ([`server`]), and the request router that gives
//! every decoded client request its single response ([`routes`]).
//!
//! Positions are fixed-point integers (ten coordinate steps per game unit),
//! so movement speeds and distances stay exact and every contract is stated
//! over plain integer arithmetic. Randomness (colours, wander cooldowns,
//! spawn tiles, seeker choice) and the wall clock enter through a few
//! trusted wrappers; every contract states what holds of any draw.
//!
//! Sockets, the line-delimited wire codec, and task scheduling live outside
//! the library: callers hand decoded requests in and carry responses back.

use vstd::prelude::*;

pub mod chat;
pub mod math;
mod randomness;
pub mod requests;
pub mod routes;
pub mod server;
pub mod session;
pub mod text;
pub mod world;

verus! {

pub const DEFAULT_SERVER_ADRESS: &'static str = "127.0.0.1:8080";

} // verus!
