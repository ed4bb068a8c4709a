//! A multiplayer guess-the-number session.
//!
//! Clients join a shared session, vote on a difficulty tier, and then take
//! turns guessing a hidden number while receiving hints; the first correct
//! guess wins the round and resets the session.  This crate holds the
//! verified core: the session state machine and its rules engine
//! ([`game`]), the player registry ([`registry`]), the per-client dispatch
//! and countdown decisions ([`session`]), the wire codec for the closed
//! message set ([`wire`]), the random source the rules draw from
//! ([`rng`]), and a small tile-map toy ([`map`]).  Network and terminal
//! plumbing live outside the library and only hand plain values in and
//! out.

pub mod event;
pub mod game;
pub mod map;
pub mod player;
pub mod registry;
pub mod rng;
pub mod session;
pub mod text;
pub mod wire;
