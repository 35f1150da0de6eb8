//! Verified core of the open-english server: TOTP and base32, login
//! state, update planning, agent path rules and the world-lab bookkeeping.

pub mod agents;
pub mod auth;
pub mod bits;
pub mod db;
pub mod guest;
pub mod languages;
pub mod rng;
pub mod sandbox;
pub mod table;
pub mod text;
pub mod totp;
pub mod updates;
pub mod web;
pub mod worker;
pub mod world_lab;
