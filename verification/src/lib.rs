//! Admission control for a network-facing endpoint.
//!
//! The library tracks per-source request behaviour and escalates from
//! rate limiting to outright blocking, with the block enforced at an
//! external edge firewall.  Everything that decides — the per-identity
//! state machine, the window counters, the rule bookkeeping — lives here
//! and is verified.  The remote collaborators (the counter store and the
//! firewall API) are reached over the network by the surrounding service,
//! which hands their replies to this library as plain values.

pub mod config;
pub mod error;
pub mod text;
pub mod str_map;
pub mod arith;
pub mod rate_limiter;
pub mod traffic_analyzer;
pub mod ip_blacklist;
pub mod cloudflare;
pub mod service;
