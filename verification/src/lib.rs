//! Verified core of an industrial edge agent: a declarative script engine
//! (triggers, conditions, actions) with a safety envelope of rate limits,
//! action quotas, call-depth protection and write-conflict arbitration,
//! together with the circuit breakers and hardware-actor models it runs on.
//!
//! Wall-clock time never enters the library on its own: every time-dependent
//! operation takes the current time in milliseconds as an argument, so all
//! behaviour is a function of its inputs and is verified as such.

pub mod breaker;
pub mod config;
pub mod conflict;
pub mod context;
pub mod engine;
pub mod hardware;
pub mod limits;
pub mod messages;
pub mod model;
pub mod storage;
pub mod table;
pub mod text;
pub mod triggers;
pub mod value;
