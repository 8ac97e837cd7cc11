//! Core of a raffle service: a pool of participants is drawn down over time,
//! each draw marks the chosen participants as winners, and every mutating
//! action is attributed to an authenticated actor and recorded in an audit
//! trail. The modules cover the selection engine, the identity and token
//! subsystem, and the rate/backoff controls; HTTP routing, the relational
//! schema and other plumbing are left to the surrounding application.

pub mod audit;
pub mod backoff;
pub mod guard;
pub mod health;
pub mod keys;
pub mod login;
pub mod participants;
pub mod rate_limit;
pub mod selection;
pub mod token;
pub mod winners;
