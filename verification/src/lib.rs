//! A ledger model of two Soroban contracts: a live poll, where each account may
//! vote once on each poll, and a registry of participation badges.
//!
//! Each contract's storage is held in memory by a state type (`LivePoll`,
//! `VotingBadge`) whose operations are proved against abstract transition
//! functions. A refused operation leaves the state as it was, as a refused
//! Soroban call leaves the ledger. `StellarPoll` holds both contracts side by
//! side: each recorded vote has the badge contract award the voter a badge.
//! The step functions (`create_step`, `vote_step`, `award_step`) say what one
//! call writes, publishes and asks of the other contract, given what it read.

pub mod address;
pub mod badge;
pub mod deployment;
pub mod laws;
pub mod live_poll;
pub mod poll;

pub use address::Address;
pub use deployment::{CallError, StellarPoll};
pub use badge::{Award, Badge, BadgeAwarded, BadgeError, VotingBadge};
pub use live_poll::{BadgeRequest, LivePoll, PollEvent};
pub use poll::{Poll, PollEntry, PollError};
