//! Deterministic simulation testing: a simulated clock, a seeded random
//! source, fault injection and a deterministic scheduler that compose from one
//! master seed, together with an engine that checks named invariants of a
//! structure under test and records reproducible counterexamples.

pub mod cascade;
pub mod clock;
pub mod counterexample;
pub mod env;
pub mod evaluators;
pub mod fault;
pub mod generator;
pub mod naming;
pub mod perf;
pub mod prompt;
pub mod property;
pub mod quality;
pub mod raft_election;
pub mod random;
pub mod safety;
pub mod scheduler;
pub mod ssi;
pub mod stack;
pub mod text;
pub mod treiber;
