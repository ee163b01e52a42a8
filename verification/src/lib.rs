//! Deterministic core of a city traffic simulator's batch mode: the simulated
//! clock, the trip ledger and its statistics, seeded demand, the run driver,
//! savestates and challenge scoring.

pub mod baseline;
pub mod challenges;
pub mod clock;
pub mod driver;
pub mod flags;
pub mod rng;
pub mod savestate;
pub mod scoring;
pub mod spawn;
pub mod splash;
pub mod stats;
pub mod trip;
