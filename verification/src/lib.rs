//! Live state of a roller-derby bout: the phase clock, the per-jam ledger,
//! the teams' allowances and the rosters, with every rule stated as a
//! contract over a mathematical model and proved.
//!
//! All times are whole nanoseconds held in `u64`: a point in time counts
//! from the moment the bout's clock was made, a duration counts its length.
//!
//! - `clock`: the phase timer and the period clock.
//! - `jamstate`: the ledger of one jam.
//! - `gamestate`: the bout, which owns the clock and the ledgers.
//! - `roster`: the teams' skaters, read from roster files.
//! - `penaltycodes`: the penalty codes.
//! - `timetoderby`: the time until a bout that is yet to begin.

pub mod clock;
pub mod gamestate;
pub mod jamstate;
pub mod penaltycodes;
pub mod roster;
pub mod timetoderby;
