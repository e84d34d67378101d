//! Bookkeeping core of a resumable `git clone`: planning, write-ahead state,
//! retry decisions, throttling and the equivalence oracle, all verified.

pub mod cli;
pub mod equiv;
pub mod errors;
pub mod finalizer;
pub mod gitio;
pub mod ledger;
pub mod piece_run;
pub mod planner;
pub mod recovery;
pub mod refs;
pub mod repos;
pub mod scheduler;
pub mod sorted;
pub mod state;
pub mod text;
pub mod throttle;
pub mod worker;
