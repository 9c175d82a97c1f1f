//! A cyclic action scheduler: permanent actions held for the whole session,
//! a timed list of actions replayed forever, and a pause signal that
//! suspends and restores whatever is active.
use vstd::prelude::*;

pub mod work;
pub mod farmer;
pub mod runs;

verus! {

} // verus!
