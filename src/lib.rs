//! A shared to-do list kept in one subkey of a record on a distributed
//! key-value network: the record codec, list mutations, command parsing and
//! the per-command protocol that talks to the network.
use vstd::prelude::*;

pub mod codec;
pub mod command;
pub mod protocol;
pub mod session;
pub mod todo;

verus! {

} // verus!
