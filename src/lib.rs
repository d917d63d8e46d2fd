//! A small in-memory key-value server core: a wire codec and command parser,
//! a store with lazy expiry, a snapshot decoder and the dispatcher over them.
use vstd::prelude::*;

pub mod command;
pub mod config;
pub mod db;
pub mod proto;
pub mod redis;
pub mod response;
pub mod scanner;
pub mod server;
pub mod text;

verus! {

} // verus!
