pub mod app;
pub mod config;
pub mod messaging;
pub mod sandbox;
pub mod tasks;

use vstd::prelude::*;

verus! {

/// A control signal carried on a module's companion shutdown channel.
#[derive(Debug)]
pub enum RuntimeEvent {
    RuntimeTaskStop,
}

} // verus!
