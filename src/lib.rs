use vstd::prelude::*;

pub mod adapter;
pub mod driver;
pub mod laws;
pub mod routines;
pub mod until_runner;

use crate::driver::{FrameDriver, Runner};

verus! {

/// How many installation requests may wait for the frame driver at once.
pub const COMMAND_CAPACITY: usize = 100;

/// Bridges asynchronous routines and the frame-stepped world: the host adds it once,
/// and it owns the frame driver's state from then on.
pub struct AsyncSystemPlugin;

impl AsyncSystemPlugin {
    /// The frame driver's state when the plugin is added: no phase in use yet.
    pub fn driver<T>(&self) -> (r: FrameDriver<T>)
        ensures
            r.wf(),
            r@ == Map::<u64, Seq<Runner<T>>>::empty(),
    {
        FrameDriver::new()
    }

    /// The capacity of the channel that carries installation requests.
    pub fn command_capacity(&self) -> (r: usize)
        ensures
            r == COMMAND_CAPACITY,
    {
        COMMAND_CAPACITY
    }
}

} // verus!
