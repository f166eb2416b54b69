use crate::tasks::Task;
use vstd::prelude::*;

verus! {

/// Where a drone is in its work cycle.
#[derive(Debug, Clone, Copy, PartialEq, Eq, Structural)]
pub enum DroneStatus {
    Idle,
    Thinking,
    Working,
    Finished,
}

/// A worker that carries out at most one task at a time.
#[derive(Debug, Clone, Copy)]
pub struct Drone {
    pub id: u32,
    pub status: DroneStatus,
    pub current_task: Option<Task>,
}

impl Drone {
    /// An idle drone with no task.
    pub fn new(id: u32) -> (r: Self)
        ensures
            r == (Drone { id, status: DroneStatus::Idle, current_task: None }),
    {
        Drone { id, status: DroneStatus::Idle, current_task: None }
    }
}

} // verus!
