use crate::drones::{Drone, DroneStatus};
use crate::tasks::{
    apply_task, completed, first_pending, has_pending, started, task_applied, TaskManager,
};
use crate::world::World;
use vstd::prelude::*;

verus! {

/// A drone that can take a task.
pub open spec fn is_available(d: Drone) -> bool {
    d.status == DroneStatus::Idle || d.status == DroneStatus::Finished
}

pub open spec fn has_available(ds: Seq<Drone>) -> bool {
    exists|i: int| 0 <= i < ds.len() && is_available(ds[i])
}

/// Drone `i` is the earliest available one.
pub open spec fn is_first_available(ds: Seq<Drone>, i: int) -> bool {
    &&& 0 <= i < ds.len()
    &&& is_available(ds[i])
    &&& forall|j: int| 0 <= j < i ==> !is_available(ds[j])
}

pub open spec fn first_available(ds: Seq<Drone>) -> int {
    choose|i: int| is_first_available(ds, i)
}

/// Only one drone is the earliest available one, so `first_available` names it.
pub proof fn lemma_first_available_unique(ds: Seq<Drone>, i: int)
    requires
        is_first_available(ds, i),
    ensures
        first_available(ds) == i,
{
    let k = first_available(ds);
    assert(is_first_available(ds, k));
    if k < i {
        assert(!is_available(ds[k]));
    }
    if i < k {
        assert(!is_available(ds[i]));
    }
}

/// The simulation: the world, the drones and the task queue.
#[derive(Debug)]
pub struct Engine {
    pub world: World,
    pub drones: Vec<Drone>,
    pub tasks: TaskManager,
}

impl Engine {
    /// An engine with an empty task queue.
    pub fn new(world: World, drones: Vec<Drone>) -> (r: Self)
        ensures
            r.world == world,
            r.drones@ == drones@,
            r.tasks.tasks@.len() == 0,
    {
        Engine { world, drones, tasks: TaskManager::new() }
    }

    /// One step: the earliest available drone takes the earliest pending task, carries it out
    /// on the world, marks it done and is idle again. Without an available drone or a pending
    /// task, nothing changes.
    pub fn tick(&mut self)
        requires
            old(self).world.wf(),
        ensures
            final(self).world.wf(),
            !(has_available(old(self).drones@) && has_pending(old(self).tasks.tasks@))
                ==> *final(self) == *old(self),
            has_available(old(self).drones@) && has_pending(old(self).tasks.tasks@) ==> {
                let d = first_available(old(self).drones@);
                let t = old(self).tasks.tasks@[first_pending(old(self).tasks.tasks@)].0;
                &&& final(self).drones@ == old(self).drones@.update(
                    d,
                    Drone {
                        id: old(self).drones@[d].id,
                        status: DroneStatus::Idle,
                        current_task: None,
                    },
                )
                &&& final(self).tasks.tasks@ == completed(started(old(self).tasks.tasks@), t)
                &&& task_applied(old(self).world, final(self).world, t)
            },
    {
        let mut idx: usize = 0;
        while idx < self.drones.len()
            invariant
                *self == *old(self),
                idx <= self.drones@.len(),
                forall|j: int| 0 <= j < idx ==> !is_available(self.drones@[j]),
            ensures
                *self == *old(self),
                idx <= self.drones@.len(),
                forall|j: int| 0 <= j < idx ==> !is_available(self.drones@[j]),
                idx < self.drones@.len() ==> is_available(self.drones@[idx as int]),
            decreases self.drones@.len() - idx,
        {
            let status = self.drones[idx].status;
            if status == DroneStatus::Idle || status == DroneStatus::Finished {
                break;
            }
            idx = idx + 1;
        }
        if idx == self.drones.len() {
            return;
        }
        proof {
            lemma_first_available_unique(self.drones@, idx as int);
        }
        if self.tasks.any_pending() {
            let next = self.tasks.start_next();
            if let Some(task) = next {
                let id = self.drones[idx].id;
                self.drones.set(
                    idx,
                    Drone { id, status: DroneStatus::Thinking, current_task: Some(task) },
                );
                self.drones.set(
                    idx,
                    Drone { id, status: DroneStatus::Working, current_task: Some(task) },
                );
                let _mined = apply_task(&mut self.world, &task);
                self.tasks.complete_current(&task);
                self.drones.set(idx, Drone { id, status: DroneStatus::Finished, current_task: None });
                self.drones.set(idx, Drone { id, status: DroneStatus::Idle, current_task: None });
            }
        }
    }
}

} // verus!
