use crate::drones::{Drone, DroneStatus};
use crate::resources::Resources;
use crate::tasks::{description_text, TaskManager, TaskState};
use crate::text::{decimal, push_decimal};
use vstd::prelude::*;
use vstd::string::StringExecFns;

verus! {

pub const HUD_SEPARATOR: &'static str = " • ";

pub const HUD_Z_UP_LABEL: &'static str = "Z▲";

pub const HUD_Z_DOWN_LABEL: &'static str = "Z▼";

pub const HUD_PAUSE_LABEL: &'static str = "Pause";

/// `Stone: s • Iron: i • <wave> • Core HP: cur/max`.
pub open spec fn hud_text(resources: Resources, wave_label: Seq<char>, core_hp: (u32, u32)) -> Seq<
    char,
> {
    "Stone: "@ + decimal(resources.stone as nat) + HUD_SEPARATOR@ + "Iron: "@ + decimal(
        resources.iron as nat,
    ) + HUD_SEPARATOR@ + wave_label + HUD_SEPARATOR@ + "Core HP: "@ + decimal(core_hp.0 as nat)
        + "/"@ + decimal(core_hp.1 as nat)
}

pub open spec fn status_text(s: DroneStatus) -> Seq<char> {
    match s {
        DroneStatus::Idle => "Idle"@,
        DroneStatus::Thinking => "Thinking..."@,
        DroneStatus::Working => "Working"@,
        DroneStatus::Finished => "Finished"@,
    }
}

pub open spec fn state_text(s: TaskState) -> Seq<char> {
    match s {
        TaskState::Pending => "Pending"@,
        TaskState::InProgress => "InProgress"@,
        TaskState::Done => "Done"@,
    }
}

/// `Drone #id - status - task`, with `None` for a drone without a task.
pub open spec fn drone_line(d: Drone) -> Seq<char> {
    "Drone #"@ + decimal(d.id as nat) + " - "@ + status_text(d.status) + " - "@ + match d.current_task {
        Some(t) => description_text(t),
        None => "None"@,
    }
}

/// `task - state`.
pub open spec fn task_line(e: (crate::tasks::Task, TaskState)) -> Seq<char> {
    description_text(e.0) + " - "@ + state_text(e.1)
}

/// The status line at the top of the screen.
pub fn format_hud(resources: &Resources, wave_label: &str, core_hp: (u32, u32)) -> (r: String)
    ensures
        r@ == hud_text(*resources, wave_label@, core_hp),
{
    let (core_hp_current, core_hp_max) = core_hp;
    let mut s = String::from_str("Stone: ");
    push_decimal(&mut s, resources.stone as u64);
    s.append(HUD_SEPARATOR);
    s.append("Iron: ");
    push_decimal(&mut s, resources.iron as u64);
    s.append(HUD_SEPARATOR);
    s.append(wave_label);
    s.append(HUD_SEPARATOR);
    s.append("Core HP: ");
    push_decimal(&mut s, core_hp_current as u64);
    s.append("/");
    push_decimal(&mut s, core_hp_max as u64);
    s
}

fn status_label(s: DroneStatus) -> (r: &'static str)
    ensures
        r@ == status_text(s),
{
    match s {
        DroneStatus::Idle => "Idle",
        DroneStatus::Thinking => "Thinking...",
        DroneStatus::Working => "Working",
        DroneStatus::Finished => "Finished",
    }
}

fn state_label(s: TaskState) -> (r: &'static str)
    ensures
        r@ == state_text(s),
{
    match s {
        TaskState::Pending => "Pending",
        TaskState::InProgress => "InProgress",
        TaskState::Done => "Done",
    }
}

/// The side panel: a `[Drones]` heading and one line per drone, then a `[Tasks]` heading and
/// one line per queued task.
pub fn format_side_panel(drones: &[Drone], tasks: &TaskManager) -> (r: Vec<String>)
    ensures
        r@.len() == drones@.len() + tasks.tasks@.len() + 2,
        r@[0]@ == "[Drones]"@,
        forall|i: int| 0 <= i < drones@.len() ==> #[trigger] r@[i + 1]@ == drone_line(drones@[i]),
        r@[drones@.len() + 1int]@ == "[Tasks]"@,
        forall|j: int|
            0 <= j < tasks.tasks@.len() ==> #[trigger] r@[drones@.len() + 2int + j]@ == task_line(
                tasks.tasks@[j],
            ),
{
    let mut out: Vec<String> = Vec::new();
    out.push(String::from_str("[Drones]"));
    let mut i: usize = 0;
    while i < drones.len()
        invariant
            i <= drones@.len(),
            out@.len() == i + 1,
            out@[0]@ == "[Drones]"@,
            forall|k: int| 0 <= k < i ==> #[trigger] out@[k + 1]@ == drone_line(drones@[k]),
        decreases drones@.len() - i,
    {
        let d = drones[i];
        let mut line = String::from_str("Drone #");
        push_decimal(&mut line, d.id as u64);
        line.append(" - ");
        line.append(status_label(d.status));
        line.append(" - ");
        match d.current_task {
            Some(t) => {
                let text = t.description();
                line.append(text.as_str());
            },
            None => {
                line.append("None");
            },
        }
        out.push(line);
        i = i + 1;
    }
    out.push(String::from_str("[Tasks]"));
    let mut j: usize = 0;
    while j < tasks.tasks.len()
        invariant
            i == drones@.len(),
            j <= tasks.tasks@.len(),
            out@.len() == i + 2 + j,
            out@[0]@ == "[Drones]"@,
            forall|k: int| 0 <= k < i ==> #[trigger] out@[k + 1]@ == drone_line(drones@[k]),
            out@[i + 1]@ == "[Tasks]"@,
            forall|k: int|
                0 <= k < j ==> #[trigger] out@[i + 2 + k]@ == task_line(tasks.tasks@[k]),
        decreases tasks.tasks@.len() - j,
    {
        let (t, st) = tasks.tasks[j];
        let mut line = t.description();
        line.append(" - ");
        line.append(state_label(st));
        out.push(line);
        j = j + 1;
    }
    out
}

} // verus!
