//! A small colony simulation: a tile world, drones, a task queue, and a compiler from a tiny
//! task language into tasks.
pub mod coords;
pub mod drones;
pub mod dsl_ast;
pub mod engine;
pub mod hud;
pub mod resources;
pub mod tasks;
pub mod text;
pub mod tile;
pub mod world;

pub use coords::{BoxError, TileBox3, TileCoord3};
pub use drones::{Drone, DroneStatus};
pub use dsl_ast::{compile_program_to_tasks, program_for_mine_box, CompileError, Program};
pub use engine::Engine;
pub use hud::{format_hud, format_side_panel};
pub use resources::Resources;
pub use tasks::{apply_task, Task, TaskManager, TaskState};
pub use tile::{ResourceYield, TileKind};
pub use world::World;
