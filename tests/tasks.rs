use droneforge::{
    apply_task, Drone, DroneStatus, Task, TaskManager, TaskState, TileBox3, TileCoord3, TileKind,
    World,
};

fn mine(x0: i32, y0: i32, z0: i32, x1: i32, y1: i32, z1: i32) -> Task {
    Task::MineBox(TileBox3::new(TileCoord3::new(x0, y0, z0), TileCoord3::new(x1, y1, z1)).unwrap())
}

#[test]
fn task_description() {
    let t = Task::MineBox(
        TileBox3::new(TileCoord3::new(0, 0, 0), TileCoord3::new(1, 1, 0)).unwrap(),
    );
    assert!(t.description().contains("Mine box"));
}

#[test]
fn task_description_exact_text() {
    assert_eq!(mine(0, 0, 0, 1, 1, 0).description(), "Mine box ((0,0,0)->(1,1,0))");
    assert_eq!(
        mine(-12, -3, 0, 40, 105, 7).description(),
        "Mine box ((-12,-3,0)->(40,105,7))"
    );
    assert_eq!(
        mine(i32::MIN, 0, 0, i32::MAX, 0, 0).description(),
        "Mine box ((-2147483648,0,0)->(2147483647,0,0))"
    );
}

#[test]
fn task_manager_flow() {
    let mut tm = TaskManager::new();
    let t = Task::MineBox(
        TileBox3::new(TileCoord3::new(0, 0, 0), TileCoord3::new(0, 0, 0)).unwrap(),
    );
    tm.push(t.clone());
    assert!(tm.any_pending());
    let started = tm.start_next().unwrap();
    assert_eq!(started, t);
    tm.complete_current(&started);
    assert!(!tm.any_pending());
}

#[test]
fn start_next_is_first_in_first_out() {
    let mut tm = TaskManager::new();
    let a = mine(0, 0, 0, 0, 0, 0);
    let b = mine(1, 1, 1, 2, 2, 2);
    tm.push(a);
    tm.push(b);
    assert_eq!(tm.start_next(), Some(a));
    assert_eq!(tm.tasks[0].1, TaskState::InProgress);
    assert_eq!(tm.tasks[1].1, TaskState::Pending);
    assert_eq!(tm.start_next(), Some(b));
    assert_eq!(tm.tasks[1].1, TaskState::InProgress);
    assert_eq!(tm.start_next(), None);
    assert!(!tm.any_pending());
    tm.complete_current(&b);
    assert_eq!(tm.tasks[1].1, TaskState::Done);
    assert_eq!(tm.tasks[0].1, TaskState::InProgress);
}

#[test]
fn complete_marks_first_equal_entry() {
    let mut tm = TaskManager::new();
    let a = mine(0, 0, 0, 1, 1, 1);
    tm.push(a);
    tm.push(a);
    assert_eq!(tm.start_next(), Some(a));
    assert_eq!(tm.start_next(), Some(a));
    tm.complete_current(&a);
    assert_eq!(tm.tasks[0].1, TaskState::Done);
    assert_eq!(tm.tasks[1].1, TaskState::InProgress);
}

#[test]
fn complete_unknown_task_changes_nothing() {
    let mut tm = TaskManager::new();
    tm.push(mine(0, 0, 0, 0, 0, 0));
    tm.complete_current(&mine(5, 5, 5, 5, 5, 5));
    assert_eq!(tm.tasks[0].1, TaskState::Pending);
    assert!(tm.any_pending());
}

#[test]
fn apply_mine_task_counts_mined_tiles() {
    let mut world = World::new(2, 2, 1, TileKind::Stone);
    let t = Task::MineBox(
        TileBox3::new(TileCoord3::new(0, 0, 0), TileCoord3::new(1, 1, 0)).unwrap(),
    );
    let mined = apply_task(&mut world, &t);
    assert_eq!(mined, 4);
    assert_eq!(world.resources.stone, 4);
}

#[test]
fn apply_task_mixed_kinds_and_out_of_bounds() {
    let mut world = World::new(3, 1, 1, TileKind::Stone);
    world.set_tile(TileCoord3::new(1, 0, 0), TileKind::Iron);
    world.set_tile(TileCoord3::new(2, 0, 0), TileKind::Wall);
    let mined = apply_task(&mut world, &mine(-2, 0, 0, 5, 0, 0));
    assert_eq!(mined, 2);
    assert_eq!(world.resources.stone, 1);
    assert_eq!(world.resources.iron, 1);
    assert_eq!(world.get_tile(TileCoord3::new(0, 0, 0)), Some(TileKind::Air));
    assert_eq!(world.get_tile(TileCoord3::new(1, 0, 0)), Some(TileKind::Air));
    assert_eq!(world.get_tile(TileCoord3::new(2, 0, 0)), Some(TileKind::Wall));
}

#[test]
fn drone_init() {
    let d = Drone::new(1);
    assert_eq!(d.id, 1);
    assert_eq!(d.status, DroneStatus::Idle);
    assert!(d.current_task.is_none());
}
