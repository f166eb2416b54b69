use droneforge::hud::{HUD_PAUSE_LABEL, HUD_SEPARATOR, HUD_Z_DOWN_LABEL, HUD_Z_UP_LABEL};
use droneforge::{
    format_hud, format_side_panel, Drone, DroneStatus, Resources, Task, TaskManager, TileBox3,
    TileCoord3,
};

#[test]
fn hud_format_includes_design_tokens() {
    let r = Resources { stone: 3, iron: 5 };
    let s = format_hud(&r, "Wave 1 in 01:23", (90, 100));
    assert!(s.contains("Stone: 3"));
    assert!(s.contains("Iron: 5"));
    assert!(s.contains("Wave 1 in 01:23"));
    assert!(s.contains("Core HP: 90/100"));
    assert!(s.contains(HUD_SEPARATOR));
}

#[test]
fn hud_format_exact_text() {
    let r = Resources { stone: 0, iron: 4294967295 };
    let s = format_hud(&r, "Calm", (7, 100));
    assert_eq!(s, "Stone: 0 • Iron: 4294967295 • Calm • Core HP: 7/100");
}

#[test]
fn hud_controls_match_design() {
    assert_eq!(HUD_Z_UP_LABEL, "Z▲");
    assert_eq!(HUD_Z_DOWN_LABEL, "Z▼");
    assert_eq!(HUD_PAUSE_LABEL, "Pause");
}

#[test]
fn side_panel_lists_drones_and_tasks() {
    let mut tasks = TaskManager::new();
    let t = Task::MineBox(
        TileBox3::new(TileCoord3::new(0, 0, 0), TileCoord3::new(1, 1, 0)).unwrap(),
    );
    tasks.push(t.clone());
    let drones = vec![Drone { id: 1, status: DroneStatus::Idle, current_task: Some(t) }];
    let lines = format_side_panel(&drones, &tasks);
    assert!(lines.iter().any(|l| l.contains("Drone #1")));
    assert!(lines.iter().any(|l| l.contains("Tasks")));
}

#[test]
fn side_panel_exact_lines() {
    let mut tasks = TaskManager::new();
    let t = Task::MineBox(
        TileBox3::new(TileCoord3::new(0, 0, 0), TileCoord3::new(1, 1, 0)).unwrap(),
    );
    tasks.push(t);
    let drones = vec![
        Drone { id: 12, status: DroneStatus::Thinking, current_task: Some(t) },
        Drone::new(3),
    ];
    let lines = format_side_panel(&drones, &tasks);
    assert_eq!(
        lines,
        vec![
            "[Drones]".to_string(),
            "Drone #12 - Thinking... - Mine box ((0,0,0)->(1,1,0))".to_string(),
            "Drone #3 - Idle - None".to_string(),
            "[Tasks]".to_string(),
            "Mine box ((0,0,0)->(1,1,0)) - Pending".to_string(),
        ]
    );
}
