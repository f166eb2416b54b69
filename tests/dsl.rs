use droneforge::dsl_ast::{Coord, Expr, Statement, Var};
use droneforge::{
    compile_program_to_tasks, format_hud, format_side_panel, program_for_mine_box, CompileError,
    Drone, DroneStatus, Engine, Program, Task, TileBox3, TileCoord3, TileKind, World,
};

fn text(s: &str) -> String {
    s.to_string()
}

fn coord(x: i32, y: i32, z: i32) -> Coord {
    Coord { node: text("TileCoord"), x, y, z }
}

fn box_expr(min: (i32, i32, i32), max: (i32, i32, i32)) -> Expr {
    Expr::TileBoxFromCoords { min: coord(min.0, min.1, min.2), max: coord(max.0, max.1, max.2) }
}

fn let_box(name: &str, value: Expr) -> Statement {
    Statement::Let { name: text(name), ty: text("TileBox"), value }
}

fn var(name: &str) -> Expr {
    Expr::VarRef { name: text(name) }
}

fn call(func: &str, args: Vec<Expr>) -> Statement {
    Statement::ExprStmt { expr: Expr::Call { func: text(func), args } }
}

fn program(statements: Vec<Statement>) -> Program {
    Program { version: 1, node: text("Program"), statements }
}

fn area_program() -> Program {
    program(vec![
        let_box("area", box_expr((0, 0, 0), (1, 1, 0))),
        call("mine_box", vec![var("area")]),
    ])
}

#[test]
fn parse_and_compile_mine_box() {
    let prog = area_program();
    let tasks = compile_program_to_tasks(&prog).unwrap();
    assert_eq!(tasks.len(), 1);
    match &tasks[0] {
        Task::MineBox(b) => {
            assert_eq!(b.width(), 2);
            assert_eq!(b.height(), 2);
        }
    }
}

#[test]
fn end_to_end_mining_from_ast() {
    let world = World::new(3, 3, 1, TileKind::Stone);
    let mut engine = Engine::new(world, vec![Drone::new(1)]);
    let prog = area_program();
    let tasks = compile_program_to_tasks(&prog).unwrap();
    assert_eq!(tasks.len(), 1);
    for t in tasks {
        engine.tasks.push(t);
    }
    engine.tick();
    assert_eq!(engine.world.resources.stone, 4);
    let (core_hp, core_hp_max) = engine.world.core_hp();
    let hud = format_hud(&engine.world.resources, "Wave 1 in 01:23", (core_hp, core_hp_max));
    assert!(hud.contains("Stone: 4"));
    assert!(hud.contains("Core HP"));
    let side = format_side_panel(&engine.drones, &engine.tasks);
    assert!(side.iter().any(|l| l.contains("Drones")));
    assert!(side.iter().any(|l| l.contains("Tasks")));
}

#[test]
fn end_to_end_leaves_one_idle_drone() {
    let mut engine = Engine::new(World::new(3, 3, 1, TileKind::Stone), vec![Drone::new(1)]);
    for t in compile_program_to_tasks(&area_program()).unwrap() {
        engine.tasks.push(t);
    }
    assert_eq!(engine.world.resources.stone, 0);
    engine.tick();
    assert_eq!(engine.world.resources.stone, 4);
    assert_eq!(engine.drones.len(), 1);
    assert_eq!(engine.drones[0].status, DroneStatus::Idle);
    assert!(engine.drones[0].current_task.is_none());
    assert_eq!(engine.world.get_tile(TileCoord3::new(2, 2, 0)), Some(TileKind::Stone));
}

#[test]
fn mining_full_small_world() {
    let mut engine = Engine::new(World::new(2, 2, 1, TileKind::Stone), vec![Drone::new(1)]);
    engine.tasks.push(Task::MineBox(
        TileBox3::new(TileCoord3::new(0, 0, 0), TileCoord3::new(1, 1, 0)).unwrap(),
    ));
    engine.tick();
    assert_eq!(engine.world.resources.stone, 4);
}

#[test]
fn direct_box_argument_compiles() {
    let prog = program(vec![call("mine_box", vec![box_expr((3, 4, 0), (5, 4, 1))])]);
    let tasks = compile_program_to_tasks(&prog).unwrap();
    let expected =
        TileBox3::new(TileCoord3::new(3, 4, 0), TileCoord3::new(5, 4, 1)).unwrap();
    assert_eq!(tasks, vec![Task::MineBox(expected)]);
}

#[test]
fn later_let_overwrites_earlier() {
    let prog = program(vec![
        let_box("a", box_expr((0, 0, 0), (0, 0, 0))),
        call("mine_box", vec![var("a")]),
        let_box("a", box_expr((1, 1, 1), (2, 2, 2))),
        call("mine_box", vec![var("a")]),
    ]);
    let tasks = compile_program_to_tasks(&prog).unwrap();
    let first = TileBox3::new(TileCoord3::new(0, 0, 0), TileCoord3::new(0, 0, 0)).unwrap();
    let second = TileBox3::new(TileCoord3::new(1, 1, 1), TileCoord3::new(2, 2, 2)).unwrap();
    assert_eq!(tasks, vec![Task::MineBox(first), Task::MineBox(second)]);
}

#[test]
fn alias_through_variable_resolves() {
    let prog = program(vec![
        let_box("a", box_expr((0, 0, 0), (1, 0, 0))),
        let_box("b", var("a")),
        call("mine_box", vec![var("b")]),
    ]);
    let tasks = compile_program_to_tasks(&prog).unwrap();
    let expected = TileBox3::new(TileCoord3::new(0, 0, 0), TileCoord3::new(1, 0, 0)).unwrap();
    assert_eq!(tasks, vec![Task::MineBox(expected)]);
}

#[test]
fn self_alias_is_invalid_argument() {
    let prog = program(vec![let_box("a", var("a")), call("mine_box", vec![var("a")])]);
    assert!(matches!(compile_program_to_tasks(&prog), Err(CompileError::InvalidArg)));
}

#[test]
fn wrong_root_is_invalid_root() {
    let mut prog = area_program();
    prog.node = text("Script");
    assert!(matches!(compile_program_to_tasks(&prog), Err(CompileError::InvalidRoot)));
}

#[test]
fn for_in_is_unsupported() {
    let prog = program(vec![Statement::ForIn {
        var: Var { name: text("t"), ty: text("TileCoord") },
        iter_expr: Expr::IterTiles { target: Box::new(var("area")) },
        body: vec![],
    }]);
    match compile_program_to_tasks(&prog) {
        Err(CompileError::UnsupportedNode(detail)) => assert_eq!(detail, "ForIn is not supported"),
        other => panic!("unexpected result {:?}", other),
    }
}

#[test]
fn mine_box_arity_is_checked() {
    let none = program(vec![call("mine_box", vec![])]);
    assert!(matches!(compile_program_to_tasks(&none), Err(CompileError::InvalidArg)));
    let two = program(vec![call(
        "mine_box",
        vec![box_expr((0, 0, 0), (0, 0, 0)), box_expr((1, 1, 1), (1, 1, 1))],
    )]);
    assert!(matches!(compile_program_to_tasks(&two), Err(CompileError::InvalidArg)));
}

#[test]
fn unknown_variable_is_named() {
    let prog = program(vec![call("mine_box", vec![var("nowhere")])]);
    match compile_program_to_tasks(&prog) {
        Err(CompileError::UnknownVar(name)) => assert_eq!(name, "nowhere"),
        other => panic!("unexpected result {:?}", other),
    }
}

#[test]
fn non_box_argument_is_invalid() {
    let prog = program(vec![call("mine_box", vec![Expr::IntLiteral { value: 3 }])]);
    assert!(matches!(compile_program_to_tasks(&prog), Err(CompileError::InvalidArg)));
    let coord_only = program(vec![call("mine_box", vec![Expr::TileCoord { x: 0, y: 0, z: 0 }])]);
    assert!(matches!(compile_program_to_tasks(&coord_only), Err(CompileError::InvalidArg)));
}

#[test]
fn other_calls_are_unsupported() {
    let prog = program(vec![call("build_wall", vec![box_expr((0, 0, 0), (0, 0, 0))])]);
    match compile_program_to_tasks(&prog) {
        Err(CompileError::UnsupportedNode(detail)) => assert_eq!(detail, "Only mine_box is supported"),
        other => panic!("unexpected result {:?}", other),
    }
    let bare = program(vec![Statement::ExprStmt { expr: Expr::IntLiteral { value: 1 } }]);
    assert!(matches!(compile_program_to_tasks(&bare), Err(CompileError::UnsupportedNode(_))));
}

#[test]
fn let_of_other_type_is_unsupported() {
    let prog = program(vec![Statement::Let {
        name: text("n"),
        ty: text("Int"),
        value: Expr::IntLiteral { value: 4 },
    }]);
    match compile_program_to_tasks(&prog) {
        Err(CompileError::UnsupportedNode(detail)) => assert_eq!(detail, "Let type Int"),
        other => panic!("unexpected result {:?}", other),
    }
}

#[test]
fn box_corner_must_be_coordinate_node() {
    let mut bad = coord(0, 0, 0);
    bad.node = text("Point");
    let prog = program(vec![call(
        "mine_box",
        vec![Expr::TileBoxFromCoords { min: bad, max: coord(1, 1, 1) }],
    )]);
    match compile_program_to_tasks(&prog) {
        Err(CompileError::SchemaError(detail)) => {
            assert_eq!(detail, "TileBoxFromCoords needs TileCoord")
        }
        other => panic!("unexpected result {:?}", other),
    }
}

#[test]
fn inverted_box_literal_is_a_schema_error() {
    let prog = program(vec![call("mine_box", vec![box_expr((2, 0, 0), (1, 0, 0))])]);
    match compile_program_to_tasks(&prog) {
        Err(CompileError::SchemaError(detail)) => {
            assert_eq!(detail, "TileBoxFromCoords needs min <= max")
        }
        other => panic!("unexpected result {:?}", other),
    }
}

#[test]
fn first_failure_wins() {
    let prog = program(vec![
        call("mine_box", vec![var("missing")]),
        call("mine_box", vec![]),
    ]);
    assert!(matches!(compile_program_to_tasks(&prog), Err(CompileError::UnknownVar(_))));
}

#[test]
fn program_for_box_compiles_to_that_box() {
    let b = TileBox3::new(TileCoord3::new(-4, 2, 0), TileCoord3::new(6, 9, 3)).unwrap();
    let prog = program_for_mine_box(b);
    assert_eq!(prog.version, 1);
    assert_eq!(compile_program_to_tasks(&prog).unwrap(), vec![Task::MineBox(b)]);
}
