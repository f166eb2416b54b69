use crate::coords::{ordered, TileBox3, TileCoord3};
use crate::tasks::Task;
use vstd::prelude::*;
use vstd::string::StringExecFns;

verus! {

/// Why a program did not compile.
#[derive(Debug, Clone)]
pub enum CompileError {
    /// The root node is not tagged `Program`.
    InvalidRoot,
    /// A node of the grammar that the compiler does not implement.
    UnsupportedNode(String),
    /// A variable that no earlier `Let` bound.
    UnknownVar(String),
    /// A call with the wrong number of arguments, or an argument that is not a box.
    InvalidArg,
    /// A box whose corners are not coordinate nodes, or are not ordered.
    SchemaError(String),
}

/// The value of a `CompileError`, with its text as characters.
pub enum CompileFault {
    InvalidRoot,
    UnsupportedNode(Seq<char>),
    UnknownVar(Seq<char>),
    InvalidArg,
    SchemaError(Seq<char>),
}

impl CompileError {
    pub open spec fn fault(self) -> CompileFault {
        match self {
            CompileError::InvalidRoot => CompileFault::InvalidRoot,
            CompileError::UnsupportedNode(s) => CompileFault::UnsupportedNode(s@),
            CompileError::UnknownVar(s) => CompileFault::UnknownVar(s@),
            CompileError::InvalidArg => CompileFault::InvalidArg,
            CompileError::SchemaError(s) => CompileFault::SchemaError(s@),
        }
    }
}

/// A program: a version, the root tag, and its statements in order.
#[derive(Debug)]
pub struct Program {
    pub version: u32,
    pub node: String,
    pub statements: Vec<Statement>,
}

#[derive(Debug)]
pub enum Statement {
    Let { name: String, ty: String, value: Expr },
    ExprStmt { expr: Expr },
    ForIn { var: Var, iter_expr: Expr, body: Vec<Statement> },
}

/// A loop variable with its declared type.
#[derive(Debug, Clone)]
pub struct Var {
    pub name: String,
    pub ty: String,
}

#[derive(Debug)]
pub enum Expr {
    TileBoxFromCoords { min: Coord, max: Coord },
    TileCoord { x: i32, y: i32, z: i32 },
    VarRef { name: String },
    Call { func: String, args: Vec<Expr> },
    IterTiles { target: Box<Expr> },
    IntLiteral { value: i64 },
}

/// A corner of a box literal; `node` should be the coordinate tag.
#[derive(Debug, Clone)]
pub struct Coord {
    pub node: String,
    pub x: i32,
    pub y: i32,
    pub z: i32,
}

/// The expression bound to `name` by the last `Let` among the first `n` statements.
pub open spec fn binding(stmts: Seq<Statement>, n: int, name: Seq<char>) -> Option<Expr>
    decreases n,
{
    if n <= 0 {
        None
    } else {
        match stmts[n - 1] {
            Statement::Let { name: m, value, .. } => {
                if m@ == name {
                    Some(value)
                } else {
                    binding(stmts, n - 1, name)
                }
            },
            _ => binding(stmts, n - 1, name),
        }
    }
}

pub open spec fn schema_text() -> Seq<char> {
    "TileBoxFromCoords needs TileCoord"@
}

pub open spec fn bounds_text() -> Seq<char> {
    "TileBoxFromCoords needs min <= max"@
}

/// The box that `e` stands for when the first `n` statements are in scope, following at most
/// `fuel` variables. A chain of variables that runs out of fuel loops back on itself, since
/// fewer than `n` names are bound: it never reaches a box.
pub open spec fn resolve(e: Expr, stmts: Seq<Statement>, n: int, fuel: nat) -> Result<
    TileBox3,
    CompileFault,
>
    decreases fuel,
{
    match e {
        Expr::TileBoxFromCoords { min, max } => {
            if min.node@ != "TileCoord"@ || max.node@ != "TileCoord"@ {
                Err(CompileFault::SchemaError(schema_text()))
            } else {
                let lo = TileCoord3 { x: min.x, y: min.y, z: min.z };
                let hi = TileCoord3 { x: max.x, y: max.y, z: max.z };
                if ordered(lo, hi) {
                    Ok(TileBox3 { min: lo, max: hi })
                } else {
                    Err(CompileFault::SchemaError(bounds_text()))
                }
            }
        },
        Expr::VarRef { name } => match binding(stmts, n, name@) {
            None => Err(CompileFault::UnknownVar(name@)),
            Some(v) => if fuel == 0 {
                Err(CompileFault::InvalidArg)
            } else {
                resolve(v, stmts, n, (fuel - 1) as nat)
            },
        },
        _ => Err(CompileFault::InvalidArg),
    }
}

/// What statement `i` contributes: nothing (a binding), one task, or a failure.
pub open spec fn step(stmts: Seq<Statement>, i: int) -> Result<Option<Task>, CompileFault> {
    match stmts[i] {
        Statement::Let { ty, .. } => if ty@ == "TileBox"@ {
            Ok(None)
        } else {
            Err(CompileFault::UnsupportedNode("Let type "@ + ty@))
        },
        Statement::ExprStmt { expr } => match expr {
            Expr::Call { func, args } => {
                if func@ == "mine_box"@ {
                    if args@.len() != 1 {
                        Err(CompileFault::InvalidArg)
                    } else {
                        match resolve(args@[0], stmts, i, i as nat) {
                            Ok(b) => Ok(Some(Task::MineBox(b))),
                            Err(f) => Err(f),
                        }
                    }
                } else {
                    Err(CompileFault::UnsupportedNode("Only mine_box is supported"@))
                }
            },
            _ => Err(CompileFault::UnsupportedNode("Only mine_box is supported"@)),
        },
        Statement::ForIn { .. } => Err(CompileFault::UnsupportedNode("ForIn is not supported"@)),
    }
}

/// The tasks of statements `i..` in order, or the first failure among them.
pub open spec fn compile_from(stmts: Seq<Statement>, i: int) -> Result<Seq<Task>, CompileFault>
    decreases stmts.len() - i,
{
    if i < 0 || i >= stmts.len() {
        Ok(Seq::empty())
    } else {
        match step(stmts, i) {
            Err(f) => Err(f),
            Ok(o) => match compile_from(stmts, i + 1) {
                Err(f) => Err(f),
                Ok(ts) => match o {
                    Some(t) => Ok(seq![t] + ts),
                    None => Ok(ts),
                },
            },
        }
    }
}

/// What compiling `p` gives.
pub open spec fn compiled(p: Program) -> Result<Seq<Task>, CompileFault> {
    if p.node@ != "Program"@ {
        Err(CompileFault::InvalidRoot)
    } else {
        compile_from(p.statements@, 0)
    }
}

pub open spec fn outcome(r: Result<Vec<Task>, CompileError>) -> Result<Seq<Task>, CompileFault> {
    match r {
        Ok(v) => Ok(v@),
        Err(e) => Err(e.fault()),
    }
}

pub open spec fn box_outcome(r: Result<TileBox3, CompileError>) -> Result<TileBox3, CompileFault> {
    match r {
        Ok(b) => Ok(b),
        Err(e) => Err(e.fault()),
    }
}

/// The expression that the last `Let` among the first `n` statements binds to `name`.
fn lookup<'a>(stmts: &'a Vec<Statement>, n: usize, name: &String) -> (r: Option<&'a Expr>)
    requires
        n <= stmts@.len(),
    ensures
        match binding(stmts@, n as int, name@) {
            None => r is None,
            Some(v) => r matches Some(x) && *x == v,
        },
{
    let mut j: usize = n;
    while j > 0
        invariant
            j <= n <= stmts@.len(),
            binding(stmts@, n as int, name@) == binding(stmts@, j as int, name@),
        decreases j,
    {
        if let Statement::Let { name: m, value, .. } = &stmts[j - 1] {
            if *m == *name {
                return Some(value);
            }
        }
        j = j - 1;
    }
    None
}

/// The box that `e` stands for, with the first `n` statements in scope.
fn expr_to_box3(e: &Expr, stmts: &Vec<Statement>, n: usize, fuel: usize) -> (r: Result<
    TileBox3,
    CompileError,
>)
    requires
        n <= stmts@.len(),
    ensures
        box_outcome(r) == resolve(*e, stmts@, n as int, fuel as nat),
    decreases fuel,
{
    match e {
        Expr::TileBoxFromCoords { min, max } => {
            let coord_tag = String::from_str("TileCoord");
            if !(min.node == coord_tag) || !(max.node == coord_tag) {
                return Err(CompileError::SchemaError(String::from_str("TileBoxFromCoords needs TileCoord")));
            }
            let lo = TileCoord3 { x: min.x, y: min.y, z: min.z };
            let hi = TileCoord3 { x: max.x, y: max.y, z: max.z };
            match TileBox3::new(lo, hi) {
                Ok(b) => Ok(b),
                Err(_) => Err(
                    CompileError::SchemaError(String::from_str("TileBoxFromCoords needs min <= max")),
                ),
            }
        },
        Expr::VarRef { name } => match lookup(stmts, n, name) {
            None => Err(CompileError::UnknownVar(name.clone())),
            Some(v) => {
                if fuel == 0 {
                    Err(CompileError::InvalidArg)
                } else {
                    expr_to_box3(v, stmts, n, fuel - 1)
                }
            },
        },
        _ => Err(CompileError::InvalidArg),
    }
}

/// Compiles `p` into its tasks, one `MineBox` per `mine_box` statement in program order, or
/// reports the first statement that cannot be compiled.
pub fn compile_program_to_tasks(p: &Program) -> (r: Result<Vec<Task>, CompileError>)
    ensures
        outcome(r) == compiled(*p),
{
    let program_tag = String::from_str("Program");
    if !(p.node == program_tag) {
        return Err(CompileError::InvalidRoot);
    }
    let box_tag = String::from_str("TileBox");
    let mine_box = String::from_str("mine_box");
    let ghost stmts = p.statements@;
    let mut tasks: Vec<Task> = Vec::new();
    let mut i: usize = 0;
    while i < p.statements.len()
        invariant
            stmts == p.statements@,
            i <= stmts.len(),
            box_tag@ == "TileBox"@,
            mine_box@ == "mine_box"@,
            p.node@ == "Program"@,
            compile_from(stmts, 0) == match compile_from(stmts, i as int) {
                Ok(ts) => Ok(tasks@ + ts),
                Err(f) => Err(f),
            },
        decreases stmts.len() - i,
    {
        match &p.statements[i] {
            Statement::Let { ty, .. } => {
                if !(*ty == box_tag) {
                    let mut msg = String::from_str("Let type ");
                    msg.append(ty.as_str());
                    return Err(CompileError::UnsupportedNode(msg));
                }
            },
            Statement::ExprStmt { expr } => {
                match expr {
                    Expr::Call { func, args } => {
                        if !(*func == mine_box) {
                            return Err(
                                CompileError::UnsupportedNode(String::from_str("Only mine_box is supported")),
                            );
                        }
                        if args.len() != 1 {
                            return Err(CompileError::InvalidArg);
                        }
                        match expr_to_box3(&args[0], &p.statements, i, i) {
                            Ok(b) => {
                                let ghost before = tasks@;
                                tasks.push(Task::MineBox(b));
                                proof {
                                    match compile_from(stmts, i + 1) {
                                        Ok(ts) => {
                                            assert(before + (seq![Task::MineBox(b)] + ts) =~= tasks@
                                                + ts);
                                        },
                                        Err(_) => {},
                                    }
                                }
                            },
                            Err(e) => {
                                return Err(e);
                            },
                        }
                    },
                    _ => {
                        return Err(
                            CompileError::UnsupportedNode(String::from_str("Only mine_box is supported")),
                        );
                    },
                }
            },
            Statement::ForIn { .. } => {
                return Err(CompileError::UnsupportedNode(String::from_str("ForIn is not supported")));
            },
        }
        i = i + 1;
    }
    assert(tasks@ + Seq::<Task>::empty() =~= tasks@);
    Ok(tasks)
}

/// The program `let area: TileBox = <b>; mine_box(area)`, which mines the box `b`.
pub fn program_for_mine_box(b: TileBox3) -> (r: Program)
    ensures
        r.version == 1,
        compiled(r) == if b.wf() {
            Ok(seq![Task::MineBox(b)])
        } else {
            Err(CompileFault::SchemaError(bounds_text()))
        },
{
    let corner_min = Coord { node: String::from_str("TileCoord"), x: b.min.x, y: b.min.y, z: b.min.z };
    let corner_max = Coord { node: String::from_str("TileCoord"), x: b.max.x, y: b.max.y, z: b.max.z };
    let area = String::from_str("area");
    let bind = Statement::Let {
        name: area,
        ty: String::from_str("TileBox"),
        value: Expr::TileBoxFromCoords { min: corner_min, max: corner_max },
    };
    let mut args: Vec<Expr> = Vec::new();
    args.push(Expr::VarRef { name: String::from_str("area") });
    let ghost arg = args@[0];
    let call = Statement::ExprStmt { expr: Expr::Call { func: String::from_str("mine_box"), args } };
    let mut statements: Vec<Statement> = Vec::new();
    statements.push(bind);
    statements.push(call);
    let r = Program { version: 1, node: String::from_str("Program"), statements };
    proof {
        let stmts = r.statements@;
        assert(binding(stmts, 1, "area"@) == Some(stmts[0]->value));
        let target = stmts[0]->value;
        assert(resolve(target, stmts, 1, 0) == if b.wf() {
            Ok::<TileBox3, CompileFault>(b)
        } else {
            Err(CompileFault::SchemaError(bounds_text()))
        });
        assert(resolve(arg, stmts, 1, 1) == resolve(
            target,
            stmts,
            1,
            0,
        ));
        assert(compile_from(stmts, 2) == Ok::<Seq<Task>, CompileFault>(Seq::empty()));
        if b.wf() {
            assert(seq![Task::MineBox(b)] + Seq::<Task>::empty() =~= seq![Task::MineBox(b)]);
        }
        assert(compile_from(stmts, 0) == compile_from(stmts, 1));
    }
    r
}

} // verus!
