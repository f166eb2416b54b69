use crate::coords::{lemma_tiles_exact, TileBox3, TileCoord3};
use crate::resources::{sat_add, Resources};
use crate::text::{push_signed_decimal, signed_decimal};
use crate::tile::TileKind;
use crate::world::World;
use vstd::prelude::*;
use vstd::string::StringExecFns;

verus! {

/// Where a queued task stands.
#[derive(Debug, Clone, Copy, PartialEq, Eq, Structural)]
pub enum TaskState {
    Pending,
    InProgress,
    Done,
}

/// A unit of work for a drone.
#[derive(Debug, Clone, Copy, PartialEq, Eq, Structural)]
pub enum Task {
    /// Mine every tile of the box.
    MineBox(TileBox3),
}

/// `Mine box ((x,y,z)->(x,y,z))`, with the two corners of the box.
pub open spec fn description_text(t: Task) -> Seq<char> {
    match t {
        Task::MineBox(b) => "Mine box (("@ + signed_decimal(b.min.x as int) + ","@ + signed_decimal(
            b.min.y as int,
        ) + ","@ + signed_decimal(b.min.z as int) + ")->("@ + signed_decimal(b.max.x as int) + ","@
            + signed_decimal(b.max.y as int) + ","@ + signed_decimal(b.max.z as int) + "))"@,
    }
}

impl Task {
    /// A line of text that names the task.
    pub fn description(&self) -> (r: String)
        ensures
            r@ == description_text(*self),
    {
        match self {
            Task::MineBox(b) => {
                let mut s = String::from_str("Mine box ((");
                push_signed_decimal(&mut s, b.min.x);
                s.append(",");
                push_signed_decimal(&mut s, b.min.y);
                s.append(",");
                push_signed_decimal(&mut s, b.min.z);
                s.append(")->(");
                push_signed_decimal(&mut s, b.max.x);
                s.append(",");
                push_signed_decimal(&mut s, b.max.y);
                s.append(",");
                push_signed_decimal(&mut s, b.max.z);
                s.append("))");
                s
            },
        }
    }
}

/// Some entry is still pending.
pub open spec fn has_pending(s: Seq<(Task, TaskState)>) -> bool {
    exists|i: int| 0 <= i < s.len() && s[i].1 == TaskState::Pending
}

/// Entry `i` is the earliest pending one.
pub open spec fn is_first_pending(s: Seq<(Task, TaskState)>, i: int) -> bool {
    &&& 0 <= i < s.len()
    &&& s[i].1 == TaskState::Pending
    &&& forall|j: int| 0 <= j < i ==> s[j].1 != TaskState::Pending
}

pub open spec fn first_pending(s: Seq<(Task, TaskState)>) -> int {
    choose|i: int| is_first_pending(s, i)
}

/// The queue once its earliest pending entry has been started.
pub open spec fn started(s: Seq<(Task, TaskState)>) -> Seq<(Task, TaskState)> {
    s.update(first_pending(s), (s[first_pending(s)].0, TaskState::InProgress))
}

/// Entry `i` is the earliest one that holds `t`.
pub open spec fn is_first_match(s: Seq<(Task, TaskState)>, t: Task, i: int) -> bool {
    &&& 0 <= i < s.len()
    &&& s[i].0 == t
    &&& forall|j: int| 0 <= j < i ==> s[j].0 != t
}

pub open spec fn first_match(s: Seq<(Task, TaskState)>, t: Task) -> int {
    choose|i: int| is_first_match(s, t, i)
}

/// The queue once the earliest entry that holds `t`, if any, is marked done.
pub open spec fn completed(s: Seq<(Task, TaskState)>, t: Task) -> Seq<(Task, TaskState)> {
    if exists|i: int| 0 <= i < s.len() && s[i].0 == t {
        s.update(first_match(s, t), (t, TaskState::Done))
    } else {
        s
    }
}

/// Only one entry is the earliest pending one, so `first_pending` names it.
pub proof fn lemma_first_pending_unique(s: Seq<(Task, TaskState)>, i: int)
    requires
        is_first_pending(s, i),
    ensures
        has_pending(s),
        first_pending(s) == i,
{
    let k = first_pending(s);
    assert(is_first_pending(s, k));
    if k < i {
        assert(s[k].1 != TaskState::Pending);
    }
    if i < k {
        assert(s[i].1 != TaskState::Pending);
    }
}

/// Only one entry is the earliest that holds `t`, so `first_match` names it.
pub proof fn lemma_first_match_unique(s: Seq<(Task, TaskState)>, t: Task, i: int)
    requires
        is_first_match(s, t, i),
    ensures
        first_match(s, t) == i,
{
    let k = first_match(s, t);
    assert(is_first_match(s, t, k));
    if k < i {
        assert(s[k].0 != t);
    }
    if i < k {
        assert(s[i].0 != t);
    }
}

proof fn lemma_first_match_exists(s: Seq<(Task, TaskState)>, t: Task, i: int)
    requires
        0 <= i < s.len(),
        s[i].0 == t,
    ensures
        is_first_match(s, t, first_match(s, t)),
    decreases i,
{
    if exists|j: int| 0 <= j < i && s[j].0 == t {
        let j = choose|j: int| 0 <= j < i && s[j].0 == t;
        lemma_first_match_exists(s, t, j);
    } else {
        assert(is_first_match(s, t, i));
    }
}

/// A pushed task is pending, whatever the queue held before.
pub proof fn lemma_push_pending(s: Seq<(Task, TaskState)>, t: Task)
    ensures
        has_pending(s.push((t, TaskState::Pending))),
{
    assert(s.push((t, TaskState::Pending))[s.len() as int].1 == TaskState::Pending);
}

/// Starting takes pending entries in queue order: the earliest one is started and marked in
/// progress, and the next pending one becomes the earliest.
pub proof fn lemma_start_in_order(s: Seq<(Task, TaskState)>, i: int, j: int)
    requires
        is_first_pending(s, i),
        i < j < s.len(),
        s[j].1 == TaskState::Pending,
        forall|k: int| i < k < j ==> s[k].1 != TaskState::Pending,
    ensures
        first_pending(s) == i,
        started(s)[i] == (s[i].0, TaskState::InProgress),
        first_pending(started(s)) == j,
{
    lemma_first_pending_unique(s, i);
    lemma_first_pending_unique(started(s), j);
}

/// Completing a task never leaves an entry pending that was not pending before.
pub proof fn lemma_complete_adds_no_pending(s: Seq<(Task, TaskState)>, t: Task)
    requires
        !has_pending(s),
    ensures
        !has_pending(completed(s, t)),
{
    if exists|i: int| 0 <= i < s.len() && s[i].0 == t {
        let i = choose|i: int| 0 <= i < s.len() && s[i].0 == t;
        lemma_first_match_exists(s, t, i);
        let k = first_match(s, t);
        assert forall|i: int| 0 <= i < s.len() implies completed(s, t)[i].1
            != TaskState::Pending by {
            if i != k {
                assert(s[i].1 != TaskState::Pending);
            }
        }
    }
}

/// Push a task onto a queue with nothing pending: it is pending, starting picks it and marks it
/// in progress, and once it is completed nothing is pending.
pub proof fn lemma_queue_cycle(s: Seq<(Task, TaskState)>, t: Task)
    requires
        !has_pending(s),
    ensures
        has_pending(s.push((t, TaskState::Pending))),
        first_pending(s.push((t, TaskState::Pending))) == s.len(),
        started(s.push((t, TaskState::Pending)))[s.len() as int] == (t, TaskState::InProgress),
        !has_pending(started(s.push((t, TaskState::Pending)))),
        !has_pending(completed(started(s.push((t, TaskState::Pending))), t)),
{
    let s1 = s.push((t, TaskState::Pending));
    lemma_push_pending(s, t);
    assert forall|j: int| 0 <= j < s.len() implies s1[j].1 != TaskState::Pending by {
        assert(s1[j] == s[j]);
    }
    lemma_first_pending_unique(s1, s.len() as int);
    let s2 = started(s1);
    assert forall|j: int| 0 <= j < s2.len() implies s2[j].1 != TaskState::Pending by {
        if j < s.len() {
            assert(s2[j] == s[j]);
        }
    }
    lemma_complete_adds_no_pending(s2, t);
}

/// The queue of tasks, in the order they were pushed, each with its state.
#[derive(Debug)]
pub struct TaskManager {
    pub tasks: Vec<(Task, TaskState)>,
}

impl TaskManager {
    pub fn new() -> (r: Self)
        ensures
            r.tasks@ == Seq::<(Task, TaskState)>::empty(),
    {
        TaskManager { tasks: Vec::new() }
    }

    /// Appends `task` as pending.
    pub fn push(&mut self, task: Task)
        ensures
            final(self).tasks@ == old(self).tasks@.push((task, TaskState::Pending)),
    {
        self.tasks.push((task, TaskState::Pending));
    }

    pub fn any_pending(&self) -> (r: bool)
        ensures
            r == has_pending(self.tasks@),
    {
        let mut i: usize = 0;
        while i < self.tasks.len()
            invariant
                i <= self.tasks@.len(),
                forall|j: int| 0 <= j < i ==> self.tasks@[j].1 != TaskState::Pending,
            decreases self.tasks@.len() - i,
        {
            if self.tasks[i].1 == TaskState::Pending {
                return true;
            }
            i = i + 1;
        }
        false
    }

    /// Starts the earliest pending task and hands back a copy of it; with nothing pending,
    /// nothing changes.
    pub fn start_next(&mut self) -> (r: Option<Task>)
        ensures
            has_pending(old(self).tasks@) ==> r == Some(old(self).tasks@[first_pending(old(self).tasks@)].0)
                && final(self).tasks@ == started(old(self).tasks@),
            !has_pending(old(self).tasks@) ==> r is None && final(self).tasks@ == old(self).tasks@,
    {
        let mut i: usize = 0;
        while i < self.tasks.len()
            invariant
                self.tasks@ == old(self).tasks@,
                i <= self.tasks@.len(),
                forall|j: int| 0 <= j < i ==> self.tasks@[j].1 != TaskState::Pending,
            decreases self.tasks@.len() - i,
        {
            if self.tasks[i].1 == TaskState::Pending {
                let task = self.tasks[i].0;
                proof {
                    lemma_first_pending_unique(self.tasks@, i as int);
                }
                self.tasks.set(i, (task, TaskState::InProgress));
                return Some(task);
            }
            i = i + 1;
        }
        None
    }

    /// Marks done the earliest entry whose task equals `t`; without one, nothing changes.
    pub fn complete_current(&mut self, t: &Task)
        ensures
            final(self).tasks@ == completed(old(self).tasks@, *t),
    {
        let mut i: usize = 0;
        while i < self.tasks.len()
            invariant
                self.tasks@ == old(self).tasks@,
                i <= self.tasks@.len(),
                forall|j: int| 0 <= j < i ==> self.tasks@[j].0 != *t,
            decreases self.tasks@.len() - i,
        {
            if self.tasks[i].0 == *t {
                proof {
                    lemma_first_match_unique(self.tasks@, *t, i as int);
                }
                self.tasks.set(i, (*t, TaskState::Done));
                return;
            }
            i = i + 1;
        }
    }
}

/// Coordinates whose tile in `w` is `k`.
pub open spec fn kind_pred(w: World, k: TileKind) -> spec_fn(TileCoord3) -> bool {
    |c: TileCoord3| w.tile(c) == Some(k)
}

/// How many tiles of `b` are of kind `k` in `w`.
pub open spec fn kind_count(w: World, b: TileBox3, k: TileKind) -> nat {
    b.tiles().filter(kind_pred(w, k)).len()
}

/// `after` is `before` with every mineable tile of `b` mined: those tiles are air, the rest is
/// as it was, and their yield is in the resources.
pub open spec fn box_mined(before: World, after: World, b: TileBox3) -> bool {
    &&& after.wf()
    &&& after.same_frame(before)
    &&& forall|c: TileCoord3|
        #[trigger] after.tile(c) == if b.spec_contains(c) && before.yield_at(c) is Some {
            Some(TileKind::Air)
        } else {
            before.tile(c)
        }
    &&& after.spec_resources() == (Resources {
        stone: sat_add(before.spec_resources().stone, kind_count(before, b, TileKind::Stone)),
        iron: sat_add(before.spec_resources().iron, kind_count(before, b, TileKind::Iron)),
    })
}

/// `after` is `before` once `t` has been carried out.
pub open spec fn task_applied(before: World, after: World, t: Task) -> bool {
    match t {
        Task::MineBox(b) => box_mined(before, after, b),
    }
}

/// How many tiles carrying out `t` mines in `w`, held at `u32::MAX`.
pub open spec fn mined_count(w: World, t: Task) -> u32 {
    match t {
        Task::MineBox(b) => sat_add(
            0,
            kind_count(w, b, TileKind::Stone) + kind_count(w, b, TileKind::Iron),
        ),
    }
}

/// Carries out `task` on the world and returns how many tiles it mined.
pub fn apply_task(world: &mut World, task: &Task) -> (r: u32)
    requires
        old(world).wf(),
    ensures
        task_applied(*old(world), *final(world), *task),
        r == mined_count(*old(world), *task),
{
    match task {
        Task::MineBox(b) => {
            let ghost w0 = *world;
            let ghost sp = kind_pred(w0, TileKind::Stone);
            let ghost ip = kind_pred(w0, TileKind::Iron);
            let all = b.iter_tiles();
            proof {
                if b.wf() {
                    lemma_tiles_exact(*b);
                }
            }
            let mut count: u32 = 0;
            let mut i: usize = 0;
            while i < all.len()
                invariant
                    w0 == *old(world),
                    sp == kind_pred(w0, TileKind::Stone),
                    ip == kind_pred(w0, TileKind::Iron),
                    all@ == b.tiles(),
                    all@.no_duplicates(),
                    i <= all@.len(),
                    world.wf(),
                    world.same_frame(w0),
                    forall|c: TileCoord3|
                        #[trigger] world.tile(c) == if all@.take(i as int).contains(c)
                            && w0.yield_at(c) is Some {
                            Some(TileKind::Air)
                        } else {
                            w0.tile(c)
                        },
                    world.spec_resources() == (Resources {
                        stone: sat_add(
                            w0.spec_resources().stone,
                            all@.take(i as int).filter(sp).len(),
                        ),
                        iron: sat_add(w0.spec_resources().iron, all@.take(i as int).filter(ip).len()),
                    }),
                    count == sat_add(
                        0,
                        all@.take(i as int).filter(sp).len() + all@.take(i as int).filter(ip).len(),
                    ),
                decreases all@.len() - i,
            {
                let c = all[i];
                let ghost before = *world;
                proof {
                    let t = all@.take(i as int);
                    assert(all@.take(i + 1) =~= t.push(c));
                    t.lemma_filter_push(c, sp);
                    t.lemma_filter_push(c, ip);
                    if t.contains(c) {
                        let j = choose|j: int| 0 <= j < t.len() && t[j] == c;
                        assert(all@[j] == all@[i as int]);
                    }
                    assert(world.tile(c) == w0.tile(c));
                }
                let mined = world.mine_tile(TileCoord3 { x: c.x, y: c.y, z: c.z });
                if mined.is_some() {
                    count = count.saturating_add(1);
                }
                proof {
                    let t1 = all@.take(i + 1);
                    assert forall|d: TileCoord3| #[trigger] world.tile(d) == if t1.contains(d)
                        && w0.yield_at(d) is Some {
                        Some(TileKind::Air)
                    } else {
                        w0.tile(d)
                    } by {
                        assert(before.tile(d) == if all@.take(i as int).contains(d)
                            && w0.yield_at(d) is Some {
                            Some(TileKind::Air)
                        } else {
                            w0.tile(d)
                        });
                        let t = all@.take(i as int);
                        assert(t1 =~= t.push(c));
                        if t1.contains(d) {
                            let j = choose|j: int| 0 <= j < t1.len() && t1[j] == d;
                            if j < i {
                                assert(t[j] == d);
                            }
                        }
                        if t.contains(d) {
                            let j = choose|j: int| 0 <= j < t.len() && t[j] == d;
                            assert(t1[j] == d);
                        }
                        if d == c {
                            assert(t1[i as int] == d);
                        }
                    }
                }
                i = i + 1;
            }
            proof {
                assert(all@.take(i as int) =~= all@);
                assert forall|c: TileCoord3| all@.contains(c) <==> b.spec_contains(c) by {
                    if !b.wf() {
                        assert(!b.spec_contains(c));
                    }
                }
            }
            count
        },
    }
}

/// Filtering by a predicate keeps as many elements as satisfy it: all of them when every
/// element does, none when none does.
proof fn lemma_filter_uniform<A>(s: Seq<A>, p: spec_fn(A) -> bool, keep: bool)
    requires
        forall|i: int| 0 <= i < s.len() ==> p(s[i]) == keep,
    ensures
        s.filter(p).len() == if keep {
            s.len()
        } else {
            0
        },
    decreases s.len(),
{
    reveal(Seq::filter);
    if s.len() > 0 {
        let rest = s.drop_last();
        assert forall|i: int| 0 <= i < rest.len() implies p(rest[i]) == keep by {
            assert(rest[i] == s[i]);
        }
        lemma_filter_uniform(rest, p, keep);
    }
}

/// Mining a box that lies inside the world and holds only stone adds one stone per tile of the
/// box, held at `u32::MAX`, and no iron.
pub proof fn lemma_stone_box_yield(before: World, after: World, b: TileBox3)
    requires
        b.wf(),
        forall|c: TileCoord3| b.spec_contains(c) ==> before.tile(c) == Some(TileKind::Stone),
        box_mined(before, after, b),
    ensures
        after.spec_resources().stone == sat_add(
            before.spec_resources().stone,
            b.tile_count() as nat,
        ),
        after.spec_resources().iron == before.spec_resources().iron,
{
    lemma_tiles_exact(b);
    let s = b.tiles();
    assert forall|i: int| 0 <= i < s.len() implies kind_pred(before, TileKind::Stone)(s[i])
        == true by {
        assert(s.contains(s[i]));
    }
    assert forall|i: int| 0 <= i < s.len() implies kind_pred(before, TileKind::Iron)(s[i])
        == false by {
        assert(s.contains(s[i]));
    }
    lemma_filter_uniform(s, kind_pred(before, TileKind::Stone), true);
    lemma_filter_uniform(s, kind_pred(before, TileKind::Iron), false);
}

} // verus!
