//! Runs the registered systems once per tick, in an order that respects the
//! declared dependencies; ties go by order of registration.
use vstd::prelude::*;
use crate::ecs::systems::camera_focus::{follow_world, lemma_follow_dom};
use crate::ecs::systems::camera_zoom::zoom_world;
use crate::ecs::systems::control::control_world;
use crate::ecs::systems::velocity::integrate_world;
use crate::ecs::systems::{camera, camera_focus, camera_zoom, control, velocity, SystemError};
use crate::ecs::world::{entities_in, World, WorldModel};

verus! {

/// The systems a dispatcher can run.
#[derive(Clone, Copy, Debug, PartialEq, Eq, Structural)]
pub enum SystemKind {
    Velocity,
    Control,
    CameraFocus,
    CameraZoom,
    Camera,
}

/// A system registered under a name, to run after every system registered
/// under one of the names in `deps`.
pub struct Registration {
    pub kind: SystemKind,
    pub name: String,
    pub deps: Vec<String>,
}

#[derive(Debug, PartialEq, Eq)]
pub enum BuildError {
    /// The system at index `system` names a dependency that no system has.
    MissingDependency { system: usize, dependency: String },
    /// No order of the systems respects every dependency.
    Cycle,
}

/// The system at index `i` must run after the one at index `j`.
pub open spec fn depends_on(regs: Seq<Registration>, i: int, j: int) -> bool {
    exists|d: int| 0 <= d < regs[i].deps@.len() && #[trigger] regs[i].deps@[d]@ == regs[j].name@
}

/// Dependency `d` of the system at index `i` names no registered system.
pub open spec fn dangling(regs: Seq<Registration>, i: int, d: int) -> bool {
    forall|j: int| 0 <= j < regs.len() ==> #[trigger] regs[j].name@ != regs[i].deps@[d]@
}

pub open spec fn has_dangling(regs: Seq<Registration>) -> bool {
    exists|i: int, d: int| 0 <= i < regs.len() && 0 <= d < regs[i].deps@.len() && #[trigger] dangling(regs, i, d)
}

/// The system at index `i` is not yet scheduled and every system it depends
/// on is.
pub open spec fn ready(regs: Seq<Registration>, done: Seq<usize>, i: int) -> bool {
    &&& 0 <= i < regs.len()
    &&& !done.contains(i as usize)
    &&& forall|j: int| 0 <= j < regs.len() && #[trigger] depends_on(regs, i, j) ==> done.contains(j as usize)
}

/// `i` is the lowest index that is ready.
pub open spec fn first_ready(regs: Seq<Registration>, done: Seq<usize>, i: int) -> bool {
    ready(regs, done, i) && forall|k: int| 0 <= k < i ==> !#[trigger] ready(regs, done, k)
}

/// The lowest ready index, where one is ready.
pub open spec fn next_pick(regs: Seq<Registration>, done: Seq<usize>) -> int {
    choose|i: int| first_ready(regs, done, i)
}

/// The first `k` systems of the run order: each step takes the lowest index
/// whose dependencies are all scheduled; `None` where no system is ready,
/// which is where the dependencies of the rest form a cycle.
pub open spec fn schedule(regs: Seq<Registration>, k: nat) -> Option<Seq<usize>>
    decreases k,
{
    if k == 0 {
        Some(Seq::empty())
    } else {
        match schedule(regs, (k - 1) as nat) {
            Some(done) => if first_ready(regs, done, next_pick(regs, done)) {
                Some(done.push(next_pick(regs, done) as usize))
            } else {
                None
            },
            None => None,
        }
    }
}

/// The effect of one system on the world.
pub open spec fn system_effect(k: SystemKind, w: WorldModel) -> Result<WorldModel, SystemError> {
    match k {
        SystemKind::Velocity => Ok(integrate_world(w)),
        SystemKind::Control => Ok(control_world(w)),
        SystemKind::CameraFocus => follow_world(w, false),
        SystemKind::CameraZoom => Ok(zoom_world(w)),
        SystemKind::Camera => follow_world(w, true),
    }
}

/// The systems `ks` run one after the other; the first failure ends the run.
pub open spec fn run_all(ks: Seq<SystemKind>, w: WorldModel) -> Result<WorldModel, SystemError>
    decreases ks.len(),
{
    if ks.len() == 0 {
        Ok(w)
    } else {
        match run_all(ks.drop_last(), w) {
            Ok(w1) => system_effect(ks.last(), w1),
            Err(e) => Err(e),
        }
    }
}

/// Collects registrations before the run order is fixed.
pub struct DispatcherBuilder {
    pub systems: Vec<Registration>,
}

/// Systems in the order in which each tick runs them.
pub struct Dispatcher {
    order: Vec<SystemKind>,
}

impl View for Dispatcher {
    type V = Seq<SystemKind>;

    closed spec fn view(&self) -> Seq<SystemKind> {
        self.order@
    }
}

impl DispatcherBuilder {
    pub fn new() -> (b: DispatcherBuilder)
        ensures
            b.systems@ == Seq::<Registration>::empty(),
    {
        DispatcherBuilder { systems: Vec::new() }
    }

    /// Registers `kind` under `name`, to run after the systems named in
    /// `deps`.
    pub fn add(self, kind: SystemKind, name: String, deps: Vec<String>) -> (b: DispatcherBuilder)
        ensures
            b.systems@ == self.systems@.push(Registration { kind, name, deps }),
    {
        let mut systems = self.systems;
        systems.push(Registration { kind, name, deps });
        DispatcherBuilder { systems }
    }
}


/// Once no system is ready, no longer prefix of the order exists either.
pub proof fn lemma_schedule_stuck(regs: Seq<Registration>, k: nat, m: nat)
    requires
        k <= m,
        schedule(regs, k) is None,
    ensures
        schedule(regs, m) is None,
    decreases m - k,
{
    if k < m {
        lemma_schedule_stuck(regs, k, (m - 1) as nat);
    }
}

/// Where `p` is the lowest ready index, the next step of the order takes it.
pub proof fn lemma_schedule_step(regs: Seq<Registration>, k: nat, done: Seq<usize>, p: int)
    requires
        schedule(regs, k) == Some(done),
        first_ready(regs, done, p),
    ensures
        schedule(regs, k + 1) == Some(done.push(p as usize)),
{
    assert(ready(regs, done, p));
    let c = next_pick(regs, done);
    assert(first_ready(regs, done, c));
    lemma_first_ready_unique(regs, done, c, p);
    assert(schedule(regs, (k + 1 - 1) as nat) == Some(done));
    assert(schedule(regs, k + 1) == Some(done.push(c as usize)));
}

/// `o` lists distinct systems of `regs`, each after every system it depends
/// on.
pub open spec fn respects_deps(regs: Seq<Registration>, o: Seq<usize>) -> bool {
    &&& forall|p: int| 0 <= p < o.len() ==> (#[trigger] o[p] as int) < regs.len()
    &&& forall|p: int, q: int| 0 <= p < q < o.len() ==> o[p] != o[q]
    &&& forall|p: int, j: int|
        0 <= p < o.len() && 0 <= j < regs.len() && #[trigger] depends_on(regs, o[p] as int, j) ==> exists|q: int|
            0 <= q < p && #[trigger] o[q] == j as usize
}

/// Every prefix of the run order lists distinct systems, each after the
/// systems it depends on; the full order thus runs every system exactly
/// once, after its dependencies.
pub proof fn lemma_schedule_valid(regs: Seq<Registration>, k: nat)
    requires
        regs.len() <= usize::MAX,
        schedule(regs, k) is Some,
    ensures
        schedule(regs, k)->Some_0.len() == k,
        respects_deps(regs, schedule(regs, k)->Some_0),
    decreases k,
{
    if k > 0 {
        lemma_schedule_valid(regs, (k - 1) as nat);
        let done = schedule(regs, (k - 1) as nat)->Some_0;
        let i = next_pick(regs, done);
        let o = done.push(i as usize);
        assert(o == schedule(regs, k)->Some_0);
        assert forall|p: int, q: int| 0 <= p < q < o.len() implies o[p] != o[q] by {
            if q == o.len() - 1 {
                assert(done[p] == o[p]);
                if o[p] == o[q] {
                    assert(done.contains(i as usize));
                }
            }
        }
        assert forall|p: int, j: int|
            0 <= p < o.len() && 0 <= j < regs.len() && #[trigger] depends_on(regs, o[p] as int, j) implies exists|q: int|
            0 <= q < p && #[trigger] o[q] == j as usize by {
            if p == o.len() - 1 {
                assert(done.contains(j as usize));
                let q = choose|q: int| 0 <= q < done.len() && done[q] == j as usize;
                assert(o[q] == j as usize);
            } else {
                assert(o[p] == done[p]);
                let q = choose|q: int| 0 <= q < p && #[trigger] done[q] == j as usize;
                assert(o[q] == j as usize);
            }
        }
    }
}

/// Every system outside `done` depends on another system outside `done`:
/// following dependencies from any of them runs in a circle.
pub open spec fn all_waiting(regs: Seq<Registration>, done: Seq<usize>) -> bool {
    &&& done.len() < regs.len()
    &&& forall|i: int| 0 <= i < regs.len() && !done.contains(i as usize) ==> #[trigger] waits(regs, done, i)
}

/// The system at index `i` depends on a system outside `done`.
pub open spec fn waits(regs: Seq<Registration>, done: Seq<usize>, i: int) -> bool {
    exists|j: int| 0 <= j < regs.len() && #[trigger] depends_on(regs, i, j) && !done.contains(j as usize)
}

/// Where some index is ready, a lowest ready one exists.
pub proof fn lemma_first_ready_exists(regs: Seq<Registration>, done: Seq<usize>, i: int)
    requires
        ready(regs, done, i),
    ensures
        first_ready(regs, done, next_pick(regs, done)),
    decreases i,
{
    if forall|k: int| 0 <= k < i ==> !#[trigger] ready(regs, done, k) {
        assert(first_ready(regs, done, i));
    } else {
        let k = choose|k: int| 0 <= k < i && #[trigger] ready(regs, done, k);
        lemma_first_ready_exists(regs, done, k);
    }
}

/// Where the order gets stuck after `done`, every remaining system waits on
/// another remaining one.
pub proof fn lemma_stuck_waiting(regs: Seq<Registration>, done: Seq<usize>)
    requires
        regs.len() <= usize::MAX,
        done.len() < regs.len(),
        !first_ready(regs, done, next_pick(regs, done)),
    ensures
        all_waiting(regs, done),
{
    assert forall|i: int| 0 <= i < regs.len() && !done.contains(i as usize) implies #[trigger] waits(regs, done, i) by {
        if !ready(regs, done, i) {
        } else {
            lemma_first_ready_exists(regs, done, i);
        }
    }
}

/// At most one index is the lowest ready one.
pub proof fn lemma_first_ready_unique(regs: Seq<Registration>, done: Seq<usize>, a: int, b: int)
    requires
        first_ready(regs, done, a),
        first_ready(regs, done, b),
    ensures
        a == b,
{
    if a < b {
        assert(!ready(regs, done, a));
    } else if b < a {
        assert(!ready(regs, done, b));
    }
}

/// A failure of a prefix of the systems is the failure of the whole run.
pub proof fn lemma_run_err(ks: Seq<SystemKind>, w: WorldModel, j: int)
    requires
        0 <= j <= ks.len(),
        run_all(ks.take(j), w) is Err,
    ensures
        run_all(ks, w) == run_all(ks.take(j), w),
    decreases ks.len(),
{
    if j == ks.len() {
        assert(ks.take(j) =~= ks);
    } else {
        assert(ks.drop_last().take(j) =~= ks.take(j));
        lemma_run_err(ks.drop_last(), w, j);
    }
}

/// Every system keeps the world well formed.
pub proof fn lemma_effect_wf(k: SystemKind, w: WorldModel)
    requires
        w.wf(),
    ensures
        system_effect(k, w) is Ok ==> system_effect(k, w)->Ok_0.wf(),
{
    match k {
        SystemKind::CameraFocus | SystemKind::Camera => {
            lemma_follow_dom(
                w.transforms,
                w.cameras,
                entities_in(w.next_id, w.cameras.dom()),
                k == SystemKind::Camera,
            );
        },
        _ => {},
    }
}

/// Dependency `d` of system `i` is missing, or `None` where every
/// dependency names a registered system.
fn find_dangling(regs: &Vec<Registration>) -> (r: Option<(usize, usize)>)
    ensures
        match r {
            None => !has_dangling(regs@),
            Some((i, d)) => i < regs@.len() && d < regs@[i as int].deps@.len() && dangling(
                regs@,
                i as int,
                d as int,
            ),
        },
{
    let n = regs.len();
    let mut i: usize = 0;
    while i < n
        invariant
            n == regs@.len(),
            i <= n,
            forall|a: int, d: int|
                0 <= a < i && 0 <= d < regs@[a].deps@.len() ==> !#[trigger] dangling(regs@, a, d),
        decreases n - i,
    {
        let m = regs[i].deps.len();
        let mut d: usize = 0;
        while d < m
            invariant
                n == regs@.len(),
                i < n,
                m == regs@[i as int].deps@.len(),
                d <= m,
                forall|a: int, e: int|
                    0 <= a < i && 0 <= e < regs@[a].deps@.len() ==> !#[trigger] dangling(regs@, a, e),
                forall|e: int| 0 <= e < d ==> !#[trigger] dangling(regs@, i as int, e),
            decreases m - d,
        {
            let mut found = false;
            let mut j: usize = 0;
            while j < n
                invariant
                    n == regs@.len(),
                    i < n,
                    d < regs@[i as int].deps@.len(),
                    j <= n,
                    found ==> !dangling(regs@, i as int, d as int),
                    !found ==> forall|x: int| 0 <= x < j ==> #[trigger] regs@[x].name@ != regs@[i as int].deps@[d as int]@,
                decreases n - j,
            {
                if regs[j].name == regs[i].deps[d] {
                    found = true;
                }
                j = j + 1;
            }
            if !found {
                return Some((i, d));
            }
            d = d + 1;
        }
        i = i + 1;
    }
    None
}


/// Whether every system that the system at index `i` depends on is marked
/// in `done`.
fn deps_scheduled(regs: &Vec<Registration>, done: &Vec<bool>, i: usize, Ghost(order): Ghost<Seq<usize>>) -> (r: bool)
    requires
        i < regs@.len(),
        done@.len() == regs@.len(),
        forall|x: int| 0 <= x < regs@.len() ==> done@[x] == order.contains(x as usize),
    ensures
        r == (forall|j: int| 0 <= j < regs@.len() && #[trigger] depends_on(regs@, i as int, j) ==> order.contains(j as usize)),
{
    let n = regs.len();
    let m = regs[i].deps.len();
    let mut d: usize = 0;
    while d < m
        invariant
            n == regs@.len(),
            i < n,
            m == regs@[i as int].deps@.len(),
            d <= m,
            done@.len() == n,
            forall|x: int| 0 <= x < n ==> done@[x] == order.contains(x as usize),
            forall|e: int, j: int|
                0 <= e < d && 0 <= j < n && #[trigger] regs@[i as int].deps@[e]@ == #[trigger] regs@[j].name@
                    ==> order.contains(j as usize),
        decreases m - d,
    {
        let mut j: usize = 0;
        while j < n
            invariant
                n == regs@.len(),
                i < n,
                m == regs@[i as int].deps@.len(),
                d < m,
                j <= n,
                done@.len() == n,
                forall|x: int| 0 <= x < n ==> done@[x] == order.contains(x as usize),
                forall|e: int, k: int|
                    0 <= e < d && 0 <= k < n && #[trigger] regs@[i as int].deps@[e]@ == #[trigger] regs@[k].name@
                        ==> order.contains(k as usize),
                forall|k: int|
                    0 <= k < j && regs@[i as int].deps@[d as int]@ == #[trigger] regs@[k].name@
                        ==> order.contains(k as usize),
            decreases n - j,
        {
            if regs[j].name == regs[i].deps[d] && !done[j] {
                assert(depends_on(regs@, i as int, j as int) && !order.contains(j as usize)) by {
                    assert(regs@[i as int].deps@[d as int]@ == regs@[j as int].name@);
                }
                return false;
            }
            j = j + 1;
        }
        d = d + 1;
    }
    assert forall|j: int| 0 <= j < regs@.len() && #[trigger] depends_on(regs@, i as int, j) implies order.contains(j as usize) by {
        let e = choose|e: int| 0 <= e < regs@[i as int].deps@.len() && #[trigger] regs@[i as int].deps@[e]@ == regs@[j].name@;
        assert(regs@[i as int].deps@[e]@ == regs@[j].name@);
    }
    true
}

/// The kinds of the systems at the indices of `order`.
pub open spec fn kinds_of(regs: Seq<Registration>, order: Seq<usize>) -> Seq<SystemKind> {
    order.map_values(|i: usize| regs[i as int].kind)
}

impl DispatcherBuilder {
    /// Fixes the run order. Fails where a dependency names no registered
    /// system, or where the dependencies form a cycle.
    pub fn build(self) -> (r: Result<Dispatcher, BuildError>)
        ensures
            match r {
                Ok(d) => {
                    &&& !has_dangling(self.systems@)
                    &&& schedule(self.systems@, self.systems@.len()) is Some
                    &&& d@ == kinds_of(self.systems@, schedule(self.systems@, self.systems@.len())->Some_0)
                    &&& respects_deps(self.systems@, schedule(self.systems@, self.systems@.len())->Some_0)
                    &&& schedule(self.systems@, self.systems@.len())->Some_0.len() == self.systems@.len()
                },
                Err(BuildError::MissingDependency { system, dependency }) => {
                    exists|d: int|
                        0 <= d < self.systems@[system as int].deps@.len() && dangling(self.systems@, system as int, d)
                            && #[trigger] self.systems@[system as int].deps@[d]@ == dependency@
                },
                Err(BuildError::Cycle) => {
                    &&& !has_dangling(self.systems@)
                    &&& schedule(self.systems@, self.systems@.len()) is None
                    &&& exists|done: Seq<usize>| #[trigger] all_waiting(self.systems@, done)
                },
            },
            r is Err && !(r->Err_0 is Cycle) <==> has_dangling(self.systems@),
    {
        let regs = self.systems;
        let n = regs.len();
        if let Some((i, d)) = find_dangling(&regs) {
            let dependency = regs[i].deps[d].clone();
            assert(regs@[i as int].deps@[d as int]@ == dependency@);
            assert(has_dangling(regs@));
            return Err(BuildError::MissingDependency { system: i, dependency });
        }
        let mut done: Vec<bool> = Vec::new();
        while done.len() < n
            invariant
                done@.len() <= n,
                forall|x: int| 0 <= x < done@.len() ==> !done@[x],
            decreases n - done.len(),
        {
            done.push(false);
        }
        let mut order: Vec<usize> = Vec::new();
        let mut k: usize = 0;
        while k < n
            invariant
                n == regs@.len(),
                regs@ == self.systems@,
                k <= n,
                !has_dangling(regs@),
                order@.len() == k,
                schedule(regs@, k as nat) == Some(order@),
                done@.len() == n,
                forall|x: int| 0 <= x < n ==> done@[x] == order@.contains(x as usize),
                forall|p: int| 0 <= p < order@.len() ==> order@[p] < n,
            decreases n - k,
        {
            let mut found = false;
            let mut pick: usize = 0;
            let mut i: usize = 0;
            while i < n && !found
                invariant
                    n == regs@.len(),
                    regs@ == self.systems@,
                    i <= n,
                    done@.len() == n,
                    forall|x: int| 0 <= x < n ==> done@[x] == order@.contains(x as usize),
                    !found ==> forall|x: int| 0 <= x < i ==> !#[trigger] ready(regs@, order@, x),
                    found ==> first_ready(regs@, order@, pick as int),
                decreases n - i,
            {
                if !done[i] && deps_scheduled(&regs, &done, i, Ghost(order@)) {
                    found = true;
                    pick = i;
                }
                i = i + 1;
            }
            if !found {
                proof {
                    assert(!first_ready(regs@, order@, next_pick(regs@, order@)));
                    assert(schedule(regs@, (k + 1) as nat) is None);
                    lemma_schedule_stuck(regs@, (k + 1) as nat, n as nat);
                    lemma_stuck_waiting(regs@, order@);
                }
                return Err(BuildError::Cycle);
            }
            let ghost before = order@;
            proof {
                assert(first_ready(regs@, before, pick as int));
                assert(ready(regs@, before, pick as int));
                let c = choose|x: int| first_ready(regs@, before, x);
                lemma_schedule_step(regs@, k as nat, before, pick as int);
            }
            order.push(pick);
            done.set(pick, true);
            assert(schedule(regs@, (k + 1) as nat) == Some(order@));
            assert forall|x: int| 0 <= x < n implies done@[x] == order@.contains(x as usize) by {
                if x != pick {
                    if order@.contains(x as usize) {
                        let p = choose|p: int| 0 <= p < order@.len() && order@[p] == x as usize;
                        assert(before[p] == x as usize);
                    }
                } else {
                    assert(order@[k as int] == pick);
                }
                if before.contains(x as usize) {
                    let p = choose|p: int| 0 <= p < before.len() && before[p] == x as usize;
                    assert(order@[p] == x as usize);
                }
            }
            k = k + 1;
        }
        let mut kinds: Vec<SystemKind> = Vec::new();
        let mut p: usize = 0;
        while p < n
            invariant
                n == regs@.len(),
                order@.len() == n,
                p <= n,
                forall|q: int| 0 <= q < order@.len() ==> order@[q] < n,
                kinds@.len() == p,
                forall|q: int| 0 <= q < p ==> kinds@[q] == regs@[order@[q] as int].kind,
            decreases n - p,
        {
            kinds.push(regs[order[p]].kind);
            p = p + 1;
        }
        assert(kinds@ =~= kinds_of(regs@, order@));
        proof {
            lemma_schedule_valid(regs@, n as nat);
        }
        Ok(Dispatcher { order: kinds })
    }
}

impl Dispatcher {
    /// The systems in run order.
    pub fn systems(&self) -> (r: Vec<SystemKind>)
        ensures
            r@ == self@,
    {
        let mut r: Vec<SystemKind> = Vec::new();
        let mut i: usize = 0;
        while i < self.order.len()
            invariant
                i <= self.order@.len(),
                r@ == self.order@.take(i as int),
            decreases self.order@.len() - i,
        {
            r.push(self.order[i]);
            i = i + 1;
            assert(r@ =~= self.order@.take(i as int));
        }
        assert(self.order@.take(i as int) =~= self.order@);
        r
    }

    /// Runs every system once, in the run order. The first failure ends the
    /// tick and is returned; the systems after it do not run.
    pub fn dispatch(&self, world: &mut World) -> (r: Result<(), SystemError>)
        requires
            old(world)@.wf(),
        ensures
            match r {
                Ok(()) => run_all(self@, old(world)@) == Ok::<WorldModel, SystemError>(final(world)@),
                Err(e) => run_all(self@, old(world)@) == Err::<WorldModel, SystemError>(e),
            },
            r is Ok ==> final(world)@.wf(),
    {
        let ghost w0 = world@;
        let mut j: usize = 0;
        while j < self.order.len()
            invariant
                j <= self.order@.len(),
                w0 == old(world)@,
                world@.wf(),
                run_all(self.order@.take(j as int), w0) == Ok::<WorldModel, SystemError>(world@),
            decreases self.order@.len() - j,
        {
            let k = self.order[j];
            let ghost before = world@;
            assert(self.order@.take(j + 1).drop_last() =~= self.order@.take(j as int));
            proof {
                lemma_effect_wf(k, before);
            }
            let res: Result<(), SystemError> = match k {
                SystemKind::Velocity => {
                    let mut s = velocity::System;
                    s.run(world);
                    Ok(())
                },
                SystemKind::Control => {
                    let mut s = control::System;
                    s.run(world);
                    Ok(())
                },
                SystemKind::CameraFocus => {
                    let mut s = camera_focus::System;
                    s.run(world)
                },
                SystemKind::CameraZoom => {
                    let mut s = camera_zoom::System;
                    s.run(world);
                    Ok(())
                },
                SystemKind::Camera => {
                    let mut s = camera::System;
                    s.run(world)
                },
            };
            if let Err(e) = res {
                proof {
                    lemma_run_err(self.order@, w0, j + 1);
                }
                return Err(e);
            }
            j = j + 1;
        }
        assert(self.order@.take(j as int) =~= self.order@);
        Ok(())
    }
}

} // verus!
