use vstd::prelude::*;

use crate::ai::{ai_outcome, ai_step, enemy_timer_le, AI};
use crate::animator::{animation_timer_le, animator_step, Animator};
use crate::keyboard::{keyboard_step, Keyboard};
use crate::movement::{
    lemma_fits_potential_implies_fits, movement_fits, movement_fits_potential,
    movement_step, potential_speed, Movement,
};
use crate::resources::{GameStatus, KeyboardEvent, TimeDelta};
use crate::world::{EntityView, World};

verus! {

use vstd::arithmetic::div_mod::lemma_div_is_ordered;
use vstd::arithmetic::mul::{lemma_mul_inequality, lemma_mul_nonnegative};
use vstd::assert_by_contradiction;

/// Which of the core's systems a registration stands for.
#[derive(Clone, Copy)]
pub enum SystemKind {
    Keyboard,
    Ai,
    Movement(Movement),
    Animator,
}

/// One registered system: its kind, its name, and the names of the systems
/// that must have completed before it may run in a frame.
pub struct RegisteredSystem {
    pub kind: SystemKind,
    pub name: String,
    pub dependencies: Vec<String>,
}

/// Mathematical view of a [`RegisteredSystem`].
pub struct RegisteredSystemView {
    pub kind: SystemKind,
    pub name: Seq<char>,
    pub dependencies: Seq<Seq<char>>,
}

impl View for RegisteredSystem {
    type V = RegisteredSystemView;

    open spec fn view(&self) -> RegisteredSystemView {
        RegisteredSystemView {
            kind: self.kind,
            name: self.name@,
            dependencies: self.dependencies@.map_values(|s: String| s@),
        }
    }
}

/// No two registered systems share a name.
pub open spec fn names_unique(systems: Seq<RegisteredSystemView>) -> bool {
    forall|i: int, j: int| 0 <= i < j < systems.len()
        ==> (#[trigger] systems[i].name) != (#[trigger] systems[j].name)
}

/// System `i` declares a dependency on system `j`, by name.
pub open spec fn depends_on(systems: Seq<RegisteredSystemView>, i: int, j: int) -> bool {
    exists|d: int| 0 <= d < systems[i].dependencies.len()
        && #[trigger] systems[i].dependencies[d] == systems[j].name
}

/// Every declared dependency names some registered system.
pub open spec fn deps_resolve(systems: Seq<RegisteredSystemView>) -> bool {
    forall|i: int, d: int| 0 <= i < systems.len()
        && 0 <= d < systems[i].dependencies.len()
        ==> exists|j: int| 0 <= j < systems.len()
            && #[trigger] systems[i].dependencies[d] == systems[j].name
}

/// Some position of `order` holds `j`.
pub open spec fn order_contains(order: Seq<usize>, j: int) -> bool {
    exists|k: int| 0 <= k < order.len() && #[trigger] order[k] == j
}

/// `order` is a schedule of all the registered systems: each runs exactly
/// once, and never before any of its declared predecessors.
pub open spec fn valid_order(order: Seq<usize>, systems: Seq<RegisteredSystemView>) -> bool {
    &&& order.len() == systems.len()
    &&& (forall|k: int| 0 <= k < order.len() ==> #[trigger] order[k] < systems.len())
    &&& (forall|j: int| 0 <= j < systems.len() ==> #[trigger] order_contains(order, j))
    &&& (forall|k1: int, k2: int| 0 <= k1 < k2 < order.len()
        ==> (#[trigger] order[k1]) != (#[trigger] order[k2]))
    &&& (forall|k: int, j: int|
        0 <= k < order.len() && 0 <= j < systems.len()
            && #[trigger] depends_on(systems, order[k] as int, j)
            ==> exists|m: int| 0 <= m < k && #[trigger] order[m] == j)
}

/// A fatal configuration error found while building a dispatcher.  All are
/// surfaced at setup and never at runtime.
#[derive(Clone, Copy, Debug, PartialEq, Eq, Structural)]
pub enum DispatchError {
    /// Two systems were registered under one name.
    DuplicateName,
    /// A declared dependency names no registered system.
    UnknownDependency,
    /// The dependency graph has a cycle, so no schedule respects it.
    Cycle,
}

/// Collects system registrations before the dependency graph is validated.
pub struct DispatcherBuilder {
    systems: Vec<RegisteredSystem>,
}

impl View for DispatcherBuilder {
    type V = Seq<RegisteredSystemView>;

    closed spec fn view(&self) -> Seq<RegisteredSystemView> {
        self.systems@.map_values(|s: RegisteredSystem| s@)
    }
}

/// Orders and executes a fixed set of systems once per frame according to a
/// declared dependency graph, validated once at build time.
pub struct Dispatcher {
    systems: Vec<RegisteredSystem>,
    order: Vec<usize>,
}

/// Mathematical view of a [`Dispatcher`].
pub struct DispatcherView {
    pub systems: Seq<RegisteredSystemView>,
    pub order: Seq<usize>,
}

impl View for Dispatcher {
    type V = DispatcherView;

    closed spec fn view(&self) -> DispatcherView {
        DispatcherView {
            systems: self.systems@.map_values(|s: RegisteredSystem| s@),
            order: self.order@,
        }
    }
}

impl DispatcherView {
    /// The kinds the dispatcher runs, in schedule order.
    pub open spec fn scheduled_kinds(self) -> Seq<SystemKind> {
        Seq::new(self.order.len(), |k: int| self.systems[self.order[k] as int].kind)
    }

    pub open spec fn wf(self) -> bool {
        valid_order(self.order, self.systems)
    }
}

impl DispatcherBuilder {
    pub fn new() -> (r: DispatcherBuilder)
        ensures
            r@.len() == 0,
    {
        DispatcherBuilder { systems: Vec::new() }
    }

    /// Registers a system under a name, with the names of its predecessors.
    pub fn with(self, kind: SystemKind, name: String, dependencies: Vec<String>) -> (r:
        DispatcherBuilder)
        ensures
            r@ =~= self@.push(RegisteredSystemView {
                kind,
                name: name@,
                dependencies: dependencies@.map_values(|s: String| s@),
            }),
    {
        let mut systems = self.systems;
        systems.push(RegisteredSystem { kind, name, dependencies });
        DispatcherBuilder { systems }
    }
}

/// All declared predecessors of system `i` are marked in `sch`.
pub open spec fn ready(systems: Seq<RegisteredSystemView>, sch: Seq<bool>, i: int) -> bool {
    forall|j: int| 0 <= j < systems.len() && depends_on(systems, i, j) ==> sch[j]
}

/// How many entries of the sequence are set.
pub open spec fn count_true(s: Seq<bool>) -> int
    decreases s.len(),
{
    if s.len() == 0 {
        0
    } else {
        count_true(s.drop_last()) + if s.last() { 1int } else { 0int }
    }
}

proof fn lemma_count_true_bound(s: Seq<bool>)
    ensures
        0 <= count_true(s) <= s.len(),
    decreases s.len(),
{
    if s.len() > 0 {
        lemma_count_true_bound(s.drop_last());
    }
}

proof fn lemma_count_true_update(s: Seq<bool>, i: int)
    requires
        0 <= i < s.len(),
        !s[i],
    ensures
        count_true(s.update(i, true)) == count_true(s) + 1,
    decreases s.len(),
{
    if i == s.len() - 1 {
        assert(s.update(i, true).drop_last() =~= s.drop_last());
    } else {
        assert(s.update(i, true).drop_last() =~= s.drop_last().update(i, true));
        lemma_count_true_update(s.drop_last(), i);
    }
}

proof fn lemma_count_true_missing(s: Seq<bool>) -> (i: int)
    requires
        count_true(s) < s.len(),
    ensures
        0 <= i < s.len() && !s[i],
    decreases s.len(),
{
    lemma_count_true_bound(s.drop_last());
    if !s.last() {
        s.len() - 1
    } else {
        lemma_count_true_missing(s.drop_last())
    }
}

proof fn lemma_count_true_full(s: Seq<bool>, i: int)
    requires
        count_true(s) == s.len(),
        0 <= i < s.len(),
    ensures
        s[i],
    decreases s.len(),
{
    lemma_count_true_bound(s.drop_last());
    if i < s.len() - 1 {
        lemma_count_true_full(s.drop_last(), i);
    }
}

/// The first position of the schedule holding a system that `sch` misses.
proof fn lemma_first_unscheduled(sigma: Seq<usize>, sch: Seq<bool>, start: int) -> (k: int)
    requires
        0 <= start <= sigma.len(),
        forall|m: int| 0 <= m < sigma.len() ==> #[trigger] sigma[m] < sch.len(),
        exists|k2: int| start <= k2 < sigma.len() && !sch[#[trigger] sigma[k2] as int],
    ensures
        start <= k < sigma.len(),
        !sch[sigma[k] as int],
        forall|m: int| start <= m < k ==> sch[#[trigger] sigma[m] as int],
    decreases sigma.len() - start,
{
    if !sch[sigma[start] as int] {
        start
    } else {
        lemma_first_unscheduled(sigma, sch, start + 1)
    }
}

/// When the topological sort stalls — every unscheduled system still waits
/// on an unscheduled predecessor — no full schedule can respect the graph.
proof fn lemma_stall_refutes_order(
    systems: Seq<RegisteredSystemView>,
    sch: Seq<bool>,
    sigma: Seq<usize>,
    i0: int,
)
    requires
        sch.len() == systems.len(),
        0 <= i0 < systems.len(),
        !sch[i0],
        forall|i: int| 0 <= i < systems.len() && !sch[i] ==> !ready(systems, sch, i),
    ensures
        !valid_order(sigma, systems),
{
    assert_by_contradiction!(!valid_order(sigma, systems), {
        assert(order_contains(sigma, i0));
        let k0 = choose|k: int| 0 <= k < sigma.len() && #[trigger] sigma[k] == i0;
        assert(!sch[sigma[k0] as int]);
        let k = lemma_first_unscheduled(sigma, sch, 0);
        let r = sigma[k] as int;
        assert(!ready(systems, sch, r));
        let j = choose|j: int| 0 <= j < systems.len() && depends_on(systems, r, j) && !sch[j];
        let m = choose|m: int| 0 <= m < k && sigma[m] == j;
        assert(sch[sigma[m] as int]);
    });
}

/// Whether every predecessor of system `i` is already scheduled.
fn system_ready(systems: &Vec<RegisteredSystem>, scheduled: &Vec<bool>, i: usize) -> (ok: bool)
    requires
        scheduled@.len() == systems@.len(),
        i < systems@.len(),
        names_unique(systems@.map_values(|s: RegisteredSystem| s@)),
        deps_resolve(systems@.map_values(|s: RegisteredSystem| s@)),
    ensures
        ok == ready(
            systems@.map_values(|s: RegisteredSystem| s@),
            scheduled@,
            i as int,
        ),
{
    let ghost sys = systems@.map_values(|s: RegisteredSystem| s@);
    let n = systems.len();
    let deps_len = systems[i].dependencies.len();
    let mut ok = true;
    let mut d: usize = 0;
    while d < deps_len
        invariant
            sys == systems@.map_values(|s: RegisteredSystem| s@),
            scheduled@.len() == n,
            n == systems@.len(),
            i < n,
            deps_len == sys[i as int].dependencies.len(),
            d <= deps_len,
            names_unique(sys),
            ok ==> forall|dd: int, j: int|
                #![trigger sys[i as int].dependencies[dd], sys[j].name]
                0 <= dd < d && 0 <= j < n
                    && sys[i as int].dependencies[dd] == sys[j].name
                    ==> scheduled@[j],
            !ok ==> !ready(sys, scheduled@, i as int),
        decreases deps_len - d,
    {
        let mut j: usize = 0;
        while j < n
            invariant
                sys == systems@.map_values(|s: RegisteredSystem| s@),
                scheduled@.len() == n,
                n == systems@.len(),
                i < n,
                d < deps_len,
                deps_len == sys[i as int].dependencies.len(),
                j <= n,
                names_unique(sys),
                ok ==> forall|dd: int, jj: int|
                    #![trigger sys[i as int].dependencies[dd], sys[jj].name]
                    0 <= dd < d && 0 <= jj < n
                        && sys[i as int].dependencies[dd] == sys[jj].name
                        ==> scheduled@[jj],
                ok ==> forall|jj: int|
                    0 <= jj < j && sys[i as int].dependencies[d as int] == #[trigger] sys[jj].name
                        ==> scheduled@[jj],
                !ok ==> !ready(sys, scheduled@, i as int),
            decreases n - j,
        {
            if systems[j].name == systems[i].dependencies[d] {
                if !scheduled[j] {
                    if ok {
                        proof {
                            assert(sys[i as int].dependencies[d as int] == sys[j as int].name);
                            assert(depends_on(sys, i as int, j as int));
                        }
                    }
                    ok = false;
                }
            }
            j = j + 1;
        }
        d = d + 1;
    }
    proof {
        if ok {
            assert forall|j: int| 0 <= j < n && depends_on(sys, i as int, j)
                implies scheduled@[j] by {
                let dd = choose|dd: int|
                    0 <= dd < sys[i as int].dependencies.len()
                        && sys[i as int].dependencies[dd] == sys[j].name;
                assert(sys[i as int].dependencies[dd] == sys[j].name);
            }
        }
    }
    ok
}

impl DispatcherBuilder {
    /// Validates the registrations: names must be unique, every declared
    /// dependency must name a registered system, and the graph must be
    /// acyclic.  On success the schedule runs each system exactly once,
    /// never before one of its declared predecessors.
    pub fn build(self) -> (r: Result<Dispatcher, DispatchError>)
        ensures
            match r {
                Ok(d) => d@.systems == self@ && d@.wf(),
                Err(e) => match e {
                    DispatchError::DuplicateName => !names_unique(self@),
                    DispatchError::UnknownDependency => names_unique(self@)
                        && !deps_resolve(self@),
                    DispatchError::Cycle => names_unique(self@) && deps_resolve(self@)
                        && forall|sigma: Seq<usize>| !valid_order(sigma, self@),
                },
            },
            !names_unique(self@) ==> r == Err::<Dispatcher, DispatchError>(
                DispatchError::DuplicateName,
            ),
            names_unique(self@) && !deps_resolve(self@) ==> r == Err::<Dispatcher, DispatchError>(
                DispatchError::UnknownDependency,
            ),
    {
        let ghost sys = self@;
        let n = self.systems.len();
        // Reject duplicated names.
        let mut i: usize = 0;
        while i < n
            invariant
                sys == self@,
                sys == self.systems@.map_values(|s: RegisteredSystem| s@),
                n == self.systems@.len(),
                i <= n,
                forall|a: int, b: int| 0 <= a < b < n && a < i
                    ==> (#[trigger] sys[a].name) != (#[trigger] sys[b].name),
            decreases n - i,
        {
            let mut j: usize = i + 1;
            while j < n
                invariant
                    sys == self@,
                    sys == self.systems@.map_values(|s: RegisteredSystem| s@),
                    n == self.systems@.len(),
                    i < n,
                    i < j <= n,
                    forall|b: int| i < b < j ==> sys[i as int].name != (#[trigger] sys[b].name),
                decreases n - j,
            {
                if self.systems[i].name == self.systems[j].name {
                    proof {
                        assert(sys[i as int].name == sys[j as int].name);
                        assert(!names_unique(sys));
                    }
                    return Err(DispatchError::DuplicateName);
                }
                j = j + 1;
            }
            i = i + 1;
        }
        assert(names_unique(sys));
        // Reject dependencies on unknown names.
        let mut i: usize = 0;
        while i < n
            invariant
                sys == self@,
                sys == self.systems@.map_values(|s: RegisteredSystem| s@),
                n == self.systems@.len(),
                i <= n,
                names_unique(sys),
                forall|a: int, d: int| 0 <= a < i && 0 <= d < sys[a].dependencies.len()
                    ==> exists|j: int| 0 <= j < n
                        && #[trigger] sys[a].dependencies[d] == sys[j].name,
            decreases n - i,
        {
            let deps_len = self.systems[i].dependencies.len();
            let mut d: usize = 0;
            while d < deps_len
                invariant
                    sys == self@,
                    sys == self.systems@.map_values(|s: RegisteredSystem| s@),
                    n == self.systems@.len(),
                    i < n,
                    names_unique(sys),
                    deps_len == sys[i as int].dependencies.len(),
                    d <= deps_len,
                    forall|dd: int| 0 <= dd < d
                        ==> exists|j: int| 0 <= j < n
                            && #[trigger] sys[i as int].dependencies[dd] == sys[j].name,
                decreases deps_len - d,
            {
                let mut found = false;
                let mut j: usize = 0;
                while j < n
                    invariant
                        sys == self@,
                        sys == self.systems@.map_values(|s: RegisteredSystem| s@),
                        n == self.systems@.len(),
                        i < n,
                        d < deps_len,
                        deps_len == sys[i as int].dependencies.len(),
                        j <= n,
                        found ==> exists|jj: int| 0 <= jj < n
                            && sys[i as int].dependencies[d as int] == #[trigger] sys[jj].name,
                        !found ==> forall|jj: int| 0 <= jj < j
                            ==> sys[i as int].dependencies[d as int] != (#[trigger] sys[jj].name),
                    decreases n - j,
                {
                    if self.systems[j].name == self.systems[i].dependencies[d] {
                        proof {
                            assert(sys[i as int].dependencies[d as int] == sys[j as int].name);
                        }
                        found = true;
                    }
                    j = j + 1;
                }
                if !found {
                    proof {
                        assert_by_contradiction!(!deps_resolve(sys), {
                            let jj = choose|jj: int| 0 <= jj < n
                                && sys[i as int].dependencies[d as int] == #[trigger] sys[jj].name;
                            assert(sys[i as int].dependencies[d as int] != sys[jj].name);
                        });
                    }
                    return Err(DispatchError::UnknownDependency);
                }
                d = d + 1;
            }
            i = i + 1;
        }
        assert(deps_resolve(sys));
        // Topological sort by repeated selection of a ready system.
        let mut scheduled: Vec<bool> = Vec::new();
        let mut i: usize = 0;
        while i < n
            invariant
                i <= n,
                scheduled@.len() == i,
                forall|a: int| 0 <= a < i ==> !(#[trigger] scheduled@[a]),
            decreases n - i,
        {
            scheduled.push(false);
            i = i + 1;
        }
        let mut order: Vec<usize> = Vec::new();
        proof {
            lemma_count_all_false(scheduled@);
        }
        while order.len() < n
            invariant
                sys == self@,
                sys == self.systems@.map_values(|s: RegisteredSystem| s@),
                n == self.systems@.len(),
                names_unique(sys),
                deps_resolve(sys),
                scheduled@.len() == n,
                order@.len() <= n,
                count_true(scheduled@) == order@.len(),
                forall|a: int| 0 <= a < n
                    ==> ((#[trigger] scheduled@[a]) <==> order_contains(order@, a)),
                forall|k: int| 0 <= k < order@.len() ==> #[trigger] order@[k] < n,
                forall|k1: int, k2: int| 0 <= k1 < k2 < order@.len()
                    ==> (#[trigger] order@[k1]) != (#[trigger] order@[k2]),
                forall|k: int, j: int|
                    0 <= k < order@.len() && 0 <= j < n
                        && #[trigger] depends_on(sys, order@[k] as int, j)
                        ==> exists|m: int| 0 <= m < k && #[trigger] order@[m] == j,
            decreases n - order.len(),
        {
            let mut pick: Option<usize> = None;
            let mut i: usize = 0;
            while i < n
                invariant
                    sys == self@,
                    sys == self.systems@.map_values(|s: RegisteredSystem| s@),
                    n == self.systems@.len(),
                    names_unique(sys),
                    deps_resolve(sys),
                    scheduled@.len() == n,
                    i <= n,
                    pick is None ==> forall|a: int| 0 <= a < i
                        ==> scheduled@[a] || !ready(sys, scheduled@, a),
                    pick matches Some(p) ==> p < n && !scheduled@[p as int]
                        && ready(sys, scheduled@, p as int),
                decreases n - i,
            {
                if pick.is_none() && !scheduled[i] {
                    if system_ready(&self.systems, &scheduled, i) {
                        pick = Some(i);
                    }
                }
                i = i + 1;
            }
            match pick {
                Some(p) => {
                    let ghost old_sched = scheduled@;
                    let ghost old_order = order@;
                    proof {
                        lemma_count_true_update(scheduled@, p as int);
                    }
                    scheduled.set(p, true);
                    order.push(p);
                    proof {
                        assert(order@ =~= old_order.push(p));
                        assert(scheduled@ =~= old_sched.update(p as int, true));
                        let len0 = old_order.len() as int;
                        assert(order@[len0] == p);
                        assert forall|a: int| 0 <= a < n implies
                            ((#[trigger] scheduled@[a]) <==> order_contains(order@, a)) by {
                            if a == p as int {
                                assert(order_contains(order@, a));
                            } else if old_sched[a] {
                                let k = choose|k: int| 0 <= k < old_order.len()
                                    && #[trigger] old_order[k] == a;
                                assert(order@[k] == a);
                                assert(order_contains(order@, a));
                            } else {
                                assert_by_contradiction!(!order_contains(order@, a), {
                                    let k = choose|k: int| 0 <= k < order@.len()
                                        && #[trigger] order@[k] == a;
                                    assert(k < len0);
                                    assert(old_order[k] == a);
                                    assert(order_contains(old_order, a));
                                });
                            }
                        }
                        assert forall|k: int, j: int|
                            0 <= k < order@.len() && 0 <= j < n
                                && #[trigger] depends_on(sys, order@[k] as int, j)
                                implies exists|m: int| 0 <= m < k && #[trigger] order@[m] == j by {
                            if k < len0 {
                                assert(depends_on(sys, old_order[k] as int, j));
                                let m = choose|m: int| 0 <= m < k && #[trigger] old_order[m] == j;
                                assert(order@[m] == j);
                            } else {
                                assert(order@[k] == p);
                                assert(ready(sys, old_sched, p as int));
                                assert(old_sched[j]);
                                let m = choose|m: int| 0 <= m < old_order.len()
                                    && #[trigger] old_order[m] == j;
                                assert(order@[m] == j);
                            }
                        }
                    }
                }
                None => {
                    proof {
                        lemma_count_true_bound(scheduled@);
                        let i0 = lemma_count_true_missing(scheduled@);
                        assert forall|sigma: Seq<usize>| !valid_order(sigma, sys) by {
                            lemma_stall_refutes_order(sys, scheduled@, sigma, i0);
                        }
                    }
                    return Err(DispatchError::Cycle);
                }
            }
        }
        proof {
            assert forall|j: int| 0 <= j < n implies #[trigger] order_contains(order@, j) by {
                lemma_count_true_full(scheduled@, j);
                assert(scheduled@[j]);
            }
            assert(valid_order(order@, sys));
        }
        let d = Dispatcher { systems: self.systems, order };
        proof {
            assert(d@.systems == sys);
            assert(valid_order(d@.order, d@.systems));
        }
        Ok(d)
    }
}

proof fn lemma_count_all_false(s: Seq<bool>)
    requires
        forall|a: int| 0 <= a < s.len() ==> !(#[trigger] s[a]),
    ensures
        count_true(s) == 0,
    decreases s.len(),
{
    if s.len() > 0 {
        lemma_count_all_false(s.drop_last());
    }
}

/// What one system does to one entity, given the frame's input event, time
/// delta and current time, and the draw the entity would consume if the
/// system is the AI.
pub open spec fn system_step(
    kind: SystemKind,
    e: EntityView,
    event: Option<KeyboardEvent>,
    micros: u64,
    now: u64,
    draw: u8,
) -> EntityView {
    match kind {
        SystemKind::Keyboard => keyboard_step(e, event),
        SystemKind::Ai => ai_step(e, draw, now),
        SystemKind::Movement(_) => movement_step(e, micros),
        SystemKind::Animator => animator_step(e, now),
    }
}

/// The systems of `kinds` applied to one entity in order, consuming one
/// draw per step.  Every system is a per-entity function, so a whole frame
/// is this fold applied to each entity independently.
pub open spec fn run_systems(
    kinds: Seq<SystemKind>,
    e: EntityView,
    event: Option<KeyboardEvent>,
    micros: u64,
    now: u64,
    draws: Seq<u8>,
) -> EntityView
    decreases kinds.len(),
{
    if kinds.len() == 0 {
        e
    } else {
        run_systems(
            kinds.drop_first(),
            system_step(kinds.first(), e, event, micros, now, draws.first()),
            event,
            micros,
            now,
            draws.drop_first(),
        )
    }
}

/// Appending one system to a schedule runs it last.
pub proof fn lemma_run_systems_snoc(
    kinds: Seq<SystemKind>,
    e: EntityView,
    event: Option<KeyboardEvent>,
    micros: u64,
    now: u64,
    draws: Seq<u8>,
    kind: SystemKind,
    draw: u8,
)
    requires
        draws.len() == kinds.len(),
    ensures
        run_systems(kinds.push(kind), e, event, micros, now, draws.push(draw))
            == system_step(
            kind,
            run_systems(kinds, e, event, micros, now, draws),
            event,
            micros,
            now,
            draw,
        ),
    decreases kinds.len(),
{
    if kinds.len() == 0 {
        assert(kinds.push(kind).drop_first() =~= Seq::<SystemKind>::empty());
        assert(draws.push(draw).drop_first() =~= Seq::<u8>::empty());
        assert(kinds.push(kind).first() == kind);
        assert(draws.push(draw).first() == draw);
        let mid = system_step(kind, e, event, micros, now, draw);
        assert(run_systems(Seq::<SystemKind>::empty(), mid, event, micros, now, Seq::<u8>::empty())
            == mid);
        assert(run_systems(kinds.push(kind), e, event, micros, now, draws.push(draw)) == mid);
        assert(run_systems(kinds, e, event, micros, now, draws) == e);
    } else {
        assert(kinds.push(kind).drop_first() =~= kinds.drop_first().push(kind));
        assert(draws.push(draw).drop_first() =~= draws.drop_first().push(draw));
        assert(kinds.push(kind).first() == kinds.first());
        assert(draws.push(draw).first() == draws.first());
        let mid = system_step(kinds.first(), e, event, micros, now, draws.first());
        assert(run_systems(kinds.push(kind), e, event, micros, now, draws.push(draw))
            == run_systems(
            kinds.drop_first().push(kind),
            mid,
            event,
            micros,
            now,
            draws.drop_first().push(draw),
        ));
        lemma_run_systems_snoc(
            kinds.drop_first(),
            mid,
            event,
            micros,
            now,
            draws.drop_first(),
            kind,
            draw,
        );
        assert(run_systems(kinds, e, event, micros, now, draws)
            == run_systems(kinds.drop_first(), mid, event, micros, now, draws.drop_first()));
    }
}

/// Some per-step sequence of draws from 1 to 100 explains `post` as the
/// systems of `kinds` applied to `pre`.
pub open spec fn entity_explained(
    pre: EntityView,
    post: EntityView,
    kinds: Seq<SystemKind>,
    event: Option<KeyboardEvent>,
    micros: u64,
    now: u64,
) -> bool {
    exists|draws: Seq<u8>|
        {
            &&& draws.len() == kinds.len()
            &&& (forall|q: int| 0 <= q < draws.len() ==> 1 <= #[trigger] draws[q] <= 100)
            &&& post == run_systems(kinds, pre, event, micros, now, draws)
        }
}

/// How many of the kinds are the movement system.
pub open spec fn count_movement(kinds: Seq<SystemKind>) -> int
    decreases kinds.len(),
{
    if kinds.len() == 0 {
        0
    } else {
        count_movement(kinds.drop_last()) + if kinds.last() matches SystemKind::Movement(_) {
            1int
        } else {
            0int
        }
    }
}

proof fn lemma_count_movement_nonneg(kinds: Seq<SystemKind>)
    ensures
        count_movement(kinds) >= 0,
    decreases kinds.len(),
{
    if kinds.len() > 0 {
        lemma_count_movement_nonneg(kinds.drop_last());
    }
}

proof fn lemma_count_movement_take_succ(kinds: Seq<SystemKind>, k: int)
    requires
        0 <= k < kinds.len(),
    ensures
        count_movement(kinds.take(k + 1)) == count_movement(kinds.take(k))
            + if kinds[k] matches SystemKind::Movement(_) {
            1int
        } else {
            0int
        },
{
    assert(kinds.take(k + 1).drop_last() =~= kinds.take(k));
    assert(kinds.take(k + 1).last() == kinds[k]);
}

proof fn lemma_count_movement_mono(kinds: Seq<SystemKind>, a: int, b: int)
    requires
        0 <= a <= b <= kinds.len(),
    ensures
        count_movement(kinds.take(a)) <= count_movement(kinds.take(b)),
    decreases b - a,
{
    if a < b {
        lemma_count_movement_mono(kinds, a, b - 1);
        lemma_count_movement_take_succ(kinds, b - 1);
    }
}

/// Every system leaves a well-formed entity well formed and never pushes a
/// timer into the future; every system but the movement system preserves the
/// movement bounds.
pub proof fn lemma_step_preserves_frame_state(
    kind: SystemKind,
    e: EntityView,
    event: Option<KeyboardEvent>,
    micros: u64,
    now: u64,
    draw: u8,
)
    requires
        e.wf(),
        enemy_timer_le(e, now),
        animation_timer_le(e, now),
    ensures
        system_step(kind, e, event, micros, now, draw).wf(),
        enemy_timer_le(system_step(kind, e, event, micros, now, draw), now),
        animation_timer_le(system_step(kind, e, event, micros, now, draw), now),
        !(kind matches SystemKind::Movement(_)) && movement_fits_potential(e, micros)
            ==> movement_fits_potential(system_step(kind, e, event, micros, now, draw), micros),
{
    let e2 = system_step(kind, e, event, micros, now, draw);
    match kind {
        SystemKind::Keyboard => {
            if movement_fits_potential(e, micros) && e2.alive && e2.velocity is Some
                && e2.bounding_box is Some {
                let p2 = potential_speed(e2);
                let p = potential_speed(e);
                assert(p2 <= p);
                lemma_mul_nonnegative(p2, micros as int);
                lemma_mul_inequality(p2, p, micros as int);
                lemma_div_is_ordered(p2 * micros, p * micros, 1_000_000);
                lemma_div_is_ordered(0, p2 * micros, 1_000_000);
            }
        }
        SystemKind::Ai => {
            if movement_fits_potential(e, micros) && e2.alive && e2.velocity is Some
                && e2.bounding_box is Some {
                assert(potential_speed(e2) == potential_speed(e));
            }
        }
        SystemKind::Movement(_) => {
        }
        SystemKind::Animator => {
            if movement_fits_potential(e, micros) && e2.alive && e2.velocity is Some
                && e2.bounding_box is Some {
                assert(potential_speed(e2) == potential_speed(e));
            }
        }
    }
}

impl Dispatcher {
    /// Runs every registered system exactly once on the world, in the
    /// validated order, at time `now` (microseconds of simulation time).
    ///
    /// Each system is a per-entity function, so the contract says that every
    /// entity ends as the scheduled kinds applied to it in order, for some
    /// valid sequence of AI draws.
    pub fn dispatch(&self, world: &mut World, now: u64)
        requires
            self@.wf(),
            count_movement(self@.scheduled_kinds()) <= 1,
            old(world)@.wf(),
            forall|i: int| 0 <= i < old(world)@.entities.len()
                ==> enemy_timer_le(#[trigger] old(world)@.entities[i], now),
            forall|i: int| 0 <= i < old(world)@.entities.len()
                ==> animation_timer_le(#[trigger] old(world)@.entities[i], now),
            forall|i: int| 0 <= i < old(world)@.entities.len()
                ==> movement_fits_potential(
                    #[trigger] old(world)@.entities[i],
                    old(world)@.time_delta.0,
                ),
        ensures
            final(world)@.entities.len() == old(world)@.entities.len(),
            final(world)@.same_resources(old(world)@),
            final(world)@.wf(),
            forall|i: int| 0 <= i < old(world)@.entities.len()
                ==> enemy_timer_le(#[trigger] final(world)@.entities[i], now),
            forall|i: int| 0 <= i < old(world)@.entities.len()
                ==> animation_timer_le(#[trigger] final(world)@.entities[i], now),
            forall|i: int| 0 <= i < old(world)@.entities.len()
                ==> entity_explained(
                    #[trigger] old(world)@.entities[i],
                    final(world)@.entities[i],
                    self@.scheduled_kinds(),
                    old(world)@.keyboard_event,
                    old(world)@.time_delta.0,
                    now,
                ),
    {
        let ghost kinds = self@.scheduled_kinds();
        let ghost event = old(world)@.keyboard_event;
        let ghost micros = old(world)@.time_delta.0;
        let ghost n = old(world)@.entities.len();
        let m = self.order.len();
        proof {
            assert forall|i: int| 0 <= i < n implies entity_explained(
                #[trigger] old(world)@.entities[i],
                world@.entities[i],
                kinds.take(0),
                event,
                micros,
                now,
            ) by {
                let ds = Seq::<u8>::empty();
                assert(kinds.take(0) =~= Seq::<SystemKind>::empty());
                assert(run_systems(kinds.take(0), old(world)@.entities[i], event, micros, now, ds)
                    == old(world)@.entities[i]);
            }
        }
        let mut k: usize = 0;
        while k < m
            invariant
                self@.wf(),
                kinds == self@.scheduled_kinds(),
                m == self@.order.len(),
                count_movement(kinds) <= 1,
                event == old(world)@.keyboard_event,
                micros == old(world)@.time_delta.0,
                n == old(world)@.entities.len(),
                k <= m,
                world@.entities.len() == n,
                world@.same_resources(old(world)@),
                world@.wf(),
                forall|i: int| 0 <= i < n
                    ==> enemy_timer_le(#[trigger] world@.entities[i], now),
                forall|i: int| 0 <= i < n
                    ==> animation_timer_le(#[trigger] world@.entities[i], now),
                count_movement(kinds.take(k as int)) == 0 ==> forall|i: int|
                    0 <= i < n
                        ==> movement_fits_potential(#[trigger] world@.entities[i], micros),
                forall|i: int| 0 <= i < n
                    ==> entity_explained(
                        #[trigger] old(world)@.entities[i],
                        world@.entities[i],
                        kinds.take(k as int),
                        event,
                        micros,
                        now,
                    ),
            decreases m - k,
        {
            let idx = self.order[k];
            proof {
                assert(self@.order[k as int] < self@.systems.len());
                assert(kinds[k as int] == self@.systems[idx as int].kind);
                lemma_count_movement_take_succ(kinds, k as int);
                lemma_count_movement_mono(kinds, k as int + 1, kinds.len() as int);
                lemma_count_movement_nonneg(kinds.take(k as int));
                assert(kinds.take(kinds.len() as int) =~= kinds);
            }
            let kind = self.systems[idx].kind;
            let ghost pre = world@;
            let ghost mut stepdraw: Seq<u8> = Seq::empty();
            match kind {
                SystemKind::Keyboard => {
                    Keyboard::run(world);
                    proof {
                        stepdraw = Seq::new(n as nat, |i: int| 1u8);
                    }
                }
                SystemKind::Ai => {
                    AI::run(world, now);
                    proof {
                        stepdraw = choose|ds: Seq<u8>|
                            ai_outcome(pre.entities, world@.entities, ds, now);
                    }
                }
                SystemKind::Movement(mv) => {
                    proof {
                        assert(count_movement(kinds.take(k as int)) == 0);
                        assert forall|i: int| 0 <= i < n
                            implies movement_fits(#[trigger] world@.entities[i], micros) by {
                            lemma_fits_potential_implies_fits(world@.entities[i], micros);
                        }
                    }
                    mv.run(world);
                    proof {
                        stepdraw = Seq::new(n as nat, |i: int| 1u8);
                    }
                }
                SystemKind::Animator => {
                    Animator::run(world, now);
                    proof {
                        stepdraw = Seq::new(n as nat, |i: int| 1u8);
                    }
                }
            }
            proof {
                assert forall|i: int| 0 <= i < n implies world@.entities[i] == system_step(
                    kinds[k as int],
                    pre.entities[i],
                    event,
                    micros,
                    now,
                    stepdraw[i],
                ) && 1 <= stepdraw[i] <= 100 by {
                    match kinds[k as int] {
                        SystemKind::Ai => {
                            assert(ai_outcome(pre.entities, world@.entities, stepdraw, now));
                        }
                        _ => {}
                    }
                }
                assert forall|i: int| 0 <= i < n implies entity_explained(
                    #[trigger] old(world)@.entities[i],
                    world@.entities[i],
                    kinds.take(k as int + 1),
                    event,
                    micros,
                    now,
                ) by {
                    let pre_i = pre.entities[i];
                    let e0 = old(world)@.entities[i];
                    assert(entity_explained(e0, pre_i, kinds.take(k as int), event, micros, now));
                    let ds = choose|ds: Seq<u8>|
                        {
                            &&& ds.len() == kinds.take(k as int).len()
                            &&& (forall|q: int| 0 <= q < ds.len() ==> 1 <= #[trigger] ds[q] <= 100)
                            &&& pre_i == run_systems(
                                kinds.take(k as int),
                                e0,
                                event,
                                micros,
                                now,
                                ds,
                            )
                        };
                    let ds2 = ds.push(stepdraw[i]);
                    lemma_run_systems_snoc(
                        kinds.take(k as int),
                        e0,
                        event,
                        micros,
                        now,
                        ds,
                        kinds[k as int],
                        stepdraw[i],
                    );
                    assert(kinds.take(k as int + 1) =~= kinds.take(k as int).push(kinds[k as int]));
                    assert(world@.entities[i] == run_systems(
                        kinds.take(k as int + 1),
                        e0,
                        event,
                        micros,
                        now,
                        ds2,
                    ));
                }
                assert forall|i: int| 0 <= i < n implies (#[trigger] world@.entities[i]).wf()
                    && enemy_timer_le(world@.entities[i], now)
                    && animation_timer_le(world@.entities[i], now)
                    && (count_movement(kinds.take(k as int + 1)) == 0
                        && movement_fits_potential(pre.entities[i], micros)
                        ==> movement_fits_potential(world@.entities[i], micros)) by {
                    lemma_step_preserves_frame_state(
                        kinds[k as int],
                        pre.entities[i],
                        event,
                        micros,
                        now,
                        stepdraw[i],
                    );
                    lemma_count_movement_nonneg(kinds.take(k as int));
                }
            }
            k = k + 1;
        }
        proof {
            assert(kinds.take(m as int) =~= kinds);
        }
    }
}

/// One frame's update: install the frame's time delta, run the scheduled
/// systems, apply the deferred destructions at the maintenance point, and
/// report whether the driving loop should schedule another frame.  The game
/// status is only read here: the win/lose check is an external collaborator
/// that runs between frames.
pub fn update_world(
    world: &mut World,
    dispatcher: &Dispatcher,
    frame_delta: TimeDelta,
    now: u64,
) -> (keep_going: bool)
    requires
        dispatcher@.wf(),
        count_movement(dispatcher@.scheduled_kinds()) <= 1,
        old(world)@.wf(),
        forall|i: int| 0 <= i < old(world)@.entities.len()
            ==> enemy_timer_le(#[trigger] old(world)@.entities[i], now),
        forall|i: int| 0 <= i < old(world)@.entities.len()
            ==> animation_timer_le(#[trigger] old(world)@.entities[i], now),
        forall|i: int| 0 <= i < old(world)@.entities.len()
            ==> movement_fits_potential(#[trigger] old(world)@.entities[i], frame_delta.0),
    ensures
        final(world)@.entities.len() == old(world)@.entities.len(),
        forall|i: int| 0 <= i < old(world)@.entities.len()
            ==> exists|mid: EntityView|
                entity_explained(
                    #[trigger] old(world)@.entities[i],
                    mid,
                    dispatcher@.scheduled_kinds(),
                    old(world)@.keyboard_event,
                    frame_delta.0,
                    now,
                ) && final(world)@.entities[i] == crate::world::maintain_step(mid),
        final(world)@.time_delta == frame_delta,
        final(world)@.keyboard_event == old(world)@.keyboard_event,
        final(world)@.game_status == old(world)@.game_status,
        final(world)@.next_token == old(world)@.next_token,
        final(world)@.wf(),
        forall|i: int| 0 <= i < old(world)@.entities.len()
            ==> enemy_timer_le(#[trigger] final(world)@.entities[i], now),
        forall|i: int| 0 <= i < old(world)@.entities.len()
            ==> animation_timer_le(#[trigger] final(world)@.entities[i], now),
        keep_going == (old(world)@.game_status == GameStatus::Running),
{
    world.set_time_delta(frame_delta);
    let ghost w1 = world@;
    dispatcher.dispatch(world, now);
    let ghost w2 = world@;
    world.maintain();
    proof {
        assert forall|i: int| 0 <= i < old(world)@.entities.len() implies exists|mid: EntityView|
            entity_explained(
                #[trigger] old(world)@.entities[i],
                mid,
                dispatcher@.scheduled_kinds(),
                old(world)@.keyboard_event,
                frame_delta.0,
                now,
            ) && world@.entities[i] == crate::world::maintain_step(mid) by {
            let mid = w2.entities[i];
            assert(entity_explained(
                old(world)@.entities[i],
                mid,
                dispatcher@.scheduled_kinds(),
                old(world)@.keyboard_event,
                frame_delta.0,
                now,
            ));
            assert(w2.entities.len() == old(world)@.entities.len());
            assert(world@.entities[i] == crate::world::maintain_step(mid));
        }
    }
    proof {
        assert forall|i: int| 0 <= i < world@.entities.len() implies
            (#[trigger] world@.entities[i]).wf()
                && enemy_timer_le(world@.entities[i], now)
                && animation_timer_le(world@.entities[i], now) by {
            assert(world@.entities[i] == crate::world::maintain_step(w2.entities[i]));
            assert(w2.entities[i].wf());
            assert(enemy_timer_le(w2.entities[i], now));
            assert(animation_timer_le(w2.entities[i], now));
        }
    }
    let status = world.game_status();
    status == GameStatus::Running
}

} // verus!
