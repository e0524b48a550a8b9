//! The reconciler: given the desired state of every managed service and the
//! observed state of its init-system unit, computes the ordered list of
//! operations that converges the host to the desired state.
//!
//! Planning is separated from execution. [`plan`] produces the operation
//! list; the caller performs each operation (or simulates it) and feeds the
//! outcomes to [`apply_plan`], which models the effect on the observed state
//! and never skips a step because an earlier one failed.
//!
//! The two passes are strictly ordered: every teardown operation for the
//! whole entry set precedes every activation operation, the init-system
//! reload is issued at most once, and the proxy reload comes last.

use vstd::prelude::*;

verus! {

/// What the init system reports about one unit: whether a unit file exists,
/// whether the unit starts on boot, and whether it is currently running.
#[derive(Clone, Copy, PartialEq, Eq, Structural, Debug)]
pub struct ObservedUnit {
    pub exists: bool,
    pub enabled: bool,
    pub active: bool,
}

/// One service entry handed to the reconciler: whether the operator wants
/// it enabled, whether it is a node-network instance (these count against
/// the memory admission gate), and its observed unit state. Entries are
/// identified by their position; callers keep unit names in a parallel
/// list for reporting.
#[derive(Clone, Copy, PartialEq, Eq, Structural, Debug)]
pub struct ReconcileEntry {
    pub enabled: bool,
    pub node_instance: bool,
    pub observed: ObservedUnit,
}

/// One operation of a reconciliation plan. Unit operations carry the index
/// of the entry they act on.
#[derive(Clone, Copy, PartialEq, Eq, Structural, Debug)]
pub enum Step {
    /// Stop the running unit.
    Stop(usize),
    /// Remove the unit from boot startup.
    Disable(usize),
    /// Delete the unit definition file.
    Delete(usize),
    /// Write (or rewrite) the unit definition file.
    WriteUnit(usize),
    /// Make the init system re-read all unit files; issued at most once.
    DaemonReload,
    /// Mark the unit to start on boot.
    Enable(usize),
    /// Start the unit.
    Start(usize),
    /// Rewrite the aggregated reverse-proxy route file.
    WriteProxy,
    /// Reload the reverse proxy; issued at most once, after all file writes.
    ReloadProxy,
}

/// The teardown operations for one disabled entry: stop it when it is
/// running, then take it out of boot startup and delete its unit file.
pub open spec fn teardown_for(e: ReconcileEntry, i: int) -> Seq<Step> {
    if !e.enabled && e.observed.exists {
        (if e.observed.active {
            seq![Step::Stop(i as usize)]
        } else {
            Seq::empty()
        }) + seq![Step::Disable(i as usize), Step::Delete(i as usize)]
    } else {
        Seq::empty()
    }
}

/// The teardown pass over the whole entry set.
pub open spec fn teardown_steps(entries: Seq<ReconcileEntry>) -> Seq<Step>
    decreases entries.len(),
{
    if entries.len() == 0 {
        Seq::empty()
    } else {
        teardown_steps(entries.drop_last()) + teardown_for(
            entries.last(),
            entries.len() - 1,
        )
    }
}

/// Whether the unit file of an enabled entry must be written: it is missing,
/// or a forced rewrite was requested.
pub open spec fn needs_write(e: ReconcileEntry, force: bool) -> bool {
    e.enabled && (force || !e.observed.exists)
}

/// The unit-file writes of the activation pass.
pub open spec fn write_steps(entries: Seq<ReconcileEntry>, force: bool) -> Seq<Step>
    decreases entries.len(),
{
    if entries.len() == 0 {
        Seq::empty()
    } else {
        write_steps(entries.drop_last(), force) + (if needs_write(entries.last(), force) {
            seq![Step::WriteUnit((entries.len() - 1) as usize)]
        } else {
            Seq::empty()
        })
    }
}

/// Whether the activation pass writes at least one unit file.
pub open spec fn any_write(entries: Seq<ReconcileEntry>, force: bool) -> bool {
    exists|i: int| 0 <= i < entries.len() && needs_write(#[trigger] entries[i], force)
}

/// The startup operations for one enabled entry: enable it when it does not
/// start on boot yet, start it when it is not running.
pub open spec fn startup_for(e: ReconcileEntry, i: int) -> Seq<Step> {
    if e.enabled {
        (if !e.observed.enabled {
            seq![Step::Enable(i as usize)]
        } else {
            Seq::empty()
        }) + (if !e.observed.active {
            seq![Step::Start(i as usize)]
        } else {
            Seq::empty()
        })
    } else {
        Seq::empty()
    }
}

/// The startup part of the activation pass over the whole entry set.
pub open spec fn startup_steps(entries: Seq<ReconcileEntry>) -> Seq<Step>
    decreases entries.len(),
{
    if entries.len() == 0 {
        Seq::empty()
    } else {
        startup_steps(entries.drop_last()) + startup_for(entries.last(), entries.len() - 1)
    }
}

/// The single init-system reload, present exactly when a unit file is
/// written.
pub open spec fn reload_steps(entries: Seq<ReconcileEntry>, force: bool) -> Seq<Step> {
    if any_write(entries, force) {
        seq![Step::DaemonReload]
    } else {
        Seq::empty()
    }
}

/// The proxy rewrite and its single reload, present exactly when the
/// aggregated route file would change.
pub open spec fn proxy_steps(proxy_changed: bool) -> Seq<Step> {
    if proxy_changed {
        seq![Step::WriteProxy, Step::ReloadProxy]
    } else {
        Seq::empty()
    }
}

/// The full reconciliation plan: teardown for the whole set, then unit-file
/// writes, then at most one init-system reload, then enables and starts,
/// then the proxy update.
pub open spec fn plan_spec(entries: Seq<ReconcileEntry>, force: bool, proxy_changed: bool) -> Seq<
    Step,
> {
    teardown_steps(entries) + write_steps(entries, force) + reload_steps(entries, force)
        + startup_steps(entries) + proxy_steps(proxy_changed)
}

/// Computes the reconciliation plan for the given entries.
pub fn plan(entries: &Vec<ReconcileEntry>, force: bool, proxy_changed: bool) -> (p: Vec<Step>)
    ensures
        p@ == plan_spec(entries@, force, proxy_changed),
{
    let n = entries.len();
    let mut steps: Vec<Step> = Vec::new();
    let mut i: usize = 0;
    proof {
        assert(entries@.take(0) =~= Seq::<ReconcileEntry>::empty());
        assert(steps@ =~= teardown_steps(entries@.take(0)));
    }
    while i < n
        invariant
            i <= n,
            n == entries@.len(),
            steps@ =~= teardown_steps(entries@.take(i as int)),
        decreases n - i,
    {
        let e = &entries[i];
        if !e.enabled && e.observed.exists {
            if e.observed.active {
                steps.push(Step::Stop(i));
            }
            steps.push(Step::Disable(i));
            steps.push(Step::Delete(i));
        }
        proof {
            assert(entries@.take(i as int + 1).drop_last() =~= entries@.take(i as int));
            assert(entries@.take(i as int + 1).last() == entries@[i as int]);
            assert(steps@ =~= teardown_steps(entries@.take(i as int)) + teardown_for(
                entries@[i as int],
                i as int,
            ));
        }
        i = i + 1;
    }
    proof {
        assert(entries@.take(n as int) =~= entries@);
    }
    let mut wrote = false;
    let mut i: usize = 0;
    proof {
        assert(steps@ =~= teardown_steps(entries@) + write_steps(entries@.take(0), force));
        assert(!any_write(entries@.take(0), force));
    }
    while i < n
        invariant
            i <= n,
            n == entries@.len(),
            steps@ =~= teardown_steps(entries@) + write_steps(entries@.take(i as int), force),
            wrote == any_write(entries@.take(i as int), force),
        decreases n - i,
    {
        let e = &entries[i];
        if e.enabled && (force || !e.observed.exists) {
            steps.push(Step::WriteUnit(i));
            wrote = true;
        }
        proof {
            assert(entries@.take(i as int + 1).drop_last() =~= entries@.take(i as int));
            assert(entries@.take(i as int + 1).last() == entries@[i as int]);
            if needs_write(entries@[i as int], force) {
                assert(any_write(entries@.take(i as int + 1), force)) by {
                    assert(needs_write(entries@.take(i as int + 1)[i as int], force));
                }
            } else {
                assert(any_write(entries@.take(i as int + 1), force) == any_write(
                    entries@.take(i as int),
                    force,
                )) by {
                    assert(forall|k: int|
                        0 <= k < i ==> entries@.take(i as int + 1)[k] == #[trigger] entries@.take(
                            i as int,
                        )[k]);
                }
            }
        }
        i = i + 1;
    }
    proof {
        assert(entries@.take(n as int) =~= entries@);
    }
    if wrote {
        steps.push(Step::DaemonReload);
    }
    proof {
        assert(steps@ =~= teardown_steps(entries@) + write_steps(entries@, force) + reload_steps(
            entries@,
            force,
        ));
    }
    let ghost before_startup = steps@;
    let mut i: usize = 0;
    proof {
        assert(steps@ =~= before_startup + startup_steps(entries@.take(0)));
    }
    while i < n
        invariant
            i <= n,
            n == entries@.len(),
            steps@ =~= before_startup + startup_steps(entries@.take(i as int)),
        decreases n - i,
    {
        let e = &entries[i];
        if e.enabled {
            if !e.observed.enabled {
                steps.push(Step::Enable(i));
            }
            if !e.observed.active {
                steps.push(Step::Start(i));
            }
        }
        proof {
            assert(entries@.take(i as int + 1).drop_last() =~= entries@.take(i as int));
            assert(entries@.take(i as int + 1).last() == entries@[i as int]);
            assert(steps@ =~= before_startup + startup_steps(entries@.take(i as int))
                + startup_for(entries@[i as int], i as int));
        }
        i = i + 1;
    }
    proof {
        assert(entries@.take(n as int) =~= entries@);
    }
    if proxy_changed {
        steps.push(Step::WriteProxy);
        steps.push(Step::ReloadProxy);
    }
    proof {
        assert(steps@ =~= plan_spec(entries@, force, proxy_changed));
    }
    steps
}

/// Total memory rounded down to whole gibibytes.
pub open spec fn ram_gb(total_memory: u64) -> u64 {
    (total_memory / 0x40000000) as u64
}

/// The smallest whole-gibibyte reading that admits several node-network
/// instances on one host without an explicit override.
pub const MULTI_INSTANCE_MIN_GB: u64 = 17;

/// How many node-network instances the desired state asks to enable.
pub open spec fn enabled_node_count(entries: Seq<ReconcileEntry>) -> nat
    decreases entries.len(),
{
    if entries.len() == 0 {
        0
    } else {
        enabled_node_count(entries.drop_last()) + (if entries.last().enabled
            && entries.last().node_instance {
            1nat
        } else {
            0nat
        })
    }
}

/// The admission gate: several node-network instances need either enough
/// memory or an explicit operator override; a single instance always passes.
pub open spec fn admission_ok(
    entries: Seq<ReconcileEntry>,
    total_memory: u64,
    confirmed: bool,
) -> bool {
    enabled_node_count(entries) <= 1 || ram_gb(total_memory) >= MULTI_INSTANCE_MIN_GB || confirmed
}

/// Counts the node-network instances the desired state asks to enable.
pub fn count_enabled_nodes(entries: &Vec<ReconcileEntry>) -> (r: usize)
    ensures
        r == enabled_node_count(entries@),
{
    let mut count: usize = 0;
    let mut i: usize = 0;
    proof {
        assert(entries@.take(0) =~= Seq::<ReconcileEntry>::empty());
    }
    while i < entries.len()
        invariant
            i <= entries@.len(),
            count == enabled_node_count(entries@.take(i as int)),
            count <= i,
        decreases entries@.len() - i,
    {
        let e = &entries[i];
        if e.enabled && e.node_instance {
            count = count + 1;
        }
        proof {
            assert(entries@.take(i as int + 1).drop_last() =~= entries@.take(i as int));
            assert(entries@.take(i as int + 1).last() == entries@[i as int]);
        }
        i = i + 1;
    }
    proof {
        assert(entries@.take(entries@.len() as int) =~= entries@);
    }
    count
}

/// Whether the host has memory for the requested number of node-network
/// instances without an operator override.
pub fn supports_multiple_networks(total_memory: u64, instances: usize) -> (r: bool)
    ensures
        r == (instances <= 1 || ram_gb(total_memory) >= MULTI_INSTANCE_MIN_GB),
{
    instances <= 1 || total_memory / 0x40000000 >= MULTI_INSTANCE_MIN_GB
}

/// Runs the admission gate, then plans. Returns `None` exactly when several
/// node-network instances are requested on a host below the memory floor and
/// the operator has not confirmed the override.
pub fn reconcile(
    entries: &Vec<ReconcileEntry>,
    force: bool,
    proxy_changed: bool,
    total_memory: u64,
    confirmed: bool,
) -> (r: Option<Vec<Step>>)
    ensures
        r is Some <==> admission_ok(entries@, total_memory, confirmed),
        r is Some ==> r->0@ == plan_spec(entries@, force, proxy_changed),
{
    let nodes = count_enabled_nodes(entries);
    if !supports_multiple_networks(total_memory, nodes) && !confirmed {
        return None;
    }
    Some(plan(entries, force, proxy_changed))
}

/// Whether the step is a unit operation acting on entry `j`.
pub open spec fn touches(s: Step, j: int) -> bool {
    match s {
        Step::Stop(i) => i == j,
        Step::Disable(i) => i == j,
        Step::Delete(i) => i == j,
        Step::WriteUnit(i) => i == j,
        Step::Enable(i) => i == j,
        Step::Start(i) => i == j,
        Step::DaemonReload => false,
        Step::WriteProxy => false,
        Step::ReloadProxy => false,
    }
}

/// The effect of a successful unit operation on the unit it acts on.
pub open spec fn unit_effect(u: ObservedUnit, s: Step) -> ObservedUnit {
    match s {
        Step::Stop(_) => ObservedUnit { active: false, ..u },
        Step::Disable(_) => ObservedUnit { enabled: false, ..u },
        Step::Delete(_) => ObservedUnit { exists: false, ..u },
        Step::WriteUnit(_) => ObservedUnit { exists: true, ..u },
        Step::Enable(_) => ObservedUnit { enabled: true, ..u },
        Step::Start(_) => ObservedUnit { active: true, ..u },
        _ => u,
    }
}

/// The observed states after one step. A failed step leaves every unit as it
/// was; reloads have no effect on unit states.
pub open spec fn step_apply(obs: Seq<ObservedUnit>, s: Step, ok: bool) -> Seq<ObservedUnit> {
    if !ok {
        obs
    } else {
        match s {
            Step::Stop(i) | Step::Disable(i) | Step::Delete(i) | Step::WriteUnit(i)
            | Step::Enable(i) | Step::Start(i) => {
                if i < obs.len() {
                    obs.update(i as int, unit_effect(obs[i as int], s))
                } else {
                    obs
                }
            },
            _ => obs,
        }
    }
}

/// The observed states after a whole step list, each step attempted in
/// order with its own outcome: no failure stops the steps after it.
pub open spec fn apply_steps(obs: Seq<ObservedUnit>, steps: Seq<Step>, oks: Seq<bool>) -> Seq<
    ObservedUnit,
>
    decreases steps.len(),
{
    if steps.len() == 0 {
        obs
    } else {
        let ok = if oks.len() > 0 {
            oks[0]
        } else {
            true
        };
        let rest_oks = if oks.len() > 0 {
            oks.skip(1)
        } else {
            oks
        };
        apply_steps(step_apply(obs, steps[0], ok), steps.skip(1), rest_oks)
    }
}

/// A sequence of `n` successful outcomes.
pub open spec fn all_ok(n: nat) -> Seq<bool> {
    Seq::new(n, |i: int| true)
}

pub proof fn lemma_apply_steps_len(obs: Seq<ObservedUnit>, steps: Seq<Step>, oks: Seq<bool>)
    ensures
        apply_steps(obs, steps, oks).len() == obs.len(),
    decreases steps.len(),
{
    if steps.len() > 0 {
        let ok = if oks.len() > 0 {
            oks[0]
        } else {
            true
        };
        let rest_oks = if oks.len() > 0 {
            oks.skip(1)
        } else {
            oks
        };
        lemma_apply_steps_len(step_apply(obs, steps[0], ok), steps.skip(1), rest_oks);
    }
}

/// Splitting a step list splits its application.
pub proof fn lemma_apply_steps_concat(
    obs: Seq<ObservedUnit>,
    s1: Seq<Step>,
    o1: Seq<bool>,
    s2: Seq<Step>,
    o2: Seq<bool>,
)
    requires
        o1.len() == s1.len(),
    ensures
        apply_steps(obs, s1 + s2, o1 + o2) == apply_steps(apply_steps(obs, s1, o1), s2, o2),
    decreases s1.len(),
{
    if s1.len() == 0 {
        assert(s1 + s2 =~= s2);
        assert(o1 + o2 =~= o2);
    } else {
        let stepped = step_apply(obs, s1[0], o1[0]);
        assert((s1 + s2)[0] == s1[0]);
        assert((o1 + o2)[0] == o1[0]);
        assert((s1 + s2).skip(1) =~= s1.skip(1) + s2);
        assert((o1 + o2).skip(1) =~= o1.skip(1) + o2);
        lemma_apply_steps_concat(stepped, s1.skip(1), o1.skip(1), s2, o2);
    }
}

/// Steps that do not act on entry `j` leave its unit state alone.
pub proof fn lemma_apply_steps_frame(
    obs: Seq<ObservedUnit>,
    steps: Seq<Step>,
    oks: Seq<bool>,
    j: int,
)
    requires
        0 <= j < obs.len(),
        forall|k: int| 0 <= k < steps.len() ==> !touches(#[trigger] steps[k], j),
    ensures
        apply_steps(obs, steps, oks)[j] == obs[j],
    decreases steps.len(),
{
    if steps.len() > 0 {
        let ok = if oks.len() > 0 {
            oks[0]
        } else {
            true
        };
        let rest_oks = if oks.len() > 0 {
            oks.skip(1)
        } else {
            oks
        };
        let stepped = step_apply(obs, steps[0], ok);
        assert(!touches(steps[0], j));
        assert(stepped[j] == obs[j]);
        assert(stepped.len() == obs.len());
        assert(forall|k: int| 0 <= k < steps.skip(1).len() ==> steps.skip(1)[k] == steps[k + 1]);
        lemma_apply_steps_frame(stepped, steps.skip(1), rest_oks, j);
    }
}

/// The unit state of entry `j` after a run depends only on the outcomes of
/// the steps that act on `j`: failures elsewhere change nothing for `j`.
pub proof fn lemma_outcomes_local(
    obs: Seq<ObservedUnit>,
    steps: Seq<Step>,
    oks1: Seq<bool>,
    oks2: Seq<bool>,
    j: int,
)
    requires
        0 <= j < obs.len(),
        oks1.len() == steps.len(),
        oks2.len() == steps.len(),
        forall|k: int|
            0 <= k < steps.len() && touches(#[trigger] steps[k], j) ==> oks1[k] == oks2[k],
    ensures
        apply_steps(obs, steps, oks1)[j] == apply_steps(obs, steps, oks2)[j],
    decreases steps.len(),
{
    if steps.len() > 0 {
        let stepped1 = step_apply(obs, steps[0], oks1[0]);
        let stepped2 = step_apply(obs, steps[0], oks2[0]);
        assert(stepped1.len() == obs.len());
        assert(stepped2.len() == obs.len());
        assert(stepped1[j] == stepped2[j]);
        assert(forall|k: int| 0 <= k < steps.skip(1).len() ==> steps.skip(1)[k] == steps[k + 1]);
        lemma_outcomes_local_shifted(stepped1, stepped2, steps.skip(1), oks1.skip(1), oks2.skip(1), j);
    }
}

proof fn lemma_outcomes_local_shifted(
    obs1: Seq<ObservedUnit>,
    obs2: Seq<ObservedUnit>,
    steps: Seq<Step>,
    oks1: Seq<bool>,
    oks2: Seq<bool>,
    j: int,
)
    requires
        0 <= j < obs1.len(),
        obs1.len() == obs2.len(),
        obs1[j] == obs2[j],
        oks1.len() == steps.len(),
        oks2.len() == steps.len(),
        forall|k: int|
            0 <= k < steps.len() && touches(#[trigger] steps[k], j) ==> oks1[k] == oks2[k],
    ensures
        apply_steps(obs1, steps, oks1)[j] == apply_steps(obs2, steps, oks2)[j],
    decreases steps.len(),
{
    if steps.len() > 0 {
        let stepped1 = step_apply(obs1, steps[0], oks1[0]);
        let stepped2 = step_apply(obs2, steps[0], oks2[0]);
        assert(stepped1.len() == obs1.len());
        assert(stepped2.len() == obs2.len());
        assert(stepped1[j] == stepped2[j]);
        assert(forall|k: int| 0 <= k < steps.skip(1).len() ==> steps.skip(1)[k] == steps[k + 1]);
        lemma_outcomes_local_shifted(
            stepped1,
            stepped2,
            steps.skip(1),
            oks1.skip(1),
            oks2.skip(1),
            j,
        );
    }
}

/// Applies one step outcome to the observed states, in place.
pub fn apply_step(observed: &mut Vec<ObservedUnit>, step: Step, ok: bool)
    ensures
        final(observed)@ == step_apply(old(observed)@, step, ok),
{
    if !ok {
        return;
    }
    let target: Option<usize> = match step {
        Step::Stop(i) => Some(i),
        Step::Disable(i) => Some(i),
        Step::Delete(i) => Some(i),
        Step::WriteUnit(i) => Some(i),
        Step::Enable(i) => Some(i),
        Step::Start(i) => Some(i),
        Step::DaemonReload => None,
        Step::WriteProxy => None,
        Step::ReloadProxy => None,
    };
    if let Some(i) = target {
        if i < observed.len() {
            let u = observed[i];
            let updated = match step {
                Step::Stop(_) => ObservedUnit { active: false, ..u },
                Step::Disable(_) => ObservedUnit { enabled: false, ..u },
                Step::Delete(_) => ObservedUnit { exists: false, ..u },
                Step::WriteUnit(_) => ObservedUnit { exists: true, ..u },
                Step::Enable(_) => ObservedUnit { enabled: true, ..u },
                Step::Start(_) => ObservedUnit { active: true, ..u },
                _ => u,
            };
            observed.set(i, updated);
            proof {
                assert(observed@ =~= step_apply(old(observed)@, step, ok));
            }
        }
    }
}

proof fn lemma_apply_steps_push(
    obs: Seq<ObservedUnit>,
    steps: Seq<Step>,
    oks: Seq<bool>,
    s: Step,
    ok: bool,
)
    requires
        oks.len() == steps.len(),
    ensures
        apply_steps(obs, steps.push(s), oks.push(ok)) == step_apply(
            apply_steps(obs, steps, oks),
            s,
            ok,
        ),
    decreases steps.len(),
{
    if steps.len() == 0 {
        assert(steps.push(s)[0] == s);
        assert(oks.push(ok)[0] == ok);
        assert(steps.push(s).skip(1) =~= Seq::<Step>::empty());
        assert(oks.push(ok).skip(1) =~= Seq::<bool>::empty());
        assert(apply_steps(obs, steps.push(s), oks.push(ok)) == apply_steps(
            step_apply(obs, s, ok),
            steps.push(s).skip(1),
            oks.push(ok).skip(1),
        ));
        assert(apply_steps(step_apply(obs, s, ok), steps.push(s).skip(1), oks.push(ok).skip(1))
            == step_apply(obs, s, ok));
        assert(apply_steps(obs, steps, oks) == obs);
    } else {
        assert(steps.push(s)[0] == steps[0]);
        assert(oks.push(ok)[0] == oks[0]);
        assert(steps.push(s).skip(1) =~= steps.skip(1).push(s));
        assert(oks.push(ok).skip(1) =~= oks.skip(1).push(ok));
        lemma_apply_steps_push(
            step_apply(obs, steps[0], oks[0]),
            steps.skip(1),
            oks.skip(1),
            s,
            ok,
        );
        assert(apply_steps(obs, steps.push(s), oks.push(ok)) == apply_steps(
            step_apply(obs, steps[0], oks[0]),
            steps.skip(1).push(s),
            oks.skip(1).push(ok),
        ));
        assert(apply_steps(obs, steps, oks) == apply_steps(
            step_apply(obs, steps[0], oks[0]),
            steps.skip(1),
            oks.skip(1),
        ));
    }
}

/// Attempts every step of the plan in order, never skipping a step because
/// an earlier one failed, and returns the resulting observed states.
pub fn apply_plan(
    observed: &Vec<ObservedUnit>,
    steps: &Vec<Step>,
    outcomes: &Vec<bool>,
) -> (r: Vec<ObservedUnit>)
    requires
        outcomes@.len() == steps@.len(),
    ensures
        r@ == apply_steps(observed@, steps@, outcomes@),
{
    let mut state: Vec<ObservedUnit> = Vec::new();
    let mut i: usize = 0;
    while i < observed.len()
        invariant
            i <= observed@.len(),
            state@ =~= observed@.take(i as int),
        decreases observed@.len() - i,
    {
        state.push(observed[i]);
        i = i + 1;
    }
    proof {
        assert(observed@.take(observed@.len() as int) =~= observed@);
    }
    let mut k: usize = 0;
    proof {
        assert(steps@.take(0) =~= Seq::<Step>::empty());
        assert(outcomes@.take(0) =~= Seq::<bool>::empty());
    }
    while k < steps.len()
        invariant
            k <= steps@.len(),
            outcomes@.len() == steps@.len(),
            state@ == apply_steps(observed@, steps@.take(k as int), outcomes@.take(k as int)),
        decreases steps@.len() - k,
    {
        apply_step(&mut state, steps[k], outcomes[k]);
        proof {
            assert(steps@.take(k as int + 1) =~= steps@.take(k as int).push(steps@[k as int]));
            assert(outcomes@.take(k as int + 1) =~= outcomes@.take(k as int).push(
                outcomes@[k as int],
            ));
            lemma_apply_steps_push(
                observed@,
                steps@.take(k as int),
                outcomes@.take(k as int),
                steps@[k as int],
                outcomes@[k as int],
            );
        }
        k = k + 1;
    }
    proof {
        assert(steps@.take(steps@.len() as int) =~= steps@);
        assert(outcomes@.take(outcomes@.len() as int) =~= outcomes@);
    }
    state
}

/// The observed unit states packed beside the entries, in entry order.
pub open spec fn observed_of(entries: Seq<ReconcileEntry>) -> Seq<ObservedUnit> {
    Seq::new(entries.len(), |i: int| entries[i].observed)
}

/// The entries with their observed states replaced, desires unchanged.
pub open spec fn with_observed(entries: Seq<ReconcileEntry>, obs: Seq<ObservedUnit>) -> Seq<
    ReconcileEntry,
> {
    Seq::new(
        entries.len(),
        |i: int|
            ReconcileEntry {
                enabled: entries[i].enabled,
                node_instance: entries[i].node_instance,
                observed: obs[i],
            },
    )
}

/// Observed states that match the desired states: enabled services have a
/// unit that exists, starts on boot and runs; disabled services have none.
pub open spec fn converged(entries: Seq<ReconcileEntry>, obs: Seq<ObservedUnit>) -> bool {
    obs.len() == entries.len() && forall|j: int|
        0 <= j < entries.len() ==> {
            if (#[trigger] entries[j]).enabled {
                obs[j] == (ObservedUnit { exists: true, enabled: true, active: true })
            } else {
                !obs[j].exists
            }
        }
}

/// What a successful teardown pass leaves of one unit.
pub open spec fn teardown_result(e: ReconcileEntry, u: ObservedUnit) -> ObservedUnit {
    if !e.enabled && e.observed.exists {
        ObservedUnit { exists: false, enabled: false, active: u.active && !e.observed.active }
    } else {
        u
    }
}

/// What a successful write pass leaves of one unit.
pub open spec fn write_result(e: ReconcileEntry, force: bool, u: ObservedUnit) -> ObservedUnit {
    if needs_write(e, force) {
        ObservedUnit { exists: true, ..u }
    } else {
        u
    }
}

/// What a successful startup pass leaves of one unit.
pub open spec fn startup_result(e: ReconcileEntry, u: ObservedUnit) -> ObservedUnit {
    if e.enabled {
        ObservedUnit {
            exists: u.exists,
            enabled: if !e.observed.enabled {
                true
            } else {
                u.enabled
            },
            active: if !e.observed.active {
                true
            } else {
                u.active
            },
        }
    } else {
        u
    }
}

proof fn lemma_apply_nil(obs: Seq<ObservedUnit>, oks: Seq<bool>)
    ensures
        apply_steps(obs, Seq::<Step>::empty(), oks) == obs,
{
}

proof fn lemma_apply_cons(obs: Seq<ObservedUnit>, s: Step, rest: Seq<Step>)
    ensures
        apply_steps(obs, seq![s] + rest, all_ok(1 + rest.len())) == apply_steps(
            step_apply(obs, s, true),
            rest,
            all_ok(rest.len()),
        ),
{
    let full = seq![s] + rest;
    let oks = all_ok(1 + rest.len());
    assert(full[0] == s);
    assert(oks[0] == true);
    assert(full.skip(1) =~= rest);
    assert(oks.skip(1) =~= all_ok(rest.len()));
}

proof fn lemma_apply_teardown(entries: Seq<ReconcileEntry>, obs: Seq<ObservedUnit>)
    requires
        entries.len() <= obs.len(),
        entries.len() <= usize::MAX,
    ensures
        ({
            let r = apply_steps(
                obs,
                teardown_steps(entries),
                all_ok(teardown_steps(entries).len()),
            );
            r.len() == obs.len() && forall|j: int|
                0 <= j < obs.len() ==> r[j] == (if j < entries.len() {
                    teardown_result(entries[j], obs[j])
                } else {
                    obs[j]
                })
        }),
    decreases entries.len(),
{
    let steps = teardown_steps(entries);
    lemma_apply_steps_len(obs, steps, all_ok(steps.len()));
    if entries.len() == 0 {
        assert(forall|j: int| 0 <= j < obs.len() ==> apply_steps(obs, steps, all_ok(0))[j] == obs[
            j
        ]);
    } else {
        let ep = entries.drop_last();
        let last = entries.last();
        let n = entries.len() as int;
        let prefix = teardown_steps(ep);
        let seg = teardown_for(last, n - 1);
        assert(steps == prefix + seg);
        assert(all_ok(steps.len()) =~= all_ok(prefix.len()) + all_ok(seg.len()));
        lemma_apply_steps_concat(obs, prefix, all_ok(prefix.len()), seg, all_ok(seg.len()));
        lemma_apply_teardown(ep, obs);
        let r1 = apply_steps(obs, prefix, all_ok(prefix.len()));
        assert(forall|j: int| 0 <= j < ep.len() ==> #[trigger] ep[j] == entries[j]);
        assert(r1[n - 1] == obs[n - 1]);
        let r = apply_steps(r1, seg, all_ok(seg.len()));
        if !last.enabled && last.observed.exists {
            let s_stop = Step::Stop((n - 1) as usize);
            let s_disable = Step::Disable((n - 1) as usize);
            let s_delete = Step::Delete((n - 1) as usize);
            if last.observed.active {
                assert(seg =~= seq![s_stop] + seq![s_disable, s_delete]);
                lemma_apply_cons(r1, s_stop, seq![s_disable, s_delete]);
                let a1 = step_apply(r1, s_stop, true);
                assert(seq![s_disable, s_delete] =~= seq![s_disable] + seq![s_delete]);
                lemma_apply_cons(a1, s_disable, seq![s_delete]);
                let a2 = step_apply(a1, s_disable, true);
                assert(seq![s_delete] =~= seq![s_delete] + Seq::<Step>::empty());
                lemma_apply_cons(a2, s_delete, Seq::<Step>::empty());
                let a3 = step_apply(a2, s_delete, true);
                lemma_apply_nil(a3, all_ok(0));
                assert(r == a3);
                assert(a3[n - 1] == (ObservedUnit {
                    exists: false,
                    enabled: false,
                    active: false,
                }));
                assert(forall|j: int| 0 <= j < obs.len() && j != n - 1 ==> r[j] == r1[j]);
            } else {
                assert(seg =~= seq![s_disable] + seq![s_delete]);
                lemma_apply_cons(r1, s_disable, seq![s_delete]);
                let a1 = step_apply(r1, s_disable, true);
                assert(seq![s_delete] =~= seq![s_delete] + Seq::<Step>::empty());
                lemma_apply_cons(a1, s_delete, Seq::<Step>::empty());
                let a2 = step_apply(a1, s_delete, true);
                lemma_apply_nil(a2, all_ok(0));
                assert(r == a2);
                assert(a2[n - 1] == (ObservedUnit {
                    exists: false,
                    enabled: false,
                    active: r1[n - 1].active,
                }));
                assert(forall|j: int| 0 <= j < obs.len() && j != n - 1 ==> r[j] == r1[j]);
            }
        } else {
            assert(seg =~= Seq::<Step>::empty());
            lemma_apply_nil(r1, all_ok(seg.len()));
            assert(r == r1);
        }
    }
}

proof fn lemma_apply_writes(entries: Seq<ReconcileEntry>, force: bool, obs: Seq<ObservedUnit>)
    requires
        entries.len() <= obs.len(),
        entries.len() <= usize::MAX,
    ensures
        ({
            let r = apply_steps(
                obs,
                write_steps(entries, force),
                all_ok(write_steps(entries, force).len()),
            );
            r.len() == obs.len() && forall|j: int|
                0 <= j < obs.len() ==> r[j] == (if j < entries.len() {
                    write_result(entries[j], force, obs[j])
                } else {
                    obs[j]
                })
        }),
    decreases entries.len(),
{
    let steps = write_steps(entries, force);
    lemma_apply_steps_len(obs, steps, all_ok(steps.len()));
    if entries.len() == 0 {
        assert(forall|j: int| 0 <= j < obs.len() ==> apply_steps(obs, steps, all_ok(0))[j] == obs[
            j
        ]);
    } else {
        let ep = entries.drop_last();
        let last = entries.last();
        let n = entries.len() as int;
        let prefix = write_steps(ep, force);
        let seg: Seq<Step> = if needs_write(last, force) {
            seq![Step::WriteUnit((n - 1) as usize)]
        } else {
            Seq::empty()
        };
        assert(steps == prefix + seg);
        assert(all_ok(steps.len()) =~= all_ok(prefix.len()) + all_ok(seg.len()));
        lemma_apply_steps_concat(obs, prefix, all_ok(prefix.len()), seg, all_ok(seg.len()));
        lemma_apply_writes(ep, force, obs);
        let r1 = apply_steps(obs, prefix, all_ok(prefix.len()));
        assert(forall|j: int| 0 <= j < ep.len() ==> #[trigger] ep[j] == entries[j]);
        assert(r1[n - 1] == obs[n - 1]);
        let r = apply_steps(r1, seg, all_ok(seg.len()));
        if needs_write(last, force) {
            let s_write = Step::WriteUnit((n - 1) as usize);
            assert(seg =~= seq![s_write] + Seq::<Step>::empty());
            lemma_apply_cons(r1, s_write, Seq::<Step>::empty());
            let a1 = step_apply(r1, s_write, true);
            lemma_apply_nil(a1, all_ok(0));
            assert(r == a1);
            assert(a1[n - 1] == (ObservedUnit { exists: true, ..obs[n - 1] }));
            assert(forall|j: int| 0 <= j < obs.len() && j != n - 1 ==> r[j] == r1[j]);
        } else {
            assert(seg =~= Seq::<Step>::empty());
            lemma_apply_nil(r1, all_ok(seg.len()));
            assert(r == r1);
        }
    }
}

proof fn lemma_apply_startup(entries: Seq<ReconcileEntry>, obs: Seq<ObservedUnit>)
    requires
        entries.len() <= obs.len(),
        entries.len() <= usize::MAX,
    ensures
        ({
            let r = apply_steps(
                obs,
                startup_steps(entries),
                all_ok(startup_steps(entries).len()),
            );
            r.len() == obs.len() && forall|j: int|
                0 <= j < obs.len() ==> r[j] == (if j < entries.len() {
                    startup_result(entries[j], obs[j])
                } else {
                    obs[j]
                })
        }),
    decreases entries.len(),
{
    let steps = startup_steps(entries);
    lemma_apply_steps_len(obs, steps, all_ok(steps.len()));
    if entries.len() == 0 {
        assert(forall|j: int| 0 <= j < obs.len() ==> apply_steps(obs, steps, all_ok(0))[j] == obs[
            j
        ]);
    } else {
        let ep = entries.drop_last();
        let last = entries.last();
        let n = entries.len() as int;
        let prefix = startup_steps(ep);
        let seg = startup_for(last, n - 1);
        assert(steps == prefix + seg);
        assert(all_ok(steps.len()) =~= all_ok(prefix.len()) + all_ok(seg.len()));
        lemma_apply_steps_concat(obs, prefix, all_ok(prefix.len()), seg, all_ok(seg.len()));
        lemma_apply_startup(ep, obs);
        let r1 = apply_steps(obs, prefix, all_ok(prefix.len()));
        assert(forall|j: int| 0 <= j < ep.len() ==> #[trigger] ep[j] == entries[j]);
        assert(r1[n - 1] == obs[n - 1]);
        let r = apply_steps(r1, seg, all_ok(seg.len()));
        if last.enabled {
            let s_enable = Step::Enable((n - 1) as usize);
            let s_start = Step::Start((n - 1) as usize);
            if !last.observed.enabled && !last.observed.active {
                assert(seg =~= seq![s_enable] + seq![s_start]);
                lemma_apply_cons(r1, s_enable, seq![s_start]);
                let a1 = step_apply(r1, s_enable, true);
                assert(seq![s_start] =~= seq![s_start] + Seq::<Step>::empty());
                lemma_apply_cons(a1, s_start, Seq::<Step>::empty());
                let a2 = step_apply(a1, s_start, true);
                lemma_apply_nil(a2, all_ok(0));
                assert(r == a2);
                assert(a2[n - 1] == startup_result(last, obs[n - 1]));
                assert(forall|j: int| 0 <= j < obs.len() && j != n - 1 ==> r[j] == r1[j]);
            } else if !last.observed.enabled {
                assert(seg =~= seq![s_enable] + Seq::<Step>::empty());
                lemma_apply_cons(r1, s_enable, Seq::<Step>::empty());
                let a1 = step_apply(r1, s_enable, true);
                lemma_apply_nil(a1, all_ok(0));
                assert(r == a1);
                assert(a1[n - 1] == startup_result(last, obs[n - 1]));
                assert(forall|j: int| 0 <= j < obs.len() && j != n - 1 ==> r[j] == r1[j]);
            } else if !last.observed.active {
                assert(seg =~= seq![s_start] + Seq::<Step>::empty());
                lemma_apply_cons(r1, s_start, Seq::<Step>::empty());
                let a1 = step_apply(r1, s_start, true);
                lemma_apply_nil(a1, all_ok(0));
                assert(r == a1);
                assert(a1[n - 1] == startup_result(last, obs[n - 1]));
                assert(forall|j: int| 0 <= j < obs.len() && j != n - 1 ==> r[j] == r1[j]);
            } else {
                assert(seg =~= Seq::<Step>::empty());
                lemma_apply_nil(r1, all_ok(seg.len()));
                assert(r == r1);
            }
        } else {
            assert(seg =~= Seq::<Step>::empty());
            lemma_apply_nil(r1, all_ok(seg.len()));
            assert(r == r1);
        }
    }
}

proof fn lemma_apply_untargeted(obs: Seq<ObservedUnit>, steps: Seq<Step>, oks: Seq<bool>)
    requires
        forall|k: int, j: int| 0 <= k < steps.len() ==> !(#[trigger] touches(steps[k], j)),
    ensures
        apply_steps(obs, steps, oks) == obs,
    decreases steps.len(),
{
    if steps.len() > 0 {
        let ok = if oks.len() > 0 {
            oks[0]
        } else {
            true
        };
        let rest_oks = if oks.len() > 0 {
            oks.skip(1)
        } else {
            oks
        };
        assert(step_apply(obs, steps[0], ok) == obs) by {
            assert(!touches(steps[0], 0));
            match steps[0] {
                Step::Stop(i) | Step::Disable(i) | Step::Delete(i) | Step::WriteUnit(i)
                | Step::Enable(i) | Step::Start(i) => {
                    assert(touches(steps[0], i as int));
                },
                _ => {},
            }
        }
        assert(forall|k: int| 0 <= k < steps.skip(1).len() ==> steps.skip(1)[k] == steps[k + 1]);
        lemma_apply_untargeted(obs, steps.skip(1), rest_oks);
    }
}

/// Convergence: when every planned step succeeds, every enabled entry ends
/// with a unit that exists, starts on boot and runs, and every disabled
/// entry ends with no unit.
pub proof fn lemma_reconcile_converges(
    entries: Seq<ReconcileEntry>,
    force: bool,
    proxy_changed: bool,
)
    requires
        entries.len() <= usize::MAX,
    ensures
        ({
            let p = plan_spec(entries, force, proxy_changed);
            converged(entries, apply_steps(observed_of(entries), p, all_ok(p.len())))
        }),
{
    let obs0 = observed_of(entries);
    let n = entries.len() as int;
    let td = teardown_steps(entries);
    let w = write_steps(entries, force);
    let rl = reload_steps(entries, force);
    let su = startup_steps(entries);
    let px = proxy_steps(proxy_changed);
    let p = plan_spec(entries, force, proxy_changed);
    assert(p == td + w + rl + su + px);
    let oks = all_ok(p.len());
    assert(oks =~= all_ok(td.len()) + (all_ok(w.len()) + (all_ok(rl.len()) + (all_ok(su.len())
        + all_ok(px.len())))));
    assert(p =~= td + (w + (rl + (su + px))));
    lemma_apply_steps_concat(
        obs0,
        td,
        all_ok(td.len()),
        w + (rl + (su + px)),
        all_ok(w.len()) + (all_ok(rl.len()) + (all_ok(su.len()) + all_ok(px.len()))),
    );
    let r1 = apply_steps(obs0, td, all_ok(td.len()));
    lemma_apply_steps_concat(
        r1,
        w,
        all_ok(w.len()),
        rl + (su + px),
        all_ok(rl.len()) + (all_ok(su.len()) + all_ok(px.len())),
    );
    let r2 = apply_steps(r1, w, all_ok(w.len()));
    lemma_apply_steps_concat(
        r2,
        rl,
        all_ok(rl.len()),
        su + px,
        all_ok(su.len()) + all_ok(px.len()),
    );
    let r3 = apply_steps(r2, rl, all_ok(rl.len()));
    lemma_apply_steps_concat(r3, su, all_ok(su.len()), px, all_ok(px.len()));
    let r4 = apply_steps(r3, su, all_ok(su.len()));
    let r5 = apply_steps(r4, px, all_ok(px.len()));
    assert(r5 == apply_steps(obs0, p, oks));
    lemma_apply_teardown(entries, obs0);
    lemma_apply_writes(entries, force, r1);
    lemma_apply_untargeted(r2, rl, all_ok(rl.len()));
    lemma_apply_startup(entries, r3);
    lemma_apply_untargeted(r4, px, all_ok(px.len()));
    assert forall|j: int| 0 <= j < entries.len() implies {
        if (#[trigger] entries[j]).enabled {
            r5[j] == (ObservedUnit { exists: true, enabled: true, active: true })
        } else {
            !r5[j].exists
        }
    } by {
        let e = entries[j];
        assert(obs0[j] == e.observed);
        assert(r1[j] == teardown_result(e, obs0[j]));
        assert(r2[j] == write_result(e, force, r1[j]));
        assert(r3[j] == r2[j]);
        assert(r4[j] == startup_result(e, r3[j]));
        assert(r5[j] == r4[j]);
    }
}

/// Idempotence: after a fully successful reconciliation, reconciling the
/// same desired state again, without `force`, plans no operation at all.
pub proof fn lemma_reconcile_idempotent(
    entries: Seq<ReconcileEntry>,
    force: bool,
    proxy_changed: bool,
)
    requires
        entries.len() <= usize::MAX,
    ensures
        ({
            let p = plan_spec(entries, force, proxy_changed);
            let after = apply_steps(observed_of(entries), p, all_ok(p.len()));
            plan_spec(with_observed(entries, after), false, false) =~= Seq::<Step>::empty()
        }),
{
    let p = plan_spec(entries, force, proxy_changed);
    let after = apply_steps(observed_of(entries), p, all_ok(p.len()));
    lemma_reconcile_converges(entries, force, proxy_changed);
    let e2 = with_observed(entries, after);
    assert(e2.len() == entries.len());
    assert forall|j: int| 0 <= j < e2.len() implies {
        &&& teardown_for(#[trigger] e2[j], j) =~= Seq::<Step>::empty()
        &&& !needs_write(e2[j], false)
        &&& startup_for(e2[j], j) =~= Seq::<Step>::empty()
    } by {
        if entries[j].enabled {
            assert(e2[j].observed == (ObservedUnit { exists: true, enabled: true, active: true }));
        } else {
            assert(!e2[j].observed.exists);
        }
    }
    lemma_empty_teardown(e2);
    lemma_empty_writes(e2);
    lemma_empty_startup(e2);
    assert(!any_write(e2, false));
    assert(plan_spec(e2, false, false) =~= Seq::<Step>::empty());
}

proof fn lemma_empty_teardown(entries: Seq<ReconcileEntry>)
    requires
        forall|j: int|
            0 <= j < entries.len() ==> teardown_for(#[trigger] entries[j], j) =~= Seq::<
                Step,
            >::empty(),
    ensures
        teardown_steps(entries) =~= Seq::<Step>::empty(),
    decreases entries.len(),
{
    if entries.len() > 0 {
        let ep = entries.drop_last();
        assert(forall|j: int| 0 <= j < ep.len() ==> #[trigger] ep[j] == entries[j]);
        lemma_empty_teardown(ep);
        assert(teardown_for(entries.last(), entries.len() - 1) =~= Seq::<Step>::empty());
    }
}

proof fn lemma_empty_writes(entries: Seq<ReconcileEntry>)
    requires
        forall|j: int| 0 <= j < entries.len() ==> !needs_write(#[trigger] entries[j], false),
    ensures
        write_steps(entries, false) =~= Seq::<Step>::empty(),
    decreases entries.len(),
{
    if entries.len() > 0 {
        let ep = entries.drop_last();
        assert(forall|j: int| 0 <= j < ep.len() ==> #[trigger] ep[j] == entries[j]);
        lemma_empty_writes(ep);
        assert(!needs_write(entries.last(), false));
    }
}

proof fn lemma_empty_startup(entries: Seq<ReconcileEntry>)
    requires
        forall|j: int|
            0 <= j < entries.len() ==> startup_for(#[trigger] entries[j], j) =~= Seq::<
                Step,
            >::empty(),
    ensures
        startup_steps(entries) =~= Seq::<Step>::empty(),
    decreases entries.len(),
{
    if entries.len() > 0 {
        let ep = entries.drop_last();
        assert(forall|j: int| 0 <= j < ep.len() ==> #[trigger] ep[j] == entries[j]);
        lemma_empty_startup(ep);
        assert(startup_for(entries.last(), entries.len() - 1) =~= Seq::<Step>::empty());
    }
}

/// Whether the step belongs to the teardown pass.
pub open spec fn is_teardown_step(s: Step) -> bool {
    match s {
        Step::Stop(_) => true,
        Step::Disable(_) => true,
        Step::Delete(_) => true,
        _ => false,
    }
}

/// Whether the step belongs to the activation pass (including the reloads
/// and the proxy update that follow it).
pub open spec fn is_activation_step(s: Step) -> bool {
    match s {
        Step::WriteUnit(_) => true,
        Step::DaemonReload => true,
        Step::Enable(_) => true,
        Step::Start(_) => true,
        Step::WriteProxy => true,
        Step::ReloadProxy => true,
        _ => false,
    }
}

proof fn lemma_teardown_kinds(entries: Seq<ReconcileEntry>)
    ensures
        forall|k: int|
            0 <= k < teardown_steps(entries).len() ==> is_teardown_step(
                #[trigger] teardown_steps(entries)[k],
            ),
    decreases entries.len(),
{
    if entries.len() > 0 {
        let ep = entries.drop_last();
        let last = entries.last();
        let n = entries.len() as int;
        let prefix = teardown_steps(ep);
        let seg = teardown_for(last, n - 1);
        lemma_teardown_kinds(ep);
        assert(teardown_steps(entries) == prefix + seg);
        assert forall|k: int|
            0 <= k < teardown_steps(entries).len() implies is_teardown_step(
            teardown_steps(entries)[k],
        ) by {
            if k < prefix.len() {
                assert(teardown_steps(entries)[k] == prefix[k]);
            } else {
                assert(teardown_steps(entries)[k] == seg[k - prefix.len()]);
                if !last.enabled && last.observed.exists {
                    if last.observed.active {
                        assert(seg =~= seq![
                            Step::Stop((n - 1) as usize),
                            Step::Disable((n - 1) as usize),
                            Step::Delete((n - 1) as usize),
                        ]);
                    } else {
                        assert(seg =~= seq![
                            Step::Disable((n - 1) as usize),
                            Step::Delete((n - 1) as usize),
                        ]);
                    }
                }
            }
        }
    }
}

proof fn lemma_write_kinds(entries: Seq<ReconcileEntry>, force: bool)
    ensures
        forall|k: int|
            0 <= k < write_steps(entries, force).len() ==> (#[trigger] write_steps(entries, force)[k])
                is WriteUnit,
    decreases entries.len(),
{
    if entries.len() > 0 {
        let ep = entries.drop_last();
        let last = entries.last();
        let n = entries.len() as int;
        let prefix = write_steps(ep, force);
        lemma_write_kinds(ep, force);
        assert forall|k: int|
            0 <= k < write_steps(entries, force).len() implies (write_steps(entries, force)[k])
            is WriteUnit by {
            if k < prefix.len() {
                assert(write_steps(entries, force)[k] == prefix[k]);
            } else {
                let seg: Seq<Step> = if needs_write(last, force) {
                    seq![Step::WriteUnit((n - 1) as usize)]
                } else {
                    Seq::empty()
                };
                assert(write_steps(entries, force)[k] == seg[k - prefix.len()]);
            }
        }
    }
}

proof fn lemma_startup_kinds(entries: Seq<ReconcileEntry>)
    ensures
        forall|k: int|
            0 <= k < startup_steps(entries).len() ==> ((#[trigger] startup_steps(entries)[k])
                is Enable || startup_steps(entries)[k] is Start),
    decreases entries.len(),
{
    if entries.len() > 0 {
        let ep = entries.drop_last();
        let last = entries.last();
        let n = entries.len() as int;
        let prefix = startup_steps(ep);
        let seg = startup_for(last, n - 1);
        lemma_startup_kinds(ep);
        assert forall|k: int|
            0 <= k < startup_steps(entries).len() implies ((startup_steps(entries)[k])
            is Enable || startup_steps(entries)[k] is Start) by {
            if k < prefix.len() {
                assert(startup_steps(entries)[k] == prefix[k]);
            } else {
                assert(startup_steps(entries)[k] == seg[k - prefix.len()]);
                if last.enabled {
                    if !last.observed.enabled && !last.observed.active {
                        assert(seg =~= seq![
                            Step::Enable((n - 1) as usize),
                            Step::Start((n - 1) as usize),
                        ]);
                    } else if !last.observed.enabled {
                        assert(seg =~= seq![Step::Enable((n - 1) as usize)]);
                    } else if !last.observed.active {
                        assert(seg =~= seq![Step::Start((n - 1) as usize)]);
                    }
                }
            }
        }
    }
}

/// Teardown strictly precedes activation: in every plan, each teardown
/// operation stands before each activation operation, over the whole entry
/// set.
pub proof fn lemma_teardown_precedes_activation(
    entries: Seq<ReconcileEntry>,
    force: bool,
    proxy_changed: bool,
)
    ensures
        ({
            let p = plan_spec(entries, force, proxy_changed);
            forall|a: int, b: int|
                0 <= a < p.len() && 0 <= b < p.len() && is_teardown_step(#[trigger] p[a])
                    && is_activation_step(#[trigger] p[b]) ==> a < b
        }),
{
    let td = teardown_steps(entries);
    let w = write_steps(entries, force);
    let rl = reload_steps(entries, force);
    let su = startup_steps(entries);
    let px = proxy_steps(proxy_changed);
    let p = plan_spec(entries, force, proxy_changed);
    let lt = td.len() as int;
    lemma_teardown_kinds(entries);
    lemma_write_kinds(entries, force);
    lemma_startup_kinds(entries);
    assert forall|k: int| 0 <= k < p.len() implies (is_teardown_step(#[trigger] p[k]) <==> k
        < lt) by {
        if k < lt {
            assert(p[k] == td[k]);
        } else if k < lt + w.len() {
            assert(p[k] == w[k - lt]);
        } else if k < lt + w.len() + rl.len() {
            assert(p[k] == rl[k - lt - w.len()]);
        } else if k < lt + w.len() + rl.len() + su.len() {
            assert(p[k] == su[k - lt - w.len() - rl.len()]);
        } else {
            assert(p[k] == px[k - lt - w.len() - rl.len() - su.len()]);
        }
    }
}

/// How many times the plan reloads the init system.
pub open spec fn reload_count(p: Seq<Step>) -> nat
    decreases p.len(),
{
    if p.len() == 0 {
        0
    } else {
        reload_count(p.drop_last()) + (if p.last() is DaemonReload {
            1nat
        } else {
            0nat
        })
    }
}

proof fn lemma_reload_count_concat(a: Seq<Step>, b: Seq<Step>)
    ensures
        reload_count(a + b) == reload_count(a) + reload_count(b),
    decreases b.len(),
{
    if b.len() == 0 {
        assert(a + b =~= a);
    } else {
        assert((a + b).drop_last() =~= a + b.drop_last());
        assert((a + b).last() == b.last());
        lemma_reload_count_concat(a, b.drop_last());
    }
}

proof fn lemma_reload_count_zero(p: Seq<Step>)
    requires
        forall|k: int| 0 <= k < p.len() ==> !((#[trigger] p[k]) is DaemonReload),
    ensures
        reload_count(p) == 0,
    decreases p.len(),
{
    if p.len() > 0 {
        assert(forall|k: int| 0 <= k < p.drop_last().len() ==> p.drop_last()[k] == p[k]);
        lemma_reload_count_zero(p.drop_last());
    }
}

/// The init-system reload is batched: a plan holds exactly one reload when
/// it writes at least one unit file and none otherwise, and every unit-file
/// write precedes the reload.
pub proof fn lemma_single_reload(entries: Seq<ReconcileEntry>, force: bool, proxy_changed: bool)
    ensures
        ({
            let p = plan_spec(entries, force, proxy_changed);
            &&& reload_count(p) == (if any_write(entries, force) {
                1nat
            } else {
                0nat
            })
            &&& forall|a: int, b: int|
                0 <= a < p.len() && 0 <= b < p.len() && ((#[trigger] p[a]) is WriteUnit) && ((#[trigger] p[b]) is DaemonReload) ==> a < b
        }),
{
    let td = teardown_steps(entries);
    let w = write_steps(entries, force);
    let rl = reload_steps(entries, force);
    let su = startup_steps(entries);
    let px = proxy_steps(proxy_changed);
    let p = plan_spec(entries, force, proxy_changed);
    let lt = td.len() as int;
    lemma_teardown_kinds(entries);
    lemma_write_kinds(entries, force);
    lemma_startup_kinds(entries);
    lemma_reload_count_zero(td);
    lemma_reload_count_zero(w);
    lemma_reload_count_zero(su);
    lemma_reload_count_zero(px);
    assert(reload_count(rl) == (if any_write(entries, force) {
        1nat
    } else {
        0nat
    })) by {
        assert(reload_count(Seq::<Step>::empty()) == 0);
        if any_write(entries, force) {
            assert(rl =~= seq![Step::DaemonReload]);
            assert(rl.drop_last() =~= Seq::<Step>::empty());
            assert(reload_count(rl) == reload_count(rl.drop_last()) + 1);
        } else {
            assert(rl =~= Seq::<Step>::empty());
        }
    }
    lemma_reload_count_concat(td, w);
    lemma_reload_count_concat(td + w, rl);
    lemma_reload_count_concat(td + w + rl, su);
    lemma_reload_count_concat(td + w + rl + su, px);
    assert forall|a: int, b: int|
        0 <= a < p.len() && 0 <= b < p.len() && ((#[trigger] p[a]) is WriteUnit) && ((
        #[trigger] p[b]) is DaemonReload) implies a < b by {
        assert forall|k: int| 0 <= k < p.len() implies ((p[k] is WriteUnit) ==> lt
            <= k < lt + w.len()) && ((p[k] is DaemonReload) ==> lt + w.len() <= k < lt
            + w.len() + rl.len()) by {
            if k < lt {
                assert(p[k] == td[k]);
            } else if k < lt + w.len() {
                assert(p[k] == w[k - lt]);
            } else if k < lt + w.len() + rl.len() {
                assert(p[k] == rl[k - lt - w.len()]);
                assert(rl =~= seq![Step::DaemonReload]);
            } else if k < lt + w.len() + rl.len() + su.len() {
                assert(p[k] == su[k - lt - w.len() - rl.len()]);
            } else {
                assert(p[k] == px[k - lt - w.len() - rl.len() - su.len()]);
                if proxy_changed {
                    assert(px =~= seq![Step::WriteProxy, Step::ReloadProxy]);
                }
            }
        }
    }
}

/// Failure containment, first half: the teardown operations for a disabled
/// service stand in the plan unconditionally, so a failed stop never keeps
/// the disable and delete for the same service, or any other service's
/// steps, out of the attempted list.
pub proof fn lemma_teardown_steps_planned(
    entries: Seq<ReconcileEntry>,
    force: bool,
    proxy_changed: bool,
    j: int,
)
    requires
        entries.len() <= usize::MAX,
        0 <= j < entries.len(),
        !entries[j].enabled,
        entries[j].observed.exists,
    ensures
        plan_spec(entries, force, proxy_changed).contains(Step::Disable(j as usize)),
        plan_spec(entries, force, proxy_changed).contains(Step::Delete(j as usize)),
        entries[j].observed.active ==> plan_spec(entries, force, proxy_changed).contains(
            Step::Stop(j as usize),
        ),
{
    let td = teardown_steps(entries);
    let p = plan_spec(entries, force, proxy_changed);
    lemma_teardown_contains(entries, j);
    assert forall|s: Step| td.contains(s) implies p.contains(s) by {
        let i = choose|i: int| 0 <= i < td.len() && td[i] == s;
        assert(p[i] == td[i]);
    }
}

proof fn lemma_teardown_contains(entries: Seq<ReconcileEntry>, j: int)
    requires
        entries.len() <= usize::MAX,
        0 <= j < entries.len(),
        !entries[j].enabled,
        entries[j].observed.exists,
    ensures
        teardown_steps(entries).contains(Step::Disable(j as usize)),
        teardown_steps(entries).contains(Step::Delete(j as usize)),
        entries[j].observed.active ==> teardown_steps(entries).contains(Step::Stop(j as usize)),
    decreases entries.len(),
{
    let ep = entries.drop_last();
    let last = entries.last();
    let n = entries.len() as int;
    let prefix = teardown_steps(ep);
    let seg = teardown_for(last, n - 1);
    assert(teardown_steps(entries) == prefix + seg);
    if j == n - 1 {
        if last.observed.active {
            assert(seg =~= seq![
                Step::Stop(j as usize),
                Step::Disable(j as usize),
                Step::Delete(j as usize),
            ]);
            assert(teardown_steps(entries)[prefix.len() as int] == seg[0]);
            assert(teardown_steps(entries)[prefix.len() as int + 1] == seg[1]);
            assert(teardown_steps(entries)[prefix.len() as int + 2] == seg[2]);
        } else {
            assert(seg =~= seq![Step::Disable(j as usize), Step::Delete(j as usize)]);
            assert(teardown_steps(entries)[prefix.len() as int] == seg[0]);
            assert(teardown_steps(entries)[prefix.len() as int + 1] == seg[1]);
        }
    } else {
        assert(forall|k: int| 0 <= k < ep.len() ==> #[trigger] ep[k] == entries[k]);
        lemma_teardown_contains(ep, j);
        assert forall|s: Step| prefix.contains(s) implies teardown_steps(entries).contains(s) by {
            let i = choose|i: int| 0 <= i < prefix.len() && prefix[i] == s;
            assert(teardown_steps(entries)[i] == prefix[i]);
        }
    }
}

/// Failure containment, second half: what a run leaves of service `j`
/// depends only on the outcomes of the steps that act on `j`. Failures of
/// any other service's steps change nothing for `j`.
pub proof fn lemma_failure_contained(
    entries: Seq<ReconcileEntry>,
    force: bool,
    proxy_changed: bool,
    oks1: Seq<bool>,
    oks2: Seq<bool>,
    j: int,
)
    requires
        0 <= j < entries.len(),
        oks1.len() == plan_spec(entries, force, proxy_changed).len(),
        oks2.len() == plan_spec(entries, force, proxy_changed).len(),
        forall|k: int|
            0 <= k < plan_spec(entries, force, proxy_changed).len() && touches(
                #[trigger] plan_spec(entries, force, proxy_changed)[k],
                j,
            ) ==> oks1[k] == oks2[k],
    ensures
        apply_steps(observed_of(entries), plan_spec(entries, force, proxy_changed), oks1)[j]
            == apply_steps(observed_of(entries), plan_spec(entries, force, proxy_changed), oks2)[j],
{
    lemma_outcomes_local(
        observed_of(entries),
        plan_spec(entries, force, proxy_changed),
        oks1,
        oks2,
        j,
    );
}

/// The record of one reconciliation run: every step that was attempted, and
/// whether it succeeded. Failures are recorded per step; they never abort
/// the run.
pub struct ReconcileReport {
    pub steps: Vec<Step>,
    pub outcomes: Vec<bool>,
}

impl ReconcileReport {
    /// A report over the given steps and their outcomes.
    pub fn new(steps: Vec<Step>, outcomes: Vec<bool>) -> (r: ReconcileReport)
        requires
            steps@.len() == outcomes@.len(),
        ensures
            r.steps@ == steps@,
            r.outcomes@ == outcomes@,
    {
        ReconcileReport { steps, outcomes }
    }

    /// Whether every attempted step succeeded.
    pub fn ok(&self) -> (r: bool)
        ensures
            r == (forall|k: int| 0 <= k < self.outcomes@.len() ==> self.outcomes@[k]),
    {
        let mut k: usize = 0;
        while k < self.outcomes.len()
            invariant
                k <= self.outcomes@.len(),
                forall|m: int| 0 <= m < k ==> self.outcomes@[m],
            decreases self.outcomes@.len() - k,
        {
            if !self.outcomes[k] {
                return false;
            }
            k = k + 1;
        }
        true
    }

    /// How many attempted steps failed.
    pub fn failure_count(&self) -> (r: usize)
        ensures
            r <= self.outcomes@.len(),
            (r == 0) == (forall|k: int| 0 <= k < self.outcomes@.len() ==> self.outcomes@[k]),
    {
        let mut count: usize = 0;
        let mut k: usize = 0;
        while k < self.outcomes.len()
            invariant
                k <= self.outcomes@.len(),
                count <= k,
                (count == 0) == (forall|m: int| 0 <= m < k ==> self.outcomes@[m]),
            decreases self.outcomes@.len() - k,
        {
            if !self.outcomes[k] {
                count = count + 1;
            }
            k = k + 1;
        }
        count
    }
}

} // verus!
