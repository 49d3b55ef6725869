//! Stages, stage labels, and the stage collection that drives a tick.

use crate::decimal::decimal_string;
use crate::decimal::spec_decimal;
use crate::system::System;
use crate::system::SystemError;
use crate::system::SystemResult;
use crate::ulid::Ulid;
use vstd::prelude::*;

verus! {

/// The outcome a system records when its run hook succeeds.
pub open spec fn success() -> SystemResult {
    Ok(())
}

/// One successful pass over a stage's systems: every system recorded exactly
/// one new outcome, a success, and no system was skipped.
pub open spec fn all_ran_ok(before: Seq<Seq<SystemResult>>, after: Seq<Seq<SystemResult>>) -> bool {
    &&& after.len() == before.len()
    &&& forall|j: int| 0 <= j < before.len() ==> after[j] == before[j].push(success())
}

/// A fail-fast pass over a stage's systems that stopped at position `k`: the
/// systems before `k` each recorded one success, the system at `k` recorded
/// the failure `e`, and the systems after `k` did not run at all.
pub open spec fn failed_at(
    before: Seq<Seq<SystemResult>>,
    after: Seq<Seq<SystemResult>>,
    k: int,
    e: SystemError,
) -> bool {
    &&& after.len() == before.len()
    &&& 0 <= k < before.len()
    &&& forall|j: int| 0 <= j < k ==> after[j] == before[j].push(success())
    &&& after[k] == before[k].push(Err(e))
    &&& forall|j: int| k < j < before.len() ==> after[j] == before[j]
}

/// How one run call moves a stage's outcome logs: on success every system ran
/// and succeeded; on failure the first failing system's error is reported and
/// the systems after it are skipped.
pub open spec fn stage_run_step(
    before: Seq<Seq<SystemResult>>,
    after: Seq<Seq<SystemResult>>,
    r: SystemResult,
) -> bool {
    match r {
        Ok(_) => all_ran_ok(before, after),
        Err(e) => exists|k: int| failed_at(before, after, k, e),
    }
}

/// One pass of the initialize phase over a list of systems: every system's
/// initialize hook was invoked exactly once.
pub open spec fn each_initialized_once(before: Seq<nat>, after: Seq<nat>) -> bool {
    &&& after.len() == before.len()
    &&& forall|j: int| 0 <= j < before.len() ==> after[j] == before[j] + 1
}

/// An ordered list of systems identified by a label, run as one phase of a
/// tick. The three spec functions expose the stage's identity and the ghost
/// lifecycle records of its systems, in insertion order; the method contracts
/// say how each call moves them.
pub trait SystemStage: Sized {
    /// The type of system this stage holds.
    type Sys: System;

    /// The stage's stable identifier.
    spec fn spec_id(&self) -> Ulid;

    /// The stage's diagnostic name.
    spec fn spec_name(&self) -> Seq<char>;

    /// Each contained system's count of initialize calls, in insertion order.
    spec fn init_counts(&self) -> Seq<nat>;

    /// Each contained system's run outcomes, in insertion order.
    spec fn outcome_logs(&self) -> Seq<Seq<SystemResult>>;

    /// The unique identifier for the stage, constant for its lifetime.
    fn id(&self) -> (r: Ulid)
        ensures
            r == self.spec_id(),
    ;

    /// The human-readable name for the stage, for diagnostics.
    fn name(&self) -> (r: String)
        ensures
            r@ == self.spec_name(),
    ;

    /// Initialize the contained systems, in insertion order, each exactly
    /// once. Must be called once before the first `run`.
    fn initialize(&mut self, world: &mut <Self::Sys as System>::World)
        ensures
            final(self).spec_id() == old(self).spec_id(),
            final(self).spec_name() == old(self).spec_name(),
            final(self).outcome_logs() == old(self).outcome_logs(),
            each_initialized_once(old(self).init_counts(), final(self).init_counts()),
    ;

    /// Run the contained systems in insertion order, stopping at the first
    /// failure and returning that failure unchanged.
    fn run(&mut self, world: &<Self::Sys as System>::World) -> (r: SystemResult)
        ensures
            final(self).spec_id() == old(self).spec_id(),
            final(self).spec_name() == old(self).spec_name(),
            final(self).init_counts() == old(self).init_counts(),
            stage_run_step(old(self).outcome_logs(), final(self).outcome_logs(), r),
    ;

    /// Append a system at the end of the stage's ordered list.
    fn add_system(&mut self, system: Self::Sys)
        ensures
            final(self).spec_id() == old(self).spec_id(),
            final(self).spec_name() == old(self).spec_name(),
            final(self).init_counts() == old(self).init_counts().push(system.init_count()),
            final(self).outcome_logs() == old(self).outcome_logs().push(system.outcomes()),
    ;
}

/// The default stage: it stores the ordered list of systems directly and runs
/// them by sequential iteration, preserving insertion order and stopping at
/// the first failure.
pub struct SimpleSystemStage<S> {
    /// The unique identifier for the stage.
    pub id: Ulid,
    /// The human-readable name for the stage, used in diagnostics.
    pub name: String,
    /// The systems, run in the order they stand in this list.
    pub systems: Vec<S>,
}

impl<S> SimpleSystemStage<S> {
    /// A new, empty stage, named and identified by the given label.
    pub fn new<L: StageLabel>(label: L) -> (r: Self)
        ensures
            r.id == label.spec_id(),
            r.name@ == label.spec_name(),
            r.systems@ == Seq::<S>::empty(),
    {
        SimpleSystemStage { id: label.id(), name: label.name(), systems: Vec::new() }
    }
}

impl<S: System> SystemStage for SimpleSystemStage<S> {
    type Sys = S;

    open spec fn spec_id(&self) -> Ulid {
        self.id
    }

    open spec fn spec_name(&self) -> Seq<char> {
        self.name@
    }

    open spec fn init_counts(&self) -> Seq<nat> {
        self.systems@.map_values(|s: S| s.init_count())
    }

    open spec fn outcome_logs(&self) -> Seq<Seq<SystemResult>> {
        self.systems@.map_values(|s: S| s.outcomes())
    }

    fn id(&self) -> (r: Ulid) {
        self.id
    }

    fn name(&self) -> (r: String) {
        self.name.clone()
    }

    fn initialize(&mut self, world: &mut S::World) {
        let n = self.systems.len();
        let mut i: usize = 0;
        while i < n
            invariant
                i <= n,
                n == self.systems@.len(),
                self.systems@.len() == old(self).systems@.len(),
                self.id == old(self).id,
                self.name == old(self).name,
                forall|j: int|
                    0 <= j < i ==> #[trigger] self.systems@[j].init_count() == old(
                        self,
                    ).systems@[j].init_count() + 1,
                forall|j: int|
                    0 <= j < i ==> #[trigger] self.systems@[j].outcomes() == old(
                        self,
                    ).systems@[j].outcomes(),
                forall|j: int| i <= j < n ==> self.systems@[j] == old(self).systems@[j],
            decreases n - i,
        {
            let sys = &mut self.systems[i];
            sys.initialize(world);
            i = i + 1;
        }
        proof {
            assert(self.outcome_logs() =~= old(self).outcome_logs());
        }
    }

    fn run(&mut self, world: &S::World) -> (r: SystemResult) {
        let n = self.systems.len();
        let mut i: usize = 0;
        while i < n
            invariant
                i <= n,
                n == self.systems@.len(),
                self.systems@.len() == old(self).systems@.len(),
                self.id == old(self).id,
                self.name == old(self).name,
                forall|j: int|
                    0 <= j < i ==> #[trigger] self.systems@[j].outcomes() == old(
                        self,
                    ).systems@[j].outcomes().push(success()),
                forall|j: int|
                    0 <= j < i ==> #[trigger] self.systems@[j].init_count() == old(
                        self,
                    ).systems@[j].init_count(),
                forall|j: int| i <= j < n ==> self.systems@[j] == old(self).systems@[j],
            decreases n - i,
        {
            let sys = &mut self.systems[i];
            let res = sys.run(world);
            match res {
                Ok(u) => {},
                Err(e) => {
                    proof {
                        assert(self.init_counts() =~= old(self).init_counts());
                        assert(failed_at(
                            old(self).outcome_logs(),
                            self.outcome_logs(),
                            i as int,
                            e,
                        ));
                    }
                    return Err(e);
                },
            }
            i = i + 1;
        }
        proof {
            assert(self.init_counts() =~= old(self).init_counts());
            assert(all_ran_ok(old(self).outcome_logs(), self.outcome_logs()));
        }
        Ok(())
    }

    fn add_system(&mut self, system: S) {
        self.systems.push(system);
        proof {
            assert(self.init_counts() =~= old(self).init_counts().push(system.init_count()));
            assert(self.outcome_logs() =~= old(self).outcome_logs().push(system.outcomes()));
        }
    }
}

/// Names a system stage: a human-readable name for diagnostics and a stable
/// 128-bit identifier that is the stage's identity. Two labels with the same
/// identifier name the same stage, whatever their name strings say.
pub trait StageLabel: Sized {
    /// The name this label renders to.
    spec fn spec_name(&self) -> Seq<char>;

    /// The identifier this label carries.
    spec fn spec_id(&self) -> Ulid;

    /// The human-readable name of the label, used in diagnostics.
    fn name(&self) -> (r: String)
        ensures
            r@ == self.spec_name(),
    ;

    /// The stable identifier for the stage this label names.
    fn id(&self) -> (r: Ulid)
        ensures
            r == self.spec_id(),
    ;
}

/// The five canonical phases of the default pipeline, in running order.
/// Each maps to a fixed constant identifier, stable across builds.
#[derive(Copy, Clone, Debug)]
pub enum CoreStage {
    /// Input and bookkeeping, at the head of the tick.
    First,
    /// Pre-simulation setup.
    PreUpdate,
    /// Core simulation logic.
    Update,
    /// Post-simulation reconciliation.
    PostUpdate,
    /// End-of-tick cleanup and rendering preparation.
    Last,
}

/// The constant identifier of [`CoreStage::First`].
pub const CORE_STAGE_FIRST: u128 = 2021715391084198804812356024998495966;

/// The constant identifier of [`CoreStage::PreUpdate`].
pub const CORE_STAGE_PRE_UPDATE: u128 = 2021715401330719559452824437611089988;

/// The constant identifier of [`CoreStage::Update`].
pub const CORE_STAGE_UPDATE: u128 = 2021715410160177201728645950400543948;

/// The constant identifier of [`CoreStage::PostUpdate`].
pub const CORE_STAGE_POST_UPDATE: u128 = 2021715423103233646561968734173322317;

/// The constant identifier of [`CoreStage::Last`].
pub const CORE_STAGE_LAST: u128 = 2021715433398666914977687392909851554;

impl StageLabel for CoreStage {
    open spec fn spec_name(&self) -> Seq<char> {
        match self {
            CoreStage::First => "First"@,
            CoreStage::PreUpdate => "PreUpdate"@,
            CoreStage::Update => "Update"@,
            CoreStage::PostUpdate => "PostUpdate"@,
            CoreStage::Last => "Last"@,
        }
    }

    open spec fn spec_id(&self) -> Ulid {
        match self {
            CoreStage::First => Ulid(CORE_STAGE_FIRST),
            CoreStage::PreUpdate => Ulid(CORE_STAGE_PRE_UPDATE),
            CoreStage::Update => Ulid(CORE_STAGE_UPDATE),
            CoreStage::PostUpdate => Ulid(CORE_STAGE_POST_UPDATE),
            CoreStage::Last => Ulid(CORE_STAGE_LAST),
        }
    }

    fn name(&self) -> (r: String) {
        match self {
            CoreStage::First => String::from_str("First"),
            CoreStage::PreUpdate => String::from_str("PreUpdate"),
            CoreStage::Update => String::from_str("Update"),
            CoreStage::PostUpdate => String::from_str("PostUpdate"),
            CoreStage::Last => String::from_str("Last"),
        }
    }

    fn id(&self) -> (r: Ulid) {
        match self {
            CoreStage::First => Ulid(CORE_STAGE_FIRST),
            CoreStage::PreUpdate => Ulid(CORE_STAGE_PRE_UPDATE),
            CoreStage::Update => Ulid(CORE_STAGE_UPDATE),
            CoreStage::PostUpdate => Ulid(CORE_STAGE_POST_UPDATE),
            CoreStage::Last => Ulid(CORE_STAGE_LAST),
        }
    }
}

/// No two of the five core stages share an identifier, and none uses the zero
/// identifier: registrations aimed at distinct core phases can never collide.
pub proof fn lemma_core_stage_ids_distinct()
    ensures
        forall|a: CoreStage, b: CoreStage| a.spec_id() == b.spec_id() ==> a == b,
        forall|a: CoreStage| a.spec_id() != Ulid(0),
{
}

/// One successful tick over a collection's outcome logs: every stage made a
/// full successful pass over its systems.
pub open spec fn tick_ok(
    before: Seq<Seq<Seq<SystemResult>>>,
    after: Seq<Seq<Seq<SystemResult>>>,
) -> bool {
    &&& after.len() == before.len()
    &&& forall|i: int| 0 <= i < before.len() ==> all_ran_ok(before[i], after[i])
}

/// A tick that stopped in stage `i` with failure `e`: the stages before `i`
/// made full successful passes, stage `i` stopped fail-fast at its failing
/// system, and the stages after `i` were skipped entirely.
pub open spec fn tick_failed_at(
    before: Seq<Seq<Seq<SystemResult>>>,
    after: Seq<Seq<Seq<SystemResult>>>,
    i: int,
    e: SystemError,
) -> bool {
    &&& after.len() == before.len()
    &&& 0 <= i < before.len()
    &&& forall|h: int| 0 <= h < i ==> all_ran_ok(before[h], after[h])
    &&& exists|k: int| failed_at(before[i], after[i], k, e)
    &&& forall|h: int| i < h < before.len() ==> after[h] == before[h]
}

/// How one tick moves a collection's outcome logs: on success every system in
/// every stage ran and succeeded; on failure the first failing system's error
/// is reported unchanged and everything after that system is skipped.
pub open spec fn tick_step(
    before: Seq<Seq<Seq<SystemResult>>>,
    after: Seq<Seq<Seq<SystemResult>>>,
    r: SystemResult,
) -> bool {
    match r {
        Ok(_) => tick_ok(before, after),
        Err(e) => exists|i: int| tick_failed_at(before, after, i, e),
    }
}

/// One pass of the initialize phase over a whole collection: every system of
/// every stage had its initialize hook invoked exactly once.
pub open spec fn each_stage_initialized_once(before: Seq<Seq<nat>>, after: Seq<Seq<nat>>) -> bool {
    &&& after.len() == before.len()
    &&& forall|i: int| 0 <= i < before.len() ==> each_initialized_once(before[i], after[i])
}

/// A registration appended a system to the first stage of `before` that
/// carries `id`, at position `i`, and touched nothing else. `inits` and `outs`
/// are the appended system's lifecycle records at the time it was added.
pub open spec fn added_to_first_match<T: SystemStage>(
    before: Seq<T>,
    after: Seq<T>,
    id: Ulid,
    i: int,
    inits: nat,
    outs: Seq<SystemResult>,
) -> bool {
    &&& after.len() == before.len()
    &&& 0 <= i < before.len()
    &&& before[i].spec_id() == id
    &&& forall|j: int| 0 <= j < i ==> before[j].spec_id() != id
    &&& after[i].spec_id() == before[i].spec_id()
    &&& after[i].spec_name() == before[i].spec_name()
    &&& after[i].init_counts() == before[i].init_counts().push(inits)
    &&& after[i].outcome_logs() == before[i].outcome_logs().push(outs)
    &&& forall|j: int| 0 <= j < before.len() && j != i ==> after[j] == before[j]
}

/// An ordered collection of stages: the scheduler. Stage order is fixed when
/// the collection is built; the only mutation offered afterwards is appending
/// systems into an existing stage by identifier.
pub struct SystemStages<T> {
    /// The stages, in the order they will run.
    pub stages: Vec<T>,
}

impl<T: SystemStage> SystemStages<T> {
    /// The identifier of each stage, in running order.
    pub open spec fn stage_ids(&self) -> Seq<Ulid> {
        self.stages@.map_values(|t: T| t.spec_id())
    }

    /// The diagnostic name of each stage, in running order.
    pub open spec fn stage_names(&self) -> Seq<Seq<char>> {
        self.stages@.map_values(|t: T| t.spec_name())
    }

    /// Per stage, per system: the count of initialize calls.
    pub open spec fn init_counts(&self) -> Seq<Seq<nat>> {
        self.stages@.map_values(|t: T| t.init_counts())
    }

    /// Per stage, per system: the run outcomes recorded so far.
    pub open spec fn outcome_logs(&self) -> Seq<Seq<Seq<SystemResult>>> {
        self.stages@.map_values(|t: T| t.outcome_logs())
    }

    /// Whether some stage of this collection carries the identifier `id`.
    pub open spec fn spec_has_stage(&self, id: Ulid) -> bool {
        self.stage_ids().contains(id)
    }

    /// Whether a registration aimed at `id` would find a stage to land in.
    pub fn has_stage(&self, id: Ulid) -> (r: bool)
        ensures
            r == self.spec_has_stage(id),
    {
        let n = self.stages.len();
        let mut i: usize = 0;
        while i < n
            invariant
                i <= n,
                n == self.stages@.len(),
                forall|j: int| 0 <= j < i ==> self.stages@[j].spec_id() != id,
            decreases n - i,
        {
            let st = &self.stages[i];
            if st.id() == id {
                proof {
                    assert(self.stage_ids()[i as int] == id);
                }
                return true;
            }
            i = i + 1;
        }
        proof {
            assert forall|j: int| 0 <= j < self.stage_ids().len() implies self.stage_ids()[j]
                != id by {
                assert(self.stage_ids()[j] == self.stages@[j].spec_id());
            }
        }
        false
    }

    /// Initialize the systems of every stage, in stage order then insertion
    /// order, each exactly once. Must be called once before the first `run`;
    /// nothing guards against a second call, which would initialize every
    /// system a second time.
    pub fn initialize_systems(&mut self, world: &mut <T::Sys as System>::World)
        ensures
            final(self).stage_ids() == old(self).stage_ids(),
            final(self).stage_names() == old(self).stage_names(),
            final(self).outcome_logs() == old(self).outcome_logs(),
            each_stage_initialized_once(old(self).init_counts(), final(self).init_counts()),
    {
        let n = self.stages.len();
        let mut i: usize = 0;
        while i < n
            invariant
                i <= n,
                n == self.stages@.len(),
                self.stages@.len() == old(self).stages@.len(),
                forall|h: int|
                    0 <= h < i ==> #[trigger] self.stages@[h].spec_id() == old(
                        self,
                    ).stages@[h].spec_id(),
                forall|h: int|
                    0 <= h < i ==> #[trigger] self.stages@[h].spec_name() == old(
                        self,
                    ).stages@[h].spec_name(),
                forall|h: int|
                    0 <= h < i ==> #[trigger] self.stages@[h].outcome_logs() == old(
                        self,
                    ).stages@[h].outcome_logs(),
                forall|h: int|
                    0 <= h < i ==> each_initialized_once(
                        old(self).stages@[h].init_counts(),
                        #[trigger] self.stages@[h].init_counts(),
                    ),
                forall|h: int| i <= h < n ==> self.stages@[h] == old(self).stages@[h],
            decreases n - i,
        {
            let stage = &mut self.stages[i];
            stage.initialize(world);
            i = i + 1;
        }
        proof {
            assert(self.stage_ids() =~= old(self).stage_ids());
            assert(self.stage_names() =~= old(self).stage_names());
            assert(self.outcome_logs() =~= old(self).outcome_logs());
        }
    }

    /// Execute one tick: run every stage in order, stopping the whole tick at
    /// the first stage that reports a failure and returning that failure
    /// unchanged. Call `initialize_systems` once before the first tick.
    pub fn run(&mut self, world: &<T::Sys as System>::World) -> (r: SystemResult)
        ensures
            final(self).stage_ids() == old(self).stage_ids(),
            final(self).stage_names() == old(self).stage_names(),
            final(self).init_counts() == old(self).init_counts(),
            tick_step(old(self).outcome_logs(), final(self).outcome_logs(), r),
    {
        let n = self.stages.len();
        let mut i: usize = 0;
        while i < n
            invariant
                i <= n,
                n == self.stages@.len(),
                self.stages@.len() == old(self).stages@.len(),
                forall|h: int|
                    0 <= h < i ==> #[trigger] self.stages@[h].spec_id() == old(
                        self,
                    ).stages@[h].spec_id(),
                forall|h: int|
                    0 <= h < i ==> #[trigger] self.stages@[h].spec_name() == old(
                        self,
                    ).stages@[h].spec_name(),
                forall|h: int|
                    0 <= h < i ==> #[trigger] self.stages@[h].init_counts() == old(
                        self,
                    ).stages@[h].init_counts(),
                forall|h: int|
                    0 <= h < i ==> all_ran_ok(
                        old(self).stages@[h].outcome_logs(),
                        #[trigger] self.stages@[h].outcome_logs(),
                    ),
                forall|h: int| i <= h < n ==> self.stages@[h] == old(self).stages@[h],
            decreases n - i,
        {
            let stage = &mut self.stages[i];
            let res = stage.run(world);
            match res {
                Ok(u) => {},
                Err(e) => {
                    proof {
                        assert(self.stage_ids() =~= old(self).stage_ids());
                        assert(self.stage_names() =~= old(self).stage_names());
                        assert(self.init_counts() =~= old(self).init_counts());
                        let b = old(self).outcome_logs();
                        let a = self.outcome_logs();
                        assert forall|h: int| 0 <= h < i implies all_ran_ok(b[h], a[h]) by {
                            assert(b[h] == old(self).stages@[h].outcome_logs());
                            assert(a[h] == self.stages@[h].outcome_logs());
                        }
                        assert(b[i as int] == old(self).stages@[i as int].outcome_logs());
                        assert(a[i as int] == self.stages@[i as int].outcome_logs());
                        let k = choose|k: int|
                            failed_at(
                                old(self).stages@[i as int].outcome_logs(),
                                self.stages@[i as int].outcome_logs(),
                                k,
                                e,
                            );
                        assert(failed_at(b[i as int], a[i as int], k, e));
                        assert forall|h: int| i < h < b.len() implies a[h] == b[h] by {
                            assert(self.stages@[h] == old(self).stages@[h]);
                        }
                        assert(tick_failed_at(b, a, i as int, e));
                    }
                    return Err(e);
                },
            }
            i = i + 1;
        }
        proof {
            assert(self.stage_ids() =~= old(self).stage_ids());
            assert(self.stage_names() =~= old(self).stage_names());
            assert(self.init_counts() =~= old(self).init_counts());
            assert(tick_ok(old(self).outcome_logs(), self.outcome_logs()));
        }
        Ok(())
    }

    /// Append `system` to the stage whose identifier matches the label's, and
    /// return the collection for chaining further registrations. The label
    /// must name a stage this collection holds: registering into an absent
    /// stage is a wiring mistake, not a runtime condition, and this contract
    /// rules it out instead of recovering from it.
    pub fn add_system_to_stage<L: StageLabel>(&mut self, label: L, system: T::Sys) -> (r:
        &mut Self)
        requires
            old(self).spec_has_stage(label.spec_id()),
        ensures
            *final(self) == *final(r),
            exists|i: int|
                added_to_first_match(
                    old(self).stages@,
                    (*r).stages@,
                    label.spec_id(),
                    i,
                    system.init_count(),
                    system.outcomes(),
                ),
    {
        let id = label.id();
        let n = self.stages.len();
        proof {
            let ci = choose|ci: int|
                0 <= ci < self.stage_ids().len() && self.stage_ids()[ci] == id;
            assert(self.stages@[ci].spec_id() == id);
        }
        let mut i: usize = 0;
        loop
            invariant
                n == self.stages@.len(),
                *self == *old(self),
                0 <= i < n,
                exists|j: int| i <= j < n && self.stages@[j].spec_id() == id,
                forall|j: int| 0 <= j < i ==> self.stages@[j].spec_id() != id,
                id == label.spec_id(),
            ensures
                n == self.stages@.len(),
                *self == *old(self),
                0 <= i < n,
                self.stages@[i as int].spec_id() == id,
                forall|j: int| 0 <= j < i ==> self.stages@[j].spec_id() != id,
            decreases n - i,
        {
            let st = &self.stages[i];
            if st.id() == id {
                break;
            }
            i = i + 1;
        }
        let stage = &mut self.stages[i];
        stage.add_system(system);
        proof {
            assert(added_to_first_match(
                old(self).stages@,
                self.stages@,
                label.spec_id(),
                i as int,
                system.init_count(),
                system.outcomes(),
            ));
        }
        self
    }
}

impl<S: System> SystemStages<SimpleSystemStage<S>> {
    /// A collection holding one empty default stage for each of the five core
    /// phases, in the fixed order `First`, `PreUpdate`, `Update`,
    /// `PostUpdate`, `Last`.
    pub fn with_core_stages() -> (r: Self)
        ensures
            r.stages@.len() == 5,
            r.stages@[0].id == Ulid(CORE_STAGE_FIRST),
            r.stages@[1].id == Ulid(CORE_STAGE_PRE_UPDATE),
            r.stages@[2].id == Ulid(CORE_STAGE_UPDATE),
            r.stages@[3].id == Ulid(CORE_STAGE_POST_UPDATE),
            r.stages@[4].id == Ulid(CORE_STAGE_LAST),
            r.stages@[0].name@ == "First"@,
            r.stages@[1].name@ == "PreUpdate"@,
            r.stages@[2].name@ == "Update"@,
            r.stages@[3].name@ == "PostUpdate"@,
            r.stages@[4].name@ == "Last"@,
            forall|i: int| 0 <= i < 5 ==> (#[trigger] r.stages@[i].systems)@ == Seq::<S>::empty(),
    {
        let mut stages: Vec<SimpleSystemStage<S>> = Vec::new();
        stages.push(SimpleSystemStage::new(CoreStage::First));
        stages.push(SimpleSystemStage::new(CoreStage::PreUpdate));
        stages.push(SimpleSystemStage::new(CoreStage::Update));
        stages.push(SimpleSystemStage::new(CoreStage::PostUpdate));
        stages.push(SimpleSystemStage::new(CoreStage::Last));
        SystemStages { stages }
    }
}

/// The diagnostic text for a registration aimed at a label no stage carries:
/// it names both the label's name and its identifier value.
pub open spec fn spec_missing_stage_message(name: Seq<char>, id: Ulid) -> Seq<char> {
    "Stage with label `"@ + name + "` ( "@ + spec_decimal(id.0 as nat) + " ) doesn't exist."@
}

/// Render the diagnostic for a registration aimed at a label no stage
/// carries. A host that cannot establish `spec_has_stage` before registering
/// reports this text when it aborts on the wiring mistake.
pub fn missing_stage_message(name: &str, id: Ulid) -> (r: String)
    ensures
        r@ == spec_missing_stage_message(name@, id),
{
    let mut m = String::from_str("Stage with label `");
    m.append(name);
    m.append("` ( ");
    let digits = decimal_string(id.0);
    m.append(digits.as_str());
    m.append(" ) doesn't exist.");
    m
}

/// Law: execution follows insertion order. If, in one tick, the system at
/// position `k` of stage `i` recorded an outcome, then every system standing
/// before it — in an earlier stage, or earlier in stage `i` itself — ran in
/// that tick and succeeded.
pub proof fn lemma_runs_follow_insertion_order(
    before: Seq<Seq<Seq<SystemResult>>>,
    after: Seq<Seq<Seq<SystemResult>>>,
    r: SystemResult,
    i: int,
    k: int,
)
    requires
        tick_step(before, after, r),
        0 <= i < before.len(),
        0 <= k < before[i].len(),
        after[i][k] != before[i][k],
    ensures
        forall|h: int, m: int|
            0 <= h < i && 0 <= m < before[h].len() ==> #[trigger] after[h][m]
                == before[h][m].push(success()),
        forall|m: int| 0 <= m < k ==> #[trigger] after[i][m] == before[i][m].push(success()),
{
    match r {
        Ok(u) => {},
        Err(e) => {
            let fi = choose|fi: int| tick_failed_at(before, after, fi, e);
            assert(tick_failed_at(before, after, fi, e));
            if i > fi {
                assert(after[i] == before[i]);
                assert(false);
            } else if i == fi {
                let fk = choose|fk: int| failed_at(before[i], after[i], fk, e);
                assert(failed_at(before[i], after[i], fk, e));
                assert(k <= fk);
            }
        },
    }
}

/// Law: no memoization across ticks. Two successful ticks in a row extend
/// every system's outcome record by one fresh success each time; nothing a
/// system reported earlier is reused.
pub proof fn lemma_successful_ticks_rerun_all(
    first: Seq<Seq<Seq<SystemResult>>>,
    second: Seq<Seq<Seq<SystemResult>>>,
    third: Seq<Seq<Seq<SystemResult>>>,
)
    requires
        tick_step(first, second, success()),
        tick_step(second, third, success()),
    ensures
        third.len() == first.len(),
        forall|i: int| 0 <= i < first.len() ==> #[trigger] third[i].len() == first[i].len(),
        forall|i: int, k: int|
            0 <= i < first.len() && 0 <= k < first[i].len() ==> #[trigger] third[i][k]
                == first[i][k].push(success()).push(success()),
{
    assert forall|i: int| 0 <= i < first.len() implies #[trigger] third[i].len()
        == first[i].len() by {
        assert(all_ran_ok(first[i], second[i]));
        assert(all_ran_ok(second[i], third[i]));
    }
    assert forall|i: int, k: int|
        0 <= i < first.len() && 0 <= k < first[i].len() implies #[trigger] third[i][k]
        == first[i][k].push(success()).push(success()) by {
        assert(all_ran_ok(first[i], second[i]));
        assert(all_ran_ok(second[i], third[i]));
        assert(second[i][k] == first[i][k].push(success()));
        assert(third[i][k] == second[i][k].push(success()));
    }
}

} // verus!
