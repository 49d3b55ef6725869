//! End-to-end tests of the staged scheduler: construction, registration,
//! initialization, tick execution order, and fail-fast error propagation.

use std::cell::RefCell;
use std::rc::Rc;

use bones_ecs::stage::CoreStage;
use bones_ecs::stage::SimpleSystemStage;
use bones_ecs::stage::StageLabel;
use bones_ecs::stage::SystemStage;
use bones_ecs::stage::SystemStages;
use bones_ecs::stage::CORE_STAGE_FIRST;
use bones_ecs::stage::CORE_STAGE_LAST;
use bones_ecs::stage::CORE_STAGE_POST_UPDATE;
use bones_ecs::stage::CORE_STAGE_PRE_UPDATE;
use bones_ecs::stage::CORE_STAGE_UPDATE;
use bones_ecs::system::CountingSystem;
use bones_ecs::system::System;
use bones_ecs::system::SystemError;
use bones_ecs::ulid::Ulid;

/// A label for custom test phases.
struct TestLabel(&'static str, u128);

impl StageLabel for TestLabel {
    // The two ghost items below are never called at run time; a plain-Rust
    // implementation only has to make the trait complete.
    fn spec_name(&self) -> vstd::seq::Seq<char> {
        unreachable!()
    }

    fn spec_id(&self) -> Ulid {
        Ulid(self.1)
    }

    fn name(&self) -> String {
        self.0.to_string()
    }

    fn id(&self) -> Ulid {
        Ulid(self.1)
    }
}

/// A system that appends its lifecycle events to a shared log and fails on one
/// chosen tick, if any.
struct ScriptedSystem {
    tag: &'static str,
    log: Rc<RefCell<Vec<String>>>,
    fail_on_tick: Option<u32>,
    tick: u32,
}

impl ScriptedSystem {
    fn new(tag: &'static str, log: &Rc<RefCell<Vec<String>>>) -> Self {
        ScriptedSystem { tag, log: Rc::clone(log), fail_on_tick: None, tick: 0 }
    }

    fn failing_on(tag: &'static str, log: &Rc<RefCell<Vec<String>>>, tick: u32) -> Self {
        ScriptedSystem { tag, log: Rc::clone(log), fail_on_tick: Some(tick), tick: 0 }
    }
}

impl System for ScriptedSystem {
    type World = ();

    // Ghost lifecycle record: never called at run time.
    fn init_count(&self) -> vstd::prelude::nat {
        unreachable!()
    }

    fn outcomes(&self) -> vstd::seq::Seq<Result<(), SystemError>> {
        unreachable!()
    }

    fn initialize(&mut self, _world: &mut ()) {
        self.log.borrow_mut().push(format!("init {}", self.tag));
    }

    fn run(&mut self, _world: &()) -> Result<(), SystemError> {
        self.tick += 1;
        self.log.borrow_mut().push(format!("run {}", self.tag));
        match self.fail_on_tick {
            Some(t) if t == self.tick => {
                Err(SystemError { message: format!("{} failed", self.tag) })
            }
            _ => Ok(()),
        }
    }
}

fn scripted_collection(
    log: &Rc<RefCell<Vec<String>>>,
) -> SystemStages<SimpleSystemStage<ScriptedSystem>> {
    let _ = log;
    SystemStages::with_core_stages()
}

#[test]
fn core_stages_come_in_fixed_order_with_stable_ids() {
    let log = Rc::new(RefCell::new(Vec::new()));
    let c = scripted_collection(&log);
    let names: Vec<String> = c.stages.iter().map(|s| s.name.clone()).collect();
    assert_eq!(names, vec!["First", "PreUpdate", "Update", "PostUpdate", "Last"]);
    let ids: Vec<Ulid> = c.stages.iter().map(|s| s.id).collect();
    assert_eq!(
        ids,
        vec![
            Ulid(CORE_STAGE_FIRST),
            Ulid(CORE_STAGE_PRE_UPDATE),
            Ulid(CORE_STAGE_UPDATE),
            Ulid(CORE_STAGE_POST_UPDATE),
            Ulid(CORE_STAGE_LAST),
        ]
    );
    // Distinct and non-zero.
    for (i, a) in ids.iter().enumerate() {
        assert_ne!(*a, Ulid(0));
        for b in ids.iter().skip(i + 1) {
            assert_ne!(*a, *b);
        }
    }
    // Stable across repeated constructions.
    let again = scripted_collection(&log);
    let ids_again: Vec<Ulid> = again.stages.iter().map(|s| s.id).collect();
    assert_eq!(ids, ids_again);
}

#[test]
fn core_stage_labels_render_name_and_id() {
    assert_eq!(CoreStage::First.name(), "First");
    assert_eq!(CoreStage::PreUpdate.name(), "PreUpdate");
    assert_eq!(CoreStage::Update.name(), "Update");
    assert_eq!(CoreStage::PostUpdate.name(), "PostUpdate");
    assert_eq!(CoreStage::Last.name(), "Last");
    assert_eq!(CoreStage::First.id(), Ulid(CORE_STAGE_FIRST));
    assert_eq!(CoreStage::PreUpdate.id(), Ulid(CORE_STAGE_PRE_UPDATE));
    assert_eq!(CoreStage::Update.id(), Ulid(CORE_STAGE_UPDATE));
    assert_eq!(CoreStage::PostUpdate.id(), Ulid(CORE_STAGE_POST_UPDATE));
    assert_eq!(CoreStage::Last.id(), Ulid(CORE_STAGE_LAST));
}

#[test]
fn systems_run_in_insertion_order_every_tick() {
    let log = Rc::new(RefCell::new(Vec::new()));
    let mut c = scripted_collection(&log);
    c.add_system_to_stage(CoreStage::Update, ScriptedSystem::new("a", &log))
        .add_system_to_stage(CoreStage::Update, ScriptedSystem::new("b", &log))
        .add_system_to_stage(CoreStage::Update, ScriptedSystem::new("c", &log));
    let mut w = ();
    c.initialize_systems(&mut w);
    log.borrow_mut().clear();
    assert!(c.run(&w).is_ok());
    assert!(c.run(&w).is_ok());
    let seen: Vec<String> = log.borrow().clone();
    assert_eq!(seen, vec!["run a", "run b", "run c", "run a", "run b", "run c"]);
}

#[test]
fn registration_spans_stages_by_label() {
    let log = Rc::new(RefCell::new(Vec::new()));
    let mut c = scripted_collection(&log);
    c.add_system_to_stage(CoreStage::Last, ScriptedSystem::new("late", &log));
    c.add_system_to_stage(CoreStage::First, ScriptedSystem::new("early", &log));
    let mut w = ();
    c.initialize_systems(&mut w);
    log.borrow_mut().clear();
    assert!(c.run(&w).is_ok());
    let seen: Vec<String> = log.borrow().clone();
    assert_eq!(seen, vec!["run early", "run late"]);
}

#[test]
fn initialize_visits_every_system_exactly_once() {
    let log = Rc::new(RefCell::new(Vec::new()));
    // Two custom stages holding three and zero systems: exactly three
    // initialize calls, in stage order then insertion order.
    let mut c = SystemStages {
        stages: vec![
            SimpleSystemStage::new(TestLabel("A", 1)),
            SimpleSystemStage::new(TestLabel("B", 2)),
        ],
    };
    c.add_system_to_stage(TestLabel("A", 1), ScriptedSystem::new("x", &log));
    c.add_system_to_stage(TestLabel("A", 1), ScriptedSystem::new("y", &log));
    c.add_system_to_stage(TestLabel("A", 1), ScriptedSystem::new("z", &log));
    let mut w = ();
    c.initialize_systems(&mut w);
    let seen: Vec<String> = log.borrow().clone();
    assert_eq!(seen, vec!["init x", "init y", "init z"]);
}

#[test]
fn fail_fast_skips_rest_of_stage_and_later_stages() {
    let log = Rc::new(RefCell::new(Vec::new()));
    let mut c = SystemStages {
        stages: vec![
            SimpleSystemStage::new(TestLabel("A", 10)),
            SimpleSystemStage::new(TestLabel("B", 20)),
        ],
    };
    c.add_system_to_stage(TestLabel("A", 10), ScriptedSystem::new("one", &log));
    c.add_system_to_stage(TestLabel("A", 10), ScriptedSystem::failing_on("two", &log, 1));
    c.add_system_to_stage(TestLabel("A", 10), ScriptedSystem::new("three", &log));
    c.add_system_to_stage(TestLabel("B", 20), ScriptedSystem::new("four", &log));
    let mut w = ();
    c.initialize_systems(&mut w);
    log.borrow_mut().clear();
    let err = c.run(&w).unwrap_err();
    assert_eq!(err.message, "two failed");
    let seen: Vec<String> = log.borrow().clone();
    assert_eq!(seen, vec!["run one", "run two"]);
}

#[test]
fn scenario_second_tick_failure_skips_following_stage() {
    // Stages [A:{sysX, sysY}, B:{sysZ}]; sysY fails on tick 2. Tick one runs
    // sysX, sysY, sysZ in order and succeeds; tick two runs sysX, then sysY
    // fails; sysZ and stage B are skipped and run returns sysY's error.
    let log = Rc::new(RefCell::new(Vec::new()));
    let mut c = SystemStages {
        stages: vec![
            SimpleSystemStage::new(TestLabel("A", 100)),
            SimpleSystemStage::new(TestLabel("B", 200)),
        ],
    };
    c.add_system_to_stage(TestLabel("A", 100), ScriptedSystem::new("sysX", &log));
    c.add_system_to_stage(TestLabel("A", 100), ScriptedSystem::failing_on("sysY", &log, 2));
    c.add_system_to_stage(TestLabel("B", 200), ScriptedSystem::new("sysZ", &log));
    let mut w = ();
    c.initialize_systems(&mut w);
    log.borrow_mut().clear();
    assert!(c.run(&w).is_ok());
    let tick_one: Vec<String> = log.borrow().clone();
    assert_eq!(tick_one, vec!["run sysX", "run sysY", "run sysZ"]);
    log.borrow_mut().clear();
    let err = c.run(&w).unwrap_err();
    assert_eq!(err.message, "sysY failed");
    let tick_two: Vec<String> = log.borrow().clone();
    assert_eq!(tick_two, vec!["run sysX", "run sysY"]);
}

#[test]
fn every_tick_runs_every_system_again() {
    let mut c: SystemStages<SimpleSystemStage<CountingSystem<()>>> =
        SystemStages::with_core_stages();
    c.add_system_to_stage(CoreStage::First, CountingSystem::new());
    c.add_system_to_stage(CoreStage::Last, CountingSystem::new());
    let mut w = ();
    c.initialize_systems(&mut w);
    for _ in 0..3 {
        assert!(c.run(&w).is_ok());
    }
    assert_eq!(c.stages[0].systems[0].ticks, 3);
    assert_eq!(c.stages[4].systems[0].ticks, 3);
}

#[test]
fn duplicate_stage_ids_register_into_first_match() {
    // Duplicate ids violate the collection's intended invariant; lookup is
    // still unambiguous because the first match wins.
    let log = Rc::new(RefCell::new(Vec::new()));
    let mut c = SystemStages {
        stages: vec![
            SimpleSystemStage::new(TestLabel("dup one", 9)),
            SimpleSystemStage::new(TestLabel("dup two", 9)),
        ],
    };
    c.add_system_to_stage(TestLabel("dup", 9), ScriptedSystem::new("s", &log));
    assert_eq!(c.stages[0].systems.len(), 1);
    assert_eq!(c.stages[1].systems.len(), 0);
}

#[test]
fn empty_collection_ticks_ok() {
    let mut c: SystemStages<SimpleSystemStage<ScriptedSystem>> =
        SystemStages { stages: Vec::new() };
    let mut w = ();
    c.initialize_systems(&mut w);
    assert!(c.run(&w).is_ok());
}

#[test]
fn has_stage_matches_by_id_only() {
    let log = Rc::new(RefCell::new(Vec::new()));
    let c = scripted_collection(&log);
    assert!(c.has_stage(Ulid(CORE_STAGE_UPDATE)));
    assert!(c.has_stage(Ulid(CORE_STAGE_FIRST)));
    assert!(!c.has_stage(Ulid(7)));
    assert!(!c.has_stage(Ulid(0)));
}

#[test]
fn simple_stage_new_takes_identity_from_label() {
    let st: SimpleSystemStage<ScriptedSystem> = SimpleSystemStage::new(TestLabel("Custom", 42));
    assert_eq!(st.id, Ulid(42));
    assert_eq!(st.name, "Custom");
    assert!(st.systems.is_empty());
}

#[test]
fn simple_stage_runs_fail_fast_on_its_own() {
    let log = Rc::new(RefCell::new(Vec::new()));
    let mut st: SimpleSystemStage<ScriptedSystem> = SimpleSystemStage::new(TestLabel("solo", 5));
    st.add_system(ScriptedSystem::new("p", &log));
    st.add_system(ScriptedSystem::failing_on("q", &log, 1));
    st.add_system(ScriptedSystem::new("r", &log));
    let mut w = ();
    st.initialize(&mut w);
    log.borrow_mut().clear();
    assert_eq!(st.id(), Ulid(5));
    assert_eq!(st.name(), "solo");
    let err = st.run(&w).unwrap_err();
    assert_eq!(err.message, "q failed");
    let seen: Vec<String> = log.borrow().clone();
    assert_eq!(seen, vec!["run p", "run q"]);
}
