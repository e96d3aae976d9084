use std::cell::{Cell, RefCell};
use std::rc::Rc;

use rho::extension_lifecycle::{
    build_scope_candidate, dispose_plugins, ActivatedPlugin, PublishedScope, ScopeSlot,
    ScopeSnapshot, ActivationError, ActivationOutcome,
    CandidateBuildError, CleanupEnd, CollectingDiagnosticSink, DiagnosticCode, DiagnosticSeverity,
    DiagnosticSink, DisposalClock, Disposable, DisposeError, DisposeOutcome, EffectSink,
    EffectStatus, ExtensionDiagnostic, InPlaceRunner, InternalPlugin, LifecycleDeadlines,
    PluginInstanceIdentity, PreparedPlugin,
    DisposableScope, ScopeDrain, ScopeIdentity, SteppedClock,
};

type Log = Rc<RefCell<Vec<String>>>;

/// The fake host clock, in milliseconds.
#[derive(Clone)]
struct Clock(Rc<Cell<u64>>);

impl DisposalClock for Clock {
    fn now_ms(&mut self) -> u64 {
        self.0.get()
    }
}

/// A cleanup that logs its label, takes `cost_ms` of the clock's time and
/// ends as told; one that runs longer than its deadline times out just
/// after the deadline.
struct Cleanup {
    label: &'static str,
    log: Log,
    clock: Rc<Cell<u64>>,
    cost_ms: u64,
    end: CleanupEnd,
}

impl Disposable for Cleanup {
    fn dispose(&mut self, deadline_ms: u64) -> CleanupEnd {
        self.log.borrow_mut().push(self.label.to_string());
        if self.cost_ms > deadline_ms {
            self.clock.set(self.clock.get().saturating_add(deadline_ms).saturating_add(1));
            return CleanupEnd::TimedOut;
        }
        self.clock.set(self.clock.get() + self.cost_ms);
        self.end.clone()
    }
}

struct TestPlugin {
    effects: Vec<Cleanup>,
    outcome: ActivationOutcome,
    diagnostics: Vec<ExtensionDiagnostic>,
}

impl InternalPlugin<Cleanup> for TestPlugin {
    fn activate(
        &mut self,
        effects: &mut EffectSink<Cleanup>,
        diagnostics: &mut CollectingDiagnosticSink,
    ) -> ActivationOutcome {
        for effect in self.effects.drain(..) {
            effects.push(effect);
        }
        for d in self.diagnostics.drain(..) {
            diagnostics.emit(d);
        }
        self.outcome.clone()
    }
}

struct Drained;

impl ScopeDrain for Drained {
    fn drain(&mut self, _limit_ms: u64) -> bool {
        true
    }

    fn remaining_tasks(&self) -> usize {
        0
    }

    fn remaining_leases(&self) -> usize {
        0
    }
}

fn project_a() -> ScopeIdentity {
    ScopeIdentity::new(
        "project".to_string(),
        "project.a".to_string(),
        Some("application".to_string()),
        2,
    )
}

fn cleanup(label: &'static str, log: &Log, clock: &Rc<Cell<u64>>) -> Cleanup {
    Cleanup {
        label,
        log: Rc::clone(log),
        clock: Rc::clone(clock),
        cost_ms: 0,
        end: CleanupEnd::Completed,
    }
}

fn plugin(effects: Vec<Cleanup>, outcome: ActivationOutcome) -> PreparedPlugin<Cleanup> {
    PreparedPlugin::new(effects, Vec::new(), outcome)
}

fn deadlines(quiesce: u64, effect: u64, scope: u64) -> LifecycleDeadlines {
    LifecycleDeadlines {
        quiesce,
        effect,
        scope,
    }
}

#[test]
fn activation_failure_rolls_back_current_and_prior_plugins() {
    let log: Log = Rc::new(RefCell::new(Vec::new()));
    let time = Rc::new(Cell::new(0));
    let plugins = vec![
        plugin(vec![cleanup("a.0", &log, &time)], ActivationOutcome::Succeeded),
        plugin(
            vec![cleanup("b.0", &log, &time), cleanup("b.1", &log, &time)],
            ActivationOutcome::Failed(ActivationError::new(
                "injected".to_string(),
                "fail after effects".to_string(),
            )),
        ),
    ];
    let mut sink = CollectingDiagnosticSink::new();
    let result = build_scope_candidate(
        project_a(),
        vec!["plugin.a".to_string(), "plugin.b".to_string()],
        plugins,
        &LifecycleDeadlines::default(),
        Drained,
        &mut InPlaceRunner::new(),
        &mut Clock(Rc::clone(&time)),
        &mut sink,
    );
    match result {
        Err(CandidateBuildError::Activation {
            plugin_id,
            error,
            rollback,
        }) => {
            assert_eq!(plugin_id, "plugin.b");
            assert_eq!(error.code(), "injected");
            assert_eq!(rollback.outcome, DisposeOutcome::Disposed);
            assert_eq!(rollback.plugin_reports.len(), 2);
            assert_eq!(rollback.plugin_reports[0].0.plugin_id, "plugin.b");
            assert_eq!(rollback.plugin_reports[1].0.plugin_id, "plugin.a");
        }
        other => panic!("unexpected build result: {other:?}", other = other.is_ok()),
    }
    assert_eq!(*log.borrow(), vec!["b.1", "b.0", "a.0"]);
}

#[test]
fn activation_failure_before_effects_has_empty_truthful_rollback() {
    let log: Log = Rc::new(RefCell::new(Vec::new()));
    let time = Rc::new(Cell::new(0));
    let plugins = vec![plugin(
        Vec::new(),
        ActivationOutcome::Failed(ActivationError::new(
            "injected".to_string(),
            "fail before effects".to_string(),
        )),
    )];
    let mut sink = CollectingDiagnosticSink::new();
    let result = build_scope_candidate(
        project_a(),
        vec!["plugin.empty".to_string()],
        plugins,
        &LifecycleDeadlines::default(),
        Drained,
        &mut InPlaceRunner::new(),
        &mut Clock(Rc::clone(&time)),
        &mut sink,
    );
    match result {
        Err(CandidateBuildError::Activation { rollback, .. }) => {
            assert_eq!(rollback.outcome, DisposeOutcome::Disposed);
            assert_eq!(rollback.plugin_reports.len(), 1);
            assert!(rollback.plugin_reports[0].1.records.is_empty());
        }
        _ => panic!("the build must fail"),
    }
    assert!(log.borrow().is_empty());
}

#[test]
fn activation_panic_is_contained_and_recorded_effects_roll_back() {
    let log: Log = Rc::new(RefCell::new(Vec::new()));
    let time = Rc::new(Cell::new(0));
    let plugins = vec![plugin(
        vec![cleanup("panic.rollback", &log, &time)],
        ActivationOutcome::Panicked,
    )];
    let mut sink = CollectingDiagnosticSink::new();
    let result = build_scope_candidate(
        project_a(),
        vec!["plugin.panic".to_string()],
        plugins,
        &LifecycleDeadlines::default(),
        Drained,
        &mut InPlaceRunner::new(),
        &mut Clock(Rc::clone(&time)),
        &mut sink,
    );
    match result {
        Err(CandidateBuildError::Activation {
            plugin_id,
            error,
            rollback,
        }) => {
            assert_eq!(plugin_id, "plugin.panic");
            assert_eq!(error.code(), "activation_panicked");
            assert_eq!(rollback.outcome, DisposeOutcome::Disposed);
        }
        _ => panic!("the build must fail"),
    }
    assert_eq!(*log.borrow(), vec!["panic.rollback"]);
}

#[test]
fn plugin_diagnostics_are_rebound_and_bounded_by_the_host() {
    let time = Rc::new(Cell::new(0));
    let spoofed = ExtensionDiagnostic {
        code: DiagnosticCode::ActivationStarted,
        severity: DiagnosticSeverity::Warning,
        plugin_id: Some("plugin.spoofed".to_string()),
        capability_id: None,
        scope_kind: Some("spoofed".to_string()),
        scope_id: Some("spoofed.scope".to_string()),
        activation_generation: Some(999),
        effect_order: None,
        related_plugins: (0..300).map(|i| format!("plugin.{i}")).collect(),
        cycle_path: (0..300).map(|i| format!("plugin.{i}")).collect(),
        message: "x".repeat(2_000),
    };
    let plugins = vec![TestPlugin {
        effects: Vec::new(),
        outcome: ActivationOutcome::Succeeded,
        diagnostics: vec![spoofed],
    }];
    let mut sink = CollectingDiagnosticSink::new();
    let candidate = build_scope_candidate(
        project_a(),
        vec!["plugin.real".to_string()],
        plugins,
        &LifecycleDeadlines::default(),
        Drained,
        &mut InPlaceRunner::new(),
        &mut Clock(Rc::clone(&time)),
        &mut sink,
    );
    assert!(candidate.is_ok());
    let collected = sink.diagnostics();
    let rebound = collected
        .iter()
        .find(|d| d.severity == DiagnosticSeverity::Warning)
        .unwrap();
    assert_eq!(rebound.plugin_id.as_deref(), Some("plugin.real"));
    assert_eq!(rebound.scope_id.as_deref(), Some("project.a"));
    assert_eq!(rebound.activation_generation, Some(2));
    assert!(rebound.message.len() <= 512);
    assert_eq!(rebound.related_plugins.len(), 256);
    assert_eq!(rebound.cycle_path.len(), 257);
}

fn activated(effects: Vec<Cleanup>) -> ActivatedPlugin<Cleanup> {
    let instance = PluginInstanceIdentity {
        plugin_id: "plugin.a".to_string(),
        scope: project_a(),
    };
    let mut sink: EffectSink<Cleanup> = EffectSink::new(instance.clone());
    for effect in effects {
        sink.push(effect);
    }
    let (effects, disposers) = sink.into_stack();
    ActivatedPlugin {
        instance,
        effects,
        disposers,
    }
}

#[test]
fn total_scope_deadline_marks_unstarted_effects_as_leaked() {
    let log: Log = Rc::new(RefCell::new(Vec::new()));
    let time = Rc::new(Cell::new(0));
    let mut second = cleanup("second", &log, &time);
    second.cost_ms = 25;
    let mut third = cleanup("third", &log, &time);
    third.cost_ms = 25;
    let plugin = activated(vec![cleanup("unstarted", &log, &time), second, third]);
    let mut sink = CollectingDiagnosticSink::new();
    let reports = dispose_plugins(
        vec![plugin],
        &deadlines(5, 100, 35),
        0,
        &mut InPlaceRunner::new(),
        &mut Clock(Rc::clone(&time)),
        &mut sink,
    );
    let report = &reports[0].1;
    assert_eq!(report.outcome, DisposeOutcome::Failed);
    assert_eq!(*log.borrow(), vec!["third", "second"]);
    assert_eq!(report.records[0].status, EffectStatus::Failed);
    assert_eq!(
        report.records[0].cleanup_error.as_ref().unwrap().code(),
        "scope_dispose_timeout"
    );
}

#[test]
fn cleanup_failure_and_timeout_still_run_every_effect_once() {
    let log: Log = Rc::new(RefCell::new(Vec::new()));
    let time = Rc::new(Cell::new(0));
    let mut failure = cleanup("failure", &log, &time);
    failure.end = CleanupEnd::Failed(DisposeError::new(
        "cleanup_failed".to_string(),
        "cleanup failed".to_string(),
    ));
    let mut timeout = cleanup("timeout", &log, &time);
    timeout.cost_ms = u64::MAX;
    let plugin = activated(vec![cleanup("success.first", &log, &time), failure, timeout]);
    let mut sink = CollectingDiagnosticSink::new();
    let reports = dispose_plugins(
        vec![plugin],
        &deadlines(20, 10, 100),
        0,
        &mut InPlaceRunner::new(),
        &mut Clock(Rc::clone(&time)),
        &mut sink,
    );
    let report = &reports[0].1;
    assert_eq!(*log.borrow(), vec!["timeout", "failure", "success.first"]);
    let statuses: Vec<EffectStatus> = report.records.iter().map(|r| r.status).collect();
    assert_eq!(
        statuses,
        vec![EffectStatus::Disposed, EffectStatus::Failed, EffectStatus::Failed]
    );
    assert_eq!(report.outcome, DisposeOutcome::Failed);
    assert_eq!(sink.len(), 2);
}

#[test]
fn disposer_panic_is_contained_and_remaining_cleanup_continues() {
    let log: Log = Rc::new(RefCell::new(Vec::new()));
    let time = Rc::new(Cell::new(0));
    let mut panics = cleanup("panics", &log, &time);
    panics.end = CleanupEnd::Panicked;
    let plugin = activated(vec![cleanup("first", &log, &time), panics]);
    let mut sink = CollectingDiagnosticSink::new();
    let reports = dispose_plugins(
        vec![plugin],
        &LifecycleDeadlines::default(),
        0,
        &mut InPlaceRunner::new(),
        &mut Clock(Rc::clone(&time)),
        &mut sink,
    );
    let report = &reports[0].1;
    assert_eq!(*log.borrow(), vec!["panics", "first"]);
    assert_eq!(report.records[1].status, EffectStatus::Failed);
    assert_eq!(
        report.records[1].cleanup_error.as_ref().unwrap().code(),
        "effect_dispose_panicked"
    );
    assert_eq!(report.records[0].status, EffectStatus::Disposed);
}

#[test]
fn dispose_twice_returns_the_kept_report_without_running_again() {
    let log: Log = Rc::new(RefCell::new(Vec::new()));
    let time = Rc::new(Cell::new(0));
    let mut plugin = activated(vec![cleanup("only", &log, &time)]);
    let mut sink = CollectingDiagnosticSink::new();
    let mut clock = Clock(Rc::clone(&time));
    let mut runner = InPlaceRunner::new();
    let disposers = std::mem::take(&mut plugin.disposers);
    let first = plugin.effects.dispose(disposers, 10, 100, &mut runner, &mut clock, &mut sink);
    let second =
        plugin.effects.dispose(Vec::<Cleanup>::new(), 10, 100, &mut runner, &mut clock, &mut sink);
    assert_eq!(first, second);
    assert_eq!(*log.borrow(), vec!["only"]);
}

#[test]
fn each_cleanup_gets_the_lesser_of_its_deadline_and_the_time_left() {
    let log: Log = Rc::new(RefCell::new(Vec::new()));
    let time = Rc::new(Cell::new(0));
    let mut c0 = cleanup("c0", &log, &time);
    c0.cost_ms = 7;
    let mut c1 = cleanup("c1", &log, &time);
    c1.cost_ms = 7;
    let mut c2 = cleanup("c2", &log, &time);
    c2.cost_ms = 7;
    let mut plugin = activated(vec![c0, c1, c2]);
    let mut sink = CollectingDiagnosticSink::new();
    // Read at 0 (start), 10 (c2 gets 10), 20 (c1 gets 5), 30 (past 25).
    let mut clock = SteppedClock::new(0, 10);
    let mut runner = InPlaceRunner::new();
    let disposers = std::mem::take(&mut plugin.disposers);
    let report = plugin.effects.dispose(disposers, 10, 25, &mut runner, &mut clock, &mut sink);
    assert_eq!(*log.borrow(), vec!["c2", "c1"]);
    let statuses: Vec<EffectStatus> = report.records.iter().map(|r| r.status).collect();
    assert_eq!(
        statuses,
        vec![EffectStatus::Failed, EffectStatus::Failed, EffectStatus::Disposed]
    );
    assert_eq!(
        report.records[0].cleanup_error.as_ref().unwrap().code(),
        "scope_dispose_timeout"
    );
    assert_eq!(
        report.records[1].cleanup_error.as_ref().unwrap().code(),
        "effect_dispose_timeout"
    );
    assert_eq!(report.outcome, DisposeOutcome::Failed);
}

fn activated_in(scope: ScopeIdentity, effects: Vec<Cleanup>) -> ActivatedPlugin<Cleanup> {
    let instance = PluginInstanceIdentity {
        plugin_id: "plugin.a".to_string(),
        scope,
    };
    let mut sink: EffectSink<Cleanup> = EffectSink::new(instance.clone());
    for effect in effects {
        sink.push(effect);
    }
    let (effects, disposers) = sink.into_stack();
    ActivatedPlugin {
        instance,
        effects,
        disposers,
    }
}

#[test]
fn child_scope_disposes_before_parent_scope() {
    let log: Log = Rc::new(RefCell::new(Vec::new()));
    let time = Rc::new(Cell::new(0));
    let workspace = ScopeIdentity::new(
        "workspace".to_string(),
        "workspace.a".to_string(),
        Some("project.a".to_string()),
        50,
    );
    let child = ScopeSnapshot {
        identity: workspace.clone(),
        plugins: vec![activated_in(workspace, vec![cleanup("child", &log, &time)])],
        children: Vec::new(),
        tasks: Drained,
    };
    let parent = ScopeSnapshot {
        identity: project_a(),
        plugins: vec![activated_in(project_a(), vec![cleanup("parent", &log, &time)])],
        children: vec![child],
        tasks: Drained,
    };
    let mut sink = CollectingDiagnosticSink::new();
    let report = parent.quiesce_and_dispose(
        &LifecycleDeadlines::default(),
        &mut InPlaceRunner::new(),
        &mut Clock(Rc::clone(&time)),
        &mut sink,
    );
    assert_eq!(report.outcome, DisposeOutcome::Disposed);
    assert_eq!(*log.borrow(), vec!["child", "parent"]);
    assert_eq!(report.child_reports.len(), 1);
    assert_eq!(report.child_reports[0].scope.id, "workspace.a");
    assert_eq!(report.child_reports[0].outcome, DisposeOutcome::Disposed);
}

#[test]
fn child_reached_after_the_scope_deadline_is_reported_timed_out() {
    let log: Log = Rc::new(RefCell::new(Vec::new()));
    let time = Rc::new(Cell::new(0));
    let workspace = ScopeIdentity::new(
        "workspace".to_string(),
        "workspace.a".to_string(),
        Some("project.a".to_string()),
        50,
    );
    let mut slow = cleanup("slow", &log, &time);
    slow.cost_ms = 40;
    let first = ScopeSnapshot {
        identity: workspace.clone(),
        plugins: vec![activated_in(workspace.clone(), vec![cleanup("late", &log, &time)])],
        children: Vec::new(),
        tasks: Drained,
    };
    let second = ScopeSnapshot {
        identity: workspace.clone(),
        plugins: vec![activated_in(workspace, vec![slow])],
        children: Vec::new(),
        tasks: Drained,
    };
    let parent = ScopeSnapshot {
        identity: project_a(),
        plugins: Vec::new(),
        children: vec![first, second],
        tasks: Drained,
    };
    let mut sink = CollectingDiagnosticSink::new();
    let report = parent.quiesce_and_dispose(
        &deadlines(5, 100, 30),
        &mut InPlaceRunner::new(),
        &mut Clock(Rc::clone(&time)),
        &mut sink,
    );
    assert_eq!(report.outcome, DisposeOutcome::Failed);
    assert!(report.quiesce_timed_out);
    assert_eq!(*log.borrow(), vec!["slow"]);
    assert_eq!(report.child_reports.len(), 2);
}

fn scope_with(id: &str, label: &'static str, log: &Log, time: &Rc<Cell<u64>>) -> ScopeSnapshot<Cleanup, Drained> {
    let identity = ScopeIdentity::new(
        "project".to_string(),
        id.to_string(),
        Some("application".to_string()),
        2,
    );
    ScopeSnapshot {
        identity: identity.clone(),
        plugins: vec![activated_in(identity, vec![cleanup(label, log, time)])],
        children: Vec::new(),
        tasks: Drained,
    }
}

#[test]
fn stale_expected_old_cannot_overwrite_newer_winner_and_rolls_back_loser() {
    let log: Log = Rc::new(RefCell::new(Vec::new()));
    let time = Rc::new(Cell::new(0));
    let mut clock = Clock(Rc::clone(&time));
    let mut runner = InPlaceRunner::new();
    let mut sink = CollectingDiagnosticSink::new();
    let mut slot: ScopeSlot<Cleanup, Drained> = ScopeSlot::empty();
    let deadlines = LifecycleDeadlines::default();
    let (report, first) = slot
        .publish(None, scope_with("project.a", "first", &log, &time), &deadlines, &mut runner, &mut clock, &mut sink)
        .unwrap();
    assert_eq!(report.previous, None);
    let (report, winner) = slot
        .publish(
            Some(first.clone()),
            scope_with("project.b", "winner", &log, &time),
            &deadlines,
            &mut runner,
            &mut clock,
            &mut sink,
        )
        .unwrap();
    assert_eq!(report.previous.unwrap().id, "project.a");
    assert_eq!(*log.borrow(), vec!["first"]);
    let error = slot
        .publish(
            Some(first),
            scope_with("project.c", "loser", &log, &time),
            &deadlines,
            &mut runner,
            &mut clock,
            &mut sink,
        )
        .unwrap_err();
    assert_eq!(error.reason, "expected_old_mismatch");
    assert_eq!(error.rejected.id, "project.c");
    assert_eq!(error.rejected_dispose.outcome, DisposeOutcome::Disposed);
    assert_eq!(slot.current(), Some(winner));
    assert_eq!(*log.borrow(), vec!["first", "loser"]);
    assert!(sink
        .diagnostics()
        .iter()
        .any(|d| d.code == DiagnosticCode::CandidateCasRejected));
}

#[test]
fn cas_uses_publication_identity_not_equal_scope_values() {
    let log: Log = Rc::new(RefCell::new(Vec::new()));
    let time = Rc::new(Cell::new(0));
    let mut clock = Clock(Rc::clone(&time));
    let mut runner = InPlaceRunner::new();
    let mut sink = CollectingDiagnosticSink::new();
    let mut slot: ScopeSlot<Cleanup, Drained> = ScopeSlot::empty();
    let deadlines = LifecycleDeadlines::default();
    let (_, first) = slot
        .publish(None, scope_with("project.a", "first", &log, &time), &deadlines, &mut runner, &mut clock, &mut sink)
        .unwrap();
    let equal_but_distinct = PublishedScope {
        publication: first.publication + 1,
        identity: first.identity.clone(),
    };
    assert!(slot
        .publish(
            Some(equal_but_distinct),
            scope_with("project.b", "loser", &log, &time),
            &deadlines,
            &mut runner,
            &mut clock,
            &mut sink,
        )
        .is_err());
    assert_eq!(slot.current(), Some(first));
}

#[test]
fn repeated_disposal_runs_each_cleanup_once_and_keeps_the_report() {
    let log: Log = Rc::new(RefCell::new(Vec::new()));
    let time = Rc::new(Cell::new(0));
    let scope = ScopeSnapshot {
        identity: project_a(),
        plugins: vec![activated_in(project_a(), vec![cleanup("one", &log, &time)])],
        children: Vec::new(),
        tasks: Drained,
    };
    let mut handle = DisposableScope::new(scope);
    assert!(handle.report().is_none());
    let mut runner = InPlaceRunner::new();
    let mut clock = Clock(Rc::clone(&time));
    let mut sink = CollectingDiagnosticSink::new();
    let deadlines = LifecycleDeadlines::default();
    handle.dispose(&deadlines, &mut runner, &mut clock, &mut sink);
    let first_outcome = handle.report().unwrap().outcome;
    let first_records = handle.report().unwrap().plugin_reports[0].1.clone();
    let emitted = sink.len();
    handle.dispose(&deadlines, &mut runner, &mut clock, &mut sink);
    handle.dispose(&deadlines, &mut runner, &mut clock, &mut sink);
    let again = handle.report().unwrap();
    assert_eq!(again.outcome, first_outcome);
    assert_eq!(again.plugin_reports[0].1, first_records);
    assert_eq!(first_outcome, DisposeOutcome::Disposed);
    assert_eq!(*log.borrow(), vec!["one"]);
    assert_eq!(sink.len(), emitted);
}
