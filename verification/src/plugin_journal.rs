//! The decisions the lifecycle store makes on the rows it reads: what a
//! discovery, a transition request, an advance, a generation allocation or a
//! tombstone does to the stored state, which outcome it reports and which
//! journal event it appends. The store reads the rows, hands them here, and
//! writes back what comes out.
use vstd::prelude::*;

use crate::plugin_lifecycle::{
    active_status, is_active_transition_status, is_terminal_transition_status,
    phase_rank, phase_rank_spec, terminal_status, validate_identifier, identifier_ok,
    LifecycleError, LifecycleLabel, PluginLifecycleMutationOutcome, WorkspacePluginDiscoveredDraft,
    WorkspacePluginGenerationAllocation, WorkspacePluginPackageTombstone, WorkspacePluginState,
    WorkspacePluginTombstoneDraft, WorkspacePluginTransition, WorkspacePluginTransitionAdvance,
    WorkspacePluginTransitionDraft, WorkspacePluginTransitionRequestResult,
};
use crate::text::{clone_opt, opt_eq, opt_view, owned, str_eq, trim};

verus! {

/// A journal entry the store appends after an applied mutation.
#[derive(Debug, Clone, PartialEq, Eq)]
pub struct LifecycleEventDraft {
    pub project_root: String,
    pub plugin_id: String,
    pub transition_id: Option<String>,
    pub package_digest: Option<String>,
    pub event_type: String,
    pub status: String,
    pub phase: String,
    pub reason_code: Option<String>,
    pub details_json: String,
}

/// The first value when there is one, else the second (SQL `COALESCE`).
pub open spec fn coalesce(a: Option<String>, b: Option<String>) -> Option<String> {
    if a is Some {
        a
    } else {
        b
    }
}

pub fn coalesce_exec(a: &Option<String>, b: &Option<String>) -> (r: Option<String>)
    ensures
        r == coalesce(*a, *b),
{
    if a.is_some() {
        clone_opt(a)
    } else {
        clone_opt(b)
    }
}

// ---------------------------------------------------------------------------
// Discovery.
// ---------------------------------------------------------------------------

/// A discovery that repeats what is stored changes nothing.
pub open spec fn discovery_unchanged(e: WorkspacePluginState, d: WorkspacePluginDiscoveredDraft) -> bool {
    &&& e.directory_name@ == d.directory_name@
    &&& e.plugin_version@ == d.plugin_version@
    &&& e.runtime_kind@ == d.runtime_kind@
    &&& opt_view(e.pending_digest) == Some(d.discovered_digest@)
}

/// The observed state after a new package was discovered: never accepted,
/// replaced by an update, or as it was when the accepted package came back.
pub open spec fn observed_after_discovery(e: WorkspacePluginState, digest: Seq<char>) -> Seq<char> {
    match e.accepted_digest {
        None => "discovered"@,
        Some(a) => if a@ != digest {
            "update_pending"@
        } else {
            e.observed_state@
        },
    }
}

/// The stored row after an applied discovery of a known plugin.
pub open spec fn rediscovered_state(
    e: WorkspacePluginState,
    d: WorkspacePluginDiscoveredDraft,
    observed: String,
    now: String,
) -> WorkspacePluginState {
    WorkspacePluginState {
        directory_name: d.directory_name,
        plugin_version: d.plugin_version,
        runtime_kind: d.runtime_kind,
        pending_digest: Some(d.discovered_digest),
        observed_state: observed,
        updated_at: now,
        ..e
    }
}

/// The row a first discovery inserts: disabled, discovered, never activated.
pub open spec fn first_discovered_state(
    d: WorkspacePluginDiscoveredDraft,
    desired: String,
    observed: String,
    now: String,
) -> WorkspacePluginState {
    WorkspacePluginState {
        project_root: d.project_root,
        plugin_id: d.plugin_id,
        directory_name: d.directory_name,
        plugin_version: d.plugin_version,
        accepted_digest: None,
        pending_digest: Some(d.discovered_digest),
        rollback_digest: None,
        runtime_kind: d.runtime_kind,
        desired_state: desired,
        observed_state: observed,
        last_activation_generation: 0,
        last_host_session_id: None,
        transition_id: None,
        last_error_code: None,
        enabled_at: None,
        disabled_at: None,
        updated_at: now,
    }
}

/// The state after an applied discovery.
pub open spec fn discovered_state(
    existing: Option<WorkspacePluginState>,
    d: WorkspacePluginDiscoveredDraft,
    now: String,
    s: WorkspacePluginState,
) -> bool {
    match existing {
        None => {
            &&& s == first_discovered_state(d, s.desired_state, s.observed_state, now)
            &&& s.desired_state@ == "disabled"@
            &&& s.observed_state@ == "discovered"@
        },
        Some(e) => {
            &&& s == rediscovered_state(e, d, s.observed_state, now)
            &&& s.observed_state@ == observed_after_discovery(e, d.discovered_digest@)
        },
    }
}

/// The journal entry of an applied discovery.
pub open spec fn discovery_event(d: WorkspacePluginDiscoveredDraft, ev: LifecycleEventDraft) -> bool {
    &&& ev.project_root == d.project_root
    &&& ev.plugin_id == d.plugin_id
    &&& ev.transition_id is None
    &&& ev.package_digest == Some(d.discovered_digest)
    &&& ev.event_type@ == "discovery"@
    &&& ev.status@ == "completed"@
    &&& ev.phase@ == "requested"@
    &&& ev.reason_code is None
    &&& ev.details_json@ == "{}"@
}

/// Applies a validated discovery to the stored row of its plugin, if any: the
/// outcome, the row as it is afterwards, and the journal entry to append.
pub fn apply_discovery(
    existing: Option<WorkspacePluginState>,
    draft: &WorkspacePluginDiscoveredDraft,
    now: &String,
) -> (r: (PluginLifecycleMutationOutcome, WorkspacePluginState, Option<LifecycleEventDraft>))
    ensures
        match existing {
            Some(e) => discovery_unchanged(e, *draft),
            None => false,
        } ==> r.0 == PluginLifecycleMutationOutcome::Unchanged && Some(r.1) == existing && r.2
            is None,
        !match existing {
            Some(e) => discovery_unchanged(e, *draft),
            None => false,
        } ==> r.0 == PluginLifecycleMutationOutcome::Applied && discovered_state(
            existing,
            *draft,
            *now,
            r.1,
        ) && (r.2 matches Some(ev) && discovery_event(*draft, ev)),
{
    let state = match existing {
        Some(e) => {
            let same_pending = match &e.pending_digest {
                Some(p) => str_eq(p.as_str(), draft.discovered_digest.as_str()),
                None => false,
            };
            if str_eq(e.directory_name.as_str(), draft.directory_name.as_str()) && str_eq(
                e.plugin_version.as_str(),
                draft.plugin_version.as_str(),
            ) && str_eq(e.runtime_kind.as_str(), draft.runtime_kind.as_str()) && same_pending {
                return (PluginLifecycleMutationOutcome::Unchanged, e, None);
            }
            let observed = match &e.accepted_digest {
                None => owned("discovered"),
                Some(a) => if !str_eq(a.as_str(), draft.discovered_digest.as_str()) {
                    owned("update_pending")
                } else {
                    e.observed_state.clone()
                },
            };
            WorkspacePluginState {
                directory_name: draft.directory_name.clone(),
                plugin_version: draft.plugin_version.clone(),
                runtime_kind: draft.runtime_kind.clone(),
                pending_digest: Some(draft.discovered_digest.clone()),
                observed_state: observed,
                updated_at: now.clone(),
                ..e
            }
        },
        None => WorkspacePluginState {
            project_root: draft.project_root.clone(),
            plugin_id: draft.plugin_id.clone(),
            directory_name: draft.directory_name.clone(),
            plugin_version: draft.plugin_version.clone(),
            accepted_digest: None,
            pending_digest: Some(draft.discovered_digest.clone()),
            rollback_digest: None,
            runtime_kind: draft.runtime_kind.clone(),
            desired_state: owned("disabled"),
            observed_state: owned("discovered"),
            last_activation_generation: 0,
            last_host_session_id: None,
            transition_id: None,
            last_error_code: None,
            enabled_at: None,
            disabled_at: None,
            updated_at: now.clone(),
        },
    };
    let event = LifecycleEventDraft {
        project_root: draft.project_root.clone(),
        plugin_id: draft.plugin_id.clone(),
        transition_id: None,
        package_digest: Some(draft.discovered_digest.clone()),
        event_type: owned("discovery"),
        status: owned("completed"),
        phase: owned("requested"),
        reason_code: None,
        details_json: owned("{}"),
    };
    (PluginLifecycleMutationOutcome::Applied, state, Some(event))
}

/// Discovering the same package again changes nothing: the row that a
/// discovery leaves behind is one that the same discovery reports unchanged.
pub proof fn lemma_discovery_replay_unchanged(
    existing: Option<WorkspacePluginState>,
    d: WorkspacePluginDiscoveredDraft,
    now: String,
    s: WorkspacePluginState,
)
    requires
        discovered_state(existing, d, now, s),
    ensures
        discovery_unchanged(s, d),
{
}

// ---------------------------------------------------------------------------
// Transition requests.
// ---------------------------------------------------------------------------

/// A stored transition records the same intent as a request.
pub open spec fn transition_matches(t: WorkspacePluginTransition, d: WorkspacePluginTransitionDraft) -> bool {
    &&& t.plugin_id@ == d.plugin_id@
    &&& t.kind@ == d.kind@
    &&& opt_view(t.expected_old_digest) == opt_view(d.expected_old_digest)
    &&& opt_view(t.candidate_digest) == opt_view(d.candidate_digest)
    &&& opt_view(t.rollback_digest) == opt_view(d.rollback_digest)
    &&& opt_view(t.backup_path_key) == opt_view(d.backup_path_key)
}

pub fn transition_matches_draft(
    transition: &WorkspacePluginTransition,
    draft: &WorkspacePluginTransitionDraft,
) -> (r: bool)
    ensures
        r == transition_matches(*transition, *draft),
{
    str_eq(transition.plugin_id.as_str(), draft.plugin_id.as_str()) && str_eq(
        transition.kind.as_str(),
        draft.kind.as_str(),
    ) && opt_eq(&transition.expected_old_digest, &draft.expected_old_digest) && opt_eq(
        &transition.candidate_digest,
        &draft.candidate_digest,
    ) && opt_eq(&transition.rollback_digest, &draft.rollback_digest) && opt_eq(
        &transition.backup_path_key,
        &draft.backup_path_key,
    )
}

/// The transition a request would open, with the given phase, status and times.
pub open spec fn transition_of_request(
    d: WorkspacePluginTransitionDraft,
    phase: String,
    status: String,
    requested_at: String,
    updated_at: String,
) -> WorkspacePluginTransition {
    WorkspacePluginTransition {
        transition_id: d.transition_id,
        project_root: d.project_root,
        plugin_id: d.plugin_id,
        kind: d.kind,
        expected_old_digest: d.expected_old_digest,
        candidate_digest: d.candidate_digest,
        rollback_digest: d.rollback_digest,
        phase,
        status,
        requested_at,
        updated_at,
        completed_at: None,
        reason_code: None,
        backup_path_key: d.backup_path_key,
    }
}

/// The transition reported with a refused request: pending at `requested`,
/// never stored, so without times.
pub open spec fn is_synthetic_transition(d: WorkspacePluginTransitionDraft, t: WorkspacePluginTransition) -> bool {
    &&& t == transition_of_request(d, t.phase, t.status, t.requested_at, t.updated_at)
    &&& t.phase@ == "requested"@
    &&& t.status@ == "pending"@
    &&& t.requested_at@ == Seq::<char>::empty()
    &&& t.updated_at@ == Seq::<char>::empty()
}

pub fn synthetic_transition(draft: &WorkspacePluginTransitionDraft) -> (t: WorkspacePluginTransition)
    ensures
        is_synthetic_transition(*draft, t),
{
    WorkspacePluginTransition {
        transition_id: draft.transition_id.clone(),
        project_root: draft.project_root.clone(),
        plugin_id: draft.plugin_id.clone(),
        kind: draft.kind.clone(),
        expected_old_digest: clone_opt(&draft.expected_old_digest),
        candidate_digest: clone_opt(&draft.candidate_digest),
        rollback_digest: clone_opt(&draft.rollback_digest),
        phase: owned("requested"),
        status: owned("pending"),
        requested_at: String::new(),
        updated_at: String::new(),
        completed_at: None,
        reason_code: None,
        backup_path_key: clone_opt(&draft.backup_path_key),
    }
}

/// The transition an applied request opens.
pub open spec fn is_requested_transition(
    d: WorkspacePluginTransitionDraft,
    now: String,
    t: WorkspacePluginTransition,
) -> bool {
    &&& t == transition_of_request(d, t.phase, t.status, now, now)
    &&& t.phase@ == "requested"@
    &&& t.status@ == "pending"@
}

/// The plugin row after an applied request: the new intent and the
/// transition that carries it; the candidate and rollback packages, where
/// named, replace the recorded ones.
pub open spec fn requested_state(
    s: WorkspacePluginState,
    d: WorkspacePluginTransitionDraft,
    now: String,
) -> WorkspacePluginState {
    WorkspacePluginState {
        desired_state: d.desired_state,
        transition_id: Some(d.transition_id),
        pending_digest: coalesce(d.candidate_digest, s.pending_digest),
        rollback_digest: coalesce(d.rollback_digest, s.rollback_digest),
        last_error_code: None,
        updated_at: now,
        ..s
    }
}

/// The journal entry of an applied request.
pub open spec fn request_event(d: WorkspacePluginTransitionDraft, ev: LifecycleEventDraft) -> bool {
    &&& ev.project_root == d.project_root
    &&& ev.plugin_id == d.plugin_id
    &&& ev.transition_id == Some(d.transition_id)
    &&& ev.package_digest == d.candidate_digest
    &&& ev.event_type@ == "user_requested"@
    &&& ev.status@ == "pending"@
    &&& ev.phase@ == "requested"@
    &&& ev.reason_code is None
    &&& ev.details_json@ == "{}"@
}

/// Whether one of the transitions is an active transition of the plugin.
pub open spec fn has_active_transition(
    ts: Seq<WorkspacePluginTransition>,
    project_root: Seq<char>,
    plugin_id: Seq<char>,
) -> bool {
    exists|i: int|
        0 <= i < ts.len() && (#[trigger] ts[i]).project_root@ == project_root
            && ts[i].plugin_id@ == plugin_id && active_status(ts[i].status@)
}

pub fn any_active_transition(
    transitions: &Vec<WorkspacePluginTransition>,
    project_root: &str,
    plugin_id: &str,
) -> (r: bool)
    ensures
        r == has_active_transition(transitions@, project_root@, plugin_id@),
{
    let n = transitions.len();
    let mut i: usize = 0;
    while i < n
        invariant
            n == transitions@.len(),
            0 <= i <= n,
            forall|k: int|
                0 <= k < i ==> !((#[trigger] transitions@[k]).project_root@ == project_root@
                    && transitions@[k].plugin_id@ == plugin_id@ && active_status(
                    transitions@[k].status@,
                )),
        decreases n - i,
    {
        let t = &transitions[i];
        if str_eq(t.project_root.as_str(), project_root) && str_eq(t.plugin_id.as_str(), plugin_id)
            && is_active_transition_status(t.status.as_str()) {
            return true;
        }
        i = i + 1;
    }
    false
}

/// Whether a request is refused as stale: it acts on the accepted package and
/// names another one than is accepted.
pub open spec fn request_is_stale(s: WorkspacePluginState, d: WorkspacePluginTransitionDraft) -> bool {
    crate::plugin_lifecycle::requires_expected_digest(d.kind@) && opt_view(s.accepted_digest)
        != opt_view(d.expected_old_digest)
}

/// What a validated transition request does, given the transition already
/// stored under its ID, the row of its plugin and the plugin's transitions.
pub open spec fn request_decided(
    existing: Option<WorkspacePluginTransition>,
    state: Option<WorkspacePluginState>,
    transitions: Seq<WorkspacePluginTransition>,
    d: WorkspacePluginTransitionDraft,
    now: String,
    r: Result<(WorkspacePluginTransitionRequestResult, Option<LifecycleEventDraft>), LifecycleError>,
) -> bool {
    match existing {
        Some(t) => match state {
            None => r == Err::<(WorkspacePluginTransitionRequestResult, Option<LifecycleEventDraft>), LifecycleError>(
                LifecycleError::TransitionStateMissing,
            ),
            Some(s) => if transition_matches(t, d) {
                r == Ok::<(WorkspacePluginTransitionRequestResult, Option<LifecycleEventDraft>), LifecycleError>(
                    (
                        WorkspacePluginTransitionRequestResult {
                            outcome: PluginLifecycleMutationOutcome::Unchanged,
                            state: s,
                            transition: t,
                        },
                        None,
                    ),
                )
            } else {
                r == Err::<(WorkspacePluginTransitionRequestResult, Option<LifecycleEventDraft>), LifecycleError>(
                    LifecycleError::TransitionIdConflict,
                )
            },
        },
        None => match state {
            None => r == Err::<(WorkspacePluginTransitionRequestResult, Option<LifecycleEventDraft>), LifecycleError>(
                LifecycleError::NotDiscovered,
            ),
            Some(s) => if request_is_stale(s, d) {
                r matches Ok((res, None)) && res.outcome == PluginLifecycleMutationOutcome::Stale
                    && res.state == s && is_synthetic_transition(d, res.transition)
            } else if has_active_transition(transitions, d.project_root@, d.plugin_id@) {
                r matches Ok((res, None)) && res.outcome == PluginLifecycleMutationOutcome::Conflict
                    && res.state == s && is_synthetic_transition(d, res.transition)
            } else {
                r matches Ok((res, Some(ev))) && res.outcome == PluginLifecycleMutationOutcome::Applied
                    && res.state == requested_state(s, d, now) && is_requested_transition(
                    d,
                    now,
                    res.transition,
                ) && request_event(d, ev)
            },
        },
    }
}

/// Decides a validated transition request. `existing` is the transition
/// stored under the request's ID, `state` the row of its plugin and
/// `plugin_transitions` the transitions stored for the plugin.
pub fn decide_transition_request(
    existing: Option<WorkspacePluginTransition>,
    state: Option<WorkspacePluginState>,
    plugin_transitions: &Vec<WorkspacePluginTransition>,
    draft: &WorkspacePluginTransitionDraft,
    now: &String,
) -> (r: Result<(WorkspacePluginTransitionRequestResult, Option<LifecycleEventDraft>), LifecycleError>)
    ensures
        request_decided(existing, state, plugin_transitions@, *draft, *now, r),
{
    if let Some(t) = existing {
        let s = match state {
            None => {
                return Err(LifecycleError::TransitionStateMissing);
            },
            Some(s) => s,
        };
        if transition_matches_draft(&t, draft) {
            return Ok(
                (
                    WorkspacePluginTransitionRequestResult {
                        outcome: PluginLifecycleMutationOutcome::Unchanged,
                        state: s,
                        transition: t,
                    },
                    None,
                ),
            );
        }
        return Err(LifecycleError::TransitionIdConflict);
    }
    let s = match state {
        None => {
            return Err(LifecycleError::NotDiscovered);
        },
        Some(s) => s,
    };
    if crate::plugin_lifecycle::transition_requires_expected_digest(draft.kind.as_str()) && !opt_eq(
        &s.accepted_digest,
        &draft.expected_old_digest,
    ) {
        return Ok(
            (
                WorkspacePluginTransitionRequestResult {
                    outcome: PluginLifecycleMutationOutcome::Stale,
                    state: s,
                    transition: synthetic_transition(draft),
                },
                None,
            ),
        );
    }
    if any_active_transition(
        plugin_transitions,
        draft.project_root.as_str(),
        draft.plugin_id.as_str(),
    ) {
        return Ok(
            (
                WorkspacePluginTransitionRequestResult {
                    outcome: PluginLifecycleMutationOutcome::Conflict,
                    state: s,
                    transition: synthetic_transition(draft),
                },
                None,
            ),
        );
    }
    let transition = WorkspacePluginTransition {
        transition_id: draft.transition_id.clone(),
        project_root: draft.project_root.clone(),
        plugin_id: draft.plugin_id.clone(),
        kind: draft.kind.clone(),
        expected_old_digest: clone_opt(&draft.expected_old_digest),
        candidate_digest: clone_opt(&draft.candidate_digest),
        rollback_digest: clone_opt(&draft.rollback_digest),
        phase: owned("requested"),
        status: owned("pending"),
        requested_at: now.clone(),
        updated_at: now.clone(),
        completed_at: None,
        reason_code: None,
        backup_path_key: clone_opt(&draft.backup_path_key),
    };
    let pending = coalesce_exec(&draft.candidate_digest, &s.pending_digest);
    let rollback = coalesce_exec(&draft.rollback_digest, &s.rollback_digest);
    let new_state = WorkspacePluginState {
        desired_state: draft.desired_state.clone(),
        transition_id: Some(draft.transition_id.clone()),
        pending_digest: pending,
        rollback_digest: rollback,
        last_error_code: None,
        updated_at: now.clone(),
        ..s
    };
    let event = LifecycleEventDraft {
        project_root: draft.project_root.clone(),
        plugin_id: draft.plugin_id.clone(),
        transition_id: Some(draft.transition_id.clone()),
        package_digest: clone_opt(&draft.candidate_digest),
        event_type: owned("user_requested"),
        status: owned("pending"),
        phase: owned("requested"),
        reason_code: None,
        details_json: owned("{}"),
    };
    Ok(
        (
            WorkspacePluginTransitionRequestResult {
                outcome: PluginLifecycleMutationOutcome::Applied,
                state: new_state,
                transition,
            },
            Some(event),
        ),
    )
}

/// Requesting the same transition again changes nothing: the transition an
/// applied request stores matches that request, so its replay is answered
/// `Unchanged` with the stored rows.
pub proof fn lemma_request_replay_unchanged(
    d: WorkspacePluginTransitionDraft,
    now: String,
    t: WorkspacePluginTransition,
    s: WorkspacePluginState,
    transitions: Seq<WorkspacePluginTransition>,
    r: Result<(WorkspacePluginTransitionRequestResult, Option<LifecycleEventDraft>), LifecycleError>,
)
    requires
        is_requested_transition(d, now, t),
        request_decided(Some(t), Some(s), transitions, d, now, r),
    ensures
        transition_matches(t, d),
        r matches Ok((res, None)) && res.outcome == PluginLifecycleMutationOutcome::Unchanged
            && res.state == s && res.transition == t,
{
}

/// While a transition of a plugin is active, no other request of that plugin
/// is applied: it is answered `Conflict`, or `Stale` where it names another
/// package than the accepted one, and nothing is stored.
pub proof fn lemma_one_active_transition_per_plugin(
    s: WorkspacePluginState,
    transitions: Seq<WorkspacePluginTransition>,
    d: WorkspacePluginTransitionDraft,
    now: String,
    r: Result<(WorkspacePluginTransitionRequestResult, Option<LifecycleEventDraft>), LifecycleError>,
)
    requires
        has_active_transition(transitions, d.project_root@, d.plugin_id@),
        request_decided(None, Some(s), transitions, d, now, r),
    ensures
        r matches Ok((res, ev)) && ev is None && res.state == s && (res.outcome
            == PluginLifecycleMutationOutcome::Conflict || res.outcome
            == PluginLifecycleMutationOutcome::Stale),
{
}

// ---------------------------------------------------------------------------
// Advancing a transition.
// ---------------------------------------------------------------------------

/// What an advance does: its outcome and, where it is applied, the rows
/// as they are afterwards and the journal entry to append.
#[derive(Debug, Clone, PartialEq, Eq)]
pub struct TransitionAdvanceEffect {
    pub outcome: PluginLifecycleMutationOutcome,
    pub transition: Option<WorkspacePluginTransition>,
    pub state: Option<WorkspacePluginState>,
    pub event: Option<LifecycleEventDraft>,
}

/// An effect that reports an outcome and changes nothing.
pub open spec fn no_effect(e: TransitionAdvanceEffect, outcome: PluginLifecycleMutationOutcome) -> bool {
    &&& e.outcome == outcome
    &&& e.transition is None
    &&& e.state is None
    &&& e.event is None
}

/// The transition after an applied advance; a terminal status completes it.
pub open spec fn advanced_transition(
    t: WorkspacePluginTransition,
    d: WorkspacePluginTransitionAdvance,
    now: String,
) -> WorkspacePluginTransition {
    WorkspacePluginTransition {
        phase: d.next_phase,
        status: d.status,
        updated_at: now,
        completed_at: if terminal_status(d.status@) {
            Some(now)
        } else {
            None
        },
        reason_code: d.reason_code,
        ..t
    }
}

/// Observed states that record when a plugin stopped running.
pub open spec fn stops_plugin(observed: Seq<char>) -> bool {
    observed == "disabled"@ || observed == "stopped"@ || observed == "uninstalled"@
}

/// The plugin row after an applied advance.
pub open spec fn advanced_state(
    s: WorkspacePluginState,
    d: WorkspacePluginTransitionAdvance,
    now: String,
) -> WorkspacePluginState {
    WorkspacePluginState {
        observed_state: d.observed_state,
        accepted_digest: coalesce(d.accepted_digest, s.accepted_digest),
        pending_digest: if d.clear_pending_digest {
            None
        } else {
            coalesce(d.pending_digest, s.pending_digest)
        },
        rollback_digest: coalesce(d.rollback_digest, s.rollback_digest),
        last_host_session_id: coalesce(d.last_host_session_id, s.last_host_session_id),
        last_error_code: d.last_error_code,
        enabled_at: if d.observed_state@ == "active"@ {
            Some(now)
        } else {
            s.enabled_at
        },
        disabled_at: if stops_plugin(d.observed_state@) {
            Some(now)
        } else {
            s.disabled_at
        },
        updated_at: now,
        ..s
    }
}

/// The journal entry of an applied advance.
pub open spec fn advance_event(
    t: WorkspacePluginTransition,
    d: WorkspacePluginTransitionAdvance,
    ev: LifecycleEventDraft,
) -> bool {
    &&& ev.project_root == d.project_root
    &&& ev.plugin_id == t.plugin_id
    &&& ev.transition_id == Some(d.transition_id)
    &&& ev.package_digest == coalesce(d.accepted_digest, d.pending_digest)
    &&& ev.event_type == d.event_type
    &&& ev.status == d.event_status
    &&& ev.phase == d.next_phase
    &&& ev.reason_code == d.reason_code
    &&& ev.details_json == d.details_json
}

/// What a validated advance does to the transition stored under its ID and
/// the row of that transition's plugin.
pub open spec fn advance_decided(
    current: Option<WorkspacePluginTransition>,
    state: Option<WorkspacePluginState>,
    d: WorkspacePluginTransitionAdvance,
    now: String,
    r: Result<TransitionAdvanceEffect, LifecycleError>,
) -> bool {
    match current {
        None => r matches Ok(e) && no_effect(e, PluginLifecycleMutationOutcome::NotFound),
        Some(t) => if t.phase@ == d.next_phase@ && t.status@ == d.status@ {
            r matches Ok(e) && no_effect(e, PluginLifecycleMutationOutcome::Unchanged)
        } else if t.phase@ != d.expected_phase@ {
            r matches Ok(e) && no_effect(e, PluginLifecycleMutationOutcome::Stale)
        } else if phase_rank_spec(d.next_phase@) is None || phase_rank_spec(t.phase@) is None {
            r == Err::<TransitionAdvanceEffect, LifecycleError>(LifecycleError::UnsupportedPhase)
        } else if phase_rank_spec(d.next_phase@).unwrap() <= phase_rank_spec(t.phase@).unwrap()
            || terminal_status(t.status@) {
            r matches Ok(e) && no_effect(e, PluginLifecycleMutationOutcome::Stale)
        } else {
            r matches Ok(e) && e.outcome == PluginLifecycleMutationOutcome::Applied && e.transition
                == Some(advanced_transition(t, d, now)) && e.state == match state {
                Some(s) => Some(advanced_state(s, d, now)),
                None => None::<WorkspacePluginState>,
            } && (e.event matches Some(ev) && advance_event(t, d, ev))
        },
    }
}

/// Decides a validated advance. `current` is the transition stored under the
/// advance's ID and `state` the row of that transition's plugin.
pub fn decide_advance(
    current: Option<WorkspacePluginTransition>,
    state: Option<WorkspacePluginState>,
    draft: &WorkspacePluginTransitionAdvance,
    now: &String,
) -> (r: Result<TransitionAdvanceEffect, LifecycleError>)
    ensures
        advance_decided(current, state, *draft, *now, r),
{
    let t = match current {
        None => {
            return Ok(
                TransitionAdvanceEffect {
                    outcome: PluginLifecycleMutationOutcome::NotFound,
                    transition: None,
                    state: None,
                    event: None,
                },
            );
        },
        Some(t) => t,
    };
    if str_eq(t.phase.as_str(), draft.next_phase.as_str()) && str_eq(
        t.status.as_str(),
        draft.status.as_str(),
    ) {
        return Ok(
            TransitionAdvanceEffect {
                outcome: PluginLifecycleMutationOutcome::Unchanged,
                transition: None,
                state: None,
                event: None,
            },
        );
    }
    let stale = TransitionAdvanceEffect {
        outcome: PluginLifecycleMutationOutcome::Stale,
        transition: None,
        state: None,
        event: None,
    };
    if !str_eq(t.phase.as_str(), draft.expected_phase.as_str()) {
        return Ok(stale);
    }
    let next_rank = match phase_rank(draft.next_phase.as_str()) {
        Err(e) => {
            return Err(e);
        },
        Ok(k) => k,
    };
    let current_rank = match phase_rank(t.phase.as_str()) {
        Err(e) => {
            return Err(e);
        },
        Ok(k) => k,
    };
    if next_rank <= current_rank || is_terminal_transition_status(t.status.as_str()) {
        return Ok(stale);
    }
    let completed_at = if is_terminal_transition_status(draft.status.as_str()) {
        Some(now.clone())
    } else {
        None
    };
    let event = LifecycleEventDraft {
        project_root: draft.project_root.clone(),
        plugin_id: t.plugin_id.clone(),
        transition_id: Some(draft.transition_id.clone()),
        package_digest: coalesce_exec(&draft.accepted_digest, &draft.pending_digest),
        event_type: draft.event_type.clone(),
        status: draft.event_status.clone(),
        phase: draft.next_phase.clone(),
        reason_code: clone_opt(&draft.reason_code),
        details_json: draft.details_json.clone(),
    };
    let transition = WorkspacePluginTransition {
        phase: draft.next_phase.clone(),
        status: draft.status.clone(),
        updated_at: now.clone(),
        completed_at,
        reason_code: clone_opt(&draft.reason_code),
        ..t
    };
    let new_state = match state {
        None => None,
        Some(s) => {
            let observed = draft.observed_state.as_str();
            let enabled_at = if str_eq(observed, "active") {
                Some(now.clone())
            } else {
                s.enabled_at
            };
            let disabled_at = if str_eq(observed, "disabled") || str_eq(observed, "stopped")
                || str_eq(observed, "uninstalled") {
                Some(now.clone())
            } else {
                s.disabled_at
            };
            let pending_digest = if draft.clear_pending_digest {
                None
            } else {
                coalesce_exec(&draft.pending_digest, &s.pending_digest)
            };
            let accepted_digest = coalesce_exec(&draft.accepted_digest, &s.accepted_digest);
            let rollback_digest = coalesce_exec(&draft.rollback_digest, &s.rollback_digest);
            let last_host_session_id = coalesce_exec(
                &draft.last_host_session_id,
                &s.last_host_session_id,
            );
            Some(
                WorkspacePluginState {
                    observed_state: draft.observed_state.clone(),
                    accepted_digest,
                    pending_digest,
                    rollback_digest,
                    last_host_session_id,
                    last_error_code: clone_opt(&draft.last_error_code),
                    enabled_at,
                    disabled_at,
                    updated_at: now.clone(),
                    ..s
                },
            )
        },
    };
    Ok(
        TransitionAdvanceEffect {
            outcome: PluginLifecycleMutationOutcome::Applied,
            transition: Some(transition),
            state: new_state,
            event: Some(event),
        },
    )
}

/// A transition only moves forward: an applied advance leaves it at a later
/// phase than before, and a transition that has reached a terminal status
/// is never advanced again.
pub proof fn lemma_advance_moves_forward(
    t: WorkspacePluginTransition,
    state: Option<WorkspacePluginState>,
    d: WorkspacePluginTransitionAdvance,
    now: String,
    r: Result<TransitionAdvanceEffect, LifecycleError>,
)
    requires
        advance_decided(Some(t), state, d, now, r),
    ensures
        terminal_status(t.status@) ==> !(r matches Ok(e) && e.outcome
            == PluginLifecycleMutationOutcome::Applied),
        (r matches Ok(e) && e.outcome == PluginLifecycleMutationOutcome::Applied) ==> {
            &&& phase_rank_spec(t.phase@) is Some
            &&& phase_rank_spec(d.next_phase@) is Some
            &&& phase_rank_spec(t.phase@).unwrap() < phase_rank_spec(d.next_phase@).unwrap()
            &&& r->Ok_0.transition.unwrap().phase == d.next_phase
        },
{
}

// ---------------------------------------------------------------------------
// Activation generations.
// ---------------------------------------------------------------------------

/// Whether an allocation applies: the row is held by the named transition,
/// at the expected generation, and that transition of this plugin is active.
pub open spec fn generation_applies(
    s: WorkspacePluginState,
    t: Option<WorkspacePluginTransition>,
    plugin_id: Seq<char>,
    transition_id: Seq<char>,
    expected: i64,
) -> bool {
    &&& s.plugin_id@ == plugin_id
    &&& opt_view(s.transition_id) == Some(transition_id)
    &&& s.last_activation_generation == expected
    &&& t matches Some(t) && t.transition_id@ == transition_id && t.project_root@
        == s.project_root@ && t.plugin_id@ == s.plugin_id@ && active_status(t.status@)
}

/// What an allocation request does, given the row of its plugin and the
/// transition stored under its transition ID.
pub open spec fn generation_decided(
    plugin_id: Seq<char>,
    transition_id: Seq<char>,
    expected: i64,
    state: Option<WorkspacePluginState>,
    transition: Option<WorkspacePluginTransition>,
    now: String,
    r: Result<(WorkspacePluginGenerationAllocation, Option<WorkspacePluginState>), LifecycleError>,
) -> bool {
    if !identifier_ok(trim(plugin_id)) {
        r == Err::<(WorkspacePluginGenerationAllocation, Option<WorkspacePluginState>), LifecycleError>(
            LifecycleError::InvalidIdentifier(LifecycleLabel::PluginId),
        )
    } else if !identifier_ok(trim(transition_id)) {
        r == Err::<(WorkspacePluginGenerationAllocation, Option<WorkspacePluginState>), LifecycleError>(
            LifecycleError::InvalidIdentifier(LifecycleLabel::TransitionId),
        )
    } else if expected < 0 || expected == i64::MAX {
        r == Err::<(WorkspacePluginGenerationAllocation, Option<WorkspacePluginState>), LifecycleError>(
            LifecycleError::GenerationExpectationInvalid,
        )
    } else {
        match state {
            None => r == Ok::<(WorkspacePluginGenerationAllocation, Option<WorkspacePluginState>), LifecycleError>(
                (
                    WorkspacePluginGenerationAllocation {
                        outcome: PluginLifecycleMutationOutcome::NotFound,
                        generation: expected,
                    },
                    None,
                ),
            ),
            Some(s) => if generation_applies(
                s,
                transition,
                trim(plugin_id),
                trim(transition_id),
                expected,
            ) {
                r == Ok::<(WorkspacePluginGenerationAllocation, Option<WorkspacePluginState>), LifecycleError>(
                    (
                        WorkspacePluginGenerationAllocation {
                            outcome: PluginLifecycleMutationOutcome::Applied,
                            generation: (expected + 1) as i64,
                        },
                        Some(
                            WorkspacePluginState {
                                last_activation_generation: (expected + 1) as i64,
                                updated_at: now,
                                ..s
                            },
                        ),
                    ),
                )
            } else {
                r == Ok::<(WorkspacePluginGenerationAllocation, Option<WorkspacePluginState>), LifecycleError>(
                    (
                        WorkspacePluginGenerationAllocation {
                            outcome: PluginLifecycleMutationOutcome::Stale,
                            generation: s.last_activation_generation,
                        },
                        None,
                    ),
                )
            },
        }
    }
}

/// Allocates the next activation generation of a plugin for a transition.
/// `state` is the row of the (trimmed) plugin ID and `transition` the
/// transition stored under the (trimmed) transition ID. Where it applies, the
/// second part of the result is the row to store.
pub fn allocate_generation(
    plugin_id: &str,
    transition_id: &str,
    expected_last_generation: i64,
    state: Option<WorkspacePluginState>,
    transition: Option<WorkspacePluginTransition>,
    now: &String,
) -> (r: Result<(WorkspacePluginGenerationAllocation, Option<WorkspacePluginState>), LifecycleError>)
    ensures
        generation_decided(
            plugin_id@,
            transition_id@,
            expected_last_generation,
            state,
            transition,
            *now,
            r,
        ),
{
    let plugin_id = match validate_identifier(plugin_id, LifecycleLabel::PluginId) {
        Err(e) => {
            return Err(e);
        },
        Ok(v) => v,
    };
    let transition_id = match validate_identifier(transition_id, LifecycleLabel::TransitionId) {
        Err(e) => {
            return Err(e);
        },
        Ok(v) => v,
    };
    if expected_last_generation < 0 || expected_last_generation == i64::MAX {
        return Err(LifecycleError::GenerationExpectationInvalid);
    }
    let s = match state {
        None => {
            return Ok(
                (
                    WorkspacePluginGenerationAllocation {
                        outcome: PluginLifecycleMutationOutcome::NotFound,
                        generation: expected_last_generation,
                    },
                    None,
                ),
            );
        },
        Some(s) => s,
    };
    let held = match &s.transition_id {
        Some(x) => str_eq(x.as_str(), transition_id.as_str()),
        None => false,
    };
    let active = match &transition {
        Some(t) => str_eq(t.transition_id.as_str(), transition_id.as_str()) && str_eq(
            t.project_root.as_str(),
            s.project_root.as_str(),
        ) && str_eq(t.plugin_id.as_str(), s.plugin_id.as_str()) && is_active_transition_status(
            t.status.as_str(),
        ),
        None => false,
    };
    if str_eq(s.plugin_id.as_str(), plugin_id.as_str()) && held && s.last_activation_generation
        == expected_last_generation && active {
        let next = expected_last_generation + 1;
        let updated = WorkspacePluginState {
            last_activation_generation: next,
            updated_at: now.clone(),
            ..s
        };
        return Ok(
            (
                WorkspacePluginGenerationAllocation {
                    outcome: PluginLifecycleMutationOutcome::Applied,
                    generation: next,
                },
                Some(updated),
            ),
        );
    }
    Ok(
        (
            WorkspacePluginGenerationAllocation {
                outcome: PluginLifecycleMutationOutcome::Stale,
                generation: s.last_activation_generation,
            },
            None,
        ),
    )
}

/// Generations only grow: an applied allocation hands out the expected
/// generation plus one and stores it; any other answer stores nothing.
pub proof fn lemma_generation_increments(
    plugin_id: Seq<char>,
    transition_id: Seq<char>,
    expected: i64,
    state: Option<WorkspacePluginState>,
    transition: Option<WorkspacePluginTransition>,
    now: String,
    r: Result<(WorkspacePluginGenerationAllocation, Option<WorkspacePluginState>), LifecycleError>,
)
    requires
        generation_decided(plugin_id, transition_id, expected, state, transition, now, r),
    ensures
        r matches Ok((a, stored)) ==> ((a.outcome == PluginLifecycleMutationOutcome::Applied)
            == (stored is Some)),
        r matches Ok((a, Some(s2))) ==> (a.generation == expected + 1
            && s2.last_activation_generation == a.generation && (state matches Some(s)
            && s2.last_activation_generation > s.last_activation_generation)),
{
}

// ---------------------------------------------------------------------------
// Package tombstones.
// ---------------------------------------------------------------------------

/// A stored tombstone records the same package evidence as a draft.
pub open spec fn tombstone_matches(e: WorkspacePluginPackageTombstone, d: WorkspacePluginTombstoneDraft) -> bool {
    &&& e.plugin_id@ == d.plugin_id@
    &&& e.package_digest@ == d.package_digest@
    &&& e.backup_path_key@ == d.backup_path_key@
    &&& e.original_directory_name@ == d.original_directory_name@
    &&& e.retention_class@ == d.retention_class@
    &&& e.reason_code@ == d.reason_code@
}

/// The tombstone a draft records when it is moved aside at `now`.
pub open spec fn tombstone_of(d: WorkspacePluginTombstoneDraft, now: String) -> WorkspacePluginPackageTombstone {
    WorkspacePluginPackageTombstone {
        tombstone_id: d.tombstone_id,
        project_root: d.project_root,
        plugin_id: d.plugin_id,
        package_digest: d.package_digest,
        backup_path_key: d.backup_path_key,
        original_directory_name: d.original_directory_name,
        moved_at: now,
        deleted_at: None,
        restored_at: None,
        retention_class: d.retention_class,
        reason_code: d.reason_code,
    }
}

pub open spec fn tombstone_decided(
    state: Option<WorkspacePluginState>,
    existing: Option<WorkspacePluginPackageTombstone>,
    d: WorkspacePluginTombstoneDraft,
    now: String,
    r: Result<(PluginLifecycleMutationOutcome, WorkspacePluginPackageTombstone), LifecycleError>,
) -> bool {
    match state {
        None => r == Err::<(PluginLifecycleMutationOutcome, WorkspacePluginPackageTombstone), LifecycleError>(
            LifecycleError::TombstoneStateMissing,
        ),
        Some(s) => if s.desired_state@ != "uninstalled"@ {
            r == Err::<(PluginLifecycleMutationOutcome, WorkspacePluginPackageTombstone), LifecycleError>(
                LifecycleError::TombstoneNeedsUninstall,
            )
        } else {
            match existing {
                Some(e) => if tombstone_matches(e, d) {
                    r == Ok::<(PluginLifecycleMutationOutcome, WorkspacePluginPackageTombstone), LifecycleError>(
                        (PluginLifecycleMutationOutcome::Unchanged, e),
                    )
                } else {
                    r == Err::<(PluginLifecycleMutationOutcome, WorkspacePluginPackageTombstone), LifecycleError>(
                        LifecycleError::TombstoneIdConflict,
                    )
                },
                None => r == Ok::<(PluginLifecycleMutationOutcome, WorkspacePluginPackageTombstone), LifecycleError>(
                    (PluginLifecycleMutationOutcome::Applied, tombstone_of(d, now)),
                ),
            }
        },
    }
}

/// Decides a validated tombstone, given the row of its plugin and the
/// tombstone already stored under its ID. Where it is applied, the tombstone
/// returned is the one to store.
pub fn decide_tombstone(
    state: Option<WorkspacePluginState>,
    existing: Option<WorkspacePluginPackageTombstone>,
    draft: &WorkspacePluginTombstoneDraft,
    now: &String,
) -> (r: Result<(PluginLifecycleMutationOutcome, WorkspacePluginPackageTombstone), LifecycleError>)
    ensures
        tombstone_decided(state, existing, *draft, *now, r),
{
    let s = match state {
        None => {
            return Err(LifecycleError::TombstoneStateMissing);
        },
        Some(s) => s,
    };
    if !str_eq(s.desired_state.as_str(), "uninstalled") {
        return Err(LifecycleError::TombstoneNeedsUninstall);
    }
    match existing {
        Some(e) => {
            if str_eq(e.plugin_id.as_str(), draft.plugin_id.as_str()) && str_eq(
                e.package_digest.as_str(),
                draft.package_digest.as_str(),
            ) && str_eq(e.backup_path_key.as_str(), draft.backup_path_key.as_str()) && str_eq(
                e.original_directory_name.as_str(),
                draft.original_directory_name.as_str(),
            ) && str_eq(e.retention_class.as_str(), draft.retention_class.as_str()) && str_eq(
                e.reason_code.as_str(),
                draft.reason_code.as_str(),
            ) {
                Ok((PluginLifecycleMutationOutcome::Unchanged, e))
            } else {
                Err(LifecycleError::TombstoneIdConflict)
            }
        },
        None => Ok(
            (
                PluginLifecycleMutationOutcome::Applied,
                WorkspacePluginPackageTombstone {
                    tombstone_id: draft.tombstone_id.clone(),
                    project_root: draft.project_root.clone(),
                    plugin_id: draft.plugin_id.clone(),
                    package_digest: draft.package_digest.clone(),
                    backup_path_key: draft.backup_path_key.clone(),
                    original_directory_name: draft.original_directory_name.clone(),
                    moved_at: now.clone(),
                    deleted_at: None,
                    restored_at: None,
                    retention_class: draft.retention_class.clone(),
                    reason_code: draft.reason_code.clone(),
                },
            ),
        ),
    }
}

/// Recording the same tombstone again changes nothing: the tombstone a draft
/// stores is the exact evidence of that draft.
pub proof fn lemma_tombstone_replay_unchanged(
    s: WorkspacePluginState,
    d: WorkspacePluginTombstoneDraft,
    now: String,
    later: String,
    r: Result<(PluginLifecycleMutationOutcome, WorkspacePluginPackageTombstone), LifecycleError>,
)
    requires
        s.desired_state@ == "uninstalled"@,
        tombstone_decided(Some(s), Some(tombstone_of(d, now)), d, later, r),
    ensures
        r == Ok::<(PluginLifecycleMutationOutcome, WorkspacePluginPackageTombstone), LifecycleError>(
            (PluginLifecycleMutationOutcome::Unchanged, tombstone_of(d, now)),
        ),
{
}

} // verus!
