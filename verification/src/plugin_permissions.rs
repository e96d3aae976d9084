//! The permission lane of workspace plugins: how a user's decision on a
//! permission request is read and how long the grant it makes lasts, what a
//! plugin's status is given its requests and its live host, when a reviewed
//! enable request may activate the plugin, and what a failed activation after
//! review reports.
use vstd::prelude::*;

use crate::text::{concat, contains_exec, chars_of, contains_seq, owned, str_eq};

verus! {

/// The policy revision grants are made under.
pub const POLICY_REVISION: i64 = 1;

/// Minutes an allow-once grant lasts.
pub const ALLOW_ONCE_MINUTES: u64 = 5;

/// Minutes an allow-for-project grant lasts: thirty days.
pub const ALLOW_PROJECT_MINUTES: u64 = 43200;

#[derive(Debug, Clone, Copy, PartialEq, Eq, Structural)]
pub enum PermissionDecision {
    Deny,
    AllowOnce,
    AllowProject,
}

/// Reads a user's decision on a permission request.
pub fn parse_permission_decision(value: &str) -> (r: Result<PermissionDecision, String>)
    ensures
        value@ == "deny"@ ==> r == Ok::<PermissionDecision, String>(PermissionDecision::Deny),
        value@ == "allow_once"@ ==> r == Ok::<PermissionDecision, String>(
            PermissionDecision::AllowOnce,
        ),
        value@ == "allow_project"@ ==> r == Ok::<PermissionDecision, String>(
            PermissionDecision::AllowProject,
        ),
        !(value@ == "deny"@ || value@ == "allow_once"@ || value@ == "allow_project"@) ==> (r matches Err(
            m,
        ) && m@ == "unsupported plugin permission decision"@),
{
    proof {
        reveal_strlit("deny");
        reveal_strlit("allow_once");
        reveal_strlit("allow_project");
        assert("deny"@[0] != "allow_once"@[0]);
        assert("deny"@[0] != "allow_project"@[0]);
        assert("allow_once"@.len() != "allow_project"@.len());
    }
    if str_eq(value, "deny") {
        Ok(PermissionDecision::Deny)
    } else if str_eq(value, "allow_once") {
        Ok(PermissionDecision::AllowOnce)
    } else if str_eq(value, "allow_project") {
        Ok(PermissionDecision::AllowProject)
    } else {
        Err(owned("unsupported plugin permission decision"))
    }
}

/// How long the grant a decision makes lasts, in minutes; a denial makes none.
pub fn grant_lifetime_minutes(decision: PermissionDecision) -> (r: Option<u64>)
    ensures
        r == match decision {
            PermissionDecision::Deny => None::<u64>,
            PermissionDecision::AllowOnce => Some(ALLOW_ONCE_MINUTES),
            PermissionDecision::AllowProject => Some(ALLOW_PROJECT_MINUTES),
        },
{
    match decision {
        PermissionDecision::Deny => None,
        PermissionDecision::AllowOnce => Some(ALLOW_ONCE_MINUTES),
        PermissionDecision::AllowProject => Some(ALLOW_PROJECT_MINUTES),
    }
}

/// The reason a decision records: only a denial gives one.
pub fn decision_reason_code(decision: PermissionDecision) -> (r: Option<String>)
    ensures
        decision == PermissionDecision::Deny ==> (r matches Some(c) && c@ == "user_denied"@),
        decision != PermissionDecision::Deny ==> r is None,
{
    if decision == PermissionDecision::Deny {
        Some(owned("user_denied"))
    } else {
        None
    }
}

/// The key a plugin's live state is kept under: the normalized project root
/// and the plugin ID, separated by a NUL character.
pub fn registry_key(normalized_root: &str, plugin_id: &str) -> (r: String)
    ensures
        r@ == normalized_root@ + "\0"@ + plugin_id@,
{
    let a = concat(normalized_root, "\0");
    concat(a.as_str(), plugin_id)
}

/// A plugin's status in the list: enabled while its exact package runs,
/// waiting for review while a request is pending, denied when a request for
/// the exact package was denied, else disabled.
pub fn plugin_status(active: bool, pending_requests: usize, any_denied: bool) -> (r: &'static str)
    ensures
        active ==> r@ == "enabled"@,
        !active && pending_requests > 0 ==> r@ == "permission_required"@,
        !active && pending_requests == 0 && any_denied ==> r@ == "denied"@,
        !active && pending_requests == 0 && !any_denied ==> r@ == "disabled"@,
{
    if active {
        "enabled"
    } else if pending_requests > 0 {
        "permission_required"
    } else if any_denied {
        "denied"
    } else {
        "disabled"
    }
}

/// Where a reviewed enable request stands, from the statuses of its
/// permission requests.
#[derive(Debug, Clone, Copy, PartialEq, Eq, Structural)]
pub enum ReviewState {
    /// A request still waits for a decision.
    Pending,
    /// A request was refused; the enable request is dropped.
    Denied,
    /// Every request was granted; the plugin may start.
    Granted,
}

pub open spec fn review_state_of(statuses: Seq<Seq<char>>) -> ReviewState {
    if exists|i: int| 0 <= i < statuses.len() && statuses[i] == "pending"@ {
        ReviewState::Pending
    } else if exists|i: int| 0 <= i < statuses.len() && statuses[i] != "granted"@ {
        ReviewState::Denied
    } else {
        ReviewState::Granted
    }
}

pub fn review_state(statuses: &Vec<String>) -> (r: ReviewState)
    ensures
        r == review_state_of(statuses@.map_values(|s: String| s@)),
{
    let ghost v = statuses@.map_values(|s: String| s@);
    let n = statuses.len();
    let mut pending = false;
    let mut refused = false;
    let mut i: usize = 0;
    while i < n
        invariant
            n == statuses@.len(),
            v == statuses@.map_values(|s: String| s@),
            0 <= i <= n,
            pending == exists|k: int| 0 <= k < i && v[k] == "pending"@,
            refused == exists|k: int| 0 <= k < i && v[k] != "granted"@,
        decreases n - i,
    {
        let s = statuses[i].as_str();
        assert(v[i as int] == s@);
        if str_eq(s, "pending") {
            pending = true;
        }
        if !str_eq(s, "granted") {
            refused = true;
        }
        i = i + 1;
    }
    if pending {
        ReviewState::Pending
    } else if refused {
        ReviewState::Denied
    } else {
        ReviewState::Granted
    }
}

/// What a decision reports when the plugin could not start after review: a
/// package that changed during review is stale; anything else leaves the
/// plugin without a live host.
pub fn review_failure(error_text: &str) -> (r: (&'static str, &'static str))
    ensures
        contains_seq(error_text@, "package changed while permission review was open"@) ==> (r.0@
            == "stale_digest"@ && r.1@
            == "The package changed after review. The recorded decision cannot authorize the new package; enable it again to review the new digest."@),
        !contains_seq(error_text@, "package changed while permission review was open"@) ==> (
        r.0@ == "host_unavailable"@ && r.1@
            == "The decision was saved, but the isolated plugin host did not start. No live handle is available."@),
{
    let text = chars_of(error_text);
    let marker = chars_of("package changed while permission review was open");
    if contains_exec(&text, &marker) {
        (
            "stale_digest",
            "The package changed after review. The recorded decision cannot authorize the new package; enable it again to review the new digest.",
        )
    } else {
        (
            "host_unavailable",
            "The decision was saved, but the isolated plugin host did not start. No live handle is available.",
        )
    }
}

/// A plugin enabled in a project: the package digest and version it runs.
pub struct ActiveEnable {
    pub package_digest: String,
    pub plugin_version: String,
    pub grant_count: usize,
}

/// An enable request waiting on permission review.
pub struct PendingEnableRequest {
    pub package_digest: String,
    pub plugin_version: String,
    pub expected_project_revision: i64,
    pub request_ids: Vec<String>,
}

/// What enabling a plugin does first.
#[derive(Debug, Clone, PartialEq, Eq)]
pub enum EnableStep {
    /// The exact package is enabled already; its grants stay.
    AlreadyEnabled { active_grant_count: usize },
    /// The permissions of the exact package at this project revision are
    /// under review already: report the same requests.
    PendingReused { request_ids: Vec<String> },
    /// Drop what is enabled or pending for the plugin and start over.
    StartOver,
}

/// What enabling a discovered plugin package does, given what is enabled and
/// pending for it: the exact package already enabled is reported as such; a
/// pending review of the exact package at the same project revision is
/// reused; anything else starts over. Only a current project revision and a
/// Wasm plugin can be enabled.
pub open spec fn enable_step(
    project_revision: i64,
    is_wasm: bool,
    digest: Seq<char>,
    version: Seq<char>,
    active: Option<ActiveEnable>,
    pending: Option<PendingEnableRequest>,
) -> Result<EnableStep, Seq<char>> {
    if project_revision < 0 {
        Err("plugin enable requires a current project revision"@)
    } else if !is_wasm {
        Err("only Wasm workspace plugins are executable in Phase 2"@)
    } else if active matches Some(a) && a.package_digest@ == digest && a.plugin_version@ == version {
        Ok(EnableStep::AlreadyEnabled { active_grant_count: active->Some_0.grant_count })
    } else if pending matches Some(p) && p.package_digest@ == digest && p.plugin_version@ == version
        && p.expected_project_revision == project_revision {
        Ok(EnableStep::PendingReused { request_ids: pending->Some_0.request_ids })
    } else {
        Ok(EnableStep::StartOver)
    }
}

fn copy_ids(ids: &Vec<String>) -> (r: Vec<String>)
    ensures
        r@ == ids@,
{
    let mut out: Vec<String> = Vec::new();
    let mut i: usize = 0;
    while i < ids.len()
        invariant
            0 <= i <= ids@.len(),
            out@ == ids@.take(i as int),
        decreases ids.len() - i,
    {
        out.push(ids[i].clone());
        proof {
            assert(ids@.take(i + 1) =~= ids@.take(i as int).push(ids@[i as int]));
        }
        i = i + 1;
    }
    proof {
        assert(ids@.take(ids@.len() as int) =~= ids@);
    }
    out
}

/// Decides what enabling a discovered plugin package does first.
pub fn decide_enable(
    project_revision: i64,
    is_wasm: bool,
    digest: &str,
    version: &str,
    active: &Option<ActiveEnable>,
    pending: &Option<PendingEnableRequest>,
) -> (r: Result<EnableStep, String>)
    ensures
        match enable_step(project_revision, is_wasm, digest@, version@, *active, *pending) {
            Ok(EnableStep::PendingReused { request_ids }) => r matches Ok(
                EnableStep::PendingReused { request_ids: got },
            ) && got@ == request_ids@,
            Ok(step) => r == Ok::<EnableStep, String>(step),
            Err(m) => r matches Err(t) && t@ == m,
        },
{
    if project_revision < 0 {
        return Err(owned("plugin enable requires a current project revision"));
    }
    if !is_wasm {
        return Err(owned("only Wasm workspace plugins are executable in Phase 2"));
    }
    if let Some(a) = active {
        if str_eq(a.package_digest.as_str(), digest) && str_eq(a.plugin_version.as_str(), version) {
            return Ok(EnableStep::AlreadyEnabled { active_grant_count: a.grant_count });
        }
    }
    if let Some(p) = pending {
        if str_eq(p.package_digest.as_str(), digest) && str_eq(p.plugin_version.as_str(), version)
            && p.expected_project_revision == project_revision {
            return Ok(EnableStep::PendingReused { request_ids: copy_ids(&p.request_ids) });
        }
    }
    Ok(EnableStep::StartOver)
}

/// A durable grant of the project covers the permission: one with its name
/// and the digest of its constraints.
pub open spec fn grant_covers(durable: Seq<(String, String)>, permission: (String, String)) -> bool {
    exists|j: int|
        0 <= j < durable.len() && (#[trigger] durable[j]).0@ == permission.0@ && durable[j].1@
            == permission.1@
}

/// For each permission a plugin asks for, given as its name and the digest
/// of its constraints, whether it must be reviewed: true where no durable
/// grant of the project covers it, false where one can be reused.
pub fn permissions_to_review(
    permissions: &Vec<(String, String)>,
    durable: &Vec<(String, String)>,
) -> (r: Vec<bool>)
    ensures
        r@.len() == permissions@.len(),
        forall|k: int|
            0 <= k < permissions@.len() ==> r@[k] == !grant_covers(durable@, #[trigger] permissions@[k]),
{
    let mut out: Vec<bool> = Vec::new();
    let mut k: usize = 0;
    while k < permissions.len()
        invariant
            0 <= k <= permissions@.len(),
            out@.len() == k,
            forall|m: int|
                0 <= m < k ==> out@[m] == !grant_covers(durable@, #[trigger] permissions@[m]),
        decreases permissions.len() - k,
    {
        let (name, constraints) = (&permissions[k].0, &permissions[k].1);
        let mut covered = false;
        let mut j: usize = 0;
        while j < durable.len()
            invariant
                0 <= j <= durable@.len(),
                k < permissions@.len(),
                name@ == permissions@[k as int].0@,
                constraints@ == permissions@[k as int].1@,
                covered == exists|x: int|
                    0 <= x < j && (#[trigger] durable@[x]).0@ == name@ && durable@[x].1@
                        == constraints@,
            decreases durable.len() - j,
        {
            if str_eq(durable[j].0.as_str(), name.as_str()) && str_eq(
                durable[j].1.as_str(),
                constraints.as_str(),
            ) {
                covered = true;
            }
            j = j + 1;
        }
        out.push(!covered);
        k = k + 1;
    }
    out
}

} // verus!
