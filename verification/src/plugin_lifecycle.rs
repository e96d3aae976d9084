//! Durable workspace-plugin lifecycle facts: the desired and observed state of
//! each plugin in a project, the journal of its transitions, and the rules that
//! decide whether a discovery, a transition request, an advance, a generation
//! allocation or a tombstone is applied, unchanged, stale or refused.
use vstd::prelude::*;
use vstd::string::StringSliceAdditionalSpecFns;

use crate::lifecycle_details::{details_problem, json_compact_text, validate_details_json};
use crate::text::{
    alnum, chars_of, clone_opt, control, is_ascii_alnum, is_control, opt_eq, opt_view, owned,
    str_eq, string_from_chars, trim, trim_chars,
};

verus! {

pub const MAX_IDENTIFIER_BYTES: usize = 128;

pub const MAX_DETAILS_BYTES: usize = 8192;

pub const MAX_DETAIL_FIELDS: usize = 24;

#[derive(Debug, Clone, PartialEq, Eq)]
pub struct WorkspacePluginDiscoveredDraft {
    pub project_root: String,
    pub plugin_id: String,
    pub directory_name: String,
    pub plugin_version: String,
    pub runtime_kind: String,
    pub discovered_digest: String,
}

#[derive(Debug, Clone, PartialEq, Eq)]
pub struct WorkspacePluginState {
    pub project_root: String,
    pub plugin_id: String,
    pub directory_name: String,
    pub plugin_version: String,
    pub accepted_digest: Option<String>,
    pub pending_digest: Option<String>,
    pub rollback_digest: Option<String>,
    pub runtime_kind: String,
    pub desired_state: String,
    pub observed_state: String,
    pub last_activation_generation: i64,
    pub last_host_session_id: Option<String>,
    pub transition_id: Option<String>,
    pub last_error_code: Option<String>,
    pub enabled_at: Option<String>,
    pub disabled_at: Option<String>,
    pub updated_at: String,
}

#[derive(Debug, Clone, PartialEq, Eq)]
pub struct WorkspacePluginTransitionDraft {
    pub transition_id: String,
    pub project_root: String,
    pub plugin_id: String,
    pub kind: String,
    pub desired_state: String,
    pub expected_old_digest: Option<String>,
    pub candidate_digest: Option<String>,
    pub rollback_digest: Option<String>,
    pub backup_path_key: Option<String>,
}

#[derive(Debug, Clone, PartialEq, Eq)]
pub struct WorkspacePluginTransition {
    pub transition_id: String,
    pub project_root: String,
    pub plugin_id: String,
    pub kind: String,
    pub expected_old_digest: Option<String>,
    pub candidate_digest: Option<String>,
    pub rollback_digest: Option<String>,
    pub phase: String,
    pub status: String,
    pub requested_at: String,
    pub updated_at: String,
    pub completed_at: Option<String>,
    pub reason_code: Option<String>,
    pub backup_path_key: Option<String>,
}

#[derive(Debug, Clone, PartialEq, Eq)]
pub struct WorkspacePluginTransitionAdvance {
    pub project_root: String,
    pub transition_id: String,
    pub expected_phase: String,
    pub next_phase: String,
    pub status: String,
    pub observed_state: String,
    pub accepted_digest: Option<String>,
    pub pending_digest: Option<String>,
    pub rollback_digest: Option<String>,
    pub clear_pending_digest: bool,
    pub last_host_session_id: Option<String>,
    pub last_error_code: Option<String>,
    pub reason_code: Option<String>,
    pub event_type: String,
    pub event_status: String,
    pub details_json: String,
}

#[derive(Debug, Clone, PartialEq, Eq)]
pub struct WorkspacePluginLifecycleEvent {
    pub event_id: String,
    pub project_root: String,
    pub plugin_id: String,
    pub transition_id: Option<String>,
    pub package_digest: Option<String>,
    pub event_type: String,
    pub status: String,
    pub phase: String,
    pub reason_code: Option<String>,
    pub details_json: String,
    pub created_at: String,
}

#[derive(Debug, Clone, PartialEq, Eq)]
pub struct WorkspacePluginTombstoneDraft {
    pub tombstone_id: String,
    pub project_root: String,
    pub plugin_id: String,
    pub package_digest: String,
    pub backup_path_key: String,
    pub original_directory_name: String,
    pub retention_class: String,
    pub reason_code: String,
}

#[derive(Debug, Clone, PartialEq, Eq)]
pub struct WorkspacePluginPackageTombstone {
    pub tombstone_id: String,
    pub project_root: String,
    pub plugin_id: String,
    pub package_digest: String,
    pub backup_path_key: String,
    pub original_directory_name: String,
    pub moved_at: String,
    pub deleted_at: Option<String>,
    pub restored_at: Option<String>,
    pub retention_class: String,
    pub reason_code: String,
}

#[derive(Debug, Clone, Copy, PartialEq, Eq, Structural)]
pub enum PluginLifecycleMutationOutcome {
    Applied,
    Unchanged,
    NotFound,
    Stale,
    Conflict,
}

#[derive(Debug, Clone, PartialEq, Eq)]
pub struct WorkspacePluginTransitionRequestResult {
    pub outcome: PluginLifecycleMutationOutcome,
    pub state: WorkspacePluginState,
    pub transition: WorkspacePluginTransition,
}

#[derive(Debug, Clone, Copy, PartialEq, Eq, Structural)]
pub struct WorkspacePluginGenerationAllocation {
    pub outcome: PluginLifecycleMutationOutcome,
    pub generation: i64,
}

/// What an identifier or digest names, for error reports.
#[derive(Debug, Clone, Copy, PartialEq, Eq, Structural)]
pub enum LifecycleLabel {
    PluginId,
    TransitionId,
    TombstoneId,
    ReasonCode,
    ErrorCode,
    HostSessionId,
    OpaqueBackupKey,
    DiscoveredDigest,
    ExpectedOldDigest,
    CandidateDigest,
    RollbackDigest,
    AcceptedDigest,
    PendingDigest,
    PackageDigest,
}

/// Why a lifecycle record or mutation was refused.
#[derive(Debug, Clone, PartialEq, Eq)]
pub enum LifecycleError {
    InvalidIdentifier(LifecycleLabel),
    InvalidDirectoryComponent,
    OpaqueKeyIsPath,
    VersionNotSemantic,
    RuntimeNotWasm,
    InvalidDigest(LifecycleLabel),
    UnsupportedPhase,
    UnsupportedTransitionKind,
    DesiredStateMismatch,
    UnsupportedDesiredState,
    UnsupportedObservedState,
    UnsupportedTransitionStatus,
    TerminalRequiresCompleted,
    UnsupportedEventType,
    UnsupportedEventStatus,
    DetailsTooLarge,
    DetailsNotJson,
    DetailsNotObject,
    DetailsTooManyFields,
    DetailsForbiddenField,
    DetailsUnsafeValue,
    CandidateDigestRequired,
    ExpectedAndCandidateRequired,
    CandidateEqualsExpected,
    UnsupportedRetentionClass,
    TransitionIdConflict,
    TransitionStateMissing,
    NotDiscovered,
    TombstoneStateMissing,
    TombstoneNeedsUninstall,
    TombstoneIdConflict,
    GenerationExpectationInvalid,
}

// ---------------------------------------------------------------------------
// Identifiers, names and digests.
// ---------------------------------------------------------------------------

pub open spec fn id_char_ok(c: char) -> bool {
    is_ascii_alnum(c) || c == '.' || c == '_' || c == '-'
}

/// A trimmed identifier: 1 to 128 letters, digits, `.`, `_` or `-`.
pub open spec fn identifier_ok(t: Seq<char>) -> bool {
    &&& t.len() > 0
    &&& t.len() <= MAX_IDENTIFIER_BYTES
    &&& forall|i: int| 0 <= i < t.len() ==> id_char_ok(#[trigger] t[i])
}

pub open spec fn identifier_result(
    v: Seq<char>,
    label: LifecycleLabel,
    r: Result<String, LifecycleError>,
) -> bool {
    if identifier_ok(trim(v)) {
        r matches Ok(s) && s@ == trim(v)
    } else {
        r == Err::<String, LifecycleError>(LifecycleError::InvalidIdentifier(label))
    }
}

pub fn validate_identifier(value: &str, label: LifecycleLabel) -> (r: Result<String, LifecycleError>)
    ensures
        identifier_result(value@, label, r),
{
    let v = chars_of(value);
    let t = trim_chars(&v);
    if t.len() == 0 || t.len() > MAX_IDENTIFIER_BYTES {
        return Err(LifecycleError::InvalidIdentifier(label));
    }
    let mut i: usize = 0;
    while i < t.len()
        invariant
            0 <= i <= t@.len(),
            t@ == trim(value@),
            forall|k: int| 0 <= k < i ==> id_char_ok(#[trigger] t@[k]),
        decreases t.len() - i,
    {
        let c = t[i];
        if !(alnum(c) || c == '.' || c == '_' || c == '-') {
            assert(!id_char_ok(t@[i as int]));
            return Err(LifecycleError::InvalidIdentifier(label));
        }
        i = i + 1;
    }
    Ok(string_from_chars(&t))
}

pub open spec fn is_separator(c: char) -> bool {
    c == '/' || c == '\\' || c == ':'
}

/// A trimmed directory component: 1 to 128 UTF-8 bytes, not `.` or `..`, no
/// separators, colons or control characters.
pub open spec fn directory_name_ok(t: Seq<char>) -> bool {
    &&& t.len() > 0
    &&& vstd::utf8::encode_utf8(t).len() <= MAX_IDENTIFIER_BYTES
    &&& t != seq!['.']
    &&& t != seq!['.', '.']
    &&& forall|i: int| 0 <= i < t.len() ==> !is_separator(#[trigger] t[i]) && !is_control(t[i])
}

pub fn validate_directory_name(value: &str) -> (r: Result<String, LifecycleError>)
    ensures
        directory_name_ok(trim(value@)) ==> (r matches Ok(s) && s@ == trim(value@)),
        !directory_name_ok(trim(value@)) ==> r == Err::<String, LifecycleError>(
            LifecycleError::InvalidDirectoryComponent,
        ),
{
    let v = chars_of(value);
    let t = trim_chars(&v);
    let s = string_from_chars(&t);
    if t.len() == 0 || s.as_str().as_bytes().len() > MAX_IDENTIFIER_BYTES {
        return Err(LifecycleError::InvalidDirectoryComponent);
    }
    if (t.len() == 1 && t[0] == '.') || (t.len() == 2 && t[0] == '.' && t[1] == '.') {
        assert(t@ =~= seq!['.'] || t@ =~= seq!['.', '.']);
        return Err(LifecycleError::InvalidDirectoryComponent);
    }
    proof {
        if t@ =~= seq!['.'] {
            assert(t@.len() == 1 && t@[0] == '.');
        }
        if t@ == seq!['.', '.'] {
            assert(t@.len() == 2 && t@[0] == '.' && t@[1] == '.');
        }
    }
    let mut i: usize = 0;
    while i < t.len()
        invariant
            0 <= i <= t@.len(),
            t@ == trim(value@),
            s@ == t@,
            t@.len() > 0,
            vstd::utf8::encode_utf8(t@).len() <= MAX_IDENTIFIER_BYTES,
            t@ != seq!['.'],
            t@ != seq!['.', '.'],
            forall|k: int| 0 <= k < i ==> !is_separator(#[trigger] t@[k]) && !is_control(t@[k]),
        decreases t.len() - i,
    {
        let c = t[i];
        if c == '/' || c == '\\' || c == ':' || control(c) {
            assert(is_separator(t@[i as int]) || is_control(t@[i as int]));
            return Err(LifecycleError::InvalidDirectoryComponent);
        }
        i = i + 1;
    }
    Ok(s)
}

/// An opaque backup key: an identifier that cannot be read as a path.
pub fn validate_opaque_key(value: &str) -> (r: Result<String, LifecycleError>)
    ensures
        identifier_result(value@, LifecycleLabel::OpaqueBackupKey, r),
{
    let v = match validate_identifier(value, LifecycleLabel::OpaqueBackupKey) {
        Err(e) => {
            return Err(e);
        },
        Ok(v) => v,
    };
    let chars = chars_of(v.as_str());
    let mut i: usize = 0;
    while i < chars.len()
        invariant
            0 <= i <= chars@.len(),
            chars@ == v@,
            forall|k: int| 0 <= k < chars@.len() ==> id_char_ok(#[trigger] chars@[k]),
        decreases chars.len() - i,
    {
        if chars[i] == ':' {
            assert(!id_char_ok(chars@[i as int]));
            return Err(LifecycleError::OpaqueKeyIsPath);
        }
        i = i + 1;
    }
    Ok(v)
}

pub open spec fn hex_lower(c: char) -> bool {
    ('0' <= c && c <= '9') || ('a' <= c && c <= 'f')
}

/// A package digest: 64 lower-case hex digits.
pub open spec fn digest_ok(v: Seq<char>) -> bool {
    v.len() == 64 && forall|i: int| 0 <= i < v.len() ==> hex_lower(#[trigger] v[i])
}

pub open spec fn digest_result(v: Seq<char>, label: LifecycleLabel, r: Result<String, LifecycleError>) -> bool {
    if digest_ok(v) {
        r matches Ok(s) && s@ == v
    } else {
        r == Err::<String, LifecycleError>(LifecycleError::InvalidDigest(label))
    }
}

pub fn validate_digest(value: &str, label: LifecycleLabel) -> (r: Result<String, LifecycleError>)
    ensures
        digest_result(value@, label, r),
{
    let v = chars_of(value);
    if v.len() != 64 {
        return Err(LifecycleError::InvalidDigest(label));
    }
    let mut i: usize = 0;
    while i < v.len()
        invariant
            0 <= i <= v@.len(),
            v@ == value@,
            forall|k: int| 0 <= k < i ==> hex_lower(#[trigger] v@[k]),
        decreases v.len() - i,
    {
        let c = v[i];
        if !(('0' <= c && c <= '9') || ('a' <= c && c <= 'f')) {
            assert(!hex_lower(v@[i as int]));
            return Err(LifecycleError::InvalidDigest(label));
        }
        i = i + 1;
    }
    Ok(owned(value))
}

pub open spec fn optional_digest_result(
    v: Option<String>,
    label: LifecycleLabel,
    r: Result<Option<String>, LifecycleError>,
) -> bool {
    match v {
        None => r == Ok::<Option<String>, LifecycleError>(None),
        Some(d) => if digest_ok(d@) {
            r matches Ok(Some(s)) && s@ == d@
        } else {
            r == Err::<Option<String>, LifecycleError>(LifecycleError::InvalidDigest(label))
        },
    }
}

pub fn validate_optional_digest(value: &Option<String>, label: LifecycleLabel) -> (r: Result<
    Option<String>,
    LifecycleError,
>)
    ensures
        optional_digest_result(*value, label, r),
{
    match value {
        None => Ok(None),
        Some(d) => match validate_digest(d.as_str(), label) {
            Ok(s) => Ok(Some(s)),
            Err(e) => Err(e),
        },
    }
}

pub open spec fn optional_identifier_result(
    v: Option<String>,
    label: LifecycleLabel,
    r: Result<Option<String>, LifecycleError>,
) -> bool {
    match v {
        None => r == Ok::<Option<String>, LifecycleError>(None),
        Some(d) => if identifier_ok(trim(d@)) {
            r matches Ok(Some(s)) && s@ == trim(d@)
        } else {
            r == Err::<Option<String>, LifecycleError>(LifecycleError::InvalidIdentifier(label))
        },
    }
}

pub fn validate_optional_identifier(value: &Option<String>, label: LifecycleLabel) -> (r: Result<
    Option<String>,
    LifecycleError,
>)
    ensures
        optional_identifier_result(*value, label, r),
{
    match value {
        None => Ok(None),
        Some(d) => match validate_identifier(d.as_str(), label) {
            Ok(s) => Ok(Some(s)),
            Err(e) => Err(e),
        },
    }
}

/// Whether `semver::Version::parse` accepts a text.
pub uninterp spec fn semver_version_parses(text: Seq<char>) -> bool;

/// `semver::Version::parse(text).is_ok()`: whether the text is a semantic
/// version. The contract names the answer; the grammar is the crate's.
#[verifier::external_body]
fn semver_parses(text: &str) -> (r: bool)
    ensures
        r == semver_version_parses(text@),
{
    semver::Version::parse(text).is_ok()
}

/// A trimmed semantic version of at most 128 bytes.
pub fn validate_version(value: &str) -> (r: Result<String, LifecycleError>)
    ensures
        ({
            let t = trim(value@);
            if vstd::utf8::encode_utf8(t).len() <= MAX_IDENTIFIER_BYTES && semver_version_parses(t) {
                r matches Ok(s) && s@ == t
            } else {
                r == Err::<String, LifecycleError>(LifecycleError::VersionNotSemantic)
            }
        }),
{
    let v = chars_of(value);
    let t = trim_chars(&v);
    let s = string_from_chars(&t);
    if s.as_str().as_bytes().len() > MAX_IDENTIFIER_BYTES || !semver_parses(s.as_str()) {
        return Err(LifecycleError::VersionNotSemantic);
    }
    Ok(s)
}

pub fn validate_runtime_kind(value: &str) -> (r: Result<String, LifecycleError>)
    ensures
        value@ == "wasm"@ ==> (r matches Ok(s) && s@ == value@),
        value@ != "wasm"@ ==> r == Err::<String, LifecycleError>(LifecycleError::RuntimeNotWasm),
{
    if str_eq(value, "wasm") {
        Ok(owned(value))
    } else {
        Err(LifecycleError::RuntimeNotWasm)
    }
}

// ---------------------------------------------------------------------------
// Phases, kinds, states and statuses.
// ---------------------------------------------------------------------------

/// The phases of a transition, in the order a transition passes them.
pub open spec fn transition_phases() -> Seq<Seq<char>> {
    seq![
        "requested"@,
        "preflight"@,
        "backup_prepared"@,
        "grants_ready"@,
        "candidate_activated"@,
        "routing_closed"@,
        "calls_drained"@,
        "handles_revoked"@,
        "contributions_disposed"@,
        "host_disposed"@,
        "package_moved"@,
        "pointer_swapped"@,
        "durable_committed"@,
        "completed"@,
    ]
}

/// The position of a phase in the phase order.
pub open spec fn phase_rank_spec(p: Seq<char>) -> Option<int> {
    let ps = transition_phases();
    if exists|i: int| 0 <= i < ps.len() && ps[i] == p {
        Some(choose|i: int| 0 <= i < ps.len() && ps[i] == p)
    } else {
        None
    }
}

pub proof fn lemma_phases_distinct()
    ensures
        forall|i: int, j: int|
            0 <= i < transition_phases().len() && 0 <= j < transition_phases().len() && i != j
                ==> transition_phases()[i] != transition_phases()[j],
{
    reveal_strlit("requested");
    reveal_strlit("preflight");
    reveal_strlit("backup_prepared");
    reveal_strlit("grants_ready");
    reveal_strlit("candidate_activated");
    reveal_strlit("routing_closed");
    reveal_strlit("calls_drained");
    reveal_strlit("handles_revoked");
    reveal_strlit("contributions_disposed");
    reveal_strlit("host_disposed");
    reveal_strlit("package_moved");
    reveal_strlit("pointer_swapped");
    reveal_strlit("durable_committed");
    reveal_strlit("completed");
    let ps = transition_phases();
    assert forall|i: int, j: int| 0 <= i < ps.len() && 0 <= j < ps.len() && i != j implies ps[i]
        != ps[j] by {
        if ps[i] == ps[j] {
            assert(ps[i].len() == ps[j].len());
            assert(ps[i][0] == ps[j][0]);
            assert(ps[i].last() == ps[j].last());
        }
    }
}

pub fn phase_rank(value: &str) -> (r: Result<usize, LifecycleError>)
    ensures
        match phase_rank_spec(value@) {
            Some(k) => r == Ok::<usize, LifecycleError>(k as usize) && 0 <= k < 14,
            None => r == Err::<usize, LifecycleError>(LifecycleError::UnsupportedPhase),
        },
{
    proof {
        lemma_phases_distinct();
    }
    let ghost ps = transition_phases();
    let names: [&str; 14] = [
        "requested",
        "preflight",
        "backup_prepared",
        "grants_ready",
        "candidate_activated",
        "routing_closed",
        "calls_drained",
        "handles_revoked",
        "contributions_disposed",
        "host_disposed",
        "package_moved",
        "pointer_swapped",
        "durable_committed",
        "completed",
    ];
    assert(forall|k: int| 0 <= k < 14 ==> (#[trigger] names@[k])@ == ps[k]);
    let mut i: usize = 0;
    while i < 14
        invariant
            0 <= i <= 14,
            ps == transition_phases(),
            forall|k: int| 0 <= k < 14 ==> (#[trigger] names@[k])@ == ps[k],
            forall|k: int| 0 <= k < i ==> ps[k] != value@,
            forall|a: int, b: int| 0 <= a < 14 && 0 <= b < 14 && a != b ==> ps[a] != ps[b],
        decreases 14 - i,
    {
        if str_eq(names[i], value) {
            assert(ps[i as int] == value@);
            assert(phase_rank_spec(value@) == Some(i as int));
            return Ok(i);
        }
        i = i + 1;
    }
    Err(LifecycleError::UnsupportedPhase)
}

pub open spec fn transition_kind_ok(k: Seq<char>) -> bool {
    ||| k == "enable"@
    ||| k == "disable"@
    ||| k == "uninstall"@
    ||| k == "retry"@
    ||| k == "upgrade"@
    ||| k == "rollback"@
    ||| k == "project_teardown"@
    ||| k == "shutdown"@
}

pub fn validate_transition_kind(value: &str) -> (r: Result<String, LifecycleError>)
    ensures
        transition_kind_ok(value@) ==> (r matches Ok(s) && s@ == value@),
        !transition_kind_ok(value@) ==> r == Err::<String, LifecycleError>(
            LifecycleError::UnsupportedTransitionKind,
        ),
{
    if str_eq(value, "enable") || str_eq(value, "disable") || str_eq(value, "uninstall") || str_eq(
        value,
        "retry",
    ) || str_eq(value, "upgrade") || str_eq(value, "rollback") || str_eq(value, "project_teardown")
        || str_eq(value, "shutdown") {
        Ok(owned(value))
    } else {
        Err(LifecycleError::UnsupportedTransitionKind)
    }
}

/// The desired state a transition kind leads to.
pub open spec fn desired_state_for(kind: Seq<char>) -> Seq<char> {
    if kind == "enable"@ || kind == "retry"@ || kind == "upgrade"@ || kind == "rollback"@ {
        "enabled"@
    } else if kind == "uninstall"@ {
        "uninstalled"@
    } else {
        "disabled"@
    }
}

pub fn desired_state_for_kind(kind: &str) -> (r: &'static str)
    requires
        transition_kind_ok(kind@),
    ensures
        r@ == desired_state_for(kind@),
{
    if str_eq(kind, "enable") || str_eq(kind, "retry") || str_eq(kind, "upgrade") || str_eq(
        kind,
        "rollback",
    ) {
        "enabled"
    } else if str_eq(kind, "uninstall") {
        "uninstalled"
    } else {
        "disabled"
    }
}

/// Kinds that act on the accepted package and must name it.
pub open spec fn requires_expected_digest(kind: Seq<char>) -> bool {
    ||| kind == "disable"@
    ||| kind == "uninstall"@
    ||| kind == "upgrade"@
    ||| kind == "rollback"@
    ||| kind == "project_teardown"@
    ||| kind == "shutdown"@
}

pub fn transition_requires_expected_digest(kind: &str) -> (r: bool)
    ensures
        r == requires_expected_digest(kind@),
{
    str_eq(kind, "disable") || str_eq(kind, "uninstall") || str_eq(kind, "upgrade") || str_eq(
        kind,
        "rollback",
    ) || str_eq(kind, "project_teardown") || str_eq(kind, "shutdown")
}

pub open spec fn desired_state_ok(v: Seq<char>) -> bool {
    v == "disabled"@ || v == "enabled"@ || v == "uninstalled"@
}

pub fn validate_desired_state(value: &str) -> (r: Result<String, LifecycleError>)
    ensures
        desired_state_ok(value@) ==> (r matches Ok(s) && s@ == value@),
        !desired_state_ok(value@) ==> r == Err::<String, LifecycleError>(
            LifecycleError::UnsupportedDesiredState,
        ),
{
    if str_eq(value, "disabled") || str_eq(value, "enabled") || str_eq(value, "uninstalled") {
        Ok(owned(value))
    } else {
        Err(LifecycleError::UnsupportedDesiredState)
    }
}

pub open spec fn observed_state_ok(v: Seq<char>) -> bool {
    ||| v == "discovered"@
    ||| v == "disabled"@
    ||| v == "resolving"@
    ||| v == "activating"@
    ||| v == "active"@
    ||| v == "quiescing"@
    ||| v == "disposing"@
    ||| v == "stopped"@
    ||| v == "crashed"@
    ||| v == "update_pending"@
    ||| v == "rollback_pending"@
    ||| v == "uninstalled"@
    ||| v == "blocked"@
}

pub fn validate_observed_state(value: &str) -> (r: Result<(), LifecycleError>)
    ensures
        observed_state_ok(value@) ==> r is Ok,
        !observed_state_ok(value@) ==> r == Err::<(), LifecycleError>(
            LifecycleError::UnsupportedObservedState,
        ),
{
    if str_eq(value, "discovered") || str_eq(value, "disabled") || str_eq(value, "resolving")
        || str_eq(value, "activating") || str_eq(value, "active") || str_eq(value, "quiescing")
        || str_eq(value, "disposing") || str_eq(value, "stopped") || str_eq(value, "crashed")
        || str_eq(value, "update_pending") || str_eq(value, "rollback_pending") || str_eq(
        value,
        "uninstalled",
    ) || str_eq(value, "blocked") {
        Ok(())
    } else {
        Err(LifecycleError::UnsupportedObservedState)
    }
}

pub open spec fn transition_status_ok(v: Seq<char>) -> bool {
    ||| v == "pending"@
    ||| v == "running"@
    ||| v == "completed"@
    ||| v == "failed"@
    ||| v == "cancelled"@
    ||| v == "completion_uncertain"@
}

pub fn validate_transition_status(value: &str) -> (r: Result<(), LifecycleError>)
    ensures
        transition_status_ok(value@) ==> r is Ok,
        !transition_status_ok(value@) ==> r == Err::<(), LifecycleError>(
            LifecycleError::UnsupportedTransitionStatus,
        ),
{
    if str_eq(value, "pending") || str_eq(value, "running") || str_eq(value, "completed") || str_eq(
        value,
        "failed",
    ) || str_eq(value, "cancelled") || str_eq(value, "completion_uncertain") {
        Ok(())
    } else {
        Err(LifecycleError::UnsupportedTransitionStatus)
    }
}

/// A transition that completed, failed or was cancelled is over.
pub open spec fn terminal_status(v: Seq<char>) -> bool {
    v == "completed"@ || v == "failed"@ || v == "cancelled"@
}

/// A transition that is pending, running or uncertain holds the plugin.
pub open spec fn active_status(v: Seq<char>) -> bool {
    v == "pending"@ || v == "running"@ || v == "completion_uncertain"@
}

pub fn is_terminal_transition_status(value: &str) -> (r: bool)
    ensures
        r == terminal_status(value@),
{
    str_eq(value, "completed") || str_eq(value, "failed") || str_eq(value, "cancelled")
}

pub fn is_active_transition_status(value: &str) -> (r: bool)
    ensures
        r == active_status(value@),
{
    str_eq(value, "pending") || str_eq(value, "running") || str_eq(value, "completion_uncertain")
}

pub open spec fn event_type_ok(v: Seq<char>) -> bool {
    ||| v == "discovery"@
    ||| v == "user_requested"@
    ||| v == "preflight"@
    ||| v == "grant_state"@
    ||| v == "activation"@
    ||| v == "routing_published"@
    ||| v == "call_drain"@
    ||| v == "call_cancelled"@
    ||| v == "handles_revoked"@
    ||| v == "contributions_disposed"@
    ||| v == "host_disposed"@
    ||| v == "host_quarantined"@
    ||| v == "package_backed_up"@
    ||| v == "pointer_cas"@
    ||| v == "rollback"@
    ||| v == "recovery"@
    ||| v == "transition_completed"@
    ||| v == "transition_failed"@
}

pub fn validate_event_type(value: &str) -> (r: Result<(), LifecycleError>)
    ensures
        event_type_ok(value@) ==> r is Ok,
        !event_type_ok(value@) ==> r == Err::<(), LifecycleError>(
            LifecycleError::UnsupportedEventType,
        ),
{
    if str_eq(value, "discovery") || str_eq(value, "user_requested") || str_eq(value, "preflight")
        || str_eq(value, "grant_state") || str_eq(value, "activation") || str_eq(
        value,
        "routing_published",
    ) || str_eq(value, "call_drain") || str_eq(value, "call_cancelled") || str_eq(
        value,
        "handles_revoked",
    ) || str_eq(value, "contributions_disposed") || str_eq(value, "host_disposed") || str_eq(
        value,
        "host_quarantined",
    ) || str_eq(value, "package_backed_up") || str_eq(value, "pointer_cas") || str_eq(
        value,
        "rollback",
    ) || str_eq(value, "recovery") || str_eq(value, "transition_completed") || str_eq(
        value,
        "transition_failed",
    ) {
        Ok(())
    } else {
        Err(LifecycleError::UnsupportedEventType)
    }
}

pub open spec fn event_status_ok(v: Seq<char>) -> bool {
    ||| v == "pending"@
    ||| v == "completed"@
    ||| v == "failed"@
    ||| v == "cancelled"@
    ||| v == "stale"@
    ||| v == "uncertain"@
}

pub fn validate_event_status(value: &str) -> (r: Result<(), LifecycleError>)
    ensures
        event_status_ok(value@) ==> r is Ok,
        !event_status_ok(value@) ==> r == Err::<(), LifecycleError>(
            LifecycleError::UnsupportedEventStatus,
        ),
{
    if str_eq(value, "pending") || str_eq(value, "completed") || str_eq(value, "failed") || str_eq(
        value,
        "cancelled",
    ) || str_eq(value, "stale") || str_eq(value, "uncertain") {
        Ok(())
    } else {
        Err(LifecycleError::UnsupportedEventStatus)
    }
}

} // verus!

verus! {

// ---------------------------------------------------------------------------
// Records.
// ---------------------------------------------------------------------------

pub open spec fn ident_problem(v: Seq<char>, label: LifecycleLabel) -> Option<LifecycleError> {
    if identifier_ok(trim(v)) {
        None
    } else {
        Some(LifecycleError::InvalidIdentifier(label))
    }
}

pub open spec fn opt_ident_problem(v: Option<String>, label: LifecycleLabel) -> Option<LifecycleError> {
    match v {
        Some(x) => ident_problem(x@, label),
        None => None,
    }
}

pub open spec fn digest_problem(v: Seq<char>, label: LifecycleLabel) -> Option<LifecycleError> {
    if digest_ok(v) {
        None
    } else {
        Some(LifecycleError::InvalidDigest(label))
    }
}

pub open spec fn opt_digest_problem(v: Option<String>, label: LifecycleLabel) -> Option<LifecycleError> {
    match v {
        Some(x) => digest_problem(x@, label),
        None => None,
    }
}

/// The trimmed form of an optional identifier.
pub open spec fn opt_trimmed(v: Option<String>) -> Option<Seq<char>> {
    match v {
        Some(x) => Some(trim(x@)),
        None => None,
    }
}

pub open spec fn version_ok(v: Seq<char>) -> bool {
    vstd::utf8::encode_utf8(trim(v)).len() <= MAX_IDENTIFIER_BYTES && semver_version_parses(trim(v))
}

/// The first problem of a discovery record; the project root is checked by the store.
pub open spec fn discovered_problem(d: WorkspacePluginDiscoveredDraft) -> Option<LifecycleError> {
    if ident_problem(d.plugin_id@, LifecycleLabel::PluginId) is Some {
        ident_problem(d.plugin_id@, LifecycleLabel::PluginId)
    } else if !directory_name_ok(trim(d.directory_name@)) {
        Some(LifecycleError::InvalidDirectoryComponent)
    } else if !version_ok(d.plugin_version@) {
        Some(LifecycleError::VersionNotSemantic)
    } else if d.runtime_kind@ != "wasm"@ {
        Some(LifecycleError::RuntimeNotWasm)
    } else {
        digest_problem(d.discovered_digest@, LifecycleLabel::DiscoveredDigest)
    }
}

/// A discovery record in its stored form: names trimmed.
pub fn validate_discovered(draft: &WorkspacePluginDiscoveredDraft) -> (r: Result<
    WorkspacePluginDiscoveredDraft,
    LifecycleError,
>)
    ensures
        match discovered_problem(*draft) {
            Some(e) => r == Err::<WorkspacePluginDiscoveredDraft, LifecycleError>(e),
            None => r matches Ok(x) && x.project_root == draft.project_root && x.plugin_id@ == trim(
                draft.plugin_id@,
            ) && x.directory_name@ == trim(draft.directory_name@) && x.plugin_version@ == trim(
                draft.plugin_version@,
            ) && x.runtime_kind@ == draft.runtime_kind@ && x.discovered_digest@
                == draft.discovered_digest@,
        },
{
    let plugin_id = match validate_identifier(draft.plugin_id.as_str(), LifecycleLabel::PluginId) {
        Err(e) => {
            return Err(e);
        },
        Ok(v) => v,
    };
    let directory_name = match validate_directory_name(draft.directory_name.as_str()) {
        Err(e) => {
            return Err(e);
        },
        Ok(v) => v,
    };
    let plugin_version = match validate_version(draft.plugin_version.as_str()) {
        Err(e) => {
            return Err(e);
        },
        Ok(v) => v,
    };
    let runtime_kind = match validate_runtime_kind(draft.runtime_kind.as_str()) {
        Err(e) => {
            return Err(e);
        },
        Ok(v) => v,
    };
    let discovered_digest = match validate_digest(
        draft.discovered_digest.as_str(),
        LifecycleLabel::DiscoveredDigest,
    ) {
        Err(e) => {
            return Err(e);
        },
        Ok(v) => v,
    };
    Ok(
        WorkspacePluginDiscoveredDraft {
            project_root: draft.project_root.clone(),
            plugin_id,
            directory_name,
            plugin_version,
            runtime_kind,
            discovered_digest,
        },
    )
}

pub open spec fn kind_needs_candidate(k: Seq<char>) -> bool {
    k == "enable"@ || k == "retry"@
}

pub open spec fn kind_needs_both(k: Seq<char>) -> bool {
    k == "upgrade"@ || k == "rollback"@
}

/// The first problem of a transition request; the project root is checked by the store.
pub open spec fn transition_draft_problem(d: WorkspacePluginTransitionDraft) -> Option<LifecycleError> {
    if !transition_kind_ok(d.kind@) {
        Some(LifecycleError::UnsupportedTransitionKind)
    } else if !desired_state_ok(d.desired_state@) {
        Some(LifecycleError::UnsupportedDesiredState)
    } else if d.desired_state@ != desired_state_for(d.kind@) {
        Some(LifecycleError::DesiredStateMismatch)
    } else if opt_digest_problem(d.expected_old_digest, LifecycleLabel::ExpectedOldDigest) is Some {
        opt_digest_problem(d.expected_old_digest, LifecycleLabel::ExpectedOldDigest)
    } else if opt_digest_problem(d.candidate_digest, LifecycleLabel::CandidateDigest) is Some {
        opt_digest_problem(d.candidate_digest, LifecycleLabel::CandidateDigest)
    } else if opt_digest_problem(d.rollback_digest, LifecycleLabel::RollbackDigest) is Some {
        opt_digest_problem(d.rollback_digest, LifecycleLabel::RollbackDigest)
    } else if kind_needs_candidate(d.kind@) && d.candidate_digest is None {
        Some(LifecycleError::CandidateDigestRequired)
    } else if kind_needs_both(d.kind@) && (d.expected_old_digest is None || d.candidate_digest is None) {
        Some(LifecycleError::ExpectedAndCandidateRequired)
    } else if d.expected_old_digest is Some && opt_view(d.expected_old_digest) == opt_view(
        d.candidate_digest,
    ) {
        Some(LifecycleError::CandidateEqualsExpected)
    } else if ident_problem(d.transition_id@, LifecycleLabel::TransitionId) is Some {
        ident_problem(d.transition_id@, LifecycleLabel::TransitionId)
    } else if ident_problem(d.plugin_id@, LifecycleLabel::PluginId) is Some {
        ident_problem(d.plugin_id@, LifecycleLabel::PluginId)
    } else {
        opt_ident_problem(d.backup_path_key, LifecycleLabel::OpaqueBackupKey)
    }
}

/// A transition request in its stored form.
pub open spec fn stored_transition_draft(
    x: WorkspacePluginTransitionDraft,
    d: WorkspacePluginTransitionDraft,
) -> bool {
    &&& x.transition_id@ == trim(d.transition_id@)
    &&& x.project_root == d.project_root
    &&& x.plugin_id@ == trim(d.plugin_id@)
    &&& x.kind@ == d.kind@
    &&& x.desired_state@ == d.desired_state@
    &&& opt_view(x.expected_old_digest) == opt_view(d.expected_old_digest)
    &&& opt_view(x.candidate_digest) == opt_view(d.candidate_digest)
    &&& opt_view(x.rollback_digest) == opt_view(d.rollback_digest)
    &&& opt_view(x.backup_path_key) == opt_trimmed(d.backup_path_key)
}

/// A transition request that validates names a real change: an expected old
/// package and a candidate are never the same digest; an enable or retry
/// names its candidate; an upgrade or rollback names both the package it
/// replaces and its candidate. Its kind is one of the eight known ones, and
/// its desired state is the one the kind leads to: enabled for enable, retry,
/// upgrade and rollback; uninstalled for uninstall; disabled for disable,
/// project teardown and shutdown.
pub proof fn law_accepted_transition_is_a_real_change(d: WorkspacePluginTransitionDraft)
    requires
        transition_draft_problem(d) is None,
    ensures
        d.expected_old_digest is Some ==> opt_view(d.candidate_digest) != opt_view(
            d.expected_old_digest,
        ),
        (d.kind@ == "enable"@ || d.kind@ == "retry"@) ==> d.candidate_digest is Some,
        (d.kind@ == "upgrade"@ || d.kind@ == "rollback"@) ==> d.candidate_digest is Some
            && d.expected_old_digest is Some,
        d.kind@ == "enable"@ || d.kind@ == "disable"@ || d.kind@ == "uninstall"@ || d.kind@
            == "retry"@ || d.kind@ == "upgrade"@ || d.kind@ == "rollback"@ || d.kind@
            == "project_teardown"@ || d.kind@ == "shutdown"@,
        (d.kind@ == "enable"@ || d.kind@ == "retry"@ || d.kind@ == "upgrade"@ || d.kind@
            == "rollback"@) ==> d.desired_state@ == "enabled"@,
        d.kind@ == "uninstall"@ ==> d.desired_state@ == "uninstalled"@,
        (d.kind@ == "disable"@ || d.kind@ == "project_teardown"@ || d.kind@ == "shutdown"@)
            ==> d.desired_state@ == "disabled"@,
{
    reveal_strlit("enable");
    reveal_strlit("disable");
    reveal_strlit("uninstall");
    reveal_strlit("retry");
    reveal_strlit("upgrade");
    reveal_strlit("rollback");
    reveal_strlit("project_teardown");
    reveal_strlit("shutdown");
    let k = d.kind@;
    if k == "uninstall"@ || k == "disable"@ || k == "project_teardown"@ || k == "shutdown"@ {
        assert(k != "enable"@ && k != "retry"@ && k != "rollback"@ && k != "upgrade"@) by {
            if k == "enable"@ {
                assert(k[0] == 'e');
            }
            if k == "retry"@ {
                assert(k[0] == 'r');
            }
            if k == "rollback"@ {
                assert(k[0] == 'r');
            }
            if k == "upgrade"@ {
                assert(k[0] == 'u' && k[1] == 'p');
                assert(k.len() == 7);
            }
        }
    }
    if k == "disable"@ || k == "project_teardown"@ || k == "shutdown"@ {
        assert(k != "uninstall"@) by {
            if k == "uninstall"@ {
                assert(k[0] == 'u');
            }
        }
    }
}

pub fn validate_transition_draft(draft: &WorkspacePluginTransitionDraft) -> (r: Result<
    WorkspacePluginTransitionDraft,
    LifecycleError,
>)
    ensures
        match transition_draft_problem(*draft) {
            Some(e) => r == Err::<WorkspacePluginTransitionDraft, LifecycleError>(e),
            None => r matches Ok(x) && stored_transition_draft(x, *draft),
        },
        r matches Ok(x) ==> (x.expected_old_digest is Some ==> opt_view(x.candidate_digest)
            != opt_view(x.expected_old_digest)),
        draft.expected_old_digest is Some && opt_view(draft.expected_old_digest) == opt_view(
            draft.candidate_digest,
        ) ==> r is Err,
{
    let kind = match validate_transition_kind(draft.kind.as_str()) {
        Err(e) => {
            return Err(e);
        },
        Ok(v) => v,
    };
    let desired_state = match validate_desired_state(draft.desired_state.as_str()) {
        Err(e) => {
            return Err(e);
        },
        Ok(v) => v,
    };
    let expected_desired = desired_state_for_kind(kind.as_str());
    if !str_eq(desired_state.as_str(), expected_desired) {
        return Err(LifecycleError::DesiredStateMismatch);
    }
    let expected_old_digest = match validate_optional_digest(
        &draft.expected_old_digest,
        LifecycleLabel::ExpectedOldDigest,
    ) {
        Err(e) => {
            return Err(e);
        },
        Ok(v) => v,
    };
    let candidate_digest = match validate_optional_digest(
        &draft.candidate_digest,
        LifecycleLabel::CandidateDigest,
    ) {
        Err(e) => {
            return Err(e);
        },
        Ok(v) => v,
    };
    let rollback_digest = match validate_optional_digest(
        &draft.rollback_digest,
        LifecycleLabel::RollbackDigest,
    ) {
        Err(e) => {
            return Err(e);
        },
        Ok(v) => v,
    };
    if (str_eq(kind.as_str(), "enable") || str_eq(kind.as_str(), "retry"))
        && candidate_digest.is_none() {
        return Err(LifecycleError::CandidateDigestRequired);
    }
    if (str_eq(kind.as_str(), "upgrade") || str_eq(kind.as_str(), "rollback")) && (
    expected_old_digest.is_none() || candidate_digest.is_none()) {
        return Err(LifecycleError::ExpectedAndCandidateRequired);
    }
    if expected_old_digest.is_some() && opt_eq(&expected_old_digest, &candidate_digest) {
        return Err(LifecycleError::CandidateEqualsExpected);
    }
    let transition_id = match validate_identifier(
        draft.transition_id.as_str(),
        LifecycleLabel::TransitionId,
    ) {
        Err(e) => {
            return Err(e);
        },
        Ok(v) => v,
    };
    let plugin_id = match validate_identifier(draft.plugin_id.as_str(), LifecycleLabel::PluginId) {
        Err(e) => {
            return Err(e);
        },
        Ok(v) => v,
    };
    let backup_path_key = match &draft.backup_path_key {
        None => None,
        Some(k) => match validate_opaque_key(k.as_str()) {
            Err(e) => {
                return Err(e);
            },
            Ok(v) => Some(v),
        },
    };
    Ok(
        WorkspacePluginTransitionDraft {
            transition_id,
            project_root: draft.project_root.clone(),
            plugin_id,
            kind,
            desired_state,
            expected_old_digest,
            candidate_digest,
            rollback_digest,
            backup_path_key,
        },
    )
}

/// The first problem of an advance, before its details are checked; the
/// project root is checked by the store.
pub open spec fn advance_problem(d: WorkspacePluginTransitionAdvance) -> Option<LifecycleError> {
    if ident_problem(d.transition_id@, LifecycleLabel::TransitionId) is Some {
        ident_problem(d.transition_id@, LifecycleLabel::TransitionId)
    } else if phase_rank_spec(d.expected_phase@) is None || phase_rank_spec(d.next_phase@) is None {
        Some(LifecycleError::UnsupportedPhase)
    } else if !transition_status_ok(d.status@) {
        Some(LifecycleError::UnsupportedTransitionStatus)
    } else if terminal_status(d.status@) != (d.next_phase@ == "completed"@) {
        Some(LifecycleError::TerminalRequiresCompleted)
    } else if !observed_state_ok(d.observed_state@) {
        Some(LifecycleError::UnsupportedObservedState)
    } else if !event_type_ok(d.event_type@) {
        Some(LifecycleError::UnsupportedEventType)
    } else if !event_status_ok(d.event_status@) {
        Some(LifecycleError::UnsupportedEventStatus)
    } else if opt_ident_problem(d.reason_code, LifecycleLabel::ReasonCode) is Some {
        opt_ident_problem(d.reason_code, LifecycleLabel::ReasonCode)
    } else if opt_ident_problem(d.last_error_code, LifecycleLabel::ErrorCode) is Some {
        opt_ident_problem(d.last_error_code, LifecycleLabel::ErrorCode)
    } else if opt_ident_problem(d.last_host_session_id, LifecycleLabel::HostSessionId) is Some {
        opt_ident_problem(d.last_host_session_id, LifecycleLabel::HostSessionId)
    } else if opt_digest_problem(d.accepted_digest, LifecycleLabel::AcceptedDigest) is Some {
        opt_digest_problem(d.accepted_digest, LifecycleLabel::AcceptedDigest)
    } else if opt_digest_problem(d.pending_digest, LifecycleLabel::PendingDigest) is Some {
        opt_digest_problem(d.pending_digest, LifecycleLabel::PendingDigest)
    } else if opt_digest_problem(d.rollback_digest, LifecycleLabel::RollbackDigest) is Some {
        opt_digest_problem(d.rollback_digest, LifecycleLabel::RollbackDigest)
    } else {
        details_problem(d.details_json@)
    }
}

pub open spec fn stored_advance(x: WorkspacePluginTransitionAdvance, d: WorkspacePluginTransitionAdvance) -> bool {
    &&& x.project_root == d.project_root
    &&& x.transition_id@ == trim(d.transition_id@)
    &&& x.expected_phase == d.expected_phase
    &&& x.next_phase == d.next_phase
    &&& x.status == d.status
    &&& x.observed_state == d.observed_state
    &&& opt_view(x.accepted_digest) == opt_view(d.accepted_digest)
    &&& opt_view(x.pending_digest) == opt_view(d.pending_digest)
    &&& opt_view(x.rollback_digest) == opt_view(d.rollback_digest)
    &&& x.clear_pending_digest == d.clear_pending_digest
    &&& opt_view(x.last_host_session_id) == opt_trimmed(d.last_host_session_id)
    &&& opt_view(x.last_error_code) == opt_trimmed(d.last_error_code)
    &&& opt_view(x.reason_code) == opt_trimmed(d.reason_code)
    &&& x.event_type == d.event_type
    &&& x.event_status == d.event_status
    &&& x.details_json@ == json_compact_text(d.details_json@)
}

/// An advance in its stored form, with its details in compact form.
pub fn validate_transition_advance(draft: &WorkspacePluginTransitionAdvance) -> (r: Result<
    WorkspacePluginTransitionAdvance,
    LifecycleError,
>)
    ensures
        match advance_problem(*draft) {
            Some(e) => r == Err::<WorkspacePluginTransitionAdvance, LifecycleError>(e),
            None => r matches Ok(x) && stored_advance(x, *draft),
        },
{
    let transition_id = match validate_identifier(
        draft.transition_id.as_str(),
        LifecycleLabel::TransitionId,
    ) {
        Err(e) => {
            return Err(e);
        },
        Ok(v) => v,
    };
    if phase_rank(draft.expected_phase.as_str()).is_err() {
        return Err(LifecycleError::UnsupportedPhase);
    }
    if phase_rank(draft.next_phase.as_str()).is_err() {
        return Err(LifecycleError::UnsupportedPhase);
    }
    if validate_transition_status(draft.status.as_str()).is_err() {
        return Err(LifecycleError::UnsupportedTransitionStatus);
    }
    if is_terminal_transition_status(draft.status.as_str()) != str_eq(
        draft.next_phase.as_str(),
        "completed",
    ) {
        return Err(LifecycleError::TerminalRequiresCompleted);
    }
    if validate_observed_state(draft.observed_state.as_str()).is_err() {
        return Err(LifecycleError::UnsupportedObservedState);
    }
    if validate_event_type(draft.event_type.as_str()).is_err() {
        return Err(LifecycleError::UnsupportedEventType);
    }
    if validate_event_status(draft.event_status.as_str()).is_err() {
        return Err(LifecycleError::UnsupportedEventStatus);
    }
    let reason_code = match validate_optional_identifier(
        &draft.reason_code,
        LifecycleLabel::ReasonCode,
    ) {
        Err(e) => {
            return Err(e);
        },
        Ok(v) => v,
    };
    let last_error_code = match validate_optional_identifier(
        &draft.last_error_code,
        LifecycleLabel::ErrorCode,
    ) {
        Err(e) => {
            return Err(e);
        },
        Ok(v) => v,
    };
    let last_host_session_id = match validate_optional_identifier(
        &draft.last_host_session_id,
        LifecycleLabel::HostSessionId,
    ) {
        Err(e) => {
            return Err(e);
        },
        Ok(v) => v,
    };
    let accepted_digest = match validate_optional_digest(
        &draft.accepted_digest,
        LifecycleLabel::AcceptedDigest,
    ) {
        Err(e) => {
            return Err(e);
        },
        Ok(v) => v,
    };
    let pending_digest = match validate_optional_digest(
        &draft.pending_digest,
        LifecycleLabel::PendingDigest,
    ) {
        Err(e) => {
            return Err(e);
        },
        Ok(v) => v,
    };
    let rollback_digest = match validate_optional_digest(
        &draft.rollback_digest,
        LifecycleLabel::RollbackDigest,
    ) {
        Err(e) => {
            return Err(e);
        },
        Ok(v) => v,
    };
    let details_json = match validate_details_json(draft.details_json.as_str()) {
        Err(e) => {
            return Err(e);
        },
        Ok(v) => v,
    };
    Ok(
        WorkspacePluginTransitionAdvance {
            project_root: draft.project_root.clone(),
            transition_id,
            expected_phase: draft.expected_phase.clone(),
            next_phase: draft.next_phase.clone(),
            status: draft.status.clone(),
            observed_state: draft.observed_state.clone(),
            accepted_digest,
            pending_digest,
            rollback_digest,
            clear_pending_digest: draft.clear_pending_digest,
            last_host_session_id,
            last_error_code,
            reason_code,
            event_type: draft.event_type.clone(),
            event_status: draft.event_status.clone(),
            details_json,
        },
    )
}

pub open spec fn retention_class_ok(v: Seq<char>) -> bool {
    v == "recoverable"@ || v == "expired"@ || v == "purge_pending"@
}

/// The first problem of a tombstone record; the project root is checked by the store.
pub open spec fn tombstone_problem(d: WorkspacePluginTombstoneDraft) -> Option<LifecycleError> {
    if !retention_class_ok(d.retention_class@) {
        Some(LifecycleError::UnsupportedRetentionClass)
    } else if ident_problem(d.tombstone_id@, LifecycleLabel::TombstoneId) is Some {
        ident_problem(d.tombstone_id@, LifecycleLabel::TombstoneId)
    } else if ident_problem(d.plugin_id@, LifecycleLabel::PluginId) is Some {
        ident_problem(d.plugin_id@, LifecycleLabel::PluginId)
    } else if digest_problem(d.package_digest@, LifecycleLabel::PackageDigest) is Some {
        digest_problem(d.package_digest@, LifecycleLabel::PackageDigest)
    } else if ident_problem(d.backup_path_key@, LifecycleLabel::OpaqueBackupKey) is Some {
        ident_problem(d.backup_path_key@, LifecycleLabel::OpaqueBackupKey)
    } else if !directory_name_ok(trim(d.original_directory_name@)) {
        Some(LifecycleError::InvalidDirectoryComponent)
    } else {
        ident_problem(d.reason_code@, LifecycleLabel::ReasonCode)
    }
}

pub fn validate_tombstone(draft: &WorkspacePluginTombstoneDraft) -> (r: Result<
    WorkspacePluginTombstoneDraft,
    LifecycleError,
>)
    ensures
        match tombstone_problem(*draft) {
            Some(e) => r == Err::<WorkspacePluginTombstoneDraft, LifecycleError>(e),
            None => r matches Ok(x) && x.tombstone_id@ == trim(draft.tombstone_id@)
                && x.project_root == draft.project_root && x.plugin_id@ == trim(draft.plugin_id@)
                && x.package_digest@ == draft.package_digest@ && x.backup_path_key@ == trim(
                draft.backup_path_key@,
            ) && x.original_directory_name@ == trim(draft.original_directory_name@)
                && x.retention_class == draft.retention_class && x.reason_code@ == trim(
                draft.reason_code@,
            ),
        },
{
    let rc = draft.retention_class.as_str();
    if !(str_eq(rc, "recoverable") || str_eq(rc, "expired") || str_eq(rc, "purge_pending")) {
        return Err(LifecycleError::UnsupportedRetentionClass);
    }
    let tombstone_id = match validate_identifier(
        draft.tombstone_id.as_str(),
        LifecycleLabel::TombstoneId,
    ) {
        Err(e) => {
            return Err(e);
        },
        Ok(v) => v,
    };
    let plugin_id = match validate_identifier(draft.plugin_id.as_str(), LifecycleLabel::PluginId) {
        Err(e) => {
            return Err(e);
        },
        Ok(v) => v,
    };
    let package_digest = match validate_digest(
        draft.package_digest.as_str(),
        LifecycleLabel::PackageDigest,
    ) {
        Err(e) => {
            return Err(e);
        },
        Ok(v) => v,
    };
    let backup_path_key = match validate_opaque_key(draft.backup_path_key.as_str()) {
        Err(e) => {
            return Err(e);
        },
        Ok(v) => v,
    };
    let original_directory_name = match validate_directory_name(
        draft.original_directory_name.as_str(),
    ) {
        Err(e) => {
            return Err(e);
        },
        Ok(v) => v,
    };
    let reason_code = match validate_identifier(draft.reason_code.as_str(), LifecycleLabel::ReasonCode) {
        Err(e) => {
            return Err(e);
        },
        Ok(v) => v,
    };
    Ok(
        WorkspacePluginTombstoneDraft {
            tombstone_id,
            project_root: draft.project_root.clone(),
            plugin_id,
            package_digest,
            backup_path_key,
            original_directory_name,
            retention_class: draft.retention_class.clone(),
            reason_code,
        },
    )
}

} // verus!
