//! The records the broker keeps of its runs and agent turns, and the rules the
//! store applies to them: how a run's code is previewed, which runs are still
//! active, what a cancellation request and a restart do to them, and how many
//! rows a listing returns.
use vstd::prelude::*;

use crate::startup::{lines, split_lines};
use crate::text::{chars_of, owned, slice_chars, string_from_chars, trim, trim_chars};

verus! {

/// Rows a listing returns when the caller names no limit.
pub const DEFAULT_LIMIT: usize = 50;

/// Characters of a run's first line shown in its preview.
pub const PREVIEW_CHARS: usize = 80;

#[derive(Debug, Clone)]
pub struct RunDraft {
    pub run_id: String,
    pub parent_run_id: Option<String>,
    pub origin: String,
    pub request_type: String,
    pub operation_class: String,
    pub code: String,
    pub arguments_json: String,
    pub source_path: Option<String>,
    pub execution_mode: Option<String>,
    pub document_version: Option<i64>,
    pub workspace_id: String,
    pub state_revision_before: i64,
    pub project_revision_before: i64,
}

#[derive(Debug, Clone)]
pub struct RunFinish {
    pub run_id: String,
    pub status: String,
    pub terminal_reason: Option<String>,
    pub workspace_id: Option<String>,
    pub state_revision_after: Option<i64>,
    pub project_revision_after: Option<i64>,
    pub stdout: Option<String>,
    pub value_text: Option<String>,
    pub messages: Vec<String>,
    pub warnings: Vec<String>,
    pub error_message: Option<String>,
    pub error_call: Option<String>,
    pub traceback: Vec<String>,
}

#[derive(Debug, Clone)]
pub struct RunSummary {
    pub run_id: String,
    pub parent_run_id: Option<String>,
    pub origin: String,
    pub status: String,
    pub started_at: String,
    pub finished_at: Option<String>,
    pub terminal_reason: Option<String>,
    pub request_type: String,
    pub operation_class: String,
    pub source_path: Option<String>,
    pub execution_mode: Option<String>,
    pub document_version: Option<i64>,
    pub workspace_id: Option<String>,
    pub state_revision_before: Option<i64>,
    pub project_revision_before: Option<i64>,
    pub state_revision_after: Option<i64>,
    pub project_revision_after: Option<i64>,
    pub code_preview: String,
    pub error_message: Option<String>,
}

#[derive(Debug, Clone)]
pub struct ProblemSummary {
    pub run_id: String,
    pub parent_run_id: Option<String>,
    pub origin: String,
    pub status: String,
    pub message: String,
    pub call: Option<String>,
    pub traceback: Vec<String>,
    pub source_path: Option<String>,
    pub execution_mode: Option<String>,
    pub document_version: Option<i64>,
    pub workspace_id: Option<String>,
    pub started_at: String,
    pub finished_at: Option<String>,
}

#[derive(Debug, Clone)]
pub struct RunDetail {
    pub run_id: String,
    pub parent_run_id: Option<String>,
    pub origin: String,
    pub status: String,
    pub started_at: String,
    pub finished_at: Option<String>,
    pub terminal_reason: Option<String>,
    pub request_type: String,
    pub operation_class: String,
    pub code: String,
    pub arguments_json: String,
    pub source_path: Option<String>,
    pub execution_mode: Option<String>,
    pub document_version: Option<i64>,
    pub workspace_id: Option<String>,
    pub state_revision_before: Option<i64>,
    pub project_revision_before: Option<i64>,
    pub state_revision_after: Option<i64>,
    pub project_revision_after: Option<i64>,
    pub stdout: Option<String>,
    pub value_text: Option<String>,
    pub messages: Vec<String>,
    pub warnings: Vec<String>,
    pub error_message: Option<String>,
    pub error_call: Option<String>,
    pub traceback: Vec<String>,
}

#[derive(Debug, Clone)]
pub struct AgentConversationDraft {
    pub conversation_id: String,
    pub project_root: String,
    pub title: String,
    pub legacy_unthreaded: bool,
}

#[derive(Debug, Clone, PartialEq, Eq)]
pub struct AgentConversationSummary {
    pub conversation_id: String,
    pub project_root: String,
    pub title: String,
    pub created_at: String,
    pub updated_at: String,
    pub archived_at: Option<String>,
    pub legacy_unthreaded: bool,
    pub turn_count: i64,
    pub status: String,
    pub latest_turn_id: Option<String>,
    pub latest_mode: Option<String>,
    pub latest_prompt_preview: Option<String>,
    pub terminal_reason: Option<String>,
    pub pending_request_id: Option<String>,
}

#[derive(Debug, Clone)]
pub struct AgentTurnDraft {
    pub turn_id: String,
    pub project_root: String,
    pub mode: String,
    pub prompt: String,
    pub model: String,
    pub workspace_id: String,
    pub state_revision_before: i64,
    pub project_revision_before: i64,
}

#[derive(Debug, Clone)]
pub struct AgentTurnFinish {
    pub turn_id: String,
    pub status: String,
    pub terminal_reason: Option<String>,
    pub workspace_id_after: Option<String>,
    pub state_revision_after: Option<i64>,
    pub project_revision_after: Option<i64>,
    pub final_message: Option<String>,
    pub error_message: Option<String>,
}

#[derive(Debug, Clone)]
pub struct AgentTurnSummary {
    pub turn_id: String,
    pub conversation_id: String,
    pub project_root: String,
    pub mode: String,
    pub status: String,
    pub started_at: String,
    pub finished_at: Option<String>,
    pub prompt_preview: String,
    pub model: String,
    pub workspace_id_before: Option<String>,
    pub state_revision_before: Option<i64>,
    pub project_revision_before: Option<i64>,
    pub workspace_id_after: Option<String>,
    pub state_revision_after: Option<i64>,
    pub project_revision_after: Option<i64>,
    pub final_message: Option<String>,
    pub error_message: Option<String>,
    pub pending_request_id: Option<String>,
    pub retry_of_turn_id: Option<String>,
    pub terminal_reason: Option<String>,
}

#[derive(Debug, Clone, PartialEq)]
pub struct AgentConversationTurn {
    pub turn_id: String,
    pub mode: String,
    pub status: String,
    pub prompt: String,
    pub final_message: Option<String>,
    pub error_message: Option<String>,
    pub started_at: String,
}

#[derive(Debug, Clone)]
pub struct AgentTurnEventDraft {
    pub turn_id: String,
    pub event_type: String,
    pub title: String,
    pub body: Option<String>,
    pub status: String,
    pub tool: Option<String>,
    pub request_id: Option<String>,
    pub code: Option<String>,
    pub details_json: String,
}

#[derive(Debug, Clone)]
pub struct AgentTurnEvent {
    pub id: i64,
    pub turn_id: String,
    pub timestamp: String,
    pub event_type: String,
    pub title: String,
    pub body: Option<String>,
    pub status: String,
    pub tool: Option<String>,
    pub request_id: Option<String>,
    pub code: Option<String>,
    pub details_json: String,
}

#[derive(Debug, Clone)]
pub struct ApprovalRequestDraft {
    pub request_id: String,
    pub turn_id: String,
    pub project_root: String,
    pub tool: String,
    pub policy: String,
    pub arguments_json: String,
    pub code: Option<String>,
    pub workspace_id: String,
    pub state_revision: i64,
    pub project_revision: i64,
}

#[derive(Debug, Clone)]
pub struct ApprovalDecisionRecord {
    pub decision: String,
    pub status: String,
    pub reason: Option<String>,
    pub continuation_outcome: Option<String>,
}

#[derive(Debug, Clone)]
pub struct ApprovalRequestSummary {
    pub request_id: String,
    pub turn_id: String,
    pub project_root: String,
    pub tool: String,
    pub policy: String,
    pub status: String,
    pub decision: Option<String>,
    pub reason: Option<String>,
    pub arguments_json: String,
    pub code: Option<String>,
    pub workspace_id: Option<String>,
    pub state_revision: Option<i64>,
    pub project_revision: Option<i64>,
    pub requested_at: String,
    pub responded_at: Option<String>,
    pub continuation_outcome: Option<String>,
}

#[derive(Debug, Clone)]
pub struct AgentTurnDetail {
    pub turn: AgentTurnSummary,
    pub events: Vec<AgentTurnEvent>,
    pub approvals: Vec<ApprovalRequestSummary>,
}

// ---------------------------------------------------------------------------
// Code previews.
// ---------------------------------------------------------------------------

/// The first line, from index `i` on, with something besides whitespace.
pub open spec fn first_nonblank(ls: Seq<Seq<char>>, i: int) -> Seq<char>
    decreases ls.len() - i,
{
    if i < 0 || i >= ls.len() {
        Seq::empty()
    } else if trim(ls[i]).len() > 0 {
        ls[i]
    } else {
        first_nonblank(ls, i + 1)
    }
}

/// The preview of a run's code: its first non-blank line, trimmed, cut to 80
/// characters with `…` where longer, or `<empty>` where there is none.
pub open spec fn code_preview_spec(code: Seq<char>) -> Seq<char> {
    let t = trim(first_nonblank(lines(code), 0));
    if t.len() == 0 {
        "<empty>"@
    } else if t.len() > PREVIEW_CHARS {
        t.take(PREVIEW_CHARS as int) + "…"@
    } else {
        t
    }
}

pub fn code_preview(code: &str) -> (r: String)
    ensures
        r@ == code_preview_spec(code@),
{
    let v = chars_of(code);
    let ls = split_lines(&v);
    let ghost gl = lines(v@);
    let n = ls.len();
    let mut i: usize = 0;
    let mut first: Vec<char> = Vec::new();
    while i < n
        invariant_except_break
            n == ls@.len(),
            n == gl.len(),
            gl == lines(code@),
            forall|k: int| 0 <= k < n ==> (#[trigger] ls@[k])@ == gl[k],
            0 <= i <= n,
            first_nonblank(gl, 0) == first_nonblank(gl, i as int),
            first@ == Seq::<char>::empty(),
        ensures
            first@ == first_nonblank(gl, 0),
            gl == lines(code@),
        decreases n - i,
    {
        let t = trim_chars(&ls[i]);
        if t.len() > 0 {
            first = slice_chars(&ls[i], 0, ls[i].len());
            assert(first@ =~= gl[i as int]);
            break;
        }
        i = i + 1;
    }
    let t = trim_chars(&first);
    if t.len() == 0 {
        return owned("<empty>");
    }
    if t.len() > PREVIEW_CHARS {
        let mut p = slice_chars(&t, 0, PREVIEW_CHARS);
        let mut mark = chars_of("…");
        p.append(&mut mark);
        return string_from_chars(&p);
    }
    string_from_chars(&t)
}

// ---------------------------------------------------------------------------
// Run states.
// ---------------------------------------------------------------------------

/// Runs that have not reached an end.
pub open spec fn active_run_status(status: Seq<char>) -> bool {
    status == "queued"@ || status == "running"@ || status == "waiting"@
}

pub fn is_active_run_status(status: &str) -> (r: bool)
    ensures
        r == active_run_status(status@),
{
    crate::text::str_eq(status, "queued") || crate::text::str_eq(status, "running")
        || crate::text::str_eq(status, "waiting")
}

/// The terminal reason a restart gives a run it finds unfinished: it was
/// being cancelled, or the broker restarted under it.
pub fn restart_terminal_reason(cancel_requested: bool) -> (r: &'static str)
    ensures
        cancel_requested ==> r@ == "cancelled_during_restart"@,
        !cancel_requested ==> r@ == "broker_restart"@,
{
    if cancel_requested {
        "cancelled_during_restart"
    } else {
        "broker_restart"
    }
}

/// What a restart does to a run: an unfinished one is interrupted, with the
/// reason it gives; a finished one is left alone.
pub fn recover_run(status: &str, cancel_requested: bool) -> (r: Option<(&'static str, &'static str)>)
    ensures
        active_run_status(status@) ==> (r matches Some((s, reason)) && s@ == "interrupted"@ && (
        cancel_requested ==> reason@ == "cancelled_during_restart"@) && (!cancel_requested
            ==> reason@ == "broker_restart"@)),
        !active_run_status(status@) ==> r is None,
{
    if is_active_run_status(status) {
        Some(("interrupted", restart_terminal_reason(cancel_requested)))
    } else {
        None
    }
}

/// Recovery is done once: a run it interrupts is no longer active, so a
/// second restart leaves it alone.
pub proof fn lemma_recovery_once()
    ensures
        !active_run_status("interrupted"@),
{
    reveal_strlit("interrupted");
    reveal_strlit("queued");
    reveal_strlit("running");
    reveal_strlit("waiting");
    assert("interrupted"@.len() != "queued"@.len());
    assert("interrupted"@.len() != "running"@.len());
    assert("interrupted"@.len() != "waiting"@.len());
}

/// Whether a cancellation request applies: only to an active run.
pub fn cancel_applies(status: &str) -> (r: bool)
    ensures
        r == active_run_status(status@),
{
    is_active_run_status(status)
}

/// How many rows a listing returns.
pub fn list_limit(limit: Option<usize>) -> (r: usize)
    ensures
        r == match limit {
            Some(n) => n,
            None => DEFAULT_LIMIT,
        },
{
    match limit {
        Some(n) => n,
        None => DEFAULT_LIMIT,
    }
}

/// The store's schema version.
pub const SCHEMA_VERSION: i64 = 2;

/// A database may be opened when it records no schema version, the first
/// one, or the current one; any other version is refused and named.
pub fn check_schema_version(current: Option<i64>) -> (r: Result<(), i64>)
    ensures
        match current {
            None => r is Ok,
            Some(v) => if v == 1 || v == SCHEMA_VERSION {
                r is Ok
            } else {
                r == Err::<(), i64>(v)
            },
        },
{
    match current {
        None => Ok(()),
        Some(v) => {
            if v == 1 || v == SCHEMA_VERSION {
                Ok(())
            } else {
                Err(v)
            }
        },
    }
}

} // verus!
