//! The rules around an Agent turn: which requests may start one, when Act
//! mode may approve tools on its own, what cancelling a turn records, and how
//! an approval decision is checked and recorded when nobody waits for it.
use vstd::prelude::*;

use crate::run_store::{AgentTurnEventDraft, AgentTurnFinish, ApprovalDecisionRecord};
use crate::text::{concat, owned, str_eq, trim};

verus! {

/// Whether the Agent runtime of the running R can serve turns.
#[derive(Debug, Clone, PartialEq, Eq)]
pub struct AgentRuntimeStatus {
    pub available: bool,
    pub aisdk_version: Option<String>,
    pub error: Option<String>,
}

pub open spec fn agent_mode_ok(mode: Seq<char>) -> bool {
    mode == "ask"@ || mode == "plan"@ || mode == "act"@
}

/// Why a request may not start a turn, in the order the checks run.
pub open spec fn agent_request_problem(
    prompt: Seq<char>,
    mode: Seq<char>,
    runtime: AgentRuntimeStatus,
    turn_running: bool,
) -> Option<Seq<char>> {
    if trim(prompt).len() == 0 {
        Some("Agent prompt is empty"@)
    } else if !agent_mode_ok(mode) {
        Some("unsupported Agent mode `"@ + mode + "`"@)
    } else if !runtime.available {
        Some(
            match runtime.error {
                Some(e) => e@,
                None => "aisdk is unavailable in Agent R"@,
            },
        )
    } else if turn_running {
        Some("An Agent turn is already running"@)
    } else {
        None
    }
}

/// Checks a request to start an Agent turn.
pub fn check_agent_request(
    prompt: &str,
    mode: &str,
    runtime: &AgentRuntimeStatus,
    turn_running: bool,
) -> (r: Result<(), String>)
    ensures
        match agent_request_problem(prompt@, mode@, *runtime, turn_running) {
            Some(m) => r matches Err(e) && e@ == m,
            None => r is Ok,
        },
{
    if crate::text::str_trim(prompt).as_str().is_empty() {
        return Err(owned("Agent prompt is empty"));
    }
    if !(str_eq(mode, "ask") || str_eq(mode, "plan") || str_eq(mode, "act")) {
        let a = concat("unsupported Agent mode `", mode);
        return Err(concat(a.as_str(), "`"));
    }
    if !runtime.available {
        return Err(
            match &runtime.error {
                Some(e) => e.clone(),
                None => owned("aisdk is unavailable in Agent R"),
            },
        );
    }
    if turn_running {
        return Err(owned("An Agent turn is already running"));
    }
    Ok(())
}

/// Act mode needs a model that calls tools; the result says whether tools
/// are approved without asking, which only Act mode allows.
pub fn act_admission(mode: &str, tool_calling: &str, auto_approve: Option<bool>) -> (r: Result<
    bool,
    String,
>)
    ensures
        mode@ == "act"@ && tool_calling@ != "yes"@ ==> (r matches Err(e) && e@
            == "The selected model does not support Act mode."@),
        !(mode@ == "act"@ && tool_calling@ != "yes"@) ==> r == Ok::<bool, String>(
            auto_approve == Some(true) && mode@ == "act"@,
        ),
{
    let act = str_eq(mode, "act");
    if act && !str_eq(tool_calling, "yes") {
        return Err(owned("The selected model does not support Act mode."));
    }
    let requested = match auto_approve {
        Some(b) => b,
        None => false,
    };
    Ok(requested && act)
}

/// What cancelling a turn records: for a turn still running or waiting, the
/// cancellation event and the turn's interrupted finish at the workspace's
/// current revisions; nothing for a finished or missing turn.
pub fn cancellation_records(
    turn_id: &str,
    status: Option<&str>,
    workspace_id: &str,
    state_revision: i64,
    project_revision: i64,
) -> (r: Option<(AgentTurnEventDraft, AgentTurnFinish)>)
    ensures
        match status {
            Some(s) => s@ == "running"@ || s@ == "waiting"@,
            None => false,
        } ==> (r matches Some((ev, fin)) && ev.turn_id@ == turn_id@ && ev.event_type@
            == "agent.cancelled"@ && ev.title@ == "Agent turn cancelled"@ && (ev.body matches Some(
            b,
        ) && b@ == "The user stopped this Agent turn."@) && ev.status@ == "interrupted"@
            && ev.tool is None && ev.request_id is None && ev.code is None && ev.details_json@
            == "{}"@ && fin.turn_id@ == turn_id@ && fin.status@ == "interrupted"@
            && fin.terminal_reason is None && (fin.workspace_id_after matches Some(w) && w@
            == workspace_id@) && fin.state_revision_after == Some(state_revision)
            && fin.project_revision_after == Some(project_revision) && fin.final_message is None
            && (fin.error_message matches Some(m) && m@ == "Agent turn cancelled by the user."@)),
        !match status {
            Some(s) => s@ == "running"@ || s@ == "waiting"@,
            None => false,
        } ==> r is None,
{
    let live = match status {
        Some(s) => str_eq(s, "running") || str_eq(s, "waiting"),
        None => false,
    };
    if !live {
        return None;
    }
    let event = AgentTurnEventDraft {
        turn_id: owned(turn_id),
        event_type: owned("agent.cancelled"),
        title: owned("Agent turn cancelled"),
        body: Some(owned("The user stopped this Agent turn.")),
        status: owned("interrupted"),
        tool: None,
        request_id: None,
        code: None,
        details_json: owned("{}"),
    };
    let finish = AgentTurnFinish {
        turn_id: owned(turn_id),
        status: owned("interrupted"),
        terminal_reason: None,
        workspace_id_after: Some(owned(workspace_id)),
        state_revision_after: Some(state_revision),
        project_revision_after: Some(project_revision),
        final_message: None,
        error_message: Some(owned("Agent turn cancelled by the user.")),
    };
    Some((event, finish))
}

/// An approval decision must approve, reject or cancel.
pub fn check_approval_decision(decision: &str) -> (r: Result<(), String>)
    ensures
        (decision@ == "approve"@ || decision@ == "reject"@ || decision@ == "cancel"@) ==> r is Ok,
        !(decision@ == "approve"@ || decision@ == "reject"@ || decision@ == "cancel"@) ==> (r matches Err(
            e,
        ) && e@ == "unsupported approval decision `"@ + decision@ + "`"@),
{
    if str_eq(decision, "approve") || str_eq(decision, "reject") || str_eq(decision, "cancel") {
        Ok(())
    } else {
        let a = concat("unsupported approval decision `", decision);
        Err(concat(a.as_str(), "`"))
    }
}

/// The record a decision leaves when no Agent turn waits for it any more.
pub fn undelivered_approval_record() -> (r: ApprovalDecisionRecord)
    ensures
        r.decision@ == "cancel"@,
        r.status@ == "interrupted"@,
        r.reason matches Some(m) && m@ == "Approval channel is no longer active."@,
        r.continuation_outcome matches Some(c) && c@ == "agent_unavailable"@,
{
    ApprovalDecisionRecord {
        decision: owned("cancel"),
        status: owned("interrupted"),
        reason: Some(owned("Approval channel is no longer active.")),
        continuation_outcome: Some(owned("agent_unavailable")),
    }
}

} // verus!
