//! Agent model profiles: the provider/model catalogue the user configures, its
//! validation, its edits, and the views and runtime profiles derived from it.
use vstd::prelude::*;

use crate::text::{
    alnum, alpha, char_count, chars_of, clone_opt, concat, opt_eq, opt_view, owned, replace_char,
    replace_char_seq, str_trim, contains_exec, contains_seq, find_exec, find_from, is_ascii_alnum,
    is_ascii_alpha, lemma_find_from, lemma_trim_bounds, lower_chars, lower_seq, slice_chars,
    starts_with, starts_with_exec, str_eq, string_from_chars, trim, trim_bounds, trim_chars,
    is_ws, skip_ws, back_ws, lemma_back_ws_bounds,
};

verus! {

pub const MAX_ID_LENGTH: usize = 120;

pub const MAX_NAME_LENGTH: usize = 160;

pub const MAX_MODEL_ID_LENGTH: usize = 240;

pub const MAX_URL_LENGTH: usize = 512;

#[derive(Debug, Clone)]
pub struct AgentLlmSettings {
    pub schema_version: u32,
    pub selected_model_id: String,
    pub providers: Vec<AgentProviderProfile>,
    pub models: Vec<AgentModelProfile>,
}

#[derive(Debug, Clone)]
pub struct AgentProviderProfile {
    pub id: String,
    pub display_name: String,
    pub kind: String,
    pub registered_provider_id: Option<String>,
    pub api_key_env: Option<String>,
    pub api_key_required: bool,
    pub base_url: Option<String>,
    pub base_url_env: Option<String>,
    pub wire_api: Option<String>,
    pub disable_stream_options: Option<bool>,
}

#[derive(Debug, Clone)]
pub struct AgentModelProfile {
    pub id: String,
    pub provider_id: String,
    pub display_name: String,
    pub model_id: String,
    pub enabled: bool,
    pub capabilities: AgentModelCapabilities,
    pub last_test: Option<AgentModelTestResult>,
}

#[derive(Debug, Clone)]
pub struct AgentModelCapabilities {
    pub tool_calling: String,
    pub reasoning: String,
    pub vision_input: String,
    pub source: String,
}

#[derive(Debug, Clone)]
pub struct AgentModelTestResult {
    pub status: String,
    pub checked_at: String,
    pub latency_ms: Option<u64>,
    pub error_class: Option<String>,
    pub message: Option<String>,
}

#[derive(Debug, Clone)]
pub struct AgentConnectionTestResponse {
    pub status: String,
    pub credential_status: String,
    pub model_resolved: bool,
    pub latency_ms: Option<u64>,
    pub capabilities: AgentModelCapabilities,
    pub message: String,
    pub error_class: Option<String>,
}

#[derive(Debug, Clone)]
pub struct AgentCatalogEntry {
    pub provider: String,
    pub id: String,
    pub display_name: String,
    pub description: Option<String>,
    pub capabilities: AgentModelCapabilities,
}

#[derive(Debug, Clone)]
pub struct AgentUserEnvironInfo {
    pub path: String,
    pub source: String,
}

#[derive(Debug, Clone)]
pub struct AgentProviderProfileView {
    pub profile: AgentProviderProfile,
    pub credential_status: String,
}

#[derive(Debug, Clone)]
pub struct AgentModelProfileView {
    pub profile: AgentModelProfile,
    pub provider_display_name: String,
    pub selected: bool,
    pub selector_status: String,
    pub act_enabled: bool,
}

#[derive(Debug, Clone)]
pub struct AgentSelectedModelView {
    pub id: String,
    pub display_name: String,
    pub provider_display_name: String,
    pub selector_status: String,
    pub tool_calling: String,
    pub act_enabled: bool,
}

#[derive(Debug, Clone)]
pub struct AgentLlmSettingsView {
    pub schema_version: u32,
    pub selected_model_id: String,
    pub providers: Vec<AgentProviderProfileView>,
    pub models: Vec<AgentModelProfileView>,
    pub selected_model: Option<AgentSelectedModelView>,
    pub user_environ: AgentUserEnvironInfo,
    pub validation_error: Option<String>,
}

/// The profile handed to the Agent R runtime for one model.
#[derive(Debug, Clone, PartialEq, Eq)]
pub struct AgentRuntimeModelProfile {
    pub profile_id: String,
    pub provider_kind: String,
    pub runtime_provider_id: String,
    pub registered_provider_id: Option<String>,
    pub model_id: String,
    pub api_key_env: Option<String>,
    pub api_key_required: bool,
    pub base_url: Option<String>,
    pub base_url_env: Option<String>,
    pub wire_api: Option<String>,
    pub disable_stream_options: bool,
    pub tool_calling: String,
    pub provider_display_name: String,
    pub model_display_name: String,
}

#[derive(Debug, Clone)]
pub struct ResolvedAgentModel {
    pub effective_model_ref: String,
    pub runtime_profile: AgentRuntimeModelProfile,
    pub provider_id: String,
    pub provider_display_name: String,
    pub model_display_name: String,
}

#[derive(Debug, Clone)]
pub struct DeleteModelRequest {
    pub model_id: String,
    pub replacement_model_id: Option<String>,
}

#[derive(Debug, Default)]
pub struct AgentModelTestState {
    pub pid: Option<u32>,
    pub cancel_requested: bool,
}

/// The field a length check applies to.
#[derive(Debug, Clone, Copy, PartialEq, Eq, Structural)]
pub enum SettingsField {
    SelectedModelId,
    ProviderId,
    ProviderDisplayName,
    RegisteredProviderId,
    BaseUrl,
    ModelId,
    ProviderReference,
    ModelDisplayName,
    ProviderModelId,
}

/// Why a settings document or an edit of it was refused.
#[derive(Debug, Clone, PartialEq, Eq)]
pub enum SettingsError {
    UnsupportedSchemaVersion,
    Empty(SettingsField),
    TooLong(SettingsField),
    NoProviders,
    NoModels,
    UnsupportedProviderKind,
    RegisteredIdMissing,
    EnvNameMissing,
    EnvNameStart,
    EnvNameChars,
    BaseUrlScheme,
    BaseUrlUserInfo,
    BaseUrlSecret,
    BaseUrlConflict,
    CompatibleBaseUrlMissing,
    CompatibleWireApi,
    BuiltInBaseUrl,
    DuplicateProviderId,
    CapabilityValue,
    CapabilitySource,
    DuplicateModelId,
    UnknownModelProvider,
    SelectedModelMissing,
    SelectedModelDisabled,
    ProviderHasModels,
    UnknownProvider(String),
    UnknownModel(String),
    ReplacementRequired,
    UnknownReplacement(String),
    ReplacementDisabled,
    ReplacementSame,
    SelectedMustBeEnabled,
    UnknownAgentModel(String),
    AgentModelDisabled,
    MissingProvider(String),
    RegisteredRefMissing,
    ConfigurationChanged,
}

// ---------------------------------------------------------------------------
// The rules, as spec functions: each gives the first rule a value breaks.
// ---------------------------------------------------------------------------

pub open spec fn check(e: Option<SettingsError>) -> Result<(), SettingsError> {
    match e {
        None => Ok(()),
        Some(x) => Err(x),
    }
}

pub open spec fn opt_chars(s: Option<String>) -> Seq<char> {
    match s {
        Some(v) => v@,
        None => Seq::empty(),
    }
}

/// Non-blank and at most `max` characters.
pub open spec fn bounded_error(v: Seq<char>, field: SettingsField, max: nat) -> Option<
    SettingsError,
> {
    if trim(v).len() == 0 {
        Some(SettingsError::Empty(field))
    } else if v.len() > max {
        Some(SettingsError::TooLong(field))
    } else {
        None
    }
}

pub open spec fn supported_kind(k: Seq<char>) -> bool {
    ||| k == "registered"@
    ||| k == "openai"@
    ||| k == "anthropic"@
    ||| k == "gemini"@
    ||| k == "openai_compatible"@
    ||| k == "local_openai_compatible"@
}

pub open spec fn compatible_kind(k: Seq<char>) -> bool {
    k == "openai_compatible"@ || k == "local_openai_compatible"@
}

pub open spec fn supported_wire_api(w: Option<String>) -> bool {
    match w {
        Some(v) => v@ == "chat_completions"@ || v@ == "responses"@ || v@ == "anthropic_messages"@,
        None => false,
    }
}

pub open spec fn env_char_ok(c: char) -> bool {
    c == '_' || is_ascii_alnum(c)
}

/// An environment variable name: a letter or `_`, then letters, digits and `_`.
pub open spec fn env_name_error(value: Option<String>, required: bool) -> Option<SettingsError> {
    let v = trim(opt_chars(value));
    if v.len() == 0 {
        if required {
            Some(SettingsError::EnvNameMissing)
        } else {
            None
        }
    } else if !(v[0] == '_' || is_ascii_alpha(v[0])) {
        Some(SettingsError::EnvNameStart)
    } else if exists|i: int| 1 <= i < v.len() && !env_char_ok(#[trigger] v[i]) {
        Some(SettingsError::EnvNameChars)
    } else {
        None
    }
}

/// What follows the first `://`, or the whole value.
pub open spec fn after_scheme(v: Seq<char>) -> Seq<char> {
    match find_from(v, "://"@, 0) {
        Some(k) => v.subrange(k + 3, v.len() as int),
        None => v,
    }
}

/// The text before the first `/` after the scheme.
pub open spec fn authority(v: Seq<char>) -> Seq<char> {
    let rest = after_scheme(v);
    match find_from(rest, "/"@, 0) {
        Some(k) => rest.subrange(0, k),
        None => rest,
    }
}

pub open spec fn secret_marker(q: Seq<char>) -> bool {
    ||| contains_seq(q, "key="@)
    ||| contains_seq(q, "token="@)
    ||| contains_seq(q, "secret="@)
    ||| contains_seq(q, "password="@)
    ||| contains_seq(q, "authorization="@)
}

/// The query (after the first `?`), lower-cased, names a secret.
pub open spec fn query_has_secret(v: Seq<char>) -> bool {
    match find_from(v, "?"@, 0) {
        Some(k) => secret_marker(lower_seq(v.subrange(k + 1, v.len() as int))),
        None => false,
    }
}

pub open spec fn base_url_error(value: Option<String>) -> Option<SettingsError> {
    match value {
        None => None,
        Some(u) => {
            let v = trim(u@);
            if bounded_error(v, SettingsField::BaseUrl, MAX_URL_LENGTH as nat) is Some {
                bounded_error(v, SettingsField::BaseUrl, MAX_URL_LENGTH as nat)
            } else if !(starts_with(v, "http://"@) || starts_with(v, "https://"@)) {
                Some(SettingsError::BaseUrlScheme)
            } else if contains_seq(authority(v), "@"@) {
                Some(SettingsError::BaseUrlUserInfo)
            } else if query_has_secret(v) {
                Some(SettingsError::BaseUrlSecret)
            } else {
                None
            }
        },
    }
}

/// A base URL is accepted when, once trimmed, it is an `http://` or
/// `https://` URL within the length bound, names no user in its authority and
/// puts no secret in its query; plain `http://` serves local OpenAI-compatible
/// servers.
pub proof fn law_http_base_urls_are_accepted(u: String)
    requires
        starts_with(trim(u@), "http://"@) || starts_with(trim(u@), "https://"@),
        trim(u@).len() <= MAX_URL_LENGTH,
        !contains_seq(authority(trim(u@)), "@"@),
        !query_has_secret(trim(u@)),
    ensures
        base_url_error(Some(u)) is None,
{
    let v = trim(u@);
    reveal_strlit("http://");
    reveal_strlit("https://");
    assert(v[0] == 'h') by {
        if starts_with(v, "http://"@) {
            assert(v.subrange(0, 7) == "http://"@);
            assert(v.subrange(0, 7)[0] == v[0]);
        } else {
            assert(v.subrange(0, 8) == "https://"@);
            assert(v.subrange(0, 8)[0] == v[0]);
        }
    }
    assert(!is_ws(v[0]));
    assert(skip_ws(v, 0) == 0);
    lemma_back_ws_bounds(v, 0, v.len() as int);
    let b = back_ws(v, 0, v.len() as int);
    assert(v.len() >= 7);
    if b == 0 {
        assert(is_ws(v[0]));
    }
    assert(trim(v).len() > 0);
}

/// A base URL is refused when, once trimmed, it is too long, is not an
/// `http://` or `https://` URL, names a user in its authority, or puts a
/// secret in its query.
pub proof fn law_unsafe_base_urls_are_refused(u: String)
    ensures
        trim(u@).len() > MAX_URL_LENGTH ==> base_url_error(Some(u)) is Some,
        !(starts_with(trim(u@), "http://"@) || starts_with(trim(u@), "https://"@))
            ==> base_url_error(Some(u)) is Some,
        contains_seq(authority(trim(u@)), "@"@) ==> base_url_error(Some(u)) is Some,
        query_has_secret(trim(u@)) ==> base_url_error(Some(u)) is Some,
{
}

pub open spec fn provider_error(p: AgentProviderProfile) -> Option<SettingsError> {
    if bounded_error(p.id@, SettingsField::ProviderId, MAX_ID_LENGTH as nat) is Some {
        bounded_error(p.id@, SettingsField::ProviderId, MAX_ID_LENGTH as nat)
    } else if bounded_error(
        p.display_name@,
        SettingsField::ProviderDisplayName,
        MAX_NAME_LENGTH as nat,
    ) is Some {
        bounded_error(p.display_name@, SettingsField::ProviderDisplayName, MAX_NAME_LENGTH as nat)
    } else if !supported_kind(p.kind@) {
        Some(SettingsError::UnsupportedProviderKind)
    } else if p.kind@ == "registered"@ && p.registered_provider_id is Some && bounded_error(
        p.registered_provider_id->0@,
        SettingsField::RegisteredProviderId,
        MAX_NAME_LENGTH as nat,
    ) is Some {
        bounded_error(
            p.registered_provider_id->0@,
            SettingsField::RegisteredProviderId,
            MAX_NAME_LENGTH as nat,
        )
    } else if p.kind@ == "registered"@ && p.registered_provider_id is None {
        Some(SettingsError::RegisteredIdMissing)
    } else if env_name_error(p.api_key_env, p.api_key_required) is Some {
        env_name_error(p.api_key_env, p.api_key_required)
    } else if env_name_error(p.base_url_env, false) is Some {
        env_name_error(p.base_url_env, false)
    } else if base_url_error(p.base_url) is Some {
        base_url_error(p.base_url)
    } else if p.base_url is Some && p.base_url_env is Some {
        Some(SettingsError::BaseUrlConflict)
    } else if compatible_kind(p.kind@) {
        if !(p.base_url is Some || p.base_url_env is Some) {
            Some(SettingsError::CompatibleBaseUrlMissing)
        } else if !supported_wire_api(p.wire_api) {
            Some(SettingsError::CompatibleWireApi)
        } else {
            None
        }
    } else if p.base_url is Some || p.base_url_env is Some {
        Some(SettingsError::BuiltInBaseUrl)
    } else {
        None
    }
}

pub open spec fn capability_value_ok(v: Seq<char>) -> bool {
    v == "yes"@ || v == "no"@ || v == "unknown"@
}

pub open spec fn capability_source_ok(v: Seq<char>) -> bool {
    v == "catalog"@ || v == "declared"@ || v == "probe"@ || v == "unknown"@
}

pub open spec fn capability_error(c: AgentModelCapabilities) -> Option<SettingsError> {
    if !(capability_value_ok(c.tool_calling@) && capability_value_ok(c.reasoning@)
        && capability_value_ok(c.vision_input@)) {
        Some(SettingsError::CapabilityValue)
    } else if !capability_source_ok(c.source@) {
        Some(SettingsError::CapabilitySource)
    } else {
        None
    }
}

pub open spec fn model_error(m: AgentModelProfile) -> Option<SettingsError> {
    if bounded_error(m.id@, SettingsField::ModelId, MAX_ID_LENGTH as nat) is Some {
        bounded_error(m.id@, SettingsField::ModelId, MAX_ID_LENGTH as nat)
    } else if bounded_error(m.provider_id@, SettingsField::ProviderReference, MAX_ID_LENGTH as nat) is Some {
        bounded_error(m.provider_id@, SettingsField::ProviderReference, MAX_ID_LENGTH as nat)
    } else if bounded_error(m.display_name@, SettingsField::ModelDisplayName, MAX_NAME_LENGTH as nat) is Some {
        bounded_error(m.display_name@, SettingsField::ModelDisplayName, MAX_NAME_LENGTH as nat)
    } else if bounded_error(m.model_id@, SettingsField::ProviderModelId, MAX_MODEL_ID_LENGTH as nat) is Some {
        bounded_error(m.model_id@, SettingsField::ProviderModelId, MAX_MODEL_ID_LENGTH as nat)
    } else {
        capability_error(m.capabilities)
    }
}

/// Some provider before `i` has the id of provider `i`.
pub open spec fn provider_id_seen(ps: Seq<AgentProviderProfile>, i: int) -> bool {
    exists|j: int| 0 <= j < i && (#[trigger] ps[j]).id@ == ps[i].id@
}

pub open spec fn model_id_seen(ms: Seq<AgentModelProfile>, i: int) -> bool {
    exists|j: int| 0 <= j < i && (#[trigger] ms[j]).id@ == ms[i].id@
}

/// Some provider has the given id.
pub open spec fn has_provider(ps: Seq<AgentProviderProfile>, id: Seq<char>) -> bool {
    exists|j: int| 0 <= j < ps.len() && (#[trigger] ps[j]).id@ == id
}

/// The first error among providers `i..`: each is checked, then its id's uniqueness.
pub open spec fn provider_scan(ps: Seq<AgentProviderProfile>, i: int) -> Option<SettingsError>
    decreases ps.len() - i,
{
    if i < 0 || i >= ps.len() {
        None
    } else if provider_error(ps[i]) is Some {
        provider_error(ps[i])
    } else if provider_id_seen(ps, i) {
        Some(SettingsError::DuplicateProviderId)
    } else {
        provider_scan(ps, i + 1)
    }
}

/// The first error among models `i..`: each is checked, then its id's
/// uniqueness, then that its provider exists.
pub open spec fn model_scan(
    ms: Seq<AgentModelProfile>,
    ps: Seq<AgentProviderProfile>,
    i: int,
) -> Option<SettingsError>
    decreases ms.len() - i,
{
    if i < 0 || i >= ms.len() {
        None
    } else if model_error(ms[i]) is Some {
        model_error(ms[i])
    } else if model_id_seen(ms, i) {
        Some(SettingsError::DuplicateModelId)
    } else if !has_provider(ps, ms[i].provider_id@) {
        Some(SettingsError::UnknownModelProvider)
    } else {
        model_scan(ms, ps, i + 1)
    }
}

/// The first model at or after `i` with the given id.
pub open spec fn find_model_from(ms: Seq<AgentModelProfile>, id: Seq<char>, i: int) -> Option<
    int,
>
    decreases ms.len() - i,
{
    if i < 0 || i >= ms.len() {
        None
    } else if ms[i].id@ == id {
        Some(i)
    } else {
        find_model_from(ms, id, i + 1)
    }
}

pub open spec fn find_model(ms: Seq<AgentModelProfile>, id: Seq<char>) -> Option<int> {
    find_model_from(ms, id, 0)
}

pub open spec fn find_provider_from(ps: Seq<AgentProviderProfile>, id: Seq<char>, i: int) -> Option<
    int,
>
    decreases ps.len() - i,
{
    if i < 0 || i >= ps.len() {
        None
    } else if ps[i].id@ == id {
        Some(i)
    } else {
        find_provider_from(ps, id, i + 1)
    }
}

pub open spec fn find_provider(ps: Seq<AgentProviderProfile>, id: Seq<char>) -> Option<int> {
    find_provider_from(ps, id, 0)
}

/// The first rule a settings document breaks, if any.
pub open spec fn settings_error_of(
    schema_version: u32,
    selected: Seq<char>,
    ps: Seq<AgentProviderProfile>,
    ms: Seq<AgentModelProfile>,
) -> Option<SettingsError> {
    if schema_version != 1 {
        Some(SettingsError::UnsupportedSchemaVersion)
    } else if bounded_error(selected, SettingsField::SelectedModelId, MAX_ID_LENGTH as nat) is Some {
        bounded_error(selected, SettingsField::SelectedModelId, MAX_ID_LENGTH as nat)
    } else if ps.len() == 0 {
        Some(SettingsError::NoProviders)
    } else if ms.len() == 0 {
        Some(SettingsError::NoModels)
    } else if provider_scan(ps, 0) is Some {
        provider_scan(ps, 0)
    } else if model_scan(ms, ps, 0) is Some {
        model_scan(ms, ps, 0)
    } else {
        match find_model(ms, selected) {
            None => Some(SettingsError::SelectedModelMissing),
            Some(i) => if !ms[i].enabled {
                Some(SettingsError::SelectedModelDisabled)
            } else {
                None
            },
        }
    }
}

pub open spec fn settings_error(s: AgentLlmSettings) -> Option<SettingsError> {
    settings_error_of(s.schema_version, s.selected_model_id@, s.providers@, s.models@)
}

// ---------------------------------------------------------------------------
// Lemmas on the scans.
// ---------------------------------------------------------------------------

pub proof fn lemma_find_model_from(ms: Seq<AgentModelProfile>, id: Seq<char>, i: int)
    requires
        0 <= i,
    ensures
        find_model_from(ms, id, i) matches Some(k) ==> i <= k < ms.len() && ms[k].id@ == id
            && forall|m: int| i <= m < k ==> (#[trigger] ms[m]).id@ != id,
        find_model_from(ms, id, i) is None ==> forall|m: int|
            i <= m < ms.len() ==> (#[trigger] ms[m]).id@ != id,
    decreases ms.len() - i,
{
    if i < ms.len() && ms[i].id@ != id {
        lemma_find_model_from(ms, id, i + 1);
    }
}

pub proof fn lemma_find_provider_from(ps: Seq<AgentProviderProfile>, id: Seq<char>, i: int)
    requires
        0 <= i,
    ensures
        find_provider_from(ps, id, i) matches Some(k) ==> i <= k < ps.len() && ps[k].id@ == id
            && forall|m: int| i <= m < k ==> (#[trigger] ps[m]).id@ != id,
        find_provider_from(ps, id, i) is None ==> forall|m: int|
            i <= m < ps.len() ==> (#[trigger] ps[m]).id@ != id,
    decreases ps.len() - i,
{
    if i < ps.len() && ps[i].id@ != id {
        lemma_find_provider_from(ps, id, i + 1);
    }
}

// ---------------------------------------------------------------------------
// Checks.
// ---------------------------------------------------------------------------

pub fn validate_bounded(value: &str, field: SettingsField, max: usize) -> (r: Result<
    (),
    SettingsError,
>)
    ensures
        r == check(bounded_error(value@, field, max as nat)),
{
    let chars = chars_of(value);
    let (a, b) = trim_bounds(&chars);
    proof {
        lemma_trim_bounds(value@);
    }
    if a == b {
        return Err(SettingsError::Empty(field));
    }
    if chars.len() > max {
        return Err(SettingsError::TooLong(field));
    }
    Ok(())
}

pub fn validate_optional_bounded(value: &Option<String>, field: SettingsField, max: usize) -> (r:
    Result<(), SettingsError>)
    ensures
        r == match value {
            Some(v) => check(bounded_error(v@, field, max as nat)),
            None => Ok(()),
        },
{
    match value {
        Some(v) => validate_bounded(v.as_str(), field, max),
        None => Ok(()),
    }
}

fn opt_char_vec(value: &Option<String>) -> (r: Vec<char>)
    ensures
        r@ == opt_chars(*value),
{
    match value {
        Some(v) => chars_of(v.as_str()),
        None => Vec::new(),
    }
}

pub fn validate_env_name(value: &Option<String>, required: bool) -> (r: Result<(), SettingsError>)
    ensures
        r == check(env_name_error(*value, required)),
{
    let raw = opt_char_vec(value);
    let v = trim_chars(&raw);
    if v.len() == 0 {
        if required {
            return Err(SettingsError::EnvNameMissing);
        }
        return Ok(());
    }
    let first = v[0];
    if !(first == '_' || alpha(first)) {
        return Err(SettingsError::EnvNameStart);
    }
    let mut i: usize = 1;
    while i < v.len()
        invariant
            1 <= i <= v@.len(),
            v@ == trim(opt_chars(*value)),
            v@[0] == '_' || is_ascii_alpha(v@[0]),
            forall|k: int| 1 <= k < i ==> env_char_ok(#[trigger] v@[k]),
        decreases v.len() - i,
    {
        let c = v[i];
        if !(c == '_' || alnum(c)) {
            assert(1 <= i < v@.len() && !env_char_ok(v@[i as int]));
            assert(v@ == trim(opt_chars(*value)));
            assert(exists|k: int| 1 <= k < v@.len() && !env_char_ok(#[trigger] v@[k]));
            return Err(SettingsError::EnvNameChars);
        }
        i = i + 1;
    }
    Ok(())
}

fn query_secret(v: &Vec<char>) -> (r: bool)
    ensures
        r == query_has_secret(v@),
{
    let n = v.len();
    let q_mark = chars_of("?");
    proof {
        reveal_strlit("?");
    }
    match find_exec(v, &q_mark, 0) {
        None => false,
        Some(k) => {
            proof {
                lemma_find_from(v@, q_mark@, 0);
            }
            let tail = slice_chars(v, k + 1, v.len());
            let q = lower_chars(&tail);
            contains_exec(&q, &chars_of("key=")) || contains_exec(&q, &chars_of("token="))
                || contains_exec(&q, &chars_of("secret=")) || contains_exec(
                &q,
                &chars_of("password="),
            ) || contains_exec(&q, &chars_of("authorization="))
        },
    }
}

fn authority_of(v: &Vec<char>) -> (r: Vec<char>)
    ensures
        r@ == authority(v@),
{
    let n = v.len();
    let sep = chars_of("://");
    proof {
        reveal_strlit("://");
    }
    let rest = match find_exec(v, &sep, 0) {
        Some(k) => {
            proof {
                lemma_find_from(v@, sep@, 0);
            }
            slice_chars(v, k + 3, v.len())
        },
        None => slice_chars(v, 0, v.len()),
    };
    assert(v@.subrange(0, v@.len() as int) =~= v@);
    let slash = chars_of("/");
    match find_exec(&rest, &slash, 0) {
        Some(k) => {
            proof {
                lemma_find_from(rest@, slash@, 0);
            }
            slice_chars(&rest, 0, k)
        },
        None => rest,
    }
}

pub fn validate_base_url(value: &Option<String>) -> (r: Result<(), SettingsError>)
    ensures
        r == check(base_url_error(*value)),
{
    match value {
        None => Ok(()),
        Some(u) => {
            let raw = chars_of(u.as_str());
            let v = trim_chars(&raw);
            let vs = string_from_chars(&v);
            let b = validate_bounded(vs.as_str(), SettingsField::BaseUrl, MAX_URL_LENGTH);
            if b.is_err() {
                return b;
            }
            if !(starts_with_exec(&v, &chars_of("http://")) || starts_with_exec(
                &v,
                &chars_of("https://"),
            )) {
                return Err(SettingsError::BaseUrlScheme);
            }
            let auth = authority_of(&v);
            if contains_exec(&auth, &chars_of("@")) {
                return Err(SettingsError::BaseUrlUserInfo);
            }
            if query_secret(&v) {
                return Err(SettingsError::BaseUrlSecret);
            }
            Ok(())
        },
    }
}

pub fn is_supported_kind(k: &str) -> (r: bool)
    ensures
        r == supported_kind(k@),
{
    str_eq(k, "registered") || str_eq(k, "openai") || str_eq(k, "anthropic") || str_eq(
        k,
        "gemini",
    ) || str_eq(k, "openai_compatible") || str_eq(k, "local_openai_compatible")
}

pub fn is_compatible_kind(k: &str) -> (r: bool)
    ensures
        r == compatible_kind(k@),
{
    str_eq(k, "openai_compatible") || str_eq(k, "local_openai_compatible")
}

fn is_supported_wire_api(w: &Option<String>) -> (r: bool)
    ensures
        r == supported_wire_api(*w),
{
    match w {
        Some(v) => str_eq(v.as_str(), "chat_completions") || str_eq(v.as_str(), "responses")
            || str_eq(v.as_str(), "anthropic_messages"),
        None => false,
    }
}

pub fn validate_provider(p: &AgentProviderProfile) -> (r: Result<(), SettingsError>)
    ensures
        r == check(provider_error(*p)),
{
    let r = validate_bounded(p.id.as_str(), SettingsField::ProviderId, MAX_ID_LENGTH);
    if r.is_err() {
        return r;
    }
    let r = validate_bounded(
        p.display_name.as_str(),
        SettingsField::ProviderDisplayName,
        MAX_NAME_LENGTH,
    );
    if r.is_err() {
        return r;
    }
    if !is_supported_kind(p.kind.as_str()) {
        return Err(SettingsError::UnsupportedProviderKind);
    }
    let registered = str_eq(p.kind.as_str(), "registered");
    if registered {
        let r = validate_optional_bounded(
            &p.registered_provider_id,
            SettingsField::RegisteredProviderId,
            MAX_NAME_LENGTH,
        );
        if r.is_err() {
            return r;
        }
        if p.registered_provider_id.is_none() {
            return Err(SettingsError::RegisteredIdMissing);
        }
    }
    let r = validate_env_name(&p.api_key_env, p.api_key_required);
    if r.is_err() {
        return r;
    }
    let r = validate_env_name(&p.base_url_env, false);
    if r.is_err() {
        return r;
    }
    let r = validate_base_url(&p.base_url);
    if r.is_err() {
        return r;
    }
    if p.base_url.is_some() && p.base_url_env.is_some() {
        return Err(SettingsError::BaseUrlConflict);
    }
    if is_compatible_kind(p.kind.as_str()) {
        if !(p.base_url.is_some() || p.base_url_env.is_some()) {
            return Err(SettingsError::CompatibleBaseUrlMissing);
        }
        if !is_supported_wire_api(&p.wire_api) {
            return Err(SettingsError::CompatibleWireApi);
        }
    } else if p.base_url.is_some() || p.base_url_env.is_some() {
        return Err(SettingsError::BuiltInBaseUrl);
    }
    Ok(())
}

fn capability_value_valid(v: &str) -> (r: bool)
    ensures
        r == capability_value_ok(v@),
{
    str_eq(v, "yes") || str_eq(v, "no") || str_eq(v, "unknown")
}

pub fn validate_capabilities(c: &AgentModelCapabilities) -> (r: Result<(), SettingsError>)
    ensures
        r == check(capability_error(*c)),
{
    if !(capability_value_valid(c.tool_calling.as_str()) && capability_value_valid(
        c.reasoning.as_str(),
    ) && capability_value_valid(c.vision_input.as_str())) {
        return Err(SettingsError::CapabilityValue);
    }
    let s = c.source.as_str();
    if !(str_eq(s, "catalog") || str_eq(s, "declared") || str_eq(s, "probe") || str_eq(
        s,
        "unknown",
    )) {
        return Err(SettingsError::CapabilitySource);
    }
    Ok(())
}

pub fn validate_model(m: &AgentModelProfile) -> (r: Result<(), SettingsError>)
    ensures
        r == check(model_error(*m)),
{
    let r = validate_bounded(m.id.as_str(), SettingsField::ModelId, MAX_ID_LENGTH);
    if r.is_err() {
        return r;
    }
    let r = validate_bounded(m.provider_id.as_str(), SettingsField::ProviderReference, MAX_ID_LENGTH);
    if r.is_err() {
        return r;
    }
    let r = validate_bounded(
        m.display_name.as_str(),
        SettingsField::ModelDisplayName,
        MAX_NAME_LENGTH,
    );
    if r.is_err() {
        return r;
    }
    let r = validate_bounded(
        m.model_id.as_str(),
        SettingsField::ProviderModelId,
        MAX_MODEL_ID_LENGTH,
    );
    if r.is_err() {
        return r;
    }
    validate_capabilities(&m.capabilities)
}

/// The index of the first model with the given id.
pub fn find_model_index(ms: &Vec<AgentModelProfile>, id: &str) -> (r: Option<usize>)
    ensures
        r matches Some(k) ==> find_model(ms@, id@) == Some(k as int) && k < ms@.len()
            && ms@[k as int].id@ == id@,
        r is None ==> find_model(ms@, id@) is None,
{
    proof {
        lemma_find_model_from(ms@, id@, 0);
    }
    let mut i: usize = 0;
    while i < ms.len()
        invariant
            0 <= i <= ms@.len(),
            find_model_from(ms@, id@, i as int) == find_model(ms@, id@),
        decreases ms.len() - i,
    {
        if str_eq(ms[i].id.as_str(), id) {
            return Some(i);
        }
        i = i + 1;
    }
    None
}

/// The index of the first provider with the given id.
pub fn find_provider_index(ps: &Vec<AgentProviderProfile>, id: &str) -> (r: Option<usize>)
    ensures
        r matches Some(k) ==> find_provider(ps@, id@) == Some(k as int) && k < ps@.len()
            && ps@[k as int].id@ == id@,
        r is None ==> find_provider(ps@, id@) is None,
{
    proof {
        lemma_find_provider_from(ps@, id@, 0);
    }
    let mut i: usize = 0;
    while i < ps.len()
        invariant
            0 <= i <= ps@.len(),
            find_provider_from(ps@, id@, i as int) == find_provider(ps@, id@),
        decreases ps.len() - i,
    {
        if str_eq(ps[i].id.as_str(), id) {
            return Some(i);
        }
        i = i + 1;
    }
    None
}

fn provider_seen_exec(ps: &Vec<AgentProviderProfile>, i: usize) -> (r: bool)
    requires
        i < ps@.len(),
    ensures
        r == provider_id_seen(ps@, i as int),
{
    let mut j: usize = 0;
    while j < i
        invariant
            0 <= j <= i < ps@.len(),
            forall|m: int| 0 <= m < j ==> (#[trigger] ps@[m]).id@ != ps@[i as int].id@,
        decreases i - j,
    {
        if ps[j].id == ps[i].id {
            return true;
        }
        j = j + 1;
    }
    false
}

fn model_seen_exec(ms: &Vec<AgentModelProfile>, i: usize) -> (r: bool)
    requires
        i < ms@.len(),
    ensures
        r == model_id_seen(ms@, i as int),
{
    let mut j: usize = 0;
    while j < i
        invariant
            0 <= j <= i < ms@.len(),
            forall|m: int| 0 <= m < j ==> (#[trigger] ms@[m]).id@ != ms@[i as int].id@,
        decreases i - j,
    {
        if ms[j].id == ms[i].id {
            return true;
        }
        j = j + 1;
    }
    false
}

fn scan_providers(ps: &Vec<AgentProviderProfile>) -> (r: Result<(), SettingsError>)
    ensures
        r == check(provider_scan(ps@, 0)),
{
    let mut i: usize = 0;
    while i < ps.len()
        invariant
            0 <= i <= ps@.len(),
            provider_scan(ps@, i as int) == provider_scan(ps@, 0),
        decreases ps.len() - i,
    {
        let r = validate_provider(&ps[i]);
        if r.is_err() {
            return r;
        }
        if provider_seen_exec(ps, i) {
            return Err(SettingsError::DuplicateProviderId);
        }
        i = i + 1;
    }
    Ok(())
}

fn scan_models(ms: &Vec<AgentModelProfile>, ps: &Vec<AgentProviderProfile>) -> (r: Result<
    (),
    SettingsError,
>)
    ensures
        r == check(model_scan(ms@, ps@, 0)),
{
    let mut i: usize = 0;
    while i < ms.len()
        invariant
            0 <= i <= ms@.len(),
            model_scan(ms@, ps@, i as int) == model_scan(ms@, ps@, 0),
        decreases ms.len() - i,
    {
        let r = validate_model(&ms[i]);
        if r.is_err() {
            return r;
        }
        if model_seen_exec(ms, i) {
            return Err(SettingsError::DuplicateModelId);
        }
        let found = find_provider_index(ps, ms[i].provider_id.as_str());
        proof {
            lemma_find_provider_from(ps@, ms@[i as int].provider_id@, 0);
        }
        if found.is_none() {
            return Err(SettingsError::UnknownModelProvider);
        }
        i = i + 1;
    }
    Ok(())
}

/// Checks a whole settings document: its schema, the selected model, every
/// provider and model, the uniqueness of their ids, and that the selected
/// model exists and is enabled.
pub fn validate_settings(settings: &AgentLlmSettings) -> (r: Result<(), SettingsError>)
    ensures
        r == check(settings_error(*settings)),
{
    if settings.schema_version != 1 {
        return Err(SettingsError::UnsupportedSchemaVersion);
    }
    let r = validate_bounded(
        settings.selected_model_id.as_str(),
        SettingsField::SelectedModelId,
        MAX_ID_LENGTH,
    );
    if r.is_err() {
        return r;
    }
    if settings.providers.len() == 0 {
        return Err(SettingsError::NoProviders);
    }
    if settings.models.len() == 0 {
        return Err(SettingsError::NoModels);
    }
    let r = scan_providers(&settings.providers);
    if r.is_err() {
        return r;
    }
    let r = scan_models(&settings.models, &settings.providers);
    if r.is_err() {
        return r;
    }
    match find_model_index(&settings.models, settings.selected_model_id.as_str()) {
        None => Err(SettingsError::SelectedModelMissing),
        Some(i) => {
            if !settings.models[i].enabled {
                Err(SettingsError::SelectedModelDisabled)
            } else {
                Ok(())
            }
        },
    }
}

} // verus!

verus! {

// ---------------------------------------------------------------------------
// Exact copies.
// ---------------------------------------------------------------------------

impl AgentProviderProfile {
    /// A field-by-field copy.
    pub fn copied(&self) -> (r: Self)
        ensures
            r == *self,
    {
        AgentProviderProfile {
            id: self.id.clone(),
            display_name: self.display_name.clone(),
            kind: self.kind.clone(),
            registered_provider_id: clone_opt(&self.registered_provider_id),
            api_key_env: clone_opt(&self.api_key_env),
            api_key_required: self.api_key_required,
            base_url: clone_opt(&self.base_url),
            base_url_env: clone_opt(&self.base_url_env),
            wire_api: clone_opt(&self.wire_api),
            disable_stream_options: self.disable_stream_options,
        }
    }
}

impl AgentModelCapabilities {
    pub fn copied(&self) -> (r: Self)
        ensures
            r == *self,
    {
        AgentModelCapabilities {
            tool_calling: self.tool_calling.clone(),
            reasoning: self.reasoning.clone(),
            vision_input: self.vision_input.clone(),
            source: self.source.clone(),
        }
    }
}

impl AgentModelTestResult {
    pub fn copied(&self) -> (r: Self)
        ensures
            r == *self,
    {
        AgentModelTestResult {
            status: self.status.clone(),
            checked_at: self.checked_at.clone(),
            latency_ms: self.latency_ms,
            error_class: clone_opt(&self.error_class),
            message: clone_opt(&self.message),
        }
    }
}

impl AgentModelProfile {
    pub fn copied(&self) -> (r: Self)
        ensures
            r == *self,
    {
        AgentModelProfile {
            id: self.id.clone(),
            provider_id: self.provider_id.clone(),
            display_name: self.display_name.clone(),
            model_id: self.model_id.clone(),
            enabled: self.enabled,
            capabilities: self.capabilities.copied(),
            last_test: match &self.last_test {
                Some(t) => Some(t.copied()),
                None => None,
            },
        }
    }
}

// ---------------------------------------------------------------------------
// Edits of a settings document. Each edit is checked as a whole before it is
// handed back, as the document is checked before it is written.
// ---------------------------------------------------------------------------

/// An edit gave back the document with these parts, and that document is valid;
/// or it was refused for the first rule that document breaks.
pub open spec fn edit_outcome(
    r: Result<AgentLlmSettings, SettingsError>,
    version: u32,
    selected: Seq<char>,
    ps: Seq<AgentProviderProfile>,
    ms: Seq<AgentModelProfile>,
) -> bool {
    match r {
        Ok(x) => x.schema_version == version && x.selected_model_id@ == selected && x.providers@
            == ps && x.models@ == ms && settings_error_of(version, selected, ps, ms) is None,
        Err(e) => settings_error_of(version, selected, ps, ms) == Some(e),
    }
}

/// Replace the first provider with the same id, or append.
pub open spec fn upsert_provider(ps: Seq<AgentProviderProfile>, p: AgentProviderProfile) -> Seq<
    AgentProviderProfile,
> {
    match find_provider(ps, p.id@) {
        Some(i) => ps.update(i, p),
        None => ps.push(p),
    }
}

/// Replace the first model with the same id, or append.
pub open spec fn upsert_model(ms: Seq<AgentModelProfile>, m: AgentModelProfile) -> Seq<
    AgentModelProfile,
> {
    match find_model(ms, m.id@) {
        Some(i) => ms.update(i, m),
        None => ms.push(m),
    }
}

pub open spec fn other_provider(id: Seq<char>) -> spec_fn(AgentProviderProfile) -> bool {
    |p: AgentProviderProfile| p.id@ != id
}

pub open spec fn other_model(id: Seq<char>) -> spec_fn(AgentModelProfile) -> bool {
    |m: AgentModelProfile| m.id@ != id
}

pub open spec fn provider_in_use(ms: Seq<AgentModelProfile>, id: Seq<char>) -> bool {
    exists|j: int| 0 <= j < ms.len() && (#[trigger] ms[j]).provider_id@ == id
}

fn finish_edit(settings: AgentLlmSettings) -> (r: Result<AgentLlmSettings, SettingsError>)
    ensures
        edit_outcome(
            r,
            settings.schema_version,
            settings.selected_model_id@,
            settings.providers@,
            settings.models@,
        ),
{
    match validate_settings(&settings) {
        Ok(()) => Ok(settings),
        Err(e) => Err(e),
    }
}

/// Adds a provider, or replaces the one with its id.
pub fn save_provider(settings: AgentLlmSettings, provider: AgentProviderProfile) -> (r: Result<
    AgentLlmSettings,
    SettingsError,
>)
    ensures
        edit_outcome(
            r,
            settings.schema_version,
            settings.selected_model_id@,
            upsert_provider(settings.providers@, provider),
            settings.models@,
        ),
{
    let mut settings = settings;
    match find_provider_index(&settings.providers, provider.id.as_str()) {
        Some(i) => {
            settings.providers.set(i, provider);
        },
        None => {
            settings.providers.push(provider);
        },
    }
    finish_edit(settings)
}

/// Adds a model, or replaces the one with its id.
pub fn save_model(settings: AgentLlmSettings, model: AgentModelProfile) -> (r: Result<
    AgentLlmSettings,
    SettingsError,
>)
    ensures
        edit_outcome(
            r,
            settings.schema_version,
            settings.selected_model_id@,
            settings.providers@,
            upsert_model(settings.models@, model),
        ),
{
    let mut settings = settings;
    match find_model_index(&settings.models, model.id.as_str()) {
        Some(i) => {
            settings.models.set(i, model);
        },
        None => {
            settings.models.push(model);
        },
    }
    finish_edit(settings)
}

fn models_use_provider(ms: &Vec<AgentModelProfile>, id: &str) -> (r: bool)
    ensures
        r == provider_in_use(ms@, id@),
{
    let mut i: usize = 0;
    while i < ms.len()
        invariant
            0 <= i <= ms@.len(),
            forall|k: int| 0 <= k < i ==> (#[trigger] ms@[k]).provider_id@ != id@,
        decreases ms.len() - i,
    {
        if str_eq(ms[i].provider_id.as_str(), id) {
            return true;
        }
        i = i + 1;
    }
    false
}

fn providers_without(ps: &Vec<AgentProviderProfile>, id: &str) -> (r: Vec<AgentProviderProfile>)
    ensures
        r@ == ps@.filter(other_provider(id@)),
{
    let mut kept: Vec<AgentProviderProfile> = Vec::new();
    let mut i: usize = 0;
    while i < ps.len()
        invariant
            0 <= i <= ps@.len(),
            kept@ == ps@.take(i as int).filter(other_provider(id@)),
        decreases ps.len() - i,
    {
        proof {
            assert(ps@.take(i + 1) == ps@.take(i as int).push(ps@[i as int]));
            ps@.take(i as int).lemma_filter_push(ps@[i as int], other_provider(id@));
        }
        if !str_eq(ps[i].id.as_str(), id) {
            kept.push(ps[i].copied());
        }
        i = i + 1;
    }
    assert(ps@.take(ps@.len() as int) == ps@);
    kept
}

fn models_without(ms: &Vec<AgentModelProfile>, id: &str) -> (r: Vec<AgentModelProfile>)
    ensures
        r@ == ms@.filter(other_model(id@)),
{
    let mut kept: Vec<AgentModelProfile> = Vec::new();
    let mut i: usize = 0;
    while i < ms.len()
        invariant
            0 <= i <= ms@.len(),
            kept@ == ms@.take(i as int).filter(other_model(id@)),
        decreases ms.len() - i,
    {
        proof {
            assert(ms@.take(i + 1) == ms@.take(i as int).push(ms@[i as int]));
            ms@.take(i as int).lemma_filter_push(ms@[i as int], other_model(id@));
        }
        if !str_eq(ms[i].id.as_str(), id) {
            kept.push(ms[i].copied());
        }
        i = i + 1;
    }
    assert(ms@.take(ms@.len() as int) == ms@);
    kept
}

/// Removes a provider that no model uses.
pub fn delete_provider(settings: AgentLlmSettings, provider_id: &str) -> (r: Result<
    AgentLlmSettings,
    SettingsError,
>)
    ensures
        provider_in_use(settings.models@, provider_id@) ==> r == Err::<
            AgentLlmSettings,
            SettingsError,
        >(SettingsError::ProviderHasModels),
        !provider_in_use(settings.models@, provider_id@) && !has_provider(
            settings.providers@,
            provider_id@,
        ) ==> (r matches Err(SettingsError::UnknownProvider(n)) && n@ == provider_id@),
        !provider_in_use(settings.models@, provider_id@) && has_provider(
            settings.providers@,
            provider_id@,
        ) ==> edit_outcome(
            r,
            settings.schema_version,
            settings.selected_model_id@,
            settings.providers@.filter(other_provider(provider_id@)),
            settings.models@,
        ),
{
    if models_use_provider(&settings.models, provider_id) {
        return Err(SettingsError::ProviderHasModels);
    }
    let found = find_provider_index(&settings.providers, provider_id);
    proof {
        lemma_find_provider_from(settings.providers@, provider_id@, 0);
    }
    if found.is_none() {
        return Err(SettingsError::UnknownProvider(owned(provider_id)));
    }
    let kept = providers_without(&settings.providers, provider_id);
    let mut settings = settings;
    settings.providers = kept;
    finish_edit(settings)
}

/// The default a model deletion leaves selected, or why it is refused.
pub open spec fn deletion_selection(
    settings: AgentLlmSettings,
    request: DeleteModelRequest,
) -> Result<Seq<char>, SettingsError> {
    let ms = settings.models@;
    match find_model(ms, request.model_id@) {
        None => Err(SettingsError::UnknownModel(request.model_id)),
        Some(i) => if settings.selected_model_id@ == request.model_id@ {
            match request.replacement_model_id {
                None => Err(SettingsError::ReplacementRequired),
                Some(rid) => match find_model(ms, rid@) {
                    None => Err(SettingsError::UnknownReplacement(rid)),
                    Some(j) => if !ms[j].enabled {
                        Err(SettingsError::ReplacementDisabled)
                    } else if ms[j].id@ == ms[i].id@ {
                        Err(SettingsError::ReplacementSame)
                    } else {
                        Ok(ms[j].id@)
                    },
                },
            }
        } else {
            Ok(settings.selected_model_id@)
        },
    }
}

/// Removes a model; deleting the selected one needs an enabled replacement.
pub fn delete_model(settings: AgentLlmSettings, request: &DeleteModelRequest) -> (r: Result<
    AgentLlmSettings,
    SettingsError,
>)
    ensures
        match deletion_selection(settings, *request) {
            Err(e) => r == Err::<AgentLlmSettings, SettingsError>(e),
            Ok(selected) => edit_outcome(
                r,
                settings.schema_version,
                selected,
                settings.providers@,
                settings.models@.filter(other_model(request.model_id@)),
            ),
        },
{
    let existing = match find_model_index(&settings.models, request.model_id.as_str()) {
        None => {
            return Err(SettingsError::UnknownModel(request.model_id.clone()));
        },
        Some(i) => i,
    };
    let mut settings = settings;
    if settings.selected_model_id == request.model_id {
        let replacement_id = match &request.replacement_model_id {
            None => {
                return Err(SettingsError::ReplacementRequired);
            },
            Some(rid) => rid,
        };
        let j = match find_model_index(&settings.models, replacement_id.as_str()) {
            None => {
                return Err(SettingsError::UnknownReplacement(replacement_id.clone()));
            },
            Some(j) => j,
        };
        if !settings.models[j].enabled {
            return Err(SettingsError::ReplacementDisabled);
        }
        if settings.models[j].id == settings.models[existing].id {
            return Err(SettingsError::ReplacementSame);
        }
        settings.selected_model_id = settings.models[j].id.clone();
    }
    let kept = models_without(&settings.models, request.model_id.as_str());
    settings.models = kept;
    finish_edit(settings)
}

/// Makes an existing, enabled model the default.
pub fn select_model(settings: AgentLlmSettings, model_id: &str) -> (r: Result<
    AgentLlmSettings,
    SettingsError,
>)
    ensures
        find_model(settings.models@, model_id@) is None ==> (r matches Err(
            SettingsError::UnknownModel(n),
        ) && n@ == model_id@),
        find_model(settings.models@, model_id@) matches Some(i) && !settings.models@[i].enabled
            ==> r == Err::<AgentLlmSettings, SettingsError>(SettingsError::SelectedMustBeEnabled),
        find_model(settings.models@, model_id@) matches Some(i) && settings.models@[i].enabled
            ==> edit_outcome(
            r,
            settings.schema_version,
            model_id@,
            settings.providers@,
            settings.models@,
        ),
{
    let i = match find_model_index(&settings.models, model_id) {
        None => {
            return Err(SettingsError::UnknownModel(owned(model_id)));
        },
        Some(i) => i,
    };
    if !settings.models[i].enabled {
        return Err(SettingsError::SelectedMustBeEnabled);
    }
    let mut settings = settings;
    settings.selected_model_id = owned(model_id);
    finish_edit(settings)
}

/// Every model of settings whose models pass the scan has no error of its own.
pub proof fn lemma_model_scan_models(ms: Seq<AgentModelProfile>, ps: Seq<AgentProviderProfile>, i: int)
    requires
        0 <= i,
        model_scan(ms, ps, i) is None,
    ensures
        forall|k: int| i <= k < ms.len() ==> model_error(#[trigger] ms[k]) is None,
    decreases ms.len() - i,
{
    if i < ms.len() {
        lemma_model_scan_models(ms, ps, i + 1);
    }
}

/// Selecting, in valid settings, a model that exists and is enabled succeeds,
/// and the settings it gives are valid and select that model.
pub proof fn law_select_model_keeps_settings_valid(
    settings: AgentLlmSettings,
    model_id: Seq<char>,
    r: Result<AgentLlmSettings, SettingsError>,
)
    requires
        settings_error(settings) is None,
        find_model(settings.models@, model_id) matches Some(i) && settings.models@[i].enabled,
        edit_outcome(r, settings.schema_version, model_id, settings.providers@, settings.models@),
    ensures
        r matches Ok(x) && settings_error(x) is None && x.selected_model_id@ == model_id,
{
    let ms = settings.models@;
    let ps = settings.providers@;
    let i = find_model(ms, model_id)->Some_0;
    lemma_find_model_from(ms, model_id, 0);
    lemma_model_scan_models(ms, ps, 0);
    assert(model_error(ms[i]) is None);
    assert(bounded_error(model_id, SettingsField::SelectedModelId, MAX_ID_LENGTH as nat) is None);
    assert(settings_error_of(settings.schema_version, model_id, ps, ms) is None);
}

} // verus!

verus! {

// ---------------------------------------------------------------------------
// Resolving a model into the profile the Agent runtime receives.
// ---------------------------------------------------------------------------

/// `c` if it is an ASCII letter or digit, `_` otherwise.
pub open spec fn id_char(c: char) -> char {
    if is_ascii_alnum(c) {
        c
    } else {
        '_'
    }
}

/// The runtime provider id derived from a provider id.
pub open spec fn runtime_provider_id(id: Seq<char>) -> Seq<char> {
    "rho_profile_provider_"@ + Seq::new(id.len(), |i: int| id_char(id[i]))
}

/// The runtime profile carries the model's and its provider's settings.
pub open spec fn runtime_profile_of(
    rp: AgentRuntimeModelProfile,
    m: AgentModelProfile,
    p: AgentProviderProfile,
) -> bool {
    &&& rp.profile_id == m.id
    &&& rp.provider_kind == p.kind
    &&& rp.runtime_provider_id@ == runtime_provider_id(p.id@)
    &&& rp.registered_provider_id == p.registered_provider_id
    &&& rp.model_id == m.model_id
    &&& rp.api_key_env == p.api_key_env
    &&& rp.api_key_required == p.api_key_required
    &&& rp.base_url == p.base_url
    &&& rp.base_url_env == p.base_url_env
    &&& rp.wire_api == p.wire_api
    &&& rp.disable_stream_options == match p.disable_stream_options {
        Some(b) => b,
        None => false,
    }
    &&& rp.tool_calling == m.capabilities.tool_calling
    &&& rp.provider_display_name == p.display_name
    &&& rp.model_display_name == m.display_name
}

/// The model reference the runtime is asked for.
pub open spec fn effective_model_ref(m: AgentModelProfile, p: AgentProviderProfile) -> Seq<char> {
    if p.kind@ == "registered"@ {
        p.registered_provider_id->0@ + ":"@ + m.model_id@
    } else {
        runtime_provider_id(p.id@) + ":"@ + m.model_id@
    }
}

/// What resolving `target` gives: the resolved model built from model `i`
/// and provider `j`, or the reason it fails.
pub open spec fn resolution_holds(
    settings: AgentLlmSettings,
    target: Seq<char>,
    r: Result<ResolvedAgentModel, SettingsError>,
) -> bool {
    let ms = settings.models@;
    let ps = settings.providers@;
    match find_model(ms, target) {
        None => r matches Err(SettingsError::UnknownAgentModel(n)) && n@ == target,
        Some(i) => if !ms[i].enabled {
            r == Err::<ResolvedAgentModel, SettingsError>(SettingsError::AgentModelDisabled)
        } else {
            match find_provider(ps, ms[i].provider_id@) {
                None => r == Err::<ResolvedAgentModel, SettingsError>(
                    SettingsError::MissingProvider(ms[i].display_name),
                ),
                Some(j) => if ps[j].kind@ == "registered"@ && ps[j].registered_provider_id is None {
                    r == Err::<ResolvedAgentModel, SettingsError>(
                        SettingsError::RegisteredRefMissing,
                    )
                } else {
                    r matches Ok(x) && x.effective_model_ref@ == effective_model_ref(ms[i], ps[j])
                        && runtime_profile_of(x.runtime_profile, ms[i], ps[j]) && x.provider_id
                        == ps[j].id && x.provider_display_name == ps[j].display_name
                        && x.model_display_name == ms[i].display_name
                },
            }
        },
    }
}

pub open spec fn requested_target(settings: AgentLlmSettings, requested: Option<&str>) -> Seq<
    char,
> {
    match requested {
        Some(t) => t@,
        None => settings.selected_model_id@,
    }
}

fn runtime_provider_id_of(id: &str) -> (r: String)
    ensures
        r@ == runtime_provider_id(id@),
{
    let src = chars_of(id);
    let mut out = chars_of("rho_profile_provider_");
    let ghost prefix = out@;
    let mut i: usize = 0;
    while i < src.len()
        invariant
            0 <= i <= src@.len(),
            prefix == "rho_profile_provider_"@,
            out@ == prefix + Seq::new(i as nat, |k: int| id_char(src@[k])),
        decreases src.len() - i,
    {
        let c = src[i];
        let mapped = if alnum(c) {
            c
        } else {
            '_'
        };
        out.push(mapped);
        assert(Seq::new((i + 1) as nat, |k: int| id_char(src@[k])) =~= Seq::new(
            i as nat,
            |k: int| id_char(src@[k]),
        ).push(id_char(src@[i as int])));
        i = i + 1;
    }
    assert(Seq::new(src@.len(), |k: int| id_char(src@[k])) =~= Seq::new(
        id@.len(),
        |k: int| id_char(id@[k]),
    ));
    string_from_chars(&out)
}

/// Resolves the requested model, or the selected one, into its runtime profile.
pub fn resolve_model_with_settings(settings: &AgentLlmSettings, requested: Option<&str>) -> (r:
    Result<ResolvedAgentModel, SettingsError>)
    ensures
        resolution_holds(*settings, requested_target(*settings, requested), r),
{
    let target: &str = match requested {
        Some(t) => t,
        None => settings.selected_model_id.as_str(),
    };
    let i = match find_model_index(&settings.models, target) {
        None => {
            return Err(SettingsError::UnknownAgentModel(owned(target)));
        },
        Some(i) => i,
    };
    let model = &settings.models[i];
    if !model.enabled {
        return Err(SettingsError::AgentModelDisabled);
    }
    let j = match find_provider_index(&settings.providers, model.provider_id.as_str()) {
        None => {
            return Err(SettingsError::MissingProvider(model.display_name.clone()));
        },
        Some(j) => j,
    };
    let provider = &settings.providers[j];
    let runtime_id = runtime_provider_id_of(provider.id.as_str());
    let runtime_profile = AgentRuntimeModelProfile {
        profile_id: model.id.clone(),
        provider_kind: provider.kind.clone(),
        runtime_provider_id: runtime_id.clone(),
        registered_provider_id: clone_opt(&provider.registered_provider_id),
        model_id: model.model_id.clone(),
        api_key_env: clone_opt(&provider.api_key_env),
        api_key_required: provider.api_key_required,
        base_url: clone_opt(&provider.base_url),
        base_url_env: clone_opt(&provider.base_url_env),
        wire_api: clone_opt(&provider.wire_api),
        disable_stream_options: match provider.disable_stream_options {
            Some(b) => b,
            None => false,
        },
        tool_calling: model.capabilities.tool_calling.clone(),
        provider_display_name: provider.display_name.clone(),
        model_display_name: model.display_name.clone(),
    };
    let effective = if str_eq(provider.kind.as_str(), "registered") {
        match &provider.registered_provider_id {
            None => {
                return Err(SettingsError::RegisteredRefMissing);
            },
            Some(rid) => {
                let head = concat(rid.as_str(), ":");
                concat(head.as_str(), model.model_id.as_str())
            },
        }
    } else {
        let head = concat(runtime_id.as_str(), ":");
        concat(head.as_str(), model.model_id.as_str())
    };
    Ok(
        ResolvedAgentModel {
            effective_model_ref: effective,
            runtime_profile,
            provider_id: provider.id.clone(),
            provider_display_name: provider.display_name.clone(),
            model_display_name: model.display_name.clone(),
        },
    )
}

/// What resolving a model for an Agent turn gives: the first rule the
/// settings break, or else the resolution of the requested model.
pub open spec fn turn_resolution(
    settings: AgentLlmSettings,
    requested_model_id: Option<&str>,
    r: Result<ResolvedAgentModel, SettingsError>,
) -> bool {
    match settings_error(settings) {
        Some(e) => r == Err::<ResolvedAgentModel, SettingsError>(e),
        None => resolution_holds(settings, requested_target(settings, requested_model_id), r),
    }
}

/// On valid settings, resolving for a turn gives exactly what resolving with
/// the settings gives.
pub proof fn law_turn_resolution_on_valid_settings(
    settings: AgentLlmSettings,
    requested_model_id: Option<&str>,
    r: Result<ResolvedAgentModel, SettingsError>,
)
    requires
        settings_error(settings) is None,
    ensures
        turn_resolution(settings, requested_model_id, r) == resolution_holds(
            settings,
            requested_target(settings, requested_model_id),
            r,
        ),
{
}

/// Resolves a model for an Agent turn: the settings must be valid first.
pub fn resolve_model_for_turn(settings: &AgentLlmSettings, requested_model_id: Option<&str>) -> (r:
    Result<ResolvedAgentModel, SettingsError>)
    ensures
        turn_resolution(*settings, requested_model_id, r),
{
    match validate_settings(settings) {
        Err(e) => Err(e),
        Ok(()) => resolve_model_with_settings(settings, requested_model_id),
    }
}

// ---------------------------------------------------------------------------
// Credential statuses and the settings view.
// ---------------------------------------------------------------------------

/// The status recorded for a key; a later entry overrides an earlier one.
pub open spec fn status_lookup_upto(entries: Seq<(String, String)>, key: Seq<char>, n: int) -> Option<
    Seq<char>,
>
    decreases n,
{
    if n <= 0 || n > entries.len() {
        None
    } else if entries[n - 1].0@ == key {
        Some(entries[n - 1].1@)
    } else {
        status_lookup_upto(entries, key, n - 1)
    }
}

pub open spec fn status_lookup(entries: Seq<(String, String)>, key: Seq<char>) -> Option<Seq<char>> {
    status_lookup_upto(entries, key, entries.len() as int)
}

/// The status of a provider whose key was not probed.
pub open spec fn credential_label(p: AgentProviderProfile) -> Seq<char> {
    if !p.api_key_required {
        "not_required"@
    } else {
        "not_detected"@
    }
}

pub open spec fn credential_status(p: AgentProviderProfile, statuses: Seq<(String, String)>) -> Seq<
    char,
> {
    match status_lookup(statuses, p.id@) {
        Some(s) => s,
        None => credential_label(p),
    }
}

pub open spec fn selector_status_spec(
    m: AgentModelProfile,
    statuses: Seq<(String, String)>,
    ps: Seq<AgentProviderProfile>,
) -> Seq<char> {
    if !m.enabled {
        "Disabled"@
    } else {
        match find_provider(ps, m.provider_id@) {
            None => "Error"@,
            Some(j) => if credential_status(ps[j], statuses) == "not_detected"@
                && ps[j].api_key_required {
                "Key missing"@
            } else {
                match m.last_test {
                    Some(t) => if t.status@ == "ready"@ {
                        "Ready"@
                    } else if t.status@ == "error"@ {
                        "Error"@
                    } else {
                        "Untested"@
                    },
                    None => "Untested"@,
                }
            },
        }
    }
}

/// The display name of the last provider with the given id.
pub open spec fn provider_name_upto(ps: Seq<AgentProviderProfile>, id: Seq<char>, n: int) -> Option<
    Seq<char>,
>
    decreases n,
{
    if n <= 0 || n > ps.len() {
        None
    } else if ps[n - 1].id@ == id {
        Some(ps[n - 1].display_name@)
    } else {
        provider_name_upto(ps, id, n - 1)
    }
}

pub open spec fn provider_display_name_for(ps: Seq<AgentProviderProfile>, id: Seq<char>) -> Seq<
    char,
> {
    match provider_name_upto(ps, id, ps.len() as int) {
        Some(n) => n,
        None => "Provider"@,
    }
}

pub fn credential_label_for_provider(provider: &AgentProviderProfile) -> (r: String)
    ensures
        r@ == credential_label(*provider),
{
    if !provider.api_key_required {
        owned("not_required")
    } else {
        owned("not_detected")
    }
}

fn lookup_status(statuses: &Vec<(String, String)>, key: &str) -> (r: Option<String>)
    ensures
        opt_view(r) == status_lookup(statuses@, key@),
{
    let mut n = statuses.len();
    while n > 0
        invariant
            0 <= n <= statuses@.len(),
            status_lookup_upto(statuses@, key@, n as int) == status_lookup(statuses@, key@),
        decreases n,
    {
        if str_eq(statuses[n - 1].0.as_str(), key) {
            return Some(statuses[n - 1].1.clone());
        }
        n = n - 1;
    }
    None
}

fn provider_credential_status(p: &AgentProviderProfile, statuses: &Vec<(String, String)>) -> (r:
    String)
    ensures
        r@ == credential_status(*p, statuses@),
{
    match lookup_status(statuses, p.id.as_str()) {
        Some(s) => s,
        None => credential_label_for_provider(p),
    }
}

/// The status the model selector shows for a model.
pub fn selector_status(
    model: &AgentModelProfile,
    statuses: &Vec<(String, String)>,
    providers: &Vec<AgentProviderProfile>,
) -> (r: String)
    ensures
        r@ == selector_status_spec(*model, statuses@, providers@),
{
    if !model.enabled {
        return owned("Disabled");
    }
    let j = match find_provider_index(providers, model.provider_id.as_str()) {
        None => {
            return owned("Error");
        },
        Some(j) => j,
    };
    let provider = &providers[j];
    let status = provider_credential_status(provider, statuses);
    if str_eq(status.as_str(), "not_detected") && provider.api_key_required {
        return owned("Key missing");
    }
    match &model.last_test {
        Some(t) => {
            if str_eq(t.status.as_str(), "ready") {
                return owned("Ready");
            }
            if str_eq(t.status.as_str(), "error") {
                return owned("Error");
            }
        },
        None => {},
    }
    owned("Untested")
}

fn provider_display_name_of(ps: &Vec<AgentProviderProfile>, id: &str) -> (r: String)
    ensures
        r@ == provider_display_name_for(ps@, id@),
{
    let mut n = ps.len();
    while n > 0
        invariant
            0 <= n <= ps@.len(),
            provider_name_upto(ps@, id@, n as int) == provider_name_upto(
                ps@,
                id@,
                ps@.len() as int,
            ),
        decreases n,
    {
        if str_eq(ps[n - 1].id.as_str(), id) {
            return ps[n - 1].display_name.clone();
        }
        n = n - 1;
    }
    owned("Provider")
}

/// Each view in the settings view, as built from the settings and statuses.
pub open spec fn model_view_of(
    v: AgentModelProfileView,
    m: AgentModelProfile,
    settings: AgentLlmSettings,
    statuses: Seq<(String, String)>,
) -> bool {
    &&& v.profile == m
    &&& v.provider_display_name@ == provider_display_name_for(settings.providers@, m.provider_id@)
    &&& v.selected == (m.id@ == settings.selected_model_id@)
    &&& v.act_enabled == (m.enabled && m.capabilities.tool_calling@ == "yes"@)
    &&& v.selector_status@ == selector_status_spec(m, statuses, settings.providers@)
}

pub open spec fn settings_view_of(
    r: AgentLlmSettingsView,
    settings: AgentLlmSettings,
    user_environ: AgentUserEnvironInfo,
    statuses: Seq<(String, String)>,
) -> bool {
    let ps = settings.providers@;
    let ms = settings.models@;
    &&& r.schema_version == settings.schema_version
    &&& r.selected_model_id == settings.selected_model_id
    &&& r.user_environ == user_environ
    &&& r.validation_error is None
    &&& r.providers@.len() == ps.len()
    &&& forall|i: int|
        0 <= i < ps.len() ==> (#[trigger] r.providers@[i]).profile == ps[i]
            && r.providers@[i].credential_status@ == credential_status(ps[i], statuses)
    &&& r.models@.len() == ms.len()
    &&& forall|i: int|
        0 <= i < ms.len() ==> model_view_of(#[trigger] r.models@[i], ms[i], settings, statuses)
    &&& match find_model(ms, settings.selected_model_id@) {
        None => r.selected_model is None,
        Some(i) => r.selected_model matches Some(sel) && sel.id == ms[i].id && sel.display_name
            == ms[i].display_name && sel.provider_display_name == r.models@[i].provider_display_name
            && sel.selector_status == r.models@[i].selector_status && sel.tool_calling
            == ms[i].capabilities.tool_calling && sel.act_enabled == r.models@[i].act_enabled,
    }
}

/// The settings as the settings dialog shows them.
pub fn build_settings_view(
    settings: AgentLlmSettings,
    user_environ: AgentUserEnvironInfo,
    statuses: &Vec<(String, String)>,
) -> (r: AgentLlmSettingsView)
    ensures
        settings_view_of(r, settings, user_environ, statuses@),
{
    let mut providers: Vec<AgentProviderProfileView> = Vec::new();
    let mut i: usize = 0;
    while i < settings.providers.len()
        invariant
            0 <= i <= settings.providers@.len(),
            providers@.len() == i,
            forall|k: int|
                0 <= k < i ==> (#[trigger] providers@[k]).profile == settings.providers@[k]
                    && providers@[k].credential_status@ == credential_status(
                    settings.providers@[k],
                    statuses@,
                ),
        decreases settings.providers.len() - i,
    {
        let p = &settings.providers[i];
        let view = AgentProviderProfileView {
            credential_status: provider_credential_status(p, statuses),
            profile: p.copied(),
        };
        providers.push(view);
        i = i + 1;
    }
    let mut models: Vec<AgentModelProfileView> = Vec::new();
    let mut i: usize = 0;
    while i < settings.models.len()
        invariant
            0 <= i <= settings.models@.len(),
            models@.len() == i,
            forall|k: int|
                0 <= k < i ==> model_view_of(
                    #[trigger] models@[k],
                    settings.models@[k],
                    settings,
                    statuses@,
                ),
        decreases settings.models.len() - i,
    {
        let m = &settings.models[i];
        let view = AgentModelProfileView {
            provider_display_name: provider_display_name_of(
                &settings.providers,
                m.provider_id.as_str(),
            ),
            selected: m.id == settings.selected_model_id,
            act_enabled: m.enabled && str_eq(m.capabilities.tool_calling.as_str(), "yes"),
            selector_status: selector_status(m, statuses, &settings.providers),
            profile: m.copied(),
        };
        models.push(view);
        i = i + 1;
    }
    let found = find_model_index(&settings.models, settings.selected_model_id.as_str());
    let selected_model = match found {
        None => None,
        Some(k) => {
            let v = &models[k];
            Some(
                AgentSelectedModelView {
                    id: v.profile.id.clone(),
                    display_name: v.profile.display_name.clone(),
                    provider_display_name: v.provider_display_name.clone(),
                    selector_status: v.selector_status.clone(),
                    tool_calling: v.profile.capabilities.tool_calling.clone(),
                    act_enabled: v.act_enabled,
                },
            )
        },
    };
    AgentLlmSettingsView {
        schema_version: settings.schema_version,
        selected_model_id: settings.selected_model_id,
        providers,
        models,
        selected_model,
        user_environ,
        validation_error: None,
    }
}

} // verus!

verus! {

// ---------------------------------------------------------------------------
// Connection tests.
// ---------------------------------------------------------------------------

pub open spec fn inferred_capabilities_of(c: AgentModelCapabilities, rp: AgentRuntimeModelProfile) -> bool {
    &&& c.tool_calling == rp.tool_calling
    &&& c.reasoning@ == "unknown"@
    &&& c.vision_input@ == "unknown"@
    &&& c.source@ == "unknown"@
}

/// Capabilities known of a profile that was not probed.
pub fn inferred_capabilities(profile: &AgentRuntimeModelProfile) -> (r: AgentModelCapabilities)
    ensures
        inferred_capabilities_of(r, *profile),
{
    AgentModelCapabilities {
        tool_calling: profile.tool_calling.clone(),
        reasoning: owned("unknown"),
        vision_input: owned("unknown"),
        source: owned("unknown"),
    }
}

/// The credential status a connection test starts from: the status probed for
/// the provider, else for its runtime id, else the provider's default label.
pub open spec fn test_credential_status(
    settings: AgentLlmSettings,
    statuses: Seq<(String, String)>,
    resolved: ResolvedAgentModel,
) -> Seq<char> {
    match status_lookup(statuses, resolved.provider_id@) {
        Some(s) => s,
        None => match status_lookup(statuses, resolved.runtime_profile.runtime_provider_id@) {
            Some(s) => s,
            None => match find_provider(settings.providers@, resolved.provider_id@) {
                Some(j) => credential_label(settings.providers@[j]),
                None => "not_detected"@,
            },
        },
    }
}

/// The answer given without running a test when a required key is missing.
pub open spec fn missing_credential_response(
    resp: AgentConnectionTestResponse,
    rp: AgentRuntimeModelProfile,
) -> bool {
    &&& resp.status@ == "error"@
    &&& resp.credential_status@ == "not_detected"@
    &&& !resp.model_resolved
    &&& resp.latency_ms is None
    &&& inferred_capabilities_of(resp.capabilities, rp)
    &&& resp.message@ == "Credential was not detected in the effective user environment file."@
    &&& resp.error_class matches Some(c) && c@ == "credential"@
}

/// Resolves the model to test and decides whether the test must run: when the
/// provider needs a key that was not detected, the error answer is given here.
pub fn plan_connection_test(
    settings: &AgentLlmSettings,
    statuses: &Vec<(String, String)>,
    model_id: &str,
) -> (r: Result<(ResolvedAgentModel, Option<AgentConnectionTestResponse>), SettingsError>)
    ensures
        resolution_holds(
            *settings,
            model_id@,
            match r {
                Ok(x) => Ok(x.0),
                Err(e) => Err(e),
            },
        ),
        r matches Ok(x) ==> ((test_credential_status(*settings, statuses@, x.0) == "not_detected"@
            && x.0.runtime_profile.api_key_required) <==> x.1 is Some),
        r matches Ok(x) ==> (x.1 matches Some(resp) ==> missing_credential_response(
            resp,
            x.0.runtime_profile,
        )),
{
    let resolved = match resolve_model_with_settings(settings, Some(model_id)) {
        Err(e) => {
            return Err(e);
        },
        Ok(x) => x,
    };
    let status = match lookup_status(statuses, resolved.provider_id.as_str()) {
        Some(s) => s,
        None => match lookup_status(statuses, resolved.runtime_profile.runtime_provider_id.as_str()) {
            Some(s) => s,
            None => match find_provider_index(&settings.providers, resolved.provider_id.as_str()) {
                Some(j) => credential_label_for_provider(&settings.providers[j]),
                None => owned("not_detected"),
            },
        },
    };
    if str_eq(status.as_str(), "not_detected") && resolved.runtime_profile.api_key_required {
        let response = AgentConnectionTestResponse {
            status: owned("error"),
            credential_status: owned("not_detected"),
            model_resolved: false,
            latency_ms: None,
            capabilities: inferred_capabilities(&resolved.runtime_profile),
            message: owned("Credential was not detected in the effective user environment file."),
            error_class: Some(owned("credential")),
        };
        Ok((resolved, Some(response)))
    } else {
        Ok((resolved, None))
    }
}

/// Two runtime profiles agree field by field.
pub open spec fn same_runtime_profile(a: AgentRuntimeModelProfile, b: AgentRuntimeModelProfile) -> bool {
    &&& a.profile_id@ == b.profile_id@
    &&& a.provider_kind@ == b.provider_kind@
    &&& a.runtime_provider_id@ == b.runtime_provider_id@
    &&& opt_view(a.registered_provider_id) == opt_view(b.registered_provider_id)
    &&& a.model_id@ == b.model_id@
    &&& opt_view(a.api_key_env) == opt_view(b.api_key_env)
    &&& a.api_key_required == b.api_key_required
    &&& opt_view(a.base_url) == opt_view(b.base_url)
    &&& opt_view(a.base_url_env) == opt_view(b.base_url_env)
    &&& opt_view(a.wire_api) == opt_view(b.wire_api)
    &&& a.disable_stream_options == b.disable_stream_options
    &&& a.tool_calling@ == b.tool_calling@
    &&& a.provider_display_name@ == b.provider_display_name@
    &&& a.model_display_name@ == b.model_display_name@
}

pub fn runtime_profiles_equal(a: &AgentRuntimeModelProfile, b: &AgentRuntimeModelProfile) -> (r:
    bool)
    ensures
        r == same_runtime_profile(*a, *b),
{
    a.profile_id == b.profile_id && a.provider_kind == b.provider_kind && a.runtime_provider_id
        == b.runtime_provider_id && opt_eq(&a.registered_provider_id, &b.registered_provider_id)
        && a.model_id == b.model_id && opt_eq(&a.api_key_env, &b.api_key_env)
        && a.api_key_required == b.api_key_required && opt_eq(&a.base_url, &b.base_url) && opt_eq(
        &a.base_url_env,
        &b.base_url_env,
    ) && opt_eq(&a.wire_api, &b.wire_api) && a.disable_stream_options == b.disable_stream_options
        && a.tool_calling == b.tool_calling && a.provider_display_name == b.provider_display_name
        && a.model_display_name == b.model_display_name
}

/// The model after a test: the result is recorded with the time it was
/// checked, and capabilities the user did not declare are replaced by the
/// tested ones.
pub open spec fn model_after_test(
    before: AgentModelProfile,
    result: AgentConnectionTestResponse,
    checked_at: String,
) -> AgentModelProfile {
    AgentModelProfile {
        id: before.id,
        provider_id: before.provider_id,
        display_name: before.display_name,
        model_id: before.model_id,
        enabled: before.enabled,
        capabilities: if before.capabilities.source@ == "declared"@ {
            before.capabilities
        } else {
            result.capabilities
        },
        last_test: Some(
            AgentModelTestResult {
                status: result.status,
                checked_at,
                latency_ms: result.latency_ms,
                error_class: result.error_class,
                message: Some(result.message),
            },
        ),
    }
}

/// Records a test result, checked at `checked_at`, on the model with the
/// given id.
pub fn update_model_after_test(
    settings: &mut AgentLlmSettings,
    model_id: &str,
    result: &AgentConnectionTestResponse,
    checked_at: String,
) -> (r: Result<(), SettingsError>)
    ensures
        find_model(old(settings).models@, model_id@) is None ==> (r matches Err(
            SettingsError::UnknownModel(n),
        ) && n@ == model_id@) && *final(settings) == *old(settings),
        find_model(old(settings).models@, model_id@) matches Some(i) ==> {
            &&& r is Ok
            &&& final(settings).schema_version == old(settings).schema_version
            &&& final(settings).selected_model_id == old(settings).selected_model_id
            &&& final(settings).providers@ == old(settings).providers@
            &&& final(settings).models@ == old(settings).models@.update(
                i,
                model_after_test(old(settings).models@[i], *result, checked_at),
            )
        },
{
    let i = match find_model_index(&settings.models, model_id) {
        None => {
            return Err(SettingsError::UnknownModel(owned(model_id)));
        },
        Some(i) => i,
    };
    let mut model = settings.models[i].copied();
    model.last_test = Some(
        AgentModelTestResult {
            status: result.status.clone(),
            checked_at,
            latency_ms: result.latency_ms,
            error_class: clone_opt(&result.error_class),
            message: Some(result.message.clone()),
        },
    );
    if !str_eq(model.capabilities.source.as_str(), "declared") {
        model.capabilities = result.capabilities.copied();
    }
    settings.models.set(i, model);
    Ok(())
}

/// The tested runtime profile is still the one that model `m` and its
/// provider `p` give.
pub open spec fn profile_still_current(
    tested: AgentRuntimeModelProfile,
    m: AgentModelProfile,
    p: AgentProviderProfile,
) -> bool {
    &&& tested.profile_id@ == m.id@
    &&& tested.provider_kind@ == p.kind@
    &&& tested.runtime_provider_id@ == runtime_provider_id(p.id@)
    &&& opt_view(tested.registered_provider_id) == opt_view(p.registered_provider_id)
    &&& tested.model_id@ == m.model_id@
    &&& opt_view(tested.api_key_env) == opt_view(p.api_key_env)
    &&& tested.api_key_required == p.api_key_required
    &&& opt_view(tested.base_url) == opt_view(p.base_url)
    &&& opt_view(tested.base_url_env) == opt_view(p.base_url_env)
    &&& opt_view(tested.wire_api) == opt_view(p.wire_api)
    &&& tested.disable_stream_options == match p.disable_stream_options {
        Some(b) => b,
        None => false,
    }
    &&& tested.tool_calling@ == m.capabilities.tool_calling@
    &&& tested.provider_display_name@ == p.display_name@
    &&& tested.model_display_name@ == m.display_name@
}

/// What recording a finished test of `model_id` in the latest settings gives:
/// the reason the model no longer resolves, `ConfigurationChanged` when its
/// runtime profile is no longer the tested one, the first rule the updated
/// settings break, or the updated settings.
pub open spec fn recorded_test(
    latest: AgentLlmSettings,
    model_id: Seq<char>,
    tested: AgentRuntimeModelProfile,
    result: AgentConnectionTestResponse,
    checked_at: String,
    r: Result<AgentLlmSettings, SettingsError>,
) -> bool {
    let ms = latest.models@;
    let ps = latest.providers@;
    match find_model(ms, model_id) {
        None => r matches Err(SettingsError::UnknownAgentModel(n)) && n@ == model_id,
        Some(i) => if !ms[i].enabled {
            r == Err::<AgentLlmSettings, SettingsError>(SettingsError::AgentModelDisabled)
        } else {
            match find_provider(ps, ms[i].provider_id@) {
                None => r == Err::<AgentLlmSettings, SettingsError>(
                    SettingsError::MissingProvider(ms[i].display_name),
                ),
                Some(j) => if ps[j].kind@ == "registered"@ && ps[j].registered_provider_id is None {
                    r == Err::<AgentLlmSettings, SettingsError>(
                        SettingsError::RegisteredRefMissing,
                    )
                } else if !profile_still_current(tested, ms[i], ps[j]) {
                    r == Err::<AgentLlmSettings, SettingsError>(
                        SettingsError::ConfigurationChanged,
                    )
                } else {
                    let after = ms.update(i, model_after_test(ms[i], result, checked_at));
                    match settings_error_of(
                        latest.schema_version,
                        latest.selected_model_id@,
                        ps,
                        after,
                    ) {
                        Some(e) => r == Err::<AgentLlmSettings, SettingsError>(e),
                        None => r matches Ok(x) && x.schema_version == latest.schema_version
                            && x.selected_model_id == latest.selected_model_id && x.providers@
                            == ps && x.models@ == after,
                    }
                },
            }
        },
    }
}

/// Records a finished test, checked at `checked_at`, in the latest settings,
/// unless the tested model's configuration changed while the test ran; the
/// result must still be valid.
pub fn record_connection_test(
    latest: AgentLlmSettings,
    model_id: &str,
    tested: &AgentRuntimeModelProfile,
    result: &AgentConnectionTestResponse,
    checked_at: String,
) -> (r: Result<AgentLlmSettings, SettingsError>)
    ensures
        recorded_test(latest, model_id@, *tested, *result, checked_at, r),
{
    let resolved = match resolve_model_with_settings(&latest, Some(model_id)) {
        Err(e) => {
            return Err(e);
        },
        Ok(x) => x,
    };
    if !runtime_profiles_equal(&resolved.runtime_profile, tested) {
        return Err(SettingsError::ConfigurationChanged);
    }
    let mut latest = latest;
    let updated = update_model_after_test(&mut latest, model_id, result, checked_at);
    match updated {
        Err(e) => Err(e),
        Ok(()) => match validate_settings(&latest) {
            Ok(()) => Ok(latest),
            Err(e) => Err(e),
        },
    }
}

/// Marks a running test as cancelled; gives the id of the process to stop.
pub fn cancel_test(state: &mut AgentModelTestState) -> (r: Option<u32>)
    ensures
        r == old(state).pid,
        final(state).pid == old(state).pid,
        final(state).cancel_requested == (old(state).cancel_requested || old(state).pid is Some),
{
    let pid = state.pid;
    if pid.is_some() {
        state.cancel_requested = true;
    }
    pid
}

// ---------------------------------------------------------------------------
// Defaults and locations.
// ---------------------------------------------------------------------------

pub open spec fn default_settings_spec(s: AgentLlmSettings) -> bool {
    &&& s.schema_version == 1
    &&& s.selected_model_id@ == "model-deepseek-v4-flash"@
    &&& s.providers@.len() == 1
    &&& s.models@.len() == 1
    &&& s.providers@[0].id@ == "provider-deepseek-existing"@
    &&& s.providers@[0].display_name@ == "DeepSeek"@
    &&& s.providers@[0].kind@ == "registered"@
    &&& opt_view(s.providers@[0].registered_provider_id) == Some("deepseek"@)
    &&& opt_view(s.providers@[0].api_key_env) == Some("DEEPSEEK_API_KEY"@)
    &&& s.providers@[0].api_key_required
    &&& s.providers@[0].base_url is None
    &&& s.providers@[0].base_url_env is None
    &&& s.providers@[0].wire_api is None
    &&& s.providers@[0].disable_stream_options is None
    &&& s.models@[0].id@ == "model-deepseek-v4-flash"@
    &&& s.models@[0].provider_id@ == "provider-deepseek-existing"@
    &&& s.models@[0].display_name@ == "DeepSeek V4 Flash"@
    &&& s.models@[0].model_id@ == "deepseek-v4-flash"@
    &&& s.models@[0].enabled
    &&& s.models@[0].capabilities.tool_calling@ == "yes"@
    &&& s.models@[0].capabilities.reasoning@ == "yes"@
    &&& s.models@[0].capabilities.vision_input@ == "no"@
    &&& s.models@[0].capabilities.source@ == "catalog"@
    &&& s.models@[0].last_test is None
}

/// The settings used before the user saved any: DeepSeek V4 Flash through the
/// registered DeepSeek provider.
pub fn default_settings() -> (r: AgentLlmSettings)
    ensures
        default_settings_spec(r),
{
    let provider = AgentProviderProfile {
        id: owned("provider-deepseek-existing"),
        display_name: owned("DeepSeek"),
        kind: owned("registered"),
        registered_provider_id: Some(owned("deepseek")),
        api_key_env: Some(owned("DEEPSEEK_API_KEY")),
        api_key_required: true,
        base_url: None,
        base_url_env: None,
        wire_api: None,
        disable_stream_options: None,
    };
    let model = AgentModelProfile {
        id: owned("model-deepseek-v4-flash"),
        provider_id: owned("provider-deepseek-existing"),
        display_name: owned("DeepSeek V4 Flash"),
        model_id: owned("deepseek-v4-flash"),
        enabled: true,
        capabilities: AgentModelCapabilities {
            tool_calling: owned("yes"),
            reasoning: owned("yes"),
            vision_input: owned("no"),
            source: owned("catalog"),
        },
        last_test: None,
    };
    let mut providers: Vec<AgentProviderProfile> = Vec::new();
    providers.push(provider);
    let mut models: Vec<AgentModelProfile> = Vec::new();
    models.push(model);
    AgentLlmSettings {
        schema_version: 1,
        selected_model_id: owned("model-deepseek-v4-flash"),
        providers,
        models,
    }
}

/// `dir` joined with a relative file name, with `/` between them.
pub open spec fn join_path(dir: Seq<char>, name: Seq<char>) -> Seq<char> {
    if dir.len() == 0 {
        name
    } else if dir[dir.len() - 1] == '/' {
        dir + name
    } else {
        dir + "/"@ + name
    }
}

/// Where the settings document lives in the data directory.
pub fn settings_path(data_dir: &str) -> (r: String)
    ensures
        r@ == join_path(data_dir@, "llm-profiles.json"@),
{
    let d = chars_of(data_dir);
    if d.len() == 0 {
        owned("llm-profiles.json")
    } else if d[d.len() - 1] == '/' {
        concat(data_dir, "llm-profiles.json")
    } else {
        let head = concat(data_dir, "/");
        concat(head.as_str(), "llm-profiles.json")
    }
}

/// The user environment file named by an inherited `R_ENVIRON_USER`, with
/// backslashes turned into slashes; an empty value names none.
pub fn inherited_user_environ(inherited: Option<String>) -> (r: Option<AgentUserEnvironInfo>)
    ensures
        match inherited {
            Some(v) if v@.len() > 0 => r matches Some(info) && info.path@ == replace_char_seq(
                v@,
                '\\',
                '/',
            ) && info.source@ == "inherited"@,
            _ => r is None,
        },
{
    match inherited {
        Some(v) => {
            if char_count(v.as_str()) == 0 {
                None
            } else {
                Some(
                    AgentUserEnvironInfo {
                        path: replace_char(v.as_str(), '\\', '/'),
                        source: owned("inherited"),
                    },
                )
            }
        },
        None => None,
    }
}

/// The user environment file R reported, trimmed; blank output names none.
pub fn probed_user_environ(stdout: &str) -> (r: Option<AgentUserEnvironInfo>)
    ensures
        trim(stdout@).len() == 0 ==> r is None,
        trim(stdout@).len() > 0 ==> (r matches Some(info) && info.path@ == trim(stdout@)
            && info.source@ == "default"@),
{
    let path = str_trim(stdout);
    if char_count(path.as_str()) == 0 {
        None
    } else {
        Some(AgentUserEnvironInfo { path, source: owned("default") })
    }
}

} // verus!

verus! {

/// The label a settings field goes by in messages.
pub open spec fn field_label(f: SettingsField) -> Seq<char> {
    match f {
        SettingsField::SelectedModelId => "Selected model ID"@,
        SettingsField::ProviderId => "Provider ID"@,
        SettingsField::ProviderDisplayName => "Provider display name"@,
        SettingsField::RegisteredProviderId => "Registered provider ID"@,
        SettingsField::BaseUrl => "Base URL"@,
        SettingsField::ModelId => "Model ID"@,
        SettingsField::ProviderReference => "Provider reference"@,
        SettingsField::ModelDisplayName => "Model display name"@,
        SettingsField::ProviderModelId => "Provider model ID"@,
    }
}

fn field_label_exec(f: SettingsField) -> (r: &'static str)
    ensures
        r@ == field_label(f),
{
    match f {
        SettingsField::SelectedModelId => "Selected model ID",
        SettingsField::ProviderId => "Provider ID",
        SettingsField::ProviderDisplayName => "Provider display name",
        SettingsField::RegisteredProviderId => "Registered provider ID",
        SettingsField::BaseUrl => "Base URL",
        SettingsField::ModelId => "Model ID",
        SettingsField::ProviderReference => "Provider reference",
        SettingsField::ModelDisplayName => "Model display name",
        SettingsField::ProviderModelId => "Provider model ID",
    }
}

/// The message a settings error shows the user.
pub open spec fn settings_error_text(e: SettingsError) -> Seq<char> {
    match e {
        SettingsError::UnsupportedSchemaVersion => "Unsupported Agent LLM schema version."@,
        SettingsError::Empty(f) => field_label(f) + " must not be empty."@,
        SettingsError::TooLong(f) => field_label(f) + " is too long."@,
        SettingsError::NoProviders => "At least one provider is required."@,
        SettingsError::NoModels => "At least one model is required."@,
        SettingsError::UnsupportedProviderKind => "Unsupported provider type."@,
        SettingsError::RegisteredIdMissing => "Registered providers require a provider ID."@,
        SettingsError::EnvNameMissing => "Missing required environment variable name."@,
        SettingsError::EnvNameStart =>
            "Environment variable names must start with a letter or underscore."@,
        SettingsError::EnvNameChars =>
            "Environment variable names may contain only letters, digits and underscores."@,
        SettingsError::BaseUrlScheme => "Base URLs must use http or https."@,
        SettingsError::BaseUrlUserInfo => "Base URLs must not contain user information."@,
        SettingsError::BaseUrlSecret =>
            "Put signed or secret-bearing endpoints in an environment variable."@,
        SettingsError::BaseUrlConflict =>
            "Use either Base URL or Base URL environment, not both."@,
        SettingsError::CompatibleBaseUrlMissing =>
            "Compatible providers require a base URL source."@,
        SettingsError::CompatibleWireApi => "Compatible providers require a supported wire API."@,
        SettingsError::BuiltInBaseUrl => "Built-in providers do not accept custom base URLs in V1."@,
        SettingsError::DuplicateProviderId => "Provider IDs must be unique."@,
        SettingsError::CapabilityValue => "Capability values must be yes, no or unknown."@,
        SettingsError::CapabilitySource =>
            "Capability source must be catalog, declared, probe or unknown."@,
        SettingsError::DuplicateModelId => "Model IDs must be unique."@,
        SettingsError::UnknownModelProvider => "Each model must reference an existing provider."@,
        SettingsError::SelectedModelMissing => "Selected model must exist."@,
        SettingsError::SelectedModelDisabled => "Selected model must remain enabled."@,
        SettingsError::ProviderHasModels =>
            "Delete the provider's models before removing the provider."@,
        SettingsError::UnknownProvider(id) => "Unknown provider: "@ + id@,
        SettingsError::UnknownModel(id) => "Unknown model: "@ + id@,
        SettingsError::ReplacementRequired =>
            "Select another enabled model before deleting the current default."@,
        SettingsError::UnknownReplacement(id) => "Unknown replacement model: "@ + id@,
        SettingsError::ReplacementDisabled => "Replacement model must remain enabled."@,
        SettingsError::ReplacementSame => "Replacement model must differ from the deleted model."@,
        SettingsError::SelectedMustBeEnabled => "Selected model must be enabled."@,
        SettingsError::UnknownAgentModel(id) => "Unknown Agent model: "@ + id@,
        SettingsError::AgentModelDisabled => "Selected Agent model is disabled."@,
        SettingsError::MissingProvider(name) => "Missing provider for Agent model "@ + name@,
        SettingsError::RegisteredRefMissing =>
            "Registered providers require a registered provider ID."@,
        SettingsError::ConfigurationChanged =>
            "The model configuration changed during the connection test; the test result was not saved."@,
    }
}

impl SettingsError {
    /// The message the error shows the user.
    pub fn message(&self) -> (r: String)
        ensures
            r@ == settings_error_text(*self),
    {
        match self {
            SettingsError::UnsupportedSchemaVersion => owned("Unsupported Agent LLM schema version."),
            SettingsError::Empty(f) => concat(field_label_exec(*f), " must not be empty."),
            SettingsError::TooLong(f) => concat(field_label_exec(*f), " is too long."),
            SettingsError::NoProviders => owned("At least one provider is required."),
            SettingsError::NoModels => owned("At least one model is required."),
            SettingsError::UnsupportedProviderKind => owned("Unsupported provider type."),
            SettingsError::RegisteredIdMissing => owned("Registered providers require a provider ID."),
            SettingsError::EnvNameMissing => owned("Missing required environment variable name."),
            SettingsError::EnvNameStart => owned(
                "Environment variable names must start with a letter or underscore.",
            ),
            SettingsError::EnvNameChars => owned(
                "Environment variable names may contain only letters, digits and underscores.",
            ),
            SettingsError::BaseUrlScheme => owned("Base URLs must use http or https."),
            SettingsError::BaseUrlUserInfo => owned("Base URLs must not contain user information."),
            SettingsError::BaseUrlSecret => owned(
                "Put signed or secret-bearing endpoints in an environment variable.",
            ),
            SettingsError::BaseUrlConflict => owned(
                "Use either Base URL or Base URL environment, not both.",
            ),
            SettingsError::CompatibleBaseUrlMissing => owned(
                "Compatible providers require a base URL source.",
            ),
            SettingsError::CompatibleWireApi => owned(
                "Compatible providers require a supported wire API.",
            ),
            SettingsError::BuiltInBaseUrl => owned(
                "Built-in providers do not accept custom base URLs in V1.",
            ),
            SettingsError::DuplicateProviderId => owned("Provider IDs must be unique."),
            SettingsError::CapabilityValue => owned("Capability values must be yes, no or unknown."),
            SettingsError::CapabilitySource => owned(
                "Capability source must be catalog, declared, probe or unknown.",
            ),
            SettingsError::DuplicateModelId => owned("Model IDs must be unique."),
            SettingsError::UnknownModelProvider => owned(
                "Each model must reference an existing provider.",
            ),
            SettingsError::SelectedModelMissing => owned("Selected model must exist."),
            SettingsError::SelectedModelDisabled => owned("Selected model must remain enabled."),
            SettingsError::ProviderHasModels => owned(
                "Delete the provider's models before removing the provider.",
            ),
            SettingsError::UnknownProvider(id) => concat("Unknown provider: ", id.as_str()),
            SettingsError::UnknownModel(id) => concat("Unknown model: ", id.as_str()),
            SettingsError::ReplacementRequired => owned(
                "Select another enabled model before deleting the current default.",
            ),
            SettingsError::UnknownReplacement(id) => concat(
                "Unknown replacement model: ",
                id.as_str(),
            ),
            SettingsError::ReplacementDisabled => owned("Replacement model must remain enabled."),
            SettingsError::ReplacementSame => owned(
                "Replacement model must differ from the deleted model.",
            ),
            SettingsError::SelectedMustBeEnabled => owned("Selected model must be enabled."),
            SettingsError::UnknownAgentModel(id) => concat("Unknown Agent model: ", id.as_str()),
            SettingsError::AgentModelDisabled => owned("Selected Agent model is disabled."),
            SettingsError::MissingProvider(name) => concat(
                "Missing provider for Agent model ",
                name.as_str(),
            ),
            SettingsError::RegisteredRefMissing => owned(
                "Registered providers require a registered provider ID.",
            ),
            SettingsError::ConfigurationChanged => owned(
                "The model configuration changed during the connection test; the test result was not saved.",
            ),
        }
    }
}

/// How an R JSON probe run ended, before its output is decoded: a cancelled
/// run is reported first, then one that timed out, then one whose R process
/// failed, with what R wrote to stderr; otherwise the output is decoded.
pub open spec fn probe_run_problem(cancelled: bool, timed_out: bool, succeeded: bool, stderr: Seq<
    char,
>) -> Option<Seq<char>> {
    if cancelled {
        Some("Agent model test cancelled."@)
    } else if timed_out {
        Some("Agent model test timed out after 30 seconds."@)
    } else if !succeeded {
        Some("R probe failed: "@ + stderr)
    } else {
        None
    }
}

pub fn check_probe_run(cancelled: bool, timed_out: bool, succeeded: bool, stderr: &str) -> (r:
    Result<(), String>)
    ensures
        match probe_run_problem(cancelled, timed_out, succeeded, stderr@) {
            Some(m) => r matches Err(e) && e@ == m,
            None => r is Ok,
        },
{
    if cancelled {
        return Err(owned("Agent model test cancelled."));
    }
    if timed_out {
        return Err(owned("Agent model test timed out after 30 seconds."));
    }
    if !succeeded {
        return Err(concat("R probe failed: ", stderr));
    }
    Ok(())
}

} // verus!
