//! The details a lifecycle journal entry may carry: a small JSON object of
//! flat, harmless values. Names that suggest handles, credentials, content or
//! paths are refused, and so are values that look like handles, URLs or paths.
use serde_json::Value;
use vstd::prelude::*;

use crate::plugin_lifecycle::{LifecycleError, MAX_DETAILS_BYTES, MAX_DETAIL_FIELDS};
use crate::text::{chars_of, contains_exec, contains_seq, control, is_control, lower_chars, lower_seq};

verus! {

/// The longest field name, in bytes.
pub const MAX_DETAIL_KEY_BYTES: usize = 64;

/// The longest text value, in bytes.
pub const MAX_DETAIL_TEXT_BYTES: usize = 128;

/// What kind of JSON value a member holds.
#[derive(Debug, Clone, Copy, PartialEq, Eq, Structural)]
pub enum DetailKind {
    Null,
    Bool,
    Number,
    Text,
    Array,
    Object,
}

/// A member of a details object: its name, the kind of its value, and the
/// value's text where it is a string (empty otherwise).
pub type DetailMember = (String, DetailKind, String);

pub open spec fn member_view(m: DetailMember) -> (Seq<char>, DetailKind, Seq<char>) {
    (m.0@, m.1, m.2@)
}

pub open spec fn members_view(ms: Seq<DetailMember>) -> Seq<(Seq<char>, DetailKind, Seq<char>)> {
    ms.map_values(|m: DetailMember| member_view(m))
}

/// The members of the JSON text, in the order `serde_json` keeps them: `None`
/// when the text is not JSON, `Some(None)` when it is JSON but no object.
pub uninterp spec fn json_object_members(text: Seq<char>) -> Option<
    Option<Seq<(Seq<char>, DetailKind, Seq<char>)>>,
>;

/// The compact text `serde_json` writes for the JSON value of a text.
pub uninterp spec fn json_compact_text(text: Seq<char>) -> Seq<char>;

/// `serde_json::from_str::<serde_json::Value>`, read as the members of an
/// object. The contract names the result; parsing is the crate's.
#[verifier::external_body]
fn parse_object_members(text: &str) -> (r: Option<Option<Vec<DetailMember>>>)
    ensures
        match r {
            None => json_object_members(text@) is None,
            Some(None) => json_object_members(text@) == Some(
                None::<Seq<(Seq<char>, DetailKind, Seq<char>)>>,
            ),
            Some(Some(ms)) => json_object_members(text@) == Some(Some(members_view(ms@))),
        },
{
    let value: Value = match serde_json::from_str(text) {
        Ok(v) => v,
        Err(_) => return None,
    };
    let Value::Object(map) = value else { return Some(None) };
    Some(Some(map.into_iter().map(|(k, v)| match v {
        Value::Null => (k, DetailKind::Null, String::new()),
        Value::Bool(_) => (k, DetailKind::Bool, String::new()),
        Value::Number(_) => (k, DetailKind::Number, String::new()),
        Value::String(s) => (k, DetailKind::Text, s),
        Value::Array(_) => (k, DetailKind::Array, String::new()),
        Value::Object(_) => (k, DetailKind::Object, String::new()),
    }).collect()))
}

/// `serde_json::to_string` of the value that `serde_json::from_str` reads
/// from a text that parses. The contract names the result.
#[verifier::external_body]
fn compact_json(text: &str) -> (r: String)
    requires
        json_object_members(text@) is Some,
    ensures
        r@ == json_compact_text(text@),
{
    serde_json::from_str::<Value>(text).map(|v| v.to_string()).unwrap_or_default()
}

/// Words that a field name must not hold, in any letter case.
pub open spec fn forbidden_key_word(lower: Seq<char>) -> bool {
    ||| contains_seq(lower, "handle"@)
    ||| contains_seq(lower, "credential"@)
    ||| contains_seq(lower, "token"@)
    ||| contains_seq(lower, "secret"@)
    ||| contains_seq(lower, "content"@)
    ||| contains_seq(lower, "payload"@)
    ||| contains_seq(lower, "url"@)
    ||| contains_seq(lower, "header"@)
    ||| contains_seq(lower, "wasm"@)
    ||| contains_seq(lower, "memory"@)
    ||| contains_seq(lower, "workspace_id"@)
    ||| contains_seq(lower, "full_path"@)
}

pub open spec fn has_control(s: Seq<char>) -> bool {
    exists|i: int| 0 <= i < s.len() && is_control(#[trigger] s[i])
}

/// A field name that is refused.
pub open spec fn key_forbidden(k: Seq<char>) -> bool {
    ||| k.len() == 0
    ||| vstd::utf8::encode_utf8(k).len() > MAX_DETAIL_KEY_BYTES
    ||| has_control(k)
    ||| forbidden_key_word(lower_seq(k))
}

/// A value that may be journaled: null, a boolean, a number, or a short
/// text that names no handle, URL or path.
pub open spec fn value_safe(kind: DetailKind, text: Seq<char>) -> bool {
    match kind {
        DetailKind::Null | DetailKind::Bool | DetailKind::Number => true,
        DetailKind::Text => {
            &&& vstd::utf8::encode_utf8(text).len() <= MAX_DETAIL_TEXT_BYTES
            &&& !has_control(text)
            &&& !contains_seq(text, "handle."@)
            &&& !contains_seq(text, "://"@)
            &&& !contains_seq(text, "/"@)
            &&& !contains_seq(text, "\\"@)
        },
        DetailKind::Array | DetailKind::Object => false,
    }
}

pub open spec fn member_problem(m: (Seq<char>, DetailKind, Seq<char>)) -> Option<LifecycleError> {
    if key_forbidden(m.0) {
        Some(LifecycleError::DetailsForbiddenField)
    } else if !value_safe(m.1, m.2) {
        Some(LifecycleError::DetailsUnsafeValue)
    } else {
        None
    }
}

/// The problem of the first refused member from index `i` on.
pub open spec fn members_problem(ms: Seq<(Seq<char>, DetailKind, Seq<char>)>, i: int) -> Option<
    LifecycleError,
>
    decreases ms.len() - i,
{
    if i < 0 || i >= ms.len() {
        None
    } else if member_problem(ms[i]) is Some {
        member_problem(ms[i])
    } else {
        members_problem(ms, i + 1)
    }
}

fn has_control_exec(v: &Vec<char>) -> (r: bool)
    ensures
        r == has_control(v@),
{
    let n = v.len();
    let mut i: usize = 0;
    while i < n
        invariant
            n == v@.len(),
            0 <= i <= n,
            forall|k: int| 0 <= k < i ==> !is_control(#[trigger] v@[k]),
        decreases n - i,
    {
        if control(v[i]) {
            return true;
        }
        i = i + 1;
    }
    false
}

fn key_forbidden_exec(key: &str) -> (r: bool)
    ensures
        r == key_forbidden(key@),
{
    let k = chars_of(key);
    if k.len() == 0 || key.as_bytes().len() > MAX_DETAIL_KEY_BYTES || has_control_exec(&k) {
        return true;
    }
    let l = lower_chars(&k);
    contains_exec(&l, &chars_of("handle")) || contains_exec(&l, &chars_of("credential"))
        || contains_exec(&l, &chars_of("token")) || contains_exec(&l, &chars_of("secret"))
        || contains_exec(&l, &chars_of("content")) || contains_exec(&l, &chars_of("payload"))
        || contains_exec(&l, &chars_of("url")) || contains_exec(&l, &chars_of("header"))
        || contains_exec(&l, &chars_of("wasm")) || contains_exec(&l, &chars_of("memory"))
        || contains_exec(&l, &chars_of("workspace_id")) || contains_exec(
        &l,
        &chars_of("full_path"),
    )
}

fn value_safe_exec(kind: DetailKind, text: &str) -> (r: bool)
    ensures
        r == value_safe(kind, text@),
{
    match kind {
        DetailKind::Null | DetailKind::Bool | DetailKind::Number => true,
        DetailKind::Text => {
            let t = chars_of(text);
            text.as_bytes().len() <= MAX_DETAIL_TEXT_BYTES && !has_control_exec(&t) && !contains_exec(
                &t,
                &chars_of("handle."),
            ) && !contains_exec(&t, &chars_of("://")) && !contains_exec(&t, &chars_of("/"))
                && !contains_exec(&t, &chars_of("\\"))
        },
        DetailKind::Array | DetailKind::Object => false,
    }
}

/// Checks the members of a details object in order and reports the first
/// refused one.
pub fn check_detail_members(members: &Vec<DetailMember>) -> (r: Result<(), LifecycleError>)
    ensures
        match members_problem(members_view(members@), 0) {
            Some(e) => r == Err::<(), LifecycleError>(e),
            None => r == Ok::<(), LifecycleError>(()),
        },
{
    let ghost ms = members_view(members@);
    let n = members.len();
    let mut i: usize = 0;
    while i < n
        invariant
            n == members@.len(),
            ms == members_view(members@),
            ms.len() == n,
            0 <= i <= n,
            members_problem(ms, 0) == members_problem(ms, i as int),
        decreases n - i,
    {
        let m = &members[i];
        assert(ms[i as int] == member_view(members@[i as int]));
        if key_forbidden_exec(m.0.as_str()) {
            return Err(LifecycleError::DetailsForbiddenField);
        }
        if !value_safe_exec(m.1, m.2.as_str()) {
            return Err(LifecycleError::DetailsUnsafeValue);
        }
        i = i + 1;
    }
    Ok(())
}

/// The first problem of a details text, if any.
pub open spec fn details_problem(text: Seq<char>) -> Option<LifecycleError> {
    if vstd::utf8::encode_utf8(text).len() > MAX_DETAILS_BYTES {
        Some(LifecycleError::DetailsTooLarge)
    } else {
        match json_object_members(text) {
            None => Some(LifecycleError::DetailsNotJson),
            Some(None) => Some(LifecycleError::DetailsNotObject),
            Some(Some(ms)) => if ms.len() > MAX_DETAIL_FIELDS {
                Some(LifecycleError::DetailsTooManyFields)
            } else {
                members_problem(ms, 0)
            },
        }
    }
}

/// Checks the details of a journal entry and gives them in compact form.
pub fn validate_details_json(value: &str) -> (r: Result<String, LifecycleError>)
    ensures
        match details_problem(value@) {
            Some(e) => r == Err::<String, LifecycleError>(e),
            None => r matches Ok(s) && s@ == json_compact_text(value@),
        },
{
    if value.as_bytes().len() > MAX_DETAILS_BYTES {
        return Err(LifecycleError::DetailsTooLarge);
    }
    let members = match parse_object_members(value) {
        None => {
            return Err(LifecycleError::DetailsNotJson);
        },
        Some(None) => {
            return Err(LifecycleError::DetailsNotObject);
        },
        Some(Some(ms)) => ms,
    };
    proof {
        assert(members_view(members@).len() == members@.len());
    }
    if members.len() > MAX_DETAIL_FIELDS {
        return Err(LifecycleError::DetailsTooManyFields);
    }
    match check_detail_members(&members) {
        Err(e) => Err(e),
        Ok(()) => Ok(compact_json(value)),
    }
}

} // verus!
