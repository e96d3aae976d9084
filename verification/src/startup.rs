//! Runtime start-up: checking the R runtime probe, keeping diagnostics bounded
//! and free of secrets, and turning a start-up failure into a recoverable issue.
use vstd::prelude::*;

use crate::agent_turns::AgentRuntimeStatus;
use crate::text::{
    chars_of, contains_seq, find_exec, find_from, is_ws, lemma_find_from, lower_chars, lower_seq,
    owned, parse_u64, parse_u64_spec, replace_char, replace_char_seq, slice_chars, starts_with,
    starts_with_exec, str_contains, string_from_chars, trim, trim_chars, vec_eq, ws,
};

verus! {

pub const MAX_DIAGNOSTIC_CHARS: usize = 4096;

// ---------------------------------------------------------------------------
// Words (`str::split_whitespace`) and lines (`str::lines`).
// ---------------------------------------------------------------------------

/// The words finished within the first `n` characters, and the word in progress.
pub open spec fn split_state(s: Seq<char>, n: int) -> (Seq<Seq<char>>, Seq<char>)
    decreases n,
{
    if n <= 0 || n > s.len() {
        (Seq::empty(), Seq::empty())
    } else {
        let st = split_state(s, n - 1);
        if is_ws(s[n - 1]) {
            if st.1.len() > 0 {
                (st.0.push(st.1), Seq::empty())
            } else {
                st
            }
        } else {
            (st.0, st.1.push(s[n - 1]))
        }
    }
}

/// The maximal runs of non-whitespace characters, in order.
pub open spec fn split_ws(s: Seq<char>) -> Seq<Seq<char>> {
    let st = split_state(s, s.len() as int);
    if st.1.len() > 0 {
        st.0.push(st.1)
    } else {
        st.0
    }
}

/// The lines finished within the first `n` characters, and the line in progress.
pub open spec fn line_state(s: Seq<char>, n: int) -> (Seq<Seq<char>>, Seq<char>)
    decreases n,
{
    if n <= 0 || n > s.len() {
        (Seq::empty(), Seq::empty())
    } else {
        let st = line_state(s, n - 1);
        if s[n - 1] == '\n' {
            (st.0.push(strip_cr(st.1)), Seq::empty())
        } else {
            (st.0, st.1.push(s[n - 1]))
        }
    }
}

/// A line without the `\r` of a `\r\n` ending.
pub open spec fn strip_cr(l: Seq<char>) -> Seq<char> {
    if l.len() > 0 && l.last() == '\r' {
        l.drop_last()
    } else {
        l
    }
}

/// The lines of a text; a final line ending adds no empty line.
pub open spec fn lines(s: Seq<char>) -> Seq<Seq<char>> {
    let st = line_state(s, s.len() as int);
    if st.1.len() > 0 {
        st.0.push(st.1)
    } else {
        st.0
    }
}

/// Words joined by single spaces.
pub open spec fn join_space(ts: Seq<Seq<char>>) -> Seq<char>
    decreases ts.len(),
{
    if ts.len() == 0 {
        Seq::empty()
    } else if ts.len() == 1 {
        ts[0]
    } else {
        join_space(ts.drop_last()) + seq![' '] + ts.last()
    }
}

pub fn split_whitespace(v: &Vec<char>) -> (r: Vec<Vec<char>>)
    ensures
        r@.len() == split_ws(v@).len(),
        forall|i: int| 0 <= i < r@.len() ==> (#[trigger] r@[i])@ == split_ws(v@)[i],
{
    let mut done: Vec<Vec<char>> = Vec::new();
    let mut cur: Vec<char> = Vec::new();
    let mut i: usize = 0;
    while i < v.len()
        invariant
            0 <= i <= v@.len(),
            done@.len() == split_state(v@, i as int).0.len(),
            forall|k: int| 0 <= k < done@.len() ==> (#[trigger] done@[k])@ == split_state(v@, i as int).0[k],
            cur@ == split_state(v@, i as int).1,
        decreases v.len() - i,
    {
        let c = v[i];
        if ws(c) {
            if cur.len() > 0 {
                let finished = cur;
                done.push(finished);
                cur = Vec::new();
            }
        } else {
            cur.push(c);
        }
        i = i + 1;
    }
    if cur.len() > 0 {
        done.push(cur);
    }
    done
}

pub fn split_lines(v: &Vec<char>) -> (r: Vec<Vec<char>>)
    ensures
        r@.len() == lines(v@).len(),
        forall|i: int| 0 <= i < r@.len() ==> (#[trigger] r@[i])@ == lines(v@)[i],
{
    let mut done: Vec<Vec<char>> = Vec::new();
    let mut cur: Vec<char> = Vec::new();
    let mut i: usize = 0;
    while i < v.len()
        invariant
            0 <= i <= v@.len(),
            done@.len() == line_state(v@, i as int).0.len(),
            forall|k: int| 0 <= k < done@.len() ==> (#[trigger] done@[k])@ == line_state(v@, i as int).0[k],
            cur@ == line_state(v@, i as int).1,
        decreases v.len() - i,
    {
        let c = v[i];
        if c == '\n' {
            let mut finished = cur;
            if finished.len() > 0 && finished[finished.len() - 1] == '\r' {
                finished.pop();
                assert(finished@ =~= line_state(v@, i as int).1.drop_last());
            }
            done.push(finished);
            cur = Vec::new();
        } else {
            cur.push(c);
        }
        i = i + 1;
    }
    if cur.len() > 0 {
        done.push(cur);
    }
    done
}

fn join_words(ts: &Vec<Vec<char>>) -> (r: Vec<char>)
    ensures
        r@ == join_space(ts@.map_values(|t: Vec<char>| t@)),
{
    let ghost words = ts@.map_values(|t: Vec<char>| t@);
    let mut out: Vec<char> = Vec::new();
    let mut i: usize = 0;
    while i < ts.len()
        invariant
            0 <= i <= ts@.len(),
            words == ts@.map_values(|t: Vec<char>| t@),
            out@ == join_space(words.take(i as int)),
        decreases ts.len() - i,
    {
        assert(words.take(i + 1).drop_last() =~= words.take(i as int));
        if i > 0 {
            out.push(' ');
        }
        let mut k: usize = 0;
        let ghost base = out@;
        while k < ts[i].len()
            invariant
                0 <= i < ts@.len(),
                0 <= k <= ts@[i as int]@.len(),
                out@ == base + ts@[i as int]@.take(k as int),
            decreases ts@[i as int]@.len() - k,
        {
            out.push(ts[i][k]);
            k = k + 1;
        }
        assert(ts@[i as int]@.take(k as int) =~= ts@[i as int]@);
        assert(words.take(i + 1).last() == ts@[i as int]@);
        if i == 0 {
            assert(words.take(1).len() == 1);
            assert(out@ =~= words.take(1)[0]);
        } else {
            assert(out@ =~= join_space(words.take(i as int)) + seq![' '] + ts@[i as int]@);
        }
        i = i + 1;
    }
    assert(words.take(ts@.len() as int) =~= words);
    out
}

// ---------------------------------------------------------------------------
// Redacting diagnostics.
// ---------------------------------------------------------------------------

/// The first secret marker found in a lower-cased word, as its length and
/// position; markers are tried in order and each is found at its first place.
pub open spec fn secret_marker_at(lower: Seq<char>) -> Option<(int, int)> {
    if find_from(lower, "api_key="@, 0) is Some {
        Some((8, find_from(lower, "api_key="@, 0)->0))
    } else if find_from(lower, "apikey="@, 0) is Some {
        Some((7, find_from(lower, "apikey="@, 0)->0))
    } else if find_from(lower, "token="@, 0) is Some {
        Some((6, find_from(lower, "token="@, 0)->0))
    } else if find_from(lower, "authorization="@, 0) is Some {
        Some((14, find_from(lower, "authorization="@, 0)->0))
    } else {
        None
    }
}

/// A word with the value after a secret marker replaced by `<redacted>`.
pub open spec fn redact_word(t: Seq<char>) -> Seq<char> {
    match secret_marker_at(lower_seq(t)) {
        Some(m) => t.subrange(0, m.1 + m.0) + "<redacted>"@,
        None => t,
    }
}

/// The redacted words for the first `n` words, and whether the next word
/// follows `Bearer` and is to be redacted whole.
pub open spec fn redact_state(ts: Seq<Seq<char>>, n: int) -> (Seq<Seq<char>>, bool)
    decreases n,
{
    if n <= 0 || n > ts.len() {
        (Seq::empty(), false)
    } else {
        let st = redact_state(ts, n - 1);
        if st.1 {
            (st.0.push("<redacted>"@), false)
        } else if lower_seq(ts[n - 1]) == "bearer"@ {
            (st.0.push("Bearer"@), true)
        } else {
            (st.0.push(redact_word(ts[n - 1])), false)
        }
    }
}

pub open spec fn redact_words(ts: Seq<Seq<char>>) -> Seq<Seq<char>> {
    redact_state(ts, ts.len() as int).0
}

/// A diagnostic as it may be logged or shown: words separated by single
/// spaces, secrets redacted, at most 4096 characters.
pub open spec fn bounded_text(s: Seq<char>) -> Seq<char> {
    let j = join_space(redact_words(split_ws(s)));
    if j.len() <= MAX_DIAGNOSTIC_CHARS {
        j
    } else {
        j.take(MAX_DIAGNOSTIC_CHARS as int)
    }
}

fn marker_in(lower: &Vec<char>) -> (r: Option<(usize, usize)>)
    ensures
        match secret_marker_at(lower@) {
            Some(m) => r matches Some(x) && x.0 == m.0 && x.1 == m.1,
            None => r is None,
        },
{
    let m1 = chars_of("api_key=");
    let m2 = chars_of("apikey=");
    let m3 = chars_of("token=");
    let m4 = chars_of("authorization=");
    proof {
        reveal_strlit("api_key=");
        reveal_strlit("apikey=");
        reveal_strlit("token=");
        reveal_strlit("authorization=");
    }
    if let Some(i) = find_exec(lower, &m1, 0) {
        return Some((8, i));
    }
    if let Some(i) = find_exec(lower, &m2, 0) {
        return Some((7, i));
    }
    if let Some(i) = find_exec(lower, &m3, 0) {
        return Some((6, i));
    }
    if let Some(i) = find_exec(lower, &m4, 0) {
        return Some((14, i));
    }
    None
}

fn redact_one(t: &Vec<char>) -> (r: Vec<char>)
    ensures
        r@ == redact_word(t@),
{
    let n = t.len();
    let lower = lower_chars(t);
    match marker_in(&lower) {
        Some((len, idx)) => {
            proof {
                let m = if find_from(lower@, "api_key="@, 0) is Some {
                    "api_key="@
                } else if find_from(lower@, "apikey="@, 0) is Some {
                    "apikey="@
                } else if find_from(lower@, "token="@, 0) is Some {
                    "token="@
                } else {
                    "authorization="@
                };
                reveal_strlit("api_key=");
                reveal_strlit("apikey=");
                reveal_strlit("token=");
                reveal_strlit("authorization=");
                lemma_find_from(lower@, m, 0);
                assert(idx + len <= n);
            }
            let mut out = slice_chars(t, 0, idx + len);
            let mut tail = chars_of("<redacted>");
            out.append(&mut tail);
            out
        },
        None => slice_chars(t, 0, t.len()),
    }
}

/// Bounds a subprocess diagnostic before it is logged or shown: whitespace
/// runs become single spaces, values after `api_key=`, `apikey=`, `token=`,
/// `authorization=` and the word after `Bearer` become `<redacted>`, and the
/// text keeps its first 4096 characters.
pub fn bounded_diagnostic(value: &str) -> (r: String)
    ensures
        r@ == bounded_text(value@),
{
    let v = chars_of(value);
    let words = split_whitespace(&v);
    let ghost ws_words = split_ws(v@);
    let bearer = chars_of("bearer");
    let mut out: Vec<Vec<char>> = Vec::new();
    let mut redact_next = false;
    let mut i: usize = 0;
    while i < words.len()
        invariant
            0 <= i <= words@.len(),
            ws_words == split_ws(v@),
            v@ == value@,
            bearer@ == "bearer"@,
            words@.len() == ws_words.len(),
            forall|k: int| 0 <= k < words@.len() ==> (#[trigger] words@[k])@ == ws_words[k],
            out@.len() == redact_state(ws_words, i as int).0.len(),
            forall|k: int| 0 <= k < out@.len() ==> (#[trigger] out@[k])@ == redact_state(ws_words, i as int).0[k],
            redact_next == redact_state(ws_words, i as int).1,
        decreases words.len() - i,
    {
        let t = &words[i];
        if redact_next {
            out.push(chars_of("<redacted>"));
            redact_next = false;
        } else {
            let lower = lower_chars(t);
            if vec_eq(&lower, &bearer) {
                out.push(chars_of("Bearer"));
                redact_next = true;
            } else {
                out.push(redact_one(t));
            }
        }
        i = i + 1;
    }
    let joined = join_words(&out);
    proof {
        assert(out@.map_values(|t: Vec<char>| t@) =~= redact_words(ws_words));
    }
    let kept = if joined.len() <= MAX_DIAGNOSTIC_CHARS {
        joined
    } else {
        slice_chars(&joined, 0, MAX_DIAGNOSTIC_CHARS)
    };
    string_from_chars(&kept)
}

} // verus!

verus! {

// ---------------------------------------------------------------------------
// The R version.
// ---------------------------------------------------------------------------

/// A value the base R probe must report.
#[derive(Debug, Clone, Copy, PartialEq, Eq, Structural)]
pub enum ProbeField {
    Home,
    Version,
    VersionNumber,
    Libraries,
    ProfileUser,
    EnvironUser,
}

/// Why the base R runtime probe was refused.
#[derive(Debug, Clone, PartialEq, Eq)]
pub enum RuntimeProbeError {
    Missing(ProbeField),
    VersionNoMinor,
    VersionInvalid(String),
    VersionUnsupported(String),
}

/// The text before the first `.`.
pub open spec fn major_text(v: Seq<char>) -> Seq<char> {
    match find_from(v, "."@, 0) {
        Some(k) => v.take(k),
        None => v,
    }
}

/// The text between the first and the second `.`, if there is a first.
pub open spec fn minor_text(v: Seq<char>) -> Option<Seq<char>> {
    match find_from(v, "."@, 0) {
        None => None,
        Some(k) => {
            let rest = v.subrange(k + 1, v.len() as int);
            Some(major_text(rest))
        },
    }
}

/// The first problem with a version number, if any: Rho requires R 4.4 or later.
pub open spec fn version_problem(v: Seq<char>) -> Option<u8> {
    match parse_u64_spec(major_text(v)) {
        None => Some(1),
        Some(major) => match minor_text(v) {
            None => Some(0),
            Some(m) => match parse_u64_spec(m) {
                None => Some(1),
                Some(minor) => if major < 4 || (major == 4 && minor < 4) {
                    Some(2)
                } else {
                    None
                },
            },
        },
    }
}

pub open spec fn version_check(v: Seq<char>, r: Result<(), RuntimeProbeError>) -> bool {
    match version_problem(v) {
        None => r is Ok,
        Some(0) => r == Err::<(), RuntimeProbeError>(RuntimeProbeError::VersionNoMinor),
        Some(1) => r matches Err(RuntimeProbeError::VersionInvalid(s)) && s@ == v,
        Some(_) => r matches Err(RuntimeProbeError::VersionUnsupported(s)) && s@ == v,
    }
}

fn before_dot(v: &Vec<char>) -> (r: Vec<char>)
    ensures
        r@ == major_text(v@),
{
    let dot = chars_of(".");
    proof {
        reveal_strlit(".");
        lemma_find_from(v@, dot@, 0);
    }
    match find_exec(v, &dot, 0) {
        Some(k) => slice_chars(v, 0, k),
        None => slice_chars(v, 0, v.len()),
    }
}

/// Requires R 4.4 or later, reading major and minor from `major.minor...`.
pub fn ensure_supported_r_version(version: &str) -> (r: Result<(), RuntimeProbeError>)
    ensures
        version_check(version@, r),
{
    let v = chars_of(version);
    let n = v.len();
    let major_chars = before_dot(&v);
    let major = parse_u64(string_from_chars(&major_chars).as_str());
    let major = match major {
        None => {
            return Err(RuntimeProbeError::VersionInvalid(owned(version)));
        },
        Some(m) => m,
    };
    let dot = chars_of(".");
    proof {
        reveal_strlit(".");
        lemma_find_from(v@, dot@, 0);
    }
    let minor_chars = match find_exec(&v, &dot, 0) {
        None => {
            return Err(RuntimeProbeError::VersionNoMinor);
        },
        Some(k) => {
            let rest = slice_chars(&v, k + 1, n);
            before_dot(&rest)
        },
    };
    let minor = match parse_u64(string_from_chars(&minor_chars).as_str()) {
        None => {
            return Err(RuntimeProbeError::VersionInvalid(owned(version)));
        },
        Some(m) => m,
    };
    if major < 4 || (major == 4 && minor < 4) {
        return Err(RuntimeProbeError::VersionUnsupported(owned(version)));
    }
    Ok(())
}

// ---------------------------------------------------------------------------
// The base R probe.
// ---------------------------------------------------------------------------

/// The value after `prefix` on the first line that starts with it, trimmed.
pub open spec fn probe_value_from(ls: Seq<Seq<char>>, prefix: Seq<char>, i: int) -> Option<Seq<char>>
    decreases ls.len() - i,
{
    if i < 0 || i >= ls.len() {
        None
    } else if starts_with(ls[i], prefix) {
        Some(trim(ls[i].subrange(prefix.len() as int, ls[i].len() as int)))
    } else {
        probe_value_from(ls, prefix, i + 1)
    }
}

pub open spec fn probe_value_spec(stdout: Seq<char>, prefix: Seq<char>) -> Option<Seq<char>> {
    probe_value_from(lines(stdout), prefix, 0)
}

fn probe_value_in(ls: &Vec<Vec<char>>, prefix: &str) -> (r: Option<String>)
    ensures
        match probe_value_from(ls@.map_values(|t: Vec<char>| t@), prefix@, 0) {
            Some(x) => r matches Some(s) && s@ == x,
            None => r is None,
        },
{
    let ghost texts = ls@.map_values(|t: Vec<char>| t@);
    let p = chars_of(prefix);
    let mut i: usize = 0;
    while i < ls.len()
        invariant
            0 <= i <= ls@.len(),
            texts == ls@.map_values(|t: Vec<char>| t@),
            p@ == prefix@,
            probe_value_from(texts, prefix@, i as int) == probe_value_from(texts, prefix@, 0),
        decreases ls.len() - i,
    {
        let line = &ls[i];
        if starts_with_exec(line, &p) {
            let rest = slice_chars(line, p.len(), line.len());
            let t = trim_chars(&rest);
            return Some(string_from_chars(&t));
        }
        i = i + 1;
    }
    None
}

/// The value after `prefix` on the first line of `stdout` that starts with it,
/// trimmed.
pub fn probe_value(stdout: &str, prefix: &str) -> (r: Option<String>)
    ensures
        match probe_value_spec(stdout@, prefix@) {
            Some(x) => r matches Some(s) && s@ == x,
            None => r is None,
        },
{
    let v = chars_of(stdout);
    let ls = split_lines(&v);
    proof {
        assert(ls@.map_values(|t: Vec<char>| t@) =~= lines(stdout@));
    }
    probe_value_in(&ls, prefix)
}

/// What the base R probe reports about an R installation.
#[derive(Debug, Clone)]
pub struct RRuntimeProbe {
    pub r_home: String,
    pub r_version: String,
    pub r_libs: String,
    pub r_profile_user: String,
    pub r_environ_user: String,
}

pub open spec fn probe_reads(stdout: Seq<char>, prefix: Seq<char>, value: String) -> bool {
    probe_value_spec(stdout, prefix) == Some(value@)
}

/// What reading the base R probe gives: each marker is required in turn, and the
/// version number is checked before the remaining markers are read.
pub open spec fn runtime_probe_result(
    stdout: Seq<char>,
    r: Result<RRuntimeProbe, RuntimeProbeError>,
) -> bool {
    let home = probe_value_spec(stdout, "__RHO_HOME__"@);
    let version = probe_value_spec(stdout, "__RHO_VERSION__"@);
    let number = probe_value_spec(stdout, "__RHO_VERSION_NUMBER__"@);
    let libs = probe_value_spec(stdout, "__RHO_LIBS__"@);
    let profile = probe_value_spec(stdout, "__RHO_PROFILE_USER__"@);
    let environ = probe_value_spec(stdout, "__RHO_ENVIRON_USER__"@);
    if home is None {
        r == Err::<RRuntimeProbe, RuntimeProbeError>(RuntimeProbeError::Missing(ProbeField::Home))
    } else if version is None {
        r == Err::<RRuntimeProbe, RuntimeProbeError>(RuntimeProbeError::Missing(ProbeField::Version))
    } else if number is None {
        r == Err::<RRuntimeProbe, RuntimeProbeError>(
            RuntimeProbeError::Missing(ProbeField::VersionNumber),
        )
    } else if version_problem(number->0) is Some {
        version_check(number->0, match r {
            Ok(_) => Ok(()),
            Err(e) => Err(e),
        }) && r is Err
    } else if libs is None {
        r == Err::<RRuntimeProbe, RuntimeProbeError>(
            RuntimeProbeError::Missing(ProbeField::Libraries),
        )
    } else if profile is None {
        r == Err::<RRuntimeProbe, RuntimeProbeError>(
            RuntimeProbeError::Missing(ProbeField::ProfileUser),
        )
    } else if environ is None {
        r == Err::<RRuntimeProbe, RuntimeProbeError>(
            RuntimeProbeError::Missing(ProbeField::EnvironUser),
        )
    } else {
        r matches Ok(p) && p.r_home@ == home->0 && p.r_version@ == version->0 && p.r_libs@
            == libs->0 && p.r_profile_user@ == profile->0 && p.r_environ_user@ == environ->0
    }
}

fn required_value(stdout: &str, prefix: &str, field: ProbeField) -> (r: Result<
    String,
    RuntimeProbeError,
>)
    ensures
        match probe_value_spec(stdout@, prefix@) {
            Some(x) => r matches Ok(s) && s@ == x,
            None => r == Err::<String, RuntimeProbeError>(RuntimeProbeError::Missing(field)),
        },
{
    match probe_value(stdout, prefix) {
        Some(s) => Ok(s),
        None => Err(RuntimeProbeError::Missing(field)),
    }
}

/// Reads the base R probe's markers; the R version must be 4.4 or later.
pub fn parse_r_runtime_probe(stdout: &str) -> (r: Result<RRuntimeProbe, RuntimeProbeError>)
    ensures
        runtime_probe_result(stdout@, r),
{
    let r_home = match required_value(stdout, "__RHO_HOME__", ProbeField::Home) {
        Err(e) => {
            return Err(e);
        },
        Ok(v) => v,
    };
    let r_version = match required_value(stdout, "__RHO_VERSION__", ProbeField::Version) {
        Err(e) => {
            return Err(e);
        },
        Ok(v) => v,
    };
    let number = match required_value(
        stdout,
        "__RHO_VERSION_NUMBER__",
        ProbeField::VersionNumber,
    ) {
        Err(e) => {
            return Err(e);
        },
        Ok(v) => v,
    };
    match ensure_supported_r_version(number.as_str()) {
        Err(e) => {
            return Err(e);
        },
        Ok(()) => {},
    }
    let r_libs = match required_value(stdout, "__RHO_LIBS__", ProbeField::Libraries) {
        Err(e) => {
            return Err(e);
        },
        Ok(v) => v,
    };
    let r_profile_user = match required_value(
        stdout,
        "__RHO_PROFILE_USER__",
        ProbeField::ProfileUser,
    ) {
        Err(e) => {
            return Err(e);
        },
        Ok(v) => v,
    };
    let r_environ_user = match required_value(
        stdout,
        "__RHO_ENVIRON_USER__",
        ProbeField::EnvironUser,
    ) {
        Err(e) => {
            return Err(e);
        },
        Ok(v) => v,
    };
    Ok(RRuntimeProbe { r_home, r_version, r_libs, r_profile_user, r_environ_user })
}

} // verus!

verus! {

// ---------------------------------------------------------------------------
// Start-up issues.
// ---------------------------------------------------------------------------

#[derive(Debug, Clone, Copy, PartialEq, Eq, Structural)]
pub enum StartupSeverity {
    Recoverable,
    Fatal,
}

/// A start-up failure as the start-up screen presents it.
#[derive(Debug, Clone)]
pub struct StartupIssue {
    pub code: String,
    pub phase: String,
    pub severity: StartupSeverity,
    pub title: String,
    pub message: String,
    pub technical_detail: String,
    pub actions: Vec<String>,
    pub diagnostics_path: String,
}

pub open spec fn texts(v: Seq<String>) -> Seq<Seq<char>> {
    v.map_values(|s: String| s@)
}

pub open spec fn recovery_actions() -> Seq<Seq<char>> {
    seq!["retry"@, "choose_rscript"@, "copy_diagnostics"@, "open_log"@, "exit"@]
}

/// What a user may do after a recoverable start-up failure.
pub fn startup_recovery_actions() -> (r: Vec<String>)
    ensures
        texts(r@) == recovery_actions(),
{
    let mut v: Vec<String> = Vec::new();
    v.push(owned("retry"));
    v.push(owned("choose_rscript"));
    v.push(owned("copy_diagnostics"));
    v.push(owned("open_log"));
    v.push(owned("exit"));
    assert(texts(v@) =~= recovery_actions());
    v
}

pub open spec fn issue_of(
    r: StartupIssue,
    code: Seq<char>,
    phase: Seq<char>,
    severity: StartupSeverity,
    title: Seq<char>,
    message: Seq<char>,
    technical_detail: String,
    actions: Seq<String>,
    log_path: Seq<char>,
) -> bool {
    &&& r.code@ == code
    &&& r.phase@ == phase
    &&& r.severity == severity
    &&& r.title@ == title
    &&& r.message@ == message
    &&& r.technical_detail == technical_detail
    &&& r.actions@ == actions
    &&& r.diagnostics_path@ == replace_char_seq(log_path, '\\', '/')
}

/// A start-up issue; the diagnostics path is the start-up log's, with slashes.
pub fn startup_issue(
    code: &str,
    phase: &str,
    severity: StartupSeverity,
    title: &str,
    message: &str,
    technical_detail: String,
    actions: Vec<String>,
    log_path: &str,
) -> (r: StartupIssue)
    ensures
        issue_of(r, code@, phase@, severity, title@, message@, technical_detail, actions@, log_path@),
{
    StartupIssue {
        code: owned(code),
        phase: owned(phase),
        severity,
        title: owned(title),
        message: owned(message),
        technical_detail,
        actions,
        diagnostics_path: replace_char(log_path, '\\', '/'),
    }
}

/// Which start-up failure a detail describes, by the first phrase it contains.
pub open spec fn startup_class(d: Seq<char>) -> u8 {
    if contains_seq(d, "bundled Ark executable"@) {
        0
    } else if contains_seq(d, "selected Rscript path"@) || contains_seq(d, "RHO_RSCRIPT"@) {
        1
    } else if contains_seq(d, "Rscript.exe was not found"@) {
        2
    } else if contains_seq(d, "requires R 4.4"@) {
        3
    } else if contains_seq(d, "timed_out=true"@) {
        4
    } else if contains_seq(d, "R runtime probe failed"@) {
        5
    } else if contains_seq(d, "absent from runtime probe"@) {
        6
    } else {
        7
    }
}

pub open spec fn class_code(c: u8) -> Seq<char> {
    if c == 0 {
        "ARK_RESOURCE_MISSING"@
    } else if c == 1 {
        "R_PATH_INVALID"@
    } else if c == 2 {
        "R_NOT_FOUND"@
    } else if c == 3 {
        "R_VERSION_UNSUPPORTED"@
    } else if c == 4 {
        "R_PROBE_TIMED_OUT"@
    } else if c == 5 {
        "R_PROBE_EXITED"@
    } else if c == 6 {
        "R_PROBE_OUTPUT_INVALID"@
    } else {
        "R_PROBE_SPAWN_FAILED"@
    }
}

pub open spec fn class_phase(c: u8) -> Seq<char> {
    if c == 0 {
        "checking_installation"@
    } else if c == 1 || c == 2 {
        "locating_r"@
    } else {
        "probing_base_r"@
    }
}

pub open spec fn class_title(c: u8) -> Seq<char> {
    if c == 0 {
        "Rho installation needs repair"@
    } else if c == 1 {
        "The selected R installation is unavailable"@
    } else if c == 2 {
        "R was not found"@
    } else if c == 3 {
        "This R version is not supported"@
    } else if c == 4 {
        "R took too long to start"@
    } else if c == 5 {
        "R could not complete its runtime check"@
    } else if c == 6 {
        "R returned an incomplete runtime result"@
    } else {
        "Rho could not prepare the R runtime"@
    }
}

pub open spec fn class_message(c: u8) -> Seq<char> {
    if c == 0 {
        "The bundled Workspace R engine is missing. Reinstall Rho, then retry."@
    } else if c == 1 {
        "Choose Rscript.exe from an R 4.4 or later installation."@
    } else if c == 2 {
        "Rho requires R 4.4 or later. Install R or choose Rscript.exe manually."@
    } else if c == 3 {
        "Choose an R 4.4 or later installation, then retry."@
    } else if c == 4 {
        "Retry the runtime check or choose another Rscript.exe."@
    } else if c == 5 {
        "Your R installation was not changed. Retry or choose another Rscript.exe."@
    } else if c == 6 {
        "Retry the runtime check and copy diagnostics if it continues."@
    } else {
        "Retry the check or choose Rscript.exe manually."@
    }
}

pub open spec fn class_actions(c: u8) -> Seq<Seq<char>> {
    if c == 0 {
        seq!["retry"@, "open_log"@, "exit"@]
    } else {
        recovery_actions()
    }
}

fn repair_actions() -> (r: Vec<String>)
    ensures
        texts(r@) == class_actions(0),
{
    let mut v: Vec<String> = Vec::new();
    v.push(owned("retry"));
    v.push(owned("open_log"));
    v.push(owned("exit"));
    assert(texts(v@) =~= class_actions(0));
    v
}

/// How a start-up failure is classified by the phrases its detail contains,
/// the first that applies winning: a missing bundled Ark executable needs a
/// repair of the installation; a bad selected Rscript path or `RHO_RSCRIPT` is
/// an invalid R path; a missing Rscript.exe means R was not found; `requires R
/// 4.4` is an unsupported version; then a timed-out, an exited and an
/// incomplete runtime probe; anything else is a probe that could not start.
pub proof fn law_startup_classification(d: Seq<char>)
    ensures
        contains_seq(d, "bundled Ark executable"@) ==> {
            &&& class_code(startup_class(d)) == "ARK_RESOURCE_MISSING"@
            &&& class_phase(startup_class(d)) == "checking_installation"@
            &&& class_title(startup_class(d)) == "Rho installation needs repair"@
        },
        !contains_seq(d, "bundled Ark executable"@) && (contains_seq(d, "selected Rscript path"@)
            || contains_seq(d, "RHO_RSCRIPT"@)) ==> {
            &&& class_code(startup_class(d)) == "R_PATH_INVALID"@
            &&& class_phase(startup_class(d)) == "locating_r"@
            &&& class_title(startup_class(d)) == "The selected R installation is unavailable"@
        },
        !contains_seq(d, "bundled Ark executable"@) && !contains_seq(d, "selected Rscript path"@)
            && !contains_seq(d, "RHO_RSCRIPT"@) && contains_seq(d, "Rscript.exe was not found"@)
            ==> {
            &&& class_code(startup_class(d)) == "R_NOT_FOUND"@
            &&& class_phase(startup_class(d)) == "locating_r"@
            &&& class_title(startup_class(d)) == "R was not found"@
        },
        !contains_seq(d, "bundled Ark executable"@) && !contains_seq(d, "selected Rscript path"@)
            && !contains_seq(d, "RHO_RSCRIPT"@) && !contains_seq(d, "Rscript.exe was not found"@)
            && contains_seq(d, "requires R 4.4"@) ==> {
            &&& class_code(startup_class(d)) == "R_VERSION_UNSUPPORTED"@
            &&& class_phase(startup_class(d)) == "probing_base_r"@
            &&& class_title(startup_class(d)) == "This R version is not supported"@
        },
        !contains_seq(d, "bundled Ark executable"@) && !contains_seq(d, "selected Rscript path"@)
            && !contains_seq(d, "RHO_RSCRIPT"@) && !contains_seq(d, "Rscript.exe was not found"@)
            && !contains_seq(d, "requires R 4.4"@) && contains_seq(d, "timed_out=true"@) ==> {
            &&& class_code(startup_class(d)) == "R_PROBE_TIMED_OUT"@
            &&& class_phase(startup_class(d)) == "probing_base_r"@
            &&& class_title(startup_class(d)) == "R took too long to start"@
        },
        !contains_seq(d, "bundled Ark executable"@) && !contains_seq(d, "selected Rscript path"@)
            && !contains_seq(d, "RHO_RSCRIPT"@) && !contains_seq(d, "Rscript.exe was not found"@)
            && !contains_seq(d, "requires R 4.4"@) && !contains_seq(d, "timed_out=true"@)
            && contains_seq(d, "R runtime probe failed"@) ==> {
            &&& class_code(startup_class(d)) == "R_PROBE_EXITED"@
            &&& class_phase(startup_class(d)) == "probing_base_r"@
            &&& class_title(startup_class(d)) == "R could not complete its runtime check"@
        },
        !contains_seq(d, "bundled Ark executable"@) && !contains_seq(d, "selected Rscript path"@)
            && !contains_seq(d, "RHO_RSCRIPT"@) && !contains_seq(d, "Rscript.exe was not found"@)
            && !contains_seq(d, "requires R 4.4"@) && !contains_seq(d, "timed_out=true"@)
            && !contains_seq(d, "R runtime probe failed"@) && contains_seq(
            d,
            "absent from runtime probe"@,
        ) ==> {
            &&& class_code(startup_class(d)) == "R_PROBE_OUTPUT_INVALID"@
            &&& class_phase(startup_class(d)) == "probing_base_r"@
            &&& class_title(startup_class(d)) == "R returned an incomplete runtime result"@
        },
        !contains_seq(d, "bundled Ark executable"@) && !contains_seq(d, "selected Rscript path"@)
            && !contains_seq(d, "RHO_RSCRIPT"@) && !contains_seq(d, "Rscript.exe was not found"@)
            && !contains_seq(d, "requires R 4.4"@) && !contains_seq(d, "timed_out=true"@)
            && !contains_seq(d, "R runtime probe failed"@) && !contains_seq(
            d,
            "absent from runtime probe"@,
        ) ==> {
            &&& class_code(startup_class(d)) == "R_PROBE_SPAWN_FAILED"@
            &&& class_phase(startup_class(d)) == "probing_base_r"@
            &&& class_title(startup_class(d)) == "Rho could not prepare the R runtime"@
        },
{
}

/// Turns a start-up failure's detail into a recoverable issue: the first phrase
/// the detail contains decides the code, phase, title, message and actions;
/// the detail is kept as technical detail.
pub fn classify_startup_error(detail: &str, log_path: &str) -> (r: StartupIssue)
    ensures
        ({
            let c = startup_class(detail@);
            &&& r.code@ == class_code(c)
            &&& r.phase@ == class_phase(c)
            &&& r.severity == StartupSeverity::Recoverable
            &&& r.title@ == class_title(c)
            &&& r.message@ == class_message(c)
            &&& r.technical_detail@ == detail@
            &&& texts(r.actions@) == class_actions(c)
            &&& r.diagnostics_path@ == replace_char_seq(log_path@, '\\', '/')
        }),
{
    let c: u8 = if str_contains(detail, "bundled Ark executable") {
        0
    } else if str_contains(detail, "selected Rscript path") || str_contains(detail, "RHO_RSCRIPT") {
        1
    } else if str_contains(detail, "Rscript.exe was not found") {
        2
    } else if str_contains(detail, "requires R 4.4") {
        3
    } else if str_contains(detail, "timed_out=true") {
        4
    } else if str_contains(detail, "R runtime probe failed") {
        5
    } else if str_contains(detail, "absent from runtime probe") {
        6
    } else {
        7
    };
    let code = if c == 0 {
        "ARK_RESOURCE_MISSING"
    } else if c == 1 {
        "R_PATH_INVALID"
    } else if c == 2 {
        "R_NOT_FOUND"
    } else if c == 3 {
        "R_VERSION_UNSUPPORTED"
    } else if c == 4 {
        "R_PROBE_TIMED_OUT"
    } else if c == 5 {
        "R_PROBE_EXITED"
    } else if c == 6 {
        "R_PROBE_OUTPUT_INVALID"
    } else {
        "R_PROBE_SPAWN_FAILED"
    };
    let phase = if c == 0 {
        "checking_installation"
    } else if c == 1 || c == 2 {
        "locating_r"
    } else {
        "probing_base_r"
    };
    let title = if c == 0 {
        "Rho installation needs repair"
    } else if c == 1 {
        "The selected R installation is unavailable"
    } else if c == 2 {
        "R was not found"
    } else if c == 3 {
        "This R version is not supported"
    } else if c == 4 {
        "R took too long to start"
    } else if c == 5 {
        "R could not complete its runtime check"
    } else if c == 6 {
        "R returned an incomplete runtime result"
    } else {
        "Rho could not prepare the R runtime"
    };
    let message = if c == 0 {
        "The bundled Workspace R engine is missing. Reinstall Rho, then retry."
    } else if c == 1 {
        "Choose Rscript.exe from an R 4.4 or later installation."
    } else if c == 2 {
        "Rho requires R 4.4 or later. Install R or choose Rscript.exe manually."
    } else if c == 3 {
        "Choose an R 4.4 or later installation, then retry."
    } else if c == 4 {
        "Retry the runtime check or choose another Rscript.exe."
    } else if c == 5 {
        "Your R installation was not changed. Retry or choose another Rscript.exe."
    } else if c == 6 {
        "Retry the runtime check and copy diagnostics if it continues."
    } else {
        "Retry the check or choose Rscript.exe manually."
    };
    let actions = if c == 0 {
        repair_actions()
    } else {
        startup_recovery_actions()
    };
    startup_issue(
        code,
        phase,
        StartupSeverity::Recoverable,
        title,
        message,
        owned(detail),
        actions,
        log_path,
    )
}

} // verus!

verus! {

pub open spec fn probe_field_text(f: ProbeField) -> Seq<char> {
    match f {
        ProbeField::Home => "R home was absent from runtime probe"@,
        ProbeField::Version => "R version was absent from runtime probe"@,
        ProbeField::VersionNumber => "R version number was absent from runtime probe"@,
        ProbeField::Libraries => "R library paths were absent from runtime probe"@,
        ProbeField::ProfileUser => "R user profile path was absent from runtime probe"@,
        ProbeField::EnvironUser => "R user environment path was absent from runtime probe"@,
    }
}

/// The message a probe error shows.
pub open spec fn probe_error_text(e: RuntimeProbeError) -> Seq<char> {
    match e {
        RuntimeProbeError::Missing(f) => probe_field_text(f),
        RuntimeProbeError::VersionNoMinor => "R version has no minor component"@,
        RuntimeProbeError::VersionInvalid(v) => "invalid R version `"@ + v@ + "`"@,
        RuntimeProbeError::VersionUnsupported(v) => "Rho requires R 4.4 or later; found R "@ + v@,
    }
}

impl RuntimeProbeError {
    pub fn message(&self) -> (r: String)
        ensures
            r@ == probe_error_text(*self),
    {
        match self {
            RuntimeProbeError::Missing(f) => owned(
                match f {
                    ProbeField::Home => "R home was absent from runtime probe",
                    ProbeField::Version => "R version was absent from runtime probe",
                    ProbeField::VersionNumber => "R version number was absent from runtime probe",
                    ProbeField::Libraries => "R library paths were absent from runtime probe",
                    ProbeField::ProfileUser => "R user profile path was absent from runtime probe",
                    ProbeField::EnvironUser => "R user environment path was absent from runtime probe",
                },
            ),
            RuntimeProbeError::VersionNoMinor => owned("R version has no minor component"),
            RuntimeProbeError::VersionInvalid(v) => {
                let a = crate::text::concat("invalid R version `", v.as_str());
                crate::text::concat(a.as_str(), "`")
            },
            RuntimeProbeError::VersionUnsupported(v) => crate::text::concat(
                "Rho requires R 4.4 or later; found R ",
                v.as_str(),
            ),
        }
    }
}

} // verus!

verus! {

/// The runtime the workbench found, as the start-up screen shows it.
#[derive(Debug, Clone)]
pub struct StartupRuntimeView {
    pub rscript: String,
    pub r_version: String,
    pub agent_runtime: AgentRuntimeStatus,
}

/// What the start-up screen shows: the phase, whether a check is running,
/// the runtime found and the issue to resolve.
#[derive(Debug, Clone)]
pub struct StartupView {
    pub phase: String,
    pub busy: bool,
    pub runtime: Option<StartupRuntimeView>,
    pub issue: Option<StartupIssue>,
}

/// Whether a start-up request probes the runtime: not when a runtime is
/// configured and no other Rscript was chosen, and not while a probe runs;
/// then the current view answers it.
pub fn bootstrap_probes(configured: bool, rscript_selected: bool, busy: bool) -> (r: bool)
    ensures
        r == !((configured && !rscript_selected) || busy),
{
    if configured && !rscript_selected {
        return false;
    }
    !busy
}

/// The view while the runtime is probed: busy, without an issue.
pub fn probing_view(view: StartupView) -> (r: StartupView)
    ensures
        r.phase@ == "probing_runtime"@,
        r.busy,
        r.issue is None,
        r.runtime == view.runtime,
{
    StartupView { phase: owned("probing_runtime"), busy: true, runtime: view.runtime, issue: None }
}

/// The view once the runtime is ready; the Rscript path is shown with `/`.
pub fn ready_view(rscript: &str, r_version: String, agent_runtime: AgentRuntimeStatus) -> (r:
    StartupView)
    ensures
        r.phase@ == "runtime_ready"@,
        !r.busy,
        r.issue is None,
        r.runtime matches Some(rt) && rt.rscript@ == replace_char_seq(rscript@, '\\', '/')
            && rt.r_version == r_version && rt.agent_runtime == agent_runtime,
{
    StartupView {
        phase: owned("runtime_ready"),
        busy: false,
        runtime: Some(
            StartupRuntimeView { rscript: replace_char(rscript, '\\', '/'), r_version, agent_runtime },
        ),
        issue: None,
    }
}

/// The view after the runtime failed its checks: the classified issue.
pub fn needs_attention_view(detail: &str, log_path: &str) -> (r: StartupView)
    ensures
        r.phase@ == "needs_attention"@,
        !r.busy,
        r.runtime is None,
        r.issue matches Some(i) && i.code@ == class_code(startup_class(detail@))
            && i.technical_detail@ == detail@,
{
    StartupView {
        phase: owned("needs_attention"),
        busy: false,
        runtime: None,
        issue: Some(classify_startup_error(detail, log_path)),
    }
}

/// The view when the probe itself could not run.
pub fn probe_spawn_failed_view(detail: String, log_path: &str) -> (r: StartupView)
    ensures
        r.phase@ == "needs_attention"@,
        !r.busy,
        r.runtime is None,
        r.issue matches Some(i) && i.code@ == "R_PROBE_SPAWN_FAILED"@ && i.phase@
            == "probing_base_r"@ && i.severity == StartupSeverity::Recoverable && i.title@
            == "Rho could not check R"@ && i.message@
            == "Retry the check or choose Rscript.exe manually."@ && i.technical_detail == detail
            && texts(i.actions@) == recovery_actions(),
{
    StartupView {
        phase: owned("needs_attention"),
        busy: false,
        runtime: None,
        issue: Some(
            startup_issue(
                "R_PROBE_SPAWN_FAILED",
                "probing_base_r",
                StartupSeverity::Recoverable,
                "Rho could not check R",
                "Retry the check or choose Rscript.exe manually.",
                detail,
                startup_recovery_actions(),
                log_path,
            ),
        ),
    }
}

/// The view when the start-up state cannot be read.
pub fn state_unavailable_view(log_path: &str) -> (r: StartupView)
    ensures
        r.phase@ == "failed"@,
        !r.busy,
        r.runtime is None,
        r.issue matches Some(i) && i.code@ == "APP_STATE_UNAVAILABLE"@ && i.phase@
            == "shell_ready"@ && i.severity == StartupSeverity::Fatal && i.technical_detail@
            == "startup state lock was poisoned"@ && texts(i.actions@) == seq![
            "open_log"@,
            "exit"@,
        ],
{
    let mut actions: Vec<String> = Vec::new();
    actions.push(owned("open_log"));
    actions.push(owned("exit"));
    assert(texts(actions@) =~= seq!["open_log"@, "exit"@]);
    StartupView {
        phase: owned("failed"),
        busy: false,
        runtime: None,
        issue: Some(
            startup_issue(
                "APP_STATE_UNAVAILABLE",
                "shell_ready",
                StartupSeverity::Fatal,
                "Rho could not read its startup state",
                "Restart Rho. If the problem continues, open the diagnostic log.",
                owned("startup state lock was poisoned"),
                actions,
                log_path,
            ),
        ),
    }
}

} // verus!
