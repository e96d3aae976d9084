//! The lifecycle rules of the compiled-in extension runtime: bounded host
//! messages, the runtime mode switch, the effects a plugin registers while it
//! activates and their reverse-order disposal, scope lifecycle states, registry
//! markers, building a candidate scope with rollback, disposing a scope tree,
//! publishing into a scope slot, and the reports all of this leaves behind.
//! Plugins, disposers, the clock and task draining stand behind traits; the
//! runner that calls them under their deadlines and contains their panics is
//! outside.
use vstd::prelude::*;
use vstd::string::StringSliceAdditionalSpecFns;
use vstd::utf8::{encode_scalar, encode_utf8};

use crate::text::{
    decimal, decimal_string, chars_of, clone_opt, concat, opt_eq, opt_view, owned, slice_chars, str_eq, string_from_chars,
};

verus! {

/// The longest host message, in bytes.
pub const MAX_RUNTIME_MESSAGE_BYTES: usize = 512;

// ---------------------------------------------------------------------------
// Bounded messages.
// ---------------------------------------------------------------------------

/// The UTF-8 length of a text.
pub open spec fn utf8_len(s: Seq<char>) -> int {
    encode_utf8(s).len() as int
}

proof fn lemma_encode_concat(a: Seq<char>, b: Seq<char>)
    ensures
        encode_utf8(a + b) == encode_utf8(a) + encode_utf8(b),
    decreases a.len(),
{
    if a.len() == 0 {
        assert(a + b =~= b);
        assert(encode_utf8(a) + encode_utf8(b) =~= encode_utf8(b));
    } else {
        assert((a + b).drop_first() =~= a.drop_first() + b);
        assert((a + b)[0] == a[0]);
        lemma_encode_concat(a.drop_first(), b);
        assert(encode_utf8(a + b) =~= encode_utf8(a) + encode_utf8(b));
    }
}

/// Extending a prefix by one character adds that character's width.
proof fn lemma_utf8_len_step(s: Seq<char>, k: int)
    requires
        0 <= k < s.len(),
    ensures
        utf8_len(s.take(k + 1)) == utf8_len(s.take(k)) + encode_scalar(s[k] as u32).len(),
{
    let one = seq![s[k]];
    assert(s.take(k + 1) =~= s.take(k) + one);
    lemma_encode_concat(s.take(k), one);
    assert(one.drop_first() =~= Seq::<char>::empty());
    assert(encode_utf8(one) =~= encode_scalar(s[k] as u32) + encode_utf8(one.drop_first()));
}

/// `char::len_utf8`.
fn char_width(c: char) -> (w: usize)
    ensures
        w == encode_scalar(c as u32).len(),
        1 <= w <= 4,
{
    proof {
        vstd::utf8::char_is_scalar(c);
    }
    let v = c as u32;
    if v <= 0x7f {
        1
    } else if v <= 0x7ff {
        2
    } else if v <= 0xffff {
        3
    } else {
        4
    }
}

/// What a bounded message holds: the text itself where it fits in 512 bytes,
/// else its longest prefix of at most 509 bytes followed by `…`.
pub open spec fn is_bounded_message(s: Seq<char>, r: Seq<char>) -> bool {
    if utf8_len(s) <= MAX_RUNTIME_MESSAGE_BYTES {
        r == s
    } else {
        exists|k: int|
            0 <= k <= s.len() && r == #[trigger] s.take(k) + "…"@ && utf8_len(s.take(k)) <= 509 && (k
                < s.len() ==> utf8_len(s.take(k + 1)) > 509)
    }
}

/// A bounded message never takes more than 512 bytes.
pub proof fn lemma_bounded_message_fits(s: Seq<char>, r: Seq<char>)
    requires
        is_bounded_message(s, r),
    ensures
        utf8_len(r) <= MAX_RUNTIME_MESSAGE_BYTES,
{
    if utf8_len(s) > MAX_RUNTIME_MESSAGE_BYTES {
        let k = choose|k: int|
            0 <= k <= s.len() && r == #[trigger] s.take(k) + "…"@ && utf8_len(s.take(k)) <= 509 && (k
                < s.len() ==> utf8_len(s.take(k + 1)) > 509);
        reveal_strlit("…");
        let mark = "…"@;
        assert(mark.len() == 1);
        assert(mark.drop_first() =~= Seq::<char>::empty());
        assert(encode_utf8(mark) =~= encode_scalar(mark[0] as u32) + encode_utf8(mark.drop_first()));
        assert(mark[0] == '…');
        assert(encode_scalar(mark[0] as u32).len() == 3);
        lemma_encode_concat(s.take(k), mark);
    }
}

/// Bounds a message to 512 bytes, cutting at a character boundary and
/// marking the cut with `…`.
pub fn bounded_message(value: String) -> (r: String)
    ensures
        is_bounded_message(value@, r@),
{
    if value.as_str().as_bytes().len() <= MAX_RUNTIME_MESSAGE_BYTES {
        return value;
    }
    let chars = chars_of(value.as_str());
    let n = chars.len();
    let mut k: usize = 0;
    let mut used: usize = 0;
    while k < n
        invariant_except_break
            n == chars@.len(),
            0 <= k <= n,
            used == utf8_len(chars@.take(k as int)),
            used <= 509,
        ensures
            0 <= k <= n,
            used == utf8_len(chars@.take(k as int)),
            used <= 509,
            k < n ==> utf8_len(chars@.take(k + 1)) > 509,
        decreases n - k,
    {
        let w = char_width(chars[k]);
        proof {
            lemma_utf8_len_step(chars@, k as int);
        }
        if used + w > 509 {
            break;
        }
        used = used + w;
        k = k + 1;
    }
    let mut out = slice_chars(&chars, 0, k);
    let mut mark = chars_of("…");
    out.append(&mut mark);
    assert(out@ == chars@.take(k as int) + "…"@);
    string_from_chars(&out)
}

// ---------------------------------------------------------------------------
// Identities and diagnostics.
// ---------------------------------------------------------------------------

/// The identity of a scope: its kind, its ID, its parent's ID and the
/// activation generation it was built for.
#[derive(Debug, Clone, PartialEq, Eq, PartialOrd, Ord, Hash)]
pub struct ScopeIdentity {
    pub kind: String,
    pub id: String,
    pub parent_id: Option<String>,
    pub generation: u64,
}

pub open spec fn same_scope(a: ScopeIdentity, b: ScopeIdentity) -> bool {
    &&& a.kind@ == b.kind@
    &&& a.id@ == b.id@
    &&& opt_view(a.parent_id) == opt_view(b.parent_id)
    &&& a.generation == b.generation
}

pub fn scope_eq(a: &ScopeIdentity, b: &ScopeIdentity) -> (r: bool)
    ensures
        r == same_scope(*a, *b),
{
    str_eq(a.kind.as_str(), b.kind.as_str()) && str_eq(a.id.as_str(), b.id.as_str()) && opt_eq(
        &a.parent_id,
        &b.parent_id,
    ) && a.generation == b.generation
}

impl ScopeIdentity {
    pub fn new(kind: String, id: String, parent_id: Option<String>, generation: u64) -> (r: Self)
        ensures
            r == (ScopeIdentity { kind, id, parent_id, generation }),
    {
        ScopeIdentity { kind, id, parent_id, generation }
    }

    pub fn copied(&self) -> (r: Self)
        ensures
            r == *self,
    {
        ScopeIdentity {
            kind: self.kind.clone(),
            id: self.id.clone(),
            parent_id: clone_opt(&self.parent_id),
            generation: self.generation,
        }
    }
}

/// A plugin activated in one scope.
#[derive(Debug, Clone, PartialEq, Eq, PartialOrd, Ord)]
pub struct PluginInstanceIdentity {
    pub plugin_id: String,
    pub scope: ScopeIdentity,
}

pub open spec fn same_instance(a: PluginInstanceIdentity, b: PluginInstanceIdentity) -> bool {
    a.plugin_id@ == b.plugin_id@ && same_scope(a.scope, b.scope)
}

pub fn instance_eq(a: &PluginInstanceIdentity, b: &PluginInstanceIdentity) -> (r: bool)
    ensures
        r == same_instance(*a, *b),
{
    str_eq(a.plugin_id.as_str(), b.plugin_id.as_str()) && scope_eq(&a.scope, &b.scope)
}

impl PluginInstanceIdentity {
    pub fn copied(&self) -> (r: Self)
        ensures
            r == *self,
    {
        PluginInstanceIdentity { plugin_id: self.plugin_id.clone(), scope: self.scope.copied() }
    }
}

#[derive(Debug, Clone, Copy, PartialEq, Eq, Structural)]
pub enum DiagnosticCode {
    InvalidRuntimeMode,
    ActivationStarted,
    ActivationSucceeded,
    ActivationFailed,
    ActivationRollbackFailed,
    EffectDisposeFailed,
    QuiesceStarted,
    QuiesceTimeout,
    ScopeDisposed,
    ScopeDisposeFailed,
    CandidateCasRejected,
    CandidatePublished,
}

#[derive(Debug, Clone, Copy, PartialEq, Eq, Structural)]
pub enum DiagnosticSeverity {
    Info,
    Warning,
    Error,
}

/// A typed, bounded diagnostic of the extension host.
#[derive(Debug, Clone, PartialEq, Eq)]
pub struct ExtensionDiagnostic {
    pub code: DiagnosticCode,
    pub severity: DiagnosticSeverity,
    pub plugin_id: Option<String>,
    pub capability_id: Option<String>,
    pub scope_kind: Option<String>,
    pub scope_id: Option<String>,
    pub activation_generation: Option<u64>,
    pub effect_order: Option<u64>,
    pub related_plugins: Vec<String>,
    pub cycle_path: Vec<String>,
    pub message: String,
}

/// Where the host sends its diagnostics. A sink that keeps what it is sent
/// (`keeps`) holds it in order; any other sink promises nothing about it.
pub trait DiagnosticSink {
    /// The diagnostics the sink holds, in the order it was sent them.
    open spec fn held(&self) -> Seq<ExtensionDiagnostic> {
        Seq::empty()
    }

    /// Whether the sink keeps what it is sent.
    open spec fn keeps(&self) -> bool {
        false
    }

    fn emit(&mut self, diagnostic: ExtensionDiagnostic)
        ensures
            final(self).keeps() == old(self).keeps(),
            final(self).held() == if old(self).keeps() {
                old(self).held().push(diagnostic)
            } else {
                old(self).held()
            },
    ;
}

/// A sink that drops every diagnostic.
#[derive(Debug, Default)]
pub struct NoopDiagnosticSink;

impl DiagnosticSink for NoopDiagnosticSink {
    fn emit(&mut self, diagnostic: ExtensionDiagnostic) {
    }
}

/// The diagnostics `b` holds start with those `a` holds.
pub open spec fn grows(a: Seq<ExtensionDiagnostic>, b: Seq<ExtensionDiagnostic>) -> bool {
    a.len() <= b.len() && b.subrange(0, a.len() as int) == a
}

pub proof fn lemma_grows_trans(
    a: Seq<ExtensionDiagnostic>,
    b: Seq<ExtensionDiagnostic>,
    c: Seq<ExtensionDiagnostic>,
)
    requires
        grows(a, b),
        grows(b, c),
    ensures
        grows(a, c),
{
    assert(c.subrange(0, a.len() as int) =~= c.subrange(0, b.len() as int).subrange(0, a.len() as int));
}

/// Sends one diagnostic: a sink never loses what it held.
fn send<S: DiagnosticSink>(sink: &mut S, diagnostic: ExtensionDiagnostic)
    ensures
        final(sink).keeps() == old(sink).keeps(),
        grows(old(sink).held(), final(sink).held()),
        old(sink).keeps() ==> final(sink).held() == old(sink).held().push(diagnostic),
{
    sink.emit(diagnostic);
    assert(sink.held().subrange(0, old(sink).held().len() as int) =~= old(sink).held());
}

/// A sink that keeps every diagnostic, in order.
#[derive(Debug)]
pub struct CollectingDiagnosticSink {
    diagnostics: Vec<ExtensionDiagnostic>,
}

impl CollectingDiagnosticSink {
    /// The diagnostics received so far, in order.
    pub closed spec fn received(&self) -> Seq<ExtensionDiagnostic> {
        self.diagnostics@
    }

    pub fn new() -> (r: Self)
        ensures
            r.received() == Seq::<ExtensionDiagnostic>::empty(),
    {
        CollectingDiagnosticSink { diagnostics: Vec::new() }
    }

    /// The number of diagnostics received so far.
    pub fn len(&self) -> (r: usize)
        ensures
            r == self.received().len(),
    {
        self.diagnostics.len()
    }

    /// The diagnostics received so far, in order.
    pub fn diagnostics(&self) -> (r: Vec<ExtensionDiagnostic>)
        ensures
            r@.len() == self.received().len(),
            forall|i: int| 0 <= i < r@.len() ==> same_diagnostic(#[trigger] r@[i], self.received()[i]),
    {
        let n = self.diagnostics.len();
        let mut out: Vec<ExtensionDiagnostic> = Vec::new();
        let mut i: usize = 0;
        while i < n
            invariant
                n == self.diagnostics@.len(),
                0 <= i <= n,
                out@.len() == i,
                forall|k: int| 0 <= k < i ==> same_diagnostic(#[trigger] out@[k], self.diagnostics@[k]),
            decreases n - i,
        {
            out.push(self.diagnostics[i].copied());
            i = i + 1;
        }
        out
    }
}

impl Default for CollectingDiagnosticSink {
    fn default() -> (r: Self)
        ensures
            r.received() == Seq::<ExtensionDiagnostic>::empty(),
    {
        CollectingDiagnosticSink::new()
    }
}

impl DiagnosticSink for CollectingDiagnosticSink {
    open spec fn held(&self) -> Seq<ExtensionDiagnostic> {
        self.received()
    }

    open spec fn keeps(&self) -> bool {
        true
    }

    fn emit(&mut self, diagnostic: ExtensionDiagnostic) {
        self.diagnostics.push(diagnostic);
    }
}

fn copy_strings(v: &Vec<String>) -> (r: Vec<String>)
    ensures
        r@ == v@,
{
    let n = v.len();
    let mut out: Vec<String> = Vec::new();
    let mut i: usize = 0;
    while i < n
        invariant
            n == v@.len(),
            0 <= i <= n,
            out@ == v@.take(i as int),
        decreases n - i,
    {
        out.push(v[i].clone());
        proof {
            assert(v@.take(i + 1) =~= v@.take(i as int).push(v@[i as int]));
        }
        i = i + 1;
    }
    assert(v@.take(n as int) =~= v@);
    out
}

/// Two diagnostics that say the same.
pub open spec fn same_diagnostic(a: ExtensionDiagnostic, b: ExtensionDiagnostic) -> bool {
    &&& a.code == b.code
    &&& a.severity == b.severity
    &&& a.plugin_id == b.plugin_id
    &&& a.capability_id == b.capability_id
    &&& a.scope_kind == b.scope_kind
    &&& a.scope_id == b.scope_id
    &&& a.activation_generation == b.activation_generation
    &&& a.effect_order == b.effect_order
    &&& a.related_plugins@ == b.related_plugins@
    &&& a.cycle_path@ == b.cycle_path@
    &&& a.message == b.message
}

impl ExtensionDiagnostic {
    pub fn copied(&self) -> (r: Self)
        ensures
            same_diagnostic(r, *self),
    {
        ExtensionDiagnostic {
            code: self.code,
            severity: self.severity,
            plugin_id: clone_opt(&self.plugin_id),
            capability_id: clone_opt(&self.capability_id),
            scope_kind: clone_opt(&self.scope_kind),
            scope_id: clone_opt(&self.scope_id),
            activation_generation: self.activation_generation,
            effect_order: self.effect_order,
            related_plugins: copy_strings(&self.related_plugins),
            cycle_path: copy_strings(&self.cycle_path),
            message: self.message.clone(),
        }
    }
}

/// A diagnostic of the host itself about a scope and, where given, one of its
/// plugins and effects; its message is bounded.
pub open spec fn is_lifecycle_diagnostic(
    d: ExtensionDiagnostic,
    code: DiagnosticCode,
    severity: DiagnosticSeverity,
    scope: Option<ScopeIdentity>,
    plugin_id: Option<String>,
    effect_order: Option<u64>,
    message: Seq<char>,
) -> bool {
    &&& d.code == code
    &&& d.severity == severity
    &&& d.plugin_id == plugin_id
    &&& d.capability_id is None
    &&& d.scope_kind == match scope {
        Some(s) => Some(s.kind),
        None => None::<String>,
    }
    &&& d.scope_id == match scope {
        Some(s) => Some(s.id),
        None => None::<String>,
    }
    &&& d.activation_generation == match scope {
        Some(s) => Some(s.generation),
        None => None::<u64>,
    }
    &&& d.effect_order == effect_order
    &&& d.related_plugins@.len() == 0
    &&& d.cycle_path@.len() == 0
    &&& is_bounded_message(message, d.message@)
}

pub fn lifecycle_diagnostic(
    code: DiagnosticCode,
    severity: DiagnosticSeverity,
    scope: Option<&ScopeIdentity>,
    plugin_id: Option<String>,
    effect_order: Option<u64>,
    message: String,
) -> (r: ExtensionDiagnostic)
    ensures
        is_lifecycle_diagnostic(
            r,
            code,
            severity,
            match scope {
                Some(s) => Some(*s),
                None => None,
            },
            plugin_id,
            effect_order,
            message@,
        ),
{
    let (scope_kind, scope_id, activation_generation) = match scope {
        Some(s) => (Some(s.kind.clone()), Some(s.id.clone()), Some(s.generation)),
        None => (None, None, None),
    };
    ExtensionDiagnostic {
        code,
        severity,
        plugin_id,
        capability_id: None,
        scope_kind,
        scope_id,
        activation_generation,
        effect_order,
        related_plugins: Vec::new(),
        cycle_path: Vec::new(),
        message: bounded_message(message),
    }
}

/// The most related plugins a plugin's diagnostic may carry.
pub const MAX_RELATED_PLUGINS: usize = 256;

/// The longest cycle path a plugin's diagnostic may carry.
pub const MAX_CYCLE_PATH: usize = 257;

/// The first `n` items of `s`, or all of them where there are fewer.
pub open spec fn first_at_most<A>(s: Seq<A>, n: nat) -> Seq<A> {
    if s.len() <= n {
        s
    } else {
        s.take(n as int)
    }
}

/// A diagnostic a plugin emitted while it activated, as the host passes it
/// on: whatever it claims, it names the plugin, scope and generation that
/// really emitted it, and its message and lists are bounded.
pub open spec fn rebound(instance: PluginInstanceIdentity, d: ExtensionDiagnostic, r: ExtensionDiagnostic) -> bool {
    &&& r.code == d.code
    &&& r.severity == d.severity
    &&& r.capability_id == d.capability_id
    &&& r.effect_order == d.effect_order
    &&& opt_view(r.plugin_id) == Some(instance.plugin_id@)
    &&& opt_view(r.scope_kind) == Some(instance.scope.kind@)
    &&& opt_view(r.scope_id) == Some(instance.scope.id@)
    &&& r.activation_generation == Some(instance.scope.generation)
    &&& is_bounded_message(d.message@, r.message@)
    &&& r.related_plugins@ == first_at_most(d.related_plugins@, MAX_RELATED_PLUGINS as nat)
    &&& r.cycle_path@ == first_at_most(d.cycle_path@, MAX_CYCLE_PATH as nat)
}

/// Binds a plugin's diagnostic to the plugin instance that emitted it.
pub fn rebind_diagnostic(instance: &PluginInstanceIdentity, diagnostic: ExtensionDiagnostic) -> (r:
    ExtensionDiagnostic)
    ensures
        rebound(*instance, diagnostic, r),
{
    let mut d = diagnostic;
    d.plugin_id = Some(instance.plugin_id.clone());
    d.scope_kind = Some(instance.scope.kind.clone());
    d.scope_id = Some(instance.scope.id.clone());
    d.activation_generation = Some(instance.scope.generation);
    d.message = bounded_message(d.message);
    d.related_plugins.truncate(MAX_RELATED_PLUGINS);
    d.cycle_path.truncate(MAX_CYCLE_PATH);
    assert(d.related_plugins@ =~= first_at_most(diagnostic.related_plugins@, MAX_RELATED_PLUGINS as nat));
    assert(d.cycle_path@ =~= first_at_most(diagnostic.cycle_path@, MAX_CYCLE_PATH as nat));
    d
}

/// Sends a diagnostic a plugin emitted to the host's sink, bound to the
/// plugin instance that emitted it.
pub fn emit_for_plugin<S: DiagnosticSink>(
    sink: &mut S,
    instance: &PluginInstanceIdentity,
    diagnostic: ExtensionDiagnostic,
)
    ensures
        final(sink).keeps() == old(sink).keeps(),
        old(sink).keeps() ==> ({
            let held = final(sink).held();
            &&& held.len() == old(sink).held().len() + 1
            &&& held.drop_last() == old(sink).held()
            &&& rebound(*instance, diagnostic, held.last())
        }),
        !old(sink).keeps() ==> final(sink).held() == old(sink).held(),
{
    let d = rebind_diagnostic(instance, diagnostic);
    sink.emit(d);
    proof {
        if old(sink).keeps() {
            assert(old(sink).held().push(d).drop_last() =~= old(sink).held());
        }
    }
}

// ---------------------------------------------------------------------------
// The runtime mode switch.
// ---------------------------------------------------------------------------

#[derive(Debug, Clone, Copy, PartialEq, Eq, Structural)]
pub enum InternalExtensionRuntimeMode {
    Legacy,
    Candidate,
}

/// The mode a configured value selects: `candidate` selects the candidate
/// runtime; no value or `legacy` the legacy one; anything else falls back to
/// legacy with a warning.
pub open spec fn mode_of(value: Option<Seq<char>>) -> InternalExtensionRuntimeMode {
    if value == Some("candidate"@) {
        InternalExtensionRuntimeMode::Candidate
    } else {
        InternalExtensionRuntimeMode::Legacy
    }
}

/// A configured value that is neither absent, `legacy` nor `candidate`.
pub open spec fn mode_value_invalid(value: Option<Seq<char>>) -> bool {
    value is Some && value != Some("legacy"@) && value != Some("candidate"@)
}

/// The warning for an invalid value: it gives the value's length, never the value.
pub open spec fn invalid_mode_message(value: Seq<char>) -> Seq<char> {
    "invalid RHO_INTERNAL_EXTENSION_RUNTIME value; using legacy ("@ + decimal(
        utf8_len(value) as nat,
    ) + " bytes)"@
}

/// Reads the runtime mode, with the warning to emit for an invalid value.
pub fn parse_mode(value: Option<&str>) -> (r: (InternalExtensionRuntimeMode, Option<ExtensionDiagnostic>))
    ensures
        r.0 == mode_of(opt_str_view(value)),
        mode_value_invalid(opt_str_view(value)) ==> (r.1 matches Some(d) && is_lifecycle_diagnostic(
            d,
            DiagnosticCode::InvalidRuntimeMode,
            DiagnosticSeverity::Warning,
            None,
            None,
            None,
            invalid_mode_message(value.unwrap()@),
        )),
        !mode_value_invalid(opt_str_view(value)) ==> r.1 is None,
{
    proof {
        reveal_strlit("legacy");
        reveal_strlit("candidate");
    }
    match value {
        None => (InternalExtensionRuntimeMode::Legacy, None),
        Some(v) => {
            assert(opt_str_view(value) == Some(v@));
            if str_eq(v, "legacy") {
                assert("legacy"@[0] != "candidate"@[0]);
                (InternalExtensionRuntimeMode::Legacy, None)
            } else if str_eq(v, "candidate") {
                (InternalExtensionRuntimeMode::Candidate, None)
            } else {
                let count = decimal_string(v.as_bytes().len() as u64);
                let text = concat(
                    concat(
                        "invalid RHO_INTERNAL_EXTENSION_RUNTIME value; using legacy (",
                        count.as_str(),
                    ).as_str(),
                    " bytes)",
                );
                let d = lifecycle_diagnostic(
                    DiagnosticCode::InvalidRuntimeMode,
                    DiagnosticSeverity::Warning,
                    None,
                    None,
                    None,
                    text,
                );
                (InternalExtensionRuntimeMode::Legacy, Some(d))
            }
        },
    }
}

pub open spec fn opt_str_view(value: Option<&str>) -> Option<Seq<char>> {
    match value {
        Some(v) => Some(v@),
        None => None,
    }
}

impl InternalExtensionRuntimeMode {
    /// Reads the runtime mode and sends the warning for an invalid value to
    /// the sink.
    pub fn parse<S: DiagnosticSink>(value: Option<&str>, diagnostics: &mut S) -> (r: Self)
        ensures
            r == mode_of(opt_str_view(value)),
            final(diagnostics).keeps() == old(diagnostics).keeps(),
            old(diagnostics).keeps() && mode_value_invalid(opt_str_view(value)) ==> ({
                let held = final(diagnostics).held();
                &&& held.len() == old(diagnostics).held().len() + 1
                &&& held.drop_last() == old(diagnostics).held()
                &&& is_lifecycle_diagnostic(
                    held.last(),
                    DiagnosticCode::InvalidRuntimeMode,
                    DiagnosticSeverity::Warning,
                    None,
                    None,
                    None,
                    invalid_mode_message(value.unwrap()@),
                )
            }),
            !(old(diagnostics).keeps() && mode_value_invalid(opt_str_view(value)))
                ==> final(diagnostics).held() == old(diagnostics).held(),
    {
        let (mode, warning) = parse_mode(value);
        if let Some(d) = warning {
            diagnostics.emit(d);
            proof {
                if old(diagnostics).keeps() {
                    assert(old(diagnostics).held().push(d).drop_last() =~= old(diagnostics).held());
                }
            }
        }
        mode
    }
}

// ---------------------------------------------------------------------------
// Activation and disposal errors.
// ---------------------------------------------------------------------------

/// Why a plugin's activation failed: a code and a message, both bounded.
#[derive(Debug, Clone, PartialEq, Eq)]
pub struct ActivationError {
    code: String,
    message: String,
}

impl ActivationError {
    pub closed spec fn spec_code(&self) -> Seq<char> {
        self.code@
    }

    pub closed spec fn spec_message(&self) -> Seq<char> {
        self.message@
    }

    pub fn new(code: String, message: String) -> (r: Self)
        ensures
            is_bounded_message(code@, r.spec_code()),
            is_bounded_message(message@, r.spec_message()),
    {
        ActivationError { code: bounded_message(code), message: bounded_message(message) }
    }

    pub fn code(&self) -> (r: &str)
        ensures
            r@ == self.spec_code(),
    {
        self.code.as_str()
    }

    pub fn message(&self) -> (r: &str)
        ensures
            r@ == self.spec_message(),
    {
        self.message.as_str()
    }

    pub fn copied(&self) -> (r: Self)
        ensures
            r == *self,
    {
        ActivationError { code: self.code.clone(), message: self.message.clone() }
    }
}

/// Why an effect's cleanup failed: a code and a message, both bounded.
#[derive(Debug, Clone, PartialEq, Eq)]
pub struct DisposeError {
    code: String,
    message: String,
}

impl DisposeError {
    pub closed spec fn spec_code(&self) -> Seq<char> {
        self.code@
    }

    pub closed spec fn spec_message(&self) -> Seq<char> {
        self.message@
    }

    pub fn new(code: String, message: String) -> (r: Self)
        ensures
            is_bounded_message(code@, r.spec_code()),
            is_bounded_message(message@, r.spec_message()),
    {
        DisposeError { code: bounded_message(code), message: bounded_message(message) }
    }

    pub fn code(&self) -> (r: &str)
        ensures
            r@ == self.spec_code(),
    {
        self.code.as_str()
    }

    pub fn message(&self) -> (r: &str)
        ensures
            r@ == self.spec_message(),
    {
        self.message.as_str()
    }

    pub fn copied(&self) -> (r: Self)
        ensures
            r == *self,
    {
        DisposeError { code: self.code.clone(), message: self.message.clone() }
    }
}

/// An error built from a code and a message, as `new` bounds them.
pub open spec fn is_dispose_error(e: DisposeError, code: Seq<char>, message: Seq<char>) -> bool {
    is_bounded_message(code, e.spec_code()) && is_bounded_message(message, e.spec_message())
}

// ---------------------------------------------------------------------------
// Deadlines.
// ---------------------------------------------------------------------------

/// How long, in milliseconds, a scope may take to quiesce, one effect may
/// take to clean up, and a whole scope may take to dispose.
#[derive(Debug, Clone, Copy, PartialEq, Eq, Structural)]
pub struct LifecycleDeadlines {
    pub quiesce: u64,
    pub effect: u64,
    pub scope: u64,
}

impl Default for LifecycleDeadlines {
    fn default() -> (r: Self)
        ensures
            r == (LifecycleDeadlines { quiesce: 5000, effect: 2000, scope: 10000 }),
    {
        LifecycleDeadlines { quiesce: 5000, effect: 2000, scope: 10000 }
    }
}

impl LifecycleDeadlines {
    /// The time quiescing may take: its own deadline, within the scope's.
    pub fn quiesce_limit(&self) -> (r: u64)
        ensures
            r == if self.quiesce <= self.scope {
                self.quiesce
            } else {
                self.scope
            },
    {
        if self.quiesce <= self.scope {
            self.quiesce
        } else {
            self.scope
        }
    }

    /// What is left of the scope's deadline after `elapsed` milliseconds,
    /// or `None` once it has expired.
    pub fn scope_remaining(&self, elapsed: u64) -> (r: Option<u64>)
        ensures
            r == if elapsed <= self.scope {
                Some((self.scope - elapsed) as u64)
            } else {
                None::<u64>
            },
    {
        self.scope.checked_sub(elapsed)
    }

    /// The time one effect's cleanup may take, with `remaining` left of the
    /// scope's deadline.
    pub fn effect_limit(&self, remaining: u64) -> (r: u64)
        ensures
            r == if self.effect <= remaining {
                self.effect
            } else {
                remaining
            },
    {
        if self.effect <= remaining {
            self.effect
        } else {
            remaining
        }
    }
}

// ---------------------------------------------------------------------------
// Effects and their disposal.
// ---------------------------------------------------------------------------

#[derive(Debug, Clone, Copy, PartialEq, Eq, Structural)]
pub enum EffectStatus {
    Registered,
    Disposing,
    Disposed,
    Failed,
}

/// An effect a plugin registered while it activated.
#[derive(Debug, Clone, PartialEq, Eq)]
pub struct EffectRecord {
    pub instance: PluginInstanceIdentity,
    pub creation_order: u64,
    pub status: EffectStatus,
    pub cleanup_error: Option<DisposeError>,
}

impl EffectRecord {
    pub fn copied(&self) -> (r: Self)
        ensures
            r == *self,
    {
        EffectRecord {
            instance: self.instance.copied(),
            creation_order: self.creation_order,
            status: self.status,
            cleanup_error: match &self.cleanup_error {
                Some(e) => Some(e.copied()),
                None => None,
            },
        }
    }
}

fn copy_records(v: &Vec<EffectRecord>) -> (r: Vec<EffectRecord>)
    ensures
        r@ == v@,
{
    let n = v.len();
    let mut out: Vec<EffectRecord> = Vec::new();
    let mut i: usize = 0;
    while i < n
        invariant
            n == v@.len(),
            0 <= i <= n,
            out@ == v@.take(i as int),
        decreases n - i,
    {
        out.push(v[i].copied());
        proof {
            assert(v@.take(i + 1) =~= v@.take(i as int).push(v@[i as int]));
        }
        i = i + 1;
    }
    assert(v@.take(n as int) =~= v@);
    out
}

/// The effects a plugin registers while it activates, each with the
/// disposer that undoes it, in creation order.
pub struct EffectSink<D> {
    instance: PluginInstanceIdentity,
    effects: Vec<(EffectRecord, D)>,
}

/// The record of an effect just registered.
pub open spec fn registered_record(instance: PluginInstanceIdentity, order: u64) -> EffectRecord {
    EffectRecord {
        instance,
        creation_order: order,
        status: EffectStatus::Registered,
        cleanup_error: None,
    }
}

impl<D> EffectSink<D> {
    pub closed spec fn owner(&self) -> PluginInstanceIdentity {
        self.instance
    }

    /// The records of the effects registered so far, in creation order.
    pub closed spec fn records(&self) -> Seq<EffectRecord> {
        self.effects@.map_values(|e: (EffectRecord, D)| e.0)
    }

    /// The disposers of the effects registered so far, in creation order.
    pub closed spec fn disposers(&self) -> Seq<D> {
        self.effects@.map_values(|e: (EffectRecord, D)| e.1)
    }

    pub fn new(instance: PluginInstanceIdentity) -> (r: Self)
        ensures
            r.owner() == instance,
            r.records().len() == 0,
            r.disposers().len() == 0,
    {
        EffectSink { instance, effects: Vec::new() }
    }

    /// How many effects are registered.
    pub fn len(&self) -> (r: usize)
        ensures
            r == self.records().len(),
    {
        self.effects.len()
    }

    /// Registers an effect with the disposer that undoes it; the result is
    /// its creation order, the number of effects registered before it.
    pub fn push(&mut self, disposer: D) -> (r: u64)
        requires
            old(self).records().len() < u64::MAX,
        ensures
            r == old(self).records().len(),
            final(self).owner() == old(self).owner(),
            final(self).records() == old(self).records().push(
                registered_record(old(self).owner(), r),
            ),
            final(self).disposers() == old(self).disposers().push(disposer),
    {
        let creation_order = self.effects.len() as u64;
        let record = EffectRecord {
            instance: self.instance.copied(),
            creation_order,
            status: EffectStatus::Registered,
            cleanup_error: None,
        };
        self.effects.push((record, disposer));
        proof {
            assert(self.effects@.map_values(|e: (EffectRecord, D)| e.0) =~= old(
                self,
            ).effects@.map_values(|e: (EffectRecord, D)| e.0).push(record));
            assert(self.effects@.map_values(|e: (EffectRecord, D)| e.1) =~= old(
                self,
            ).effects@.map_values(|e: (EffectRecord, D)| e.1).push(disposer));
        }
        creation_order
    }

    /// Registers a routing marker for this plugin instance, with `release`,
    /// the disposer that gives it back, as a new effect. A marker another
    /// instance already holds is refused, and neither the sink nor the
    /// markers change.
    pub fn register_marker(
        &mut self,
        markers: &mut RegistryMarkers,
        capability_id: String,
        release: D,
    ) -> (r: Result<u64, RegistryError>)
        requires
            old(markers).wf(),
            old(self).records().len() < u64::MAX,
        ensures
            final(markers).wf(),
            final(self).owner() == old(self).owner(),
            old(markers).owner_of(capability_id@) is Some ==> {
                &&& r == Err::<u64, RegistryError>(RegistryError::DuplicateMarker { capability_id })
                &&& final(self).records() == old(self).records()
                &&& final(self).disposers() == old(self).disposers()
                &&& forall|k: Seq<char>| #[trigger] final(markers).owner_of(k) == old(markers).owner_of(k)
            },
            old(markers).owner_of(capability_id@) is None ==> {
                &&& r == Ok::<u64, RegistryError>(old(self).records().len() as u64)
                &&& final(self).records() == old(self).records().push(
                    registered_record(old(self).owner(), old(self).records().len() as u64),
                )
                &&& final(self).disposers() == old(self).disposers().push(release)
                &&& forall|k: Seq<char>|
                    #[trigger] final(markers).owner_of(k) == if k == capability_id@ {
                        Some(old(self).owner())
                    } else {
                        old(markers).owner_of(k)
                    }
            },
    {
        match markers.register(capability_id, self.instance.copied()) {
            Err(e) => Err(e),
            Ok(()) => Ok(self.push(release)),
        }
    }

    /// Splits the sink into the stack that tracks the disposal of its
    /// effects and their disposers, in creation order.
    pub fn into_stack(self) -> (r: (EffectStack, Vec<D>))
        ensures
            r.0.records() == self.records(),
            r.0.settled() == 0,
            r.0.cached_report() is None,
            r.0.wf(),
            r.1@ == self.disposers(),
            r.1@.len() == r.0.records().len(),
    {
        let mut records: Vec<EffectRecord> = Vec::new();
        let mut disposers: Vec<D> = Vec::new();
        let mut effects = self.effects;
        let ghost all = effects@;
        let n = effects.len();
        let mut rest: Vec<(EffectRecord, D)> = Vec::new();
        // Move the pairs out back to front, then restore creation order.
        while effects.len() > 0
            invariant
                all.len() == n,
                effects@ == all.take(effects@.len() as int),
                effects@.len() <= n,
                rest@.len() == n - effects@.len(),
                forall|k: int|
                    0 <= k < rest@.len() ==> #[trigger] rest@[k] == all[n - 1 - k],
            decreases effects.len(),
        {
            let e = effects.pop().unwrap();
            rest.push(e);
            proof {
                assert(effects@ =~= all.take(effects@.len() as int));
            }
        }
        while rest.len() > 0
            invariant
                all.len() == n,
                rest@.len() + records@.len() == n,
                records@.len() == disposers@.len(),
                forall|k: int|
                    0 <= k < rest@.len() ==> #[trigger] rest@[k] == all[n - 1 - k],
                forall|k: int| 0 <= k < records@.len() ==> #[trigger] records@[k] == all[k].0,
                forall|k: int| 0 <= k < disposers@.len() ==> #[trigger] disposers@[k] == all[k].1,
            decreases rest.len(),
        {
            let e = rest.pop().unwrap();
            records.push(e.0);
            disposers.push(e.1);
        }
        proof {
            assert(records@ =~= all.map_values(|e: (EffectRecord, D)| e.0));
            assert(disposers@ =~= all.map_values(|e: (EffectRecord, D)| e.1));
        }
        (EffectStack { records, settled: 0, report: None }, disposers)
    }
}

#[derive(Debug, Clone, Copy, PartialEq, Eq, Structural)]
pub enum DisposeOutcome {
    Disposed,
    Failed,
}

/// What disposing a plugin's effects came to, with every record.
#[derive(Debug, Clone, PartialEq, Eq)]
pub struct EffectDisposeReport {
    pub outcome: DisposeOutcome,
    pub records: Vec<EffectRecord>,
}

impl EffectDisposeReport {
    pub fn copied(&self) -> (r: Self)
        ensures
            r.outcome == self.outcome,
            r.records@ == self.records@,
    {
        EffectDisposeReport { outcome: self.outcome, records: copy_records(&self.records) }
    }
}

/// How the cleanup of one effect ended.
#[derive(Debug, Clone, PartialEq, Eq)]
pub enum DisposeAttempt {
    /// The disposer finished without error.
    Completed,
    /// The disposer reported an error.
    Failed(DisposeError),
    /// The disposer panicked.
    Panicked,
    /// The disposer outran its deadline.
    TimedOut,
    /// The scope's deadline expired before the disposer could run.
    DeadlineExpired,
}

/// The outcome of a disposal: disposed when every effect was.
pub open spec fn outcome_of(records: Seq<EffectRecord>) -> DisposeOutcome {
    if forall|i: int| 0 <= i < records.len() ==> (#[trigger] records[i]).status
        == EffectStatus::Disposed {
        DisposeOutcome::Disposed
    } else {
        DisposeOutcome::Failed
    }
}

/// The record of an effect after an attempt to clean it up.
pub open spec fn settled_record(before: EffectRecord, attempt: DisposeAttempt, after: EffectRecord) -> bool {
    &&& after.instance == before.instance
    &&& after.creation_order == before.creation_order
    &&& match attempt {
        DisposeAttempt::Completed => after.status == EffectStatus::Disposed && after.cleanup_error
            == before.cleanup_error,
        DisposeAttempt::Failed(e) => after.status == EffectStatus::Failed && after.cleanup_error
            == Some(e),
        DisposeAttempt::Panicked => after.status == EffectStatus::Failed && (after.cleanup_error matches Some(
            e,
        ) && is_dispose_error(
            e,
            "effect_dispose_panicked"@,
            "effect cleanup panicked at the host boundary"@,
        )),
        DisposeAttempt::TimedOut => after.status == EffectStatus::Failed && (after.cleanup_error matches Some(
            e,
        ) && is_dispose_error(e, "effect_dispose_timeout"@, "effect cleanup exceeded its deadline"@)),
        DisposeAttempt::DeadlineExpired => after.status == EffectStatus::Failed
            && (after.cleanup_error matches Some(e) && is_dispose_error(
            e,
            "scope_dispose_timeout"@,
            "scope disposal deadline expired before this effect could run"@,
        )),
    }
}

/// The diagnostic a failed cleanup raises: none where it succeeded or never
/// ran, else an error that names the effect.
pub open spec fn cleanup_diagnostic(
    record: EffectRecord,
    attempt: DisposeAttempt,
    d: Option<ExtensionDiagnostic>,
) -> bool {
    match attempt {
        DisposeAttempt::Completed | DisposeAttempt::DeadlineExpired => d is None,
        _ => d matches Some(d) && is_lifecycle_diagnostic(
            d,
            DiagnosticCode::EffectDisposeFailed,
            DiagnosticSeverity::Error,
            Some(record.instance.scope),
            Some(record.instance.plugin_id),
            Some(record.creation_order),
            match attempt {
                DisposeAttempt::Failed(e) => "effect cleanup failed: "@ + e.spec_code(),
                DisposeAttempt::Panicked => record.cleanup_error.unwrap().spec_message(),
                _ => record.cleanup_error.unwrap().spec_message(),
            },
        ),
    }
}

/// Tracks the disposal of a plugin's effects: they are cleaned up from the
/// last registered to the first, each exactly once, and the report is kept so
/// that disposing again gives the same answer.
pub struct EffectStack {
    records: Vec<EffectRecord>,
    settled: usize,
    report: Option<EffectDisposeReport>,
}

impl EffectStack {
    pub closed spec fn records(&self) -> Seq<EffectRecord> {
        self.records@
    }

    /// How many effects, counted from the last, have been cleaned up.
    pub closed spec fn settled(&self) -> nat {
        self.settled as nat
    }

    pub closed spec fn cached_report(&self) -> Option<EffectDisposeReport> {
        self.report
    }

    pub closed spec fn wf(&self) -> bool {
        self.settled <= self.records@.len()
    }

    /// The effect to clean up next: the last one not yet cleaned up, or none
    /// once all are or the disposal is over.
    pub fn next_to_dispose(&self) -> (r: Option<usize>)
        requires
            self.wf(),
        ensures
            self.cached_report() is Some ==> r is None,
            self.cached_report() is None ==> r == if self.settled() < self.records().len() {
                Some((self.records().len() - 1 - self.settled()) as usize)
            } else {
                None::<usize>
            },
    {
        if self.report.is_some() {
            return None;
        }
        if self.settled < self.records.len() {
            Some(self.records.len() - 1 - self.settled)
        } else {
            None
        }
    }

    /// Marks the effect being cleaned up next as in progress.
    pub fn begin_next(&mut self)
        requires
            old(self).wf(),
            old(self).settled() < old(self).records().len(),
        ensures
            final(self).wf(),
            final(self).settled() == old(self).settled(),
            final(self).cached_report() == old(self).cached_report(),
            ({
                let i = old(self).records().len() - 1 - old(self).settled();
                &&& final(self).records() == old(self).records().update(
                    i,
                    EffectRecord { status: EffectStatus::Disposing, ..old(self).records()[i] },
                )
            }),
    {
        let i = self.records.len() - 1 - self.settled;
        let mut r = self.records[i].copied();
        r.status = EffectStatus::Disposing;
        self.records.set(i, r);
    }

    /// Records how the cleanup of the effect being cleaned up next ended and
    /// moves on to the one before it; the result is the diagnostic to emit.
    pub fn settle_next(&mut self, attempt: DisposeAttempt) -> (d: Option<ExtensionDiagnostic>)
        requires
            old(self).wf(),
            old(self).settled() < old(self).records().len(),
        ensures
            final(self).wf(),
            final(self).settled() == old(self).settled() + 1,
            final(self).cached_report() == old(self).cached_report(),
            ({
                let i = old(self).records().len() - 1 - old(self).settled();
                &&& final(self).records().len() == old(self).records().len()
                &&& forall|k: int|
                    0 <= k < old(self).records().len() && k != i ==> final(self).records()[k]
                        == old(self).records()[k]
                &&& settled_record(old(self).records()[i], attempt, final(self).records()[i])
                &&& cleanup_diagnostic(final(self).records()[i], attempt, d)
            }),
    {
        let i = self.records.len() - 1 - self.settled;
        let mut r = self.records[i].copied();
        let d = match attempt {
            DisposeAttempt::Completed => {
                r.status = EffectStatus::Disposed;
                None
            },
            DisposeAttempt::DeadlineExpired => {
                r.status = EffectStatus::Failed;
                r.cleanup_error = Some(
                    DisposeError::new(
                        owned("scope_dispose_timeout"),
                        owned("scope disposal deadline expired before this effect could run"),
                    ),
                );
                None
            },
            DisposeAttempt::Failed(e) => {
                let text = concat("effect cleanup failed: ", e.code());
                r.status = EffectStatus::Failed;
                r.cleanup_error = Some(e);
                Some(
                    lifecycle_diagnostic(
                        DiagnosticCode::EffectDisposeFailed,
                        DiagnosticSeverity::Error,
                        Some(&r.instance.scope),
                        Some(r.instance.plugin_id.clone()),
                        Some(r.creation_order),
                        text,
                    ),
                )
            },
            DisposeAttempt::Panicked => {
                let e = DisposeError::new(
                    owned("effect_dispose_panicked"),
                    owned("effect cleanup panicked at the host boundary"),
                );
                let text = owned(e.message());
                r.status = EffectStatus::Failed;
                r.cleanup_error = Some(e);
                Some(
                    lifecycle_diagnostic(
                        DiagnosticCode::EffectDisposeFailed,
                        DiagnosticSeverity::Error,
                        Some(&r.instance.scope),
                        Some(r.instance.plugin_id.clone()),
                        Some(r.creation_order),
                        text,
                    ),
                )
            },
            DisposeAttempt::TimedOut => {
                let e = DisposeError::new(
                    owned("effect_dispose_timeout"),
                    owned("effect cleanup exceeded its deadline"),
                );
                let text = owned(e.message());
                r.status = EffectStatus::Failed;
                r.cleanup_error = Some(e);
                Some(
                    lifecycle_diagnostic(
                        DiagnosticCode::EffectDisposeFailed,
                        DiagnosticSeverity::Error,
                        Some(&r.instance.scope),
                        Some(r.instance.plugin_id.clone()),
                        Some(r.creation_order),
                        text,
                    ),
                )
            },
        };
        self.records.set(i, r);
        self.settled = self.settled + 1;
        d
    }

    /// The report of the disposal: the first one made, or, once every effect
    /// has been cleaned up, a new one that is kept.
    pub fn finish(&mut self) -> (r: EffectDisposeReport)
        requires
            old(self).wf(),
            old(self).cached_report() is None ==> old(self).settled() == old(self).records().len(),
        ensures
            final(self).wf(),
            final(self).records() == old(self).records(),
            final(self).settled() == old(self).settled(),
            old(self).cached_report() matches Some(c) ==> (final(self).cached_report() == Some(c)
                && r.outcome == c.outcome && r.records@ == c.records@),
            old(self).cached_report() is None ==> (r.records@ == old(self).records() && r.outcome
                == outcome_of(old(self).records()) && (final(self).cached_report() matches Some(c)
                && c.outcome == r.outcome && c.records@ == r.records@)),
    {
        if let Some(c) = &self.report {
            return c.copied();
        }
        let records = copy_records(&self.records);
        let n = records.len();
        let mut all = true;
        let mut i: usize = 0;
        while i < n
            invariant
                n == records@.len(),
                0 <= i <= n,
                all == forall|k: int| 0 <= k < i ==> (#[trigger] records@[k]).status
                    == EffectStatus::Disposed,
            decreases n - i,
        {
            all = all && records[i].status == EffectStatus::Disposed;
            i = i + 1;
        }
        let outcome = if all {
            DisposeOutcome::Disposed
        } else {
            DisposeOutcome::Failed
        };
        let report = EffectDisposeReport { outcome, records };
        self.report = Some(report.copied());
        report
    }
}

/// How one effect's cleanup ended, as the runner that called it under its
/// deadline saw it.
#[derive(Debug, Clone, PartialEq, Eq)]
pub enum CleanupEnd {
    Completed,
    Failed(DisposeError),
    Panicked,
    TimedOut,
}

/// The attempt a cleanup's end stands for.
pub open spec fn attempt_of(end: CleanupEnd) -> DisposeAttempt {
    match end {
        CleanupEnd::Completed => DisposeAttempt::Completed,
        CleanupEnd::Failed(e) => DisposeAttempt::Failed(e),
        CleanupEnd::Panicked => DisposeAttempt::Panicked,
        CleanupEnd::TimedOut => DisposeAttempt::TimedOut,
    }
}

/// The cleanup of one effect, as a plugin registers it.
pub trait Disposable {
    /// Runs the cleanup, allowed `deadline_ms` milliseconds.
    fn dispose(&mut self, deadline_ms: u64) -> CleanupEnd;
}

/// Runs effect cleanups for the host: each disposer it is handed, under the
/// deadline it is given, turning a panic into `Panicked` and an overrun into
/// `TimedOut`.
pub trait CleanupRunner<D> {
    /// The cleanups run so far, in order: the disposer, the deadline it was
    /// given and how it ended.
    open spec fn runs(&self) -> Seq<(D, u64, CleanupEnd)> {
        Seq::empty()
    }

    /// Whether the runner records the cleanups it runs.
    open spec fn records_runs(&self) -> bool {
        false
    }

    fn run(&mut self, disposer: D, deadline_ms: u64) -> (r: CleanupEnd)
        ensures
            final(self).records_runs() == old(self).records_runs(),
            final(self).runs() == if old(self).records_runs() {
                old(self).runs().push((disposer, deadline_ms, r))
            } else {
                old(self).runs()
            },
    ;
}

/// A runner that calls each disposer in place, on the caller's thread, and
/// records what it ran.
pub struct InPlaceRunner<D> {
    log: Ghost<Seq<(D, u64, CleanupEnd)>>,
}

impl<D: Disposable> InPlaceRunner<D> {
    /// The cleanups run so far.
    pub closed spec fn recorded(&self) -> Seq<(D, u64, CleanupEnd)> {
        self.log@
    }

    pub fn new() -> (r: Self)
        ensures
            r.records_runs(),
            r.runs() == Seq::<(D, u64, CleanupEnd)>::empty(),
    {
        InPlaceRunner { log: Ghost(Seq::empty()) }
    }
}

impl<D: Disposable> CleanupRunner<D> for InPlaceRunner<D> {
    open spec fn runs(&self) -> Seq<(D, u64, CleanupEnd)> {
        self.recorded()
    }

    open spec fn records_runs(&self) -> bool {
        true
    }

    fn run(&mut self, disposer: D, deadline_ms: u64) -> (r: CleanupEnd) {
        let ghost handed = disposer;
        let mut disposer = disposer;
        let end = disposer.dispose(deadline_ms);
        proof {
            self.log@ = self.log@.push((handed, deadline_ms, end));
        }
        end
    }
}

/// What a runner holds after a disposal that ran `calls`: the calls after
/// what it held before, where it records runs.
pub open spec fn ran<D>(
    records: bool,
    before: Seq<(D, u64, CleanupEnd)>,
    calls: Seq<(D, u64, CleanupEnd)>,
    after: Seq<(D, u64, CleanupEnd)>,
) -> bool {
    after == if records {
        before + calls
    } else {
        before
    }
}

/// The cleanups a disposal of effects runs, given their disposers in
/// registration order and the attempt that settled each: the effects are
/// reached from the last registered to the first; those reached after the
/// total deadline passed (the first `n - calls.len()`) are never run; every
/// other one is run exactly once, under a deadline of at most `per_effect_ms`
/// and at most `total_ms`, and its attempt is how that run ended.
pub open spec fn effect_runs<D>(
    disposers: Seq<D>,
    attempts: Seq<DisposeAttempt>,
    per_effect_ms: u64,
    total_ms: u64,
    calls: Seq<(D, u64, CleanupEnd)>,
) -> bool {
    let n = attempts.len();
    &&& calls.len() <= n
    &&& forall|k: int|
        0 <= k < n ==> ((#[trigger] attempts[k]) is DeadlineExpired <==> k < n - calls.len())
    &&& forall|t: int|
        0 <= t < calls.len() ==> {
            let k = n - 1 - t;
            &&& (#[trigger] calls[t]).0 == disposers[k]
            &&& calls[t].1 <= per_effect_ms
            &&& calls[t].1 <= total_ms
            &&& attempts[k] == attempt_of(calls[t].2)
        }
}

/// The host's clock, in milliseconds.
pub trait DisposalClock {
    /// The times read so far, in order.
    open spec fn readings(&self) -> Seq<u64> {
        Seq::empty()
    }

    /// Whether the clock records the times it is read.
    open spec fn records_readings(&self) -> bool {
        false
    }

    fn now_ms(&mut self) -> (r: u64)
        ensures
            final(self).records_readings() == old(self).records_readings(),
            final(self).readings() == if old(self).records_readings() {
                old(self).readings().push(r)
            } else {
                old(self).readings()
            },
    ;
}

/// A clock that starts at a given time and moves on by a fixed step each
/// time it is read, up to the largest time it can show.
pub struct SteppedClock {
    now: u64,
    step: u64,
    read: Ghost<Seq<u64>>,
}

impl SteppedClock {
    /// The times read so far.
    pub closed spec fn read_so_far(&self) -> Seq<u64> {
        self.read@
    }

    /// The time the next reading shows.
    pub closed spec fn shows(&self) -> u64 {
        self.now
    }

    pub closed spec fn steps_by(&self) -> u64 {
        self.step
    }

    pub fn new(start: u64, step: u64) -> (r: Self)
        ensures
            r.records_readings(),
            r.readings() == Seq::<u64>::empty(),
            r.shows() == start,
            r.steps_by() == step,
    {
        SteppedClock { now: start, step, read: Ghost(Seq::empty()) }
    }
}

impl DisposalClock for SteppedClock {
    open spec fn readings(&self) -> Seq<u64> {
        self.read_so_far()
    }

    open spec fn records_readings(&self) -> bool {
        true
    }

    fn now_ms(&mut self) -> (r: u64) {
        let shown = self.now;
        self.now = if self.now <= u64::MAX - self.step {
            self.now + self.step
        } else {
            u64::MAX
        };
        proof {
            self.read@ = self.read@.push(shown);
        }
        shown
    }
}

/// The milliseconds from `start` to `now`; none where the clock went back.
pub open spec fn elapsed_ms(start: u64, now: u64) -> int {
    if now >= start {
        now - start
    } else {
        0
    }
}

/// A cleanup started at time `tick` of a disposal started at `start` got
/// `limit`: the per-effect deadline or what was left of the total one,
/// whichever is less.
pub open spec fn deadline_given(start: u64, tick: u64, per_effect_ms: u64, total_ms: u64, limit: u64) -> bool {
    &&& elapsed_ms(start, tick) <= total_ms
    &&& limit == if per_effect_ms <= total_ms - elapsed_ms(start, tick) {
        per_effect_ms as int
    } else {
        total_ms - elapsed_ms(start, tick)
    }
}

/// The deadlines a disposal gave, as read off the clock: it read the start,
/// then once before each cleanup it ran, and, where the total deadline ran
/// out, once more when it found so.
pub open spec fn clocked_runs<D>(
    ticks: Seq<u64>,
    per_effect_ms: u64,
    total_ms: u64,
    calls: Seq<(D, u64, CleanupEnd)>,
    ran_out: bool,
) -> bool {
    let extra: int = if ran_out {
        1
    } else {
        0
    };
    &&& ticks.len() == calls.len() + 1 + extra
    &&& forall|t: int|
        0 <= t < calls.len() ==> deadline_given(
            ticks[0],
            ticks[t + 1],
            per_effect_ms,
            total_ms,
            (#[trigger] calls[t]).1,
        )
    &&& ran_out ==> elapsed_ms(ticks[0], ticks[ticks.len() - 1]) > total_ms
}

proof fn lemma_clocked_run<D>(
    ticks: Seq<u64>,
    per_effect_ms: u64,
    total_ms: u64,
    calls: Seq<(D, u64, CleanupEnd)>,
    now: u64,
    call: (D, u64, CleanupEnd),
)
    requires
        ticks.len() >= 1,
        clocked_runs(ticks, per_effect_ms, total_ms, calls, false),
        deadline_given(ticks[0], now, per_effect_ms, total_ms, call.1),
    ensures
        clocked_runs(ticks.push(now), per_effect_ms, total_ms, calls.push(call), false),
{
    let t2 = ticks.push(now);
    let c2 = calls.push(call);
    assert(t2[0] == ticks[0]);
    assert forall|t: int| 0 <= t < c2.len() implies deadline_given(
        t2[0],
        t2[t + 1],
        per_effect_ms,
        total_ms,
        (#[trigger] c2[t]).1,
    ) by {
        if t < calls.len() {
            assert(c2[t] == calls[t]);
            assert(t2[t + 1] == ticks[t + 1]);
        } else {
            assert(c2[t] == call);
            assert(t2[t + 1] == now);
        }
    }
}

proof fn lemma_clocked_ran_out<D>(
    ticks: Seq<u64>,
    per_effect_ms: u64,
    total_ms: u64,
    calls: Seq<(D, u64, CleanupEnd)>,
    now: u64,
)
    requires
        ticks.len() >= 1,
        clocked_runs(ticks, per_effect_ms, total_ms, calls, false),
        elapsed_ms(ticks[0], now) > total_ms,
    ensures
        clocked_runs(ticks.push(now), per_effect_ms, total_ms, calls, true),
{
    let t2 = ticks.push(now);
    assert(t2[0] == ticks[0]);
    assert forall|t: int| 0 <= t < calls.len() implies deadline_given(
        t2[0],
        t2[t + 1],
        per_effect_ms,
        total_ms,
        (#[trigger] calls[t]).1,
    ) by {
        assert(t2[t + 1] == ticks[t + 1]);
    }
    assert(t2[t2.len() - 1] == now);
}

/// The milliseconds from `start` to `now`; none where the clock went back.
pub fn elapsed_since(start: u64, now: u64) -> (r: u64)
    ensures
        r == if now >= start {
            (now - start) as u64
        } else {
            0
        },
{
    if now >= start {
        now - start
    } else {
        0
    }
}

/// A whole disposal of the effects `before`, registered in that order: each
/// effect was settled by one attempt, and once the total deadline had passed
/// for one effect, every effect registered before it was left unrun as well.
/// Effects are reached from the last registered to the first.
pub open spec fn disposal_run(
    before: Seq<EffectRecord>,
    attempts: Seq<DisposeAttempt>,
    after: Seq<EffectRecord>,
) -> bool {
    &&& attempts.len() == before.len()
    &&& after.len() == before.len()
    &&& forall|k: int| 0 <= k < before.len() ==> settled_record(before[k], attempts[k], #[trigger] after[k])
    &&& forall|j: int, k: int|
        0 <= j < k < before.len() && (#[trigger] attempts[k]) is DeadlineExpired ==> (#[trigger] attempts[j]) is DeadlineExpired
}

impl EffectStack {
    /// Disposes every effect, from the last registered to the first: the
    /// runner runs each one's disposer exactly once, under the per-effect
    /// deadline or what is left of the total one if that is less, and how the
    /// run ended settles the effect; an effect reached after the total
    /// deadline passed is marked as leaked and its disposer is never run.
    /// Failed cleanups are reported to the sink. The report is kept, and
    /// disposing again returns it without running anything.
    pub fn dispose<D, R: CleanupRunner<D>, C: DisposalClock, S: DiagnosticSink>(
        &mut self,
        disposers: Vec<D>,
        per_effect_ms: u64,
        total_ms: u64,
        runner: &mut R,
        clock: &mut C,
        sink: &mut S,
    ) -> (r: EffectDisposeReport)
        requires
            old(self).wf(),
            old(self).cached_report() is None ==> old(self).settled() == 0
                && disposers@.len() == old(self).records().len(),
        ensures
            final(self).wf(),
            final(self).cached_report() matches Some(c) && c.outcome == r.outcome && c.records@
                == r.records@,
            final(sink).keeps() == old(sink).keeps(),
            grows(old(sink).held(), final(sink).held()),
            final(runner).records_runs() == old(runner).records_runs(),
            final(clock).records_readings() == old(clock).records_readings(),
            old(self).cached_report() matches Some(c) ==> r.outcome == c.outcome && r.records@
                == c.records@ && final(sink).held() == old(sink).held() && final(runner).runs()
                == old(runner).runs(),
            old(self).cached_report() is None ==> ({
                &&& exists|attempts: Seq<DisposeAttempt>, calls: Seq<(D, u64, CleanupEnd)>|
                    {
                        &&& disposal_run(old(self).records(), attempts, r.records@)
                        &&& effect_runs(disposers@, attempts, per_effect_ms, total_ms, calls)
                        &&& ran(
                            old(runner).records_runs(),
                            old(runner).runs(),
                            calls,
                            final(runner).runs(),
                        )
                        &&& old(clock).records_readings() ==> exists|ticks: Seq<u64>|
                            final(clock).readings() == old(clock).readings() + ticks
                                && clocked_runs(
                                ticks,
                                per_effect_ms,
                                total_ms,
                                calls,
                                calls.len() < disposers@.len(),
                            )
                    }
                &&& r.outcome == outcome_of(r.records@)
                &&& final(sink).held().len() <= old(sink).held().len() + old(self).records().len()
                &&& final(sink).held().subrange(0, old(sink).held().len() as int)
                    == old(sink).held()
                &&& forall|k: int|
                    old(sink).held().len() <= k < final(sink).held().len()
                        ==> (#[trigger] final(sink).held()[k]).code
                        == DiagnosticCode::EffectDisposeFailed
            }),
    {
        if self.report.is_some() {
            assert(sink.held().subrange(0, sink.held().len() as int) =~= sink.held());
            return self.finish();
        }
        let ghost orig = self.records@;
        let ghost all = disposers@;
        let ghost held0 = sink.held();
        let ghost runs0 = runner.runs();
        let n = self.records.len();
        let mut disposers = disposers;
        let mut expired = false;
        let ghost c0 = clock.readings();
        let started = clock.now_ms();
        let ghost mut ticks: Seq<u64> = seq![started];
        let ghost mut attempts: Seq<DisposeAttempt> = Seq::new(n as nat, |k: int| DisposeAttempt::Completed);
        let ghost mut calls: Seq<(D, u64, CleanupEnd)> = Seq::empty();
        assert(sink.held().subrange(0, held0.len() as int) =~= held0);
        while self.settled < n
            invariant
                self.wf(),
                self.report is None,
                n == self.records@.len(),
                n == orig.len(),
                n == all.len(),
                attempts.len() == n,
                disposers@ == all.take(n - self.settled),
                sink.keeps() == old(sink).keeps(),
                held0 == old(sink).held(),
                held0.len() <= sink.held().len() <= held0.len() + self.settled,
                sink.held().subrange(0, held0.len() as int) == held0,
                forall|k: int| held0.len() <= k < sink.held().len() ==> (#[trigger] sink.held()[k]).code
                    == DiagnosticCode::EffectDisposeFailed,
                forall|k: int| 0 <= k < n - self.settled ==> #[trigger] self.records@[k] == orig[k],
                forall|k: int|
                    n - self.settled <= k < n ==> settled_record(orig[k], attempts[k], #[trigger] self.records@[k]),
                forall|j: int, k: int|
                    n - self.settled <= j < k < n && (#[trigger] attempts[k]) is DeadlineExpired
                        ==> (#[trigger] attempts[j]) is DeadlineExpired,
                calls.len() <= self.settled,
                expired <==> calls.len() < self.settled,
                forall|k: int|
                    n - self.settled <= k < n ==> ((#[trigger] attempts[k]) is DeadlineExpired <==> k
                        < n - calls.len()),
                forall|t: int|
                    0 <= t < calls.len() ==> {
                        let k = n - 1 - t;
                        &&& (#[trigger] calls[t]).0 == all[k]
                        &&& calls[t].1 <= per_effect_ms
                        &&& calls[t].1 <= total_ms
                        &&& attempts[k] == attempt_of(calls[t].2)
                    },
                runs0 == old(runner).runs(),
                runner.records_runs() == old(runner).records_runs(),
                ran(runner.records_runs(), runs0, calls, runner.runs()),
                c0 == old(clock).readings(),
                clock.records_readings() == old(clock).records_readings(),
                clock.records_readings() ==> clock.readings() == c0 + ticks,
                ticks.len() >= 1,
                ticks[0] == started,
                clocked_runs(ticks, per_effect_ms, total_ms, calls, expired),
            decreases n - self.settled,
        {
            let i = n - 1 - self.settled;
            self.begin_next();
            let disposer = disposers.pop();
            proof {
                assert(disposers@ =~= all.take(i as int));
            }
            let attempt = if expired {
                DisposeAttempt::DeadlineExpired
            } else {
                let now = clock.now_ms();
                let ghost prev_ticks = ticks;
                proof {
                    assert(c0 + ticks.push(now) =~= (c0 + ticks).push(now));
                    ticks = ticks.push(now);
                }
                let elapsed = elapsed_since(started, now);
                match total_ms.checked_sub(elapsed) {
                    None => {
                        expired = true;
                        proof {
                            lemma_clocked_ran_out(prev_ticks, per_effect_ms, total_ms, calls, now);
                        }
                        DisposeAttempt::DeadlineExpired
                    },
                    Some(remaining) => {
                        let limit = if per_effect_ms <= remaining {
                            per_effect_ms
                        } else {
                            remaining
                        };
                        match disposer {
                            Some(d) => {
                                let ghost handed = d;
                                let end = runner.run(d, limit);
                                proof {
                                    lemma_clocked_run(
                                        prev_ticks,
                                        per_effect_ms,
                                        total_ms,
                                        calls,
                                        now,
                                        (handed, limit, end),
                                    );
                                    calls = calls.push((handed, limit, end));
                                    assert(runs0 + calls =~= (runs0 + calls.drop_last()).push((handed, limit, end)));
                                }
                                match end {
                                    CleanupEnd::Completed => DisposeAttempt::Completed,
                                    CleanupEnd::Failed(e) => DisposeAttempt::Failed(e),
                                    CleanupEnd::Panicked => DisposeAttempt::Panicked,
                                    CleanupEnd::TimedOut => DisposeAttempt::TimedOut,
                                }
                            },
                            None => DisposeAttempt::Completed,
                        }
                    },
                }
            };
            let ghost a = attempt;
            let ghost prev_held = sink.held();
            let ghost mid = self.records@;
            let d = self.settle_next(attempt);
            proof {
                attempts = attempts.update(i as int, a);
                assert forall|k: int| 0 <= k < n - self.settled implies #[trigger] self.records@[k] == orig[k] by {
                    assert(self.records@[k] == mid[k]);
                }
                assert forall|k: int|
                    n - self.settled <= k < n implies settled_record(orig[k], attempts[k], #[trigger] self.records@[k]) by {
                    if k != i {
                        assert(self.records@[k] == mid[k]);
                    }
                }
            }
            match d {
                Some(diagnostic) => {
                    sink.emit(diagnostic);
                    proof {
                        if sink.keeps() {
                            assert(sink.held() == prev_held.push(diagnostic));
                            assert(sink.held().subrange(0, held0.len() as int) =~= prev_held.subrange(0, held0.len() as int));
                        }
                    }
                },
                None => {},
            }
        }
        let r = self.finish();
        proof {
            assert(disposal_run(orig, attempts, r.records@));
            assert(effect_runs(all, attempts, per_effect_ms, total_ms, calls));
            assert(expired == (calls.len() < all.len()));
        }
        r
    }
}

// ---------------------------------------------------------------------------
// Scope lifecycle.
// ---------------------------------------------------------------------------

#[derive(Debug, Clone, Copy, PartialEq, Eq, Structural)]
pub enum ScopeLifecycleState {
    Ready,
    Active,
    Quiescing,
    Disposing,
    Disposed,
    Failed,
}

/// The number a state is stored as.
pub open spec fn state_code(s: ScopeLifecycleState) -> u8 {
    match s {
        ScopeLifecycleState::Ready => 0,
        ScopeLifecycleState::Active => 1,
        ScopeLifecycleState::Quiescing => 2,
        ScopeLifecycleState::Disposing => 3,
        ScopeLifecycleState::Disposed => 4,
        ScopeLifecycleState::Failed => 5,
    }
}

/// The state a stored number stands for; unknown numbers read as failed.
pub open spec fn state_of_code(v: u8) -> ScopeLifecycleState {
    if v == 0 {
        ScopeLifecycleState::Ready
    } else if v == 1 {
        ScopeLifecycleState::Active
    } else if v == 2 {
        ScopeLifecycleState::Quiescing
    } else if v == 3 {
        ScopeLifecycleState::Disposing
    } else if v == 4 {
        ScopeLifecycleState::Disposed
    } else {
        ScopeLifecycleState::Failed
    }
}

impl ScopeLifecycleState {
    pub fn as_u8(self) -> (r: u8)
        ensures
            r == state_code(self),
    {
        match self {
            ScopeLifecycleState::Ready => 0,
            ScopeLifecycleState::Active => 1,
            ScopeLifecycleState::Quiescing => 2,
            ScopeLifecycleState::Disposing => 3,
            ScopeLifecycleState::Disposed => 4,
            ScopeLifecycleState::Failed => 5,
        }
    }

    pub fn from_u8(value: u8) -> (r: Self)
        ensures
            r == state_of_code(value),
    {
        match value {
            0 => ScopeLifecycleState::Ready,
            1 => ScopeLifecycleState::Active,
            2 => ScopeLifecycleState::Quiescing,
            3 => ScopeLifecycleState::Disposing,
            4 => ScopeLifecycleState::Disposed,
            _ => ScopeLifecycleState::Failed,
        }
    }

    /// The name `Debug` gives the state.
    pub fn name(self) -> (r: &'static str)
        ensures
            r@ == state_name(self),
    {
        match self {
            ScopeLifecycleState::Ready => "Ready",
            ScopeLifecycleState::Active => "Active",
            ScopeLifecycleState::Quiescing => "Quiescing",
            ScopeLifecycleState::Disposing => "Disposing",
            ScopeLifecycleState::Disposed => "Disposed",
            ScopeLifecycleState::Failed => "Failed",
        }
    }
}

pub open spec fn state_name(s: ScopeLifecycleState) -> Seq<char> {
    match s {
        ScopeLifecycleState::Ready => "Ready"@,
        ScopeLifecycleState::Active => "Active"@,
        ScopeLifecycleState::Quiescing => "Quiescing"@,
        ScopeLifecycleState::Disposing => "Disposing"@,
        ScopeLifecycleState::Disposed => "Disposed"@,
        ScopeLifecycleState::Failed => "Failed"@,
    }
}

/// A stored state reads back as itself.
pub proof fn lemma_state_code_round_trip(s: ScopeLifecycleState)
    ensures
        state_of_code(state_code(s)) == s,
{
}

#[derive(Debug, Clone, PartialEq, Eq)]
pub enum ScopeStateError {
    InvalidTransition { expected: ScopeLifecycleState, actual: ScopeLifecycleState },
    InvalidChildParent,
}

/// The text of a scope state error.
pub open spec fn state_error_text(e: ScopeStateError) -> Seq<char> {
    match e {
        ScopeStateError::InvalidTransition { expected, actual } =>
            "invalid scope lifecycle transition: expected "@ + state_name(expected) + ", actual "@
            + state_name(actual),
        ScopeStateError::InvalidChildParent => "child scope parent does not match"@,
    }
}

impl ScopeStateError {
    /// The error's text.
    pub fn message(&self) -> (r: String)
        ensures
            r@ == state_error_text(*self),
    {
        match self {
            ScopeStateError::InvalidTransition { expected, actual } => {
                let a = concat("invalid scope lifecycle transition: expected ", expected.name());
                let b = concat(a.as_str(), ", actual ");
                concat(b.as_str(), actual.name())
            },
            ScopeStateError::InvalidChildParent => owned("child scope parent does not match"),
        }
    }
}

/// Activates a ready scope; any other state refuses.
pub fn mark_active(state: ScopeLifecycleState) -> (r: Result<ScopeLifecycleState, ScopeStateError>)
    ensures
        state == ScopeLifecycleState::Ready ==> r == Ok::<ScopeLifecycleState, ScopeStateError>(
            ScopeLifecycleState::Active,
        ),
        state != ScopeLifecycleState::Ready ==> r == Err::<ScopeLifecycleState, ScopeStateError>(
            ScopeStateError::InvalidTransition { expected: ScopeLifecycleState::Ready, actual: state },
        ),
{
    if state == ScopeLifecycleState::Ready {
        Ok(ScopeLifecycleState::Active)
    } else {
        Err(ScopeStateError::InvalidTransition { expected: ScopeLifecycleState::Ready, actual: state })
    }
}

/// Whether a scope in a state still takes children and routes calls.
pub open spec fn is_open_state(s: ScopeLifecycleState) -> bool {
    s == ScopeLifecycleState::Ready || s == ScopeLifecycleState::Active
}

/// Whether a child scope may be attached to a parent in a state: the parent
/// must be ready or active and be the child's parent.
pub fn check_attach_child(
    state: ScopeLifecycleState,
    parent: &ScopeIdentity,
    child: &ScopeIdentity,
) -> (r: Result<(), ScopeStateError>)
    ensures
        !is_open_state(state) ==> r == Err::<(), ScopeStateError>(
            ScopeStateError::InvalidTransition { expected: ScopeLifecycleState::Active, actual: state },
        ),
        is_open_state(state) && opt_view(child.parent_id) != Some(parent.id@) ==> r == Err::<
            (),
            ScopeStateError,
        >(ScopeStateError::InvalidChildParent),
        is_open_state(state) && opt_view(child.parent_id) == Some(parent.id@) ==> r is Ok,
{
    if !(state == ScopeLifecycleState::Ready || state == ScopeLifecycleState::Active) {
        return Err(
            ScopeStateError::InvalidTransition { expected: ScopeLifecycleState::Active, actual: state },
        );
    }
    match &child.parent_id {
        Some(p) => if str_eq(p.as_str(), parent.id.as_str()) {
            Ok(())
        } else {
            Err(ScopeStateError::InvalidChildParent)
        },
        None => Err(ScopeStateError::InvalidChildParent),
    }
}

/// Starts quiescing: a ready or active scope moves to quiescing and the
/// result says so (the start is announced once); any later state stays.
pub fn begin_quiesce(state: ScopeLifecycleState) -> (r: (ScopeLifecycleState, bool))
    ensures
        is_open_state(state) ==> r == (ScopeLifecycleState::Quiescing, true),
        !is_open_state(state) ==> r == (state, false),
{
    if state == ScopeLifecycleState::Ready || state == ScopeLifecycleState::Active {
        (ScopeLifecycleState::Quiescing, true)
    } else {
        (state, false)
    }
}

/// Quiescing is announced once: a scope that started quiescing does not
/// start again.
pub proof fn lemma_quiesce_once(state: ScopeLifecycleState)
    ensures
        !is_open_state(ScopeLifecycleState::Quiescing),
        is_open_state(state) ==> !is_open_state(ScopeLifecycleState::Quiescing),
{
}

/// What disposing a scope came to.
#[derive(Debug)]
pub struct ScopeDisposeReport {
    pub scope: ScopeIdentity,
    pub outcome: DisposeOutcome,
    pub quiesce_timed_out: bool,
    pub remaining_tasks: usize,
    pub remaining_leases: usize,
    pub child_reports: Vec<ScopeDisposeReport>,
    pub plugin_reports: Vec<(PluginInstanceIdentity, EffectDisposeReport)>,
}

/// The report of a child scope whose disposal ran out of time.
pub fn timed_out_scope_report(
    scope: &ScopeIdentity,
    remaining_tasks: usize,
    remaining_leases: usize,
) -> (r: ScopeDisposeReport)
    ensures
        r.scope == *scope,
        r.outcome == DisposeOutcome::Failed,
        r.quiesce_timed_out,
        r.remaining_tasks == remaining_tasks,
        r.remaining_leases == remaining_leases,
        r.child_reports@.len() == 0,
        r.plugin_reports@.len() == 0,
{
    ScopeDisposeReport {
        scope: scope.copied(),
        outcome: DisposeOutcome::Failed,
        quiesce_timed_out: true,
        remaining_tasks,
        remaining_leases,
        child_reports: Vec::new(),
        plugin_reports: Vec::new(),
    }
}

/// A scope's disposal failed when it did not quiesce in time, a child ran out
/// of time, or a child or a plugin failed to dispose.
pub open spec fn scope_dispose_failed(
    quiesce_timed_out: bool,
    child_timeout: bool,
    children: Seq<ScopeDisposeReport>,
    plugins: Seq<(PluginInstanceIdentity, EffectDisposeReport)>,
) -> bool {
    ||| quiesce_timed_out
    ||| child_timeout
    ||| exists|i: int| 0 <= i < children.len() && (#[trigger] children[i]).outcome == DisposeOutcome::Failed
    ||| exists|i: int| 0 <= i < plugins.len() && (#[trigger] plugins[i]).1.outcome == DisposeOutcome::Failed
}

/// Closes a scope's disposal: its report, the state the scope ends in, and
/// the diagnostic that announces the end.
pub fn finish_scope_dispose(
    scope: &ScopeIdentity,
    quiesce_timed_out: bool,
    child_timeout: bool,
    remaining_tasks: usize,
    remaining_leases: usize,
    child_reports: Vec<ScopeDisposeReport>,
    plugin_reports: Vec<(PluginInstanceIdentity, EffectDisposeReport)>,
) -> (r: (ScopeDisposeReport, ScopeLifecycleState, ExtensionDiagnostic))
    ensures
        ({
            let failed = scope_dispose_failed(
                quiesce_timed_out,
                child_timeout,
                child_reports@,
                plugin_reports@,
            );
            &&& r.0.scope == *scope
            &&& r.0.outcome == if failed {
                DisposeOutcome::Failed
            } else {
                DisposeOutcome::Disposed
            }
            &&& r.0.quiesce_timed_out == (quiesce_timed_out || child_timeout)
            &&& r.0.remaining_tasks == remaining_tasks
            &&& r.0.remaining_leases == remaining_leases
            &&& r.0.child_reports == child_reports
            &&& r.0.plugin_reports == plugin_reports
            &&& r.1 == if failed {
                ScopeLifecycleState::Failed
            } else {
                ScopeLifecycleState::Disposed
            }
            &&& is_lifecycle_diagnostic(
                r.2,
                if failed {
                    DiagnosticCode::ScopeDisposeFailed
                } else {
                    DiagnosticCode::ScopeDisposed
                },
                if failed {
                    DiagnosticSeverity::Error
                } else {
                    DiagnosticSeverity::Info
                },
                Some(*scope),
                None,
                None,
                if failed {
                    "scope disposal completed with leaked resources"@
                } else {
                    "scope disposed"@
                },
            )
        }),
{
    let mut failed = quiesce_timed_out || child_timeout;
    let nc = child_reports.len();
    let mut i: usize = 0;
    while i < nc
        invariant
            nc == child_reports@.len(),
            0 <= i <= nc,
            failed == (quiesce_timed_out || child_timeout || exists|k: int|
                0 <= k < i && (#[trigger] child_reports@[k]).outcome == DisposeOutcome::Failed),
        decreases nc - i,
    {
        if child_reports[i].outcome == DisposeOutcome::Failed {
            failed = true;
        }
        i = i + 1;
    }
    let np = plugin_reports.len();
    let mut j: usize = 0;
    while j < np
        invariant
            nc == child_reports@.len(),
            np == plugin_reports@.len(),
            0 <= j <= np,
            failed == (quiesce_timed_out || child_timeout || (exists|k: int|
                0 <= k < nc && (#[trigger] child_reports@[k]).outcome == DisposeOutcome::Failed)
                || exists|k: int|
                0 <= k < j && (#[trigger] plugin_reports@[k]).1.outcome == DisposeOutcome::Failed),
        decreases np - j,
    {
        if plugin_reports[j].1.outcome == DisposeOutcome::Failed {
            failed = true;
        }
        j = j + 1;
    }
    let outcome = if failed {
        DisposeOutcome::Failed
    } else {
        DisposeOutcome::Disposed
    };
    let state = if failed {
        ScopeLifecycleState::Failed
    } else {
        ScopeLifecycleState::Disposed
    };
    let d = if failed {
        lifecycle_diagnostic(
            DiagnosticCode::ScopeDisposeFailed,
            DiagnosticSeverity::Error,
            Some(scope),
            None,
            None,
            owned("scope disposal completed with leaked resources"),
        )
    } else {
        lifecycle_diagnostic(
            DiagnosticCode::ScopeDisposed,
            DiagnosticSeverity::Info,
            Some(scope),
            None,
            None,
            owned("scope disposed"),
        )
    };
    let report = ScopeDisposeReport {
        scope: scope.copied(),
        outcome,
        quiesce_timed_out: quiesce_timed_out || child_timeout,
        remaining_tasks,
        remaining_leases,
        child_reports,
        plugin_reports,
    };
    (report, state, d)
}

// ---------------------------------------------------------------------------
// Stale completions and publication.
// ---------------------------------------------------------------------------

#[derive(Debug, Clone, PartialEq, Eq)]
pub struct StaleGenerationContext {
    pub completed: ScopeIdentity,
    pub actual: Option<ScopeIdentity>,
}

/// A completion that belongs to a scope that is no longer current.
#[derive(Debug, Clone, PartialEq, Eq)]
pub struct StaleGenerationError {
    pub context: Box<StaleGenerationContext>,
}

impl StaleGenerationError {
    pub fn message(&self) -> (r: &'static str)
        ensures
            r@ == "scope completion belongs to a stale activation generation"@,
    {
        "scope completion belongs to a stale activation generation"
    }
}

/// Accepts a completion only for the scope that is current.
pub fn validate_current(current: &Option<ScopeIdentity>, completed_scope: &ScopeIdentity) -> (r: Result<
    (),
    StaleGenerationError,
>)
    ensures
        (*current matches Some(c) && same_scope(c, *completed_scope)) ==> r is Ok,
        !(*current matches Some(c) && same_scope(c, *completed_scope)) ==> (r matches Err(e)
            && e.context.completed == *completed_scope && e.context.actual == *current),
{
    if let Some(c) = current {
        if scope_eq(c, completed_scope) {
            return Ok(());
        }
    }
    Err(
        StaleGenerationError {
            context: Box::new(
                StaleGenerationContext {
                    completed: completed_scope.copied(),
                    actual: match current {
                        Some(c) => Some(c.copied()),
                        None => None,
                    },
                },
            ),
        },
    )
}

/// What a publication did: the scope it published and the one it replaced.
#[derive(Debug)]
pub struct PublishReport {
    pub published: ScopeIdentity,
    pub previous: Option<ScopeIdentity>,
    pub previous_dispose: Option<ScopeDisposeReport>,
}

/// A refused publication, with the disposal of the refused candidate.
#[derive(Debug)]
pub struct CandidatePublishError {
    pub expected: Option<ScopeIdentity>,
    pub actual: Option<ScopeIdentity>,
    pub rejected: ScopeIdentity,
    pub rejected_dispose: ScopeDisposeReport,
    pub reason: String,
}

impl CandidatePublishError {
    pub fn message(&self) -> (r: String)
        ensures
            r@ == "candidate publication failed: "@ + self.reason@,
    {
        concat("candidate publication failed: ", self.reason.as_str())
    }
}

/// Why a candidate may not be published: it must still be ready.
pub fn candidate_publish_refusal(state: ScopeLifecycleState) -> (r: Option<String>)
    ensures
        state == ScopeLifecycleState::Ready ==> r is None,
        state != ScopeLifecycleState::Ready ==> (r matches Some(t) && t@ == state_error_text(
            ScopeStateError::InvalidTransition { expected: ScopeLifecycleState::Ready, actual: state },
        )),
{
    if state == ScopeLifecycleState::Ready {
        None
    } else {
        let e = ScopeStateError::InvalidTransition {
            expected: ScopeLifecycleState::Ready,
            actual: state,
        };
        Some(e.message())
    }
}

/// The reason a publication that lost its compare-and-swap gives.
pub fn expected_old_mismatch() -> (r: String)
    ensures
        r@ == "expected_old_mismatch"@,
{
    owned("expected_old_mismatch")
}

// ---------------------------------------------------------------------------
// Registry, routing and task admission.
// ---------------------------------------------------------------------------

#[derive(Debug, Clone, PartialEq, Eq)]
pub enum RegistryError {
    DuplicateMarker { capability_id: String },
}

impl RegistryError {
    pub fn message(&self) -> (r: String)
        ensures
            r@ == match *self {
                RegistryError::DuplicateMarker { capability_id } =>
                    "registry marker already exists: "@ + capability_id@,
            },
    {
        match self {
            RegistryError::DuplicateMarker { capability_id } => concat(
                "registry marker already exists: ",
                capability_id.as_str(),
            ),
        }
    }
}

#[derive(Debug, Clone, Copy, PartialEq, Eq, Structural)]
pub enum RoutingError {
    Closed,
}

impl RoutingError {
    pub fn message(&self) -> (r: &'static str)
        ensures
            r@ == "scope routing is closed"@,
    {
        "scope routing is closed"
    }
}

#[derive(Debug, Clone, Copy, PartialEq, Eq, Structural)]
pub enum TaskAdmissionError {
    Closed,
}

impl TaskAdmissionError {
    pub fn message(&self) -> (r: &'static str)
        ensures
            r@ == "scope task admission is closed"@,
    {
        "scope task admission is closed"
    }
}

/// Whether a new lease may be taken: only while routing is open.
pub fn admit_lease(routing_open: bool) -> (r: Result<(), RoutingError>)
    ensures
        routing_open <==> r is Ok,
{
    if routing_open {
        Ok(())
    } else {
        Err(RoutingError::Closed)
    }
}

/// Whether a new task may be spawned: only while the scope accepts tasks.
pub fn admit_task(accepting: bool) -> (r: Result<(), TaskAdmissionError>)
    ensures
        accepting <==> r is Ok,
{
    if accepting {
        Ok(())
    } else {
        Err(TaskAdmissionError::Closed)
    }
}

/// Why building a candidate scope failed.
#[derive(Debug)]
pub enum CandidateBuildError {
    /// Dependency resolution failed; the text says why.
    Resolution(String),
    /// A plugin failed to activate; everything activated was rolled back.
    Activation { plugin_id: String, error: ActivationError, rollback: Box<ScopeDisposeReport> },
}

/// Why the extension host could not start.
#[derive(Debug, Clone, PartialEq, Eq)]
pub enum ExtensionHostError {
    /// The application graph could not be resolved; the text says why.
    ApplicationGraph(String),
    ApplicationState(ScopeStateError),
}

/// The next activation generation from a counter: the counter's value, and
/// the counter moved on by one, while it has not run out.
pub fn next_generation(counter: u64) -> (r: Option<(u64, u64)>)
    ensures
        counter < u64::MAX ==> r == Some((counter, (counter + 1) as u64)),
        counter == u64::MAX ==> r is None,
{
    if counter < u64::MAX {
        Some((counter, counter + 1))
    } else {
        None
    }
}

// ---------------------------------------------------------------------------
// Registry markers.
// ---------------------------------------------------------------------------

/// No capability is marked twice.
pub open spec fn keys_distinct(e: Seq<(String, PluginInstanceIdentity)>) -> bool {
    forall|i: int, j: int|
        0 <= i < e.len() && 0 <= j < e.len() && i != j ==> (#[trigger] e[i]).0@ != (#[trigger] e[j]).0@
}

/// Who holds the marker of a capability, if anyone.
pub open spec fn owner_in(e: Seq<(String, PluginInstanceIdentity)>, k: Seq<char>) -> Option<
    PluginInstanceIdentity,
> {
    if exists|i: int| 0 <= i < e.len() && (#[trigger] e[i]).0@ == k {
        Some(e[choose|i: int| 0 <= i < e.len() && (#[trigger] e[i]).0@ == k].1)
    } else {
        None
    }
}

proof fn lemma_owner_at(e: Seq<(String, PluginInstanceIdentity)>, i: int)
    requires
        keys_distinct(e),
        0 <= i < e.len(),
    ensures
        owner_in(e, e[i].0@) == Some(e[i].1),
{
    let k = e[i].0@;
    assert(exists|j: int| 0 <= j < e.len() && (#[trigger] e[j]).0@ == k);
    let j = choose|j: int| 0 <= j < e.len() && (#[trigger] e[j]).0@ == k;
    assert(j == i);
}

/// The markers of one registry: which plugin instance holds each capability.
pub struct RegistryMarkers {
    entries: Vec<(String, PluginInstanceIdentity)>,
}

impl RegistryMarkers {
    pub closed spec fn wf(&self) -> bool {
        keys_distinct(self.entries@)
    }

    /// The holder of a capability's marker.
    pub closed spec fn owner_of(&self, capability_id: Seq<char>) -> Option<PluginInstanceIdentity> {
        owner_in(self.entries@, capability_id)
    }

    pub fn new() -> (r: Self)
        ensures
            r.wf(),
            forall|k: Seq<char>| #[trigger] r.owner_of(k) is None,
    {
        RegistryMarkers { entries: Vec::new() }
    }

    fn find(&self, capability_id: &str) -> (r: Option<usize>)
        requires
            self.wf(),
        ensures
            r matches Some(i) ==> i < self.entries@.len() && self.entries@[i as int].0@
                == capability_id@,
            r is None ==> forall|i: int|
                0 <= i < self.entries@.len() ==> (#[trigger] self.entries@[i]).0@ != capability_id@,
    {
        let n = self.entries.len();
        let mut i: usize = 0;
        while i < n
            invariant
                n == self.entries@.len(),
                0 <= i <= n,
                forall|k: int| 0 <= k < i ==> (#[trigger] self.entries@[k]).0@ != capability_id@,
            decreases n - i,
        {
            if str_eq(self.entries[i].0.as_str(), capability_id) {
                return Some(i);
            }
            i = i + 1;
        }
        None
    }

    /// The holder of a capability's marker.
    pub fn owner(&self, capability_id: &str) -> (r: Option<PluginInstanceIdentity>)
        requires
            self.wf(),
        ensures
            r == self.owner_of(capability_id@),
    {
        match self.find(capability_id) {
            Some(i) => {
                proof {
                    lemma_owner_at(self.entries@, i as int);
                }
                Some(self.entries[i].1.copied())
            },
            None => None,
        }
    }

    /// Marks a capability as held by an instance; a capability already
    /// marked is refused and nothing changes.
    pub fn register(&mut self, capability_id: String, instance: PluginInstanceIdentity) -> (r: Result<
        (),
        RegistryError,
    >)
        requires
            old(self).wf(),
        ensures
            final(self).wf(),
            old(self).owner_of(capability_id@) is Some ==> r == Err::<(), RegistryError>(
                RegistryError::DuplicateMarker { capability_id },
            ) && forall|k: Seq<char>| #[trigger] final(self).owner_of(k) == old(self).owner_of(k),
            old(self).owner_of(capability_id@) is None ==> r is Ok && forall|k: Seq<char>|
                #[trigger] final(self).owner_of(k) == if k == capability_id@ {
                    Some(instance)
                } else {
                    old(self).owner_of(k)
                },
    {
        if let Some(i) = self.find(capability_id.as_str()) {
            proof {
                lemma_owner_at(self.entries@, i as int);
            }
            return Err(RegistryError::DuplicateMarker { capability_id });
        }
        let ghost before = self.entries@;
        let ghost key = capability_id@;
        self.entries.push((capability_id, instance));
        proof {
            let after = self.entries@;
            assert(after =~= before.push(after[before.len() as int]));
            assert(keys_distinct(after)) by {
                assert forall|i: int, j: int|
                    0 <= i < after.len() && 0 <= j < after.len() && i != j implies (
                    #[trigger] after[i]).0@ != (#[trigger] after[j]).0@ by {
                    if i < before.len() && j < before.len() {
                        assert(after[i] == before[i] && after[j] == before[j]);
                    } else if i < before.len() {
                        assert(after[i] == before[i]);
                    } else {
                        assert(after[j] == before[j]);
                    }
                }
            }
            assert forall|k: Seq<char>| #[trigger] owner_in(after, k) == if k == key {
                Some(instance)
            } else {
                owner_in(before, k)
            } by {
                if k == key {
                    lemma_owner_at(after, before.len() as int);
                } else if exists|i: int| 0 <= i < before.len() && (#[trigger] before[i]).0@ == k {
                    let i = choose|i: int| 0 <= i < before.len() && (#[trigger] before[i]).0@ == k;
                    lemma_owner_at(before, i);
                    assert(after[i] == before[i]);
                    lemma_owner_at(after, i);
                } else {
                    assert forall|i: int| 0 <= i < after.len() implies (#[trigger] after[i]).0@
                        != k by {
                        if i < before.len() {
                            assert(after[i] == before[i]);
                        }
                    }
                }
            }
        }
        Ok(())
    }

    /// Releases a capability's marker, only when the instance still holds it.
    pub fn release(&mut self, capability_id: &str, instance: &PluginInstanceIdentity)
        requires
            old(self).wf(),
        ensures
            final(self).wf(),
            (old(self).owner_of(capability_id@) matches Some(o) && same_instance(o, *instance))
                ==> forall|k: Seq<char>| #[trigger] final(self).owner_of(k) == if k
                == capability_id@ {
                None
            } else {
                old(self).owner_of(k)
            },
            !(old(self).owner_of(capability_id@) matches Some(o) && same_instance(o, *instance))
                ==> forall|k: Seq<char>| #[trigger] final(self).owner_of(k) == old(self).owner_of(k),
    {
        let j = match self.find(capability_id) {
            None => {
                return;
            },
            Some(j) => j,
        };
        proof {
            lemma_owner_at(self.entries@, j as int);
        }
        if !instance_eq(&self.entries[j].1, instance) {
            return;
        }
        let ghost before = self.entries@;
        let ghost key = capability_id@;
        let _ = self.entries.remove(j);
        proof {
            let after = self.entries@;
            assert(after =~= before.remove(j as int));
            assert(keys_distinct(after)) by {
                assert forall|a: int, b: int|
                    0 <= a < after.len() && 0 <= b < after.len() && a != b implies (
                    #[trigger] after[a]).0@ != (#[trigger] after[b]).0@ by {
                    let a0 = if a < j { a } else { a + 1 };
                    let b0 = if b < j { b } else { b + 1 };
                    assert(after[a] == before[a0] && after[b] == before[b0]);
                }
            }
            assert forall|k: Seq<char>| #[trigger] owner_in(after, k) == if k == key {
                None
            } else {
                owner_in(before, k)
            } by {
                if k == key {
                    assert forall|i: int| 0 <= i < after.len() implies (#[trigger] after[i]).0@
                        != k by {
                        let i0 = if i < j { i } else { i + 1 };
                        assert(after[i] == before[i0]);
                    }
                } else if exists|i: int| 0 <= i < before.len() && (#[trigger] before[i]).0@ == k {
                    let i = choose|i: int| 0 <= i < before.len() && (#[trigger] before[i]).0@ == k;
                    lemma_owner_at(before, i);
                    let i2 = if i < j { i } else { i - 1 };
                    assert(after[i2] == before[i]);
                    lemma_owner_at(after, i2);
                } else {
                    assert forall|i: int| 0 <= i < after.len() implies (#[trigger] after[i]).0@
                        != k by {
                        let i0 = if i < j { i } else { i + 1 };
                        assert(after[i] == before[i0]);
                    }
                }
            }
        }
    }
}

// ---------------------------------------------------------------------------
// Building and publishing a candidate scope.
// ---------------------------------------------------------------------------

/// How one plugin's activation ended.
#[derive(Debug, Clone, PartialEq, Eq)]
pub enum ActivationOutcome {
    Succeeded,
    Failed(ActivationError),
    /// The activation panicked; the host contains it as an error.
    Panicked,
}

/// The error an activation ended with, if any; a panic becomes a typed error.
pub open spec fn activation_failure(outcome: ActivationOutcome, e: ActivationError) -> bool {
    match outcome {
        ActivationOutcome::Succeeded => false,
        ActivationOutcome::Failed(x) => e == x,
        ActivationOutcome::Panicked => is_bounded_message("activation_panicked"@, e.spec_code())
            && is_bounded_message(
            "plugin activation panicked at the host boundary"@,
            e.spec_message(),
        ),
    }
}

/// Activates the plugins of a candidate scope one by one, in the resolved
/// order; the first failure stops the build, and everything activated so far,
/// the failing plugin included, is rolled back.
pub struct CandidateBuild {
    scope: ScopeIdentity,
    order: Vec<String>,
    activated: usize,
    failure: Option<(String, ActivationError)>,
}

/// What the build does after an activation.
#[derive(Debug, Clone, PartialEq, Eq)]
pub enum BuildStep {
    /// Go on with the next plugin, if any.
    Continue,
    /// Roll back the scope built so far, then report the failure.
    RollBack,
}

impl CandidateBuild {
    pub closed spec fn scope(&self) -> ScopeIdentity {
        self.scope
    }

    /// The plugins in the order they activate.
    pub closed spec fn order(&self) -> Seq<String> {
        self.order@
    }

    /// How many plugins have finished activating (failed ones included).
    pub closed spec fn activated(&self) -> nat {
        self.activated as nat
    }

    pub closed spec fn failure(&self) -> Option<(String, ActivationError)> {
        self.failure
    }

    pub closed spec fn wf(&self) -> bool {
        self.activated <= self.order@.len()
    }

    pub fn new(scope: ScopeIdentity, order: Vec<String>) -> (r: Self)
        ensures
            r.wf(),
            r.scope() == scope,
            r.order() == order@,
            r.activated() == 0,
            r.failure() is None,
    {
        CandidateBuild { scope, order, activated: 0, failure: None }
    }

    /// The plugin to activate next, as an instance of the scope, with the
    /// diagnostic announcing its activation; none once all activated or one
    /// failed.
    pub fn next_plugin(&self) -> (r: Option<(PluginInstanceIdentity, ExtensionDiagnostic)>)
        requires
            self.wf(),
        ensures
            (self.failure() is Some || self.activated() == self.order().len()) ==> r is None,
            (self.failure() is None && self.activated() < self.order().len()) ==> (r matches Some(
                (i, d),
            ) && i.plugin_id == self.order()[self.activated() as int] && i.scope == self.scope()
                && is_lifecycle_diagnostic(
                d,
                DiagnosticCode::ActivationStarted,
                DiagnosticSeverity::Info,
                Some(self.scope()),
                Some(self.order()[self.activated() as int]),
                None,
                "plugin activation started"@,
            )),
    {
        if self.failure.is_some() || self.activated >= self.order.len() {
            return None;
        }
        let plugin_id = self.order[self.activated].clone();
        let instance = PluginInstanceIdentity { plugin_id: plugin_id.clone(), scope: self.scope.copied() };
        let d = lifecycle_diagnostic(
            DiagnosticCode::ActivationStarted,
            DiagnosticSeverity::Info,
            Some(&self.scope),
            Some(plugin_id),
            None,
            owned("plugin activation started"),
        );
        Some((instance, d))
    }

    /// Records how the current plugin's activation ended: the step to take
    /// and the diagnostic to emit.
    pub fn record(&mut self, outcome: ActivationOutcome) -> (r: (BuildStep, ExtensionDiagnostic))
        requires
            old(self).wf(),
            old(self).failure() is None,
            old(self).activated() < old(self).order().len(),
        ensures
            final(self).wf(),
            final(self).scope() == old(self).scope(),
            final(self).order() == old(self).order(),
            final(self).activated() == old(self).activated() + 1,
            ({
                let plugin = old(self).order()[old(self).activated() as int];
                match outcome {
                    ActivationOutcome::Succeeded => {
                        &&& r.0 == BuildStep::Continue
                        &&& final(self).failure() is None
                        &&& is_lifecycle_diagnostic(
                            r.1,
                            DiagnosticCode::ActivationSucceeded,
                            DiagnosticSeverity::Info,
                            Some(old(self).scope()),
                            Some(plugin),
                            None,
                            "plugin activation succeeded"@,
                        )
                    },
                    _ => {
                        &&& r.0 == BuildStep::RollBack
                        &&& final(self).failure() matches Some((p, e)) && p == plugin
                            && activation_failure(outcome, e) && is_lifecycle_diagnostic(
                            r.1,
                            DiagnosticCode::ActivationFailed,
                            DiagnosticSeverity::Error,
                            Some(old(self).scope()),
                            Some(plugin),
                            None,
                            "plugin activation failed: "@ + e.spec_code(),
                        )
                    },
                }
            }),
    {
        let n = self.order.len();
        assert(self.activated < n);
        let plugin_id = self.order[self.activated].clone();
        self.activated = self.activated + 1;
        let error = match outcome {
            ActivationOutcome::Succeeded => {
                let d = lifecycle_diagnostic(
                    DiagnosticCode::ActivationSucceeded,
                    DiagnosticSeverity::Info,
                    Some(&self.scope),
                    Some(plugin_id),
                    None,
                    owned("plugin activation succeeded"),
                );
                return (BuildStep::Continue, d);
            },
            ActivationOutcome::Failed(e) => e,
            ActivationOutcome::Panicked => ActivationError::new(
                owned("activation_panicked"),
                owned("plugin activation panicked at the host boundary"),
            ),
        };
        let text = concat("plugin activation failed: ", error.code());
        let d = lifecycle_diagnostic(
            DiagnosticCode::ActivationFailed,
            DiagnosticSeverity::Error,
            Some(&self.scope),
            Some(plugin_id.clone()),
            None,
            text,
        );
        self.failure = Some((plugin_id, error));
        (BuildStep::RollBack, d)
    }

    /// Closes a failed build with its rollback: the error to return and, when
    /// the rollback leaked resources, the diagnostic that says so.
    pub fn rolled_back(self, rollback: ScopeDisposeReport) -> (r: (
        CandidateBuildError,
        Option<ExtensionDiagnostic>,
    ))
        requires
            self.failure() is Some,
        ensures
            ({
                let (p, e) = self.failure().unwrap();
                &&& r.0 matches CandidateBuildError::Activation { plugin_id, error, rollback: rb }
                    && plugin_id == p && error == e && *rb == rollback
                &&& rollback.outcome == DisposeOutcome::Failed ==> (r.1 matches Some(d)
                    && is_lifecycle_diagnostic(
                    d,
                    DiagnosticCode::ActivationRollbackFailed,
                    DiagnosticSeverity::Error,
                    Some(self.scope()),
                    Some(p),
                    None,
                    "activation rollback completed with leaked resources"@,
                ))
                &&& rollback.outcome == DisposeOutcome::Disposed ==> r.1 is None
            }),
    {
        let CandidateBuild { scope, order, activated, failure } = self;
        let (plugin_id, error) = failure.unwrap();
        let d = if rollback.outcome == DisposeOutcome::Failed {
            Some(
                lifecycle_diagnostic(
                    DiagnosticCode::ActivationRollbackFailed,
                    DiagnosticSeverity::Error,
                    Some(&scope),
                    Some(plugin_id.clone()),
                    None,
                    owned("activation rollback completed with leaked resources"),
                ),
            )
        } else {
            None
        };
        (
            CandidateBuildError::Activation { plugin_id, error, rollback: Box::new(rollback) },
            d,
        )
    }
}

/// A plugin activated into a scope: its instance, the stack that tracks the
/// disposal of its effects, and their disposers in creation order.
pub struct ActivatedPlugin<D> {
    pub instance: PluginInstanceIdentity,
    pub effects: EffectStack,
    pub disposers: Vec<D>,
}

/// A plugin activated whose effects have not been disposed yet.
pub open spec fn undisposed<D>(p: ActivatedPlugin<D>) -> bool {
    &&& p.effects.wf()
    &&& p.effects.settled() == 0
    &&& p.effects.cached_report() is None
    &&& p.disposers@.len() == p.effects.records().len()
}

/// A plugin the host compiles in. Activating it registers effects, each with
/// the disposer that undoes it, and may emit diagnostics; the runner that
/// calls it turns a panic into `Panicked`.
pub trait InternalPlugin<D> {
    /// Whether what activating does is known in advance: then it registers
    /// `registers`, in order, and ends as `ends_as`.
    open spec fn prepared(&self) -> bool {
        false
    }

    /// The disposers activating registers, in order.
    open spec fn registers(&self) -> Seq<D> {
        Seq::empty()
    }

    /// How activating ends.
    open spec fn ends_as(&self) -> ActivationOutcome {
        ActivationOutcome::Succeeded
    }

    /// The diagnostics activating emits, in order.
    open spec fn emits(&self) -> Seq<ExtensionDiagnostic> {
        Seq::empty()
    }

    fn activate(
        &mut self,
        effects: &mut EffectSink<D>,
        diagnostics: &mut CollectingDiagnosticSink,
    ) -> (r: ActivationOutcome)
        ensures
            old(self).prepared() && old(effects).records().len() + old(self).registers().len()
                < u64::MAX ==> {
                &&& final(effects).owner() == old(effects).owner()
                &&& final(effects).disposers() == old(effects).disposers() + old(
                    self,
                ).registers()
                &&& r == old(self).ends_as()
                &&& final(diagnostics).received() == old(diagnostics).received() + old(
                    self,
                ).emits()
            },
    ;
}

/// The sink holds, from position `base` on, the diagnostics plugin `p`
/// emits while it activates, in order, each bound to `instance`.
pub open spec fn forwarded_at<D, P: InternalPlugin<D>>(
    p: P,
    instance: PluginInstanceIdentity,
    base: int,
    held: Seq<ExtensionDiagnostic>,
) -> bool {
    &&& 0 <= base
    &&& base + p.emits().len() <= held.len()
    &&& forall|k: int|
        0 <= k < p.emits().len() ==> rebound(instance, #[trigger] p.emits()[k], held[base + k])
}

/// The sink holds, somewhere after position `from`, the diagnostics plugin
/// `p` emits while it activates, in order, each bound to `instance`.
pub open spec fn forwarded<D, P: InternalPlugin<D>>(
    p: P,
    instance: PluginInstanceIdentity,
    from: int,
    held: Seq<ExtensionDiagnostic>,
) -> bool {
    exists|base: int| from <= base && #[trigger] forwarded_at(p, instance, base, held)
}

pub proof fn lemma_forwarded_grows<D, P: InternalPlugin<D>>(
    p: P,
    instance: PluginInstanceIdentity,
    from: int,
    a: Seq<ExtensionDiagnostic>,
    b: Seq<ExtensionDiagnostic>,
)
    requires
        forwarded(p, instance, from, a),
        grows(a, b),
    ensures
        forwarded(p, instance, from, b),
{
    let base = choose|base: int| from <= base && #[trigger] forwarded_at(p, instance, base, a);
    assert forall|k: int| 0 <= k < p.emits().len() implies rebound(
        instance,
        #[trigger] p.emits()[k],
        b[base + k],
    ) by {
        assert(b[base + k] == b.subrange(0, a.len() as int)[base + k]);
    }
    assert(forwarded_at(p, instance, base, b));
}

/// A plugin prepared in advance, activated into a fresh sink: it registers
/// what `registers` says, in order, and ends as `ends_as` says.
pub open spec fn prepared_as<D, P: InternalPlugin<D>>(p: P) -> bool {
    p.prepared() && p.registers().len() < u64::MAX
}

/// A plugin whose activation is fixed in advance: it registers the effects it
/// was given, in order, and ends as it was told.
pub struct PreparedPlugin<D> {
    effects: Vec<D>,
    diagnostics: Vec<ExtensionDiagnostic>,
    outcome: ActivationOutcome,
}

impl<D> PreparedPlugin<D> {
    /// The effects it will register.
    pub closed spec fn effects_given(&self) -> Seq<D> {
        self.effects@
    }

    /// How it will end.
    pub closed spec fn outcome_given(&self) -> ActivationOutcome {
        self.outcome
    }

    /// The diagnostics it will emit.
    pub closed spec fn diagnostics_given(&self) -> Seq<ExtensionDiagnostic> {
        self.diagnostics@
    }

    pub fn new(
        effects: Vec<D>,
        diagnostics: Vec<ExtensionDiagnostic>,
        outcome: ActivationOutcome,
    ) -> (r: Self)
        ensures
            r.prepared(),
            r.registers() == effects@,
            r.emits() == diagnostics@,
            r.ends_as() == outcome,
    {
        PreparedPlugin { effects, diagnostics, outcome }
    }
}

impl<D> InternalPlugin<D> for PreparedPlugin<D> {
    open spec fn prepared(&self) -> bool {
        true
    }

    open spec fn registers(&self) -> Seq<D> {
        self.effects_given()
    }

    open spec fn ends_as(&self) -> ActivationOutcome {
        self.outcome_given()
    }

    open spec fn emits(&self) -> Seq<ExtensionDiagnostic> {
        self.diagnostics_given()
    }

    fn activate(
        &mut self,
        effects: &mut EffectSink<D>,
        diagnostics: &mut CollectingDiagnosticSink,
    ) -> (r: ActivationOutcome) {
        let ghost given = self.effects@;
        let mut mine: Vec<D> = Vec::new();
        std::mem::swap(&mut mine, &mut self.effects);
        let n = mine.len();
        let mut reversed: Vec<D> = Vec::new();
        while mine.len() > 0
            invariant
                given.len() == n,
                mine@ == given.take(mine@.len() as int),
                reversed@.len() == n - mine@.len(),
                forall|k: int| 0 <= k < reversed@.len() ==> #[trigger] reversed@[k] == given[n - 1 - k],
            decreases mine.len(),
        {
            let d = mine.pop().unwrap();
            proof {
                assert(mine@ =~= given.take(mine@.len() as int));
            }
            reversed.push(d);
        }
        let ghost base = effects.disposers();
        let ghost fits = effects.records().len() + given.len() < u64::MAX;
        let mut i: usize = 0;
        while reversed.len() > 0
            invariant
                given.len() == n,
                reversed@.len() + i == n,
                forall|k: int| 0 <= k < reversed@.len() ==> #[trigger] reversed@[k] == given[n - 1 - k],
                effects.owner() == old(effects).owner(),
                base == old(effects).disposers(),
                fits == (old(effects).records().len() + given.len() < u64::MAX),
                fits ==> effects.records().len() == old(effects).records().len() + i,
                fits ==> effects.disposers() == base + given.take(i as int),
            decreases reversed.len(),
        {
            let d = reversed.pop().unwrap();
            if (effects.len() as u64) < u64::MAX {
                effects.push(d);
                proof {
                    if fits {
                        assert(given.take(i + 1) =~= given.take(i as int).push(given[i as int]));
                    }
                }
            }
            i = i + 1;
        }
        proof {
            assert(given.take(n as int) =~= given);
        }
        let ghost said = self.diagnostics@;
        let ghost seen = diagnostics.received();
        let mut notes: Vec<ExtensionDiagnostic> = Vec::new();
        std::mem::swap(&mut notes, &mut self.diagnostics);
        let m = notes.len();
        let mut backwards: Vec<ExtensionDiagnostic> = Vec::new();
        while notes.len() > 0
            invariant
                said.len() == m,
                notes@ == said.take(notes@.len() as int),
                backwards@.len() == m - notes@.len(),
                forall|k: int| 0 <= k < backwards@.len() ==> #[trigger] backwards@[k] == said[m - 1 - k],
            decreases notes.len(),
        {
            let d = notes.pop().unwrap();
            proof {
                assert(notes@ =~= said.take(notes@.len() as int));
            }
            backwards.push(d);
        }
        let mut j: usize = 0;
        while backwards.len() > 0
            invariant
                said.len() == m,
                backwards@.len() + j == m,
                forall|k: int| 0 <= k < backwards@.len() ==> #[trigger] backwards@[k] == said[m - 1 - k],
                seen == old(diagnostics).received(),
                diagnostics.received() == seen + said.take(j as int),
            decreases backwards.len(),
        {
            let d = backwards.pop().unwrap();
            diagnostics.emit(d);
            proof {
                assert(said.take(j + 1) =~= said.take(j as int).push(said[j as int]));
            }
            j = j + 1;
        }
        proof {
            assert(said.take(m as int) =~= said);
        }
        match &self.outcome {
            ActivationOutcome::Succeeded => ActivationOutcome::Succeeded,
            ActivationOutcome::Failed(e) => ActivationOutcome::Failed(e.copied()),
            ActivationOutcome::Panicked => ActivationOutcome::Panicked,
        }
    }
}

/// Waits for a scope's tasks and leases to drain.
pub trait ScopeDrain {
    /// Waits at most `limit_ms` milliseconds; false when time ran out first.
    fn drain(&mut self, limit_ms: u64) -> bool;

    fn remaining_tasks(&self) -> usize;

    fn remaining_leases(&self) -> usize;
}

/// Disposing plugin `p` gave report `rep` and ran `calls`: the report names
/// it and comes from one run of its effects, whose attempts are how the
/// cleanups it ran ended, under the per-effect deadline and at most
/// `scope_ms`.
pub open spec fn plugin_disposed<D>(
    p: ActivatedPlugin<D>,
    rep: (PluginInstanceIdentity, EffectDisposeReport),
    effect_ms: u64,
    scope_ms: u64,
    calls: Seq<(D, u64, CleanupEnd)>,
) -> bool {
    &&& rep.0 == p.instance
    &&& rep.1.outcome == outcome_of(rep.1.records@)
    &&& exists|attempts: Seq<DisposeAttempt>|
        #![trigger disposal_run(p.effects.records(), attempts, rep.1.records@)]
        disposal_run(p.effects.records(), attempts, rep.1.records@) && effect_runs(
            p.disposers@,
            attempts,
            effect_ms,
            scope_ms,
            calls,
        )
}

/// Disposing `plugins` gave `reports` and ran `calls`: the plugins are
/// reached from the last activated to the first, and the cleanups of each
/// follow those of the plugins reached before it.
pub open spec fn plugins_disposed<D>(
    plugins: Seq<ActivatedPlugin<D>>,
    reports: Seq<(PluginInstanceIdentity, EffectDisposeReport)>,
    effect_ms: u64,
    scope_ms: u64,
    calls: Seq<(D, u64, CleanupEnd)>,
) -> bool {
    &&& reports.len() == plugins.len()
    &&& exists|parts: Seq<Seq<(D, u64, CleanupEnd)>>|
        #![trigger parts.flatten()]
        {
            &&& parts.len() == plugins.len()
            &&& calls == parts.flatten()
            &&& forall|k: int|
                0 <= k < plugins.len() ==> plugin_disposed(
                    plugins[plugins.len() - 1 - k],
                    #[trigger] reports[k],
                    effect_ms,
                    scope_ms,
                    parts[k],
                )
        }
}

/// The cleanups disposing plugin `p` runs, whatever its report.
pub open spec fn plugin_effect_runs<D>(
    p: ActivatedPlugin<D>,
    effect_ms: u64,
    calls: Seq<(D, u64, CleanupEnd)>,
) -> bool {
    exists|attempts: Seq<DisposeAttempt>|
        #![trigger effect_runs(p.disposers@, attempts, effect_ms, effect_ms, calls)]
        effect_runs(p.disposers@, attempts, effect_ms, effect_ms, calls)
}

/// The cleanups disposing `plugins` runs, whatever the reports: the plugins
/// are reached from the last activated to the first.
pub open spec fn plugin_runs<D>(
    plugins: Seq<ActivatedPlugin<D>>,
    effect_ms: u64,
    calls: Seq<(D, u64, CleanupEnd)>,
) -> bool {
    exists|parts: Seq<Seq<(D, u64, CleanupEnd)>>|
        #![trigger parts.flatten()]
        {
            &&& parts.len() == plugins.len()
            &&& calls == parts.flatten()
            &&& forall|k: int|
                0 <= k < plugins.len() ==> plugin_effect_runs(
                    plugins[plugins.len() - 1 - k],
                    effect_ms,
                    #[trigger] parts[k],
                )
        }
}

pub proof fn lemma_plugins_disposed_runs<D>(
    plugins: Seq<ActivatedPlugin<D>>,
    reports: Seq<(PluginInstanceIdentity, EffectDisposeReport)>,
    effect_ms: u64,
    scope_ms: u64,
    calls: Seq<(D, u64, CleanupEnd)>,
)
    requires
        plugins_disposed(plugins, reports, effect_ms, scope_ms, calls),
    ensures
        plugin_runs(plugins, effect_ms, calls),
{
    let parts = choose|parts: Seq<Seq<(D, u64, CleanupEnd)>>|
        {
            &&& parts.len() == plugins.len()
            &&& calls == parts.flatten()
            &&& forall|k: int|
                0 <= k < plugins.len() ==> plugin_disposed(
                    plugins[plugins.len() - 1 - k],
                    #[trigger] reports[k],
                    effect_ms,
                    scope_ms,
                    parts[k],
                )
        };
    assert forall|k: int| 0 <= k < plugins.len() implies plugin_effect_runs(
        plugins[plugins.len() - 1 - k],
        effect_ms,
        #[trigger] parts[k],
    ) by {
        let p = plugins[plugins.len() - 1 - k];
        assert(plugin_disposed(p, reports[k], effect_ms, scope_ms, parts[k]));
        let a = choose|attempts: Seq<DisposeAttempt>|
            disposal_run(p.effects.records(), attempts, reports[k].1.records@) && effect_runs(
                p.disposers@,
                attempts,
                effect_ms,
                scope_ms,
                parts[k],
            );
        assert(effect_runs(p.disposers@, a, effect_ms, effect_ms, parts[k]));
    }
    assert(parts.flatten() == calls);
}

/// A run that ran `x` and then `y` ran `x + y`.
pub proof fn lemma_ran_then<D>(
    records: bool,
    a: Seq<(D, u64, CleanupEnd)>,
    x: Seq<(D, u64, CleanupEnd)>,
    b: Seq<(D, u64, CleanupEnd)>,
    y: Seq<(D, u64, CleanupEnd)>,
    c: Seq<(D, u64, CleanupEnd)>,
)
    requires
        ran(records, a, x, b),
        ran(records, b, y, c),
    ensures
        ran(records, a, x + y, c),
{
    assert((a + x) + y =~= a + (x + y));
}

/// Disposes the effects of activated plugins, the last activated first, each
/// plugin's effects the last registered first; each plugin gets what is left
/// of the scope's deadline, counted from `scope_started`.
pub fn dispose_plugins<D, R: CleanupRunner<D>, C: DisposalClock, S: DiagnosticSink>(
    plugins: Vec<ActivatedPlugin<D>>,
    deadlines: &LifecycleDeadlines,
    scope_started: u64,
    runner: &mut R,
    clock: &mut C,
    sink: &mut S,
) -> (r: Vec<(PluginInstanceIdentity, EffectDisposeReport)>)
    requires
        forall|k: int| 0 <= k < plugins@.len() ==> undisposed(#[trigger] plugins@[k]),
    ensures
        exists|calls: Seq<(D, u64, CleanupEnd)>|
            plugins_disposed(plugins@, r@, deadlines.effect, deadlines.scope, calls) && ran(
                old(runner).records_runs(),
                old(runner).runs(),
                calls,
                final(runner).runs(),
            ),
        final(runner).records_runs() == old(runner).records_runs(),
        final(sink).keeps() == old(sink).keeps(),
        grows(old(sink).held(), final(sink).held()),
{
    let ghost all = plugins@;
    let ghost runs0 = runner.runs();
    let n = plugins.len();
    let mut rest = plugins;
    let mut reports: Vec<(PluginInstanceIdentity, EffectDisposeReport)> = Vec::new();
    let ghost mut parts: Seq<Seq<(D, u64, CleanupEnd)>> = Seq::empty();
    assert(sink.held().subrange(0, sink.held().len() as int) =~= sink.held());
    assert(runs0 + parts.flatten() =~= runs0);
    while rest.len() > 0
        invariant
            all.len() == n,
            rest@ == all.take(rest@.len() as int),
            reports@.len() == n - rest@.len(),
            parts.len() == reports@.len(),
            forall|k: int| 0 <= k < all.len() ==> undisposed(#[trigger] all[k]),
            forall|k: int|
                0 <= k < reports@.len() ==> plugin_disposed(
                    all[n - 1 - k],
                    #[trigger] reports@[k],
                    deadlines.effect,
                    deadlines.scope,
                    parts[k],
                ),
            runs0 == old(runner).runs(),
            runner.records_runs() == old(runner).records_runs(),
            ran(runner.records_runs(), runs0, parts.flatten(), runner.runs()),
            sink.keeps() == old(sink).keeps(),
            grows(old(sink).held(), sink.held()),
        decreases rest.len(),
    {
        let plugin = rest.pop().unwrap();
        proof {
            assert(rest@ =~= all.take(rest@.len() as int));
            assert(plugin == all[rest@.len() as int]);
        }
        let ghost p = plugin;
        let ActivatedPlugin { instance, effects, disposers } = plugin;
        let mut effects = effects;
        let ghost held_before = sink.held();
        let ghost runs_before = runner.runs();
        let elapsed = elapsed_since(scope_started, clock.now_ms());
        let remaining = match deadlines.scope_remaining(elapsed) {
            Some(remaining) => remaining,
            None => 0,
        };
        let report = effects.dispose(disposers, deadlines.effect, remaining, runner, clock, sink);
        proof {
            lemma_grows_trans(old(sink).held(), held_before, sink.held());
            let (a, c) = choose|a: Seq<DisposeAttempt>, c: Seq<(D, u64, CleanupEnd)>|
                {
                    &&& disposal_run(p.effects.records(), a, report.records@)
                    &&& effect_runs(p.disposers@, a, deadlines.effect, remaining, c)
                    &&& ran(runner.records_runs(), runs_before, c, runner.runs())
                };
            assert(effect_runs(p.disposers@, a, deadlines.effect, deadlines.scope, c));
            assert(plugin_disposed(p, (instance, report), deadlines.effect, deadlines.scope, c));
            lemma_ran_then(runner.records_runs(), runs0, parts.flatten(), runs_before, c, runner.runs());
            parts.lemma_flatten_push(c);
            parts = parts.push(c);
        }
        reports.push((instance, report));
    }
    proof {
        assert(plugins_disposed(all, reports@, deadlines.effect, deadlines.scope, parts.flatten()));
    }
    reports
}

/// A built scope: its identity, the plugins activated in it in activation
/// order, the child scopes attached to it in attachment order, and what
/// drains its tasks and leases.
pub struct ScopeSnapshot<D, Q> {
    pub identity: ScopeIdentity,
    pub plugins: Vec<ActivatedPlugin<D>>,
    pub children: Vec<ScopeSnapshot<D, Q>>,
    pub tasks: Q,
}

/// A scope, and every scope below it, whose plugins' effects are all still
/// to be disposed.
pub open spec fn scope_undisposed<D, Q>(s: ScopeSnapshot<D, Q>) -> bool
    decreases s,
{
    &&& forall|k: int| 0 <= k < s.plugins@.len() ==> undisposed(#[trigger] s.plugins@[k])
    &&& forall|k: int|
        0 <= k < s.children@.len() ==> scope_undisposed(#[trigger] s.children@[k])
}

/// The cleanups disposing scope `s` runs: those of its child scopes, the
/// last attached first (a child reached after the scope's deadline runs
/// none), then those of its own plugins, the last activated first; each one
/// under at most the per-effect deadline.
pub open spec fn scope_runs<D, Q>(
    s: ScopeSnapshot<D, Q>,
    effect_ms: u64,
    calls: Seq<(D, u64, CleanupEnd)>,
) -> bool
    decreases s,
{
    exists|cs: Seq<Seq<(D, u64, CleanupEnd)>>, own: Seq<(D, u64, CleanupEnd)>|
        #![trigger cs.flatten(), plugin_runs(s.plugins@, effect_ms, own)]
        {
            &&& cs.len() == s.children@.len()
            &&& calls == cs.flatten() + own
            &&& forall|k: int|
                0 <= k < cs.len() ==> (#[trigger] cs[k]).len() == 0 || scope_runs(
                    s.children@[cs.len() - 1 - k],
                    effect_ms,
                    cs[k],
                )
            &&& plugin_runs(s.plugins@, effect_ms, own)
        }
}

/// The cleanups the disposal of a scope ran, with the report it gave: those
/// of its child scopes (`cs`, one part per child, the last attached first),
/// all before those of its own plugins (`own`).
pub open spec fn scope_disposed<D, Q>(
    s: ScopeSnapshot<D, Q>,
    r: ScopeDisposeReport,
    effect_ms: u64,
    scope_ms: u64,
    cs: Seq<Seq<(D, u64, CleanupEnd)>>,
    own: Seq<(D, u64, CleanupEnd)>,
) -> bool {
    &&& cs.len() == s.children@.len()
    &&& forall|k: int|
        0 <= k < cs.len() ==> (#[trigger] cs[k]).len() == 0 || scope_runs(
            s.children@[cs.len() - 1 - k],
            effect_ms,
            cs[k],
        )
    &&& plugins_disposed(s.plugins@, r.plugin_reports@, effect_ms, scope_ms, own)
}

/// The outcome of a scope's disposal from its report.
pub open spec fn scope_outcome(r: ScopeDisposeReport) -> DisposeOutcome {
    if scope_dispose_failed(r.quiesce_timed_out, false, r.child_reports@, r.plugin_reports@) {
        DisposeOutcome::Failed
    } else {
        DisposeOutcome::Disposed
    }
}

impl<D, Q: ScopeDrain> ScopeSnapshot<D, Q> {
    /// Quiesces the scope and disposes it: its tasks and leases get the
    /// quiesce deadline to drain; then its child scopes are disposed, the
    /// last attached first, each with what is left of the scope's deadline
    /// (a child reached after it, or that outruns it, is reported as timed
    /// out); then its own plugins' effects, the last activated first. The
    /// report names the scope, holds one report per child in the order
    /// disposed and one per plugin, and the scope failed when anything did.
    pub fn quiesce_and_dispose<R: CleanupRunner<D>, C: DisposalClock, S: DiagnosticSink>(
        self,
        deadlines: &LifecycleDeadlines,
        runner: &mut R,
        clock: &mut C,
        sink: &mut S,
    ) -> (r: ScopeDisposeReport)
        requires
            scope_undisposed(self),
        ensures
            r.scope == self.identity,
            r.child_reports@.len() == self.children@.len(),
            forall|k: int|
                0 <= k < r.child_reports@.len() ==> (#[trigger] r.child_reports@[k]).scope
                    == self.children@[self.children@.len() - 1 - k].identity,
            exists|cs: Seq<Seq<(D, u64, CleanupEnd)>>, own: Seq<(D, u64, CleanupEnd)>|
                scope_disposed(self, r, deadlines.effect, deadlines.scope, cs, own) && ran(
                    old(runner).records_runs(),
                    old(runner).runs(),
                    cs.flatten() + own,
                    final(runner).runs(),
                ),
            r.outcome == scope_outcome(r),
            final(runner).records_runs() == old(runner).records_runs(),
            final(sink).keeps() == old(sink).keeps(),
            grows(old(sink).held(), final(sink).held()),
        decreases self,
    {
        let ghost me = self;
        let ghost runs0 = runner.runs();
        let ScopeSnapshot { identity, plugins, children, tasks } = self;
        let mut tasks = tasks;
        let started = clock.now_ms();
        let ghost h0 = sink.held();
        let drained = tasks.drain(deadlines.quiesce_limit());
        if !drained {
            send(sink, quiesce_diagnostic(&identity, true));
        } else {
            assert(sink.held().subrange(0, h0.len() as int) =~= h0);
        }
        let ghost all = children@;
        let n = children.len();
        let mut rest = children;
        let mut child_reports: Vec<ScopeDisposeReport> = Vec::new();
        let mut child_timeout = false;
        let ghost mut cs: Seq<Seq<(D, u64, CleanupEnd)>> = Seq::empty();
        assert(runs0 + cs.flatten() =~= runs0);
        while rest.len() > 0
            invariant
                me == self,
                all == me.children@,
                n == all.len(),
                rest@ == all.take(rest@.len() as int),
                child_reports@.len() == n - rest@.len(),
                cs.len() == child_reports@.len(),
                forall|k: int| 0 <= k < all.len() ==> scope_undisposed(#[trigger] all[k]),
                forall|k: int|
                    0 <= k < child_reports@.len() ==> (#[trigger] child_reports@[k]).scope
                        == all[n - 1 - k].identity,
                forall|k: int|
                    0 <= k < cs.len() ==> (#[trigger] cs[k]).len() == 0 || scope_runs(
                        all[n - 1 - k],
                        deadlines.effect,
                        cs[k],
                    ),
                runs0 == old(runner).runs(),
                runner.records_runs() == old(runner).records_runs(),
                ran(runner.records_runs(), runs0, cs.flatten(), runner.runs()),
                sink.keeps() == old(sink).keeps(),
                grows(old(sink).held(), sink.held()),
            decreases rest.len(),
        {
            let child = rest.pop().unwrap();
            proof {
                assert(rest@ =~= all.take(rest@.len() as int));
                let j = rest@.len() as int;
                assert(child == self.children@[j]);
                assert(decreases_to!(self => self.children));
                assert(decreases_to!(self.children => self.children@));
                assert(decreases_to!(self.children@ => self.children@[j]));
            }
            let ghost ch = child;
            let child_identity = child.identity.copied();
            let elapsed = elapsed_since(started, clock.now_ms());
            match deadlines.scope_remaining(elapsed) {
                None => {
                    child_timeout = true;
                    let report = timed_out_scope_report(
                        &child_identity,
                        child.tasks.remaining_tasks(),
                        child.tasks.remaining_leases(),
                    );
                    child_reports.push(report);
                    proof {
                        let e: Seq<(D, u64, CleanupEnd)> = Seq::empty();
                        cs.lemma_flatten_push(e);
                        assert(cs.flatten() + e =~= cs.flatten());
                        cs = cs.push(e);
                    }
                },
                Some(remaining) => {
                    let child_deadlines = LifecycleDeadlines {
                        quiesce: deadlines.quiesce,
                        effect: deadlines.effect,
                        scope: remaining,
                    };
                    let ghost hb = sink.held();
                    let ghost rb = runner.runs();
                    let report = child.quiesce_and_dispose(&child_deadlines, runner, clock, sink);
                    proof {
                        lemma_grows_trans(old(sink).held(), hb, sink.held());
                        let (ccs, cown) = choose|
                            ccs: Seq<Seq<(D, u64, CleanupEnd)>>,
                            cown: Seq<(D, u64, CleanupEnd)>,
                        |
                            scope_disposed(ch, report, deadlines.effect, remaining, ccs, cown) && ran(
                                runner.records_runs(),
                                rb,
                                ccs.flatten() + cown,
                                runner.runs(),
                            );
                        lemma_plugins_disposed_runs(
                            ch.plugins@,
                            report.plugin_reports@,
                            deadlines.effect,
                            remaining,
                            cown,
                        );
                        let part = ccs.flatten() + cown;
                        assert(scope_runs(ch, deadlines.effect, part));
                        lemma_ran_then(runner.records_runs(), runs0, cs.flatten(), rb, part, runner.runs());
                        cs.lemma_flatten_push(part);
                        cs = cs.push(part);
                    }
                    let after = elapsed_since(started, clock.now_ms());
                    if deadlines.scope_remaining(after).is_none() {
                        child_timeout = true;
                        let late = timed_out_scope_report(
                            &child_identity,
                            report.remaining_tasks,
                            report.remaining_leases,
                        );
                        child_reports.push(late);
                    } else {
                        child_reports.push(report);
                    }
                },
            }
        }
        let ghost hp = sink.held();
        let ghost rp = runner.runs();
        let plugin_reports = dispose_plugins(plugins, deadlines, started, runner, clock, sink);
        let ghost hf = sink.held();
        let ghost own = choose|c: Seq<(D, u64, CleanupEnd)>|
            plugins_disposed(me.plugins@, plugin_reports@, deadlines.effect, deadlines.scope, c)
                && ran(runner.records_runs(), rp, c, runner.runs());
        let (report, _state, closing) = finish_scope_dispose(
            &identity,
            !drained,
            child_timeout,
            tasks.remaining_tasks(),
            tasks.remaining_leases(),
            child_reports,
            plugin_reports,
        );
        send(sink, closing);
        proof {
            lemma_grows_trans(old(sink).held(), hp, hf);
            lemma_grows_trans(old(sink).held(), hf, sink.held());
            lemma_ran_then(runner.records_runs(), runs0, cs.flatten(), rp, own, runner.runs());
            assert(scope_disposed(me, report, deadlines.effect, deadlines.scope, cs, own));
        }
        report
    }
}

/// A scope that may be asked to dispose more than once: the first request
/// quiesces and disposes it, and the report is kept; every later request runs
/// nothing, and the kept report stays the answer.
pub struct DisposableScope<D, Q> {
    scope: Option<ScopeSnapshot<D, Q>>,
    report: Option<ScopeDisposeReport>,
}

impl<D, Q: ScopeDrain> DisposableScope<D, Q> {
    /// The scope still to dispose, if it was not disposed yet.
    pub closed spec fn waiting(&self) -> Option<ScopeSnapshot<D, Q>> {
        self.scope
    }

    /// The report of its disposal, once it was disposed.
    pub closed spec fn kept(&self) -> Option<ScopeDisposeReport> {
        self.report
    }

    pub closed spec fn wf(&self) -> bool {
        match self.scope {
            Some(s) => scope_undisposed(s) && self.report is None,
            None => self.report is Some,
        }
    }

    pub fn new(scope: ScopeSnapshot<D, Q>) -> (r: Self)
        requires
            scope_undisposed(scope),
        ensures
            r.wf(),
            r.waiting() == Some(scope),
            r.kept() is None,
    {
        DisposableScope { scope: Some(scope), report: None }
    }

    /// Disposes the scope the first time it is asked to; a later request runs
    /// no cleanup, emits nothing and keeps the first report.
    pub fn dispose<R: CleanupRunner<D>, C: DisposalClock, S: DiagnosticSink>(
        &mut self,
        deadlines: &LifecycleDeadlines,
        runner: &mut R,
        clock: &mut C,
        sink: &mut S,
    )
        requires
            old(self).wf(),
        ensures
            final(self).wf(),
            final(self).waiting() is None,
            final(runner).records_runs() == old(runner).records_runs(),
            final(sink).keeps() == old(sink).keeps(),
            grows(old(sink).held(), final(sink).held()),
            old(self).kept() matches Some(k) ==> {
                &&& final(self).kept() == Some(k)
                &&& final(runner).runs() == old(runner).runs()
                &&& final(sink).held() == old(sink).held()
            },
            old(self).waiting() matches Some(s) ==> (final(self).kept() matches Some(r) && {
                &&& r.scope == s.identity
                &&& r.outcome == scope_outcome(r)
                &&& exists|cs: Seq<Seq<(D, u64, CleanupEnd)>>, own: Seq<(D, u64, CleanupEnd)>|
                    scope_disposed(s, r, deadlines.effect, deadlines.scope, cs, own) && ran(
                        old(runner).records_runs(),
                        old(runner).runs(),
                        cs.flatten() + own,
                        final(runner).runs(),
                    )
            }),
    {
        match self.scope.take() {
            None => {
                assert(sink.held().subrange(0, sink.held().len() as int) =~= sink.held());
            },
            Some(scope) => {
                let report = scope.quiesce_and_dispose(deadlines, runner, clock, sink);
                self.report = Some(report);
            },
        }
    }

    /// The report of the disposal, once the scope was disposed.
    pub fn report(&self) -> (r: Option<&ScopeDisposeReport>)
        ensures
            match self.kept() {
                Some(k) => r matches Some(x) && *x == k,
                None => r is None,
            },
    {
        match &self.report {
            Some(x) => Some(x),
            None => None,
        }
    }
}

/// A scope as published in a slot: the publication it came from, which tells
/// one publication from another even of equal scopes, and its identity.
#[derive(Debug, Clone, PartialEq, Eq)]
pub struct PublishedScope {
    pub publication: u64,
    pub identity: ScopeIdentity,
}

/// The same publication, or none on both sides; scopes that are equal but
/// come from different publications differ.
pub open spec fn same_publication(a: Option<PublishedScope>, b: Option<PublishedScope>) -> bool {
    match (a, b) {
        (Some(x), Some(y)) => x.publication == y.publication,
        (None, None) => true,
        _ => false,
    }
}

/// The slot that holds the current scope of one kind. A candidate replaces
/// the current scope only when the caller names exactly the publication it
/// expects to replace.
pub struct ScopeSlot<D, Q> {
    current: Option<(PublishedScope, ScopeSnapshot<D, Q>)>,
    next_publication: u64,
}

impl<D, Q: ScopeDrain> ScopeSlot<D, Q> {
    /// The publication in the slot, if any.
    pub closed spec fn published(&self) -> Option<PublishedScope> {
        match self.current {
            Some((p, _)) => Some(p),
            None => None,
        }
    }

    /// The scope the slot holds, if any.
    pub closed spec fn published_scope(&self) -> Option<ScopeSnapshot<D, Q>> {
        match self.current {
            Some((_, s)) => Some(s),
            None => None,
        }
    }

    pub closed spec fn wf(&self) -> bool {
        &&& self.current matches Some((p, s)) ==> p.publication < self.next_publication
            && p.identity == s.identity && scope_undisposed(s)
    }

    /// How many publications the slot has made.
    pub closed spec fn publications(&self) -> u64 {
        self.next_publication
    }

    pub fn empty() -> (r: Self)
        ensures
            r.wf(),
            r.published() is None,
            r.publications() == 0,
    {
        ScopeSlot { current: None, next_publication: 0 }
    }

    pub fn current(&self) -> (r: Option<PublishedScope>)
        ensures
            r == self.published(),
    {
        match &self.current {
            Some((p, _)) => Some(PublishedScope { publication: p.publication, identity: p.identity.copied() }),
            None => None,
        }
    }

    /// Publishes a candidate in place of the expected publication. Where the
    /// slot holds another publication (or none, or one where none was
    /// expected), the candidate lost the race: a `CandidateCasRejected`
    /// warning is emitted, the slot keeps what it holds, the candidate is
    /// disposed, and the error says `expected_old_mismatch`. Otherwise the
    /// candidate is announced and becomes current under a new publication,
    /// and the scope it replaced is disposed.
    pub fn publish<R: CleanupRunner<D>, C: DisposalClock, S: DiagnosticSink>(
        &mut self,
        expected: Option<PublishedScope>,
        candidate: ScopeSnapshot<D, Q>,
        deadlines: &LifecycleDeadlines,
        runner: &mut R,
        clock: &mut C,
        sink: &mut S,
    ) -> (r: Result<(PublishReport, PublishedScope), CandidatePublishError>)
        requires
            old(self).wf(),
            old(self).publications() < u64::MAX,
            scope_undisposed(candidate),
        ensures
            final(self).wf(),
            final(sink).keeps() == old(sink).keeps(),
            grows(old(sink).held(), final(sink).held()),
            final(runner).records_runs() == old(runner).records_runs(),
            same_publication(old(self).published(), expected) ==> {
                &&& r matches Ok((report, now)) && now.publication == old(self).publications()
                    && now.identity == candidate.identity && report.published == candidate.identity
                    && report.previous == match old(self).published() {
                    Some(p) => Some(p.identity),
                    None => None::<ScopeIdentity>,
                } && final(self).published() == Some(now) && match old(self).published_scope() {
                    Some(previous) => report.previous_dispose matches Some(pd) && pd.scope
                        == previous.identity && pd.outcome == scope_outcome(pd) && exists|
                        cs: Seq<Seq<(D, u64, CleanupEnd)>>,
                        own: Seq<(D, u64, CleanupEnd)>,
                    |
                        scope_disposed(previous, pd, deadlines.effect, deadlines.scope, cs, own)
                            && ran(
                            old(runner).records_runs(),
                            old(runner).runs(),
                            cs.flatten() + own,
                            final(runner).runs(),
                        ),
                    None => report.previous_dispose is None && final(runner).runs() == old(
                        runner,
                    ).runs(),
                }
                &&& final(self).publications() == old(self).publications() + 1
                &&& old(sink).keeps() ==> is_lifecycle_diagnostic(
                    final(sink).held()[old(sink).held().len() as int],
                    DiagnosticCode::CandidatePublished,
                    DiagnosticSeverity::Info,
                    Some(candidate.identity),
                    None,
                    None,
                    "candidate scope published"@,
                )
            },
            !same_publication(old(self).published(), expected) ==> {
                &&& r matches Err(e) && e.reason@ == "expected_old_mismatch"@ && e.rejected
                    == candidate.identity && e.rejected_dispose.scope == candidate.identity
                    && e.rejected_dispose.outcome == scope_outcome(e.rejected_dispose)
                    && e.actual == match old(self).published() {
                    Some(p) => Some(p.identity),
                    None => None::<ScopeIdentity>,
                } && exists|cs: Seq<Seq<(D, u64, CleanupEnd)>>, own: Seq<(D, u64, CleanupEnd)>|
                    scope_disposed(
                        candidate,
                        e.rejected_dispose,
                        deadlines.effect,
                        deadlines.scope,
                        cs,
                        own,
                    ) && ran(
                        old(runner).records_runs(),
                        old(runner).runs(),
                        cs.flatten() + own,
                        final(runner).runs(),
                    )
                &&& final(self).published() == old(self).published()
                &&& final(self).published_scope() == old(self).published_scope()
                &&& final(self).publications() == old(self).publications()
                &&& old(sink).keeps() ==> is_lifecycle_diagnostic(
                    final(sink).held()[old(sink).held().len() as int],
                    DiagnosticCode::CandidateCasRejected,
                    DiagnosticSeverity::Warning,
                    Some(candidate.identity),
                    None,
                    None,
                    "candidate publication lost the expected-old CAS race"@,
                )
            },
    {
        let ghost h0 = sink.held();
        let matches = match (&self.current, &expected) {
            (Some((p, _)), Some(e)) => p.publication == e.publication,
            (None, None) => true,
            _ => false,
        };
        if !matches {
            let diagnostic = publication_diagnostic(&candidate.identity, false);
            send(sink, diagnostic);
            let rejected = candidate.identity.copied();
            let actual = match &self.current {
                Some((p, _)) => Some(p.identity.copied()),
                None => None,
            };
            let ghost h1 = sink.held();
            let rejected_dispose = candidate.quiesce_and_dispose(deadlines, runner, clock, sink);
            proof {
                lemma_grows_trans(h0, h1, sink.held());
                if old(sink).keeps() {
                    assert(sink.held()[h0.len() as int] == sink.held().subrange(0, h1.len() as int)[h0.len() as int]);
                }
            }
            return Err(CandidatePublishError {
                expected: match expected {
                    Some(e) => Some(e.identity),
                    None => None,
                },
                actual,
                rejected,
                rejected_dispose,
                reason: expected_old_mismatch(),
            });
        }
        let announced = publication_diagnostic(&candidate.identity, true);
        send(sink, announced);
        let now = PublishedScope { publication: self.next_publication, identity: candidate.identity.copied() };
        let handle = PublishedScope { publication: now.publication, identity: now.identity.copied() };
        let previous = self.current.take();
        self.current = Some((now, candidate));
        self.next_publication = self.next_publication + 1;
        let ghost h1 = sink.held();
        let (previous_identity, previous_dispose) = match previous {
            Some((p, scope)) => {
                let report = scope.quiesce_and_dispose(deadlines, runner, clock, sink);
                (Some(p.identity), Some(report))
            },
            None => {
                assert(sink.held().subrange(0, h1.len() as int) =~= h1);
                (None, None)
            },
        };
        proof {
            lemma_grows_trans(h0, h1, sink.held());
            if old(sink).keeps() {
                assert(sink.held()[h0.len() as int] == sink.held().subrange(0, h1.len() as int)[h0.len() as int]);
            }
        }
        Ok((
            PublishReport {
                published: handle.identity.copied(),
                previous: previous_identity,
                previous_dispose,
            },
            handle,
        ))
    }
}

/// Activates the plugins of a candidate scope in their resolved order,
/// `plugins[k]` being the plugin named `order[k]`. Diagnostics a plugin emits
/// while it activates are bound to that plugin, the scope and its generation
/// before the host passes them on. The first activation that fails or panics
/// stops the build: every plugin activated so far, the failing one included,
/// is rolled back with every effect it registered, the last activated first
/// and each one's effects the last registered first, and the error names the
/// failing plugin. A panic becomes an `activation_panicked` error.
pub fn build_scope_candidate<
    D,
    P: InternalPlugin<D>,
    Q: ScopeDrain,
    R: CleanupRunner<D>,
    C: DisposalClock,
    S: DiagnosticSink,
>(
    identity: ScopeIdentity,
    order: Vec<String>,
    plugins: Vec<P>,
    deadlines: &LifecycleDeadlines,
    tasks: Q,
    runner: &mut R,
    clock: &mut C,
    sink: &mut S,
) -> (r: Result<ScopeSnapshot<D, Q>, CandidateBuildError>)
    requires
        plugins@.len() == order@.len(),
    ensures
        final(sink).keeps() == old(sink).keeps(),
        grows(old(sink).held(), final(sink).held()),
        final(runner).records_runs() == old(runner).records_runs(),
        (forall|k: int|
            0 <= k < plugins@.len() ==> prepared_as(#[trigger] plugins@[k]) && plugins@[k].ends_as()
                is Succeeded) ==> r is Ok,
        r matches Ok(candidate) ==> {
            &&& candidate.identity == identity
            &&& candidate.children@.len() == 0
            &&& scope_undisposed(candidate)
            &&& candidate.plugins@.len() == order@.len()
            &&& forall|k: int|
                0 <= k < candidate.plugins@.len() ==> {
                    let a = #[trigger] candidate.plugins@[k];
                    &&& a.instance.plugin_id == order@[k]
                    &&& a.instance.scope == identity
                    &&& undisposed(a)
                    &&& prepared_as(plugins@[k]) ==> a.disposers@ == plugins@[k].registers()
                    &&& old(sink).keeps() && prepared_as(plugins@[k]) ==> forwarded(
                        plugins@[k],
                        a.instance,
                        old(sink).held().len() as int,
                        final(sink).held(),
                    )
                }
            &&& final(runner).runs() == old(runner).runs()
        },
        r is Err ==> (r matches Err(CandidateBuildError::Activation { plugin_id, error, rollback }) && {
            &&& exists|rolled: Seq<ActivatedPlugin<D>>, own: Seq<(D, u64, CleanupEnd)>|
                #![trigger plugins_disposed(rolled, rollback.plugin_reports@, deadlines.effect, deadlines.scope, own)]
                {
                    let f = rolled.len() - 1;
                    &&& 1 <= rolled.len() <= order@.len()
                    &&& plugin_id == order@[f]
                    &&& forall|k: int|
                        0 <= k < rolled.len() ==> {
                            &&& (#[trigger] rolled[k]).instance.plugin_id == order@[k]
                            &&& rolled[k].instance.scope == identity
                            &&& undisposed(rolled[k])
                            &&& prepared_as(plugins@[k]) ==> rolled[k].disposers@
                                == plugins@[k].registers()
                            &&& old(sink).keeps() && prepared_as(plugins@[k]) ==> forwarded(
                                plugins@[k],
                                rolled[k].instance,
                                old(sink).held().len() as int,
                                final(sink).held(),
                            )
                        }
                    &&& forall|k: int|
                        0 <= k < f ==> prepared_as(#[trigger] plugins@[k]) ==> plugins@[k].ends_as()
                            is Succeeded
                    &&& prepared_as(plugins@[f]) ==> activation_failure(plugins@[f].ends_as(), error)
                    &&& plugins_disposed(
                        rolled,
                        rollback.plugin_reports@,
                        deadlines.effect,
                        deadlines.scope,
                        own,
                    )
                    &&& ran(old(runner).records_runs(), old(runner).runs(), own, final(runner).runs())
                }
            &&& exists|outcome: ActivationOutcome| activation_failure(outcome, error)
            &&& rollback.scope == identity
            &&& rollback.child_reports@.len() == 0
            &&& rollback.outcome == if scope_dispose_failed(
                rollback.quiesce_timed_out,
                false,
                rollback.child_reports@,
                rollback.plugin_reports@,
            ) {
                DisposeOutcome::Failed
            } else {
                DisposeOutcome::Disposed
            }
        }),
{
    let ghost given = plugins@;
    let n = order.len();
    let mut build = CandidateBuild::new(identity.copied(), order);
    let mut queue = plugins;
    let mut pending: Vec<P> = Vec::new();
    // Activation goes front to back; keep the plugins in reverse to pop them.
    while queue.len() > 0
        invariant
            given.len() == n,
            queue@ == given.take(queue@.len() as int),
            queue@.len() + pending@.len() == n,
            forall|j: int| 0 <= j < pending@.len() ==> #[trigger] pending@[j] == given[n - 1 - j],
        decreases queue.len(),
    {
        let p = queue.pop().unwrap();
        proof {
            assert(queue@ =~= given.take(queue@.len() as int));
        }
        pending.push(p);
    }
    let mut activated: Vec<ActivatedPlugin<D>> = Vec::new();
    assert(sink.held().subrange(0, sink.held().len() as int) =~= sink.held());
    while build.activated < n
        invariant
            build.wf(),
            build.scope() == identity,
            build.order() == order@,
            n == order@.len(),
            given.len() == n,
            given == plugins@,
            build.failure() is None,
            activated@.len() == build.activated(),
            pending@.len() == n - build.activated(),
            forall|j: int| 0 <= j < pending@.len() ==> #[trigger] pending@[j] == given[n - 1 - j],
            forall|k: int|
                0 <= k < activated@.len() ==> {
                    let a = #[trigger] activated@[k];
                    &&& a.instance.plugin_id == order@[k]
                    &&& a.instance.scope == identity
                    &&& undisposed(a)
                    &&& prepared_as(given[k]) ==> a.disposers@ == given[k].registers()
                },
            forall|k: int|
                0 <= k < activated@.len() ==> prepared_as(#[trigger] given[k]) ==> given[k].ends_as()
                    is Succeeded,
            forall|k: int|
                0 <= k < activated@.len() ==> old(sink).keeps() && prepared_as(given[k])
                    ==> forwarded(
                    given[k],
                    (#[trigger] activated@[k]).instance,
                    old(sink).held().len() as int,
                    sink.held(),
                ),
            runner.runs() == old(runner).runs(),
            runner.records_runs() == old(runner).records_runs(),
            sink.keeps() == old(sink).keeps(),
            grows(old(sink).held(), sink.held()),
        decreases n - build.activated(),
    {
        let f = build.activated;
        let (instance, started) = build.next_plugin().unwrap();
        let ghost h0 = sink.held();
        send(sink, started);
        let mut plugin = pending.pop().unwrap();
        let ghost before = plugin;
        proof {
            assert(before == given[f as int]);
        }
        let mut effects: EffectSink<D> = EffectSink::new(instance.copied());
        let mut emitted = CollectingDiagnosticSink::new();
        let ghost fresh = effects;
        let outcome = plugin.activate(&mut effects, &mut emitted);
        proof {
            if prepared_as(before) {
                assert(effects.disposers() =~= before.registers());
                assert(outcome == before.ends_as());
            }
        }
        let ghost h1 = sink.held();
        let ghost got = emitted.received();
        forward_plugin_diagnostics(sink, &instance, emitted);
        let ghost h2 = sink.held();
        proof {
            if old(sink).keeps() && prepared_as(before) {
                assert(got =~= before.emits());
                assert forall|k: int| 0 <= k < before.emits().len() implies rebound(
                    instance,
                    #[trigger] before.emits()[k],
                    h2[h1.len() + k],
                ) by {
                    assert(rebound(instance, got[k], h2[h1.len() + k]));
                }
                assert(forwarded_at(before, instance, h1.len() as int, h2));
            }
        }
        let ghost the_outcome = outcome;
        let (step, announced) = build.record(outcome);
        send(sink, announced);
        proof {
            lemma_grows_trans(old(sink).held(), h0, h1);
            lemma_grows_trans(old(sink).held(), h1, h2);
            lemma_grows_trans(old(sink).held(), h2, sink.held());
        }
        let ghost hs = sink.held();
        proof {
            lemma_grows_trans(h0, h1, h2);
            lemma_grows_trans(h0, h2, hs);
            if old(sink).keeps() && prepared_as(before) {
                lemma_grows_trans(h1, h2, hs);
                lemma_forwarded_grows(before, instance, old(sink).held().len() as int, h2, hs);
            }
            assert forall|k: int|
                0 <= k < activated@.len() && old(sink).keeps() && prepared_as(given[k]) implies forwarded(
                given[k],
                (#[trigger] activated@[k]).instance,
                old(sink).held().len() as int,
                hs,
            ) by {
                lemma_forwarded_grows(given[k], activated@[k].instance, old(sink).held().len() as int, h0, hs);
            }
        }
        let (stack, disposers) = effects.into_stack();
        let a = ActivatedPlugin { instance, effects: stack, disposers };
        let ghost act0 = activated@;
        activated.push(a);
        proof {
            assert forall|k: int| 0 <= k < activated@.len() implies {
                let x = #[trigger] activated@[k];
                &&& x.instance.plugin_id == order@[k]
                &&& x.instance.scope == identity
                &&& undisposed(x)
                &&& prepared_as(given[k]) ==> x.disposers@ == given[k].registers()
                &&& old(sink).keeps() && prepared_as(given[k]) ==> forwarded(
                    given[k],
                    x.instance,
                    old(sink).held().len() as int,
                    hs,
                )
            } by {
                if k < f {
                    assert(activated@[k] == act0[k]);
                }
            }
        }
        match step {
            BuildStep::Continue => {},
            BuildStep::RollBack => {
                let ghost rolled = activated@;
                let ghost h3 = sink.held();
                let ghost r0 = runner.runs();
                let candidate = ScopeSnapshot {
                    identity: identity.copied(),
                    plugins: activated,
                    children: Vec::new(),
                    tasks,
                };
                let ghost snapshot = candidate;
                let rollback = candidate.quiesce_and_dispose(deadlines, runner, clock, sink);
                let ghost h6 = sink.held();
                let ghost rb = rollback;
                let (error, leaked) = build.rolled_back(rollback);
                match leaked {
                    Some(d) => send(sink, d),
                    None => {
                        assert(sink.held().subrange(0, h6.len() as int) =~= h6);
                    },
                }
                proof {
                    lemma_grows_trans(old(sink).held(), h3, h6);
                    lemma_grows_trans(old(sink).held(), h6, sink.held());
                    let e = build.failure().unwrap().1;
                    assert(activation_failure(the_outcome, e));
                    assert(rolled.len() == f + 1);
                    let (cs, own) = choose|
                        cs: Seq<Seq<(D, u64, CleanupEnd)>>,
                        own: Seq<(D, u64, CleanupEnd)>,
                    |
                        scope_disposed(snapshot, rb, deadlines.effect, deadlines.scope, cs, own)
                            && ran(runner.records_runs(), r0, cs.flatten() + own, runner.runs());
                    assert(cs.len() == 0);
                    assert(cs.flatten() + own =~= own);
                    assert(plugins_disposed(
                        rolled,
                        rb.plugin_reports@,
                        deadlines.effect,
                        deadlines.scope,
                        own,
                    ));
                    if prepared_as(given[f as int]) {
                        assert(the_outcome == given[f as int].ends_as());
                        assert(rolled[f as int].disposers@ == given[f as int].registers());
                        assert(activation_failure(given[f as int].ends_as(), e));
                    }
                    assert(!(prepared_as(given[f as int]) && given[f as int].ends_as() is Succeeded));
                    assert(forall|k: int|
                        0 <= k < rolled.len() ==> (#[trigger] rolled[k]).instance.plugin_id
                            == order@[k]);
                    lemma_grows_trans(h3, h6, sink.held());
                    assert forall|k: int|
                        0 <= k < rolled.len() && old(sink).keeps() && prepared_as(given[k]) implies forwarded(
                        given[k],
                        (#[trigger] rolled[k]).instance,
                        old(sink).held().len() as int,
                        sink.held(),
                    ) by {
                        lemma_forwarded_grows(given[k], rolled[k].instance, old(sink).held().len() as int, h3, sink.held());
                    }
                }
                return Err(error);
            },
        }
    }
    Ok(ScopeSnapshot { identity, plugins: activated, children: Vec::new(), tasks })
}

/// Passes on, in order, the diagnostics a plugin emitted while it activated,
/// each bound to that plugin instance.
fn forward_plugin_diagnostics<S: DiagnosticSink>(
    sink: &mut S,
    instance: &PluginInstanceIdentity,
    emitted: CollectingDiagnosticSink,
)
    ensures
        final(sink).keeps() == old(sink).keeps(),
        old(sink).keeps() ==> ({
            let held = final(sink).held();
            &&& held.len() == old(sink).held().len() + emitted.received().len()
            &&& held.subrange(0, old(sink).held().len() as int) == old(sink).held()
            &&& forall|k: int|
                0 <= k < emitted.received().len() ==> rebound(
                    *instance,
                    emitted.received()[k],
                    #[trigger] held[old(sink).held().len() + k],
                )
        }),
        !old(sink).keeps() ==> final(sink).held() == old(sink).held(),
        grows(old(sink).held(), final(sink).held()),
{
    let n = emitted.len();
    let ghost sent = emitted.received();
    let mut rest = emitted.diagnostics;
    let mut queue: Vec<ExtensionDiagnostic> = Vec::new();
    while rest.len() > 0
        invariant
            sent.len() == n,
            rest@.len() + queue@.len() == n,
            rest@ == sent.take(rest@.len() as int),
            forall|k: int| 0 <= k < queue@.len() ==> #[trigger] queue@[k] == sent[n - 1 - k],
        decreases rest.len(),
    {
        let d = rest.pop().unwrap();
        proof {
            assert(rest@ =~= sent.take(rest@.len() as int));
        }
        queue.push(d);
    }
    let ghost base = old(sink).held();
    assert(sink.held().subrange(0, base.len() as int) =~= base);
    let mut i: usize = 0;
    while queue.len() > 0
        invariant
            sent.len() == n,
            queue@.len() + i == n,
            forall|k: int| 0 <= k < queue@.len() ==> #[trigger] queue@[k] == sent[n - 1 - k],
            sink.keeps() == old(sink).keeps(),
            base == old(sink).held(),
            old(sink).keeps() ==> sink.held().len() == base.len() + i,
            old(sink).keeps() ==> sink.held().subrange(0, base.len() as int) == base,
            old(sink).keeps() ==> forall|k: int|
                0 <= k < i ==> rebound(*instance, sent[k], #[trigger] sink.held()[base.len() + k]),
            !old(sink).keeps() ==> sink.held() == base,
        decreases queue.len(),
    {
        let d = queue.pop().unwrap();
        let ghost prev = sink.held();
        emit_for_plugin(sink, instance, d);
        proof {
            if old(sink).keeps() {
                assert(sink.held().subrange(0, base.len() as int) =~= prev.subrange(0, base.len() as int));
                assert forall|k: int| 0 <= k < i + 1 implies rebound(
                    *instance,
                    sent[k],
                    #[trigger] sink.held()[base.len() + k],
                ) by {
                    if k < i {
                        assert(sink.held()[base.len() + k] == prev[base.len() + k]);
                    }
                }
            }
        }
        i = i + 1;
    }
    assert(sink.held().subrange(0, base.len() as int) =~= base);
}

/// The diagnostic a publication raises: a warning when the candidate lost
/// the compare-and-swap on the expected scope, else the announcement.
pub fn publication_diagnostic(candidate: &ScopeIdentity, swapped: bool) -> (r: ExtensionDiagnostic)
    ensures
        swapped ==> is_lifecycle_diagnostic(
            r,
            DiagnosticCode::CandidatePublished,
            DiagnosticSeverity::Info,
            Some(*candidate),
            None,
            None,
            "candidate scope published"@,
        ),
        !swapped ==> is_lifecycle_diagnostic(
            r,
            DiagnosticCode::CandidateCasRejected,
            DiagnosticSeverity::Warning,
            Some(*candidate),
            None,
            None,
            "candidate publication lost the expected-old CAS race"@,
        ),
{
    if swapped {
        lifecycle_diagnostic(
            DiagnosticCode::CandidatePublished,
            DiagnosticSeverity::Info,
            Some(candidate),
            None,
            None,
            owned("candidate scope published"),
        )
    } else {
        lifecycle_diagnostic(
            DiagnosticCode::CandidateCasRejected,
            DiagnosticSeverity::Warning,
            Some(candidate),
            None,
            None,
            owned("candidate publication lost the expected-old CAS race"),
        )
    }
}

/// The diagnostics of quiescing: its start, and a timeout when tasks or
/// leases did not drain in time.
pub fn quiesce_diagnostic(scope: &ScopeIdentity, timed_out: bool) -> (r: ExtensionDiagnostic)
    ensures
        !timed_out ==> is_lifecycle_diagnostic(
            r,
            DiagnosticCode::QuiesceStarted,
            DiagnosticSeverity::Info,
            Some(*scope),
            None,
            None,
            "scope quiesce started"@,
        ),
        timed_out ==> is_lifecycle_diagnostic(
            r,
            DiagnosticCode::QuiesceTimeout,
            DiagnosticSeverity::Error,
            Some(*scope),
            None,
            None,
            "scope tasks or leases did not drain before the quiesce deadline"@,
        ),
{
    if timed_out {
        lifecycle_diagnostic(
            DiagnosticCode::QuiesceTimeout,
            DiagnosticSeverity::Error,
            Some(scope),
            None,
            None,
            owned("scope tasks or leases did not drain before the quiesce deadline"),
        )
    } else {
        lifecycle_diagnostic(
            DiagnosticCode::QuiesceStarted,
            DiagnosticSeverity::Info,
            Some(scope),
            None,
            None,
            owned("scope quiesce started"),
        )
    }
}

} // verus!
