//! The protocol a plugin host speaks for one Wasm guest that imports nothing:
//! the frames the broker sends, the lifecycle states they move the host
//! through, exact request cancellation, and the bounds on what crosses the
//! guest boundary. The engine that compiles and runs the guest stands behind
//! `GuestAbi`; which export is called, when, and what is made of its answer
//! is decided here, for every answer the guest may give.
use vstd::prelude::*;
use vstd::string::StringSliceAdditionalSpecFns;
use vstd::utf8::{decode_utf8, valid_utf8};

use crate::extension_lifecycle::utf8_len;
use crate::text::{owned, str_eq, string_from_chars, chars_of};
use crate::wasm_identity::WasmHostIdentity;

verus! {

/// Largest binary module admitted before compilation.
pub const MAX_WASM_MODULE_BYTES: usize = 4194304;

/// Most request IDs that may wait, cancelled, before they are dispatched.
pub const MAX_PENDING_WASM_CANCELLATIONS: usize = 256;

/// The guest ABI version this host speaks.
pub const HOST_PROTOCOL_VERSION: u64 = 1;

/// Largest echo payload, in bytes, in either direction.
pub const MAX_ECHO_PAYLOAD_BYTES: usize = 16384;

// ---------------------------------------------------------------------------
// States, messages, errors.
// ---------------------------------------------------------------------------

#[derive(Debug, Clone, Copy, PartialEq, Eq, Structural)]
pub enum HostInstanceState {
    Created,
    Ready,
    Active,
    Quiescing,
    Disposing,
    Disposed,
    Quarantined,
}

/// A host that can never run its guest again.
pub open spec fn is_terminal(s: HostInstanceState) -> bool {
    s == HostInstanceState::Disposed || s == HostInstanceState::Quarantined
}

/// The moves between two frames that the protocol allows.
pub open spec fn protocol_step(from: HostInstanceState, to: HostInstanceState) -> bool {
    ||| from == to
    ||| from == HostInstanceState::Created && to == HostInstanceState::Ready
    ||| from == HostInstanceState::Ready && to == HostInstanceState::Active
    ||| (from == HostInstanceState::Ready || from == HostInstanceState::Active) && to
        == HostInstanceState::Quiescing
    ||| (from == HostInstanceState::Ready || from == HostInstanceState::Active || from
        == HostInstanceState::Quiescing) && to == HostInstanceState::Disposed
    ||| !is_terminal(from) && to == HostInstanceState::Quarantined
}

/// The name a state is reported by.
pub open spec fn state_label(s: HostInstanceState) -> Seq<char> {
    match s {
        HostInstanceState::Created => "Created"@,
        HostInstanceState::Ready => "Ready"@,
        HostInstanceState::Active => "Active"@,
        HostInstanceState::Quiescing => "Quiescing"@,
        HostInstanceState::Disposing => "Disposing"@,
        HostInstanceState::Disposed => "Disposed"@,
        HostInstanceState::Quarantined => "Quarantined"@,
    }
}

fn state_name(s: HostInstanceState) -> (r: String)
    ensures
        r@ == state_label(s),
{
    match s {
        HostInstanceState::Created => owned("Created"),
        HostInstanceState::Ready => owned("Ready"),
        HostInstanceState::Active => owned("Active"),
        HostInstanceState::Quiescing => owned("Quiescing"),
        HostInstanceState::Disposing => owned("Disposing"),
        HostInstanceState::Disposed => owned("Disposed"),
        HostInstanceState::Quarantined => owned("Quarantined"),
    }
}

#[derive(Debug, Clone, Copy, PartialEq, Eq, Structural)]
pub enum HostProtocolErrorCode {
    UnknownInstance,
    InvalidStateTransition,
    VersionMismatch,
    PayloadTooLarge,
    Cancelled,
    ResourceLimit,
    InvalidGuestOutput,
    GuestRejected,
    GuestTrap,
    FuelExhausted,
    Timeout,
    ModuleTooLarge,
    InvalidModule,
    ForbiddenImport,
    MissingExport,
    InvalidExport,
}

#[derive(Debug, Clone, PartialEq, Eq)]
pub struct HostProtocolError {
    pub code: HostProtocolErrorCode,
    pub message: Option<String>,
}

pub fn protocol_error(code: HostProtocolErrorCode) -> (r: HostProtocolError)
    ensures
        r.code == code,
        r.message is None,
{
    HostProtocolError { code, message: None }
}

/// The refusal of a frame the current state does not accept.
pub fn invalid_state(state: HostInstanceState) -> (r: HostProtocolError)
    ensures
        r.code == HostProtocolErrorCode::InvalidStateTransition,
        r.message matches Some(m) && m@ == "invalid transition from "@ + state_label(state),
{
    let mut text = chars_of("invalid transition from ");
    let name = state_name(state);
    let mut tail = chars_of(name.as_str());
    text.append(&mut tail);
    HostProtocolError {
        code: HostProtocolErrorCode::InvalidStateTransition,
        message: Some(string_from_chars(&text)),
    }
}

/// What the broker asks of a host.
#[derive(Debug, Clone, PartialEq, Eq)]
pub enum HostMessage {
    Hello { api_version: u64 },
    Activate,
    Echo { request_id: String, payload: String },
    Heartbeat,
    Cancel { request_id: String },
    Quiesce,
    Dispose,
}

/// A message addressed to one host instance.
#[derive(Debug, Clone, PartialEq, Eq)]
pub struct HostFrame {
    pub instance_id: String,
    pub message: HostMessage,
}

/// What a host answers.
#[derive(Debug, Clone, PartialEq, Eq)]
pub enum HostResponse {
    Ready { api_version: u64 },
    Activated,
    EchoResult { request_id: String, payload: String },
    HeartbeatAck,
    Quiesced,
    Disposed,
}

// ---------------------------------------------------------------------------
// The guest boundary.
// ---------------------------------------------------------------------------

/// Why the engine stopped a guest call.
#[derive(Debug, Clone, Copy, PartialEq, Eq, Structural)]
pub enum TrapKind {
    OutOfFuel,
    Interrupt,
    AllocationTooLarge,
    Other,
}

/// How a guest call failed: a trap, another engine error, or a panic while
/// the call ran.
#[derive(Debug, Clone, Copy, PartialEq, Eq, Structural)]
pub enum GuestFailure {
    Trap(TrapKind),
    Engine,
    Panicked,
}

/// The error code of an engine failure: `None` stands for an error that is
/// no trap.
pub open spec fn classified(trap: Option<TrapKind>, cancellation_requested: bool) -> HostProtocolErrorCode {
    match trap {
        Some(TrapKind::OutOfFuel) => HostProtocolErrorCode::FuelExhausted,
        Some(TrapKind::Interrupt) => if cancellation_requested {
            HostProtocolErrorCode::Cancelled
        } else {
            HostProtocolErrorCode::Timeout
        },
        Some(TrapKind::AllocationTooLarge) => HostProtocolErrorCode::ResourceLimit,
        Some(TrapKind::Other) => HostProtocolErrorCode::GuestTrap,
        None => HostProtocolErrorCode::ResourceLimit,
    }
}

pub fn classify_wasmtime_error(trap: Option<TrapKind>, cancellation_requested: bool) -> (r:
    HostProtocolErrorCode)
    ensures
        r == classified(trap, cancellation_requested),
{
    match trap {
        Some(TrapKind::OutOfFuel) => HostProtocolErrorCode::FuelExhausted,
        Some(TrapKind::Interrupt) => if cancellation_requested {
            HostProtocolErrorCode::Cancelled
        } else {
            HostProtocolErrorCode::Timeout
        },
        Some(TrapKind::AllocationTooLarge) => HostProtocolErrorCode::ResourceLimit,
        Some(TrapKind::Other) => HostProtocolErrorCode::GuestTrap,
        None => HostProtocolErrorCode::ResourceLimit,
    }
}

/// The error code a failed guest call quarantines its host with.
pub open spec fn failure_code(failure: GuestFailure, cancellation_requested: bool) -> HostProtocolErrorCode {
    match failure {
        GuestFailure::Trap(kind) => classified(Some(kind), cancellation_requested),
        GuestFailure::Engine => classified(None, cancellation_requested),
        GuestFailure::Panicked => HostProtocolErrorCode::GuestTrap,
    }
}

pub fn guest_failure_code(failure: GuestFailure, cancellation_requested: bool) -> (r:
    HostProtocolErrorCode)
    ensures
        r == failure_code(failure, cancellation_requested),
{
    match failure {
        GuestFailure::Trap(kind) => classify_wasmtime_error(Some(kind), cancellation_requested),
        GuestFailure::Engine => classify_wasmtime_error(None, cancellation_requested),
        GuestFailure::Panicked => HostProtocolErrorCode::GuestTrap,
    }
}

/// One instantiated guest, as the engine runs it: its six exports, its linear
/// memory, and the cancellations that reached it while a call ran.
pub trait GuestAbi {
    /// Gives the store a fresh fuel budget and epoch deadline before a call;
    /// false where the engine refused.
    fn prepare_call(&mut self) -> bool;

    fn activate(&mut self, api_version: i32) -> Result<i32, GuestFailure>;

    /// Runs `rho_echo` over the payload at `pointer`; the answer packs the
    /// response's pointer in its high and its length in its low 32 bits.
    fn echo(&mut self, pointer: i32, length: i32) -> Result<i64, GuestFailure>;

    fn heartbeat(&mut self) -> Result<i32, GuestFailure>;

    fn quiesce(&mut self) -> Result<i32, GuestFailure>;

    fn dispose(&mut self) -> Result<i32, GuestFailure>;

    /// Copies bytes into linear memory; false where they do not fit.
    fn write_memory(&mut self, offset: usize, bytes: &[u8]) -> bool;

    /// The current size of linear memory, in bytes.
    fn memory_size(&self) -> usize;

    fn read_memory(&self, offset: usize, length: usize) -> Option<Vec<u8>>;

    /// The request ID whose cancellation interrupted the last call, if one did.
    fn take_inflight_cancellation(&mut self) -> Option<String>;
}

/// `String::from_utf8`: the text the bytes encode, where they are UTF-8.
#[verifier::external_body]
fn text_from_utf8(bytes: Vec<u8>) -> (r: Option<String>)
    ensures
        r is Some <==> valid_utf8(bytes@),
        r matches Some(s) ==> s@ == decode_utf8(bytes@),
{
    String::from_utf8(bytes).ok()
}

/// The pointer half of a packed guest answer.
pub open spec fn packed_pointer(packed: i64) -> int {
    (packed as u64) as int / 0x1_0000_0000
}

/// The length half of a packed guest answer.
pub open spec fn packed_length(packed: i64) -> int {
    (packed as u64) as int % 0x1_0000_0000
}

/// The memory range a packed echo answer names, where it is short enough
/// and lies inside linear memory.
pub fn guest_response_range(packed: i64, memory_size: usize) -> (r: Result<
    (usize, usize),
    HostProtocolErrorCode,
>)
    ensures
        r is Ok <==> packed_length(packed) <= MAX_ECHO_PAYLOAD_BYTES && packed_pointer(packed)
            + packed_length(packed) <= memory_size,
        r matches Ok((p, l)) ==> p == packed_pointer(packed) && l == packed_length(packed),
        r matches Err(c) ==> if packed_length(packed) > MAX_ECHO_PAYLOAD_BYTES {
            c == HostProtocolErrorCode::PayloadTooLarge
        } else {
            c == HostProtocolErrorCode::InvalidGuestOutput
        },
{
    let bits = packed as u64;
    let high = bits >> 32u64;
    let low = bits & 0xffff_ffffu64;
    assert(high == bits / 0x1_0000_0000 && high <= 0xffff_ffff) by (bit_vector)
        requires
            high == bits >> 32u64,
    ;
    assert(low == bits % 0x1_0000_0000) by (bit_vector)
        requires
            low == bits & 0xffff_ffffu64,
    ;
    let pointer = high as u32 as usize;
    let length = low as u32 as usize;
    if length > MAX_ECHO_PAYLOAD_BYTES {
        return Err(HostProtocolErrorCode::PayloadTooLarge);
    }
    match pointer.checked_add(length) {
        None => Err(HostProtocolErrorCode::InvalidGuestOutput),
        Some(end) => {
            if end > memory_size {
                Err(HostProtocolErrorCode::InvalidGuestOutput)
            } else {
                Ok((pointer, length))
            }
        },
    }
}

/// Admits a binary module by its size, before it is compiled.
pub fn check_module_size(length: usize) -> (r: Result<(), HostProtocolError>)
    ensures
        r is Ok <==> length <= MAX_WASM_MODULE_BYTES,
        r matches Err(e) ==> e.code == HostProtocolErrorCode::ModuleTooLarge,
{
    if length > MAX_WASM_MODULE_BYTES {
        Err(protocol_error(HostProtocolErrorCode::ModuleTooLarge))
    } else {
        Ok(())
    }
}


/// Why a module is refused before it is instantiated: it is too large, the
/// engine could not compile it, or it imports anything at all, since the
/// guest is given no host API, WASI included.
pub open spec fn module_refusal(length: nat, compiled: bool, imports: nat) -> Option<
    HostProtocolErrorCode,
> {
    if length > MAX_WASM_MODULE_BYTES {
        Some(HostProtocolErrorCode::ModuleTooLarge)
    } else if !compiled {
        Some(HostProtocolErrorCode::InvalidModule)
    } else if imports > 0 {
        Some(HostProtocolErrorCode::ForbiddenImport)
    } else {
        None
    }
}

/// Admits a module of `length` bytes that the engine did or did not compile,
/// given the (module, name) pairs it imports.
pub fn admit_module(length: usize, compiled: bool, imports: &Vec<(String, String)>) -> (r: Result<
    (),
    HostProtocolError,
>)
    ensures
        match module_refusal(length as nat, compiled, imports@.len()) {
            Some(c) => r matches Err(e) && e.code == c,
            None => r is Ok,
        },
{
    match check_module_size(length) {
        Err(e) => {
            return Err(e);
        },
        Ok(()) => {},
    }
    if !compiled {
        return Err(protocol_error(HostProtocolErrorCode::InvalidModule));
    }
    if imports.len() > 0 {
        return Err(protocol_error(HostProtocolErrorCode::ForbiddenImport));
    }
    Ok(())
}

// ---------------------------------------------------------------------------
// The host.
// ---------------------------------------------------------------------------

/// The guest export a status call runs.
enum StatusExport {
    Activate,
    Heartbeat,
    Quiesce,
    Dispose,
}

/// One Wasm guest under the host protocol. A failed guest call drops the
/// guest and quarantines the host; a disposed or quarantined host refuses
/// every frame.
pub struct WasmPluginHost<R> {
    identity: WasmHostIdentity,
    module_digest: String,
    runtime: Option<R>,
    state: HostInstanceState,
    negotiated_version: Option<u64>,
    pending: Vec<String>,
}

impl<R: GuestAbi> WasmPluginHost<R> {
    pub closed spec fn spec_identity(&self) -> WasmHostIdentity {
        self.identity
    }

    pub closed spec fn spec_module_digest(&self) -> Seq<char> {
        self.module_digest@
    }

    pub closed spec fn spec_state(&self) -> HostInstanceState {
        self.state
    }

    pub closed spec fn spec_negotiated_version(&self) -> Option<u64> {
        self.negotiated_version
    }

    /// The guest, while the host still holds one.
    pub closed spec fn spec_runtime(&self) -> Option<R> {
        self.runtime
    }

    /// The request IDs cancelled before their dispatch, in arrival order.
    pub closed spec fn pending_ids(&self) -> Seq<Seq<char>> {
        self.pending@.map_values(|s: String| s@)
    }

    pub closed spec fn wf(&self) -> bool {
        &&& self.pending@.len() <= MAX_PENDING_WASM_CANCELLATIONS
        &&& forall|i: int, j: int|
            0 <= i < j < self.pending@.len() ==> #[trigger] self.pending@[i]@
                != #[trigger] self.pending@[j]@
        &&& self.state != HostInstanceState::Disposing
        &&& (is_terminal(self.state) <==> self.runtime is None)
        &&& is_terminal(self.state) ==> self.pending@.len() == 0
    }

    /// The frame was refused and nothing changed.
    pub open spec fn refused(
        &self,
        new: &Self,
        r: Result<Option<HostResponse>, HostProtocolError>,
        code: HostProtocolErrorCode,
    ) -> bool {
        &&& *new == *self
        &&& r matches Err(e) && e.code == code
    }

    /// The host keeps its guest and its pending cancellations, in `state`.
    pub open spec fn kept(&self, new: &Self, state: HostInstanceState) -> bool {
        &&& new.spec_state() == state
        &&& new.spec_runtime() is Some
        &&& new.pending_ids() == self.pending_ids()
        &&& new.spec_negotiated_version() == self.spec_negotiated_version()
    }

    /// The host dropped its guest and every pending cancellation.
    pub open spec fn quarantined(&self, new: &Self) -> bool {
        &&& new.spec_state() == HostInstanceState::Quarantined
        &&& new.spec_runtime() is None
        &&& new.pending_ids().len() == 0
        &&& new.spec_negotiated_version() == self.spec_negotiated_version()
    }

    /// A guest call either answered and the host went on in `state`, or
    /// failed and the host is quarantined.
    pub open spec fn guest_outcome(
        &self,
        new: &Self,
        r: Result<Option<HostResponse>, HostProtocolError>,
        answer: HostResponse,
        state: HostInstanceState,
    ) -> bool {
        ||| r == Ok::<Option<HostResponse>, HostProtocolError>(Some(answer)) && self.kept(new, state)
        ||| r is Err && self.quarantined(new)
    }

    /// What handling a frame does, by the frame and the host's state.
    pub open spec fn frame_outcome(
        &self,
        new: &Self,
        frame: HostFrame,
        r: Result<Option<HostResponse>, HostProtocolError>,
    ) -> bool {
        if frame.instance_id@ != self.spec_identity().spec_host_instance_id() {
            self.refused(new, r, HostProtocolErrorCode::UnknownInstance)
        } else if is_terminal(self.spec_state()) {
            self.refused(new, r, HostProtocolErrorCode::InvalidStateTransition)
        } else {
            self.message_outcome(new, frame.message, r)
        }
    }

    /// What a message does to a host that is still live.
    pub open spec fn message_outcome(
        &self,
        new: &Self,
        message: HostMessage,
        r: Result<Option<HostResponse>, HostProtocolError>,
    ) -> bool {
        let state = self.spec_state();
        {
            match message {
                HostMessage::Hello { api_version } => if state != HostInstanceState::Created {
                    self.refused(new, r, HostProtocolErrorCode::InvalidStateTransition)
                } else if api_version != HOST_PROTOCOL_VERSION {
                    self.refused(new, r, HostProtocolErrorCode::VersionMismatch)
                } else {
                    &&& r == Ok::<Option<HostResponse>, HostProtocolError>(
                        Some(HostResponse::Ready { api_version }),
                    )
                    &&& new.spec_state() == HostInstanceState::Ready
                    &&& new.spec_negotiated_version() == Some(api_version)
                    &&& new.spec_runtime() == self.spec_runtime()
                    &&& new.pending_ids() == self.pending_ids()
                },
                HostMessage::Activate => if state != HostInstanceState::Ready
                    || self.spec_negotiated_version() != Some(HOST_PROTOCOL_VERSION) {
                    self.refused(new, r, HostProtocolErrorCode::InvalidStateTransition)
                } else {
                    self.guest_outcome(new, r, HostResponse::Activated, HostInstanceState::Active)
                },
                HostMessage::Echo { request_id, payload } => if state
                    != HostInstanceState::Active {
                    self.refused(new, r, HostProtocolErrorCode::InvalidStateTransition)
                } else if utf8_len(payload@) > MAX_ECHO_PAYLOAD_BYTES {
                    self.refused(new, r, HostProtocolErrorCode::PayloadTooLarge)
                } else if self.pending_ids().contains(request_id@) {
                    &&& r matches Err(e) && e.code == HostProtocolErrorCode::Cancelled
                    &&& new.spec_state() == state
                    &&& new.spec_runtime() == self.spec_runtime()
                    &&& new.spec_negotiated_version() == self.spec_negotiated_version()
                    &&& new.pending_ids().len() + 1 == self.pending_ids().len()
                    &&& forall|x: Seq<char>|
                        #[trigger] new.pending_ids().contains(x) <==> self.pending_ids().contains(x)
                            && x != request_id@
                } else {
                    ||| r matches Ok(Some(HostResponse::EchoResult { request_id: id, payload: _ }))
                        && id@ == request_id@ && self.kept(new, HostInstanceState::Active)
                    ||| r is Err && self.quarantined(new)
                },
                HostMessage::Heartbeat => if state != HostInstanceState::Active {
                    self.refused(new, r, HostProtocolErrorCode::InvalidStateTransition)
                } else {
                    self.guest_outcome(new, r, HostResponse::HeartbeatAck, HostInstanceState::Active)
                },
                HostMessage::Cancel { request_id } => if state != HostInstanceState::Active && state
                    != HostInstanceState::Quiescing {
                    self.refused(new, r, HostProtocolErrorCode::InvalidStateTransition)
                } else if self.pending_ids().len() >= MAX_PENDING_WASM_CANCELLATIONS
                    && !self.pending_ids().contains(request_id@) {
                    self.refused(new, r, HostProtocolErrorCode::ResourceLimit)
                } else {
                    &&& r == Ok::<Option<HostResponse>, HostProtocolError>(None)
                    &&& new.spec_state() == state
                    &&& new.spec_runtime() == self.spec_runtime()
                    &&& new.spec_negotiated_version() == self.spec_negotiated_version()
                    &&& if self.pending_ids().contains(request_id@) {
                        new.pending_ids() == self.pending_ids()
                    } else {
                        new.pending_ids() == self.pending_ids().push(request_id@)
                    }
                },
                HostMessage::Quiesce => if state != HostInstanceState::Active && state
                    != HostInstanceState::Ready {
                    self.refused(new, r, HostProtocolErrorCode::InvalidStateTransition)
                } else {
                    self.guest_outcome(new, r, HostResponse::Quiesced, HostInstanceState::Quiescing)
                },
                HostMessage::Dispose => if state != HostInstanceState::Ready && state
                    != HostInstanceState::Active && state != HostInstanceState::Quiescing {
                    self.refused(new, r, HostProtocolErrorCode::InvalidStateTransition)
                } else {
                    ||| r == Ok::<Option<HostResponse>, HostProtocolError>(
                        Some(HostResponse::Disposed),
                    ) && new.spec_state() == HostInstanceState::Disposed
                        && new.spec_runtime() is None && new.pending_ids().len() == 0
                        && new.spec_negotiated_version() == self.spec_negotiated_version()
                    ||| r is Err && self.quarantined(new)
                },
            }
        }
    }

    /// A host for a freshly instantiated guest, before the broker's hello.
    pub fn from_runtime(identity: WasmHostIdentity, module_digest: String, runtime: R) -> (r: Self)
        ensures
            r.wf(),
            r.spec_identity() == identity,
            r.spec_module_digest() == module_digest@,
            r.spec_state() == HostInstanceState::Created,
            r.spec_runtime() == Some(runtime),
            r.spec_negotiated_version() is None,
            r.pending_ids().len() == 0,
    {
        WasmPluginHost {
            identity,
            module_digest,
            runtime: Some(runtime),
            state: HostInstanceState::Created,
            negotiated_version: None,
            pending: Vec::new(),
        }
    }

    pub fn identity(&self) -> (r: &WasmHostIdentity)
        ensures
            *r == self.spec_identity(),
    {
        &self.identity
    }

    pub fn state(&self) -> (r: HostInstanceState)
        ensures
            r == self.spec_state(),
    {
        self.state
    }

    pub fn module_digest(&self) -> (r: &str)
        ensures
            r@ == self.spec_module_digest(),
    {
        self.module_digest.as_str()
    }

    /// Drops the guest and every pending cancellation, and quarantines the
    /// host with `code`.
    fn fail(&mut self, code: HostProtocolErrorCode) -> (e: HostProtocolError)
        ensures
            e.code == code,
            final(self).spec_state() == HostInstanceState::Quarantined,
            final(self).spec_runtime() is None,
            final(self).pending@.len() == 0,
            final(self).identity == old(self).identity,
            final(self).module_digest == old(self).module_digest,
            final(self).negotiated_version == old(self).negotiated_version,
    {
        self.runtime = None;
        self.pending = Vec::new();
        self.state = HostInstanceState::Quarantined;
        protocol_error(code)
    }

    /// Quarantines this exact host once its heartbeat supervisor timed out;
    /// false where it was already disposed or quarantined.
    pub fn quarantine_for_timeout(&mut self) -> (r: bool)
        requires
            old(self).wf(),
        ensures
            final(self).wf(),
            r == !is_terminal(old(self).spec_state()),
            r ==> old(self).quarantined(final(self)),
            !r ==> *final(self) == *old(self),
            final(self).spec_identity() == old(self).spec_identity(),
            final(self).spec_module_digest() == old(self).spec_module_digest(),
    {
        if self.state == HostInstanceState::Disposed || self.state == HostInstanceState::Quarantined {
            return false;
        }
        self.fail(HostProtocolErrorCode::Timeout);
        true
    }

    /// Where the ID waits among the pending cancellations.
    fn find_pending(&self, request_id: &str) -> (r: Option<usize>)
        ensures
            match r {
                Some(k) => k < self.pending@.len() && self.pending@[k as int]@ == request_id@,
                None => !self.pending_ids().contains(request_id@),
            },
    {
        let mut k: usize = 0;
        while k < self.pending.len()
            invariant
                0 <= k <= self.pending@.len(),
                forall|j: int| 0 <= j < k ==> self.pending@[j]@ != request_id@,
            decreases self.pending.len() - k,
        {
            if str_eq(self.pending[k].as_str(), request_id) {
                return Some(k);
            }
            k = k + 1;
        }
        proof {
            if self.pending_ids().contains(request_id@) {
                let j = choose|j: int|
                    0 <= j < self.pending_ids().len() && self.pending_ids()[j] == request_id@;
                assert(self.pending@[j]@ == request_id@);
            }
        }
        None
    }

    /// Runs one status export of the guest under a fresh budget. Success keeps
    /// everything but the guest's own state; a refused budget, a failed call
    /// or a nonzero status quarantines the host.
    fn call_status(&mut self, export: StatusExport) -> (r: Result<(), HostProtocolError>)
        requires
            old(self).runtime is Some,
        ensures
            final(self).identity == old(self).identity,
            final(self).module_digest == old(self).module_digest,
            final(self).negotiated_version == old(self).negotiated_version,
            r is Ok ==> final(self).runtime is Some && final(self).state == old(self).state
                && final(self).pending == old(self).pending,
            r is Err ==> final(self).state == HostInstanceState::Quarantined
                && final(self).runtime is None && final(self).pending@.len() == 0,
            r matches Err(e) ==> e.code == HostProtocolErrorCode::ResourceLimit || e.code
                == HostProtocolErrorCode::GuestRejected || exists|f: GuestFailure|
                e.code == #[trigger] failure_code(f, false),
    {
        let mut runtime = match self.runtime.take() {
            Some(runtime) => runtime,
            None => {
                return Err(invalid_state(self.state));
            },
        };
        if !runtime.prepare_call() {
            return Err(self.fail(HostProtocolErrorCode::ResourceLimit));
        }
        let outcome = match export {
            StatusExport::Activate => runtime.activate(HOST_PROTOCOL_VERSION as i32),
            StatusExport::Heartbeat => runtime.heartbeat(),
            StatusExport::Quiesce => runtime.quiesce(),
            StatusExport::Dispose => runtime.dispose(),
        };
        match outcome {
            Ok(status) => {
                if status == 0 {
                    self.runtime = Some(runtime);
                    Ok(())
                } else {
                    Err(self.fail(HostProtocolErrorCode::GuestRejected))
                }
            },
            Err(failure) => {
                let code = guest_failure_code(failure, false);
                let e = self.fail(code);
                assert(e.code == failure_code(failure, false));
                Err(e)
            },
        }
    }

    fn hello(&mut self, api_version: u64) -> (r: Result<Option<HostResponse>, HostProtocolError>)
        requires
            old(self).wf(),
            !is_terminal(old(self).spec_state()),
        ensures
            final(self).wf(),
            final(self).identity == old(self).identity,
            final(self).module_digest == old(self).module_digest,
            old(self).message_outcome(final(self), HostMessage::Hello { api_version }, r),
    {
        if self.state != HostInstanceState::Created {
            return Err(invalid_state(self.state));
        }
        if api_version != HOST_PROTOCOL_VERSION {
            return Err(protocol_error(HostProtocolErrorCode::VersionMismatch));
        }
        self.negotiated_version = Some(api_version);
        self.state = HostInstanceState::Ready;
        Ok(Some(HostResponse::Ready { api_version }))
    }

    fn activate(&mut self) -> (r: Result<Option<HostResponse>, HostProtocolError>)
        requires
            old(self).wf(),
            !is_terminal(old(self).spec_state()),
        ensures
            final(self).wf(),
            final(self).identity == old(self).identity,
            final(self).module_digest == old(self).module_digest,
            old(self).message_outcome(final(self), HostMessage::Activate, r),
    {
        if self.state != HostInstanceState::Ready || self.negotiated_version != Some(
            HOST_PROTOCOL_VERSION,
        ) {
            return Err(invalid_state(self.state));
        }
        match self.call_status(StatusExport::Activate) {
            Err(e) => Err(e),
            Ok(()) => {
                self.state = HostInstanceState::Active;
                Ok(Some(HostResponse::Activated))
            },
        }
    }

    fn heartbeat(&mut self) -> (r: Result<Option<HostResponse>, HostProtocolError>)
        requires
            old(self).wf(),
            !is_terminal(old(self).spec_state()),
        ensures
            final(self).wf(),
            final(self).identity == old(self).identity,
            final(self).module_digest == old(self).module_digest,
            old(self).message_outcome(final(self), HostMessage::Heartbeat, r),
    {
        if self.state != HostInstanceState::Active {
            return Err(invalid_state(self.state));
        }
        match self.call_status(StatusExport::Heartbeat) {
            Err(e) => Err(e),
            Ok(()) => Ok(Some(HostResponse::HeartbeatAck)),
        }
    }

    fn quiesce(&mut self) -> (r: Result<Option<HostResponse>, HostProtocolError>)
        requires
            old(self).wf(),
            !is_terminal(old(self).spec_state()),
        ensures
            final(self).wf(),
            final(self).identity == old(self).identity,
            final(self).module_digest == old(self).module_digest,
            old(self).message_outcome(final(self), HostMessage::Quiesce, r),
    {
        if self.state != HostInstanceState::Active && self.state != HostInstanceState::Ready {
            return Err(invalid_state(self.state));
        }
        match self.call_status(StatusExport::Quiesce) {
            Err(e) => Err(e),
            Ok(()) => {
                self.state = HostInstanceState::Quiescing;
                Ok(Some(HostResponse::Quiesced))
            },
        }
    }

    fn dispose(&mut self) -> (r: Result<Option<HostResponse>, HostProtocolError>)
        requires
            old(self).wf(),
            !is_terminal(old(self).spec_state()),
        ensures
            final(self).wf(),
            final(self).identity == old(self).identity,
            final(self).module_digest == old(self).module_digest,
            old(self).message_outcome(final(self), HostMessage::Dispose, r),
    {
        if self.state != HostInstanceState::Ready && self.state != HostInstanceState::Active
            && self.state != HostInstanceState::Quiescing {
            return Err(invalid_state(self.state));
        }
        self.state = HostInstanceState::Disposing;
        match self.call_status(StatusExport::Dispose) {
            Err(e) => Err(e),
            Ok(()) => {
                self.runtime = None;
                self.pending = Vec::new();
                self.state = HostInstanceState::Disposed;
                Ok(Some(HostResponse::Disposed))
            },
        }
    }

    /// Runs one echo: the payload goes into linear memory at offset zero, the
    /// guest names the range of its answer, and the answer must be short
    /// enough, inside memory and UTF-8. A request cancelled before dispatch
    /// never reaches the guest; an interrupt counts as that request's
    /// cancellation only where the cancellation named this exact request.
    fn echo(&mut self, request_id: String, payload: String) -> (r: Result<
        Option<HostResponse>,
        HostProtocolError,
    >)
        requires
            old(self).wf(),
            !is_terminal(old(self).spec_state()),
        ensures
            final(self).wf(),
            final(self).identity == old(self).identity,
            final(self).module_digest == old(self).module_digest,
            old(self).message_outcome(final(self), HostMessage::Echo { request_id, payload }, r),
    {
        if self.state != HostInstanceState::Active {
            return Err(invalid_state(self.state));
        }
        if payload.as_str().as_bytes().len() > MAX_ECHO_PAYLOAD_BYTES {
            return Err(protocol_error(HostProtocolErrorCode::PayloadTooLarge));
        }
        match self.find_pending(request_id.as_str()) {
            Some(k) => {
                let ghost before = self.pending@;
                self.pending.remove(k);
                proof {
                    assert(old(self).pending_ids()[k as int] == request_id@);
                    assert forall|x: Seq<char>|
                        #[trigger] self.pending_ids().contains(x) <==> old(
                            self,
                        ).pending_ids().contains(x) && x != request_id@ by {
                        if self.pending_ids().contains(x) {
                            let j = choose|j: int|
                                0 <= j < self.pending_ids().len() && self.pending_ids()[j] == x;
                            if j < k {
                                assert(old(self).pending_ids()[j] == x);
                                assert(before[j]@ != before[k as int]@);
                            } else {
                                assert(old(self).pending_ids()[j + 1] == x);
                                assert(before[k as int]@ != before[j + 1]@);
                            }
                        }
                        if old(self).pending_ids().contains(x) && x != request_id@ {
                            let j = choose|j: int|
                                0 <= j < old(self).pending_ids().len() && old(
                                    self,
                                ).pending_ids()[j] == x;
                            if j < k {
                                assert(self.pending_ids()[j] == x);
                            } else {
                                assert(j != k);
                                assert(self.pending_ids()[j - 1] == x);
                            }
                        }
                    }
                    assert forall|i: int, j: int|
                        0 <= i < j < self.pending@.len() implies #[trigger] self.pending@[i]@
                        != #[trigger] self.pending@[j]@ by {
                        let oi = if i < k { i } else { i + 1 };
                        let oj = if j < k { j } else { j + 1 };
                        assert(before[oi]@ != before[oj]@);
                    }
                }
                return Err(protocol_error(HostProtocolErrorCode::Cancelled));
            },
            None => {},
        }
        let mut runtime = match self.runtime.take() {
            Some(runtime) => runtime,
            None => {
                return Err(invalid_state(self.state));
            },
        };
        let bytes = payload.as_str().as_bytes();
        if !runtime.write_memory(0, bytes) {
            return Err(self.fail(HostProtocolErrorCode::InvalidGuestOutput));
        }
        if !runtime.prepare_call() {
            return Err(self.fail(HostProtocolErrorCode::ResourceLimit));
        }
        let packed = match runtime.echo(0, bytes.len() as i32) {
            Ok(packed) => packed,
            Err(failure) => {
                let cancelled = match runtime.take_inflight_cancellation() {
                    Some(cancelled_id) => str_eq(cancelled_id.as_str(), request_id.as_str()),
                    None => false,
                };
                let code = guest_failure_code(failure, cancelled);
                return Err(self.fail(code));
            },
        };
        let (pointer, length) = match guest_response_range(packed, runtime.memory_size()) {
            Ok(range) => range,
            Err(code) => {
                return Err(self.fail(code));
            },
        };
        let answer = match runtime.read_memory(pointer, length) {
            Some(answer) => answer,
            None => {
                return Err(self.fail(HostProtocolErrorCode::InvalidGuestOutput));
            },
        };
        let text = match text_from_utf8(answer) {
            Some(text) => text,
            None => {
                return Err(self.fail(HostProtocolErrorCode::InvalidGuestOutput));
            },
        };
        self.runtime = Some(runtime);
        Ok(Some(HostResponse::EchoResult { request_id, payload: text }))
    }

    /// Answers one frame. Frames for another instance, and every frame to a
    /// disposed or quarantined host, are refused without effect.
    pub fn handle_frame(&mut self, frame: HostFrame) -> (r: Result<
        Option<HostResponse>,
        HostProtocolError,
    >)
        requires
            old(self).wf(),
        ensures
            final(self).wf(),
            final(self).spec_identity() == old(self).spec_identity(),
            final(self).spec_module_digest() == old(self).spec_module_digest(),
            protocol_step(old(self).spec_state(), final(self).spec_state()),
            final(self).pending_ids().len() <= MAX_PENDING_WASM_CANCELLATIONS,
            old(self).frame_outcome(final(self), frame, r),
    {
        if !str_eq(frame.instance_id.as_str(), self.identity.host_instance_id()) {
            return Err(protocol_error(HostProtocolErrorCode::UnknownInstance));
        }
        if self.state == HostInstanceState::Disposed || self.state == HostInstanceState::Quarantined {
            return Err(invalid_state(self.state));
        }
        match frame.message {
            HostMessage::Hello { api_version } => self.hello(api_version),
            HostMessage::Activate => self.activate(),
            HostMessage::Echo { request_id, payload } => self.echo(request_id, payload),
            HostMessage::Heartbeat => self.heartbeat(),
            HostMessage::Cancel { request_id } => self.cancel_before_dispatch(request_id),
            HostMessage::Quiesce => self.quiesce(),
            HostMessage::Dispose => self.dispose(),
        }
    }

    fn cancel_before_dispatch(&mut self, request_id: String) -> (r: Result<
        Option<HostResponse>,
        HostProtocolError,
    >)
        requires
            old(self).wf(),
            !is_terminal(old(self).spec_state()),
        ensures
            final(self).wf(),
            final(self).identity == old(self).identity,
            final(self).module_digest == old(self).module_digest,
            old(self).message_outcome(final(self), HostMessage::Cancel { request_id }, r),
    {
        if self.state != HostInstanceState::Active && self.state != HostInstanceState::Quiescing {
            return Err(invalid_state(self.state));
        }
        match self.find_pending(request_id.as_str()) {
            Some(k) => {
                assert(self.pending_ids()[k as int] == request_id@);
                Ok(None)
            },
            None => {
                if self.pending.len() >= MAX_PENDING_WASM_CANCELLATIONS {
                    return Err(protocol_error(HostProtocolErrorCode::ResourceLimit));
                }
                let ghost before = self.pending@;
                self.pending.push(request_id);
                proof {
                    assert(self.pending_ids() =~= old(self).pending_ids().push(request_id@));
                    assert forall|i: int, j: int|
                        0 <= i < j < self.pending@.len() implies #[trigger] self.pending@[i]@
                        != #[trigger] self.pending@[j]@ by {
                        if j == before.len() {
                            assert(old(self).pending_ids()[i] == before[i]@);
                        }
                    }
                }
                Ok(None)
            },
        }
    }
}

// ---------------------------------------------------------------------------
// Laws.
// ---------------------------------------------------------------------------

/// The place of a state in the lifecycle.
pub open spec fn state_rank(s: HostInstanceState) -> int {
    match s {
        HostInstanceState::Created => 0,
        HostInstanceState::Ready => 1,
        HostInstanceState::Active => 2,
        HostInstanceState::Quiescing => 3,
        HostInstanceState::Disposing => 4,
        HostInstanceState::Disposed => 5,
        HostInstanceState::Quarantined => 6,
    }
}

/// A host never goes back: every step of the protocol keeps the state or
/// moves it to a later one, and a disposed or quarantined host stays as it is.
pub proof fn lemma_protocol_moves_forward(from: HostInstanceState, to: HostInstanceState)
    requires
        protocol_step(from, to),
    ensures
        state_rank(from) <= state_rank(to),
        state_rank(from) == state_rank(to) ==> from == to,
        is_terminal(from) ==> to == from,
{
}

/// Over any run of frames, a host that was disposed or quarantined is still
/// in that same state after every later frame.
pub proof fn lemma_terminal_is_final(states: Seq<HostInstanceState>)
    requires
        states.len() > 0,
        is_terminal(states[0]),
        forall|i: int| 0 <= i < states.len() - 1 ==> protocol_step(#[trigger] states[i], states[i + 1]),
    ensures
        forall|i: int| 0 <= i < states.len() ==> #[trigger] states[i] == states[0],
    decreases states.len(),
{
    if states.len() > 1 {
        let rest = states.drop_first();
        assert(protocol_step(states[0], states[1]));
        assert forall|i: int| 0 <= i < rest.len() - 1 implies protocol_step(
            #[trigger] rest[i],
            rest[i + 1],
        ) by {
            assert(protocol_step(states[i + 1], states[i + 2]));
        }
        lemma_terminal_is_final(rest);
        assert forall|i: int| 0 <= i < states.len() implies #[trigger] states[i] == states[0] by {
            if i > 0 {
                assert(states[i] == rest[i - 1]);
            }
        }
    }
}

/// A request cancelled before its dispatch never reaches the guest: once a
/// live host has accepted the cancellation, an echo under the same request ID
/// is refused as cancelled, and the host keeps its guest untouched.
pub proof fn lemma_cancelled_request_never_runs<R: GuestAbi>(
    host: WasmPluginHost<R>,
    after_cancel: WasmPluginHost<R>,
    after_echo: WasmPluginHost<R>,
    cancel: HostFrame,
    echo: HostFrame,
    cancel_result: Result<Option<HostResponse>, HostProtocolError>,
    echo_result: Result<Option<HostResponse>, HostProtocolError>,
)
    requires
        host.wf(),
        host.spec_state() == HostInstanceState::Active,
        cancel.instance_id@ == host.spec_identity().spec_host_instance_id(),
        echo.instance_id@ == host.spec_identity().spec_host_instance_id(),
        after_cancel.spec_identity() == host.spec_identity(),
        cancel.message matches HostMessage::Cancel { request_id: c }
            && echo.message matches HostMessage::Echo { request_id: e, payload: p }
            && c@ == e@ && utf8_len(p@) <= MAX_ECHO_PAYLOAD_BYTES,
        cancel_result is Ok,
        host.frame_outcome(&after_cancel, cancel, cancel_result),
        after_cancel.frame_outcome(&after_echo, echo, echo_result),
    ensures
        echo_result matches Err(e) && e.code == HostProtocolErrorCode::Cancelled,
        after_echo.spec_state() == HostInstanceState::Active,
        after_echo.spec_runtime() == after_cancel.spec_runtime(),
{
    let c = cancel.message->Cancel_request_id;
    let ids = host.pending_ids();
    if !ids.contains(c@) {
        assert(after_cancel.pending_ids() == ids.push(c@));
        assert(after_cancel.pending_ids()[ids.len() as int] == c@);
    }
    assert(after_cancel.pending_ids().contains(c@));
}

} // verus!
