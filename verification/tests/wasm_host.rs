use rho::wasm_host::{
    admit_module, check_module_size, classify_wasmtime_error, guest_response_range, GuestAbi, GuestFailure,
    HostFrame, HostInstanceState, HostMessage, HostProtocolErrorCode, HostResponse, TrapKind,
    WasmPluginHost, HOST_PROTOCOL_VERSION, MAX_ECHO_PAYLOAD_BYTES, MAX_PENDING_WASM_CANCELLATIONS,
    MAX_WASM_MODULE_BYTES,
};
use rho::wasm_identity::WasmHostIdentity;

/// What the fake guest's `rho_echo` does.
#[derive(Clone)]
enum Echo {
    /// Answers with the payload it was given, as the packaged smoke module does.
    Mirror,
    /// Answers with a fixed packed value.
    Fixed(i64),
    /// Stores one byte at offset zero, then answers with a fixed packed value.
    StoreThen(u8, i64),
    /// The call fails; `cancel` names the request a cancellation interrupted.
    Fail(GuestFailure, Option<String>),
}

struct FakeGuest {
    memory: Vec<u8>,
    echo: Echo,
    dispose: Result<i32, GuestFailure>,
    interrupted_by: Option<String>,
}

impl FakeGuest {
    fn new(echo: Echo) -> Self {
        FakeGuest {
            memory: vec![0; 65536],
            echo,
            dispose: Ok(0),
            interrupted_by: None,
        }
    }
}

impl GuestAbi for FakeGuest {
    fn prepare_call(&mut self) -> bool {
        true
    }

    fn activate(&mut self, api_version: i32) -> Result<i32, GuestFailure> {
        assert_eq!(api_version as u64, HOST_PROTOCOL_VERSION);
        Ok(0)
    }

    fn echo(&mut self, pointer: i32, length: i32) -> Result<i64, GuestFailure> {
        match self.echo.clone() {
            Echo::Mirror => Ok(((pointer as u32 as i64) << 32) | (length as u32 as i64)),
            Echo::Fixed(packed) => Ok(packed),
            Echo::StoreThen(byte, packed) => {
                self.memory[0] = byte;
                Ok(packed)
            }
            Echo::Fail(failure, cancel) => {
                self.interrupted_by = cancel;
                Err(failure)
            }
        }
    }

    fn heartbeat(&mut self) -> Result<i32, GuestFailure> {
        Ok(0)
    }

    fn quiesce(&mut self) -> Result<i32, GuestFailure> {
        Ok(0)
    }

    fn dispose(&mut self) -> Result<i32, GuestFailure> {
        self.dispose
    }

    fn write_memory(&mut self, offset: usize, bytes: &[u8]) -> bool {
        if offset + bytes.len() > self.memory.len() {
            return false;
        }
        self.memory[offset..offset + bytes.len()].copy_from_slice(bytes);
        true
    }

    fn memory_size(&self) -> usize {
        self.memory.len()
    }

    fn read_memory(&self, offset: usize, length: usize) -> Option<Vec<u8>> {
        self.memory.get(offset..offset + length).map(|bytes| bytes.to_vec())
    }

    fn take_inflight_cancellation(&mut self) -> Option<String> {
        self.interrupted_by.take()
    }
}

fn identity(project: &str, digest: char) -> WasmHostIdentity {
    WasmHostIdentity::new(
        project.to_string(),
        "org.example.plugin".to_string(),
        digest.to_string().repeat(64),
        1,
        format!("instance.{project}.{digest}"),
    )
}

fn host(project: &str, digest: char, guest: FakeGuest) -> WasmPluginHost<FakeGuest> {
    WasmPluginHost::from_runtime(identity(project, digest), format!("module.{digest}"), guest)
}

fn frame(host: &WasmPluginHost<FakeGuest>, message: HostMessage) -> HostFrame {
    HostFrame {
        instance_id: host.identity().host_instance_id().to_string(),
        message,
    }
}

fn echo(request_id: &str, payload: &str) -> HostMessage {
    HostMessage::Echo {
        request_id: request_id.to_string(),
        payload: payload.to_string(),
    }
}

fn activate(host: &mut WasmPluginHost<FakeGuest>) {
    assert_eq!(
        host.handle_frame(frame(
            host,
            HostMessage::Hello {
                api_version: HOST_PROTOCOL_VERSION,
            },
        ))
        .unwrap(),
        Some(HostResponse::Ready {
            api_version: HOST_PROTOCOL_VERSION,
        })
    );
    assert_eq!(
        host.handle_frame(frame(host, HostMessage::Activate)).unwrap(),
        Some(HostResponse::Activated)
    );
}

#[test]
fn valid_guest_lifecycle_and_unicode_echo() {
    let mut host = host("project.a", 'a', FakeGuest::new(Echo::Mirror));
    assert_eq!(host.identity().project_id(), "project.a");
    assert_eq!(host.identity().plugin_id(), "org.example.plugin");
    assert_eq!(host.identity().package_digest(), "a".repeat(64));
    assert_eq!(host.identity().activation_generation(), 1);
    let module_digest = host.module_digest().to_string();
    activate(&mut host);
    assert_eq!(
        host.handle_frame(frame(&host, echo("request.echo", "Rho 科学"))).unwrap(),
        Some(HostResponse::EchoResult {
            request_id: "request.echo".to_string(),
            payload: "Rho 科学".to_string(),
        })
    );
    assert_eq!(
        host.handle_frame(frame(&host, HostMessage::Heartbeat)).unwrap(),
        Some(HostResponse::HeartbeatAck)
    );
    assert_eq!(
        host.handle_frame(frame(&host, HostMessage::Quiesce)).unwrap(),
        Some(HostResponse::Quiesced)
    );
    assert_eq!(
        host.handle_frame(frame(&host, HostMessage::Dispose)).unwrap(),
        Some(HostResponse::Disposed)
    );
    assert_eq!(host.state(), HostInstanceState::Disposed);
    assert_eq!(host.module_digest(), module_digest);
    assert_eq!(
        host.handle_frame(frame(&host, HostMessage::Heartbeat))
            .unwrap_err()
            .code,
        HostProtocolErrorCode::InvalidStateTransition
    );
}

#[test]
fn payload_and_returned_memory_ranges_are_bounded() {
    let mut host = host("project.a", 'a', FakeGuest::new(Echo::Mirror));
    activate(&mut host);
    let error = host
        .handle_frame(frame(
            &host,
            echo("request.large", &"x".repeat(MAX_ECHO_PAYLOAD_BYTES + 1)),
        ))
        .unwrap_err();
    assert_eq!(error.code, HostProtocolErrorCode::PayloadTooLarge);
    assert_eq!(host.state(), HostInstanceState::Active);

    let mut host = self::host("project.a", 'b', FakeGuest::new(Echo::Fixed(281474976710657)));
    activate(&mut host);
    let error = host
        .handle_frame(frame(&host, echo("request.range", "x")))
        .unwrap_err();
    assert_eq!(error.code, HostProtocolErrorCode::InvalidGuestOutput);
    assert_eq!(host.state(), HostInstanceState::Quarantined);

    let mut host = self::host("project.a", 'c', FakeGuest::new(Echo::Fixed(16385)));
    activate(&mut host);
    let error = host
        .handle_frame(frame(&host, echo("request.response-large", "x")))
        .unwrap_err();
    assert_eq!(error.code, HostProtocolErrorCode::PayloadTooLarge);
    assert_eq!(host.state(), HostInstanceState::Quarantined);

    let mut host = self::host("project.a", 'd', FakeGuest::new(Echo::StoreThen(255, 1)));
    activate(&mut host);
    let error = host
        .handle_frame(frame(&host, echo("request.utf8", "x")))
        .unwrap_err();
    assert_eq!(error.code, HostProtocolErrorCode::InvalidGuestOutput);
    assert_eq!(host.state(), HostInstanceState::Quarantined);
}

#[test]
fn trap_and_fuel_exhaustion_quarantine_only_the_failing_project() {
    let trap = FakeGuest::new(Echo::Fail(GuestFailure::Trap(TrapKind::Other), None));
    let infinite = FakeGuest::new(Echo::Fail(GuestFailure::Trap(TrapKind::OutOfFuel), None));
    let mut host_a = host("project.a", 'a', trap);
    let mut host_b = host("project.b", 'b', FakeGuest::new(Echo::Mirror));
    activate(&mut host_a);
    activate(&mut host_b);
    let error = host_a
        .handle_frame(frame(&host_a, echo("request.trap", "x")))
        .unwrap_err();
    assert_eq!(error.code, HostProtocolErrorCode::GuestTrap);
    assert_eq!(host_a.state(), HostInstanceState::Quarantined);
    assert_eq!(
        host_a
            .handle_frame(frame(&host_a, HostMessage::Heartbeat))
            .unwrap_err()
            .code,
        HostProtocolErrorCode::InvalidStateTransition
    );
    assert_eq!(host_b.state(), HostInstanceState::Active);

    let mut host_a = host("project.a", 'c', infinite);
    activate(&mut host_a);
    let error = host_a
        .handle_frame(frame(&host_a, echo("request.fuel", "x")))
        .unwrap_err();
    assert_eq!(error.code, HostProtocolErrorCode::FuelExhausted);
    assert_eq!(host_a.state(), HostInstanceState::Quarantined);
    assert_eq!(
        host_b
            .handle_frame(frame(&host_b, echo("request.ok", "still alive")))
            .unwrap(),
        Some(HostResponse::EchoResult {
            request_id: "request.ok".to_string(),
            payload: "still alive".to_string(),
        })
    );
}

#[test]
fn exact_request_cancellation_works_before_and_during_call() {
    let mut host = host("project.a", 'a', FakeGuest::new(Echo::Mirror));
    activate(&mut host);
    assert_eq!(
        host.handle_frame(frame(
            &host,
            HostMessage::Cancel {
                request_id: "request.pre".to_string(),
            },
        ))
        .unwrap(),
        None
    );
    assert_eq!(
        host.handle_frame(frame(&host, echo("request.pre", "not run")))
            .unwrap_err()
            .code,
        HostProtocolErrorCode::Cancelled
    );
    assert_eq!(host.state(), HostInstanceState::Active);

    let infinite = FakeGuest::new(Echo::Fail(
        GuestFailure::Trap(TrapKind::Interrupt),
        Some("request.live".to_string()),
    ));
    let mut host = self::host("project.a", 'b', infinite);
    activate(&mut host);
    let error = host
        .handle_frame(frame(&host, echo("request.live", "cancel")))
        .unwrap_err();
    assert_eq!(error.code, HostProtocolErrorCode::Cancelled);
    assert_eq!(host.state(), HostInstanceState::Quarantined);
}

#[test]
fn instance_identity_and_pending_cancellation_are_bounded() {
    let mut host = host("project.a", 'a', FakeGuest::new(Echo::Mirror));
    activate(&mut host);
    let wrong = HostFrame {
        instance_id: "instance.foreign".to_string(),
        message: HostMessage::Heartbeat,
    };
    assert_eq!(
        host.handle_frame(wrong).unwrap_err().code,
        HostProtocolErrorCode::UnknownInstance
    );
    for index in 0..MAX_PENDING_WASM_CANCELLATIONS {
        host.handle_frame(frame(
            &host,
            HostMessage::Cancel {
                request_id: format!("request.{index}"),
            },
        ))
        .unwrap();
    }
    let error = host
        .handle_frame(frame(
            &host,
            HostMessage::Cancel {
                request_id: "request.overflow".to_string(),
            },
        ))
        .unwrap_err();
    assert_eq!(error.code, HostProtocolErrorCode::ResourceLimit);
    assert_eq!(host.state(), HostInstanceState::Active);
}

#[test]
fn guest_dispose_failure_drops_runtime_and_stays_non_routable() {
    let mut guest = FakeGuest::new(Echo::Fixed(0));
    guest.dispose = Err(GuestFailure::Trap(TrapKind::Other));
    let mut host = host("project.a", 'a', guest);
    activate(&mut host);
    assert_eq!(
        host.handle_frame(frame(&host, HostMessage::Dispose))
            .unwrap_err()
            .code,
        HostProtocolErrorCode::GuestTrap
    );
    assert_eq!(host.state(), HostInstanceState::Quarantined);
    assert_eq!(
        host.handle_frame(frame(&host, HostMessage::Heartbeat))
            .unwrap_err()
            .code,
        HostProtocolErrorCode::InvalidStateTransition
    );
}

#[test]
fn timeout_quarantine_touches_only_its_own_host_once() {
    let mut host_a = host("project.a", 'a', FakeGuest::new(Echo::Mirror));
    let mut host_b = host("project.b", 'b', FakeGuest::new(Echo::Mirror));
    activate(&mut host_a);
    activate(&mut host_b);
    assert!(host_a.quarantine_for_timeout());
    assert_eq!(host_a.state(), HostInstanceState::Quarantined);
    assert_eq!(host_b.state(), HostInstanceState::Active);
    assert!(!host_a.quarantine_for_timeout());
}

#[test]
fn interrupt_for_another_request_is_a_timeout() {
    let guest = FakeGuest::new(Echo::Fail(
        GuestFailure::Trap(TrapKind::Interrupt),
        Some("request.other".to_string()),
    ));
    let mut host = host("project.a", 'a', guest);
    activate(&mut host);
    let error = host
        .handle_frame(frame(&host, echo("request.live", "x")))
        .unwrap_err();
    assert_eq!(error.code, HostProtocolErrorCode::Timeout);
    assert_eq!(host.state(), HostInstanceState::Quarantined);
}

#[test]
fn frames_out_of_order_are_refused_without_effect() {
    let mut host = host("project.a", 'a', FakeGuest::new(Echo::Mirror));
    let error = host.handle_frame(frame(&host, HostMessage::Activate)).unwrap_err();
    assert_eq!(error.code, HostProtocolErrorCode::InvalidStateTransition);
    assert_eq!(error.message.as_deref(), Some("invalid transition from Created"));
    assert_eq!(host.state(), HostInstanceState::Created);
    let error = host
        .handle_frame(frame(&host, HostMessage::Hello { api_version: 2 }))
        .unwrap_err();
    assert_eq!(error.code, HostProtocolErrorCode::VersionMismatch);
    assert_eq!(host.state(), HostInstanceState::Created);
    activate(&mut host);
    let error = host
        .handle_frame(frame(&host, HostMessage::Hello { api_version: 1 }))
        .unwrap_err();
    assert_eq!(error.code, HostProtocolErrorCode::InvalidStateTransition);
    assert_eq!(host.state(), HostInstanceState::Active);
    assert_eq!(
        host.handle_frame(frame(&host, HostMessage::Quiesce)).unwrap(),
        Some(HostResponse::Quiesced)
    );
    assert_eq!(
        host.handle_frame(frame(&host, echo("request.late", "x")))
            .unwrap_err()
            .code,
        HostProtocolErrorCode::InvalidStateTransition
    );
    assert_eq!(
        host.handle_frame(frame(
            &host,
            HostMessage::Cancel {
                request_id: "request.late".to_string(),
            },
        ))
        .unwrap(),
        None
    );
    assert_eq!(host.state(), HostInstanceState::Quiescing);
}

#[test]
fn guest_failures_map_to_their_codes() {
    assert_eq!(
        classify_wasmtime_error(Some(TrapKind::OutOfFuel), false),
        HostProtocolErrorCode::FuelExhausted
    );
    assert_eq!(
        classify_wasmtime_error(Some(TrapKind::Interrupt), true),
        HostProtocolErrorCode::Cancelled
    );
    assert_eq!(
        classify_wasmtime_error(Some(TrapKind::Interrupt), false),
        HostProtocolErrorCode::Timeout
    );
    assert_eq!(
        classify_wasmtime_error(Some(TrapKind::AllocationTooLarge), false),
        HostProtocolErrorCode::ResourceLimit
    );
    assert_eq!(
        classify_wasmtime_error(Some(TrapKind::Other), true),
        HostProtocolErrorCode::GuestTrap
    );
    assert_eq!(classify_wasmtime_error(None, true), HostProtocolErrorCode::ResourceLimit);
}

#[test]
fn packed_answers_name_a_bounded_range() {
    assert_eq!(guest_response_range((8i64 << 32) | 5, 65536), Ok((8, 5)));
    assert_eq!(
        guest_response_range(281474976710657, 65536),
        Err(HostProtocolErrorCode::InvalidGuestOutput)
    );
    assert_eq!(
        guest_response_range(16385, 65536),
        Err(HostProtocolErrorCode::PayloadTooLarge)
    );
    assert_eq!(guest_response_range(-1, usize::MAX), Err(HostProtocolErrorCode::PayloadTooLarge));
    assert_eq!(
        guest_response_range((65535i64 << 32) | 1, 65536),
        Ok((65535, 1))
    );
    assert_eq!(
        guest_response_range((65535i64 << 32) | 2, 65536),
        Err(HostProtocolErrorCode::InvalidGuestOutput)
    );
}

#[test]
fn module_size_is_checked_before_compilation() {
    assert!(check_module_size(MAX_WASM_MODULE_BYTES).is_ok());
    assert_eq!(
        check_module_size(MAX_WASM_MODULE_BYTES + 1).unwrap_err().code,
        HostProtocolErrorCode::ModuleTooLarge
    );
}

#[test]
fn modules_that_import_anything_are_refused() {
    let none: Vec<(String, String)> = Vec::new();
    assert!(admit_module(1024, true, &none).is_ok());
    for namespace in ["wasi_snapshot_preview1", "wasi:filesystem/types", "env"] {
        let imports = vec![(namespace.to_string(), "open".to_string())];
        assert_eq!(
            admit_module(1024, true, &imports).unwrap_err().code,
            HostProtocolErrorCode::ForbiddenImport
        );
    }
    assert_eq!(
        admit_module(1024, false, &none).unwrap_err().code,
        HostProtocolErrorCode::InvalidModule
    );
    assert_eq!(
        admit_module(MAX_WASM_MODULE_BYTES + 1, false, &none).unwrap_err().code,
        HostProtocolErrorCode::ModuleTooLarge
    );
}
