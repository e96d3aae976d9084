use rho::transport::{
    constant_time_eq, frame_header, frame_length, hex_encode, AgentTransportError,
    BootstrapToken,
};

#[test]
fn accepts_one_token_and_rejects_replay() {
    let mut token = BootstrapToken::from_random(&[0xab, 0x01]);
    let text = token.bootstrap_token().unwrap().to_string();
    assert_eq!(text, "ab01");
    assert!(token
        .authenticate(true, Some("authenticate"), Some(&text))
        .is_ok());
    assert_eq!(
        token.authenticate(true, Some("authenticate"), Some(&text)),
        Err(AgentTransportError::TokenConsumed)
    );
    assert_eq!(token.bootstrap_token(), Err(AgentTransportError::TokenConsumed));
}

#[test]
fn rejects_bad_token_without_consuming_real_token() {
    let mut token = BootstrapToken::from_random(&[1, 2, 3]);
    assert_eq!(
        token.authenticate(true, Some("authenticate"), Some("ffffff")),
        Err(AgentTransportError::InvalidAuthentication)
    );
    assert_eq!(
        token.authenticate(false, Some("authenticate"), Some("010203")),
        Err(AgentTransportError::InvalidAuthentication)
    );
    assert_eq!(
        token.authenticate(true, Some("hello"), Some("010203")),
        Err(AgentTransportError::InvalidAuthentication)
    );
    assert!(token
        .authenticate(true, Some("authenticate"), Some("010203"))
        .is_ok());
}

#[test]
fn bytes_compare_and_encode() {
    assert!(constant_time_eq(b"abc", b"abc"));
    assert!(!constant_time_eq(b"abc", b"abd"));
    assert!(!constant_time_eq(b"abc", b"ab"));
    assert_eq!(hex_encode(&[0x00, 0x0f, 0xf0, 0xff]), "000ff0ff");
    assert_eq!(hex_encode(&[]), "");
}

#[test]
fn frames_carry_a_bounded_big_endian_length() {
    assert_eq!(frame_header(258, 1024), Ok([0, 0, 1, 2]));
    assert_eq!(frame_header(2048, 1024), Err(AgentTransportError::TooLarge(2048)));
    assert_eq!(frame_length([0, 0, 1, 2], 1024), Ok(258));
    assert_eq!(frame_length([0, 1, 0, 0], 1024), Err(AgentTransportError::TooLarge(65536)));
}
