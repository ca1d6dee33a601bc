use tideline::capability::Capability;
use tideline::framing::{decode_frame, encode_frame, frame_header, header_step, FrameError, HeaderStep, MAX_HEADER_BYTES};
use tideline::rpc::error_codes;

#[test]
fn sdk_links() {
    assert_eq!(2 + 2, 4);
}

#[test]
fn capability_denied_code_is_minus_32001() {
    assert_eq!(error_codes::CAPABILITY_DENIED, -32001);
}

#[test]
fn error_codes_follow_json_rpc() {
    assert_eq!(error_codes::PARSE_ERROR, -32700);
    assert_eq!(error_codes::INVALID_PARAMS, -32602);
    assert_eq!(error_codes::METHOD_NOT_FOUND, -32601);
}

#[test]
fn capability_wire_names_round_trip() {
    let cases = [
        (Capability::ChannelRead, "channel.read"),
        (Capability::ConfigNamespaceWrite, "config.namespace.write"),
        (Capability::AudioBackendStatus, "audio.backend_status"),
        (Capability::UiInputOverlay, "ui.input_overlay"),
        (Capability::PortalGlobalShortcuts, "portal.global_shortcuts"),
        (Capability::LogWrite, "log.write"),
    ];
    for (c, w) in cases {
        assert_eq!(c.wire_name(), w);
        assert_eq!(Capability::from_wire(w), Some(c));
    }
}

#[test]
fn rejects_unknown_capability() {
    assert_eq!(Capability::from_wire("channel.delete"), None);
}

#[test]
fn round_trip() {
    let payload = br#"{"jsonrpc":"2.0","method":"x"}"#;
    let mut stream = encode_frame(payload);
    stream.extend_from_slice(b"Content-Length: 2\r\n\r\n{}");
    let (first, used) = decode_frame(&stream).unwrap().unwrap();
    assert_eq!(first, payload.to_vec());
    let (second, _) = decode_frame(&stream[used..]).unwrap().unwrap();
    assert_eq!(second, b"{}".to_vec());
}

#[test]
fn eof_returns_none() {
    assert!(decode_frame(&[]).unwrap().is_none());
}

#[test]
fn header_text() {
    assert_eq!(frame_header(12), b"Content-Length: 12\r\n\r\n".to_vec());
}

#[test]
fn rejects_oversize_header() {
    let big = vec![b'a'; MAX_HEADER_BYTES + 10];
    assert!(decode_frame(&big).is_err());
    assert!(matches!(header_step(&big), HeaderStep::TooLarge));
}

#[test]
fn missing_length_is_an_error() {
    let r = decode_frame(b"X-Other: 1\r\n\r\n");
    assert!(matches!(r, Err(FrameError::NoContentLength)));
}
