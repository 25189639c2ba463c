//! Requests and replies of the Firecracker API.

use openshell_firecracker::api::{
    check_exchange, check_reply, parse_response, Exchange, FcApi, InstanceAction, Method,
    RequestBody,
};
use openshell_firecracker::error::FirecrackerError;

#[test]
fn request_is_http() {
    assert_eq!(
        FcApi::request("PUT", "/actions", Some("{\"action_type\":\"PauseVm\"}")),
        "PUT /actions HTTP/1.1\r\nHost: localhost\r\nContent-Type: application/json\r\nContent-Length: 25\r\nAccept: application/json\r\n\r\n{\"action_type\":\"PauseVm\"}"
    );
}

#[test]
fn request_without_body() {
    assert_eq!(
        FcApi::request("PATCH", "/x", None),
        "PATCH /x HTTP/1.1\r\nHost: localhost\r\nContent-Type: application/json\r\nContent-Length: 0\r\nAccept: application/json\r\n\r\n"
    );
}

#[test]
fn length_is_in_bytes() {
    let request = FcApi::request("PUT", "/x", Some("é"));
    assert!(request.contains("Content-Length: 2\r\n"));
}

#[test]
fn request_carries_its_body() {
    for body in ["", "{}", "a\r\n\r\nb"] {
        let request = FcApi::request("PUT", "/drives/workspace", Some(body));
        assert_eq!(request.split_once("\r\n\r\n").unwrap().1, body);
    }
}

#[test]
fn calls_name_socket_method_and_path() {
    let api = FcApi::new("/tmp/fc.sock");
    let body = || RequestBody::InstanceAction(InstanceAction { action_type: "ResumeVm".to_string() });
    let put = api.put("/actions", body());
    assert_eq!(put.socket_path, "/tmp/fc.sock");
    assert_eq!(put.method, Method::Put);
    assert_eq!(put.method.name(), "PUT");
    assert_eq!(put.path, "/actions");
    assert!(matches!(put.body, RequestBody::InstanceAction(a) if a.action_type == "ResumeVm"));
    let patch = api.patch("/drives/x", body());
    assert_eq!(patch.method, Method::Patch);
    assert_eq!(patch.method.name(), "PATCH");
    assert_eq!(patch.path, "/drives/x");
}

#[test]
fn a_call_is_sent_with_its_method_and_path() {
    let action = InstanceAction { action_type: "ResumeVm".to_string() };
    let call = FcApi::new("/s").patch("/drives/x", RequestBody::InstanceAction(action));
    assert_eq!(call.request("{}"), FcApi::request("PATCH", "/drives/x", Some("{}")));
}

#[test]
fn response_is_status_and_body() {
    let r = parse_response("HTTP/1.1 400 Bad Request\r\nServer: x\r\n\r\n{\"fault\": 1}\r\n\r\n").unwrap();
    assert_eq!(r.status, 400);
    assert_eq!(r.body, "{\"fault\": 1}\r\n\r\n");
}

#[test]
fn response_without_empty_line_has_no_body() {
    let r = parse_response("HTTP/1.1 204").unwrap();
    assert_eq!(r.status, 204);
    assert_eq!(r.body, "");
}

#[test]
fn response_status_may_carry_a_plus() {
    assert_eq!(parse_response(" x\t+200").unwrap().status, 200);
}

#[test]
fn malformed_responses() {
    for raw in ["", "   ", "HTTP/1.1", "HTTP/1.1 \r\n", "HTTP/1.1 abc OK", "x 65536", "x -1", "x 2OO"] {
        let error = parse_response(raw).unwrap_err();
        assert!(matches!(&error, FirecrackerError::ApiConnect(t) if t == "malformed HTTP response"));
        assert_eq!(
            error.message(),
            "Firecracker API connection error: malformed HTTP response"
        );
    }
}

#[test]
fn only_2xx_is_a_success() {
    for status in [200, 204, 299] {
        assert!(check_reply(&format!("HTTP/1.1 {} X\r\n\r\nbody", status)).is_ok());
    }
    for status in [0u16, 100, 199, 300, 400, 500, 65535] {
        match check_reply(&format!("HTTP/1.1 {} X\r\n\r\nbody", status)) {
            Err(FirecrackerError::Api { status: s, body }) => {
                assert_eq!(s, status);
                assert_eq!(body, "body");
            }
            other => panic!("{:?}", other),
        }
    }
}

#[test]
fn exchanges_that_got_no_reply() {
    let unwritable = check_exchange(&Exchange::Unwritable("depth".to_string())).unwrap_err();
    assert!(matches!(&unwritable, FirecrackerError::Api { status: 0, body } if body == "depth"));
    assert_eq!(unwritable.message(), "Firecracker API error (0): depth");
    let unreachable = check_exchange(&Exchange::Unreachable("refused".to_string())).unwrap_err();
    assert!(matches!(&unreachable, FirecrackerError::ApiConnect(t) if t == "refused"));
    let broken = check_exchange(&Exchange::Broken("reset".to_string())).unwrap_err();
    assert!(matches!(&broken, FirecrackerError::Io(t) if t == "reset"));
    assert_eq!(broken.message(), "reset");
}

#[test]
fn reply_bytes_are_read_as_text() {
    assert!(check_exchange(&Exchange::Reply(b"HTTP/1.1 204 No Content\r\n\r\n".to_vec())).is_ok());
    match check_exchange(&Exchange::Reply("HTTP/1.1 400 X\r\n\r\nfehlt: ü".as_bytes().to_vec())) {
        Err(FirecrackerError::Api { status: 400, body }) => assert_eq!(body, "fehlt: ü"),
        other => panic!("{:?}", other),
    }
}

#[test]
fn invalid_bytes_are_replaced() {
    match check_exchange(&Exchange::Reply(b"HTTP/1.1 500 X\r\n\r\na\xffb".to_vec())) {
        Err(FirecrackerError::Api { status: 500, body }) => assert_eq!(body, "a\u{fffd}b"),
        other => panic!("{:?}", other),
    }
}

#[test]
fn error_messages() {
    let all = vec![
        (FirecrackerError::Tap("x".to_string()), "tap device error: x"),
        (FirecrackerError::Overlay("x".to_string()), "overlay error: x"),
        (
            FirecrackerError::Api { status: 400, body: "x".to_string() },
            "Firecracker API error (400): x",
        ),
        (FirecrackerError::ApiConnect("x".to_string()), "Firecracker API connection error: x"),
        (FirecrackerError::Process("x".to_string()), "VM process error: x"),
        (FirecrackerError::Snapshot("x".to_string()), "snapshot error: x"),
        (FirecrackerError::Routing("x".to_string()), "routing error: x"),
        (
            FirecrackerError::KvmUnavailable,
            "/dev/kvm is not available — Firecracker requires KVM",
        ),
        (
            FirecrackerError::BinaryNotFound { path: "/x".to_string() },
            "firecracker binary not found at /x",
        ),
        (FirecrackerError::Io("x".to_string()), "x"),
    ];
    for (error, message) in all {
        assert_eq!(error.message(), message);
    }
}
