use bashlet::protocol::{
    parse_request, parse_response, print_request, print_response, process_request,
    interpret_execute_response, interpret_ping_response, AgentRequest, AgentResponse,
    RequestOutcome,
};

#[test]
fn test_ping_pong() {
    let response = process_request(r#"{"type": "ping"}"#);
    match response {
        RequestOutcome::Reply(AgentResponse::Pong) => {}
        _ => panic!("Expected Pong response"),
    }
}

#[test]
fn test_invalid_request() {
    let response = process_request(r#"{"invalid": "json"}"#);
    match response {
        RequestOutcome::Reply(AgentResponse::Error { message }) => {
            assert!(message.contains("Invalid request"));
        }
        _ => panic!("Expected Error response"),
    }
}

#[test]
fn execute_request_is_handed_on() {
    let response = process_request(r#"{"type": "execute", "command": "echo hello", "workdir": ""}"#);
    match response {
        RequestOutcome::Perform(AgentRequest::Execute { command, workdir }) => {
            assert_eq!(command, "echo hello");
            assert_eq!(workdir, "");
        }
        _ => panic!("Expected an execute operation"),
    }
}

#[test]
fn ping_and_pong_wire_forms_are_exact() {
    assert_eq!(print_request(&AgentRequest::Ping), r#"{"type":"ping"}"#);
    assert_eq!(print_response(&AgentResponse::Pong), r#"{"type":"pong"}"#);
    match parse_response(r#"{"type":"pong"}"#) {
        Some(AgentResponse::Pong) => {}
        _ => panic!("Expected Pong"),
    }
}

#[test]
fn request_round_trip_covers_every_kind() {
    let reqs = vec![
        AgentRequest::Ping,
        AgentRequest::Execute {
            command: "echo 'a b'".to_string(),
            workdir: "/tmp".to_string(),
        },
        AgentRequest::ReadFile { path: "/etc/hosts".to_string() },
        AgentRequest::WriteFile {
            path: "/tmp/out".to_string(),
            content: "line1\nline2\twith \"quotes\" and \\slash".to_string(),
        },
    ];
    for req in reqs {
        let line = print_request(&req);
        assert!(!line.contains('\n'), "one request per line");
        let back = parse_request(&line).expect("round trip");
        match (&req, &back) {
            (AgentRequest::Ping, AgentRequest::Ping) => {}
            (
                AgentRequest::Execute { command: c1, workdir: w1 },
                AgentRequest::Execute { command: c2, workdir: w2 },
            ) => {
                assert_eq!(c1, c2);
                assert_eq!(w1, w2);
            }
            (AgentRequest::ReadFile { path: p1 }, AgentRequest::ReadFile { path: p2 }) => {
                assert_eq!(p1, p2)
            }
            (
                AgentRequest::WriteFile { path: p1, content: c1 },
                AgentRequest::WriteFile { path: p2, content: c2 },
            ) => {
                assert_eq!(p1, p2);
                assert_eq!(c1, c2);
            }
            _ => panic!("request kind changed in flight"),
        }
    }
}

#[test]
fn response_round_trip_covers_every_kind() {
    let resps = vec![
        AgentResponse::Pong,
        AgentResponse::Execute {
            exit_code: -1,
            stdout: "hello\n".to_string(),
            stderr: "".to_string(),
        },
        AgentResponse::ReadFile { content: "a\tb\"c\"".to_string() },
        AgentResponse::WriteFile { success: true },
        AgentResponse::WriteFile { success: false },
        AgentResponse::Error { message: "no such file".to_string() },
    ];
    for resp in resps {
        let line = print_response(&resp);
        assert!(!line.contains('\n'));
        let back = parse_response(&line).expect("round trip");
        match (&resp, &back) {
            (AgentResponse::Pong, AgentResponse::Pong) => {}
            (
                AgentResponse::Execute { exit_code: a1, stdout: o1, stderr: e1 },
                AgentResponse::Execute { exit_code: a2, stdout: o2, stderr: e2 },
            ) => {
                assert_eq!(a1, a2);
                assert_eq!(o1, o2);
                assert_eq!(e1, e2);
            }
            (
                AgentResponse::ReadFile { content: c1 },
                AgentResponse::ReadFile { content: c2 },
            ) => assert_eq!(c1, c2),
            (
                AgentResponse::WriteFile { success: s1 },
                AgentResponse::WriteFile { success: s2 },
            ) => assert_eq!(s1, s2),
            (
                AgentResponse::Error { message: m1 },
                AgentResponse::Error { message: m2 },
            ) => assert_eq!(m1, m2),
            _ => panic!("response kind changed in flight"),
        }
    }
}

#[test]
fn execute_response_wire_form_is_exact() {
    let line = print_response(&AgentResponse::Execute {
        exit_code: 0,
        stdout: "hello\n".to_string(),
        stderr: String::new(),
    });
    assert_eq!(
        line,
        r#"{"type":"execute","exit_code":0,"stdout":"hello\n","stderr":""}"#
    );
    match parse_response(&line) {
        Some(AgentResponse::Execute { exit_code, stdout, .. }) => {
            assert_eq!(exit_code, 0);
            assert_eq!(stdout.trim(), "hello");
        }
        _ => panic!("Expected Execute response"),
    }
}

#[test]
fn agent_messages_tolerate_whitespace() {
    match parse_request(r#" { "type" : "read_file" , "path" : "/a" } "#) {
        Some(AgentRequest::ReadFile { path }) => assert_eq!(path, "/a"),
        _ => panic!("Expected ReadFile"),
    }
}

#[test]
fn host_interprets_agent_answers() {
    let ok = interpret_execute_response(AgentResponse::Execute {
        exit_code: 7,
        stdout: "out".to_string(),
        stderr: "err".to_string(),
    })
    .expect("a result, not an error");
    assert_eq!(ok.exit_code, 7);
    assert_eq!(ok.stdout, "out");
    assert_eq!(ok.stderr, "err");
    let agent_err = interpret_execute_response(AgentResponse::Error {
        message: "boom".to_string(),
    });
    assert!(matches!(
        agent_err,
        Err(bashlet::error::BashletError::SandboxExecution(_))
    ));
    let mismatch = interpret_execute_response(AgentResponse::Pong);
    assert!(matches!(
        mismatch,
        Err(bashlet::error::BashletError::VMCommunication(_))
    ));
    assert!(interpret_ping_response(&AgentResponse::Pong));
    assert!(!interpret_ping_response(&AgentResponse::WriteFile { success: true }));
}

#[test]
fn escape_json_string_matches_expected_form() {
    assert_eq!(
        bashlet::json::escape_json_string("a\"b\\c\nd\re\tf"),
        "a\\\"b\\\\c\\nd\\re\\tf"
    );
    assert_eq!(bashlet::json::escape_json_string("plain"), "plain");
}
