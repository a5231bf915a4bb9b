use raspberry_pi_display::control::{
    command_response, http_response, reason_phrase, request_line, route_request, ControlCommand,
    ControlScene, Reply, ANIMATIONS_BODY, BAD_REQUEST_BODY, OK_BODY, UNAVAILABLE_BODY,
    UNKNOWN_ENDPOINT_BODY,
};

fn respond(reply: Reply) -> Option<(u16, &'static str)> {
    match reply {
        Reply::Respond { status, body } => Some((status, body)),
        Reply::Dispatch(_) => None,
    }
}

fn dispatch(reply: Reply) -> Option<ControlCommand> {
    match reply {
        Reply::Dispatch(command) => Some(command),
        Reply::Respond { .. } => None,
    }
}

#[test]
fn scene_names_and_aliases() {
    for name in ["dashboard", "walking", "walk"] {
        assert_eq!(ControlScene::from_path(name), Some(ControlScene::Dashboard));
    }
    for name in ["coding", "laptop"] {
        assert_eq!(ControlScene::from_path(name), Some(ControlScene::Coding));
    }
    for name in ["suit", "suited"] {
        assert_eq!(ControlScene::from_path(name), Some(ControlScene::Suit));
    }
    for name in ["roam", "roaming"] {
        assert_eq!(ControlScene::from_path(name), Some(ControlScene::Roam));
    }
    for name in ["", "Dashboard", "dance", "walk/", "suits"] {
        assert_eq!(ControlScene::from_path(name), None);
    }
}

#[test]
fn advertised_animations_are_scenes() {
    for name in ["dashboard", "walking", "coding", "suit", "roam"] {
        assert!(ANIMATIONS_BODY.contains(&format!("\"{name}\"")));
        assert!(ControlScene::from_path(name).is_some());
    }
}

#[test]
fn request_lines() {
    assert_eq!(request_line("GET /health HTTP/1.1\r\nHost: x\r\n\r\n"), Some(("GET", "/health")));
    assert_eq!(request_line("  POST\t/reset  "), Some(("POST", "/reset")));
    assert_eq!(request_line("GET\n/health"), None);
    assert_eq!(request_line(""), None);
    assert_eq!(request_line("\nGET /health"), None);
    assert_eq!(request_line("GET"), None);
}

#[test]
fn known_endpoints() {
    assert_eq!(respond(route_request("GET /health HTTP/1.1\r\n\r\n")), Some((200, OK_BODY)));
    assert_eq!(respond(route_request("GET /animations HTTP/1.1\r\n")), Some((200, ANIMATIONS_BODY)));
    assert_eq!(dispatch(route_request("POST /reset HTTP/1.1\r\n")), Some(ControlCommand::Reset));
    assert_eq!(
        dispatch(route_request("POST /scene/laptop HTTP/1.1\r\n")),
        Some(ControlCommand::SetScene(ControlScene::Coding))
    );
    assert_eq!(
        dispatch(route_request("POST /animation/roaming HTTP/1.1\r\n")),
        Some(ControlCommand::SetScene(ControlScene::Roam))
    );
}

#[test]
fn unknown_and_bad_requests() {
    assert_eq!(respond(route_request("")), Some((400, BAD_REQUEST_BODY)));
    assert_eq!(respond(route_request("hello")), Some((400, BAD_REQUEST_BODY)));
    assert_eq!(respond(route_request("GET /scene/suit HTTP/1.1")), Some((404, UNKNOWN_ENDPOINT_BODY)));
    assert_eq!(respond(route_request("POST /scene/dance HTTP/1.1")), Some((404, UNKNOWN_ENDPOINT_BODY)));
    assert_eq!(respond(route_request("POST /health HTTP/1.1")), Some((404, UNKNOWN_ENDPOINT_BODY)));
    assert_eq!(respond(route_request("DELETE /reset HTTP/1.1")), Some((404, UNKNOWN_ENDPOINT_BODY)));
    assert_eq!(respond(route_request("POST /scene/ HTTP/1.1")), Some((404, UNKNOWN_ENDPOINT_BODY)));
}

#[test]
fn both_scene_paths_agree() {
    for name in ["walk", "coding", "suited", "roam", "nothing"] {
        let a = route_request(&format!("POST /scene/{name} HTTP/1.1"));
        let b = route_request(&format!("POST /animation/{name} HTTP/1.1"));
        assert_eq!(dispatch(a), dispatch(b));
        assert_eq!(respond(a), respond(b));
    }
}

#[test]
fn command_answers() {
    assert_eq!(command_response(true), (202, OK_BODY));
    assert_eq!(command_response(false), (503, UNAVAILABLE_BODY));
}

#[test]
fn reason_phrases() {
    assert_eq!(reason_phrase(200), "OK");
    assert_eq!(reason_phrase(202), "Accepted");
    assert_eq!(reason_phrase(400), "Bad Request");
    assert_eq!(reason_phrase(404), "Not Found");
    assert_eq!(reason_phrase(503), "Service Unavailable");
    assert_eq!(reason_phrase(418), "OK");
}

#[test]
fn http_responses() {
    assert_eq!(
        http_response(200, OK_BODY),
        "HTTP/1.1 200 OK\r\nContent-Type: application/json\r\nContent-Length: 11\r\nConnection: close\r\n\r\n{\"ok\":true}"
    );
    let text = http_response(503, UNAVAILABLE_BODY);
    assert!(text.starts_with("HTTP/1.1 503 Service Unavailable\r\n"));
    assert!(text.contains(&format!("Content-Length: {}\r\n", UNAVAILABLE_BODY.len())));
    assert!(text.ends_with(UNAVAILABLE_BODY));
    let unicode = http_response(404, "{\"e\":\"é\"}");
    assert!(unicode.contains("Content-Length: 10\r\n"));
}
