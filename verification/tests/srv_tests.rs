use nvoc::srv::{
    http_request_text, parse_http_response, post_outcome, probe_from_gpus, probe_state, JsonField,
    Probe,
};

#[test]
fn requests_carry_csrf_header_only_for_post() {
    assert_eq!(
        http_request_text("GET", "/status", 14514),
        "GET /status HTTP/1.1\r\nHost: 127.0.0.1:14514\r\nConnection: close\r\nContent-Length: 0\r\n\r\n"
    );
    assert_eq!(
        http_request_text("POST", "/restore", 1),
        "POST /restore HTTP/1.1\r\nHost: 127.0.0.1:1\r\nX-Requested-With: XMLHttpRequest\r\nConnection: close\r\nContent-Length: 0\r\n\r\n"
    );
}

#[test]
fn responses_split_into_status_and_body() {
    let (code, body) =
        parse_http_response("HTTP/1.1 200 OK\r\nContent-Type: x\r\n\r\n{\"gpus\":[]}").unwrap();
    assert_eq!(code, 200);
    assert_eq!(body, "{\"gpus\":[]}");
    assert_eq!(
        parse_http_response("HTTP/1.1 200 OK").unwrap_err(),
        "response has no header/body separator"
    );
    assert_eq!(
        parse_http_response("garbage\r\n\r\n").unwrap_err(),
        "no status line: \"garbage\""
    );
    assert_eq!(
        parse_http_response("HTTP/1.1 99999 X\r\n\r\n").unwrap_err(),
        "no status line: \"HTTP/1.1 99999 X\""
    );
    let (code, body) = parse_http_response("HTTP/1.0   404\r\n\r\n").unwrap();
    assert_eq!((code, body.as_str()), (404, ""));
}

#[test]
fn post_replies() {
    assert_eq!(post_outcome(204, "ok".to_string()).unwrap(), "ok");
    assert_eq!(
        post_outcome(500, "  boom \n".to_string()).unwrap_err(),
        "srv returned 500: boom"
    );
}

#[test]
fn probes_read_the_status_document() {
    assert_eq!(
        probe_state(Err("connect: connection refused (os error 111)".to_string())).unwrap(),
        Probe::Absent
    );
    assert_eq!(
        probe_state(Err("read: timed out".to_string())).unwrap_err(),
        "read: timed out"
    );
    assert_eq!(
        probe_state(Ok((503, "busy".to_string()))).unwrap_err(),
        "srv returned 503: busy"
    );
    assert_eq!(
        probe_state(Ok((200, "{\"gpus\":[]}".to_string()))).unwrap(),
        Probe::Starting
    );
    assert_eq!(
        probe_state(Ok((200, "{\"gpus\":[{\"id\":1}]}".to_string()))).unwrap(),
        Probe::Ready
    );
    assert_eq!(
        probe_state(Ok((200, "{}".to_string()))).unwrap_err(),
        "srv /status missing 'gpus'"
    );
    assert!(probe_state(Ok((200, "not json".to_string())))
        .unwrap_err()
        .starts_with("srv /status is not JSON: "));
}

#[test]
fn gpus_field_decides_the_probe() {
    assert_eq!(probe_from_gpus(JsonField::Array(0)).unwrap(), Probe::Starting);
    assert_eq!(probe_from_gpus(JsonField::Array(2)).unwrap(), Probe::Ready);
    assert_eq!(probe_from_gpus(JsonField::Missing).unwrap_err(), "srv /status missing 'gpus'");
    assert_eq!(probe_from_gpus(JsonField::Other).unwrap_err(), "srv /status missing 'gpus'");
    assert_eq!(
        probe_from_gpus(JsonField::NotJson("expected value at line 1 column 1".to_string()))
            .unwrap_err(),
        "srv /status is not JSON: expected value at line 1 column 1"
    );
}

#[test]
fn refused_connection_is_absent_whatever_the_case() {
    assert_eq!(
        probe_state(Err("connect: Connection refused (os error 111)".to_string())).unwrap(),
        Probe::Absent
    );
    assert_eq!(
        probe_state(Ok((200, "{\"gpus\": 3}".to_string()))).unwrap_err(),
        "srv /status missing 'gpus'"
    );
}
