use bootmux::herdr::{focus_reply, focus_request_line, HerdrError, PaneInfo, SocketReply, FOCUS_REQUEST_ID};

fn pane(id: &str) -> PaneInfo {
    PaneInfo {
        pane_id: id.to_string(),
        terminal_id: "t1".to_string(),
        workspace_id: "w1".to_string(),
        tab_id: "tab1".to_string(),
        focused: true,
        cwd: None,
        foreground_cwd: None,
        label: None,
        agent: None,
        title: None,
        revision: 3,
    }
}

#[test]
fn the_focus_request_is_one_json_line() {
    assert_eq!(
        focus_request_line(FOCUS_REQUEST_ID, "p-1"),
        "{\"id\":\"bootmux:pane:focus\",\"method\":\"pane.focus\",\"params\":{\"pane_id\":\"p-1\"}}\n"
    );
}

#[test]
fn the_focus_request_escapes_pane_ids_as_json_does() {
    assert_eq!(
        focus_request_line("r", "a\"b\\c\n\u{1}"),
        "{\"id\":\"r\",\"method\":\"pane.focus\",\"params\":{\"pane_id\":\"a\\\"b\\\\c\\n\\u0001\"}}\n"
    );
}

#[test]
fn a_matching_focus_reply_gives_the_pane() {
    let reply = SocketReply { id: FOCUS_REQUEST_ID.to_string(), result_type: "pane_info".to_string(), pane: pane("p-1") };
    assert_eq!(focus_reply("/tmp/h.sock", FOCUS_REQUEST_ID, None, Ok(reply)).unwrap(), pane("p-1"));
}

#[test]
fn a_focus_reply_for_another_request_is_refused() {
    let reply = SocketReply { id: "other".to_string(), result_type: "pane_info".to_string(), pane: pane("p-1") };
    match focus_reply("/tmp/h.sock", FOCUS_REQUEST_ID, None, Ok(reply)) {
        Err(HerdrError::UnexpectedResponseId { expected, found }) => {
            assert_eq!(expected, FOCUS_REQUEST_ID);
            assert_eq!(found, "other");
        }
        other => panic!("unexpected {other:?}"),
    }
}

#[test]
fn a_focus_reply_of_another_kind_is_refused() {
    let reply = SocketReply { id: FOCUS_REQUEST_ID.to_string(), result_type: "tab_info".to_string(), pane: pane("p-1") };
    match focus_reply("/tmp/h.sock", FOCUS_REQUEST_ID, None, Ok(reply)) {
        Err(HerdrError::UnexpectedResult { expected, found }) => {
            assert_eq!(expected, "pane_info");
            assert_eq!(found, "tab_info");
        }
        other => panic!("unexpected {other:?}"),
    }
}

#[test]
fn an_error_envelope_on_the_socket_is_a_cli_refusal() {
    let envelope = Some(("not_found".to_string(), "no such pane".to_string()));
    match focus_reply("/tmp/h.sock", FOCUS_REQUEST_ID, envelope, Err(HerdrError::StateHomeUnavailable)) {
        Err(HerdrError::Cli { command, status, code, message }) => {
            assert_eq!(command, "Herdr socket /tmp/h.sock pane.focus");
            assert_eq!(status, None);
            assert_eq!(code, "not_found");
            assert_eq!(message, "no such pane");
        }
        other => panic!("unexpected {other:?}"),
    }
}
