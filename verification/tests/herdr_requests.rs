use bootmux::herdr::{HerdrRequest, SplitDirection};

fn words(items: &[&str]) -> Vec<String> {
    items.iter().map(|item| item.to_string()).collect()
}

#[test]
fn item_requests_use_the_cli_shapes_and_expect_their_reply_types() {
    let close = HerdrRequest::WorkspaceClose("w1".into());
    assert_eq!(close.args(), words(&["workspace", "close", "w1"]));
    assert_eq!(close.result_type(), Some("ok"));
    let rename = HerdrRequest::TabRename { tab_id: "t1".into(), label: "logs".into() };
    assert_eq!(rename.args(), words(&["tab", "rename", "t1", "logs"]));
    assert_eq!(rename.result_type(), Some("tab_info"));
    assert_eq!(HerdrRequest::WorkspaceGet("w2".into()).args(), words(&["workspace", "get", "w2"]));
    assert_eq!(HerdrRequest::WorkspaceFocus("w2".into()).result_type(), Some("workspace_info"));
    assert_eq!(HerdrRequest::TabFocus("t2".into()).args(), words(&["tab", "focus", "t2"]));
    assert_eq!(HerdrRequest::TabClose("t2".into()).args(), words(&["tab", "close", "t2"]));
    assert_eq!(HerdrRequest::Snapshot.args(), words(&["api", "snapshot"]));
    assert_eq!(HerdrRequest::Snapshot.result_type(), Some("session_snapshot"));
}

#[test]
fn status_requests_expect_no_result_type() {
    assert_eq!(HerdrRequest::Status.args(), words(&["status", "--json"]));
    assert_eq!(HerdrRequest::ServerStatus.args(), words(&["status", "server", "--json"]));
    assert_eq!(HerdrRequest::Server.args(), words(&["server"]));
    assert_eq!(HerdrRequest::Status.result_type(), None);
}

#[test]
fn a_split_keeps_focus_where_it_was() {
    let split = HerdrRequest::PaneSplit {
        pane_id: "p1".into(),
        direction: SplitDirection::Down,
        ratio: "0.25".into(),
        cwd: "/srv".into(),
    };
    assert_eq!(
        split.args(),
        words(&["pane", "split", "p1", "--direction", "down", "--ratio", "0.25", "--cwd", "/srv", "--no-focus"])
    );
    assert_eq!(split.result_type(), Some("pane_info"));
}
