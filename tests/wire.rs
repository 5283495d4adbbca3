use mount_tab::model::{Workspace, WorkspaceAction};
use mount_tab::wire::JsonValue;

fn record(key: &str, value: JsonValue) -> JsonValue {
    JsonValue::Record(vec![(key.to_string(), value)])
}

fn text(s: &str) -> JsonValue {
    JsonValue::Text(s.to_string())
}

#[test]
fn action_round_trip() {
    for a in [
        WorkspaceAction::OpenTab("https://example.com".to_string()),
        WorkspaceAction::CloseTab("a.com".to_string()),
        WorkspaceAction::OpenTab(String::new()),
    ] {
        assert_eq!(WorkspaceAction::from_json(&a.to_json()), Some(a));
    }
}

#[test]
fn action_message_shape() {
    match WorkspaceAction::OpenTab("https://example.com".to_string()).to_json() {
        JsonValue::Record(entries) => {
            assert_eq!(entries.len(), 1);
            assert_eq!(entries[0].0, "OpenTab");
            assert!(matches!(&entries[0].1, JsonValue::Text(u) if u == "https://example.com"));
        }
        other => panic!("not a record: {:?}", other),
    }
}

#[test]
fn recognized_messages_decode() {
    assert_eq!(
        WorkspaceAction::from_json(&record("OpenTab", text("https://example.com"))),
        Some(WorkspaceAction::OpenTab("https://example.com".to_string()))
    );
    assert_eq!(
        WorkspaceAction::from_json(&record("CloseTab", text("b.com"))),
        Some(WorkspaceAction::CloseTab("b.com".to_string()))
    );
}

#[test]
fn unrecognized_messages_are_rejected() {
    assert_eq!(WorkspaceAction::from_json(&record("bogus", text("value"))), None);
    assert_eq!(WorkspaceAction::from_json(&record("OpenTab", JsonValue::Bool(true))), None);
    assert_eq!(WorkspaceAction::from_json(&record("openTab", text("a.com"))), None);
    assert_eq!(WorkspaceAction::from_json(&JsonValue::Record(vec![])), None);
    assert_eq!(
        WorkspaceAction::from_json(&JsonValue::Record(vec![
            ("OpenTab".to_string(), text("a.com")),
            ("CloseTab".to_string(), text("b.com")),
        ])),
        None
    );
    assert_eq!(WorkspaceAction::from_json(&text("OpenTab")), None);
    assert_eq!(WorkspaceAction::from_json(&JsonValue::Null), None);
    assert_eq!(WorkspaceAction::from_json(&JsonValue::Number("3".to_string())), None);
    assert_eq!(WorkspaceAction::from_json(&JsonValue::List(vec![text("OpenTab")])), None);
}

#[test]
fn workspace_round_trip() {
    for tabs in [vec![], vec!["a.com"], vec!["b.com", "a.com", "b.com"]] {
        let w = Workspace { tabs: tabs.iter().map(|t| t.to_string()).collect() };
        let back = Workspace::from_json(&w.to_json()).unwrap();
        assert_eq!(back.tabs, w.tabs);
    }
}

#[test]
fn persisted_document_shapes() {
    let doc = JsonValue::Record(vec![
        ("name".to_string(), text("ignored")),
        ("tabs".to_string(), JsonValue::List(vec![text("x.com"), text("y.com")])),
        ("tabs".to_string(), JsonValue::List(vec![])),
    ]);
    assert_eq!(Workspace::from_json(&doc).unwrap().tabs, vec!["x.com".to_string(), "y.com".to_string()]);
    let bad_item = record("tabs", JsonValue::List(vec![text("x.com"), JsonValue::Null]));
    assert!(Workspace::from_json(&bad_item).is_none());
    assert!(Workspace::from_json(&record("tabs", text("x.com"))).is_none());
    assert!(Workspace::from_json(&record("tab", JsonValue::List(vec![]))).is_none());
    assert!(Workspace::from_json(&JsonValue::List(vec![])).is_none());
}
