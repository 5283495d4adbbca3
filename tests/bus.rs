use mount_tab::adapter::{accept, reconcile, socket_inbound};
use mount_tab::bus::{ActionBus, ActionEnvelope, SourceTag};
use mount_tab::fs_layout::{action_to_fs, FsOp};
use mount_tab::manager::{WorkspaceManger, BUS_CAPACITY};
use mount_tab::model::{Workspace, WorkspaceAction};
use mount_tab::wire::JsonValue;

fn open(u: &str) -> WorkspaceAction {
    WorkspaceAction::OpenTab(u.to_string())
}

fn ws(urls: &[&str]) -> Workspace {
    Workspace { tabs: urls.iter().map(|u| u.to_string()).collect() }
}

#[test]
fn filesystem_envelope_skips_filesystem_subscriber() {
    let mut bus = ActionBus::new(4);
    let fs = bus.subscribe(SourceTag::Filesystem).unwrap();
    let browser = bus.subscribe(SourceTag::Browser).unwrap();
    let socket = bus.subscribe(SourceTag::Socket).unwrap();
    let env = ActionEnvelope::new(SourceTag::Filesystem, open("f.com"));
    assert_eq!(bus.publish(env.clone()), 2);
    assert_eq!(bus.receive(fs), None);
    assert_eq!(bus.receive(browser), Some(env.clone()));
    assert_eq!(bus.receive(socket), Some(env));
    assert_eq!(bus.receive(browser), None);
}

#[test]
fn late_subscriber_gets_no_backlog() {
    let mut bus = ActionBus::new(4);
    let early = bus.subscribe(SourceTag::Browser).unwrap();
    bus.publish(ActionEnvelope::new(SourceTag::Socket, open("a.com")));
    let late = bus.subscribe(SourceTag::Filesystem).unwrap();
    assert_ne!(early, late);
    assert_eq!(bus.receive(late), None);
    bus.publish(ActionEnvelope::new(SourceTag::Socket, open("b.com")));
    assert_eq!(bus.receive(late).unwrap().action, open("b.com"));
    assert_eq!(bus.receive(early).unwrap().action, open("a.com"));
    assert_eq!(bus.receive(early).unwrap().action, open("b.com"));
}

#[test]
fn full_queue_drops_oldest() {
    let mut bus = ActionBus::new(2);
    let id = bus.subscribe(SourceTag::Socket).unwrap();
    for u in ["1.com", "2.com", "3.com"] {
        bus.publish(ActionEnvelope::new(SourceTag::Browser, open(u)));
    }
    assert_eq!(bus.receive(id).unwrap().action, open("2.com"));
    assert_eq!(bus.receive(id).unwrap().action, open("3.com"));
    assert_eq!(bus.receive(id), None);
}

#[test]
fn unsubscribe_and_unknown_ids() {
    let mut bus = ActionBus::new(3);
    let id = bus.subscribe(SourceTag::Browser).unwrap();
    assert_eq!(bus.subscriber_count(), 1);
    assert!(bus.unsubscribe(id));
    assert!(!bus.unsubscribe(id));
    assert_eq!(bus.subscriber_count(), 0);
    assert_eq!(bus.publish(ActionEnvelope::new(SourceTag::Socket, open("x.com"))), 0);
    assert_eq!(bus.receive(id), None);
    assert_eq!(bus.receive(99), None);
}

#[test]
fn browser_publish_reaches_filesystem_not_browser() {
    let mut man = WorkspaceManger::new(Workspace::new());
    let browser = man.subscribe(SourceTag::Browser).unwrap();
    let fs = man.subscribe(SourceTag::Filesystem).unwrap();
    let sent = man.tick(SourceTag::Browser, ws(&["z.com"]));
    assert_eq!(sent, vec![ActionEnvelope::new(SourceTag::Browser, open("z.com"))]);
    assert_eq!(man.workspace().tabs, vec!["z.com".to_string()]);
    assert_eq!(man.receive(browser), None);
    let got = man.receive(fs).unwrap();
    assert_eq!(got.source, SourceTag::Browser);
    assert_eq!(
        action_to_fs(&got.action),
        vec![
            FsOp::CreateDir("z.com".to_string()),
            FsOp::WriteFile("z.com".to_string(), "url".to_string(), "z.com".to_string()),
            FsOp::WriteFile("z.com".to_string(), "is_open".to_string(), "1".to_string()),
        ]
    );
}

#[test]
fn unknown_socket_message_is_dropped() {
    let msg = JsonValue::Record(vec![("bogus".to_string(), JsonValue::Text("value".to_string()))]);
    assert_eq!(socket_inbound(&msg), None);
    let mut man = WorkspaceManger::new(ws(&["a.com"]));
    let browser = man.subscribe(SourceTag::Browser).unwrap();
    if let Some(env) = socket_inbound(&msg) {
        man.submit(env);
    }
    assert_eq!(man.workspace().tabs, vec!["a.com".to_string()]);
    assert_eq!(man.receive(browser), None);
}

#[test]
fn socket_message_becomes_socket_envelope() {
    let msg = JsonValue::Record(vec![("OpenTab".to_string(), JsonValue::Text("https://example.com".to_string()))]);
    let env = socket_inbound(&msg).unwrap();
    assert_eq!(env, ActionEnvelope::new(SourceTag::Socket, open("https://example.com")));
    let mut man = WorkspaceManger::new(Workspace::new());
    let socket = man.subscribe(SourceTag::Socket).unwrap();
    let browser = man.subscribe(SourceTag::Browser).unwrap();
    assert_eq!(man.submit(env.clone()), 1);
    assert_eq!(man.workspace().tabs, vec!["https://example.com".to_string()]);
    assert_eq!(man.receive(socket), None);
    assert_eq!(man.receive(browser), Some(env));
}

#[test]
fn reconcile_applies_and_tags() {
    let mut canonical = ws(&["a.com", "b.com"]);
    let sent = reconcile(&mut canonical, ws(&["b.com", "c.com"]), SourceTag::PersistedFile);
    assert_eq!(
        sent,
        vec![
            ActionEnvelope::new(SourceTag::PersistedFile, open("c.com")),
            ActionEnvelope::new(SourceTag::PersistedFile, WorkspaceAction::CloseTab("a.com".to_string())),
        ]
    );
    assert_eq!(canonical.tabs, vec!["b.com".to_string(), "c.com".to_string()]);
}

#[test]
fn accept_skips_own_envelopes() {
    let mut w = Workspace::new();
    assert!(!accept(SourceTag::Filesystem, &mut w, ActionEnvelope::new(SourceTag::Filesystem, open("a.com"))));
    assert!(w.tabs.is_empty());
    assert!(accept(SourceTag::Filesystem, &mut w, ActionEnvelope::new(SourceTag::Browser, open("a.com"))));
    assert_eq!(w.tabs, vec!["a.com".to_string()]);
}

#[test]
fn tick_on_unchanged_snapshot_publishes_nothing() {
    let mut man = WorkspaceManger::new(ws(&["a.com", "a.com"]));
    let fs = man.subscribe(SourceTag::Filesystem).unwrap();
    assert!(man.tick(SourceTag::Browser, ws(&["a.com", "a.com"])).is_empty());
    assert_eq!(man.receive(fs), None);
    assert!(man.unsubscribe(fs));
}

#[test]
fn source_labels() {
    assert_eq!(SourceTag::Browser.label(), "browser");
    assert_eq!(SourceTag::Filesystem.label(), "filesystem");
    assert_eq!(SourceTag::Socket.label(), "socket");
    assert_eq!(SourceTag::PersistedFile.label(), "persisted-file");
    assert_eq!(BUS_CAPACITY, 16);
}
