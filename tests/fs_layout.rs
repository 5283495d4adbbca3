use mount_tab::fs_layout::{
    action_to_fs, event_to_actions, path_to_action, tab_action_to_fs, url_action, EventPath, FsEventKind, FsOp,
    PathPart,
};
use mount_tab::keyed::{Tab, TabAction, TabWorkspace};
use mount_tab::model::WorkspaceAction;

fn root() -> Vec<PathPart> {
    vec![PathPart::Root, PathPart::Normal("home".to_string()), PathPart::Normal("tabs".to_string())]
}

fn under_root(rest: &[&str]) -> Vec<PathPart> {
    let mut p = root();
    p.extend(rest.iter().map(|c| PathPart::Normal(c.to_string())));
    p
}

fn at(rest: &[&str], contents: Option<&str>) -> EventPath {
    EventPath { parts: under_root(rest), contents: contents.map(|c| c.to_string()) }
}

fn s(x: &str) -> String {
    x.to_string()
}

#[test]
fn created_directory_creates_tab() {
    let acts = event_to_actions(FsEventKind::Create, &root(), &vec![at(&["news"], None)]);
    assert_eq!(acts, vec![TabAction::CreateTab(s("news"))]);
}

#[test]
fn removed_directory_removes_tab() {
    let acts = event_to_actions(FsEventKind::Remove, &root(), &vec![at(&["news"], None)]);
    assert_eq!(acts, vec![TabAction::RemoveTab(s("news"))]);
}

#[test]
fn is_open_writes_open_and_close_after_trimming() {
    let acts = event_to_actions(
        FsEventKind::Modify,
        &root(),
        &vec![at(&["a", "is_open"], Some("1\n")), at(&["b", "is_open"], Some(" 0 ")), at(&["c", "is_open"], Some("2"))],
    );
    assert_eq!(acts, vec![TabAction::OpenTab(s("a")), TabAction::CloseTab(s("b"))]);
}

#[test]
fn url_write_changes_url_trimmed() {
    let acts = event_to_actions(
        FsEventKind::Modify,
        &root(),
        &vec![at(&["news"], None), at(&["news", "url"], Some("  https://news.example \n"))],
    );
    assert_eq!(acts, vec![TabAction::ChangeTabUrl(s("news"), s("https://news.example"))]);
}

#[test]
fn unrecognized_events_map_to_nothing() {
    let r = root();
    assert!(event_to_actions(FsEventKind::Other, &r, &vec![at(&["news"], None)]).is_empty());
    assert!(event_to_actions(FsEventKind::Create, &r, &vec![at(&["news", "url"], None)]).is_empty());
    assert!(event_to_actions(FsEventKind::Remove, &r, &vec![at(&[], None)]).is_empty());
    assert!(event_to_actions(FsEventKind::Modify, &r, &vec![at(&["news", "is_open"], None)]).is_empty());
    assert!(event_to_actions(FsEventKind::Modify, &r, &vec![at(&["news", "notes"], Some("1"))]).is_empty());
    let outside = EventPath {
        parts: vec![PathPart::Root, PathPart::Normal(s("tmp")), PathPart::Normal(s("news"))],
        contents: None,
    };
    assert!(event_to_actions(FsEventKind::Create, &r, &vec![outside]).is_empty());
    let dotted = EventPath { parts: { let mut p = root(); p.push(PathPart::Parent); p }, contents: None };
    assert!(event_to_actions(FsEventKind::Create, &r, &vec![dotted]).is_empty());
}

#[test]
fn path_to_action_takes_trimmed_text() {
    let r = root();
    let one = s("1");
    assert_eq!(
        path_to_action(FsEventKind::Modify, &r, &under_root(&["a", "is_open"]), Some(&one)),
        Some(TabAction::OpenTab(s("a")))
    );
    let untrimmed = s("1\n");
    assert_eq!(path_to_action(FsEventKind::Modify, &r, &under_root(&["a", "is_open"]), Some(&untrimmed)), None);
    let url = s("u.com");
    assert_eq!(
        path_to_action(FsEventKind::Modify, &r, &under_root(&["a", "url"]), Some(&url)),
        Some(TabAction::ChangeTabUrl(s("a"), s("u.com")))
    );
}

#[test]
fn keyed_actions_to_directory_writes() {
    assert_eq!(
        tab_action_to_fs(&TabAction::CreateTab(s("n"))),
        vec![
            FsOp::CreateDir(s("n")),
            FsOp::WriteFile(s("n"), s("is_open"), s("0")),
            FsOp::WriteFile(s("n"), s("url"), s("")),
        ]
    );
    assert_eq!(
        tab_action_to_fs(&TabAction::OpenTab(s("n"))),
        vec![FsOp::CreateDir(s("n")), FsOp::WriteFile(s("n"), s("is_open"), s("1"))]
    );
    assert_eq!(
        tab_action_to_fs(&TabAction::CloseTab(s("n"))),
        vec![FsOp::CreateDir(s("n")), FsOp::WriteFile(s("n"), s("is_open"), s("0"))]
    );
    assert_eq!(tab_action_to_fs(&TabAction::RemoveTab(s("n"))), vec![FsOp::RemoveDir(s("n"))]);
    assert_eq!(
        tab_action_to_fs(&TabAction::ChangeTabUrl(s("n"), s("u.com"))),
        vec![FsOp::CreateDir(s("n")), FsOp::WriteFile(s("n"), s("url"), s("u.com"))]
    );
}

#[test]
fn url_actions_to_directory_writes() {
    assert_eq!(
        action_to_fs(&WorkspaceAction::CloseTab(s("z.com"))),
        vec![FsOp::CreateDir(s("z.com")), FsOp::WriteFile(s("z.com"), s("is_open"), s("0"))]
    );
}

#[test]
fn keyed_to_url_actions() {
    assert_eq!(url_action(&TabAction::OpenTab(s("z.com"))), Some(WorkspaceAction::OpenTab(s("z.com"))));
    assert_eq!(url_action(&TabAction::CloseTab(s("z.com"))), Some(WorkspaceAction::CloseTab(s("z.com"))));
    assert_eq!(url_action(&TabAction::CreateTab(s("z.com"))), None);
    assert_eq!(url_action(&TabAction::RemoveTab(s("z.com"))), Some(WorkspaceAction::CloseTab(s("z.com"))));
    assert_eq!(url_action(&TabAction::ChangeTabUrl(s("z.com"), s("y.com"))), None);
}

#[test]
fn tab_read_from_its_files() {
    let t = mount_tab::fs_layout::tab_from_files(s("news"), &s("1"), s("https://news.example"));
    assert_eq!((t.name.as_str(), t.url.as_str(), t.is_open), ("news", "https://news.example", true));
    assert!(!mount_tab::fs_layout::tab_from_files(s("n"), &s("0"), s("")).is_open);
    assert!(!mount_tab::fs_layout::tab_from_files(s("n"), &s("1\n"), s("")).is_open);
}

#[test]
fn open_urls_of_tree() {
    let tree = TabWorkspace {
        tabs: vec![
            Tab { name: s("a.com"), url: s("a.com"), is_open: true },
            Tab { name: s("b.com"), url: s("b.com"), is_open: false },
            Tab { name: s("c.com"), url: s(""), is_open: true },
        ],
    };
    assert_eq!(mount_tab::fs_layout::open_urls(&tree).tabs, vec![s("a.com"), s("c.com")]);
}
