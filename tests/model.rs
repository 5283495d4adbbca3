use mount_tab::model::{Workspace, WorkspaceAction};

fn ws(urls: &[&str]) -> Workspace {
    Workspace { tabs: urls.iter().map(|u| u.to_string()).collect() }
}

fn sorted(w: &Workspace) -> Vec<String> {
    let mut v = w.tabs.clone();
    v.sort();
    v
}

fn apply_all(w: &mut Workspace, actions: &[WorkspaceAction]) {
    for a in actions {
        w.apply_action(a.clone());
    }
}

#[test]
fn new_workspace_is_empty() {
    assert!(Workspace::new().tabs.is_empty());
}

#[test]
fn diff_closes_one_duplicate() {
    let current = ws(&["a.com", "a.com"]);
    let target = ws(&["a.com"]);
    let diff = current.actions_from_diff(target);
    assert_eq!(diff, vec![WorkspaceAction::CloseTab("a.com".to_string())]);
    let mut w = current.clone();
    apply_all(&mut w, &diff);
    assert_eq!(w.tabs, vec!["a.com".to_string()]);
}

#[test]
fn diff_opens_missing_tabs() {
    let current = ws(&[]);
    let target = ws(&["x.com", "y.com"]);
    let diff = current.actions_from_diff(target.clone());
    assert_eq!(diff.len(), 2);
    assert!(diff.contains(&WorkspaceAction::OpenTab("x.com".to_string())));
    assert!(diff.contains(&WorkspaceAction::OpenTab("y.com".to_string())));
    let mut w = current.clone();
    apply_all(&mut w, &diff);
    assert_eq!(sorted(&w), sorted(&target));
}

#[test]
fn open_twice_close_once_leaves_one() {
    let mut w = Workspace::new();
    w.apply_action(WorkspaceAction::OpenTab("dup.com".to_string()));
    w.apply_action(WorkspaceAction::OpenTab("dup.com".to_string()));
    w.apply_action(WorkspaceAction::CloseTab("dup.com".to_string()));
    assert_eq!(w.tabs, vec!["dup.com".to_string()]);
}

#[test]
fn diff_of_workspace_with_itself_is_empty() {
    let w = ws(&["a.com", "b.com", "a.com"]);
    assert!(w.actions_from_diff(w.clone()).is_empty());
    assert!(Workspace::new().actions_from_diff(Workspace::new()).is_empty());
}

#[test]
fn reordering_yields_no_actions() {
    let a = ws(&["a.com", "b.com", "a.com", "c.com"]);
    let b = ws(&["c.com", "a.com", "a.com", "b.com"]);
    assert!(a.actions_from_diff(b).is_empty());
}

#[test]
fn diff_converges_with_duplicates_on_both_sides() {
    let a = ws(&["a.com", "b.com", "b.com", "c.com", "a.com"]);
    let b = ws(&["b.com", "d.com", "a.com", "d.com", "d.com", "b.com", "b.com"]);
    let diff = a.actions_from_diff(b.clone());
    let mut w = a.clone();
    apply_all(&mut w, &diff);
    assert_eq!(sorted(&w), sorted(&b));
    assert_eq!(
        diff,
        vec![
            WorkspaceAction::OpenTab("d.com".to_string()),
            WorkspaceAction::OpenTab("d.com".to_string()),
            WorkspaceAction::OpenTab("d.com".to_string()),
            WorkspaceAction::OpenTab("b.com".to_string()),
            WorkspaceAction::CloseTab("c.com".to_string()),
            WorkspaceAction::CloseTab("a.com".to_string()),
        ]
    );
}

#[test]
fn diff_to_empty_closes_everything() {
    let a = ws(&["a.com", "a.com", "b.com"]);
    let diff = a.actions_from_diff(Workspace::new());
    assert_eq!(diff.len(), 3);
    let mut w = a.clone();
    apply_all(&mut w, &diff);
    assert!(w.tabs.is_empty());
}

#[test]
fn close_absent_url_is_noop() {
    let mut w = ws(&["a.com", "b.com"]);
    w.apply_action(WorkspaceAction::CloseTab("zzz.com".to_string()));
    assert_eq!(w.tabs, vec!["a.com".to_string(), "b.com".to_string()]);
    let mut e = Workspace::new();
    e.apply_action(WorkspaceAction::CloseTab("a.com".to_string()));
    assert!(e.tabs.is_empty());
}

#[test]
fn close_removes_first_occurrence_only() {
    let mut w = ws(&["b.com", "a.com", "c.com", "a.com"]);
    w.apply_action(WorkspaceAction::CloseTab("a.com".to_string()));
    assert_eq!(w.tabs, vec!["b.com".to_string(), "c.com".to_string(), "a.com".to_string()]);
}

#[test]
fn open_appends_at_end() {
    let mut w = ws(&["a.com"]);
    w.apply_action(WorkspaceAction::OpenTab("a.com".to_string()));
    w.apply_action(WorkspaceAction::OpenTab("b.com".to_string()));
    assert_eq!(w.tabs, vec!["a.com".to_string(), "a.com".to_string(), "b.com".to_string()]);
}

#[test]
fn duplicate_copies_action() {
    let a = WorkspaceAction::CloseTab("q.com".to_string());
    assert_eq!(a.duplicate(), a);
}
