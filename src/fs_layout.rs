//! The filesystem replica: one directory per tab, named by the tab, holding a file `url`
//! with the tab's URL and a file `is_open` holding `1` or `0`.
use crate::keyed::{Tab, TabAction, TabActionView, TabWorkspace};
use crate::model::{Workspace, WorkspaceAction};
use crate::wire::text;
use vstd::prelude::*;

verus! {

/// What a watch notification reports of the paths it names.
#[derive(Debug, Clone, Copy, PartialEq, Eq, Structural)]
pub enum FsEventKind {
    Create,
    Modify,
    Remove,
    Other,
}

/// One component of a path, as the platform splits it.
#[derive(Debug, Clone, PartialEq, Eq)]
pub enum PathPart {
    Prefix(String),
    Root,
    Current,
    Parent,
    Normal(String),
}

/// Whether two components are the same.
pub open spec fn same_part(a: PathPart, b: PathPart) -> bool {
    match (a, b) {
        (PathPart::Prefix(x), PathPart::Prefix(y)) => x@ == y@,
        (PathPart::Root, PathPart::Root) => true,
        (PathPart::Current, PathPart::Current) => true,
        (PathPart::Parent, PathPart::Parent) => true,
        (PathPart::Normal(x), PathPart::Normal(y)) => x@ == y@,
        _ => false,
    }
}

/// Whether `path` lies under `root`, component by component.
pub open spec fn under(path: Seq<PathPart>, root: Seq<PathPart>) -> bool {
    &&& root.len() <= path.len()
    &&& forall|i: int| 0 <= i < root.len() ==> same_part(#[trigger] path[i], root[i])
}

/// The action that a notification of kind `kind` on `path`, under the watched `root`,
/// stands for. `contents` is the trimmed text of the file when it could be read. The
/// first component below the root names the tab: a directory created or removed there
/// creates or removes the tab; a write to its `is_open` file of `1` or `0` opens or
/// closes it; a write to its `url` file sets its URL. Anything else stands for nothing.
pub open spec fn path_action(
    kind: FsEventKind,
    root: Seq<PathPart>,
    path: Seq<PathPart>,
    contents: Option<Seq<char>>,
) -> Option<TabActionView> {
    if !under(path, root) || path.len() == root.len() {
        None
    } else {
        match path[root.len() as int] {
            PathPart::Normal(name) => {
                let rest = path.len() - root.len() - 1;
                match kind {
                    FsEventKind::Create => if rest == 0 {
                        Some(TabActionView::CreateTab(name@))
                    } else {
                        None
                    },
                    FsEventKind::Remove => if rest == 0 {
                        Some(TabActionView::RemoveTab(name@))
                    } else {
                        None
                    },
                    FsEventKind::Modify => {
                        if rest == 0 {
                            None
                        } else {
                            match (path[root.len() as int + 1], contents) {
                                (PathPart::Normal(file), Some(text)) => {
                                    if file@ == "is_open"@ && text == "1"@ {
                                        Some(TabActionView::OpenTab(name@))
                                    } else if file@ == "is_open"@ && text == "0"@ {
                                        Some(TabActionView::CloseTab(name@))
                                    } else if file@ == "url"@ {
                                        Some(TabActionView::ChangeTabUrl(name@, text))
                                    } else {
                                        None
                                    }
                                },
                                _ => None,
                            }
                        }
                    },
                    FsEventKind::Other => None,
                }
            },
            _ => None,
        }
    }
}

/// The text of a file that could be read.
pub open spec fn text_view(c: Option<&String>) -> Option<Seq<char>> {
    match c {
        Some(s) => Some(s@),
        None => None,
    }
}

fn part_eq(a: &PathPart, b: &PathPart) -> (r: bool)
    ensures
        r == same_part(*a, *b),
{
    match (a, b) {
        (PathPart::Prefix(x), PathPart::Prefix(y)) => *x == *y,
        (PathPart::Root, PathPart::Root) => true,
        (PathPart::Current, PathPart::Current) => true,
        (PathPart::Parent, PathPart::Parent) => true,
        (PathPart::Normal(x), PathPart::Normal(y)) => *x == *y,
        _ => false,
    }
}

/// The action that a notification of kind `kind` on `path`, under the watched `root`,
/// stands for, given the trimmed contents of the file it names.
pub fn path_to_action(
    kind: FsEventKind,
    root: &Vec<PathPart>,
    path: &Vec<PathPart>,
    contents: Option<&String>,
) -> (r: Option<TabAction>)
    ensures
        match r {
            Some(a) => path_action(kind, root@, path@, text_view(contents)) == Some(a@),
            None => path_action(kind, root@, path@, text_view(contents)) is None,
        },
{
    proof {
        reveal_strlit("is_open");
        reveal_strlit("url");
        reveal_strlit("1");
        reveal_strlit("0");
    }
    let r_len = root.len();
    if path.len() <= r_len {
        return None;
    }
    let mut i: usize = 0;
    while i < r_len
        invariant
            r_len == root@.len(),
            r_len < path@.len(),
            i <= r_len,
            forall|k: int| 0 <= k < i ==> same_part(#[trigger] path@[k], root@[k]),
        decreases r_len - i,
    {
        if !part_eq(&path[i], &root[i]) {
            return None;
        }
        i = i + 1;
    }
    let name = match &path[r_len] {
        PathPart::Normal(name) => name,
        _ => {
            return None;
        },
    };
    let rest = path.len() - r_len - 1;
    match kind {
        FsEventKind::Create => if rest == 0 {
            Some(TabAction::CreateTab(name.clone()))
        } else {
            None
        },
        FsEventKind::Remove => if rest == 0 {
            Some(TabAction::RemoveTab(name.clone()))
        } else {
            None
        },
        FsEventKind::Modify => {
            if rest == 0 {
                return None;
            }
            let file = match &path[r_len + 1] {
                PathPart::Normal(file) => file,
                _ => {
                    return None;
                },
            };
            let contents = match contents {
                Some(c) => c,
                None => {
                    return None;
                },
            };
            if *file == text("is_open") && *contents == text("1") {
                Some(TabAction::OpenTab(name.clone()))
            } else if *file == text("is_open") && *contents == text("0") {
                Some(TabAction::CloseTab(name.clone()))
            } else if *file == text("url") {
                Some(TabAction::ChangeTabUrl(name.clone(), contents.clone()))
            } else {
                None
            }
        },
        FsEventKind::Other => None,
    }
}

/// A path named in a watch notification, split into components, with the text of the
/// file there when it could be read.
#[derive(Debug, Clone)]
pub struct EventPath {
    pub parts: Vec<PathPart>,
    pub contents: Option<String>,
}

/// Whether `c` has the Unicode `White_Space` property.
pub open spec fn is_white_space(c: char) -> bool {
    ('\u{9}' <= c && c <= '\u{d}') || c == ' ' || c == '\u{85}' || c == '\u{a0}' || c == '\u{1680}'
        || ('\u{2000}' <= c && c <= '\u{200a}') || c == '\u{2028}' || c == '\u{2029}' || c == '\u{202f}'
        || c == '\u{205f}' || c == '\u{3000}'
}

/// The text without its leading white space.
pub open spec fn strip_start(s: Seq<char>) -> Seq<char>
    decreases s.len(),
{
    if s.len() > 0 && is_white_space(s[0]) {
        strip_start(s.drop_first())
    } else {
        s
    }
}

/// The text without its trailing white space.
pub open spec fn strip_end(s: Seq<char>) -> Seq<char>
    decreases s.len(),
{
    if s.len() > 0 && is_white_space(s.last()) {
        strip_end(s.drop_last())
    } else {
        s
    }
}

/// The text without its leading and trailing white space.
pub open spec fn trimmed(s: Seq<char>) -> Seq<char> {
    strip_end(strip_start(s))
}

/// Relies on `str::trim`: the text without its leading and trailing characters of the
/// Unicode `White_Space` property.
#[verifier::external_body]
fn trim(s: &String) -> (r: String)
    ensures
        r@ == trimmed(s@),
{
    s.trim().to_string()
}

/// The trimmed text of a file that could be read.
pub open spec fn trimmed_view(c: Option<String>) -> Option<Seq<char>> {
    match c {
        Some(s) => Some(trimmed(s@)),
        None => None,
    }
}

/// The actions that a notification of kind `kind` on `paths` stands for, one for each
/// path that stands for one, in order.
pub open spec fn event_actions(kind: FsEventKind, root: Seq<PathPart>, paths: Seq<EventPath>) -> Seq<
    TabActionView,
>
    decreases paths.len(),
{
    if paths.len() == 0 {
        Seq::empty()
    } else {
        let before = event_actions(kind, root, paths.drop_last());
        match path_action(kind, root, paths.last().parts@, trimmed_view(paths.last().contents)) {
            Some(a) => before.push(a),
            None => before,
        }
    }
}

/// Translates a watch notification into the actions it stands for; paths that stand for
/// none are skipped.
pub fn event_to_actions(kind: FsEventKind, root: &Vec<PathPart>, paths: &Vec<EventPath>) -> (r: Vec<
    TabAction,
>)
    ensures
        r@.map_values(|a: TabAction| a@) == event_actions(kind, root@, paths@),
{
    let n = paths.len();
    let mut out: Vec<TabAction> = Vec::new();
    let mut i: usize = 0;
    while i < n
        invariant
            n == paths@.len(),
            i <= n,
            out@.map_values(|a: TabAction| a@) == event_actions(kind, root@, paths@.subrange(0, i as int)),
        decreases n - i,
    {
        let p = &paths[i];
        assert(paths@.subrange(0, i + 1).drop_last() =~= paths@.subrange(0, i as int));
        let text = match &p.contents {
            Some(c) => Some(trim(c)),
            None => None,
        };
        let found = match &text {
            Some(t) => path_to_action(kind, root, &p.parts, Some(t)),
            None => path_to_action(kind, root, &p.parts, None),
        };
        match found {
            Some(a) => {
                let ghost prev = out@;
                out.push(a);
                assert(out@.map_values(|a: TabAction| a@) =~= prev.map_values(|a: TabAction| a@).push(a@));
            },
            None => {},
        }
        i = i + 1;
    }
    assert(paths@.subrange(0, n as int) =~= paths@);
    out
}

/// A change to the directory tree.
#[derive(Debug, Clone, PartialEq, Eq)]
pub enum FsOp {
    /// Create the tab directory unless it exists.
    CreateDir(String),
    /// Write a file of a tab directory: directory, file name, contents.
    WriteFile(String, String, String),
    /// Delete the tab directory with what it holds.
    RemoveDir(String),
}

/// What a change to the directory tree does, over plain sequences.
pub ghost enum FsOpView {
    CreateDir(Seq<char>),
    WriteFile(Seq<char>, Seq<char>, Seq<char>),
    RemoveDir(Seq<char>),
}

impl View for FsOp {
    type V = FsOpView;

    open spec fn view(&self) -> FsOpView {
        match self {
            FsOp::CreateDir(d) => FsOpView::CreateDir(d@),
            FsOp::WriteFile(d, f, c) => FsOpView::WriteFile(d@, f@, c@),
            FsOp::RemoveDir(d) => FsOpView::RemoveDir(d@),
        }
    }
}

/// The writes that mirror a keyed action into the directory tree.
pub open spec fn tab_writes(a: TabActionView) -> Seq<FsOpView> {
    match a {
        TabActionView::OpenTab(n) => seq![FsOpView::CreateDir(n), FsOpView::WriteFile(n, "is_open"@, "1"@)],
        TabActionView::CloseTab(n) => seq![FsOpView::CreateDir(n), FsOpView::WriteFile(n, "is_open"@, "0"@)],
        TabActionView::CreateTab(n) => seq![
            FsOpView::CreateDir(n),
            FsOpView::WriteFile(n, "is_open"@, "0"@),
            FsOpView::WriteFile(n, "url"@, Seq::empty()),
        ],
        TabActionView::RemoveTab(n) => seq![FsOpView::RemoveDir(n)],
        TabActionView::ChangeTabUrl(n, u) => seq![FsOpView::CreateDir(n), FsOpView::WriteFile(n, "url"@, u)],
    }
}

/// The writes that mirror a URL action into the directory tree, the URL naming the
/// directory: opening writes the URL and an open state of `1`, closing an open state
/// of `0`.
pub open spec fn url_writes(a: WorkspaceAction) -> Seq<FsOpView> {
    match a {
        WorkspaceAction::OpenTab(u) => seq![
            FsOpView::CreateDir(u@),
            FsOpView::WriteFile(u@, "url"@, u@),
            FsOpView::WriteFile(u@, "is_open"@, "1"@),
        ],
        WorkspaceAction::CloseTab(u) => seq![FsOpView::CreateDir(u@), FsOpView::WriteFile(u@, "is_open"@, "0"@)],
    }
}

/// The changes to the directory tree that carry out a keyed action.
pub fn tab_action_to_fs(action: &TabAction) -> (r: Vec<FsOp>)
    ensures
        r@.map_values(|o: FsOp| o@) == tab_writes(action@),
{
    let mut out: Vec<FsOp> = Vec::new();
    match action {
        TabAction::OpenTab(n) => {
            out.push(FsOp::CreateDir(n.clone()));
            out.push(FsOp::WriteFile(n.clone(), text("is_open"), text("1")));
        },
        TabAction::CloseTab(n) => {
            out.push(FsOp::CreateDir(n.clone()));
            out.push(FsOp::WriteFile(n.clone(), text("is_open"), text("0")));
        },
        TabAction::CreateTab(n) => {
            out.push(FsOp::CreateDir(n.clone()));
            out.push(FsOp::WriteFile(n.clone(), text("is_open"), text("0")));
            out.push(FsOp::WriteFile(n.clone(), text("url"), String::new()));
        },
        TabAction::RemoveTab(n) => {
            out.push(FsOp::RemoveDir(n.clone()));
        },
        TabAction::ChangeTabUrl(n, u) => {
            out.push(FsOp::CreateDir(n.clone()));
            out.push(FsOp::WriteFile(n.clone(), text("url"), u.clone()));
        },
    }
    assert(out@.map_values(|o: FsOp| o@) =~= tab_writes(action@));
    out
}

/// The changes to the directory tree that carry out a URL action.
pub fn action_to_fs(action: &WorkspaceAction) -> (r: Vec<FsOp>)
    ensures
        r@.map_values(|o: FsOp| o@) == url_writes(*action),
{
    let mut out: Vec<FsOp> = Vec::new();
    match action {
        WorkspaceAction::OpenTab(u) => {
            out.push(FsOp::CreateDir(u.clone()));
            out.push(FsOp::WriteFile(u.clone(), text("url"), u.clone()));
            out.push(FsOp::WriteFile(u.clone(), text("is_open"), text("1")));
        },
        WorkspaceAction::CloseTab(u) => {
            out.push(FsOp::CreateDir(u.clone()));
            out.push(FsOp::WriteFile(u.clone(), text("is_open"), text("0")));
        },
    }
    assert(out@.map_values(|o: FsOp| o@) =~= url_writes(*action));
    out
}

/// The URL action that a change read from the directory tree stands for, when
/// directories are named by URL: an `is_open` of `1` opens the URL, an `is_open` of `0`
/// or the removal of its directory closes it. Creating a directory or writing its `url`
/// file changes no URL's count, and stands for nothing.
pub fn url_action(action: &TabAction) -> (r: Option<WorkspaceAction>)
    ensures
        match action@ {
            TabActionView::OpenTab(n) => r matches Some(WorkspaceAction::OpenTab(u)) && u@ == n,
            TabActionView::CloseTab(n) => r matches Some(WorkspaceAction::CloseTab(u)) && u@ == n,
            TabActionView::RemoveTab(n) => r matches Some(WorkspaceAction::CloseTab(u)) && u@ == n,
            _ => r is None,
        },
{
    match action {
        TabAction::OpenTab(n) => Some(WorkspaceAction::OpenTab(n.clone())),
        TabAction::CloseTab(n) => Some(WorkspaceAction::CloseTab(n.clone())),
        TabAction::RemoveTab(n) => Some(WorkspaceAction::CloseTab(n.clone())),
        _ => None,
    }
}

/// The tab that a tab directory describes: its name, the contents of its `url` file as
/// the URL, and open exactly when its `is_open` file holds `1`.
pub fn tab_from_files(name: String, is_open: &String, url: String) -> (r: Tab)
    ensures
        r.name == name,
        r.url == url,
        r.is_open == (is_open@ == "1"@),
{
    proof {
        reveal_strlit("1");
    }
    let open = *is_open == text("1");
    Tab { name, url, is_open: open }
}

/// The names of the open tabs among `tabs`, in order.
pub open spec fn open_names(tabs: Seq<Tab>) -> Seq<Seq<char>>
    decreases tabs.len(),
{
    if tabs.len() == 0 {
        Seq::empty()
    } else if tabs.last().is_open {
        open_names(tabs.drop_last()).push(tabs.last().name@)
    } else {
        open_names(tabs.drop_last())
    }
}

/// The URL workspace that a tree of URL-named directories describes: the name of each
/// directory whose tab is open.
pub fn open_urls(tree: &TabWorkspace) -> (r: Workspace)
    ensures
        r@ == open_names(tree.tabs@),
{
    let n = tree.tabs.len();
    let mut urls: Vec<String> = Vec::new();
    let mut i: usize = 0;
    while i < n
        invariant
            n == tree.tabs@.len(),
            i <= n,
            urls@.map_values(|t: String| t@) == open_names(tree.tabs@.subrange(0, i as int)),
        decreases n - i,
    {
        assert(tree.tabs@.subrange(0, i + 1).drop_last() =~= tree.tabs@.subrange(0, i as int));
        if tree.tabs[i].is_open {
            let ghost prev = urls@;
            urls.push(tree.tabs[i].name.clone());
            assert(urls@.map_values(|t: String| t@) =~= prev.map_values(|t: String| t@).push(
                tree.tabs@[i as int].name@,
            ));
        }
        i = i + 1;
    }
    assert(tree.tabs@.subrange(0, n as int) =~= tree.tabs@);
    Workspace { tabs: urls }
}

} // verus!
