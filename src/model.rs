//! The URL-multiset workspace: tabs identified by URL, duplicates allowed.
use vstd::multiset::Multiset;
use vstd::prelude::*;

verus! {

broadcast use vstd::seq_lib::group_to_multiset_ensures;

/// A workspace: the tabs it tracks, as a multiset of URLs kept in a `Vec`.
#[derive(Debug, Clone)]
pub struct Workspace {
    pub tabs: Vec<String>,
}

/// A mutation of a URL-keyed workspace.
#[derive(Debug, Clone, PartialEq, Eq)]
pub enum WorkspaceAction {
    OpenTab(String),
    CloseTab(String),
}

impl View for Workspace {
    type V = Seq<Seq<char>>;

    open spec fn view(&self) -> Seq<Seq<char>> {
        self.tabs@.map_values(|t: String| t@)
    }
}

impl Workspace {
    /// The URLs of the workspace, counted with multiplicity.
    pub open spec fn urls(&self) -> Multiset<Seq<char>> {
        self@.to_multiset()
    }
}

impl WorkspaceAction {
    /// The URL the action touches.
    pub open spec fn url(&self) -> Seq<char> {
        match self {
            WorkspaceAction::OpenTab(u) => u@,
            WorkspaceAction::CloseTab(u) => u@,
        }
    }

    pub open spec fn is_open(&self) -> bool {
        self is OpenTab
    }

    /// A copy of the action.
    pub fn duplicate(&self) -> (r: WorkspaceAction)
        ensures
            r == *self,
    {
        match self {
            WorkspaceAction::OpenTab(u) => WorkspaceAction::OpenTab(u.clone()),
            WorkspaceAction::CloseTab(u) => WorkspaceAction::CloseTab(u.clone()),
        }
    }
}

/// What one action does to a multiset of URLs.
pub open spec fn apply_to(m: Multiset<Seq<char>>, a: WorkspaceAction) -> Multiset<Seq<char>> {
    match a {
        WorkspaceAction::OpenTab(u) => m.insert(u@),
        WorkspaceAction::CloseTab(u) => m.remove(u@),
    }
}

/// What a sequence of actions, applied in order, does to a multiset of URLs.
pub open spec fn apply_all(m: Multiset<Seq<char>>, acts: Seq<WorkspaceAction>) -> Multiset<Seq<char>>
    decreases acts.len(),
{
    if acts.len() == 0 {
        m
    } else {
        apply_to(apply_all(m, acts.drop_last()), acts.last())
    }
}

/// The URLs that the `OpenTab` actions of `acts` name, with multiplicity.
pub open spec fn opened(acts: Seq<WorkspaceAction>) -> Multiset<Seq<char>>
    decreases acts.len(),
{
    if acts.len() == 0 {
        Multiset::empty()
    } else if acts.last().is_open() {
        opened(acts.drop_last()).insert(acts.last().url())
    } else {
        opened(acts.drop_last())
    }
}

/// The URLs that the `CloseTab` actions of `acts` name, with multiplicity.
pub open spec fn closed(acts: Seq<WorkspaceAction>) -> Multiset<Seq<char>>
    decreases acts.len(),
{
    if acts.len() == 0 {
        Multiset::empty()
    } else if !acts.last().is_open() {
        closed(acts.drop_last()).insert(acts.last().url())
    } else {
        closed(acts.drop_last())
    }
}

/// `acts` is a corrective sequence from `current` to `target`: one `OpenTab` for each
/// occurrence that `target` has beyond `current`, one `CloseTab` for each occurrence that
/// `current` has beyond `target`, and nothing else.
pub open spec fn is_diff(
    current: Multiset<Seq<char>>,
    target: Multiset<Seq<char>>,
    acts: Seq<WorkspaceAction>,
) -> bool {
    &&& opened(acts) == target.sub(current)
    &&& closed(acts) == current.sub(target)
}

/// `new` is `old` with its first occurrence of `url` taken out, or `old` itself when
/// `url` does not occur.
pub open spec fn without_first(old: Seq<Seq<char>>, new: Seq<Seq<char>>, url: Seq<char>) -> bool {
    if old.contains(url) {
        exists|i: int|
            0 <= i < old.len() && old[i] == url && (forall|j: int| 0 <= j < i ==> old[j] != url)
                && new == old.remove(i)
    } else {
        new == old
    }
}

/// Applying, in order, actions that never both open and close one URL, and that close
/// no URL more often than `m` holds it, adds each opened occurrence to `m` and takes
/// out each closed one.
pub proof fn lemma_apply_all_counts(m: Multiset<Seq<char>>, acts: Seq<WorkspaceAction>)
    requires
        forall|u: Seq<char>| opened(acts).count(u) == 0 || closed(acts).count(u) == 0,
        forall|u: Seq<char>| closed(acts).count(u) <= m.count(u),
    ensures
        forall|u: Seq<char>|
            #[trigger] apply_all(m, acts).count(u) == m.count(u) + opened(acts).count(u)
                - closed(acts).count(u),
    decreases acts.len(),
{
    if acts.len() > 0 {
        let p = acts.drop_last();
        let a = acts.last();
        assert forall|u: Seq<char>|
            opened(p).count(u) <= opened(acts).count(u) && closed(p).count(u) <= closed(
                acts,
            ).count(u) by {}
        lemma_apply_all_counts(m, p);
        let before = apply_all(m, p);
        assert(apply_all(m, acts) == apply_to(before, a));
        assert forall|u: Seq<char>|
            #[trigger] apply_all(m, acts).count(u) == m.count(u) + opened(acts).count(u)
                - closed(acts).count(u) by {
            if a.is_open() {
                assert(opened(acts) == opened(p).insert(a.url()));
                assert(closed(acts) == closed(p));
            } else {
                assert(opened(acts) == opened(p));
                assert(closed(acts) == closed(p).insert(a.url()));
                if u == a.url() {
                    assert(before.count(u) > 0);
                }
            }
        }
    }
}

/// Convergence: applying to `current` any corrective sequence from `current` to
/// `target` (as `actions_from_diff` returns) yields exactly the URLs of `target`.
pub proof fn lemma_diff_converges(
    current: Multiset<Seq<char>>,
    target: Multiset<Seq<char>>,
    acts: Seq<WorkspaceAction>,
)
    requires
        is_diff(current, target, acts),
    ensures
        apply_all(current, acts) == target,
{
    lemma_apply_all_counts(current, acts);
    assert(apply_all(current, acts) =~= target);
}

/// Closing a URL that the workspace does not hold leaves it unchanged.
pub proof fn lemma_close_absent_is_noop(m: Multiset<Seq<char>>, url: String)
    requires
        m.count(url@) == 0,
    ensures
        apply_to(m, WorkspaceAction::CloseTab(url)) == m,
{
    assert(m.remove(url@) =~= m);
}

impl Workspace {
    /// An empty workspace.
    pub fn new() -> (w: Workspace)
        ensures
            w@ == Seq::<Seq<char>>::empty(),
    {
        Workspace { tabs: Vec::new() }
    }

    /// How often `url` occurs among the first `upto` tabs.
    fn count_before(&self, upto: usize, url: &String) -> (n: usize)
        requires
            upto <= self@.len(),
        ensures
            n == self@.subrange(0, upto as int).to_multiset().count(url@),
    {
        let mut n: usize = 0;
        let mut k: usize = 0;
        while k < upto
            invariant
                upto <= self@.len(),
                k <= upto,
                n <= k,
                n == self@.subrange(0, k as int).to_multiset().count(url@),
            decreases upto - k,
        {
            assert(self@.subrange(0, k + 1) =~= self@.subrange(0, k as int).push(self@[k as int]));
            if self.tabs[k] == *url {
                n = n + 1;
            }
            k = k + 1;
        }
        n
    }

    /// The actions that turn this workspace into `workspace`: an `OpenTab` for each
    /// occurrence of a URL that `workspace` has beyond this one, then a `CloseTab` for
    /// each occurrence that this one has beyond `workspace`.
    pub fn actions_from_diff(&self, workspace: Workspace) -> (r: Vec<WorkspaceAction>)
        ensures
            is_diff(self.urls(), workspace.urls(), r@),
            forall|i: int, j: int|
                0 <= i < j < r@.len() && r@[j].is_open() ==> r@[i].is_open(),
            self.urls() == workspace.urls() ==> r@.len() == 0,
    {
        let mut actions: Vec<WorkspaceAction> = Vec::new();
        let n = workspace.tabs.len();
        let m = self.tabs.len();
        assert(self@.subrange(0, m as int) =~= self@);
        assert(workspace@.subrange(0, n as int) =~= workspace@);
        assert(workspace@.subrange(0, 0) =~= Seq::<Seq<char>>::empty());
        assert(self@.subrange(0, 0) =~= Seq::<Seq<char>>::empty());
        assert(Seq::<Seq<char>>::empty().to_multiset().sub(self.urls()) =~= Multiset::empty());
        let mut i: usize = 0;
        while i < n
            invariant
                n == workspace@.len(),
                m == self@.len(),
                i <= n,
                self@.subrange(0, m as int) == self@,
                opened(actions@) == workspace@.subrange(0, i as int).to_multiset().sub(self.urls()),
                closed(actions@) == Multiset::<Seq<char>>::empty(),
                forall|k: int| 0 <= k < actions@.len() ==> actions@[k].is_open(),
            decreases n - i,
        {
            let url = &workspace.tabs[i];
            let earlier = workspace.count_before(i, url);
            let here = self.count_before(m, url);
            let ghost before = workspace@.subrange(0, i as int).to_multiset();
            assert(workspace@.subrange(0, i + 1) =~= workspace@.subrange(0, i as int).push(url@));
            if earlier >= here {
                let ghost prev = actions@;
                actions.push(WorkspaceAction::OpenTab(url.clone()));
                assert(actions@.drop_last() =~= prev);
                assert(before.insert(url@).sub(self.urls()) =~= before.sub(self.urls()).insert(url@));
            } else {
                assert(before.insert(url@).sub(self.urls()) =~= before.sub(self.urls()));
            }
            i = i + 1;
        }
        let opens = actions.len();
        assert(self@.subrange(0, 0) =~= Seq::<Seq<char>>::empty());
        assert(Seq::<Seq<char>>::empty().to_multiset().sub(workspace.urls()) =~= Multiset::empty());
        let mut j: usize = 0;
        while j < m
            invariant
                n == workspace@.len(),
                m == self@.len(),
                j <= m,
                opens <= actions@.len(),
                workspace@.subrange(0, n as int) == workspace@,
                opened(actions@) == workspace.urls().sub(self.urls()),
                closed(actions@) == self@.subrange(0, j as int).to_multiset().sub(workspace.urls()),
                forall|k: int| 0 <= k < opens ==> actions@[k].is_open(),
                forall|k: int| opens <= k < actions@.len() ==> !actions@[k].is_open(),
            decreases m - j,
        {
            let url = &self.tabs[j];
            let earlier = self.count_before(j, url);
            let here = workspace.count_before(n, url);
            let ghost before = self@.subrange(0, j as int).to_multiset();
            assert(self@.subrange(0, j + 1) =~= self@.subrange(0, j as int).push(url@));
            if earlier >= here {
                let ghost prev = actions@;
                actions.push(WorkspaceAction::CloseTab(url.clone()));
                assert(actions@.drop_last() =~= prev);
                assert(before.insert(url@).sub(workspace.urls()) =~= before.sub(workspace.urls()).insert(url@));
            } else {
                assert(before.insert(url@).sub(workspace.urls()) =~= before.sub(workspace.urls()));
            }
            j = j + 1;
        }
        proof {
            if self.urls() == workspace.urls() && actions@.len() > 0 {
                let last = actions@.last();
                assert(self.urls().sub(workspace.urls()) =~= Multiset::empty());
                if last.is_open() {
                    assert(opened(actions@).count(last.url()) > 0);
                } else {
                    assert(closed(actions@).count(last.url()) > 0);
                }
            }
        }
        actions
    }

    /// Applies one action: `OpenTab` appends its URL, `CloseTab` removes the first
    /// occurrence of its URL and does nothing when there is none.
    pub fn apply_action(&mut self, action: WorkspaceAction)
        ensures
            final(self).urls() == apply_to(old(self).urls(), action),
            match action {
                WorkspaceAction::OpenTab(u) => final(self)@ == old(self)@.push(u@),
                WorkspaceAction::CloseTab(u) => without_first(old(self)@, final(self)@, u@),
            },
    {
        match action {
            WorkspaceAction::OpenTab(url) => {
                self.tabs.push(url);
                assert(self@ =~= old(self)@.push(url@));
            },
            WorkspaceAction::CloseTab(url) => {
                let n = self.tabs.len();
                let mut i: usize = 0;
                while i < n && self.tabs[i] != url
                    invariant
                        n == self.tabs.len(),
                        i <= n,
                        forall|j: int| 0 <= j < i ==> self@[j] != url@,
                    decreases n - i,
                {
                    i = i + 1;
                }
                if i < n {
                    let ghost before = self@;
                    self.tabs.remove(i);
                    assert(self@ =~= before.remove(i as int));
                    assert(before[i as int] == url@);
                    assert(before.remove(i as int).to_multiset() == before.to_multiset().remove(url@));
                } else {
                    assert(!self@.contains(url@));
                    assert(self.urls().remove(url@) =~= self.urls());
                }
            },
        }
    }
}

} // verus!
