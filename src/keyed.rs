//! The name-keyed workspace: each tab has a stable name, a URL and an open state.
use vstd::prelude::*;

verus! {

/// A tab of the keyed workspace.
#[derive(Debug, Clone)]
pub struct Tab {
    pub name: String,
    pub url: String,
    pub is_open: bool,
}

/// A workspace whose tabs are told apart by name.
#[derive(Debug, Clone)]
pub struct TabWorkspace {
    pub tabs: Vec<Tab>,
}

/// A mutation of a keyed workspace; each touches the one tab it names.
#[derive(Debug, Clone, PartialEq, Eq)]
pub enum TabAction {
    OpenTab(String),
    CloseTab(String),
    CreateTab(String),
    RemoveTab(String),
    ChangeTabUrl(String, String),
}

/// What one action does to the tabs, as a map from name to URL and open state.
pub open spec fn apply_tab(
    m: Map<Seq<char>, (Seq<char>, bool)>,
    a: TabAction,
) -> Map<Seq<char>, (Seq<char>, bool)> {
    match a {
        TabAction::OpenTab(n) => if m.contains_key(n@) {
            m.insert(n@, (m[n@].0, true))
        } else {
            m
        },
        TabAction::CloseTab(n) => if m.contains_key(n@) {
            m.insert(n@, (m[n@].0, false))
        } else {
            m
        },
        TabAction::CreateTab(n) => m.insert(n@, (Seq::empty(), false)),
        TabAction::RemoveTab(n) => m.remove(n@),
        TabAction::ChangeTabUrl(n, u) => if m.contains_key(n@) {
            m.insert(n@, (u@, m[n@].1))
        } else {
            m
        },
    }
}

/// What a sequence of actions, applied in order, does to the tabs.
pub open spec fn apply_tabs(
    m: Map<Seq<char>, (Seq<char>, bool)>,
    acts: Seq<TabAction>,
) -> Map<Seq<char>, (Seq<char>, bool)>
    decreases acts.len(),
{
    if acts.len() == 0 {
        m
    } else {
        apply_tab(apply_tabs(m, acts.drop_last()), acts.last())
    }
}

/// What a keyed action says, over plain sequences.
pub ghost enum TabActionView {
    OpenTab(Seq<char>),
    CloseTab(Seq<char>),
    CreateTab(Seq<char>),
    RemoveTab(Seq<char>),
    ChangeTabUrl(Seq<char>, Seq<char>),
}

impl View for TabAction {
    type V = TabActionView;

    open spec fn view(&self) -> TabActionView {
        match self {
            TabAction::OpenTab(n) => TabActionView::OpenTab(n@),
            TabAction::CloseTab(n) => TabActionView::CloseTab(n@),
            TabAction::CreateTab(n) => TabActionView::CreateTab(n@),
            TabAction::RemoveTab(n) => TabActionView::RemoveTab(n@),
            TabAction::ChangeTabUrl(n, u) => TabActionView::ChangeTabUrl(n@, u@),
        }
    }
}

/// Removing or closing a tab that the workspace does not have leaves it unchanged.
pub proof fn lemma_absent_is_noop(m: Map<Seq<char>, (Seq<char>, bool)>, name: String)
    requires
        !m.contains_key(name@),
    ensures
        apply_tab(m, TabAction::RemoveTab(name)) == m,
        apply_tab(m, TabAction::CloseTab(name)) == m,
{
    assert(m.remove(name@) =~= m);
}

/// Whether one of the first `upto` tabs is named `n`.
pub open spec fn named_before(tabs: Seq<Tab>, upto: int, n: Seq<char>) -> bool {
    exists|k: int| 0 <= k < upto && (#[trigger] tabs[k]).name@ == n
}

/// The views of a sequence of actions.
pub open spec fn views(acts: Seq<TabAction>) -> Seq<TabActionView> {
    acts.map_values(|a: TabAction| a@)
}

/// The tab an action names.
pub open spec fn name_of(a: TabActionView) -> Seq<char> {
    match a {
        TabActionView::OpenTab(n) => n,
        TabActionView::CloseTab(n) => n,
        TabActionView::CreateTab(n) => n,
        TabActionView::RemoveTab(n) => n,
        TabActionView::ChangeTabUrl(n, _) => n,
    }
}

/// Whether the diff from `cur` to `target` holds the action `a`.
pub open spec fn expected(
    cur: Map<Seq<char>, (Seq<char>, bool)>,
    target: Map<Seq<char>, (Seq<char>, bool)>,
    a: TabActionView,
) -> bool {
    match a {
        TabActionView::CreateTab(n) => target.contains_key(n) && !cur.contains_key(n),
        TabActionView::RemoveTab(n) => cur.contains_key(n) && !target.contains_key(n),
        TabActionView::ChangeTabUrl(n, u) => cur.contains_key(n) && target.contains_key(n)
            && cur[n].0 != target[n].0 && u == target[n].0,
        TabActionView::OpenTab(n) => cur.contains_key(n) && target.contains_key(n) && !cur[n].1
            && target[n].1,
        TabActionView::CloseTab(n) => cur.contains_key(n) && target.contains_key(n) && cur[n].1
            && !target[n].1,
    }
}

proof fn lemma_pushed(base: Map<Seq<char>, (Seq<char>, bool)>, prev: Seq<TabAction>, a: TabAction)
    ensures
        apply_tabs(base, prev.push(a)) == apply_tab(apply_tabs(base, prev), a),
        views(prev.push(a)) == views(prev).push(a@),
        forall|b: TabActionView| #[trigger] views(prev.push(a)).contains(b) <==> (views(prev).contains(b) || b == a@),
        views(prev).no_duplicates() && !views(prev).contains(a@) ==> views(prev.push(a)).no_duplicates(),
{
    assert(prev.push(a).drop_last() =~= prev);
    assert(views(prev.push(a)) =~= views(prev).push(a@));
    let v = views(prev);
    assert forall|b: TabActionView| #[trigger] v.push(a@).contains(b) <==> (v.contains(b) || b == a@) by {
        if v.contains(b) {
            let k = choose|k: int| 0 <= k < v.len() && v[k] == b;
            assert(v.push(a@)[k] == b);
        }
        if b == a@ {
            assert(v.push(a@)[v.len() as int] == b);
        }
    }
    if v.no_duplicates() && !v.contains(a@) {
        assert forall|x: int, y: int| 0 <= x < v.len() + 1 && 0 <= y < v.len() + 1 && x != y implies v.push(a@)[x] != v.push(a@)[y] by {
            if x == v.len() {
                assert(v[y] == v.push(a@)[y]);
            } else if y == v.len() {
                assert(v[x] == v.push(a@)[x]);
            }
        }
    }
}

proof fn lemma_named_before_next(tabs: Seq<Tab>, i: int)
    requires
        0 <= i < tabs.len(),
    ensures
        forall|k: Seq<char>| #[trigger] named_before(tabs, i + 1, k) <==> (named_before(tabs, i, k) || k == tabs[i].name@),
{
    assert forall|k: Seq<char>| #[trigger] named_before(tabs, i + 1, k) <==> (named_before(tabs, i, k) || k == tabs[i].name@) by {
        if named_before(tabs, i + 1, k) && k != tabs[i].name@ {
            let j = choose|j: int| 0 <= j < i + 1 && (#[trigger] tabs[j]).name@ == k;
            assert(named_before(tabs, i, k));
        }
        if k == tabs[i].name@ {
            assert(tabs[i].name@ == k);
        }
    }
}

impl View for TabWorkspace {
    type V = Map<Seq<char>, (Seq<char>, bool)>;

    /// Each name mapped to its tab's URL and open state.
    open spec fn view(&self) -> Map<Seq<char>, (Seq<char>, bool)> {
        Map::new(
            |n: Seq<char>| named_before(self.tabs@, self.tabs@.len() as int, n),
            |n: Seq<char>|
                {
                    let k = choose|k: int|
                        0 <= k < self.tabs@.len() && (#[trigger] self.tabs@[k]).name@ == n;
                    (self.tabs@[k].url@, self.tabs@[k].is_open)
                },
        )
    }
}

impl TabWorkspace {
    /// No two tabs share a name.
    pub open spec fn wf(&self) -> bool {
        forall|i: int, j: int|
            0 <= i < j < self.tabs@.len() ==> (#[trigger] self.tabs@[i]).name@
                != (#[trigger] self.tabs@[j]).name@
    }

    proof fn lemma_view_at(&self, i: int)
        requires
            self.wf(),
            0 <= i < self.tabs@.len(),
        ensures
            self@.contains_key(self.tabs@[i].name@),
            self@[self.tabs@[i].name@] == (self.tabs@[i].url@, self.tabs@[i].is_open),
    {
        let n = self.tabs@[i].name@;
        assert(named_before(self.tabs@, self.tabs@.len() as int, n));
        let k = choose|k: int| 0 <= k < self.tabs@.len() && (#[trigger] self.tabs@[k]).name@ == n;
        if k != i {
            if k < i {
                assert(self.tabs@[k].name@ != self.tabs@[i].name@);
            } else {
                assert(self.tabs@[i].name@ != self.tabs@[k].name@);
            }
        }
    }

    proof fn lemma_replace(old: TabWorkspace, new: TabWorkspace, i: int)
        requires
            old.wf(),
            0 <= i < old.tabs@.len(),
            new.tabs@.len() == old.tabs@.len(),
            new.tabs@[i].name@ == old.tabs@[i].name@,
            forall|j: int| 0 <= j < old.tabs@.len() && j != i ==> new.tabs@[j] == old.tabs@[j],
        ensures
            new.wf(),
            new@ == old@.insert(old.tabs@[i].name@, (new.tabs@[i].url@, new.tabs@[i].is_open)),
    {
        assert forall|a: int, b: int|
            0 <= a < b < new.tabs@.len() implies (#[trigger] new.tabs@[a]).name@
                != (#[trigger] new.tabs@[b]).name@ by {
            assert(old.tabs@[a].name@ != old.tabs@[b].name@);
        }
        let target = old@.insert(old.tabs@[i].name@, (new.tabs@[i].url@, new.tabs@[i].is_open));
        assert forall|n: Seq<char>| new@.contains_key(n) <==> target.contains_key(n) by {
            if new@.contains_key(n) {
                let k = choose|k: int| 0 <= k < new.tabs@.len() && (#[trigger] new.tabs@[k]).name@ == n;
                if k != i {
                    old.lemma_view_at(k);
                }
            }
            if old@.contains_key(n) {
                let k = choose|k: int| 0 <= k < old.tabs@.len() && (#[trigger] old.tabs@[k]).name@ == n;
                if k != i {
                    new.lemma_view_at(k);
                } else {
                    new.lemma_view_at(i);
                }
            }
            new.lemma_view_at(i);
        }
        assert forall|n: Seq<char>| new@.contains_key(n) implies new@[n] == target[n] by {
            let k = choose|k: int| 0 <= k < new.tabs@.len() && (#[trigger] new.tabs@[k]).name@ == n;
            new.lemma_view_at(k);
            if k != i {
                old.lemma_view_at(k);
            }
        }
        assert(new@ =~= target);
    }

    proof fn lemma_remove(old: TabWorkspace, new: TabWorkspace, i: int)
        requires
            old.wf(),
            0 <= i < old.tabs@.len(),
            new.tabs@ == old.tabs@.remove(i),
        ensures
            new.wf(),
            new@ == old@.remove(old.tabs@[i].name@),
    {
        let gone = old.tabs@[i].name@;
        assert forall|a: int, b: int|
            0 <= a < b < new.tabs@.len() implies (#[trigger] new.tabs@[a]).name@
                != (#[trigger] new.tabs@[b]).name@ by {
            let oa = if a < i { a } else { a + 1 };
            let ob = if b < i { b } else { b + 1 };
            assert(new.tabs@[a] == old.tabs@[oa]);
            assert(new.tabs@[b] == old.tabs@[ob]);
            assert(old.tabs@[oa].name@ != old.tabs@[ob].name@);
        }
        let target = old@.remove(gone);
        assert forall|n: Seq<char>| new@.contains_key(n) <==> target.contains_key(n) by {
            if new@.contains_key(n) {
                let k = choose|k: int| 0 <= k < new.tabs@.len() && (#[trigger] new.tabs@[k]).name@ == n;
                let ok = if k < i { k } else { k + 1 };
                assert(new.tabs@[k] == old.tabs@[ok]);
                old.lemma_view_at(ok);
                assert(old.tabs@[ok].name@ != old.tabs@[i].name@);
            }
            if target.contains_key(n) {
                let k = choose|k: int| 0 <= k < old.tabs@.len() && (#[trigger] old.tabs@[k]).name@ == n;
                assert(k != i);
                let nk = if k < i { k } else { k - 1 };
                assert(new.tabs@[nk] == old.tabs@[k]);
                new.lemma_view_at(nk);
            }
        }
        assert forall|n: Seq<char>| new@.contains_key(n) implies new@[n] == target[n] by {
            let k = choose|k: int| 0 <= k < new.tabs@.len() && (#[trigger] new.tabs@[k]).name@ == n;
            let ok = if k < i { k } else { k + 1 };
            assert(new.tabs@[k] == old.tabs@[ok]);
            new.lemma_view_at(k);
            old.lemma_view_at(ok);
        }
        assert(new@ =~= target);
    }

    proof fn lemma_push(old: TabWorkspace, new: TabWorkspace, t: Tab)
        requires
            old.wf(),
            !old@.contains_key(t.name@),
            new.tabs@ == old.tabs@.push(t),
        ensures
            new.wf(),
            new@ == old@.insert(t.name@, (t.url@, t.is_open)),
    {
        let last = old.tabs@.len() as int;
        assert forall|a: int, b: int|
            0 <= a < b < new.tabs@.len() implies (#[trigger] new.tabs@[a]).name@
                != (#[trigger] new.tabs@[b]).name@ by {
            if b == last {
                assert(old.tabs@[a].name@ != t.name@) by {
                    if old.tabs@[a].name@ == t.name@ {
                        assert(named_before(old.tabs@, last, t.name@));
                    }
                }
            } else {
                assert(old.tabs@[a].name@ != old.tabs@[b].name@);
            }
        }
        let target = old@.insert(t.name@, (t.url@, t.is_open));
        assert forall|n: Seq<char>| new@.contains_key(n) <==> target.contains_key(n) by {
            if new@.contains_key(n) {
                let k = choose|k: int| 0 <= k < new.tabs@.len() && (#[trigger] new.tabs@[k]).name@ == n;
                if k < last {
                    old.lemma_view_at(k);
                }
            }
            if old@.contains_key(n) {
                let k = choose|k: int| 0 <= k < old.tabs@.len() && (#[trigger] old.tabs@[k]).name@ == n;
                new.lemma_view_at(k);
            }
            new.lemma_view_at(last);
        }
        assert forall|n: Seq<char>| new@.contains_key(n) implies new@[n] == target[n] by {
            let k = choose|k: int| 0 <= k < new.tabs@.len() && (#[trigger] new.tabs@[k]).name@ == n;
            new.lemma_view_at(k);
            if k < last {
                old.lemma_view_at(k);
            }
        }
        assert(new@ =~= target);
    }

    /// An empty keyed workspace.
    pub fn new() -> (w: TabWorkspace)
        ensures
            w.wf(),
            w@ == Map::<Seq<char>, (Seq<char>, bool)>::empty(),
    {
        let w = TabWorkspace { tabs: Vec::new() };
        assert(w@ =~= Map::<Seq<char>, (Seq<char>, bool)>::empty());
        w
    }

    /// Applies one action: `OpenTab`, `CloseTab` and `ChangeTabUrl` set the open state
    /// or the URL of the named tab, `CreateTab` makes the named tab a closed one with an
    /// empty URL (replacing a tab of that name), `RemoveTab` deletes it. An action that
    /// names no tab of the workspace, but `CreateTab`, leaves it unchanged.
    pub fn apply_action(&mut self, action: TabAction)
        requires
            old(self).wf(),
        ensures
            final(self).wf(),
            final(self)@ == apply_tab(old(self)@, action),
    {
        let ghost start = *self;
        match action {
            TabAction::OpenTab(name) => {
                if let Some(i) = self.find(&name) {
                    self.tabs[i].is_open = true;
                    proof {
                        start.lemma_view_at(i as int);
                        TabWorkspace::lemma_replace(start, *self, i as int);
                    }
                }
            },
            TabAction::CloseTab(name) => {
                if let Some(i) = self.find(&name) {
                    self.tabs[i].is_open = false;
                    proof {
                        start.lemma_view_at(i as int);
                        TabWorkspace::lemma_replace(start, *self, i as int);
                    }
                }
            },
            TabAction::ChangeTabUrl(name, url) => {
                if let Some(i) = self.find(&name) {
                    self.tabs[i].url = url;
                    proof {
                        start.lemma_view_at(i as int);
                        TabWorkspace::lemma_replace(start, *self, i as int);
                    }
                }
            },
            TabAction::CreateTab(name) => {
                match self.find(&name) {
                    Some(i) => {
                        self.tabs[i].url = String::new();
                        self.tabs[i].is_open = false;
                        proof {
                            TabWorkspace::lemma_replace(start, *self, i as int);
                        }
                    },
                    None => {
                        let t = Tab { name, url: String::new(), is_open: false };
                        self.tabs.push(t);
                        proof {
                            TabWorkspace::lemma_push(start, *self, t);
                        }
                    },
                }
            },
            TabAction::RemoveTab(name) => {
                if let Some(i) = self.find(&name) {
                    self.tabs.remove(i);
                    proof {
                        TabWorkspace::lemma_remove(start, *self, i as int);
                    }
                } else {
                    assert(self@.remove(name@) =~= self@);
                }
            },
        }
    }

    /// The actions that take this workspace towards `workspace`, by name: `CreateTab`
    /// for each name only `workspace` has, `RemoveTab` for each name only this one has,
    /// and for each name both have, `ChangeTabUrl` to the target URL where the URLs
    /// differ and `OpenTab` or `CloseTab` where the open states differ. Nothing else,
    /// and nothing twice.
    pub fn actions_from_diff(&self, workspace: TabWorkspace) -> (r: Vec<TabAction>)
        requires
            self.wf(),
            workspace.wf(),
        ensures
            views(r@).no_duplicates(),
            forall|n: Seq<char>|
                #[trigger] views(r@).contains(TabActionView::CreateTab(n)) <==> (
                workspace@.contains_key(n) && !self@.contains_key(n)),
            forall|n: Seq<char>|
                #[trigger] views(r@).contains(TabActionView::RemoveTab(n)) <==> (
                self@.contains_key(n) && !workspace@.contains_key(n)),
            forall|n: Seq<char>, u: Seq<char>|
                #[trigger] views(r@).contains(TabActionView::ChangeTabUrl(n, u)) <==> (
                self@.contains_key(n) && workspace@.contains_key(n) && self@[n].0 != workspace@[n].0
                    && u == workspace@[n].0),
            forall|n: Seq<char>|
                #[trigger] views(r@).contains(TabActionView::OpenTab(n)) <==> (self@.contains_key(n)
                    && workspace@.contains_key(n) && !self@[n].1 && workspace@[n].1),
            forall|n: Seq<char>|
                #[trigger] views(r@).contains(TabActionView::CloseTab(n)) <==> (self@.contains_key(n)
                    && workspace@.contains_key(n) && self@[n].1 && !workspace@[n].1),
            apply_tabs(self@, r@).dom() == workspace@.dom(),
            forall|n: Seq<char>|
                self@.contains_key(n) && workspace@.contains_key(n) ==> #[trigger] apply_tabs(
                    self@,
                    r@,
                )[n] == workspace@[n],
            forall|n: Seq<char>|
                !self@.contains_key(n) && workspace@.contains_key(n) ==> #[trigger] apply_tabs(
                    self@,
                    r@,
                )[n] == (Seq::<char>::empty(), false),
            self@ == workspace@ ==> r@.len() == 0,
    {
        let ghost sm = self@;
        let ghost wm = workspace@;
        let mut acts: Vec<TabAction> = Vec::new();
        let ghost mut m = self@;
        assert(views(acts@) =~= Seq::<TabActionView>::empty());
        let n = workspace.tabs.len();
        let mut i: usize = 0;
        while i < n
            invariant
                self.wf(),
                workspace.wf(),
                sm == self@,
                wm == workspace@,
                n == workspace.tabs@.len(),
                i <= n,
                apply_tabs(sm, acts@) == m,
                forall|k: Seq<char>|
                    #[trigger] m.contains_key(k) <==> sm.contains_key(k) || named_before(
                        workspace.tabs@,
                        i as int,
                        k,
                    ),
                forall|k: Seq<char>|
                    named_before(workspace.tabs@, i as int, k) ==> #[trigger] m[k] == (if sm.contains_key(
                        k,
                    ) {
                        wm[k]
                    } else {
                        (Seq::<char>::empty(), false)
                    }),
                forall|k: Seq<char>|
                    !named_before(workspace.tabs@, i as int, k) && sm.contains_key(k) ==> #[trigger] m[k]
                        == sm[k],
                views(acts@).no_duplicates(),
                forall|a: TabActionView|
                    #[trigger] views(acts@).contains(a) <==> (expected(sm, wm, a) && !(a is RemoveTab)
                        && named_before(workspace.tabs@, i as int, name_of(a))),
            decreases n - i,
        {
            let t = &workspace.tabs[i];
            let ghost nm = t.name@;
            proof {
                workspace.lemma_view_at(i as int);
                workspace.lemma_not_named_before(i as int);
                lemma_named_before_next(workspace.tabs@, i as int);
            }
            match self.find(&t.name) {
                None => {
                    let a = TabAction::CreateTab(t.name.clone());
                    proof {
                        lemma_pushed(sm, acts@, a);
                    }
                    acts.push(a);
                    proof {
                        m = apply_tab(m, a);
                    }
                },
                Some(j) => {
                    let s = &self.tabs[j];
                    proof {
                        self.lemma_view_at(j as int);
                    }
                    if s.url != t.url {
                        let a = TabAction::ChangeTabUrl(t.name.clone(), t.url.clone());
                        proof {
                            lemma_pushed(sm, acts@, a);
                        }
                        acts.push(a);
                        proof {
                            m = apply_tab(m, a);
                        }
                    }
                    if s.is_open != t.is_open {
                        let a = if t.is_open {
                            TabAction::OpenTab(t.name.clone())
                        } else {
                            TabAction::CloseTab(t.name.clone())
                        };
                        proof {
                            lemma_pushed(sm, acts@, a);
                        }
                        acts.push(a);
                        proof {
                            m = apply_tab(m, a);
                        }
                    }
                },
            }
            i = i + 1;
        }
        let c = self.tabs.len();
        let mut j: usize = 0;
        while j < c
            invariant
                self.wf(),
                workspace.wf(),
                sm == self@,
                wm == workspace@,
                c == self.tabs@.len(),
                j <= c,
                apply_tabs(sm, acts@) == m,
                forall|k: Seq<char>|
                    #[trigger] m.contains_key(k) <==> wm.contains_key(k) || (sm.contains_key(k)
                        && !named_before(self.tabs@, j as int, k)),
                forall|k: Seq<char>|
                    wm.contains_key(k) ==> #[trigger] m[k] == (if sm.contains_key(k) {
                        wm[k]
                    } else {
                        (Seq::<char>::empty(), false)
                    }),
                views(acts@).no_duplicates(),
                forall|a: TabActionView|
                    #[trigger] views(acts@).contains(a) <==> (expected(sm, wm, a) && (a is RemoveTab
                        ==> named_before(self.tabs@, j as int, name_of(a)))),
            decreases c - j,
        {
            let s = &self.tabs[j];
            proof {
                self.lemma_view_at(j as int);
                self.lemma_not_named_before(j as int);
                lemma_named_before_next(self.tabs@, j as int);
            }
            if workspace.find(&s.name).is_none() {
                let a = TabAction::RemoveTab(s.name.clone());
                proof {
                    lemma_pushed(sm, acts@, a);
                }
                acts.push(a);
                proof {
                    m = apply_tab(m, a);
                }
            }
            j = j + 1;
        }
        proof {
            assert forall|k: Seq<char>| sm.contains_key(k) implies named_before(
                self.tabs@,
                c as int,
                k,
            ) by {}
            assert(m.dom() =~= wm.dom());
            if sm == wm && acts@.len() > 0 {
                assert(views(acts@).contains(views(acts@)[0]));
            }
        }
        acts
    }

    /// No tab before the `i`-th has its name.
    proof fn lemma_not_named_before(&self, i: int)
        requires
            self.wf(),
            0 <= i < self.tabs@.len(),
        ensures
            !named_before(self.tabs@, i, self.tabs@[i].name@),
    {
        if named_before(self.tabs@, i, self.tabs@[i].name@) {
            let k = choose|k: int| 0 <= k < i && (#[trigger] self.tabs@[k]).name@ == self.tabs@[i].name@;
            assert(self.tabs@[k].name@ != self.tabs@[i].name@);
        }
    }

    /// The index of the tab named `name`, if there is one.
    pub fn find(&self, name: &String) -> (r: Option<usize>)
        requires
            self.wf(),
        ensures
            match r {
                Some(i) => i < self.tabs@.len() && self.tabs@[i as int].name@ == name@,
                None => !self@.contains_key(name@),
            },
    {
        let n = self.tabs.len();
        let mut i: usize = 0;
        while i < n
            invariant
                n == self.tabs@.len(),
                i <= n,
                forall|k: int| 0 <= k < i ==> (#[trigger] self.tabs@[k]).name@ != name@,
            decreases n - i,
        {
            if self.tabs[i].name == *name {
                return Some(i);
            }
            i = i + 1;
        }
        None
    }
}

} // verus!
