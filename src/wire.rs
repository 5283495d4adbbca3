//! The wire and persistence formats, over a JSON value that the transport has parsed.
use crate::model::{Workspace, WorkspaceAction};
use vstd::prelude::*;

verus! {

/// A parsed JSON value. Numbers keep their text, records their entries in order.
#[derive(Debug)]
pub enum JsonValue {
    Null,
    Bool(bool),
    Number(String),
    Text(String),
    List(Vec<JsonValue>),
    Record(Vec<(String, JsonValue)>),
}

/// The record key that tags an action.
pub open spec fn action_tag(a: WorkspaceAction) -> Seq<char> {
    match a {
        WorkspaceAction::OpenTab(_) => "OpenTab"@,
        WorkspaceAction::CloseTab(_) => "CloseTab"@,
    }
}

/// The action a message carries: a record of exactly one entry, keyed `OpenTab` or
/// `CloseTab`, whose value is the URL as text. Any other message carries none.
pub open spec fn action_of_json(v: JsonValue) -> Option<WorkspaceAction> {
    match v {
        JsonValue::Record(entries) => {
            if entries@.len() != 1 {
                None
            } else {
                match entries@[0].1 {
                    JsonValue::Text(u) => {
                        if entries@[0].0@ == "OpenTab"@ {
                            Some(WorkspaceAction::OpenTab(u))
                        } else if entries@[0].0@ == "CloseTab"@ {
                            Some(WorkspaceAction::CloseTab(u))
                        } else {
                            None
                        }
                    },
                    _ => None,
                }
            }
        },
        _ => None,
    }
}

/// The URLs of a list whose items are all texts; `None` for anything else.
pub open spec fn texts_of_json(v: JsonValue) -> Option<Seq<Seq<char>>> {
    match v {
        JsonValue::List(items) => {
            if forall|i: int| 0 <= i < items@.len() ==> (#[trigger] items@[i]) is Text {
                Some(items@.map_values(|item: JsonValue| item->Text_0@))
            } else {
                None
            }
        },
        _ => None,
    }
}

/// The index of the first entry keyed `key`, or `entries.len()` when there is none.
pub open spec fn first_key(entries: Seq<(String, JsonValue)>, key: Seq<char>) -> int
    decreases entries.len(),
{
    if entries.len() == 0 {
        0
    } else if entries[0].0@ == key {
        0
    } else {
        1 + first_key(entries.drop_first(), key)
    }
}

/// The tabs a persisted document holds: a record whose first `tabs` entry is a list of
/// URL texts. Any other document holds none.
pub open spec fn tabs_of_json(v: JsonValue) -> Option<Seq<Seq<char>>> {
    match v {
        JsonValue::Record(entries) => {
            let k = first_key(entries@, "tabs"@);
            if k < entries@.len() {
                texts_of_json(entries@[k].1)
            } else {
                None
            }
        },
        _ => None,
    }
}

proof fn lemma_first_key_bounds(entries: Seq<(String, JsonValue)>, key: Seq<char>)
    ensures
        0 <= first_key(entries, key) <= entries.len(),
        first_key(entries, key) < entries.len() ==> entries[first_key(entries, key)].0@ == key,
        forall|j: int| 0 <= j < first_key(entries, key) ==> entries[j].0@ != key,
    decreases entries.len(),
{
    if entries.len() > 0 && entries[0].0@ != key {
        lemma_first_key_bounds(entries.drop_first(), key);
        assert forall|j: int| 0 <= j < first_key(entries, key) implies entries[j].0@ != key by {
            if j > 0 {
                assert(entries[j] == entries.drop_first()[j - 1]);
            }
        }
    }
}

/// The text of a literal as an owned string.
pub(crate) fn text(s: &str) -> (r: String)
    ensures
        r@ == s@,
{
    s.to_string()
}

impl WorkspaceAction {
    /// The action as a message: `{"OpenTab": url}` or `{"CloseTab": url}`.
    pub fn to_json(&self) -> (r: JsonValue)
        ensures
            action_of_json(r) == Some(*self),
    {
        proof {
            reveal_strlit("OpenTab");
            reveal_strlit("CloseTab");
        }
        let (key, url) = match self {
            WorkspaceAction::OpenTab(u) => (text("OpenTab"), u.clone()),
            WorkspaceAction::CloseTab(u) => (text("CloseTab"), u.clone()),
        };
        let mut entries: Vec<(String, JsonValue)> = Vec::new();
        entries.push((key, JsonValue::Text(url)));
        assert(entries@[0].0@ == action_tag(*self));
        assert("OpenTab"@ != "CloseTab"@) by {
            assert("OpenTab"@.len() != "CloseTab"@.len());
        }
        JsonValue::Record(entries)
    }

    /// The action a message carries, if it is one of the two recognized shapes; every
    /// other message is rejected with `None`.
    pub fn from_json(v: &JsonValue) -> (r: Option<WorkspaceAction>)
        ensures
            r == action_of_json(*v),
    {
        proof {
            reveal_strlit("OpenTab");
            reveal_strlit("CloseTab");
        }
        match v {
            JsonValue::Record(entries) => {
                if entries.len() != 1 {
                    return None;
                }
                match &entries[0].1 {
                    JsonValue::Text(u) => {
                        if entries[0].0 == text("OpenTab") {
                            Some(WorkspaceAction::OpenTab(u.clone()))
                        } else if entries[0].0 == text("CloseTab") {
                            Some(WorkspaceAction::CloseTab(u.clone()))
                        } else {
                            None
                        }
                    },
                    _ => None,
                }
            },
            _ => None,
        }
    }
}

impl Workspace {
    /// The persisted document: `{"tabs": [url, ...]}`, in the workspace's order.
    pub fn to_json(&self) -> (r: JsonValue)
        ensures
            tabs_of_json(r) == Some(self@),
    {
        let n = self.tabs.len();
        let mut items: Vec<JsonValue> = Vec::new();
        let mut i: usize = 0;
        while i < n
            invariant
                n == self@.len(),
                i <= n,
                items@.len() == i,
                forall|k: int| 0 <= k < i ==> (#[trigger] items@[k]) is Text,
                forall|k: int| 0 <= k < i ==> (#[trigger] items@[k])->Text_0@ == self@[k],
            decreases n - i,
        {
            items.push(JsonValue::Text(self.tabs[i].clone()));
            i = i + 1;
        }
        assert(items@.map_values(|item: JsonValue| item->Text_0@) =~= self@);
        let mut entries: Vec<(String, JsonValue)> = Vec::new();
        entries.push((text("tabs"), JsonValue::List(items)));
        assert(first_key(entries@, "tabs"@) == 0);
        JsonValue::Record(entries)
    }

    /// The workspace a persisted document holds; `None` when the document is not a
    /// record whose first `tabs` entry is a list of texts.
    pub fn from_json(v: &JsonValue) -> (r: Option<Workspace>)
        ensures
            match r {
                Some(w) => tabs_of_json(*v) == Some(w@),
                None => tabs_of_json(*v) is None,
            },
    {
        let entries = match v {
            JsonValue::Record(entries) => entries,
            _ => {
                return None;
            },
        };
        let key = text("tabs");
        let n = entries.len();
        let mut k: usize = 0;
        while k < n && entries[k].0 != key
            invariant
                n == entries@.len(),
                k <= n,
                key@ == "tabs"@,
                forall|j: int| 0 <= j < k ==> entries@[j].0@ != "tabs"@,
            decreases n - k,
        {
            k = k + 1;
        }
        proof {
            lemma_first_key_bounds(entries@, "tabs"@);
        }
        if k == n {
            return None;
        }
        let items = match &entries[k].1 {
            JsonValue::List(items) => items,
            _ => {
                return None;
            },
        };
        assert(tabs_of_json(*v) == texts_of_json(JsonValue::List(*items)));
        let m = items.len();
        let mut tabs: Vec<String> = Vec::new();
        let mut i: usize = 0;
        while i < m
            invariant
                m == items@.len(),
                i <= m,
                tabs_of_json(*v) == texts_of_json(JsonValue::List(*items)),
                tabs@.len() == i,
                forall|j: int| 0 <= j < i ==> (#[trigger] items@[j]) is Text,
                forall|j: int| 0 <= j < i ==> (#[trigger] tabs@[j])@ == items@[j]->Text_0@,
            decreases m - i,
        {
            match &items[i] {
                JsonValue::Text(u) => {
                    tabs.push(u.clone());
                },
                _ => {
                    return None;
                },
            }
            i = i + 1;
        }
        let w = Workspace { tabs };
        assert(w@ =~= items@.map_values(|item: JsonValue| item->Text_0@));
        Some(w)
    }
}

} // verus!
