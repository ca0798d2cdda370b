//! JSON values, and objects that keep their keys in the order of strings.

use crate::text::{
    comes_before, lemma_precedes_irreflexive, lemma_precedes_total, lemma_precedes_transitive,
    precedes, same, texts,
};
use vstd::prelude::*;

verus! {

/// What a JSON value is. A number is its numeral; an object is a finite map.
pub enum JsonView {
    Null,
    Bool(bool),
    Number(Seq<char>),
    String(Seq<char>),
    Array(Seq<JsonView>),
    Object(Map<Seq<char>, JsonView>),
}

impl JsonView {
    /// The member `key` of an object; other values have none.
    pub open spec fn field(self, key: Seq<char>) -> Option<JsonView> {
        match self {
            JsonView::Object(members) => if members.contains_key(key) {
                Some(members[key])
            } else {
                None
            },
            _ => None,
        }
    }

    /// The text of a string; other values have none.
    pub open spec fn text(self) -> Option<Seq<char>> {
        match self {
            JsonView::String(text) => Some(text),
            _ => None,
        }
    }
}

/// Whether `keys` are in the order of strings, each once.
pub open spec fn in_order(keys: Seq<Seq<char>>) -> bool {
    forall|i: int, j: int| 0 <= i < j < keys.len() ==> #[trigger] precedes(keys[i], keys[j])
}

/// Whether `keys` are the keys of `members` in the order of strings.
pub open spec fn lists_keys(keys: Seq<Seq<char>>, members: Map<Seq<char>, JsonView>) -> bool {
    &&& in_order(keys)
    &&& forall|key: Seq<char>| keys.contains(key) <==> members.contains_key(key)
}

/// The keys of `members` in the order of strings.
pub open spec fn sorted_keys(members: Map<Seq<char>, JsonView>) -> Seq<Seq<char>> {
    choose|keys: Seq<Seq<char>>| lists_keys(keys, members)
}

/// A JSON value. A number holds its numeral.
#[derive(Debug, PartialEq, Eq)]
pub enum Json {
    Null,
    Bool(bool),
    Number(String),
    String(String),
    Array(Vec<Json>),
    Object(Object),
}

/// The members of a JSON object, in the order of their keys.
#[derive(Debug, PartialEq, Eq)]
pub struct Object {
    entries: Vec<(String, Json)>,
}

/// The views of a sequence of values.
pub open spec fn views(items: Seq<Json>) -> Seq<JsonView>
    decreases items,
{
    Seq::new(
        items.len(),
        |i: int|
            if 0 <= i < items.len() {
                items[i].view()
            } else {
                JsonView::Null
            },
    )
}

/// The map that a sequence of entries makes up when they are put in one after the other.
spec fn entries_view(entries: Seq<(String, Json)>) -> Map<Seq<char>, JsonView>
    decreases entries,
{
    if entries.len() == 0 {
        Map::empty()
    } else {
        entries_view(entries.drop_last()).insert(entries.last().0@, entries.last().1.view())
    }
}

/// The keys of a sequence of entries.
spec fn entry_keys(entries: Seq<(String, Json)>) -> Seq<Seq<char>> {
    entries.map_values(|entry: (String, Json)| entry.0@)
}

impl Json {
    /// The value as a mathematical object.
    pub open spec fn view(&self) -> JsonView
        decreases self,
    {
        match self {
            Json::Null => JsonView::Null,
            Json::Bool(b) => JsonView::Bool(*b),
            Json::Number(numeral) => JsonView::Number(numeral@),
            Json::String(text) => JsonView::String(text@),
            Json::Array(items) => JsonView::Array(views(items@)),
            Json::Object(object) => JsonView::Object(object.view()),
        }
    }
}

impl Object {
    /// The members of the object.
    pub closed spec fn view(&self) -> Map<Seq<char>, JsonView>
        decreases self,
    {
        entries_view(self.entries@)
    }

    /// The keys stand in the order of strings.
    #[verifier::type_invariant]
    spec fn ordered(self) -> bool {
        in_order(entry_keys(self.entries@))
    }
}

/// Entries with keys in order make up the map that takes each key to its value.
proof fn lemma_entries_view(entries: Seq<(String, Json)>)
    requires
        in_order(entry_keys(entries)),
    ensures
        forall|i: int|
            0 <= i < entries.len() ==> {
                &&& entries_view(entries).contains_key(#[trigger] entries[i].0@)
                &&& entries_view(entries)[entries[i].0@] == entries[i].1@
            },
        forall|key: Seq<char>| #[trigger]
            entries_view(entries).contains_key(key) <==> entry_keys(entries).contains(key),
    decreases entries.len(),
{
    let keys = entry_keys(entries);
    if entries.len() > 0 {
        let rest = entries.drop_last();
        let last = entries.len() - 1;
        assert(entry_keys(rest) =~= keys.drop_last());
        lemma_entries_view(rest);
        assert forall|i: int| 0 <= i < entries.len() implies {
            &&& entries_view(entries).contains_key(#[trigger] entries[i].0@)
            &&& entries_view(entries)[entries[i].0@] == entries[i].1@
        } by {
            if i < last {
                assert(rest[i] == entries[i]);
                assert(precedes(keys[i], keys[last]));
                lemma_precedes_irreflexive(keys[last]);
            }
        }
        assert forall|key: Seq<char>| #[trigger]
            entries_view(entries).contains_key(key) <==> keys.contains(key) by {
            if entries_view(rest).contains_key(key) {
                let i = choose|i: int|
                    0 <= i < entry_keys(rest).len() && entry_keys(rest)[i] == key;
                assert(keys[i] == key);
            }
            if keys.contains(key) {
                let i = choose|i: int| 0 <= i < keys.len() && keys[i] == key;
                if i < last {
                    assert(entry_keys(rest)[i] == key);
                }
            }
            assert(keys[last] == entries.last().0@);
        }
    }
}

/// An object has finitely many members.
pub proof fn law_objects_are_finite(object: Object)
    ensures
        object@.dom().finite(),
{
    lemma_entries_finite(object.entries@);
}

proof fn lemma_entries_finite(entries: Seq<(String, Json)>)
    ensures
        entries_view(entries).dom().finite(),
    decreases entries.len(),
{
    if entries.len() > 0 {
        lemma_entries_finite(entries.drop_last());
    }
}

/// The keys of a map can be put in order in one way only.
pub proof fn lemma_keys_unique(
    a: Seq<Seq<char>>,
    b: Seq<Seq<char>>,
    members: Map<Seq<char>, JsonView>,
)
    requires
        lists_keys(a, members),
        lists_keys(b, members),
    ensures
        a == b,
    decreases a.len(),
{
    if a.len() == 0 {
        if b.len() > 0 {
            assert(b.contains(b[0]));
            assert(a.contains(b[0]));
        }
        assert(a =~= b);
    } else {
        assert(a.contains(a.last()));
        assert(b.contains(a.last()));
        let i = choose|i: int| 0 <= i < b.len() && b[i] == a.last();
        assert(b.contains(b.last()));
        assert(a.contains(b.last()));
        let j = choose|j: int| 0 <= j < a.len() && a[j] == b.last();
        if i < b.len() - 1 {
            assert(precedes(b[i], b[b.len() - 1]));
            if j < a.len() - 1 {
                assert(precedes(a[j], a[a.len() - 1]));
                lemma_precedes_transitive(a.last(), b.last(), a.last());
            }
            lemma_precedes_irreflexive(a.last());
        }
        assert(a.last() == b.last());
        let rest = members.remove(a.last());
        assert forall|s: Seq<Seq<char>>|
            s == a || s == b implies #[trigger] lists_keys(s.drop_last(), rest) by {
            let t = s.drop_last();
            assert forall|x: int, y: int| 0 <= x < y < t.len() implies #[trigger] precedes(
                t[x],
                t[y],
            ) by {
                assert(precedes(s[x], s[y]));
            }
            assert forall|key: Seq<char>| t.contains(key) <==> rest.contains_key(key) by {
                if t.contains(key) {
                    let k = choose|k: int| 0 <= k < t.len() && t[k] == key;
                    assert(s[k] == key);
                    assert(s.contains(key));
                    assert(precedes(s[k], s[s.len() - 1]));
                    lemma_precedes_irreflexive(key);
                }
                if rest.contains_key(key) {
                    assert(s.contains(key));
                    let k = choose|k: int| 0 <= k < s.len() && s[k] == key;
                    assert(k < s.len() - 1);
                    assert(t[k] == key);
                }
            }
        }
        assert(lists_keys(a.drop_last(), rest));
        assert(lists_keys(b.drop_last(), rest));
        lemma_keys_unique(a.drop_last(), b.drop_last(), rest);
        assert(a =~= a.drop_last().push(a.last()));
        assert(b =~= b.drop_last().push(b.last()));
    }
}

/// The view of a value that may be missing.
pub open spec fn optional(value: Option<&Json>) -> Option<JsonView> {
    match value {
        Some(json) => Some(json@),
        None => None,
    }
}

impl Json {
    /// A string.
    pub fn string(text: &str) -> (r: Self)
        ensures
            r@ == JsonView::String(text@),
    {
        Json::String(text.to_owned())
    }

    /// The member `key` of an object; other values have none.
    pub fn get(&self, key: &str) -> (r: Option<&Json>)
        ensures
            optional(r) == self@.field(key@),
    {
        match self {
            Json::Object(object) => object.get(key),
            _ => None,
        }
    }

    /// The text of a string; other values have none.
    pub fn as_str(&self) -> (r: Option<&str>)
        ensures
            r is Some <==> self@.text() is Some,
            r matches Some(text) ==> text@ == self@.text()->0,
    {
        match self {
            Json::String(text) => Some(text.as_str()),
            _ => None,
        }
    }
}

impl Clone for Json {
    fn clone(&self) -> (r: Self)
        ensures
            r@ == self@,
        decreases self,
    {
        match self {
            Json::Null => Json::Null,
            Json::Bool(b) => Json::Bool(*b),
            Json::Number(numeral) => Json::Number(numeral.clone()),
            Json::String(text) => Json::String(text.clone()),
            Json::Array(items) => {
                let mut copy: Vec<Json> = Vec::new();
                let n: usize = items.len();
                let mut i: usize = 0;
                while i < n
                    invariant
                        i <= n,
                        n == items@.len(),
                        copy@.len() == i,
                        decreases_to!(self => items@),
                        forall|j: int| 0 <= j < i ==> copy@[j]@ == #[trigger] items@[j]@,
                    decreases n - i,
                {
                    copy.push(items[i].clone());
                    i = i + 1;
                }
                assert forall|j: int| 0 <= j < n implies views(copy@)[j] == views(items@)[j] by {
                    assert(copy@[j]@ == items@[j]@);
                }
                assert(views(copy@) =~= views(items@));
                Json::Array(copy)
            },
            Json::Object(object) => Json::Object(object.clone()),
        }
    }
}

impl Clone for Object {
    fn clone(&self) -> (r: Self)
        ensures
            r@ == self@,
        decreases self,
    {
        proof {
            use_type_invariant(self);
        }
        let mut copy: Vec<(String, Json)> = Vec::new();
        let n: usize = self.entries.len();
        let mut i: usize = 0;
        while i < n
            invariant
                i <= n,
                n == self.entries@.len(),
                copy@.len() == i,
                forall|j: int|
                    0 <= j < i ==> copy@[j].0@ == (#[trigger] self.entries@[j]).0@ && copy@[j].1@
                        == self.entries@[j].1@,
            decreases n - i,
        {
            let entry = &self.entries[i];
            copy.push((entry.0.clone(), entry.1.clone()));
            i = i + 1;
        }
        proof {
            assert(entry_keys(copy@) =~= entry_keys(self.entries@));
            lemma_entries_view(copy@);
            lemma_entries_view(self.entries@);
            assert(entries_view(copy@) =~= entries_view(self.entries@));
        }
        Object { entries: copy }
    }
}

impl Object {
    /// An object without members.
    pub fn new() -> (r: Self)
        ensures
            r@ == Map::<Seq<char>, JsonView>::empty(),
    {
        Object { entries: Vec::new() }
    }

    /// The member `key`.
    pub fn get(&self, key: &str) -> (r: Option<&Json>)
        ensures
            optional(r) == JsonView::Object(self@).field(key@),
    {
        proof {
            use_type_invariant(self);
            lemma_entries_view(self.entries@);
        }
        let n: usize = self.entries.len();
        let mut i: usize = 0;
        while i < n
            invariant
                i <= n,
                n == self.entries@.len(),
                in_order(entry_keys(self.entries@)),
                forall|j: int| 0 <= j < i ==> (#[trigger] self.entries@[j]).0@ != key@,
            decreases n - i,
        {
            let entry = &self.entries[i];
            if same(entry.0.as_str(), key) {
                proof {
                    lemma_entries_view(self.entries@);
                    assert(self.entries@[i as int].0@ == key@);
                }
                return Some(&entry.1);
            }
            i = i + 1;
        }
        proof {
            if self@.contains_key(key@) {
                let keys = entry_keys(self.entries@);
                let j = choose|j: int| 0 <= j < keys.len() && keys[j] == key@;
                assert(self.entries@[j].0@ == key@);
            }
        }
        None
    }

    /// The keys, in the order of strings.
    pub fn keys(&self) -> (r: Vec<String>)
        ensures
            texts(r@) == sorted_keys(self@),
            lists_keys(texts(r@), self@),
    {
        proof {
            use_type_invariant(self);
        }
        let mut keys: Vec<String> = Vec::new();
        let n: usize = self.entries.len();
        let mut i: usize = 0;
        while i < n
            invariant
                i <= n,
                n == self.entries@.len(),
                keys@.len() == i,
                forall|j: int| 0 <= j < i ==> keys@[j]@ == (#[trigger] self.entries@[j]).0@,
            decreases n - i,
        {
            keys.push(self.entries[i].0.clone());
            i = i + 1;
        }
        proof {
            lemma_entries_view(self.entries@);
            assert(texts(keys@) =~= entry_keys(self.entries@));
            assert(lists_keys(texts(keys@), self@));
            lemma_keys_unique(texts(keys@), sorted_keys(self@), self@);
        }
        keys
    }

    /// Sets the member `key` to `value`.
    pub fn insert(&mut self, key: String, value: Json)
        ensures
            final(self)@ == old(self)@.insert(key@, value@),
    {
        proof {
            use_type_invariant(&*self);
        }
        let ghost old_entries = self.entries@;
        let mut entries: Vec<(String, Json)> = Vec::new();
        std::mem::swap(&mut entries, &mut self.entries);
        let n: usize = entries.len();
        let mut i: usize = 0;
        while i < n && comes_before(entries[i].0.as_str(), key.as_str())
            invariant
                i <= n,
                n == entries@.len(),
                forall|j: int| 0 <= j < i ==> precedes((#[trigger] entries@[j]).0@, key@),
            decreases n - i,
        {
            i = i + 1;
        }
        let ghost new_key = key@;
        let ghost new_value = value@;
        let ghost at = i as int;
        let ghost old_keys = entry_keys(old_entries);
        if i < n && same(entries[i].0.as_str(), key.as_str()) {
            entries.set(i, (key, value));
            proof {
                assert(entry_keys(entries@) =~= old_keys);
                lemma_entries_view(old_entries);
                lemma_entries_view(entries@);
                let now = entries_view(entries@);
                let then = entries_view(old_entries).insert(new_key, new_value);
                assert forall|k: Seq<char>| then.contains_key(k) implies now[k] == then[k] by {
                    assert(entry_keys(entries@).contains(k)) by {
                        assert(old_keys[at] == new_key);
                    }
                    let j = choose|j: int| 0 <= j < old_keys.len() && old_keys[j] == k;
                    assert(entries@[j].0@ == k);
                    if j != at {
                        assert(entries@[j] == old_entries[j]);
                        assert(old_keys[j] != old_keys[at]) by {
                            lemma_precedes_irreflexive(old_keys[at]);
                            if j < at {
                                assert(precedes(old_keys[j], old_keys[at]));
                            } else {
                                assert(precedes(old_keys[at], old_keys[j]));
                            }
                        }
                    }
                }
                assert(now =~= then);
            }
        } else {
            proof {
                if at < n {
                    lemma_precedes_total(old_keys[at], new_key);
                    assert(precedes(new_key, old_keys[at]));
                }
            }
            entries.insert(i, (key, value));
            proof {
                let keys = entry_keys(entries@);
                assert(keys =~= old_keys.insert(at, new_key));
                assert forall|x: int, y: int| 0 <= x < y < keys.len() implies #[trigger] precedes(
                    keys[x],
                    keys[y],
                ) by {
                    if y < at {
                        assert(precedes(old_keys[x], old_keys[y]));
                    } else if y == at {
                        assert(precedes(old_entries[x].0@, new_key));
                    } else if x < at {
                        assert(precedes(old_keys[x], old_keys[y - 1]));
                    } else if x == at {
                        if y - 1 > at {
                            assert(precedes(old_keys[at], old_keys[y - 1]));
                            lemma_precedes_transitive(new_key, old_keys[at], old_keys[y - 1]);
                        }
                    } else {
                        assert(precedes(old_keys[x - 1], old_keys[y - 1]));
                    }
                }
                lemma_entries_view(old_entries);
                lemma_entries_view(entries@);
                let now = entries_view(entries@);
                let then = entries_view(old_entries).insert(new_key, new_value);
                assert(keys[at] == new_key);
                assert forall|k: Seq<char>| now.contains_key(k) <==> then.contains_key(k) by {
                    if keys.contains(k) {
                        let j = choose|j: int| 0 <= j < keys.len() && keys[j] == k;
                        if j < at {
                            assert(old_keys[j] == k);
                        } else if j > at {
                            assert(old_keys[j - 1] == k);
                        }
                    }
                    if old_keys.contains(k) {
                        let j = choose|j: int| 0 <= j < old_keys.len() && old_keys[j] == k;
                        if j < at {
                            assert(keys[j] == k);
                        } else {
                            assert(keys[j + 1] == k);
                        }
                    }
                }
                assert forall|k: Seq<char>| then.contains_key(k) implies now[k] == then[k] by {
                    assert(keys.contains(k));
                    let j = choose|j: int| 0 <= j < keys.len() && keys[j] == k;
                    assert(entries@[j].0@ == k);
                    lemma_precedes_irreflexive(new_key);
                    if j < at {
                        assert(precedes(keys[j], keys[at]));
                        assert(entries@[j] == old_entries[j]);
                    } else if j > at {
                        assert(precedes(keys[at], keys[j]));
                        assert(entries@[j] == old_entries[j - 1]);
                    }
                }
                assert(now =~= then);
            }
        }
        self.entries = entries;
    }
}

} // verus!
