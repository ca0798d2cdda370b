//! The open connections, each under its identifier.

use crate::config::{ConfigView, GraphConfig};
use crate::text::same;
use vstd::prelude::*;

verus! {

/// What an open connection is: the driver's handle and the settings that it was opened with.
pub struct ConnectionView<G> {
    pub graph: G,
    pub config: ConfigView,
}

/// An open connection: the driver's handle and the settings that it was opened with.
#[derive(Debug)]
pub struct GraphConnection<G> {
    pub graph: G,
    pub config: GraphConfig,
}

impl<G> GraphConnection<G> {
    /// The connection as a mathematical object.
    pub open spec fn view(&self) -> ConnectionView<G> {
        ConnectionView { graph: self.graph, config: self.config@ }
    }
}

/// Whether `copy` is a copy of `original`: it has the settings, and a clone of the handle.
pub open spec fn copy_of<G: Clone>(original: ConnectionView<G>, copy: ConnectionView<G>) -> bool {
    &&& copy.config == original.config
    &&& cloned::<G>(original.graph, copy.graph)
}

impl<G: Clone> Clone for GraphConnection<G> {
    fn clone(&self) -> (r: Self)
        ensures
            copy_of(self@, r@),
    {
        GraphConnection { graph: self.graph.clone(), config: self.config.clone() }
    }
}

/// The open connections, each under its identifier.
#[derive(Debug)]
pub struct Connections<G> {
    entries: Vec<(String, GraphConnection<G>)>,
}

/// The map that a sequence of entries makes up when they are put in one after the other.
spec fn entries_view<G>(entries: Seq<(String, GraphConnection<G>)>) -> Map<
    Seq<char>,
    ConnectionView<G>,
>
    decreases entries.len(),
{
    if entries.len() == 0 {
        Map::empty()
    } else {
        entries_view(entries.drop_last()).insert(entries.last().0@, entries.last().1@)
    }
}

/// Whether no identifier comes twice.
spec fn distinct<G>(entries: Seq<(String, GraphConnection<G>)>) -> bool {
    forall|i: int, j: int|
        0 <= i < j < entries.len() ==> (#[trigger] entries[i]).0@ != (#[trigger] entries[j]).0@
}

/// Entries with different identifiers make up the map that takes each identifier to its
/// connection.
proof fn lemma_entries_view<G>(entries: Seq<(String, GraphConnection<G>)>)
    requires
        distinct(entries),
    ensures
        forall|i: int|
            0 <= i < entries.len() ==> {
                &&& entries_view(entries).contains_key((#[trigger] entries[i]).0@)
                &&& entries_view(entries)[entries[i].0@] == entries[i].1@
            },
        forall|id: Seq<char>| #[trigger]
            entries_view(entries).contains_key(id) ==> exists|i: int|
                0 <= i < entries.len() && (#[trigger] entries[i]).0@ == id,
    decreases entries.len(),
{
    if entries.len() > 0 {
        let rest = entries.drop_last();
        let last = entries.len() - 1;
        assert(distinct(rest)) by {
            assert forall|i: int, j: int| 0 <= i < j < rest.len() implies (
            #[trigger] rest[i]).0@ != (#[trigger] rest[j]).0@ by {
                assert(entries[i].0@ != entries[j].0@);
            }
        }
        lemma_entries_view(rest);
        assert forall|i: int| 0 <= i < entries.len() implies {
            &&& entries_view(entries).contains_key((#[trigger] entries[i]).0@)
            &&& entries_view(entries)[entries[i].0@] == entries[i].1@
        } by {
            if i < last {
                assert(rest[i] == entries[i]);
                assert(entries[i].0@ != entries[last].0@);
            }
        }
        assert forall|id: Seq<char>| #[trigger]
            entries_view(entries).contains_key(id) implies exists|i: int|
            0 <= i < entries.len() && (#[trigger] entries[i]).0@ == id by {
            if entries_view(rest).contains_key(id) {
                let i = choose|i: int| 0 <= i < rest.len() && (#[trigger] rest[i]).0@ == id;
                assert(entries[i].0@ == id);
            } else {
                assert(entries[last].0@ == id);
            }
        }
    }
}

impl<G> Connections<G> {
    /// The connection under each identifier.
    pub closed spec fn view(&self) -> Map<Seq<char>, ConnectionView<G>> {
        entries_view(self.entries@)
    }

    /// No identifier comes twice.
    #[verifier::type_invariant]
    spec fn consistent(self) -> bool {
        distinct(self.entries@)
    }

    /// No connections.
    pub fn new() -> (r: Self)
        ensures
            r@ == Map::<Seq<char>, ConnectionView<G>>::empty(),
    {
        Connections { entries: Vec::new() }
    }

    /// The position of the connection under `id`, or the number of connections.
    fn find(entries: &Vec<(String, GraphConnection<G>)>, id: &str) -> (at: usize)
        ensures
            at <= entries@.len(),
            at < entries@.len() ==> entries@[at as int].0@ == id@,
            forall|j: int| 0 <= j < at ==> (#[trigger] entries@[j]).0@ != id@,
    {
        let n: usize = entries.len();
        let mut at: usize = 0;
        while at < n && !same(entries[at].0.as_str(), id)
            invariant
                at <= n,
                n == entries@.len(),
                forall|j: int| 0 <= j < at ==> (#[trigger] entries@[j]).0@ != id@,
            decreases n - at,
        {
            at = at + 1;
        }
        at
    }

    /// The connection under `id`.
    pub fn get(&self, id: &str) -> (r: Option<&GraphConnection<G>>)
        ensures
            r is Some <==> self@.contains_key(id@),
            r matches Some(connection) ==> connection@ == self@[id@],
    {
        proof {
            use_type_invariant(self);
            lemma_entries_view(self.entries@);
        }
        let at = Self::find(&self.entries, id);
        if at < self.entries.len() {
            assert(self.entries@[at as int].0@ == id@);
            Some(&self.entries[at].1)
        } else {
            None
        }
    }

    /// Puts a connection under `id`, in the place of the one that was there.
    pub fn insert(&mut self, id: String, connection: GraphConnection<G>)
        ensures
            final(self)@ == old(self)@.insert(id@, connection@),
    {
        proof {
            use_type_invariant(&*self);
            lemma_entries_view(self.entries@);
        }
        let ghost before = self.entries@;
        let ghost key = id@;
        let ghost value = connection@;
        let mut entries: Vec<(String, GraphConnection<G>)> = Vec::new();
        std::mem::swap(&mut entries, &mut self.entries);
        let at = Self::find(&entries, id.as_str());
        if at < entries.len() {
            entries.set(at, (id, connection));
            proof {
                assert(distinct(entries@)) by {
                    assert forall|i: int, j: int| 0 <= i < j < entries@.len() implies (
                    #[trigger] entries@[i]).0@ != (#[trigger] entries@[j]).0@ by {
                        assert(before[i].0@ != before[j].0@);
                    }
                }
                lemma_entries_view(entries@);
                let now = entries_view(entries@);
                let then = entries_view(before).insert(key, value);
                assert forall|k: Seq<char>| now.contains_key(k) == then.contains_key(k) by {
                    if now.contains_key(k) {
                        let i = choose|i: int|
                            0 <= i < entries@.len() && (#[trigger] entries@[i]).0@ == k;
                        assert(before[i].0@ == k);
                    }
                    if entries_view(before).contains_key(k) {
                        let i = choose|i: int|
                            0 <= i < before.len() && (#[trigger] before[i]).0@ == k;
                        assert(entries@[i].0@ == k);
                    }
                    assert(entries@[at as int].0@ == key);
                }
                assert forall|k: Seq<char>| now.contains_key(k) implies now[k] == then[k] by {
                    let i = choose|i: int|
                        0 <= i < entries@.len() && (#[trigger] entries@[i]).0@ == k;
                    if i != at {
                        assert(before[i] == entries@[i]);
                        assert(before[i].0@ != before[at as int].0@);
                    }
                }
                assert(now =~= then);
            }
        } else {
            entries.push((id, connection));
            proof {
                assert(entries@.drop_last() =~= before);
                assert(distinct(entries@)) by {
                    assert forall|i: int, j: int| 0 <= i < j < entries@.len() implies (
                    #[trigger] entries@[i]).0@ != (#[trigger] entries@[j]).0@ by {
                        assert(before[i].0@ != key);
                        if j < before.len() {
                            assert(before[i].0@ != before[j].0@);
                        }
                    }
                }
            }
        }
        self.entries = entries;
    }

    /// Takes the connection under `id` away, and tells whether there was one.
    pub fn remove(&mut self, id: &str) -> (r: bool)
        ensures
            r == old(self)@.contains_key(id@),
            final(self)@ == old(self)@.remove(id@),
    {
        proof {
            use_type_invariant(&*self);
            lemma_entries_view(self.entries@);
        }
        let ghost before = self.entries@;
        let mut entries: Vec<(String, GraphConnection<G>)> = Vec::new();
        std::mem::swap(&mut entries, &mut self.entries);
        let at = Self::find(&entries, id);
        let found = at < entries.len();
        if found {
            entries.remove(at);
            proof {
                assert(before[at as int].0@ == id@);
                assert forall|i: int| 0 <= i < entries@.len() implies #[trigger] entries@[i]
                    == before[if i < at {
                    i
                } else {
                    i + 1
                }] by {}
                assert(distinct(entries@)) by {
                    assert forall|i: int, j: int| 0 <= i < j < entries@.len() implies (
                    #[trigger] entries@[i]).0@ != (#[trigger] entries@[j]).0@ by {
                        let x = if i < at {
                            i
                        } else {
                            i + 1
                        };
                        let y = if j < at {
                            j
                        } else {
                            j + 1
                        };
                        assert(before[x].0@ != before[y].0@);
                    }
                }
                lemma_entries_view(entries@);
                let now = entries_view(entries@);
                let then = entries_view(before).remove(id@);
                assert forall|k: Seq<char>| now.contains_key(k) implies then.contains_key(k)
                    && now[k] == then[k] by {
                    let i = choose|i: int|
                        0 <= i < entries@.len() && (#[trigger] entries@[i]).0@ == k;
                    let x = if i < at {
                        i
                    } else {
                        i + 1
                    };
                    assert(before[x] == entries@[i]);
                    if x < at {
                        assert(before[x].0@ != before[at as int].0@);
                    } else {
                        assert(before[at as int].0@ != before[x].0@);
                    }
                }
                assert forall|k: Seq<char>| then.contains_key(k) implies now.contains_key(k) by {
                    let x = choose|x: int|
                        0 <= x < before.len() && (#[trigger] before[x]).0@ == k;
                    let i = if x < at {
                        x
                    } else {
                        x - 1
                    };
                    assert(entries@[i] == before[x]);
                    assert(entries@[i].0@ == k);
                }
                assert(now =~= then);
            }
        } else {
            assert(entries_view(before).remove(id@) =~= entries_view(before));
        }
        self.entries = entries;
        found
    }
}

} // verus!
