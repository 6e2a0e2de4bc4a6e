use vstd::prelude::*;
use crate::types::LayerId;

verus! {

/// The sink registered for a layer id: the first entry with that id.
pub open spec fn lookup<S>(entries: Seq<(LayerId, S)>, id: LayerId) -> Option<S>
    decreases entries.len(),
{
    if entries.len() == 0 {
        None
    } else if entries[0].0 == id {
        Some(entries[0].1)
    } else {
        lookup(entries.drop_first(), id)
    }
}

proof fn lemma_lookup_push<S>(entries: Seq<(LayerId, S)>, id: LayerId, sink: S, other: LayerId)
    requires
        lookup(entries, id) is None,
    ensures
        lookup(entries.push((id, sink)), id) == Some(sink),
        other != id ==> lookup(entries.push((id, sink)), other) == lookup(entries, other),
    decreases entries.len(),
{
    if entries.len() > 0 {
        assert(entries.push((id, sink)).drop_first() =~= entries.drop_first().push((id, sink)));
        assert(entries.push((id, sink))[0] == entries[0]);
        lemma_lookup_push(entries.drop_first(), id, sink, other);
        if entries[0].0 != other {
            assert(lookup(entries, other) == lookup(entries.drop_first(), other));
            assert(lookup(entries.push((id, sink)), other) == lookup(entries.push((id, sink)).drop_first(), other));
        }
    } else {
        assert(entries.push((id, sink)).drop_first() =~= Seq::<(LayerId, S)>::empty());
        assert(entries.push((id, sink))[0] == (id, sink));
        assert(lookup(entries, other) is None);
        if other != id {
            assert(lookup(entries.push((id, sink)), other) == lookup(Seq::<(LayerId, S)>::empty(), other));
        }
    }
}

proof fn lemma_lookup_set<S>(entries: Seq<(LayerId, S)>, j: int, id: LayerId, sink: S, other: LayerId)
    requires
        0 <= j < entries.len(),
        entries[j].0 == id,
        forall|k: int| 0 <= k < j ==> (#[trigger] entries[k]).0 != id,
    ensures
        lookup(entries.update(j, (id, sink)), id) == Some(sink),
        other != id ==> lookup(entries.update(j, (id, sink)), other) == lookup(entries, other),
    decreases entries.len(),
{
    if j > 0 {
        assert(entries.update(j, (id, sink)).drop_first() =~= entries.drop_first().update(j - 1, (id, sink)));
        assert forall|k: int| 0 <= k < j - 1 implies (#[trigger] entries.drop_first()[k]).0 != id by {
            assert(entries.drop_first()[k] == entries[k + 1]);
        }
        assert(entries[0].0 != id);
        lemma_lookup_set(entries.drop_first(), j - 1, id, sink, other);
    } else {
        assert(entries.update(j, (id, sink)).drop_first() =~= entries.drop_first());
    }
}

/// The message sinks of canvas producers, by the layer they paint into.
pub struct CanvasLayers<S> {
    entries: Vec<(LayerId, S)>,
}

impl<S> CanvasLayers<S> {
    /// The sink registered for a layer, if any.
    pub closed spec fn sink(&self, id: LayerId) -> Option<S> {
        lookup(self.entries@, id)
    }

    /// No layer has a sink.
    pub fn new() -> (r: CanvasLayers<S>)
        ensures
            forall|id: LayerId| r.sink(id) is None,
    {
        CanvasLayers { entries: Vec::new() }
    }

    /// Records `sink` as the canvas sink of layer `id`, replacing any
    /// earlier one.
    pub fn insert(&mut self, id: LayerId, sink: S)
        ensures
            final(self).sink(id) == Some(sink),
            forall|other: LayerId| other != id ==> final(self).sink(other) == old(self).sink(other),
    {
        let ghost s = self.entries@;
        let mut j: usize = 0;
        while j < self.entries.len()
            invariant
                self.entries@ == s,
                s == old(self).entries@,
                j <= s.len(),
                forall|k: int| 0 <= k < j ==> (#[trigger] s[k]).0 != id,
            decreases s.len() - j,
        {
            if self.entries[j].0 == id {
                self.entries.set(j, (id, sink));
                proof {
                    assert forall|other: LayerId| other != id implies lookup(s.update(j as int, (id, sink)), other)
                        == lookup(s, other) by {
                        lemma_lookup_set(s, j as int, id, sink, other);
                    }
                    lemma_lookup_set(s, j as int, id, sink, id);
                }
                return;
            }
            j = j + 1;
        }
        proof {
            lemma_lookup_absent(s, id);
            assert forall|other: LayerId| other != id implies lookup(s.push((id, sink)), other) == lookup(s, other) by {
                lemma_lookup_push(s, id, sink, other);
            }
            lemma_lookup_push(s, id, sink, id);
        }
        self.entries.push((id, sink));
    }

    /// The sink registered for a layer, if any.
    pub fn get(&self, id: LayerId) -> (r: Option<&S>)
        ensures
            match r {
                Some(s) => self.sink(id) == Some(*s),
                None => self.sink(id) is None,
            },
    {
        let mut j: usize = 0;
        assert(self.entries@.subrange(0, self.entries@.len() as int) =~= self.entries@);
        while j < self.entries.len()
            invariant
                j <= self.entries@.len(),
                lookup(self.entries@, id) == lookup(self.entries@.subrange(j as int, self.entries@.len() as int), id),
            decreases self.entries@.len() - j,
        {
            let ghost rest = self.entries@.subrange(j as int, self.entries@.len() as int);
            assert(rest.drop_first() =~= self.entries@.subrange(j + 1, self.entries@.len() as int));
            assert(rest[0] == self.entries@[j as int]);
            if self.entries[j].0 == id {
                return Some(&self.entries[j].1);
            }
            j = j + 1;
        }
        None
    }
}

proof fn lemma_lookup_absent<S>(entries: Seq<(LayerId, S)>, id: LayerId)
    requires
        forall|k: int| 0 <= k < entries.len() ==> (#[trigger] entries[k]).0 != id,
    ensures
        lookup(entries, id) is None,
    decreases entries.len(),
{
    if entries.len() > 0 {
        assert(entries[0].0 != id);
        assert forall|k: int| 0 <= k < entries.len() - 1 implies (#[trigger] entries.drop_first()[k]).0 != id by {
            assert(entries.drop_first()[k] == entries[k + 1]);
        }
        lemma_lookup_absent(entries.drop_first(), id);
    }
}

} // verus!
