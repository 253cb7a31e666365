use vstd::prelude::*;

use crate::name_map::{contains_name, string_views, lemma_push_contains, NameMap};

verus! {

/// The plugin that lets a sketch keep named string values across reloads.
pub struct StatePlugin;

impl StatePlugin {
    /// The state a sketch starts with when it is built: no values.
    pub fn new_sketch_state() -> (s: SketchState)
        ensures
            s.wf(),
            s@ == Map::<Seq<char>, Seq<char>>::empty(),
    {
        SketchState::new()
    }
}

/// The named string values of one sketch.
pub struct SketchState {
    values: NameMap<String>,
}

impl View for SketchState {
    type V = Map<Seq<char>, Seq<char>>;

    closed spec fn view(&self) -> Map<Seq<char>, Seq<char>> {
        self.values@.map_values(|s: String| s@)
    }
}

/// The names held by `ids`, as a set.
pub open spec fn id_set(ids: Seq<String>) -> Set<Seq<char>> {
    string_views(ids).to_set()
}

/// What `create` returns and leaves, on a state with map `m`.
pub open spec fn create_spec(m: Map<Seq<char>, Seq<char>>, id: Seq<char>, value: Seq<char>) -> (Map<Seq<char>, Seq<char>>, Seq<char>) {
    if m.contains_key(id) {
        (m, m[id])
    } else {
        (m.insert(id, value), value)
    }
}

/// A value that was set is what a later `create` of the same id gives back,
/// whatever first value that `create` proposes.
pub proof fn law_create_after_set(m: Map<Seq<char>, Seq<char>>, id: Seq<char>, set_value: Seq<char>, proposed: Seq<char>)
    ensures
        create_spec(m.insert(id, set_value), id, proposed) == (m.insert(id, set_value), set_value),
{
}

/// Declaring the same value twice changes nothing the second time and gives
/// back the same value.
pub proof fn law_create_twice(m: Map<Seq<char>, Seq<char>>, id: Seq<char>, first: Seq<char>, second: Seq<char>)
    ensures
        create_spec(create_spec(m, id, first).0, id, second) == create_spec(m, id, first),
{
}

impl SketchState {
    pub closed spec fn wf(&self) -> bool {
        self.values.wf()
    }

    pub fn new() -> (s: Self)
        ensures
            s.wf(),
            s@ == Map::<Seq<char>, Seq<char>>::empty(),
    {
        let s = SketchState { values: NameMap::new() };
        assert(s@ =~= Map::<Seq<char>, Seq<char>>::empty());
        s
    }

    /// The value stored under `id`, if any.
    pub fn get(&self, id: &str) -> (r: Option<String>)
        requires
            self.wf(),
        ensures
            r is Some <==> self@.contains_key(id@),
            r matches Some(v) ==> v@ == self@[id@],
    {
        match self.values.get(id) {
            Some(v) => Some(v.clone()),
            None => None,
        }
    }

    /// Declares the value `id` with `value` as its first value: the value
    /// already stored under `id` wins, and `value` is stored only when there
    /// is none. Returns the stored value.
    pub fn create(&mut self, id: String, value: String) -> (r: String)
        requires
            old(self).wf(),
        ensures
            final(self).wf(),
            (final(self)@, r@) == create_spec(old(self)@, id@, value@),
    {
        match self.values.find(id.as_str()) {
            Some(i) => self.values.value_at(i).clone(),
            None => {
                let r = value.clone();
                self.values.push_new(id, value);
                proof {
                    assert(self@ =~= old(self)@.insert(id@, value@));
                }
                r
            },
        }
    }

    /// Stores `value` under `id`, replacing what was there.
    pub fn set(&mut self, id: String, value: String)
        requires
            old(self).wf(),
        ensures
            final(self).wf(),
            final(self)@ == old(self)@.insert(id@, value@),
    {
        let ghost k = id@;
        let ghost v = value@;
        self.values.insert(id, value);
        proof {
            assert(self@ =~= old(self)@.insert(k, v));
        }
    }

    /// Forgets every value whose id is not in `ids`.
    pub fn remove_unused(&mut self, ids: &Vec<String>)
        requires
            old(self).wf(),
        ensures
            final(self).wf(),
            final(self)@ == old(self)@.restrict(id_set(ids@)),
    {
        let ghost pre = self.values;
        let ghost keep = id_set(ids@);
        let ghost ns = pre.names_seq();
        let mut i = self.values.len();
        proof {
            assert(ns.take(i as int) =~= ns);
            assert forall|k: Seq<char>| pre@.contains_key(k) implies #[trigger] ns.take(i as int).contains(k) by {
                pre.lemma_dom(k);
            }
            assert(self.values@ =~= Map::new(
                |k: Seq<char>| pre@.contains_key(k) && (ns.take(i as int).contains(k) || keep.contains(k)),
                |k: Seq<char>| pre@[k],
            ));
        }
        while i > 0
            invariant
                self.values.wf(),
                pre.wf(),
                ns == pre.names_seq(),
                keep == id_set(ids@),
                i <= ns.len(),
                i <= self.values.names_seq().len(),
                self.values.names_seq().take(i as int) == ns.take(i as int),
                self.values@ == Map::new(
                    |k: Seq<char>| pre@.contains_key(k) && (ns.take(i as int).contains(k) || keep.contains(k)),
                    |k: Seq<char>| pre@[k],
                ),
            decreases i,
        {
            let ghost cur = self.values;
            i = i - 1;
            let ghost k = ns[i as int];
            proof {
                assert(ns.take(i + 1)[i as int] == k);
                assert(self.values.names_seq()[i as int] == k);
                assert(ns.take(i + 1) =~= ns.take(i as int).push(k));
                assert forall|q: Seq<char>| #[trigger] ns.take(i + 1).contains(q) <==> (ns.take(i as int).contains(q) || q == k) by {
                    lemma_push_contains(ns.take(i as int), k, q);
                }
                assert(!ns.take(i as int).contains(k)) by {
                    if ns.take(i as int).contains(k) {
                        let j = choose|j: int| 0 <= j < ns.take(i as int).len() && ns.take(i as int)[j] == k;
                        pre.lemma_distinct(j, i as int);
                    }
                }
                pre.lemma_entry(i as int);
            }
            let name = self.values.name_at(i);
            if !contains_name(ids, name.as_str()) {
                proof {
                    assert(!keep.contains(k)) by {
                        if keep.contains(k) {
                            let ms = string_views(ids@);
                            assert(ms.to_set().contains(k));
                            assert(ms.contains(k));
                        }
                    }
                }
                self.values.remove_at(i);
                proof {
                    assert(self.values.names_seq().take(i as int) =~= cur.names_seq().take(i as int));
                    assert(self.values@ =~= Map::new(
                        |q: Seq<char>| pre@.contains_key(q) && (ns.take(i as int).contains(q) || keep.contains(q)),
                        |q: Seq<char>| pre@[q],
                    ));
                }
            } else {
                proof {
                    assert(keep.contains(k)) by {
                        let ms = string_views(ids@);
                        assert(ms.contains(k));
                        assert(ms.to_set().contains(k));
                    }
                    assert(self.values.names_seq().take(i as int) =~= cur.names_seq().take(i as int)) by {
                        assert(cur.names_seq().take(i + 1).take(i as int) =~= cur.names_seq().take(i as int));
                        assert(ns.take(i + 1).take(i as int) =~= ns.take(i as int));
                    }
                    assert(self.values@ =~= Map::new(
                        |q: Seq<char>| pre@.contains_key(q) && (ns.take(i as int).contains(q) || keep.contains(q)),
                        |q: Seq<char>| pre@[q],
                    ));
                }
            }
        }
        proof {
            assert(ns.take(0) =~= Seq::<Seq<char>>::empty());
            assert(self@ =~= old(self)@.restrict(keep));
        }
    }
}

} // verus!
