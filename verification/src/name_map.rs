use vstd::prelude::*;

verus! {

/// An element of `s.push(x)` is an element of `s` or `x` itself.
pub proof fn lemma_push_contains<A>(s: Seq<A>, x: A, k: A)
    ensures
        s.push(x).contains(k) <==> (s.contains(k) || k == x),
{
    if s.push(x).contains(k) {
        let j = choose|j: int| 0 <= j < s.push(x).len() && s.push(x)[j] == k;
        if j < s.len() {
            assert(s[j] == k);
        }
    }
    if s.contains(k) {
        let j = choose|j: int| 0 <= j < s.len() && s[j] == k;
        assert(s.push(x)[j] == k);
    }
    if k == x {
        assert(s.push(x)[s.len() as int] == k);
    }
}

/// The texts of a sequence of strings.
pub open spec fn string_views(v: Seq<String>) -> Seq<Seq<char>> {
    v.map_values(|s: String| s@)
}

/// Whether `names` holds `name`.
pub fn contains_name(names: &Vec<String>, name: &str) -> (r: bool)
    ensures
        r == string_views(names@).contains(name@),
{
    let key = name.to_owned();
    let mut i: usize = 0;
    while i < names.len()
        invariant
            key@ == name@,
            i <= names@.len(),
            forall|j: int| 0 <= j < i ==> names@[j]@ != name@,
        decreases names@.len() - i,
    {
        if names[i] == key {
            proof {
                assert(string_views(names@)[i as int] == name@);
            }
            return true;
        }
        i = i + 1;
    }
    proof {
        let ns = string_views(names@);
        if ns.contains(name@) {
            let j = choose|j: int| 0 <= j < ns.len() && ns[j] == name@;
            assert(names@[j]@ == name@);
        }
    }
    false
}

/// A map from names to values, kept in insertion order, in which no name
/// occurs twice. Its view is the mathematical map from each name's text to
/// its value.
pub struct NameMap<V> {
    names: Vec<String>,
    values: Vec<V>,
}

impl<V> NameMap<V> {
    /// The names, in the order in which they were first inserted.
    pub closed spec fn names_seq(&self) -> Seq<Seq<char>> {
        string_views(self.names@)
    }

    /// The values, position by position with `names_seq`.
    pub closed spec fn values_seq(&self) -> Seq<V> {
        self.values@
    }

    /// Names and values line up, and no name occurs twice.
    pub closed spec fn wf(&self) -> bool {
        &&& self.names@.len() == self.values@.len()
        &&& forall|i: int, j: int|
            0 <= i < self.names@.len() && 0 <= j < self.names@.len() && i != j
                ==> self.names@[i]@ != self.names@[j]@
    }

    pub open spec fn has(&self, k: Seq<char>) -> bool {
        self.names_seq().contains(k)
    }

    closed spec fn index_of(&self, k: Seq<char>) -> int {
        choose|i: int| 0 <= i < self.names@.len() && self.names@[i]@ == k
    }

    closed spec fn view_map(&self) -> Map<Seq<char>, V> {
        Map::new(|k: Seq<char>| self.has(k), |k: Seq<char>| self.values@[self.index_of(k)])
    }

    proof fn lemma_has(&self, k: Seq<char>)
        ensures
            self.has(k) <==> exists|i: int| 0 <= i < self.names@.len() && self.names@[i]@ == k,
    {
        if self.has(k) {
            let i = choose|i: int| 0 <= i < self.names_seq().len() && self.names_seq()[i] == k;
            assert(self.names@[i]@ == k);
        }
        if exists|i: int| 0 <= i < self.names@.len() && self.names@[i]@ == k {
            let i = choose|i: int| 0 <= i < self.names@.len() && self.names@[i]@ == k;
            assert(self.names_seq()[i] == k);
        }
    }

    /// The entry at position `i` is what the view holds for its name.
    pub proof fn lemma_entry(&self, i: int)
        requires
            self.wf(),
            0 <= i < self.names_seq().len(),
        ensures
            self.names_seq().len() == self.values_seq().len(),
            self@.contains_key(self.names_seq()[i]),
            self@[self.names_seq()[i]] == self.values_seq()[i],
    {
        let k = self.names@[i]@;
        assert(self.names_seq()[i] == k);
        self.lemma_has(k);
        assert(0 <= i < self.names@.len() && self.names@[i]@ == k);
        let j = self.index_of(k);
        assert(0 <= j < self.names@.len() && self.names@[j]@ == k);
        assert(j == i);
    }

    /// No name occurs at two positions.
    pub proof fn lemma_distinct(&self, i: int, j: int)
        requires
            self.wf(),
            0 <= i < self.names_seq().len(),
            0 <= j < self.names_seq().len(),
            i != j,
        ensures
            self.names_seq()[i] != self.names_seq()[j],
    {
    }

    /// Every name of the view occurs in `names_seq`, and only those.
    pub proof fn lemma_dom(&self, k: Seq<char>)
        requires
            self.wf(),
        ensures
            self@.contains_key(k) <==> self.names_seq().contains(k),
            self.names_seq().len() == self.values_seq().len(),
    {
    }

    pub fn new() -> (m: Self)
        ensures
            m.wf(),
            m@ == Map::<Seq<char>, V>::empty(),
            m.names_seq() == Seq::<Seq<char>>::empty(),
    {
        let m = NameMap { names: Vec::new(), values: Vec::new() };
        assert(m.names_seq() =~= Seq::<Seq<char>>::empty());
        assert(m@ =~= Map::<Seq<char>, V>::empty());
        m
    }

    pub fn len(&self) -> (n: usize)
        requires
            self.wf(),
        ensures
            n == self.names_seq().len(),
            n == self@.len(),
    {
        proof {
            self.lemma_dom_len();
        }
        self.names.len()
    }

    proof fn lemma_dom_len(&self)
        requires
            self.wf(),
        ensures
            self@.dom().finite(),
            self@.len() == self.names_seq().len(),
        decreases self.names@.len(),
    {
        let n = self.names@.len();
        let s = self.names_seq();
        assert(self@.dom() =~= s.to_set());
        s.unique_seq_to_set();
        assert(s.no_duplicates()) by {
            assert forall|i: int, j: int| 0 <= i < s.len() && 0 <= j < s.len() && i != j
                implies s[i] != s[j] by {
                assert(s[i] == self.names@[i]@);
                assert(s[j] == self.names@[j]@);
            }
        }
    }

    /// The position of `name`, if it is present.
    pub fn find(&self, name: &str) -> (r: Option<usize>)
        requires
            self.wf(),
        ensures
            r is Some <==> self@.contains_key(name@),
            r matches Some(i) ==> {
                &&& i < self.names_seq().len()
                &&& self.names_seq()[i as int] == name@
                &&& self.values_seq()[i as int] == self@[name@]
            },
    {
        let key = name.to_owned();
        let mut i: usize = 0;
        while i < self.names.len()
            invariant
                self.wf(),
                key@ == name@,
                i <= self.names@.len(),
                forall|j: int| 0 <= j < i ==> self.names@[j]@ != name@,
            decreases self.names@.len() - i,
        {
            if self.names[i] == key {
                proof {
                    assert(self.names_seq()[i as int] == name@);
                    self.lemma_entry(i as int);
                }
                return Some(i);
            }
            i = i + 1;
        }
        proof {
            self.lemma_has(name@);
        }
        None
    }

    /// The value stored under `name`, if any.
    pub fn get(&self, name: &str) -> (r: Option<&V>)
        requires
            self.wf(),
        ensures
            r is Some <==> self@.contains_key(name@),
            r matches Some(v) ==> *v == self@[name@],
    {
        match self.find(name) {
            Some(i) => Some(&self.values[i]),
            None => None,
        }
    }

    /// The value at position `i`.
    pub fn value_at(&self, i: usize) -> (r: &V)
        requires
            self.wf(),
            i < self.names_seq().len(),
        ensures
            *r == self.values_seq()[i as int],
            *r == self@[self.names_seq()[i as int]],
    {
        proof {
            self.lemma_entry(i as int);
        }
        &self.values[i]
    }

    /// The name at position `i`.
    pub fn name_at(&self, i: usize) -> (r: &String)
        requires
            self.wf(),
            i < self.names_seq().len(),
        ensures
            r@ == self.names_seq()[i as int],
    {
        &self.names[i]
    }

    /// The names, in order.
    pub fn names(&self) -> (r: Vec<String>)
        requires
            self.wf(),
        ensures
            string_views(r@) == self.names_seq(),
    {
        let mut r: Vec<String> = Vec::new();
        let mut i: usize = 0;
        while i < self.names.len()
            invariant
                self.wf(),
                i <= self.names@.len(),
                r@ == self.names@.subrange(0, i as int),
            decreases self.names@.len() - i,
        {
            r.push(self.names[i].clone());
            i = i + 1;
            assert(r@ =~= self.names@.subrange(0, i as int));
        }
        assert(r@ =~= self.names@);
        r
    }

    /// Replaces the value at position `i`.
    pub fn set_at(&mut self, i: usize, value: V)
        requires
            old(self).wf(),
            i < old(self).names_seq().len(),
        ensures
            final(self).wf(),
            final(self).names_seq() == old(self).names_seq(),
            final(self).values_seq() == old(self).values_seq().update(i as int, value),
            final(self)@ == old(self)@.insert(old(self).names_seq()[i as int], value),
    {
        let ghost pre = *self;
        self.values.set(i, value);
        proof {
            assert(self.names@ == pre.names@);
            assert(self.names_seq() =~= pre.names_seq());
            let k = pre.names_seq()[i as int];
            assert forall|q: Seq<char>| #[trigger] self@.contains_key(q) <==> pre@.insert(k, value).contains_key(q) by {
                self.lemma_has(q);
                pre.lemma_has(q);
                if q == k {
                    pre.lemma_entry(i as int);
                }
            }
            assert forall|q: Seq<char>| #[trigger] self@.contains_key(q) implies self@[q] == pre@.insert(k, value)[q] by {
                self.lemma_has(q);
                let j = choose|j: int| 0 <= j < self.names@.len() && self.names@[j]@ == q;
                self.lemma_entry(j);
                assert(self.names_seq()[j] == q);
                if j != i {
                    pre.lemma_entry(j);
                    assert(pre.names_seq()[j] == q);
                } else {
                    assert(q == k);
                }
            }
            assert(self@ =~= pre@.insert(k, value));
        }
    }

    /// Stores `value` under `name`: replaces the value if `name` is present,
    /// and appends a new entry otherwise.
    pub fn insert(&mut self, name: String, value: V)
        requires
            old(self).wf(),
        ensures
            final(self).wf(),
            final(self)@ == old(self)@.insert(name@, value),
            old(self)@.contains_key(name@) ==> final(self).names_seq() == old(self).names_seq(),
            !old(self)@.contains_key(name@) ==> final(self).names_seq() == old(self).names_seq().push(name@),
    {
        match self.find(name.as_str()) {
            Some(i) => {
                self.set_at(i, value);
            },
            None => {
                self.push_new(name, value);
            },
        }
    }

    /// Appends an entry for a name that is not present yet.
    pub fn push_new(&mut self, name: String, value: V)
        requires
            old(self).wf(),
            !old(self)@.contains_key(name@),
        ensures
            final(self).wf(),
            final(self)@ == old(self)@.insert(name@, value),
            final(self).names_seq() == old(self).names_seq().push(name@),
            final(self).values_seq() == old(self).values_seq().push(value),
    {
        let ghost pre = *self;
        let ghost k = name@;
        proof {
            pre.lemma_has(k);
        }
        self.names.push(name);
        self.values.push(value);
        proof {
            let n = pre.names@.len();
            assert(self.names_seq() =~= pre.names_seq().push(k));
            assert(self.wf()) by {
                assert forall|i: int, j: int|
                    0 <= i < self.names@.len() && 0 <= j < self.names@.len() && i != j
                    implies self.names@[i]@ != self.names@[j]@ by {
                    if i < n && j < n {
                        assert(self.names@[i] == pre.names@[i]);
                        assert(self.names@[j] == pre.names@[j]);
                    } else if i == n {
                        assert(self.names@[j] == pre.names@[j]);
                    } else {
                        assert(self.names@[i] == pre.names@[i]);
                    }
                }
            }
            assert forall|q: Seq<char>| #[trigger] self@.contains_key(q) <==> pre@.insert(k, value).contains_key(q) by {
                self.lemma_has(q);
                pre.lemma_has(q);
                if q == k {
                    assert(self.names@[n as int]@ == k);
                } else if pre.has(q) {
                    let j = choose|j: int| 0 <= j < pre.names@.len() && pre.names@[j]@ == q;
                    assert(self.names@[j] == pre.names@[j]);
                }
            }
            assert forall|q: Seq<char>| #[trigger] self@.contains_key(q) implies self@[q] == pre@.insert(k, value)[q] by {
                self.lemma_has(q);
                let j = choose|j: int| 0 <= j < self.names@.len() && self.names@[j]@ == q;
                self.lemma_entry(j);
                assert(self.names_seq()[j] == q);
                if j < n {
                    assert(self.names@[j] == pre.names@[j]);
                    pre.lemma_entry(j);
                    assert(pre.names_seq()[j] == q);
                }
            }
            assert(self@ =~= pre@.insert(k, value));
        }
    }

    /// Removes the entry at position `i` and returns it.
    pub fn remove_at(&mut self, i: usize) -> (r: (String, V))
        requires
            old(self).wf(),
            i < old(self).names_seq().len(),
        ensures
            final(self).wf(),
            r.0@ == old(self).names_seq()[i as int],
            r.1 == old(self).values_seq()[i as int],
            r.1 == old(self)@[r.0@],
            final(self)@ == old(self)@.remove(r.0@),
            final(self).names_seq() == old(self).names_seq().remove(i as int),
            final(self).values_seq() == old(self).values_seq().remove(i as int),
    {
        let ghost pre = *self;
        proof {
            pre.lemma_entry(i as int);
        }
        let name = self.names.remove(i);
        let value = self.values.remove(i);
        proof {
            let k = name@;
            let n = pre.names@.len();
            assert(self.names_seq() =~= pre.names_seq().remove(i as int));
            assert forall|a: int| 0 <= a < self.names@.len() implies #[trigger] self.names@[a] == pre.names@[
                if a < i { a } else { a + 1 }] by {}
            assert(self.wf()) by {
                assert forall|a: int, b: int|
                    0 <= a < self.names@.len() && 0 <= b < self.names@.len() && a != b
                    implies self.names@[a]@ != self.names@[b]@ by {
                    let a0 = if a < i { a } else { a + 1 };
                    let b0 = if b < i { b } else { b + 1 };
                    assert(self.names@[a] == pre.names@[a0]);
                    assert(self.names@[b] == pre.names@[b0]);
                }
            }
            assert forall|q: Seq<char>| #[trigger] self@.contains_key(q) <==> pre@.remove(k).contains_key(q) by {
                self.lemma_has(q);
                pre.lemma_has(q);
                if self.has(q) {
                    let a = choose|a: int| 0 <= a < self.names@.len() && self.names@[a]@ == q;
                    let a0 = if a < i { a } else { a + 1 };
                    assert(self.names@[a] == pre.names@[a0]);
                    assert(a0 != i);
                }
                if pre.has(q) && q != k {
                    let a0 = choose|a: int| 0 <= a < pre.names@.len() && pre.names@[a]@ == q;
                    assert(a0 != i);
                    let a = if a0 < i { a0 } else { a0 - 1 };
                    assert(self.names@[a] == pre.names@[a0]);
                }
            }
            assert forall|q: Seq<char>| #[trigger] self@.contains_key(q) implies self@[q] == pre@.remove(k)[q] by {
                self.lemma_has(q);
                let a = choose|a: int| 0 <= a < self.names@.len() && self.names@[a]@ == q;
                self.lemma_entry(a);
                assert(self.names_seq()[a] == q);
                let a0 = if a < i { a } else { a + 1 };
                assert(self.names@[a] == pre.names@[a0]);
                assert(self.values@[a] == pre.values@[a0]);
                pre.lemma_entry(a0);
                assert(pre.names_seq()[a0] == q);
            }
            assert(self@ =~= pre@.remove(k));
        }
        (name, value)
    }

    /// Removes the entry for `name`, if present, and returns its value.
    pub fn remove(&mut self, name: &str) -> (r: Option<V>)
        requires
            old(self).wf(),
        ensures
            final(self).wf(),
            final(self)@ == old(self)@.remove(name@),
            r is Some <==> old(self)@.contains_key(name@),
            r matches Some(v) ==> v == old(self)@[name@],
    {
        match self.find(name) {
            Some(i) => {
                let (_, v) = self.remove_at(i);
                Some(v)
            },
            None => {
                proof {
                    assert(self@ =~= self@.remove(name@));
                }
                None
            },
        }
    }
}

impl<V: Copy> NameMap<V> {
    /// A copy of the map, entry by entry.
    pub fn duplicate(&self) -> (r: Self)
        requires
            self.wf(),
        ensures
            r.wf(),
            r@ == self@,
            r.names_seq() == self.names_seq(),
            r.values_seq() == self.values_seq(),
    {
        let mut names: Vec<String> = Vec::new();
        let mut values: Vec<V> = Vec::new();
        let n = self.names.len();
        let mut i: usize = 0;
        while i < n
            invariant
                self.wf(),
                n == self.names@.len(),
                i <= n,
                names@ == self.names@.subrange(0, i as int),
                values@ == self.values@.subrange(0, i as int),
            decreases n - i,
        {
            names.push(self.names[i].clone());
            values.push(self.values[i]);
            i = i + 1;
            assert(names@ =~= self.names@.subrange(0, i as int));
            assert(values@ =~= self.values@.subrange(0, i as int));
        }
        assert(names@ =~= self.names@);
        assert(values@ =~= self.values@);
        NameMap { names, values }
    }
}

impl<V> View for NameMap<V> {
    type V = Map<Seq<char>, V>;

    closed spec fn view(&self) -> Map<Seq<char>, V> {
        self.view_map()
    }
}

} // verus!
