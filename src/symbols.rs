use vstd::prelude::*;

verus! {

/// A table from names to values in which each name occurs once.
pub struct SymbolTable<V> {
    entries: Vec<(String, V)>,
}

/// The map that a list of entries denotes; a later entry overrides an
/// earlier one of the same name.
pub open spec fn entries_map<V>(s: Seq<(String, V)>) -> Map<Seq<char>, V>
    decreases s.len(),
{
    if s.len() == 0 {
        Map::empty()
    } else {
        entries_map(s.drop_last()).insert(s.last().0@, s.last().1)
    }
}

pub open spec fn unique_names<V>(s: Seq<(String, V)>) -> bool {
    forall|i: int, j: int| 0 <= i < j < s.len() ==> s[i].0@ != s[j].0@
}

proof fn lemma_entries_map_push<V>(s: Seq<(String, V)>, e: (String, V))
    ensures
        entries_map(s.push(e)) == entries_map(s).insert(e.0@, e.1),
{
    assert(s.push(e).drop_last() =~= s);
}

proof fn lemma_entries_map_domain<V>(s: Seq<(String, V)>, k: Seq<char>)
    ensures
        entries_map(s).contains_key(k) <==> exists|i: int| 0 <= i < s.len() && s[i].0@ == k,
    decreases s.len(),
{
    if s.len() > 0 {
        lemma_entries_map_domain(s.drop_last(), k);
        if entries_map(s).contains_key(k) && k != s.last().0@ {
            let i = choose|i: int| 0 <= i < s.len() - 1 && s.drop_last()[i].0@ == k;
            assert(s[i].0@ == k);
        }
        if exists|i: int| 0 <= i < s.len() && s[i].0@ == k {
            let i = choose|i: int| 0 <= i < s.len() && s[i].0@ == k;
            if i < s.len() - 1 {
                assert(s.drop_last()[i].0@ == k);
            }
        }
    }
}

proof fn lemma_entries_map_index<V>(s: Seq<(String, V)>, i: int)
    requires
        unique_names(s),
        0 <= i < s.len(),
    ensures
        entries_map(s).contains_key(s[i].0@),
        entries_map(s)[s[i].0@] == s[i].1,
    decreases s.len(),
{
    if i < s.len() - 1 {
        lemma_entries_map_index(s.drop_last(), i);
    }
}

proof fn lemma_entries_map_update<V>(s: Seq<(String, V)>, j: int, v: V)
    requires
        unique_names(s),
        0 <= j < s.len(),
    ensures
        entries_map(s.update(j, (s[j].0, v))) == entries_map(s).insert(s[j].0@, v),
    decreases s.len(),
{
    let t = s.update(j, (s[j].0, v));
    if j == s.len() - 1 {
        assert(t.drop_last() =~= s.drop_last());
    } else {
        lemma_entries_map_update(s.drop_last(), j, v);
        assert(t.drop_last() =~= s.drop_last().update(j, (s[j].0, v)));
        assert(entries_map(t) =~= entries_map(s).insert(s[j].0@, v));
    }
}

impl<V> View for SymbolTable<V> {
    type V = Map<Seq<char>, V>;

    closed spec fn view(&self) -> Map<Seq<char>, V> {
        entries_map(self.entries@)
    }
}

impl<V: Copy> SymbolTable<V> {
    pub closed spec fn wf(&self) -> bool {
        unique_names(self.entries@)
    }

    /// The entries, one per name, in the order the names were first bound.
    pub closed spec fn entries_spec(&self) -> Seq<(String, V)> {
        self.entries@
    }

    pub fn new() -> (r: Self)
        ensures
            r.wf(),
            r@ == Map::<Seq<char>, V>::empty(),
    {
        SymbolTable { entries: Vec::new() }
    }

    pub fn get(&self, name: &String) -> (r: Option<V>)
        requires
            self.wf(),
        ensures
            r == (if self@.contains_key(name@) {
                Some(self@[name@])
            } else {
                None::<V>
            }),
    {
        let mut i: usize = 0;
        while i < self.entries.len()
            invariant
                i <= self.entries@.len(),
                unique_names(self.entries@),
                forall|j: int| 0 <= j < i ==> self.entries@[j].0@ != name@,
            decreases self.entries@.len() - i,
        {
            if self.entries[i].0 == *name {
                proof {
                    lemma_entries_map_index(self.entries@, i as int);
                }
                return Some(self.entries[i].1);
            }
            i = i + 1;
        }
        proof {
            lemma_entries_map_domain(self.entries@, name@);
        }
        None
    }

    /// Binds `name` to `value`, replacing an earlier binding of the name.
    pub fn insert(&mut self, name: String, value: V)
        requires
            old(self).wf(),
        ensures
            final(self).wf(),
            final(self)@ == old(self)@.insert(name@, value),
            forall|i: int| 0 <= i < old(self).entries_spec().len()
                ==> #[trigger] final(self).entries_spec()[i].0 == old(self).entries_spec()[i].0,
            final(self).entries_spec().len() == old(self).entries_spec().len()
                + (if old(self)@.contains_key(name@) { 0int } else { 1int }),
    {
        let mut i: usize = 0;
        while i < self.entries.len()
            invariant
                i <= self.entries@.len(),
                self.entries@ == old(self).entries@,
                unique_names(self.entries@),
                forall|j: int| 0 <= j < i ==> self.entries@[j].0@ != name@,
            decreases self.entries@.len() - i,
        {
            if self.entries[i].0 == name {
                proof {
                    lemma_entries_map_update(self.entries@, i as int, value);
                    lemma_entries_map_domain(self.entries@, name@);
                }
                let key = self.entries[i].0.clone();
                self.entries.set(i, (key, value));
                assert(forall|j: int| 0 <= j < self.entries@.len() ==> #[trigger] self.entries@[j].0@ == old(self).entries@[j].0@);
                return;
            }
            i = i + 1;
        }
        proof {
            lemma_entries_map_push(self.entries@, (name, value));
            lemma_entries_map_domain(self.entries@, name@);
        }
        self.entries.push((name, value));
        assert(forall|j: int| 0 <= j < old(self).entries@.len() ==> #[trigger] self.entries@[j] == old(self).entries@[j]);
    }

    /// Removes every binding.
    pub fn clear(&mut self)
        ensures
            final(self).wf(),
            final(self)@ == Map::<Seq<char>, V>::empty(),
            final(self).entries_spec().len() == 0,
    {
        self.entries = Vec::new();
    }

    /// A copy of the entries, one per name.
    pub fn entries(&self) -> (r: Vec<(String, V)>)
        ensures
            r@ == self.entries_spec(),
    {
        let mut r: Vec<(String, V)> = Vec::new();
        let mut i: usize = 0;
        while i < self.entries.len()
            invariant
                i <= self.entries@.len(),
                r@ == self.entries@.subrange(0, i as int),
            decreases self.entries@.len() - i,
        {
            r.push((self.entries[i].0.clone(), self.entries[i].1));
            i = i + 1;
        }
        assert(r@ =~= self.entries@);
        r
    }
}

impl<V: Copy> SymbolTable<V> {
    /// Each name in the view maps to the value of its one entry.
    pub proof fn lemma_entry(&self, i: int)
        requires
            self.wf(),
            0 <= i < self.entries_spec().len(),
        ensures
            self@.contains_key(self.entries_spec()[i].0@),
            self@[self.entries_spec()[i].0@] == self.entries_spec()[i].1,
    {
        lemma_entries_map_index(self.entries@, i);
    }

    /// No two entries share a name.
    pub proof fn lemma_distinct(&self, i: int, j: int)
        requires
            self.wf(),
            0 <= i < self.entries_spec().len(),
            0 <= j < self.entries_spec().len(),
            i != j,
        ensures
            self.entries_spec()[i].0@ != self.entries_spec()[j].0@,
    {
    }
}

} // verus!
