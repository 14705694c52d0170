use vstd::prelude::*;
use vstd::string::*;

verus! {

/// A map from strings to values, kept as a list of entries with distinct keys.
pub struct StrMap<V> {
    entries: Vec<(String, V)>,
}

spec fn str_keys<V>(es: Seq<(String, V)>) -> Seq<Seq<char>> {
    es.map_values(|e: (String, V)| e.0@)
}

spec fn str_entries_map<V: View>(es: Seq<(String, V)>) -> Map<Seq<char>, V::V>
    decreases es.len(),
{
    if es.len() == 0 {
        Map::empty()
    } else {
        str_entries_map(es.drop_last()).insert(es.last().0@, es.last().1@)
    }
}

proof fn lemma_str_map_dom<V: View>(es: Seq<(String, V)>, k: Seq<char>)
    ensures
        str_entries_map(es).contains_key(k) <==> str_keys(es).contains(k),
    decreases es.len(),
{
    if es.len() > 0 {
        lemma_str_map_dom(es.drop_last(), k);
        let ks = str_keys(es);
        let ks0 = str_keys(es.drop_last());
        assert(ks0 =~= ks.drop_last());
        if ks.contains(k) {
            let i = choose|i: int| 0 <= i < ks.len() && ks[i] == k;
            if i < ks.len() - 1 {
                assert(ks0[i] == k);
            }
        }
        if ks0.contains(k) {
            let i = choose|i: int| 0 <= i < ks0.len() && ks0[i] == k;
            assert(ks[i] == k);
        }
        assert(ks[ks.len() - 1] == es.last().0@);
    }
}

proof fn lemma_str_map_at<V: View>(es: Seq<(String, V)>, i: int)
    requires
        str_keys(es).no_duplicates(),
        0 <= i < es.len(),
    ensures
        str_entries_map(es).contains_key(es[i].0@),
        str_entries_map(es)[es[i].0@] == es[i].1@,
    decreases es.len(),
{
    if i < es.len() - 1 {
        let d = es.drop_last();
        assert(str_keys(d) =~= str_keys(es).drop_last());
        assert(str_keys(es)[i] != str_keys(es)[es.len() - 1]);
        lemma_str_map_at(d, i);
    }
}

proof fn lemma_str_map_update<V: View>(es: Seq<(String, V)>, i: int, e: (String, V))
    requires
        str_keys(es).no_duplicates(),
        0 <= i < es.len(),
        e.0@ == es[i].0@,
    ensures
        str_entries_map(es.update(i, e)) == str_entries_map(es).insert(e.0@, e.1@),
        str_keys(es.update(i, e)) == str_keys(es),
    decreases es.len(),
{
    let u = es.update(i, e);
    assert(str_keys(u) =~= str_keys(es));
    let d = es.drop_last();
    if i == es.len() - 1 {
        assert(u.drop_last() =~= d);
        assert(str_entries_map(u) =~= str_entries_map(es).insert(e.0@, e.1@));
    } else {
        assert(str_keys(d) =~= str_keys(es).drop_last());
        lemma_str_map_update(d, i, e);
        assert(u.drop_last() =~= d.update(i, e));
        assert(str_keys(es)[i] != str_keys(es)[es.len() - 1]);
        assert(str_entries_map(u) =~= str_entries_map(es).insert(e.0@, e.1@));
    }
}

proof fn lemma_str_map_remove<V: View>(es: Seq<(String, V)>, i: int)
    requires
        str_keys(es).no_duplicates(),
        0 <= i < es.len(),
    ensures
        str_entries_map(es.remove(i)) == str_entries_map(es).remove(es[i].0@),
        str_keys(es.remove(i)).no_duplicates(),
    decreases es.len(),
{
    let r = es.remove(i);
    let k = es[i].0@;
    assert(str_keys(r) =~= str_keys(es).remove(i));
    let d = es.drop_last();
    assert(str_keys(d) =~= str_keys(es).drop_last());
    if i == es.len() - 1 {
        assert(r =~= d);
        lemma_str_map_dom(d, k);
        assert(!str_keys(d).contains(k)) by {
            if str_keys(d).contains(k) {
                let j = choose|j: int| 0 <= j < str_keys(d).len() && str_keys(d)[j] == k;
                assert(str_keys(es)[j] == str_keys(es)[i]);
            }
        }
        assert(str_entries_map(r) =~= str_entries_map(es).remove(k));
    } else {
        lemma_str_map_remove(d, i);
        assert(r.drop_last() =~= d.remove(i));
        assert(r.last() == es.last());
        assert(str_keys(es)[i] != str_keys(es)[es.len() - 1]);
        assert(str_entries_map(r) =~= str_entries_map(es).remove(k));
    }
}

impl<V: View> View for StrMap<V> {
    type V = Map<Seq<char>, V::V>;

    closed spec fn view(&self) -> Map<Seq<char>, V::V> {
        str_entries_map(self.entries@)
    }
}

impl<V> StrMap<V> {
    #[verifier::type_invariant]
    spec fn well_formed(self) -> bool {
        str_keys(self.entries@).no_duplicates()
    }
}

impl<V: View> StrMap<V> {
    pub fn new() -> (r: Self)
        ensures
            r@ == Map::<Seq<char>, V::V>::empty(),
    {
        let r = StrMap { entries: Vec::new() };
        assert(str_keys(r.entries@) =~= Seq::<Seq<char>>::empty());
        r
    }

    fn position(&self, k: &str) -> (r: Option<usize>)
        ensures
            r matches Some(i) ==> i < self.entries@.len() && self.entries@[i as int].0@ == k@,
            r is None ==> !str_keys(self.entries@).contains(k@),
    {
        let key = String::from_str(k);
        let mut i: usize = 0;
        while i < self.entries.len()
            invariant
                key@ == k@,
                i <= self.entries@.len(),
                forall|j: int| 0 <= j < i ==> self.entries@[j].0@ != k@,
            decreases self.entries@.len() - i,
        {
            if self.entries[i].0 == key {
                return Some(i);
            }
            i = i + 1;
        }
        assert forall|j: int| 0 <= j < str_keys(self.entries@).len() implies str_keys(
            self.entries@,
        )[j] != k@ by {
            assert(self.entries@[j].0@ != k@);
        }
        None
    }

    /// The value stored under `k`, if any.
    pub fn get(&self, k: &str) -> (r: Option<&V>)
        ensures
            r is Some <==> self@.contains_key(k@),
            r matches Some(v) ==> v@ == self@[k@],
    {
        proof {
            use_type_invariant(self);
            lemma_str_map_dom(self.entries@, k@);
        }
        match self.position(k) {
            Some(i) => {
                proof {
                    lemma_str_map_at(self.entries@, i as int);
                }
                Some(&self.entries[i].1)
            },
            None => None,
        }
    }

    /// Stores `v` under `k`, replacing what was stored there.
    pub fn insert(&mut self, k: String, v: V)
        ensures
            final(self)@ == old(self)@.insert(k@, v@),
    {
        proof {
            use_type_invariant(&*self);
        }
        let pos = self.position(k.as_str());
        let mut es: Vec<(String, V)> = Vec::new();
        std::mem::swap(&mut es, &mut self.entries);
        let ghost before = es@;
        match pos {
            Some(i) => {
                let ghost e = (k, v);
                proof {
                    lemma_str_map_update(before, i as int, e);
                }
                let _ = es.remove(i);
                es.insert(i, (k, v));
                assert(es@ =~= before.update(i as int, e));
            },
            None => {
                let ghost kv = k@;
                es.push((k, v));
                assert(str_keys(es@) =~= str_keys(before).push(kv));
                assert(es@.drop_last() =~= before);
            },
        }
        self.entries = es;
    }

    /// Removes and returns the value stored under `k`, if any.
    pub fn take(&mut self, k: &str) -> (r: Option<V>)
        ensures
            r is Some <==> old(self)@.contains_key(k@),
            r matches Some(v) ==> v@ == old(self)@[k@],
            final(self)@ == old(self)@.remove(k@),
    {
        proof {
            use_type_invariant(&*self);
            lemma_str_map_dom(self.entries@, k@);
        }
        match self.position(k) {
            Some(i) => {
                let mut es: Vec<(String, V)> = Vec::new();
                std::mem::swap(&mut es, &mut self.entries);
                proof {
                    lemma_str_map_at(es@, i as int);
                    lemma_str_map_remove(es@, i as int);
                }
                let (_, v) = es.remove(i);
                self.entries = es;
                Some(v)
            },
            None => {
                assert(old(self)@.remove(k@) =~= old(self)@);
                None
            },
        }
    }

    /// The keys, each once.
    pub fn keys(&self) -> (r: Vec<String>)
        ensures
            r@.len() == self@.dom().len(),
            forall|i: int, j: int|
                0 <= i < r@.len() && 0 <= j < r@.len() && i != j ==> (#[trigger] r@[i])@ != (
                #[trigger] r@[j])@,
            forall|i: int| 0 <= i < r@.len() ==> self@.contains_key(#[trigger] r@[i]@),
            forall|k: Seq<char>| #[trigger] self@.contains_key(k) ==> exists|i: int|
                0 <= i < r@.len() && r@[i]@ == k,
    {
        proof {
            use_type_invariant(self);
        }
        let mut r: Vec<String> = Vec::new();
        let mut i: usize = 0;
        while i < self.entries.len()
            invariant
                i <= self.entries@.len(),
                r@.len() == i,
                forall|j: int| 0 <= j < i ==> (#[trigger] r@[j])@ == self.entries@[j].0@,
            decreases self.entries@.len() - i,
        {
            r.push(self.entries[i].0.clone());
            i = i + 1;
        }
        proof {
            let ks = str_keys(self.entries@);
            assert forall|j: int| 0 <= j < r@.len() implies self@.contains_key(#[trigger] r@[j]@) by {
                assert(ks[j] == r@[j]@);
                lemma_str_map_dom(self.entries@, r@[j]@);
            }
            assert forall|k: Seq<char>| #[trigger] self@.contains_key(k) implies exists|j: int|
                0 <= j < r@.len() && r@[j]@ == k by {
                lemma_str_map_dom(self.entries@, k);
                let j = choose|j: int| 0 <= j < ks.len() && ks[j] == k;
                assert(r@[j]@ == k);
            }
            lemma_str_map_dom_len(self.entries@);
            assert forall|i: int, j: int|
                0 <= i < r@.len() && 0 <= j < r@.len() && i != j implies (#[trigger] r@[i])@ != (
                #[trigger] r@[j])@ by {
                assert(ks[i] == r@[i]@ && ks[j] == r@[j]@);
            }
        }
        r
    }
}

proof fn lemma_str_map_dom_len<V: View>(es: Seq<(String, V)>)
    requires
        str_keys(es).no_duplicates(),
    ensures
        str_entries_map(es).dom().len() == es.len(),
        str_entries_map(es).dom().finite(),
    decreases es.len(),
{
    if es.len() > 0 {
        let d = es.drop_last();
        assert(str_keys(d) =~= str_keys(es).drop_last());
        lemma_str_map_dom_len(d);
        lemma_str_map_dom(d, es.last().0@);
        assert(!str_keys(d).contains(es.last().0@)) by {
            if str_keys(d).contains(es.last().0@) {
                let j = choose|j: int| 0 <= j < str_keys(d).len() && str_keys(d)[j] == es.last().0@;
                assert(str_keys(es)[j] == str_keys(es)[es.len() - 1]);
            }
        }
    }
}

} // verus!
