//! Small deterministic maps: entries are kept in insertion order, each key at most once.
use vstd::prelude::*;

verus! {

/// Position of `k` in a duplicate-free sequence.
pub proof fn lemma_index_of_unique<K>(s: Seq<K>, i: int)
    requires
        s.no_duplicates(),
        0 <= i < s.len(),
    ensures
        s.contains(s[i]),
        s.index_of(s[i]) == i,
{
    assert(s.contains(s[i]));
    let j = s.index_of(s[i]);
    assert(0 <= j < s.len() && s[j] == s[i]);
}

/// A map from `u32` identifiers to values, in insertion order.
#[derive(Debug, Clone)]
pub struct IdMap<V> {
    keys: Vec<u32>,
    vals: Vec<V>,
}

impl<V> IdMap<V> {
    pub closed spec fn key_seq(&self) -> Seq<u32> {
        self.keys@
    }

    pub closed spec fn val_seq(&self) -> Seq<V> {
        self.vals@
    }

    pub open spec fn wf(&self) -> bool {
        &&& self.key_seq().len() == self.val_seq().len()
        &&& self.key_seq().no_duplicates()
    }

    pub open spec fn view(&self) -> Map<u32, V> {
        Map::new(
            |k: u32| self.key_seq().contains(k),
            |k: u32| self.val_seq()[self.key_seq().index_of(k)],
        )
    }

    pub open spec fn spec_len(&self) -> nat {
        self.key_seq().len()
    }

    pub fn new() -> (m: Self)
        ensures
            m.wf(),
            m.key_seq() == Seq::<u32>::empty(),
            m@ == Map::<u32, V>::empty(),
    {
        let m = IdMap { keys: Vec::new(), vals: Vec::new() };
        assert(m@ =~= Map::<u32, V>::empty());
        m
    }

    pub fn len(&self) -> (n: usize)
        requires
            self.wf(),
        ensures
            n == self.spec_len(),
    {
        self.keys.len()
    }

    fn find(&self, k: u32) -> (r: Option<usize>)
        requires
            self.wf(),
        ensures
            match r {
                Some(i) => i < self.key_seq().len() && self.key_seq()[i as int] == k,
                None => !self.key_seq().contains(k),
            },
    {
        let mut i: usize = 0;
        while i < self.keys.len()
            invariant
                self.wf(),
                i <= self.keys.len(),
                forall|j: int| 0 <= j < i ==> self.key_seq()[j] != k,
            decreases self.keys.len() - i,
        {
            if self.keys[i] == k {
                return Some(i);
            }
            i += 1;
        }
        None
    }

    pub fn contains_key(&self, k: u32) -> (b: bool)
        requires
            self.wf(),
        ensures
            b == self@.contains_key(k),
    {
        self.find(k).is_some()
    }

    pub fn get(&self, k: u32) -> (r: Option<&V>)
        requires
            self.wf(),
        ensures
            match r {
                Some(v) => self@.contains_key(k) && *v == self@[k],
                None => !self@.contains_key(k),
            },
    {
        match self.find(k) {
            Some(i) => {
                proof {
                    lemma_index_of_unique(self.key_seq(), i as int);
                }
                Some(&self.vals[i])
            },
            None => None,
        }
    }

    pub fn key_at(&self, i: usize) -> (k: u32)
        requires
            self.wf(),
            i < self.spec_len(),
        ensures
            k == self.key_seq()[i as int],
            self@.contains_key(k),
            self@[k] == self.val_seq()[i as int],
    {
        proof {
            lemma_index_of_unique(self.key_seq(), i as int);
        }
        self.keys[i]
    }

    pub fn val_at(&self, i: usize) -> (v: &V)
        requires
            self.wf(),
            i < self.spec_len(),
        ensures
            *v == self.val_seq()[i as int],
    {
        &self.vals[i]
    }

    /// Inserts or replaces; a new key goes last, an existing key keeps its place.
    pub fn insert(&mut self, k: u32, v: V)
        requires
            old(self).wf(),
        ensures
            final(self).wf(),
            final(self)@ == old(self)@.insert(k, v),
            old(self)@.contains_key(k) ==> final(self).key_seq() == old(self).key_seq(),
            !old(self)@.contains_key(k) ==> final(self).key_seq() == old(self).key_seq().push(k),
            !old(self)@.contains_key(k) ==> final(self).val_seq() == old(self).val_seq().push(v),
            old(self)@.contains_key(k) ==> final(self).val_seq() == old(self).val_seq().update(old(self).key_seq().index_of(k), v),
    {
        match self.find(k) {
            Some(i) => {
                self.vals.set(i, v);
                proof {
                    lemma_index_of_unique(old(self).key_seq(), i as int);
                    assert forall|kk: u32| #![auto] self.key_seq().contains(kk) implies self@[kk] == old(self)@.insert(k, v)[kk] by {
                        let j = self.key_seq().index_of(kk);
                        lemma_index_of_unique(self.key_seq(), j);
                        lemma_index_of_unique(old(self).key_seq(), j);
                    }
                    assert(self@ =~= old(self)@.insert(k, v));
                }
            },
            None => {
                self.keys.push(k);
                self.vals.push(v);
                proof {
                    let n = old(self).key_seq().len() as int;
                    assert forall|kk: u32| #![auto] self.key_seq().contains(kk) implies self@[kk] == old(self)@.insert(k, v)[kk] by {
                        let j = self.key_seq().index_of(kk);
                        lemma_index_of_unique(self.key_seq(), j);
                        if j < n {
                            lemma_index_of_unique(old(self).key_seq(), j);
                        }
                    }
                    assert forall|kk: u32| #![auto] self.key_seq().contains(kk) <==> old(self)@.insert(k, v).contains_key(kk) by {
                        if old(self).key_seq().contains(kk) {
                            let j = old(self).key_seq().index_of(kk);
                            assert(self.key_seq()[j] == kk);
                        }
                        if kk == k {
                            assert(self.key_seq()[n] == k);
                        }
                        if self.key_seq().contains(kk) {
                            let j = self.key_seq().index_of(kk);
                            if j < n {
                                assert(old(self).key_seq()[j] == kk);
                            }
                        }
                    }
                    assert(self@ =~= old(self)@.insert(k, v));
                }
            },
        }
    }

    /// Removes a key, keeping the order of the others.
    pub fn remove(&mut self, k: u32) -> (r: Option<V>)
        requires
            old(self).wf(),
        ensures
            final(self).wf(),
            final(self)@ == old(self)@.remove(k),
            match r {
                Some(v) => old(self)@.contains_key(k) && v == old(self)@[k],
                None => !old(self)@.contains_key(k),
            },
    {
        match self.find(k) {
            Some(i) => {
                proof {
                    lemma_index_of_unique(self.key_seq(), i as int);
                }
                self.keys.remove(i);
                let v = self.vals.remove(i);
                proof {
                    let o = old(self).key_seq();
                    let s = self.key_seq();
                    assert(s =~= o.remove(i as int));
                    assert forall|a: int, b: int| 0 <= a < s.len() && 0 <= b < s.len() && a != b implies s[a] != s[b] by {
                        let a2 = if a < i { a } else { a + 1 };
                        let b2 = if b < i { b } else { b + 1 };
                        assert(s[a] == o[a2] && s[b] == o[b2]);
                    }
                    assert forall|kk: u32| #![auto] s.contains(kk) <==> old(self)@.remove(k).contains_key(kk) by {
                        if s.contains(kk) {
                            let j = s.index_of(kk);
                            let j2 = if j < i { j } else { j + 1 };
                            assert(o[j2] == kk);
                            assert(j2 != i);
                        }
                        if old(self)@.remove(k).contains_key(kk) {
                            let j = o.index_of(kk);
                            assert(j != i);
                            let j2 = if j < i { j } else { j - 1 };
                            assert(s[j2] == kk);
                        }
                    }
                    assert forall|kk: u32| #![auto] s.contains(kk) implies self@[kk] == old(self)@.remove(k)[kk] by {
                        let j = s.index_of(kk);
                        lemma_index_of_unique(s, j);
                        let j2 = if j < i { j } else { j + 1 };
                        assert(o[j2] == kk);
                        lemma_index_of_unique(o, j2);
                    }
                    assert(self@ =~= old(self)@.remove(k));
                }
                Some(v)
            },
            None => {
                proof {
                    assert(self@ =~= old(self)@.remove(k));
                }
                None
            },
        }
    }

    pub fn clear(&mut self)
        requires
            old(self).wf(),
        ensures
            final(self).wf(),
            final(self)@ == Map::<u32, V>::empty(),
            final(self).key_seq() == Seq::<u32>::empty(),
    {
        self.keys.clear();
        self.vals.clear();
        assert(self@ =~= Map::<u32, V>::empty());
    }

    /// The keys, in insertion order.
    pub fn keys(&self) -> (ks: Vec<u32>)
        requires
            self.wf(),
        ensures
            ks@ == self.key_seq(),
    {
        let ks = self.keys.clone();
        assert(ks@ =~= self.keys@);
        ks
    }
}

/// The texts of a sequence of strings.
pub open spec fn views(s: Seq<String>) -> Seq<Seq<char>> {
    s.map_values(|x: String| x@)
}

/// A map from names to values, in insertion order.
#[derive(Debug, Clone)]
pub struct NameMap<V> {
    keys: Vec<String>,
    vals: Vec<V>,
}

impl<V> NameMap<V> {
    pub closed spec fn key_seq(&self) -> Seq<Seq<char>> {
        views(self.keys@)
    }

    pub closed spec fn val_seq(&self) -> Seq<V> {
        self.vals@
    }

    pub open spec fn wf(&self) -> bool {
        &&& self.key_seq().len() == self.val_seq().len()
        &&& self.key_seq().no_duplicates()
    }

    pub open spec fn view(&self) -> Map<Seq<char>, V> {
        Map::new(
            |k: Seq<char>| self.key_seq().contains(k),
            |k: Seq<char>| self.val_seq()[self.key_seq().index_of(k)],
        )
    }

    pub open spec fn spec_len(&self) -> nat {
        self.key_seq().len()
    }

    pub fn new() -> (m: Self)
        ensures
            m.wf(),
            m.key_seq() == Seq::<Seq<char>>::empty(),
            m@ == Map::<Seq<char>, V>::empty(),
    {
        let m = NameMap { keys: Vec::new(), vals: Vec::new() };
        assert(m@ =~= Map::<Seq<char>, V>::empty());
        m
    }

    pub fn len(&self) -> (n: usize)
        requires
            self.wf(),
        ensures
            n == self.spec_len(),
    {
        self.keys.len()
    }

    fn find(&self, k: &str) -> (r: Option<usize>)
        requires
            self.wf(),
        ensures
            match r {
                Some(i) => i < self.key_seq().len() && self.key_seq()[i as int] == k@,
                None => !self.key_seq().contains(k@),
            },
    {
        let mut i: usize = 0;
        while i < self.keys.len()
            invariant
                self.wf(),
                i <= self.keys.len(),
                forall|j: int| 0 <= j < i ==> self.key_seq()[j] != k@,
            decreases self.keys.len() - i,
        {
            if crate::text::str_eq(self.keys[i].as_str(), k) {
                return Some(i);
            }
            i += 1;
        }
        None
    }

    pub fn contains_key(&self, k: &str) -> (b: bool)
        requires
            self.wf(),
        ensures
            b == self@.contains_key(k@),
    {
        self.find(k).is_some()
    }

    pub fn get(&self, k: &str) -> (r: Option<&V>)
        requires
            self.wf(),
        ensures
            match r {
                Some(v) => self@.contains_key(k@) && *v == self@[k@],
                None => !self@.contains_key(k@),
            },
    {
        match self.find(k) {
            Some(i) => {
                proof {
                    lemma_index_of_unique(self.key_seq(), i as int);
                }
                Some(&self.vals[i])
            },
            None => None,
        }
    }

    pub fn key_at(&self, i: usize) -> (k: &String)
        requires
            self.wf(),
            i < self.spec_len(),
        ensures
            k@ == self.key_seq()[i as int],
            self@.contains_key(k@),
            self@[k@] == self.val_seq()[i as int],
    {
        proof {
            lemma_index_of_unique(self.key_seq(), i as int);
        }
        &self.keys[i]
    }

    pub fn val_at(&self, i: usize) -> (v: &V)
        requires
            self.wf(),
            i < self.spec_len(),
        ensures
            *v == self.val_seq()[i as int],
    {
        &self.vals[i]
    }

    /// Inserts or replaces; a new key goes last, an existing key keeps its place.
    pub fn insert(&mut self, k: String, v: V)
        requires
            old(self).wf(),
        ensures
            final(self).wf(),
            final(self)@ == old(self)@.insert(k@, v),
            old(self)@.contains_key(k@) ==> final(self).key_seq() == old(self).key_seq(),
            !old(self)@.contains_key(k@) ==> final(self).key_seq() == old(self).key_seq().push(k@),
            !old(self)@.contains_key(k@) ==> final(self).val_seq() == old(self).val_seq().push(v),
            old(self)@.contains_key(k@) ==> final(self).val_seq() == old(self).val_seq().update(old(self).key_seq().index_of(k@), v),
    {
        match self.find(k.as_str()) {
            Some(i) => {
                self.vals.set(i, v);
                proof {
                    lemma_index_of_unique(old(self).key_seq(), i as int);
                    assert(self.key_seq() =~= old(self).key_seq());
                    assert forall|kk: Seq<char>| #![auto] self.key_seq().contains(kk) implies self@[kk] == old(self)@.insert(k@, v)[kk] by {
                        let j = self.key_seq().index_of(kk);
                        lemma_index_of_unique(self.key_seq(), j);
                        lemma_index_of_unique(old(self).key_seq(), j);
                    }
                    assert(self@ =~= old(self)@.insert(k@, v));
                }
            },
            None => {
                let ghost kv = k@;
                self.keys.push(k);
                self.vals.push(v);
                proof {
                    assert(self.key_seq() =~= old(self).key_seq().push(kv));
                    let n = old(self).key_seq().len() as int;
                    assert forall|kk: Seq<char>| #![auto] self.key_seq().contains(kk) implies self@[kk] == old(self)@.insert(k@, v)[kk] by {
                        let j = self.key_seq().index_of(kk);
                        lemma_index_of_unique(self.key_seq(), j);
                        if j < n {
                            lemma_index_of_unique(old(self).key_seq(), j);
                        }
                    }
                    assert forall|kk: Seq<char>| #![auto] self.key_seq().contains(kk) <==> old(self)@.insert(k@, v).contains_key(kk) by {
                        if old(self).key_seq().contains(kk) {
                            let j = old(self).key_seq().index_of(kk);
                            assert(self.key_seq()[j] == kk);
                        }
                        if kk == k@ {
                            assert(self.key_seq()[n] == k@);
                        }
                        if self.key_seq().contains(kk) {
                            let j = self.key_seq().index_of(kk);
                            if j < n {
                                assert(old(self).key_seq()[j] == kk);
                            }
                        }
                    }
                    assert(self@ =~= old(self)@.insert(k@, v));
                }
            },
        }
    }

    /// Removes a key, keeping the order of the others.
    pub fn remove(&mut self, k: &str) -> (r: Option<V>)
        requires
            old(self).wf(),
        ensures
            final(self).wf(),
            final(self)@ == old(self)@.remove(k@),
            match r {
                Some(v) => old(self)@.contains_key(k@) && v == old(self)@[k@],
                None => !old(self)@.contains_key(k@),
            },
    {
        match self.find(k) {
            Some(i) => {
                proof {
                    lemma_index_of_unique(self.key_seq(), i as int);
                }
                self.keys.remove(i);
                let v = self.vals.remove(i);
                proof {
                    let o = old(self).key_seq();
                    let s = self.key_seq();
                    assert(s =~= o.remove(i as int));
                    assert forall|a: int, b: int| 0 <= a < s.len() && 0 <= b < s.len() && a != b implies s[a] != s[b] by {
                        let a2 = if a < i { a } else { a + 1 };
                        let b2 = if b < i { b } else { b + 1 };
                        assert(s[a] == o[a2] && s[b] == o[b2]);
                    }
                    assert forall|kk: Seq<char>| #![auto] s.contains(kk) <==> old(self)@.remove(k@).contains_key(kk) by {
                        if s.contains(kk) {
                            let j = s.index_of(kk);
                            let j2 = if j < i { j } else { j + 1 };
                            assert(o[j2] == kk);
                            assert(j2 != i);
                        }
                        if old(self)@.remove(k@).contains_key(kk) {
                            let j = o.index_of(kk);
                            assert(j != i);
                            let j2 = if j < i { j } else { j - 1 };
                            assert(s[j2] == kk);
                        }
                    }
                    assert forall|kk: Seq<char>| #![auto] s.contains(kk) implies self@[kk] == old(self)@.remove(k@)[kk] by {
                        let j = s.index_of(kk);
                        lemma_index_of_unique(s, j);
                        let j2 = if j < i { j } else { j + 1 };
                        assert(o[j2] == kk);
                        lemma_index_of_unique(o, j2);
                    }
                    assert(self@ =~= old(self)@.remove(k@));
                }
                Some(v)
            },
            None => {
                proof {
                    assert(self@ =~= old(self)@.remove(k@));
                }
                None
            },
        }
    }

    pub fn clear(&mut self)
        requires
            old(self).wf(),
        ensures
            final(self).wf(),
            final(self)@ == Map::<Seq<char>, V>::empty(),
            final(self).key_seq() == Seq::<Seq<char>>::empty(),
    {
        self.keys.clear();
        self.vals.clear();
        assert(self@ =~= Map::<Seq<char>, V>::empty());
    }

    /// The keys, in insertion order.
    pub fn keys(&self) -> (ks: Vec<String>)
        requires
            self.wf(),
        ensures
            views(ks@) == self.key_seq(),
    {
        let mut ks: Vec<String> = Vec::new();
        let mut i: usize = 0;
        while i < self.keys.len()
            invariant
                i <= self.keys.len(),
                ks@.len() == i,
                forall|j: int| 0 <= j < i ==> #[trigger] ks@[j]@ == self.keys@[j]@,
            decreases self.keys.len() - i,
        {
            let c = self.keys[i].clone();
            ks.push(c);
            i += 1;
        }
        assert(views(ks@) =~= self.key_seq());
        ks
    }
}


impl<V: Clone> NameMap<V> {
    /// A copy: the same keys in the same order, each value cloned.
    pub fn duplicate(&self) -> (r: Self)
        requires
            self.wf(),
        ensures
            r.wf(),
            r.key_seq() == self.key_seq(),
            r@.dom() == self@.dom(),
            forall|k: Seq<char>| #[trigger] r@.contains_key(k) ==> cloned::<V>(self@[k], r@[k]),
    {
        let mut keys: Vec<String> = Vec::new();
        let mut i: usize = 0;
        while i < self.keys.len()
            invariant
                i <= self.keys.len(),
                keys@.len() == i,
                forall|j: int| 0 <= j < i ==> #[trigger] keys@[j]@ == self.keys@[j]@,
            decreases self.keys.len() - i,
        {
            let c = self.keys[i].clone();
            keys.push(c);
            i += 1;
        }
        let vals = self.vals.clone();
        let r = NameMap { keys, vals };
        assert(r.key_seq() =~= self.key_seq());
        assert(r@.dom() =~= self@.dom());
        r
    }
}

/// The texts a map of texts holds.
pub open spec fn text_map(m: Map<Seq<char>, String>) -> Map<Seq<char>, Seq<char>> {
    m.map_values(|v: String| v@)
}

pub proof fn lemma_text_map_empty()
    ensures
        text_map(Map::<Seq<char>, String>::empty()) == Map::<Seq<char>, Seq<char>>::empty(),
{
    assert(text_map(Map::<Seq<char>, String>::empty()) =~= Map::<Seq<char>, Seq<char>>::empty());
}

impl NameMap<String> {
    /// An empty map of texts.
    pub fn new_texts() -> (m: Self)
        ensures
            m.wf(),
            text_map(m@) == Map::<Seq<char>, Seq<char>>::empty(),
    {
        proof {
            lemma_text_map_empty();
        }
        NameMap::new()
    }

    /// Sets the text under a name.
    pub fn put(&mut self, k: &str, v: &str)
        requires
            old(self).wf(),
        ensures
            final(self).wf(),
            text_map(final(self)@) == text_map(old(self)@).insert(k@, v@),
    {
        let ghost before = self@;
        self.insert(k.to_owned(), v.to_owned());
        assert(text_map(self@) =~= text_map(before).insert(k@, v@));
    }
}

/// Whether a list of texts holds `s`.
pub fn contains_text(v: &Vec<String>, s: &str) -> (r: bool)
    ensures
        r == views(v@).contains(s@),
{
    let mut i: usize = 0;
    while i < v.len()
        invariant
            i <= v@.len(),
            forall|j: int| 0 <= j < i ==> v@[j]@ != s@,
        decreases v@.len() - i,
    {
        if crate::text::str_eq(v[i].as_str(), s) {
            assert(views(v@)[i as int] == s@);
            return true;
        }
        i += 1;
    }
    proof {
        if views(v@).contains(s@) {
            let j = choose|j: int| 0 <= j < views(v@).len() && views(v@)[j] == s@;
            assert(v@[j]@ == s@);
        }
    }
    false
}

/// A copy of a list of texts.
pub fn copy_texts(v: &Vec<String>) -> (r: Vec<String>)
    ensures
        views(r@) == views(v@),
{
    let mut r: Vec<String> = Vec::new();
    let mut i: usize = 0;
    while i < v.len()
        invariant
            i <= v@.len(),
            views(r@) == views(v@).take(i as int),
        decreases v@.len() - i,
    {
        let ghost before = views(r@);
        r.push(v[i].clone());
        assert(views(r@) =~= before.push(v@[i as int]@));
        assert(views(v@).take(i + 1) =~= views(v@).take(i as int).push(v@[i as int]@));
        i += 1;
    }
    assert(views(v@).take(v@.len() as int) =~= views(v@));
    r
}

} // verus!
