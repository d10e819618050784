//! Interning: one number for each distinct text.
use vstd::prelude::*;
use crate::maps::{NameMap, views};

verus! {

/// The texts after interning `s` into `v`, and the number `s` gets.
pub open spec fn interned(v: Seq<Seq<char>>, s: Seq<char>) -> (Seq<Seq<char>>, nat) {
    if v.contains(s) {
        (v, v.index_of(s) as nat)
    } else {
        (v.push(s), v.len())
    }
}

/// The text numbered `id`, if any.
pub open spec fn resolved(v: Seq<Seq<char>>, id: nat) -> Option<Seq<char>> {
    if id < v.len() {
        Some(v[id as int])
    } else {
        None
    }
}

/// Distinct texts, numbered in the order they were first interned.
pub struct StringInterner {
    strings: Vec<String>,
    string_to_id: NameMap<usize>,
}

impl StringInterner {
    /// The interned texts, by number. The index from text to number is no
    /// part of it: `wf` fixes that index as the one this sequence gives.
    pub closed spec fn view(&self) -> Seq<Seq<char>> {
        views(self.strings@)
    }

    pub closed spec fn wf(&self) -> bool {
        &&& self.string_to_id.wf()
        &&& self.string_to_id.key_seq() == views(self.strings@)
        &&& forall|i: int| 0 <= i < self.strings@.len() ==> #[trigger] self.string_to_id.val_seq()[i] == i
    }

    pub fn new() -> (s: Self)
        ensures
            s.wf(),
            s@ == Seq::<Seq<char>>::empty(),
    {
        let s = StringInterner { strings: Vec::new(), string_to_id: NameMap::new() };
        assert(views(s.strings@) =~= Seq::<Seq<char>>::empty());
        s
    }

    /// The number of `s`: the one it already has, or the next one.
    pub fn intern(&mut self, s: &str) -> (id: usize)
        requires
            old(self).wf(),
        ensures
            final(self).wf(),
            (final(self)@, id as nat) == interned(old(self)@, s@),
    {
        match self.string_to_id.get(s) {
            Some(idr) => {
                let id = *idr;
                proof {
                    let ks = self.string_to_id.key_seq();
                    let j = ks.index_of(s@);
                    crate::maps::lemma_index_of_unique(ks, j);
                }
                id
            },
            None => {
                let id = self.strings.len();
                let ghost before = self.strings@;
                self.strings.push(s.to_owned());
                proof {
                    assert(views(self.strings@) =~= views(before).push(s@));
                }
                self.string_to_id.insert(s.to_owned(), id);
                id
            },
        }
    }

    /// The text numbered `id`, if there is one.
    pub fn resolve(&self, id: usize) -> (r: Option<&str>)
        requires
            self.wf(),
        ensures
            match r {
                Some(t) => resolved(self@, id as nat) == Some(t@),
                None => resolved(self@, id as nat) is None,
            },
    {
        if id < self.strings.len() {
            Some(self.strings[id].as_str())
        } else {
            None
        }
    }
}

/// Interning a text and then resolving its number gives the text back.
pub proof fn law_intern_then_resolve(v: Seq<Seq<char>>, s: Seq<char>)
    ensures
        resolved(interned(v, s).0, interned(v, s).1) == Some(s),
{
}

/// Interning the same text twice gives the same number and changes nothing
/// the second time.
pub proof fn law_intern_idempotent(v: Seq<Seq<char>>, s: Seq<char>)
    ensures
        interned(interned(v, s).0, s) == interned(v, s),
{
    if !v.contains(s) {
        let w = v.push(s);
        assert(w[v.len() as int] == s);
        assert(w.contains(s));
    }
}

} // verus!
