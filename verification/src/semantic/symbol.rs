//! Symbols and the symbol table.
use vstd::prelude::*;
use crate::maps::NameMap;
use crate::semantic::types::TypeDescriptor;
use crate::text::join3;

verus! {

#[derive(Debug, Clone, Copy, PartialEq, Eq, Hash)]
pub enum SymbolKind {
    Entity,
    Attribute,
    Rule,
    Flow,
    Constraint,
    Parameter,
    Variable,
}

/// A place in a source file.
#[derive(Debug, Clone, PartialEq, Eq)]
pub struct SourceLocation {
    pub file: String,
    pub line: usize,
    pub column: usize,
}

impl SourceLocation {
    pub fn new(file: String, line: usize, column: usize) -> (l: Self)
        ensures
            l == (SourceLocation { file, line, column }),
    {
        SourceLocation { file, line, column }
    }
}

/// A declared name with its kind, type, scope and place.
#[derive(Debug, Clone)]
pub struct Symbol {
    pub name_id: String,
    pub kind: SymbolKind,
    pub ty: TypeDescriptor,
    pub scope_id: u32,
    pub location: SourceLocation,
    pub is_mutable: bool,
    pub is_builtin: bool,
}

impl Symbol {
    /// A mutable, user-declared symbol.
    pub fn new(name_id: String, kind: SymbolKind, ty: TypeDescriptor, scope_id: u32, location: SourceLocation) -> (s: Self)
        ensures
            s == (Symbol { name_id, kind, ty, scope_id, location, is_mutable: true, is_builtin: false }),
    {
        Symbol { name_id, kind, ty, scope_id, location, is_mutable: true, is_builtin: false }
    }

    /// An immutable builtin symbol.
    pub fn new_builtin(name_id: String, kind: SymbolKind, ty: TypeDescriptor, scope_id: u32, location: SourceLocation) -> (s: Self)
        ensures
            s == (Symbol { name_id, kind, ty, scope_id, location, is_mutable: false, is_builtin: true }),
    {
        Symbol { name_id, kind, ty, scope_id, location, is_mutable: false, is_builtin: true }
    }
}

/// Two symbols alike in all but, possibly, the identity of their type's parts.
pub open spec fn same_symbol(a: Symbol, b: Symbol) -> bool {
    &&& a.name_id == b.name_id
    &&& a.kind == b.kind
    &&& a.ty@ == b.ty@
    &&& a.scope_id == b.scope_id
    &&& a.location == b.location
    &&& a.is_mutable == b.is_mutable
    &&& a.is_builtin == b.is_builtin
}

impl Symbol {
    /// A copy of the symbol.
    pub fn duplicate(&self) -> (r: Symbol)
        ensures
            same_symbol(r, *self),
    {
        Symbol {
            name_id: self.name_id.clone(),
            kind: self.kind,
            ty: self.ty.clone(),
            scope_id: self.scope_id,
            location: SourceLocation::new(self.location.file.clone(), self.location.line, self.location.column),
            is_mutable: self.is_mutable,
            is_builtin: self.is_builtin,
        }
    }
}

pub open spec fn duplicate_message(name: Seq<char>) -> Seq<char> {
    "Symbol '"@ + name + "' already declared"@
}

pub open spec fn not_found_message(name: Seq<char>) -> Seq<char> {
    "Symbol '"@ + name + "' not found"@
}

/// The symbols, each with the id it was given: ids count up from zero in order of
/// registration, and a name is registered at most once.
#[derive(Debug, Clone)]
pub struct SymbolTable {
    entries: Vec<Symbol>,
    by_name: NameMap<u32>,
}

impl SymbolTable {
    /// Symbols in order of registration; the id of a symbol is its position.
    pub closed spec fn list(&self) -> Seq<Symbol> {
        self.entries@
    }

    /// Symbols by name.
    pub open spec fn symbols(&self) -> Map<Seq<char>, Symbol> {
        Map::new(
            |k: Seq<char>| exists|i: int| 0 <= i < self.list().len() && #[trigger] self.list()[i].name_id@ == k,
            |k: Seq<char>| self.list()[choose|i: int| 0 <= i < self.list().len() && #[trigger] self.list()[i].name_id@ == k],
        )
    }

    /// The names registered.
    pub open spec fn names(&self) -> Set<Seq<char>> {
        self.symbols().dom()
    }

    /// Registering one more symbol adds its name.
    pub proof fn lemma_names_push(&self, later: SymbolTable, symbol: Symbol)
        requires
            later.list() == self.list().push(symbol),
        ensures
            later.names() == self.names().insert(symbol.name_id@),
    {
        let n = self.list().len();
        assert(later.list()[n as int] == symbol);
        assert forall|k: Seq<char>| #[trigger] later.names().contains(k) == self.names().insert(symbol.name_id@).contains(k) by {
            if later.names().contains(k) {
                let i = choose|i: int| 0 <= i < later.list().len() && #[trigger] later.list()[i].name_id@ == k;
                if i < n {
                    assert(self.list()[i].name_id@ == k);
                }
            }
            if self.names().contains(k) {
                let i = choose|i: int| 0 <= i < self.list().len() && #[trigger] self.list()[i].name_id@ == k;
                assert(later.list()[i].name_id@ == k);
            }
        }
        assert(later.names() =~= self.names().insert(symbol.name_id@));
    }

    pub closed spec fn wf(&self) -> bool {
        &&& self.by_name.wf()
        &&& self.entries@.len() <= u32::MAX
        &&& forall|i: int, j: int| 0 <= i < j < self.entries@.len() ==> (#[trigger] self.entries@[i]).name_id@ != (#[trigger] self.entries@[j]).name_id@
        &&& forall|k: Seq<char>| #[trigger] self.by_name@.contains_key(k) ==> self.by_name@[k] < self.entries@.len() && self.entries@[self.by_name@[k] as int].name_id@ == k
        &&& forall|i: int| 0 <= i < self.entries@.len() ==> self.by_name@.contains_key(#[trigger] self.entries@[i].name_id@)
    }

    /// A copy of the table: alike symbols under the same ids.
    pub fn duplicate(&self) -> (r: SymbolTable)
        requires
            self.wf(),
        ensures
            r.wf(),
            r.list().len() == self.list().len(),
            forall|i: int| 0 <= i < self.list().len() ==> same_symbol(#[trigger] r.list()[i], self.list()[i]),
            r.names() == self.names(),
    {
        let mut entries: Vec<Symbol> = Vec::new();
        let mut i: usize = 0;
        while i < self.entries.len()
            invariant
                i <= self.entries@.len(),
                entries@.len() == i,
                forall|j: int| 0 <= j < i ==> same_symbol(#[trigger] entries@[j], self.entries@[j]),
            decreases self.entries@.len() - i,
        {
            entries.push(self.entries[i].duplicate());
            i += 1;
        }
        let by_name = self.by_name.duplicate();
        assert(by_name@ =~= self.by_name@);
        let r = SymbolTable { entries, by_name };
        assert forall|a: int, b: int| 0 <= a < b < r.entries@.len() implies (#[trigger] r.entries@[a]).name_id@ != (#[trigger] r.entries@[b]).name_id@ by {
            assert(r.entries@[a].name_id == self.entries@[a].name_id);
            assert(r.entries@[b].name_id == self.entries@[b].name_id);
        }
        assert forall|k: Seq<char>| #[trigger] r.by_name@.contains_key(k) implies r.by_name@[k] < r.entries@.len() && r.entries@[r.by_name@[k] as int].name_id@ == k by {
            assert(self.by_name@.contains_key(k));
            assert(r.entries@[r.by_name@[k] as int].name_id == self.entries@[self.by_name@[k] as int].name_id);
        }
        assert forall|j: int| 0 <= j < r.entries@.len() implies r.by_name@.contains_key(#[trigger] r.entries@[j].name_id@) by {
            assert(r.entries@[j].name_id == self.entries@[j].name_id);
            assert(self.by_name@.contains_key(self.entries@[j].name_id@));
        }
        assert forall|k: Seq<char>| #[trigger] r.names().contains(k) == self.names().contains(k) by {
            if r.names().contains(k) {
                let j = choose|j: int| 0 <= j < r.list().len() && #[trigger] r.list()[j].name_id@ == k;
                assert(r.entries@[j].name_id == self.entries@[j].name_id);
                assert(self.list()[j].name_id@ == k);
            }
            if self.names().contains(k) {
                let j = choose|j: int| 0 <= j < self.list().len() && #[trigger] self.list()[j].name_id@ == k;
                assert(r.entries@[j].name_id == self.entries@[j].name_id);
                assert(r.list()[j].name_id@ == k);
            }
        }
        assert(r.names() =~= self.names());
        r
    }

    pub fn new() -> (t: Self)
        ensures
            t.wf(),
            t.list() == Seq::<Symbol>::empty(),
    {
        SymbolTable { entries: Vec::new(), by_name: NameMap::new() }
    }

    proof fn lemma_lookup(&self, i: int)
        requires
            self.wf(),
            0 <= i < self.list().len(),
        ensures
            self.symbols().contains_key(self.list()[i].name_id@),
            self.symbols()[self.list()[i].name_id@] == self.list()[i],
    {
        let k = self.list()[i].name_id@;
        assert(self.list()[i].name_id@ == k);
        let j = choose|j: int| 0 <= j < self.list().len() && #[trigger] self.list()[j].name_id@ == k;
        if j != i {
            if j < i {
                assert(self.entries@[j].name_id@ != self.entries@[i].name_id@);
            } else {
                assert(self.entries@[i].name_id@ != self.entries@[j].name_id@);
            }
        }
    }

    fn position(&self, name: &str) -> (r: Option<usize>)
        requires
            self.wf(),
        ensures
            match r {
                Some(i) => i < self.list().len() && self.list()[i as int].name_id@ == name@,
                None => !self.symbols().contains_key(name@),
            },
    {
        match self.by_name.get(name) {
            Some(i) => Some(*i as usize),
            None => {
                proof {
                    if self.symbols().contains_key(name@) {
                        let j = choose|j: int| 0 <= j < self.list().len() && #[trigger] self.list()[j].name_id@ == name@;
                        assert(self.by_name@.contains_key(self.entries@[j].name_id@));
                    }
                }
                None
            },
        }
    }

    /// Registers a symbol and answers its id; refused, with nothing changed, when
    /// its name is taken.
    pub fn register_symbol(&mut self, symbol: Symbol) -> (r: Result<u32, String>)
        requires
            old(self).wf(),
            old(self).list().len() < u32::MAX,
        ensures
            final(self).wf(),
            old(self).symbols().contains_key(symbol.name_id@) ==> *final(self) == *old(self)
                && (r matches Err(msg) && msg@ == duplicate_message(symbol.name_id@)),
            !old(self).symbols().contains_key(symbol.name_id@) ==> r == Ok::<u32, String>(old(self).list().len() as u32)
                && final(self).list() == old(self).list().push(symbol),
    {
        let name = symbol.name_id.clone();
        match self.position(name.as_str()) {
            Some(i) => {
                proof {
                    self.lemma_lookup(i as int);
                }
                return Err(join3("Symbol '", name.as_str(), "' already declared"));
            },
            None => {},
        }
        let id = self.entries.len() as u32;
        let ghost e0 = self.entries@;
        self.by_name.insert(name, id);
        self.entries.push(symbol);
        proof {
            assert forall|i: int| 0 <= i < e0.len() implies #[trigger] e0[i].name_id@ != symbol.name_id@ by {
                assert(old(self).by_name@.contains_key(e0[i].name_id@));
            }
            assert forall|i: int| 0 <= i < self.entries@.len() implies self.by_name@.contains_key(#[trigger] self.entries@[i].name_id@) by {
                if i < e0.len() {
                    assert(old(self).by_name@.contains_key(e0[i].name_id@));
                }
            }
        }
        Ok(id)
    }

    /// The symbol with a name.
    pub fn lookup_symbol(&self, name: &str) -> (r: Option<&Symbol>)
        requires
            self.wf(),
        ensures
            match r {
                Some(s) => self.symbols().contains_key(name@) && *s == self.symbols()[name@],
                None => !self.symbols().contains_key(name@),
            },
    {
        match self.position(name) {
            Some(i) => {
                proof {
                    self.lemma_lookup(i as int);
                }
                Some(&self.entries[i])
            },
            None => None,
        }
    }

    /// The symbol with an id.
    pub fn lookup_symbol_by_id(&self, id: u32) -> (r: Option<&Symbol>)
        requires
            self.wf(),
        ensures
            match r {
                Some(s) => id < self.list().len() && *s == self.list()[id as int],
                None => id >= self.list().len(),
            },
    {
        if (id as usize) < self.entries.len() {
            Some(&self.entries[id as usize])
        } else {
            None
        }
    }

    /// Every symbol, in order of registration.
    pub fn get_all_symbols(&self) -> (v: Vec<&Symbol>)
        requires
            self.wf(),
        ensures
            v@.len() == self.list().len(),
            forall|i: int| 0 <= i < v@.len() ==> *(#[trigger] v@[i]) == self.list()[i],
    {
        let mut v: Vec<&Symbol> = Vec::new();
        let mut i: usize = 0;
        while i < self.entries.len()
            invariant
                i <= self.entries.len(),
                v@.len() == i,
                forall|j: int| 0 <= j < i ==> *(#[trigger] v@[j]) == self.entries@[j],
            decreases self.entries.len() - i,
        {
            v.push(&self.entries[i]);
            i += 1;
        }
        v
    }

    pub fn has_symbol(&self, name: &str) -> (b: bool)
        requires
            self.wf(),
        ensures
            b == self.symbols().contains_key(name@),
    {
        match self.position(name) {
            Some(i) => {
                proof {
                    self.lemma_lookup(i as int);
                }
                true
            },
            None => false,
        }
    }

    /// Gives the named symbol a new type; an error, with nothing changed, when there is none.
    pub fn update_symbol_type(&mut self, name: &str, new_type: TypeDescriptor) -> (r: Result<(), String>)
        requires
            old(self).wf(),
        ensures
            final(self).wf(),
            !old(self).symbols().contains_key(name@) ==> *final(self) == *old(self)
                && (r matches Err(msg) && msg@ == not_found_message(name@)),
            old(self).symbols().contains_key(name@) ==> r is Ok && exists|i: int|
                0 <= i < old(self).list().len() && old(self).list()[i].name_id@ == name@
                && final(self).list() == old(self).list().update(i, Symbol { ty: new_type, ..old(self).list()[i] }),
    {
        match self.position(name) {
            Some(i) => {
                let ghost e0 = self.entries@;
                let mut sym = self.entries.remove(i);
                sym.ty = new_type;
                self.entries.insert(i, sym);
                proof {
                    assert(self.entries@ =~= e0.update(i as int, sym));
                    assert forall|a: int, b: int| 0 <= a < b < self.entries@.len() implies (#[trigger] self.entries@[a]).name_id@ != (#[trigger] self.entries@[b]).name_id@ by {
                        assert(self.entries@[a].name_id@ == e0[a].name_id@);
                        assert(self.entries@[b].name_id@ == e0[b].name_id@);
                    }
                    assert forall|k: Seq<char>| #[trigger] self.by_name@.contains_key(k) implies self.by_name@[k] < self.entries@.len() && self.entries@[self.by_name@[k] as int].name_id@ == k by {
                        assert(e0[self.by_name@[k] as int].name_id@ == k);
                    }
                    assert forall|j: int| 0 <= j < self.entries@.len() implies self.by_name@.contains_key(#[trigger] self.entries@[j].name_id@) by {
                        assert(self.entries@[j].name_id@ == e0[j].name_id@);
                    }
                }
                Ok(())
            },
            None => Err(join3("Symbol '", name, "' not found")),
        }
    }

    /// The number of symbols.
    pub fn len(&self) -> (n: usize)
        ensures
            n == self.list().len(),
    {
        self.entries.len()
    }
}

} // verus!
