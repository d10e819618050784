//! Lexical scopes and name resolution through them.
use vstd::prelude::*;
use crate::maps::NameMap;
use crate::semantic::symbol::{Symbol, SymbolKind, SymbolTable, duplicate_message, same_symbol};
use crate::semantic::types::TypeV;
use crate::text::join3;

verus! {

/// A scope: its id, its parent, the ids of the symbols declared in it, and a depth
/// one more than the parent's id (zero for a scope without parent).
#[derive(Debug, Clone)]
pub struct Scope {
    pub id: u32,
    pub parent: Option<u32>,
    pub symbols: NameMap<u32>,
    pub depth: u32,
}

impl Scope {
    pub fn new(id: u32, parent: Option<u32>) -> (s: Self)
        requires
            parent matches Some(p) ==> p < u32::MAX,
        ensures
            s.id == id,
            s.parent == parent,
            s.symbols.wf(),
            s.symbols@ == Map::<Seq<char>, u32>::empty(),
            s.depth == match parent {
                Some(p) => (p + 1) as u32,
                None => 0,
            },
    {
        let depth = match parent {
            Some(p) => p + 1,
            None => 0,
        };
        Scope { id, parent, symbols: NameMap::new(), depth }
    }
}

impl Scope {
    /// A copy of the scope.
    pub fn duplicate(&self) -> (r: Scope)
        requires
            self.symbols.wf(),
        ensures
            r.id == self.id,
            r.parent == self.parent,
            r.depth == self.depth,
            r.symbols.wf(),
            r.symbols@ == self.symbols@,
    {
        let symbols = self.symbols.duplicate();
        assert(symbols@ =~= self.symbols@);
        Scope { id: self.id, parent: self.parent, symbols, depth: self.depth }
    }
}

/// Two lists of scopes alike in ids, parents and declarations.
pub open spec fn same_scopes(a: Seq<Scope>, b: Seq<Scope>) -> bool {
    &&& a.len() == b.len()
    &&& forall|i: int| 0 <= i < a.len() ==> (#[trigger] a[i]).id == b[i].id && a[i].parent == b[i].parent
        && a[i].symbols@ == b[i].symbols@ && b[i].symbols.wf()
}

pub proof fn lemma_same_scopes_resolve(a: Seq<Scope>, b: Seq<Scope>, sid: int, name: Seq<char>)
    requires
        same_scopes(a, b),
    ensures
        resolve_from(a, sid, name) == resolve_from(b, sid, name),
    decreases sid,
{
    if 0 <= sid < a.len() {
        assert(a[sid].symbols@ == b[sid].symbols@);
        match a[sid].parent {
            Some(p) => if p < sid {
                lemma_same_scopes_resolve(a, b, p as int, name);
            },
            None => {},
        }
    }
}

/// The id that `name` resolves to from scope `sid`: declared there, or else in the
/// nearest enclosing scope.
pub open spec fn resolve_from(scopes: Seq<Scope>, sid: int, name: Seq<char>) -> Option<u32>
    decreases sid,
{
    if !(0 <= sid < scopes.len()) {
        None
    } else if scopes[sid].symbols@.contains_key(name) {
        Some(scopes[sid].symbols@[name])
    } else {
        match scopes[sid].parent {
            Some(p) => if p < sid { resolve_from(scopes, p as int, name) } else { None },
            None => None,
        }
    }
}

/// What names resolve to: the kind and type of each.
pub type Visible = Map<Seq<char>, (SymbolKind, TypeV)>;

/// The ids below `n`.
pub open spec fn below(n: nat) -> spec_fn(u32) -> bool {
    |id: u32| id < n
}

/// The scopes, the current one and the table of all symbols.
#[derive(Debug, Clone)]
pub struct ScopeManager {
    scopes: Vec<Scope>,
    current_scope_id: Option<u32>,
    symbol_table: SymbolTable,
}

pub open spec fn scopes_wf(scopes: Seq<Scope>) -> bool {
    &&& scopes.len() <= u32::MAX
    &&& forall|i: int| 0 <= i < scopes.len() ==> (#[trigger] scopes[i]).id == i
    &&& forall|i: int| 0 <= i < scopes.len() ==> (#[trigger] scopes[i]).symbols.wf()
    &&& forall|i: int| 0 <= i < scopes.len() ==> ((#[trigger] scopes[i]).parent matches Some(p) ==> p < i)
}

impl ScopeManager {
    pub closed spec fn scope_seq(&self) -> Seq<Scope> {
        self.scopes@
    }

    pub closed spec fn current(&self) -> Option<u32> {
        self.current_scope_id
    }

    pub closed spec fn table(&self) -> SymbolTable {
        self.symbol_table
    }

    pub closed spec fn wf(&self) -> bool {
        &&& scopes_wf(self.scopes@)
        &&& self.scopes@.len() >= 1
        &&& (self.current_scope_id matches Some(c) ==> c < self.scopes@.len())
        &&& self.symbol_table.wf()
        &&& forall|i: int, k: Seq<char>| 0 <= i < self.scopes@.len() && #[trigger] self.scopes@[i].symbols@.contains_key(k)
            ==> self.scopes@[i].symbols@[k] < self.symbol_table.list().len()
    }

    /// The id that `name` resolves to from the current scope.
    pub open spec fn resolve_id(&self, name: Seq<char>) -> Option<u32> {
        match self.current() {
            Some(c) => resolve_from(self.scope_seq(), c as int, name),
            None => None,
        }
    }

    /// The symbol that `name` resolves to from the current scope.
    pub open spec fn lookup(&self, name: Seq<char>) -> Option<Symbol> {
        match self.resolve_id(name) {
            Some(id) => if id < self.table().list().len() {
                Some(self.table().list()[id as int])
            } else {
                None
            },
            None => None,
        }
    }

    /// The kind and type of each name that resolves from the current scope.
    pub open spec fn visible(&self) -> Visible {
        Map::new(
            |n: Seq<char>| self.lookup(n) is Some,
            |n: Seq<char>| (self.lookup(n).unwrap().kind, self.lookup(n).unwrap().ty@),
        )
    }

    /// There is always the global scope, without parent; the current scope is one of them.
    pub proof fn lemma_wf(&self)
        requires
            self.wf(),
        ensures
            self.scope_seq().len() >= 1,
            self.scope_seq()[0].parent is None,
            self.current() matches Some(c) ==> c < self.scope_seq().len(),
    {
    }

    /// The kind and type of each name declared in the global scope.
    pub open spec fn global_names(&self) -> Visible {
        Map::new(
            |n: Seq<char>| self.scope_seq()[0].symbols@.contains_key(n),
            |n: Seq<char>| {
                let s = self.table().list()[self.scope_seq()[0].symbols@[n] as int];
                (s.kind, s.ty@)
            },
        )
    }

    /// From the global scope, or from an empty scope directly inside it, exactly
    /// the global names are visible.
    pub proof fn lemma_visible_global(&self)
        requires
            self.wf(),
            self.current() matches Some(c) && (c == 0 || (self.scope_seq()[c as int].symbols@ == Map::<Seq<char>, u32>::empty()
                && self.scope_seq()[c as int].parent == Some(0u32))),
        ensures
            self.visible() == self.global_names(),
    {
        let s = self.scope_seq();
        assert(s[0].id == 0);
        assert forall|n: Seq<char>| #[trigger] self.visible().contains_key(n) == self.global_names().contains_key(n) by {
            assert(resolve_from(s, 0, n) == if s[0].symbols@.contains_key(n) { Some(s[0].symbols@[n]) } else { None });
            if s[0].symbols@.contains_key(n) {
                assert(s[0].symbols@[n] < self.table().list().len());
            }
        }
        assert forall|n: Seq<char>| self.visible().contains_key(n) implies #[trigger] self.visible()[n] == self.global_names()[n] by {
            assert(resolve_from(s, 0, n) == if s[0].symbols@.contains_key(n) { Some(s[0].symbols@[n]) } else { None });
        }
        assert(self.visible() =~= self.global_names());
    }

    /// The global names depend only on the global scope and on the symbols
    /// registered so far, to which later ones are only added.
    pub proof fn lemma_global_names_kept(&self, later: ScopeManager)
        requires
            self.wf(),
            later.wf(),
            later.scope_seq()[0] == self.scope_seq()[0],
            self.table().list().len() <= later.table().list().len(),
            later.table().list().subrange(0, self.table().list().len() as int) == self.table().list(),
        ensures
            later.global_names() == self.global_names(),
    {
        assert forall|n: Seq<char>| self.global_names().contains_key(n) implies #[trigger] later.global_names()[n] == self.global_names()[n] by {
            let id = self.scope_seq()[0].symbols@[n];
            assert(self.scope_seq()[0].symbols@.contains_key(n));
            assert(id < self.table().list().len());
            assert(later.table().list().subrange(0, self.table().list().len() as int)[id as int] == later.table().list()[id as int]);
        }
        assert(later.global_names() =~= self.global_names());
    }

    /// Declaring a symbol in the global scope makes its name resolve there to it.
    pub proof fn lemma_global_insert(&self, later: ScopeManager, symbol: Symbol)
        requires
            self.wf(),
            self.table().list().len() < u32::MAX,
            later.wf(),
            later.scope_seq()[0].symbols@ == self.scope_seq()[0].symbols@.insert(symbol.name_id@, self.table().list().len() as u32),
            later.table().list() == self.table().list().push(symbol),
        ensures
            later.global_names() == self.global_names().insert(symbol.name_id@, (symbol.kind, symbol.ty@)),
    {
        let n0 = self.table().list().len();
        assert(later.scope_seq()[0].symbols@[symbol.name_id@] == n0);
        assert(later.table().list()[n0 as int] == symbol);
        assert(later.global_names().contains_key(symbol.name_id@));
        assert(later.global_names()[symbol.name_id@] == (symbol.kind, symbol.ty@));
        assert(later.global_names().dom() =~= self.global_names().dom().insert(symbol.name_id@));
        assert forall|k: Seq<char>| later.global_names().contains_key(k) && k != symbol.name_id@ implies #[trigger] later.global_names()[k] == self.global_names()[k] by {
            assert(self.scope_seq()[0].symbols@.contains_key(k));
            assert(self.scope_seq()[0].symbols@[k] < n0);
        }
        assert(later.global_names() =~= self.global_names().insert(symbol.name_id@, (symbol.kind, symbol.ty@)));
    }

    /// A copy of the manager: alike scopes, the same current scope, an alike table.
    pub fn duplicate(&self) -> (r: ScopeManager)
        requires
            self.wf(),
        ensures
            r.wf(),
            r.current() == self.current(),
            r.scope_seq().len() == self.scope_seq().len(),
            same_scopes(self.scope_seq(), r.scope_seq()),
            r.table().list().len() == self.table().list().len(),
            r.table().names() == self.table().names(),
            r.visible() == self.visible(),
            r.global_names() == self.global_names(),
    {
        let mut scopes: Vec<Scope> = Vec::new();
        let mut i: usize = 0;
        while i < self.scopes.len()
            invariant
                self.wf(),
                i <= self.scopes@.len(),
                scopes@.len() == i,
                forall|j: int| 0 <= j < i ==> (#[trigger] self.scopes@[j]).id == scopes@[j].id && self.scopes@[j].parent == scopes@[j].parent
                    && self.scopes@[j].symbols@ == scopes@[j].symbols@ && scopes@[j].symbols.wf(),
            decreases self.scopes@.len() - i,
        {
            scopes.push(self.scopes[i].duplicate());
            i += 1;
        }
        let symbol_table = self.symbol_table.duplicate();
        let r = ScopeManager { scopes, current_scope_id: self.current_scope_id, symbol_table };
        assert(same_scopes(self.scope_seq(), r.scope_seq()));
        assert forall|j: int| 0 <= j < r.scopes@.len() implies (#[trigger] r.scopes@[j]).id == j && r.scopes@[j].symbols.wf()
            && (r.scopes@[j].parent matches Some(p) ==> p < j) by {
            assert(self.scopes@[j].id == j);
        }
        assert(scopes_wf(r.scopes@));
        assert forall|j: int, k: Seq<char>| 0 <= j < r.scopes@.len() && #[trigger] r.scopes@[j].symbols@.contains_key(k)
            implies r.scopes@[j].symbols@[k] < r.symbol_table.list().len() by {
            assert(self.scopes@[j].symbols@.contains_key(k));
        }
        assert forall|n: Seq<char>| #[trigger] r.visible().contains_key(n) == self.visible().contains_key(n)
            && (r.visible().contains_key(n) ==> r.visible()[n] == self.visible()[n]) by {
            match self.current() {
                Some(c) => lemma_same_scopes_resolve(self.scope_seq(), r.scope_seq(), c as int, n),
                None => {},
            }
            match r.resolve_id(n) {
                Some(id) => if id < r.table().list().len() {
                    assert(same_symbol(r.table().list()[id as int], self.table().list()[id as int]));
                },
                None => {},
            }
        }
        assert(r.visible() =~= self.visible());
        assert forall|n: Seq<char>| r.global_names().contains_key(n) implies #[trigger] r.global_names()[n] == self.global_names()[n] by {
            assert(self.scope_seq()[0].symbols@.contains_key(n));
            let id = self.scope_seq()[0].symbols@[n];
            assert(id < self.table().list().len());
            assert(same_symbol(r.table().list()[id as int], self.table().list()[id as int]));
        }
        assert(r.global_names() =~= self.global_names());
        r
    }

    /// A manager with the global scope (id 0) current and no symbols.
    pub fn new() -> (m: Self)
        ensures
            m.wf(),
            m.scope_seq().len() == 1,
            m.scope_seq()[0].id == 0,
            m.scope_seq()[0].parent is None,
            m.scope_seq()[0].symbols@ == Map::<Seq<char>, u32>::empty(),
            m.current() == Some(0u32),
            m.table().list() == Seq::<Symbol>::empty(),
    {
        let mut scopes: Vec<Scope> = Vec::new();
        scopes.push(Scope::new(0, None));
        ScopeManager { scopes, current_scope_id: Some(0), symbol_table: SymbolTable::new() }
    }

    /// The id of the current scope.
    pub fn current_scope_id(&self) -> (r: Option<u32>)
        ensures
            r == self.current(),
    {
        self.current_scope_id
    }

    pub fn current_scope(&self) -> (r: Option<&Scope>)
        requires
            self.wf(),
        ensures
            match self.current() {
                Some(c) => r == Some(&self.scope_seq()[c as int]),
                None => r is None,
            },
    {
        match self.current_scope_id {
            Some(c) => Some(&self.scopes[c as usize]),
            None => None,
        }
    }

    pub fn get_scope(&self, id: u32) -> (r: Option<&Scope>)
        ensures
            id < self.scope_seq().len() ==> r == Some(&self.scope_seq()[id as int]),
            id >= self.scope_seq().len() ==> r is None,
    {
        if (id as usize) < self.scopes.len() {
            Some(&self.scopes[id as usize])
        } else {
            None
        }
    }

    /// Opens a scope inside the current one and makes it current; answers its id.
    pub fn enter_scope(&mut self) -> (id: u32)
        requires
            old(self).wf(),
            old(self).scope_seq().len() < u32::MAX,
        ensures
            final(self).wf(),
            id == old(self).scope_seq().len(),
            final(self).scope_seq().len() == old(self).scope_seq().len() + 1,
            final(self).scope_seq().subrange(0, id as int) == old(self).scope_seq(),
            final(self).scope_seq()[id as int].id == id,
            final(self).scope_seq()[id as int].parent == old(self).current(),
            final(self).scope_seq()[id as int].symbols@ == Map::<Seq<char>, u32>::empty(),
            final(self).current() == Some(id),
            final(self).table() == old(self).table(),
    {
        let parent = self.current_scope_id;
        let new_id = self.scopes.len() as u32;
        let ghost s0 = self.scopes@;
        self.scopes.push(Scope::new(new_id, parent));
        self.current_scope_id = Some(new_id);
        assert(self.scopes@.subrange(0, new_id as int) =~= s0);
        new_id
    }

    /// Returns to the parent of the current scope; the global scope cannot be left.
    pub fn exit_scope(&mut self) -> (r: Result<(), String>)
        requires
            old(self).wf(),
        ensures
            final(self).wf(),
            final(self).scope_seq() == old(self).scope_seq(),
            final(self).table() == old(self).table(),
            old(self).current() is None ==> *final(self) == *old(self) && (r matches Err(m) && m@ == "No current scope to exit"@),
            old(self).current() == Some(0u32) ==> *final(self) == *old(self) && (r matches Err(m) && m@ == "Cannot exit global scope"@),
            old(self).current() matches Some(c) ==> (c != 0 ==> r is Ok && final(self).current() == old(self).scope_seq()[c as int].parent),
    {
        match self.current_scope_id {
            None => Err("No current scope to exit".to_owned()),
            Some(c) => {
                if c == 0 {
                    return Err("Cannot exit global scope".to_owned());
                }
                let parent = self.scopes[c as usize].parent;
                self.current_scope_id = parent;
                Ok(())
            },
        }
    }

    /// Declares a symbol in the current scope and answers its id. Refused, with
    /// nothing changed, without a current scope; when the name is already declared
    /// in the current scope and the symbol is neither a parameter nor a variable;
    /// and when the symbol table refuses the name.
    pub fn declare_symbol(&mut self, symbol: Symbol) -> (r: Result<u32, String>)
        requires
            old(self).wf(),
            old(self).table().list().len() < u32::MAX,
        ensures
            final(self).wf(),
            r is Err ==> *final(self) == *old(self),
            old(self).current() is None ==> (r matches Err(m) && m@ == "No current scope"@),
            old(self).current() matches Some(c) ==> {
                let declared_here = old(self).scope_seq()[c as int].symbols@.contains_key(symbol.name_id@);
                let shadow_ok = symbol.kind == SymbolKind::Parameter || symbol.kind == SymbolKind::Variable;
                &&& (declared_here && !shadow_ok) ==> (r matches Err(m) && m@ == "Symbol '"@ + symbol.name_id@ + "' already declared in current scope"@)
                &&& (!(declared_here && !shadow_ok) && old(self).table().symbols().contains_key(symbol.name_id@))
                    ==> (r matches Err(m) && m@ == duplicate_message(symbol.name_id@))
                &&& (!(declared_here && !shadow_ok) && !old(self).table().symbols().contains_key(symbol.name_id@)) ==> {
                    &&& r == Ok::<u32, String>(old(self).table().list().len() as u32)
                    &&& final(self).table().list() == old(self).table().list().push(symbol)
                    &&& final(self).current() == old(self).current()
                    &&& final(self).scope_seq().len() == old(self).scope_seq().len()
                    &&& final(self).scope_seq()[c as int].symbols@ == old(self).scope_seq()[c as int].symbols@.insert(symbol.name_id@, old(self).table().list().len() as u32)
                    &&& forall|i: int| 0 <= i < old(self).scope_seq().len() && i != c ==> #[trigger] final(self).scope_seq()[i] == old(self).scope_seq()[i]
                    &&& final(self).scope_seq()[c as int].parent == old(self).scope_seq()[c as int].parent
                }
            },
    {
        let c = match self.current_scope_id {
            Some(c) => c,
            None => {
                return Err("No current scope".to_owned());
            },
        };
        let name = symbol.name_id.clone();
        if self.scopes[c as usize].symbols.contains_key(name.as_str()) && !Self::is_shadowing_allowed(&symbol) {
            return Err(join3("Symbol '", name.as_str(), "' already declared in current scope"));
        }
        let id = match self.symbol_table.register_symbol(symbol) {
            Ok(id) => id,
            Err(e) => {
                return Err(e);
            },
        };
        let ghost s0 = self.scopes@;
        let mut scope = self.scopes.remove(c as usize);
        scope.symbols.insert(name, id);
        self.scopes.insert(c as usize, scope);
        proof {
            assert(self.scopes@ =~= s0.update(c as int, scope));
        }
        Ok(id)
    }

    fn is_shadowing_allowed(symbol: &Symbol) -> (b: bool)
        ensures
            b == (symbol.kind == SymbolKind::Parameter || symbol.kind == SymbolKind::Variable),
    {
        match symbol.kind {
            SymbolKind::Parameter | SymbolKind::Variable => true,
            _ => false,
        }
    }

    /// The symbol a name resolves to from the current scope, innermost declaration first.
    pub fn resolve_symbol(&self, name: &str) -> (r: Option<&Symbol>)
        requires
            self.wf(),
        ensures
            match self.resolve_id(name@) {
                Some(id) => if id < self.table().list().len() {
                    r matches Some(s) && *s == self.table().list()[id as int]
                } else {
                    r is None
                },
                None => r is None,
            },
    {
        let mut sid = match self.current_scope_id {
            Some(c) => c,
            None => {
                return None;
            },
        };
        loop
            invariant
                self.wf(),
                sid < self.scopes@.len(),
                self.resolve_id(name@) == resolve_from(self.scopes@, sid as int, name@),
            decreases sid,
        {
            let scope = &self.scopes[sid as usize];
            match scope.symbols.get(name) {
                Some(id) => {
                    return self.symbol_table.lookup_symbol_by_id(*id);
                },
                None => {},
            }
            match scope.parent {
                Some(p) => {
                    sid = p;
                },
                None => {
                    return None;
                },
            }
        }
    }

    pub fn symbol_table(&self) -> (t: &SymbolTable)
        ensures
            *t == self.table(),
    {
        &self.symbol_table
    }

    pub fn symbol_table_mut(&mut self) -> (t: &mut SymbolTable)
        ensures
            *t == old(self).table(),
            final(self).table() == *final(t),
            final(self).scope_seq() == old(self).scope_seq(),
            final(self).current() == old(self).current(),
    {
        &mut self.symbol_table
    }

    /// Whether the name is declared in the current scope itself.
    pub fn is_declared_in_current_scope(&self, name: &str) -> (b: bool)
        requires
            self.wf(),
        ensures
            b == (self.current() matches Some(c) && self.scope_seq()[c as int].symbols@.contains_key(name@)),
    {
        match self.current_scope_id {
            Some(c) => self.scopes[c as usize].symbols.contains_key(name),
            None => false,
        }
    }

    /// The symbols declared in the current scope, in order of declaration.
    pub fn get_symbols_in_current_scope(&self) -> (v: Vec<&Symbol>)
        requires
            self.wf(),
        ensures
            self.current() is None ==> v@.len() == 0,
            self.current() matches Some(c) ==> {
                let ids = self.scope_seq()[c as int].symbols.val_seq();
                let known = ids.filter(below(self.table().list().len()));
                &&& v@.len() == known.len()
                &&& forall|i: int| 0 <= i < v@.len() ==> *(#[trigger] v@[i]) == self.table().list()[known[i] as int]
            },
    {
        let mut v: Vec<&Symbol> = Vec::new();
        match self.current_scope_id {
            None => v,
            Some(c) => {
                let scope = &self.scopes[c as usize];
                let ghost ids = scope.symbols.val_seq();
                let ghost keep = below(self.table().list().len());
                let mut i: usize = 0;
                assert(ids.subrange(0, 0).filter(keep) =~= Seq::<u32>::empty());
                while i < scope.symbols.len()
                    invariant
                        self.wf(),
                        scope.symbols.wf(),
                        ids == scope.symbols.val_seq(),
                        keep == below(self.table().list().len()),
                        i <= ids.len(),
                        v@.len() == ids.subrange(0, i as int).filter(keep).len(),
                        forall|j: int| 0 <= j < v@.len() ==> *(#[trigger] v@[j]) == self.table().list()[ids.subrange(0, i as int).filter(keep)[j] as int],
                    decreases ids.len() - i,
                {
                    let id = *scope.symbols.val_at(i);
                    proof {
                        let sub = ids.subrange(0, i + 1);
                        assert(sub.drop_last() =~= ids.subrange(0, i as int));
                        assert(sub.last() == id);
                        reveal(Seq::filter);
                        assert(sub.filter(keep) == if keep(id) { ids.subrange(0, i as int).filter(keep).push(id) } else { ids.subrange(0, i as int).filter(keep) });
                    }
                    let ghost prev = ids.subrange(0, i as int).filter(keep);
                    let ghost v0 = v@;
                    assert(keep(id) == (id < self.table().list().len()));
                    match self.symbol_table.lookup_symbol_by_id(id) {
                        Some(s) => {
                            v.push(s);
                            proof {
                                assert forall|j: int| 0 <= j < v@.len() implies *(#[trigger] v@[j]) == self.table().list()[prev.push(id)[j] as int] by {
                                    if j < v0.len() {
                                        assert(v@[j] == v0[j]);
                                        assert(prev.push(id)[j] == prev[j]);
                                    }
                                }
                            }
                        },
                        None => {},
                    }
                    i += 1;
                }
                assert(ids.subrange(0, i as int) =~= ids);
                v
            },
        }
    }
}

/// After a symbol is declared in the current scope, it resolves from there to the
/// id it was given.
pub proof fn law_declare_then_resolve(m0: ScopeManager, m1: ScopeManager, s: Symbol, c: u32)
    requires
        m0.current() == Some(c),
        m1.current() == Some(c),
        c < m0.scope_seq().len(),
        m1.scope_seq().len() == m0.scope_seq().len(),
        m1.scope_seq()[c as int].symbols@ == m0.scope_seq()[c as int].symbols@.insert(s.name_id@, m0.table().list().len() as u32),
    ensures
        m1.resolve_id(s.name_id@) == Some(m0.table().list().len() as u32),
{
}

} // verus!
