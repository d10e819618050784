//! Dependencies between the symbols of a program: cycle detection and a
//! topological order.
use vstd::prelude::*;
use crate::maps::{NameMap, views, copy_texts};
use crate::rule_engine::condition::{Condition, Expression, Predicate, Term};
use crate::semantic::program::{Action, ControlAction, Definition, Program};
use crate::semantic::resolver::{Resolver, at_text, append_at};
use crate::semantic::scope::Visible;
use crate::semantic::symbol::{SourceLocation, SymbolKind};
use crate::text::{owned, str_eq};

verus! {

broadcast use vstd::seq_lib::seq_to_set_is_finite;

/// A symbol and the names it depends on, in the order they were found.
#[derive(Debug, Clone)]
pub struct DependencyNode {
    pub symbol_id: String,
    pub depends_on: Vec<String>,
}

/// What is wrong with the dependencies.
#[derive(Debug)]
pub enum DependencyError {
    CyclicDependency { cycle: Vec<String>, location: SourceLocation },
    SelfDependency { symbol: String, location: SourceLocation },
}

/// The parts joined, with `sep` between each two.
pub open spec fn joined(parts: Seq<Seq<char>>, sep: Seq<char>) -> Seq<char>
    decreases parts.len(),
{
    if parts.len() == 0 {
        Seq::empty()
    } else if parts.len() == 1 {
        parts[0]
    } else {
        joined(parts.drop_last(), sep) + sep + parts.last()
    }
}

/// The texts joined, with `sep` between each two.
pub fn join_texts(parts: &Vec<String>, sep: &str) -> (r: String)
    ensures
        r@ == joined(views(parts@), sep@),
{
    let ghost ps = views(parts@);
    let mut r = String::new();
    let mut i: usize = 0;
    assert(ps.take(0) =~= Seq::<Seq<char>>::empty());
    while i < parts.len()
        invariant
            ps == views(parts@),
            i <= ps.len(),
            r@ == joined(ps.take(i as int), sep@),
        decreases ps.len() - i,
    {
        assert(ps.take(i + 1).drop_last() =~= ps.take(i as int));
        assert(ps.take(i + 1).last() == parts@[i as int]@);
        if i > 0 {
            r.append(sep);
        } else {
            assert(ps.take(1)[0] == parts@[0]@);
            assert(r@ =~= Seq::<char>::empty());
        }
        r.append(parts[i].as_str());
        i += 1;
    }
    assert(ps.take(ps.len() as int) =~= ps);
    r
}

impl DependencyError {
    pub open spec fn spec_message(&self) -> Seq<char> {
        match self {
            DependencyError::CyclicDependency { cycle, location } =>
                "Cyclic dependency detected: "@ + joined(views(cycle@), " -> "@) + at_text(*location),
            DependencyError::SelfDependency { symbol, location } =>
                "Symbol '"@ + symbol@ + "' depends on itself"@ + at_text(*location),
        }
    }

    pub fn message(&self) -> (s: String)
        ensures
            s@ == self.spec_message(),
    {
        match self {
            DependencyError::CyclicDependency { cycle, location } => {
                let mut s = owned("Cyclic dependency detected: ");
                s.append(join_texts(cycle, " -> ").as_str());
                append_at(&mut s, location);
                s
            },
            DependencyError::SelfDependency { symbol, location } => {
                let mut s = crate::text::join3("Symbol '", symbol.as_str(), "' depends on itself");
                append_at(&mut s, location);
                s
            },
        }
    }
}

/// The dependency graph of a program's symbols.
#[derive(Debug)]
pub struct DependencyGraph {
    nodes: NameMap<DependencyNode>,
    resolver: Resolver,
    errors: Vec<String>,
}

/// The names among `keys`, each followed by what it depends on in `deps`.
pub open spec fn names_of(keys: Seq<Seq<char>>, deps: Map<Seq<char>, Seq<Seq<char>>>) -> Seq<Seq<char>>
    decreases keys.len(),
{
    if keys.len() == 0 {
        Seq::empty()
    } else {
        names_of(keys.drop_last(), deps) + seq![keys.last()] + deps[keys.last()]
    }
}

impl DependencyGraph {
    /// The symbols and, for each, what it depends on.
    pub closed spec fn deps(&self) -> Map<Seq<char>, Seq<Seq<char>>> {
        self.nodes@.map_values(|n: DependencyNode| views(n.depends_on@))
    }

    /// The symbols, in the order they were added.
    pub closed spec fn order(&self) -> Seq<Seq<char>> {
        self.nodes.key_seq()
    }

    /// The errors recorded.
    pub closed spec fn error_list(&self) -> Seq<Seq<char>> {
        views(self.errors@)
    }

    /// The resolver the graph consults.
    pub closed spec fn the_resolver(&self) -> Resolver {
        self.resolver
    }

    pub closed spec fn wf(&self) -> bool {
        &&& self.nodes.wf()
        &&& forall|k: Seq<char>| #[trigger] self.nodes@.contains_key(k) ==> self.nodes@[k].symbol_id@ == k
    }

    /// What `n` depends on; nothing for a name that is no symbol.
    pub open spec fn succ(&self, n: Seq<char>) -> Seq<Seq<char>> {
        if self.deps().contains_key(n) {
            self.deps()[n]
        } else {
            Seq::empty()
        }
    }

    /// Whether `a` depends directly on `b`.
    pub open spec fn edge(&self, a: Seq<char>, b: Seq<char>) -> bool {
        self.succ(a).contains(b)
    }

    /// Whether each name of `p` depends directly on the next.
    pub open spec fn is_path(&self, p: Seq<Seq<char>>) -> bool {
        forall|i: int| 0 <= i < p.len() - 1 ==> self.edge(#[trigger] p[i], p[i + 1])
    }

    /// A path of at least one step that ends where it starts.
    pub open spec fn is_cycle(&self, p: Seq<Seq<char>>) -> bool {
        &&& p.len() >= 2
        &&& p[0] == p.last()
        &&& self.is_path(p)
    }

    pub open spec fn acyclic(&self) -> bool {
        forall|p: Seq<Seq<char>>| !self.is_cycle(p)
    }

    /// Every name the graph mentions: its symbols and what they depend on.
    pub open spec fn universe(&self) -> Set<Seq<char>> {
        names_of(self.order(), self.deps()).to_set()
    }

    pub fn new(resolver: Resolver) -> (g: Self)
        ensures
            g.wf(),
            g.the_resolver() == resolver,
            g.deps() == Map::<Seq<char>, Seq<Seq<char>>>::empty(),
            g.order() == Seq::<Seq<char>>::empty(),
            g.error_list() == Seq::<Seq<char>>::empty(),
    {
        let g = DependencyGraph { nodes: NameMap::new(), resolver, errors: Vec::new() };
        assert(g.deps() =~= Map::<Seq<char>, Seq<Seq<char>>>::empty());
        assert(views(g.errors@) =~= Seq::<Seq<char>>::empty());
        g
    }

    /// Adds a symbol that depends on nothing (yet), or resets an existing one
    /// to depend on nothing.
    pub fn create_node(&mut self, name: &str)
        requires
            old(self).wf(),
        ensures
            final(self).wf(),
            final(self).deps() == old(self).deps().insert(name@, Seq::empty()),
            old(self).deps().contains_key(name@) ==> final(self).order() == old(self).order(),
            !old(self).deps().contains_key(name@) ==> final(self).order() == old(self).order().push(name@),
            final(self).error_list() == old(self).error_list(),
            final(self).the_resolver() == old(self).the_resolver(),
    {
        let node = DependencyNode { symbol_id: owned(name), depends_on: Vec::new() };
        assert(views(node.depends_on@) =~= Seq::<Seq<char>>::empty());
        self.nodes.insert(owned(name), node);
        assert(self.deps() =~= old(self).deps().insert(name@, Seq::empty()));
    }

    /// Adds dependencies to a symbol, after those it has; nothing for a name
    /// that is no symbol.
    pub fn add_dependencies(&mut self, name: &str, dependencies: Vec<String>)
        requires
            old(self).wf(),
        ensures
            final(self).wf(),
            old(self).deps().contains_key(name@) ==> final(self).deps()
                == old(self).deps().insert(name@, old(self).deps()[name@] + views(dependencies@)),
            !old(self).deps().contains_key(name@) ==> final(self).deps() == old(self).deps(),
            final(self).order() == old(self).order(),
            final(self).error_list() == old(self).error_list(),
            final(self).the_resolver() == old(self).the_resolver(),
    {
        match self.nodes.get(name) {
            Some(node) => {
                let mut depends_on: Vec<String> = Vec::new();
                let mut i: usize = 0;
                while i < node.depends_on.len()
                    invariant
                        i <= node.depends_on@.len(),
                        views(depends_on@) == views(node.depends_on@).take(i as int),
                    decreases node.depends_on@.len() - i,
                {
                    let ghost before = views(depends_on@);
                    depends_on.push(node.depends_on[i].clone());
                    assert(views(depends_on@) =~= before.push(node.depends_on@[i as int]@));
                    assert(views(node.depends_on@).take(i + 1) =~= views(node.depends_on@).take(i as int).push(node.depends_on@[i as int]@));
                    i += 1;
                }
                let mut j: usize = 0;
                let ghost base = views(depends_on@);
                assert(base =~= views(node.depends_on@));
                assert(views(dependencies@).take(0) =~= Seq::<Seq<char>>::empty());
                while j < dependencies.len()
                    invariant
                        j <= dependencies@.len(),
                        views(depends_on@) == base + views(dependencies@).take(j as int),
                    decreases dependencies@.len() - j,
                {
                    let ghost before = views(depends_on@);
                    depends_on.push(dependencies[j].clone());
                    assert(views(depends_on@) =~= before.push(dependencies@[j as int]@));
                    assert(views(dependencies@).take(j + 1) =~= views(dependencies@).take(j as int).push(dependencies@[j as int]@));
                    j += 1;
                }
                assert(views(dependencies@).take(dependencies@.len() as int) =~= views(dependencies@));
                let updated = DependencyNode { symbol_id: owned(name), depends_on };
                self.nodes.insert(owned(name), updated);
                assert(self.deps() =~= old(self).deps().insert(name@, old(self).deps()[name@] + views(dependencies@)));
            },
            None => {},
        }
    }

    /// What a symbol depends on, if it is one.
    pub fn get_dependencies(&self, symbol_id: &str) -> (r: Option<&[String]>)
        requires
            self.wf(),
        ensures
            match r {
                Some(d) => self.deps().contains_key(symbol_id@) && views(d@) == self.deps()[symbol_id@],
                None => !self.deps().contains_key(symbol_id@),
            },
    {
        match self.nodes.get(symbol_id) {
            Some(node) => Some(node.depends_on.as_slice()),
            None => None,
        }
    }

    pub fn resolver(&self) -> (r: &Resolver)
        ensures
            *r == self.the_resolver(),
    {
        &self.resolver
    }

    pub fn resolver_mut(&mut self) -> (r: &mut Resolver)
        ensures
            *r == old(self).the_resolver(),
            final(self).the_resolver() == *final(r),
            final(self).wf() == old(self).wf(),
            final(self).deps() == old(self).deps(),
            final(self).order() == old(self).order(),
            final(self).error_list() == old(self).error_list(),
    {
        &mut self.resolver
    }
}

/// A name visited and finished.
pub open spec fn is_black(v: Map<Seq<char>, bool>, n: Seq<char>) -> bool {
    v.contains_key(n) && !v[n]
}

/// A name visited and not finished: on the current search path.
pub open spec fn is_gray(v: Map<Seq<char>, bool>, n: Seq<char>) -> bool {
    v.contains_key(n) && v[n]
}

impl DependencyGraph {
    /// What each finished name depends on is finished too.
    pub open spec fn black_closed(&self, v: Map<Seq<char>, bool>) -> bool {
        forall|n: Seq<char>, i: int| is_black(v, n) && 0 <= i < self.succ(n).len() ==> is_black(v, #[trigger] self.succ(n)[i])
    }

    /// No cycle runs through finished names alone.
    pub open spec fn black_acyclic(&self, v: Map<Seq<char>, bool>) -> bool {
        forall|p: Seq<Seq<char>>| self.is_cycle(p) ==> exists|i: int| 0 <= i < p.len() && !is_black(v, #[trigger] p[i])
    }

    /// The state of the cycle search: the search path `path` is a path of
    /// the graph, without repetition, made of the unfinished names; the
    /// finished names are closed under dependency and hold no cycle.
    pub open spec fn search_state(&self, v: Map<Seq<char>, bool>, path: Seq<Seq<char>>) -> bool {
        &&& self.black_closed(v)
        &&& self.black_acyclic(v)
        &&& self.is_path(path)
        &&& path.no_duplicates()
        &&& forall|n: Seq<char>| is_gray(v, n) <==> path.contains(n)
    }

    /// Every visited name is one the graph mentions.
    pub open spec fn within(&self, v: Map<Seq<char>, bool>) -> bool {
        forall|n: Seq<char>| #[trigger] v.contains_key(n) ==> self.universe().contains(n)
    }

    proof fn lemma_names_of(&self, keys: Seq<Seq<char>>, n: Seq<char>)
        ensures
            names_of(keys, self.deps()).contains(n) <==> (keys.contains(n)
                || exists|k: Seq<char>| keys.contains(k) && (#[trigger] self.deps()[k]).contains(n)),
        decreases keys.len(),
    {
        if keys.len() > 0 {
            let rest = keys.drop_last();
            let last = keys.last();
            self.lemma_names_of(rest, n);
            let a = names_of(rest, self.deps());
            let b = self.deps()[last];
            let all = a + seq![last] + b;
            assert(names_of(keys, self.deps()) == all);
            if all.contains(n) {
                let i = choose|i: int| 0 <= i < all.len() && all[i] == n;
                if i < a.len() {
                    assert(a[i] == n);
                    if rest.contains(n) {
                        let j = choose|j: int| 0 <= j < rest.len() && rest[j] == n;
                        assert(keys[j] == n);
                    } else {
                        let k = choose|k: Seq<char>| rest.contains(k) && (#[trigger] self.deps()[k]).contains(n);
                        let j = choose|j: int| 0 <= j < rest.len() && rest[j] == k;
                        assert(keys[j] == k);
                    }
                } else if i == a.len() {
                    assert(keys[keys.len() - 1] == n);
                } else {
                    assert(b[i - a.len() - 1] == n);
                    assert(keys[keys.len() - 1] == last);
                }
            }
            if keys.contains(n) {
                let j = choose|j: int| 0 <= j < keys.len() && keys[j] == n;
                if j < keys.len() - 1 {
                    assert(rest[j] == n);
                    let t = choose|t: int| 0 <= t < a.len() && a[t] == n;
                    assert(all[t] == n);
                } else {
                    assert(all[a.len() as int] == n);
                }
            }
            if exists|k: Seq<char>| keys.contains(k) && (#[trigger] self.deps()[k]).contains(n) {
                let k = choose|k: Seq<char>| keys.contains(k) && (#[trigger] self.deps()[k]).contains(n);
                let j = choose|j: int| 0 <= j < keys.len() && keys[j] == k;
                if j < keys.len() - 1 {
                    assert(rest[j] == k);
                    let t = choose|t: int| 0 <= t < a.len() && a[t] == n;
                    assert(all[t] == n);
                } else {
                    let t = choose|t: int| 0 <= t < b.len() && b[t] == n;
                    assert(all[a.len() + 1 + t] == n);
                }
            }
        }
    }

    /// The names the graph mentions: its symbols and what they depend on.
    proof fn lemma_universe(&self, n: Seq<char>)
        requires
            self.wf(),
        ensures
            self.universe().contains(n) <==> (self.deps().contains_key(n)
                || exists|k: Seq<char>| self.deps().contains_key(k) && (#[trigger] self.deps()[k]).contains(n)),
    {
        self.lemma_names_of(self.order(), n);
        if exists|k: Seq<char>| self.order().contains(k) && (#[trigger] self.deps()[k]).contains(n) {
            let k = choose|k: Seq<char>| self.order().contains(k) && (#[trigger] self.deps()[k]).contains(n);
            assert(self.deps().contains_key(k));
        }
        if exists|k: Seq<char>| self.deps().contains_key(k) && (#[trigger] self.deps()[k]).contains(n) {
            let k = choose|k: Seq<char>| self.deps().contains_key(k) && (#[trigger] self.deps()[k]).contains(n);
            assert(self.order().contains(k));
        }
    }

    /// A name a visited name depends on is one the graph mentions.
    proof fn lemma_succ_in_universe(&self, n: Seq<char>, i: int)
        requires
            self.wf(),
            0 <= i < self.succ(n).len(),
        ensures
            self.universe().contains(self.succ(n)[i]),
    {
        let d = self.succ(n)[i];
        assert(self.deps().contains_key(n));
        assert(self.deps()[n].contains(d));
        self.lemma_universe(d);
    }

    /// Visiting one more name leaves room in the universe.
    proof fn lemma_room(&self, v: NameMap<bool>, n: Seq<char>)
        requires
            v.wf(),
            self.within(v@),
            self.universe().contains(n),
            !v@.contains_key(n),
        ensures
            v.spec_len() + 1 <= self.universe().len(),
    {
        let ks = v.key_seq();
        ks.unique_seq_to_set();
        let s = ks.to_set().insert(n);
        assert(s.subset_of(self.universe())) by {
            assert forall|x: Seq<char>| s.contains(x) implies self.universe().contains(x) by {
                if x != n {
                    assert(ks.contains(x));
                    assert(v@.contains_key(x));
                }
            }
        }
        assert(!ks.to_set().contains(n)) by {
            if ks.to_set().contains(n) {
                assert(v@.contains_key(n));
            }
        }
        vstd::set_lib::lemma_len_subset(s, self.universe());
    }

    /// A path that starts at a finished name runs through finished names only.
    proof fn lemma_path_stays_black(&self, v: Map<Seq<char>, bool>, q: Seq<Seq<char>>, j: int)
        requires
            self.black_closed(v),
            self.is_path(q),
            q.len() > 0,
            is_black(v, q[0]),
            0 <= j < q.len(),
        ensures
            is_black(v, q[j]),
        decreases j,
    {
        if j > 0 {
            self.lemma_path_stays_black(v, q, j - 1);
            assert(self.edge(q[j - 1], q[j]));
            let t = choose|t: int| 0 <= t < self.succ(q[j - 1]).len() && #[trigger] self.succ(q[j - 1])[t] == q[j];
            assert(is_black(v, self.succ(q[j - 1])[t]));
        }
    }

    /// Finishing a name whose dependencies are all finished keeps the
    /// finished names closed and free of cycles.
    proof fn lemma_finish(&self, v: Map<Seq<char>, bool>, u: Seq<char>)
        requires
            self.black_closed(v),
            self.black_acyclic(v),
            !is_black(v, u),
            forall|i: int| 0 <= i < self.succ(u).len() ==> is_black(v, #[trigger] self.succ(u)[i]),
        ensures
            self.black_closed(v.insert(u, false)),
            self.black_acyclic(v.insert(u, false)),
    {
        let w = v.insert(u, false);
        assert forall|n: Seq<char>, i: int| is_black(w, n) && 0 <= i < self.succ(n).len() implies is_black(w, #[trigger] self.succ(n)[i]) by {
            if n != u {
                assert(is_black(v, n));
                assert(is_black(v, self.succ(n)[i]));
            }
        }
        assert forall|p: Seq<Seq<char>>| self.is_cycle(p) implies exists|i: int| 0 <= i < p.len() && !is_black(w, #[trigger] p[i]) by {
            let i0 = choose|i: int| 0 <= i < p.len() && !is_black(v, #[trigger] p[i]);
            if !is_black(w, p[i0]) {
            } else {
                if !p.contains(u) {
                    assert(p[i0] != u);
                    assert(false);
                } else {
                    if forall|i: int| 0 <= i < p.len() ==> is_black(w, #[trigger] p[i]) {
                        let k0 = choose|k: int| 0 <= k < p.len() && p[k] == u;
                        let k = if k0 == p.len() - 1 { 0 } else { k0 };
                        assert(p[k] == u);
                        let q = p.subrange(k + 1, p.len() as int) + p.subrange(1, k + 1);
                        assert(q.len() == p.len() - 1);
                        assert(q[0] == p[k + 1]);
                        assert(self.edge(p[k], p[k + 1]));
                        let t = choose|t: int| 0 <= t < self.succ(u).len() && #[trigger] self.succ(u)[t] == p[k + 1];
                        assert(is_black(v, q[0]));
                        assert forall|m: int| 0 <= m < q.len() - 1 implies self.edge(#[trigger] q[m], q[m + 1]) by {
                            let a = p.len() - (k + 1);
                            if m < a - 1 {
                                assert(q[m] == p[k + 1 + m]);
                                assert(q[m + 1] == p[k + 2 + m]);
                            } else if m == a - 1 {
                                assert(q[m] == p[p.len() - 1]);
                                assert(q[m + 1] == p[1]);
                                assert(p[p.len() - 1] == p[0]);
                            } else {
                                assert(q[m] == p[m - a + 1]);
                                assert(q[m + 1] == p[m - a + 2]);
                            }
                        }
                        self.lemma_path_stays_black(v, q, q.len() - 1);
                        assert(q[q.len() - 1] == p[k]);
                        assert(false);
                    }
                }
            }
        }
    }
}

/// The part of `path` from where `dep` stands, followed by `dep` again.
fn cycle_from(path: &Vec<String>, dep: &str) -> (c: Vec<String>)
    requires
        views(path@).contains(dep@),
    ensures
        exists|start: int| 0 <= start < views(path@).len() && views(path@)[start] == dep@
            && views(c@) == views(path@).subrange(start, views(path@).len() as int).push(dep@),
{
    let ghost p1 = views(path@);
    let mut start: usize = 0;
    while start < path.len()
        invariant
            views(path@) == p1,
            start <= p1.len(),
            forall|t: int| 0 <= t < start ==> p1[t] != dep@,
        ensures
            start <= p1.len(),
            start < p1.len() ==> p1[start as int] == dep@,
            forall|t: int| 0 <= t < start ==> p1[t] != dep@,
        decreases p1.len() - start,
    {
        if str_eq(path[start].as_str(), dep) {
            break;
        }
        start += 1;
    }
    proof {
        if start == p1.len() {
            let j = choose|j: int| 0 <= j < p1.len() && p1[j] == dep@;
            assert(p1[j] != dep@);
        }
    }
    let mut cycle: Vec<String> = Vec::new();
    let mut t: usize = start;
    while t < path.len()
        invariant
            views(path@) == p1,
            start < p1.len(),
            start <= t <= p1.len(),
            views(cycle@) == p1.subrange(start as int, t as int),
        decreases p1.len() - t,
    {
        let ghost before = views(cycle@);
        cycle.push(path[t].clone());
        assert(views(cycle@) =~= before.push(p1[t as int]));
        assert(p1.subrange(start as int, t + 1) =~= p1.subrange(start as int, t as int).push(p1[t as int]));
        t += 1;
    }
    let ghost body = views(cycle@);
    cycle.push(owned(dep));
    assert(views(cycle@) =~= body.push(dep@));
    cycle
}

impl DependencyGraph {
    /// Closing a search path back onto one of its names gives a cycle.
    proof fn lemma_cycle_from_path(&self, p1: Seq<Seq<char>>, start: int, dep: Seq<char>)
        requires
            self.is_path(p1),
            0 <= start < p1.len(),
            p1[start] == dep,
            self.edge(p1.last(), dep),
        ensures
            self.is_cycle(p1.subrange(start, p1.len() as int).push(dep)),
    {
        let c = p1.subrange(start, p1.len() as int).push(dep);
        assert(c[0] == dep);
        assert forall|m: int| 0 <= m < c.len() - 1 implies self.edge(#[trigger] c[m], c[m + 1]) by {
            if m < c.len() - 2 {
                assert(c[m] == p1[start + m] && c[m + 1] == p1[start + m + 1]);
            } else {
                assert(c[m] == p1.last());
            }
        }
    }
}

/// The message for a cycle.
pub open spec fn cycle_message(p: Seq<Seq<char>>) -> Seq<char> {
    "Cyclic dependency detected: "@ + joined(p, " -> "@) + " at "@ + "unknown"@ + ":"@ + crate::text::decimal(0)
}

impl DependencyGraph {
    /// Searches from `node_id` for a cycle; on finding one, leaves it in
    /// `path` (from the name where it closes, round to that name again).
    fn is_cyclic_dfs(&self, node_id: &str, visited: &mut NameMap<bool>, path: &mut Vec<String>) -> (found: bool)
        requires
            self.wf(),
            old(visited).wf(),
            !old(visited)@.contains_key(node_id@),
            self.universe().contains(node_id@),
            self.within(old(visited)@),
            self.search_state(old(visited)@, views(old(path)@)),
            views(old(path)@).len() > 0 ==> self.edge(views(old(path)@).last(), node_id@),
        ensures
            final(visited).wf(),
            self.within(final(visited)@),
            final(visited).spec_len() >= old(visited).spec_len(),
            found ==> self.is_cycle(views(final(path)@)),
            !found ==> {
                &&& self.search_state(final(visited)@, views(final(path)@))
                &&& views(final(path)@) == views(old(path)@)
                &&& is_black(final(visited)@, node_id@)
                &&& forall|n: Seq<char>| #[trigger] old(visited)@.contains_key(n) ==> final(visited)@.contains_key(n)
                        && final(visited)@[n] == old(visited)@[n]
            },
        decreases self.universe().len() - old(visited).spec_len(),
    {
        let ghost u = node_id@;
        let ghost p0 = views(path@);
        proof {
            self.lemma_room(*visited, u);
        }
        visited.insert(owned(node_id), true);
        path.push(owned(node_id));
        let ghost p1 = views(path@);
        proof {
            assert(p1 =~= p0.push(u));
            assert(!p0.contains(u));
            assert forall|i: int| 0 <= i < p1.len() - 1 implies self.edge(#[trigger] p1[i], p1[i + 1]) by {
                if i < p0.len() - 1 {
                    assert(p1[i] == p0[i] && p1[i + 1] == p0[i + 1]);
                } else {
                    assert(p1[i] == p0.last());
                }
            }
            assert forall|n: Seq<char>| is_gray(visited@, n) <==> p1.contains(n) by {
                if n != u {
                    if p1.contains(n) {
                        let j = choose|j: int| 0 <= j < p1.len() && p1[j] == n;
                        assert(p0[j] == n);
                    }
                    if p0.contains(n) {
                        let j = choose|j: int| 0 <= j < p0.len() && p0[j] == n;
                        assert(p1[j] == n);
                    }
                } else {
                    assert(p1[p1.len() - 1] == u);
                }
            }
            assert forall|n: Seq<char>, i: int| is_black(visited@, n) && 0 <= i < self.succ(n).len() implies is_black(visited@, #[trigger] self.succ(n)[i]) by {
                assert(is_black(old(visited)@, n));
                assert(is_black(old(visited)@, self.succ(n)[i]));
            }
            assert forall|p: Seq<Seq<char>>| self.is_cycle(p) implies exists|i: int| 0 <= i < p.len() && !is_black(visited@, #[trigger] p[i]) by {
                let i0 = choose|i: int| 0 <= i < p.len() && !is_black(old(visited)@, #[trigger] p[i]);
                assert(!is_black(visited@, p[i0]));
            }
        }
        match self.nodes.get(node_id) {
            Some(node) => {
                let ghost ds = views(node.depends_on@);
                assert(ds == self.succ(u));
                let mut k: usize = 0;
                while k < node.depends_on.len()
                    invariant
                        self.wf(),
                        u == node_id@,
                        ds == views(node.depends_on@),
                        ds == self.succ(u),
                        k <= ds.len(),
                        visited.wf(),
                        self.within(visited@),
                        self.universe().contains(u),
                        self.search_state(visited@, views(path@)),
                        views(path@) == p1,
                        p1 == p0.push(u),
                        is_gray(visited@, u),
                        visited.spec_len() > old(visited).spec_len(),
                        forall|n: Seq<char>| #[trigger] old(visited)@.contains_key(n) ==> visited@.contains_key(n)
                            && visited@[n] == old(visited)@[n],
                        forall|t: int| 0 <= t < k ==> is_black(visited@, #[trigger] ds[t]),
                    decreases ds.len() - k,
                {
                    let dep = node.depends_on[k].as_str();
                    proof {
                        self.lemma_succ_in_universe(u, k as int);
                    }
                    let state = match visited.get(dep) {
                        Some(g) => Some(*g),
                        None => None,
                    };
                    match state {
                        None => {
                            let ghost before = visited@;
                            proof {
                                self.lemma_room(*visited, dep@);
                            }
                            if self.is_cyclic_dfs(dep, visited, path) {
                                return true;
                            }
                            assert(is_black(visited@, ds[k as int]));
                            assert forall|t: int| 0 <= t < k + 1 implies is_black(visited@, #[trigger] ds[t]) by {
                                if t < k {
                                    assert(before.contains_key(ds[t]));
                                }
                            }
                            assert(visited@.contains_key(u));
                            assert(is_gray(visited@, u)) by {
                                assert(before.contains_key(u));
                            }
                        },
                        Some(true) => {
                            proof {
                                assert(ds[k as int] == dep@);
                            }
                            let cycle = cycle_from(path, dep);
                            proof {
                                let start = choose|start: int| 0 <= start < p1.len() && p1[start] == dep@
                                    && views(cycle@) == p1.subrange(start, p1.len() as int).push(dep@);
                                self.lemma_cycle_from_path(p1, start, dep@);
                            }
                            *path = cycle;
                            return true;
                        },
                        Some(false) => {
                            assert forall|t: int| 0 <= t < k + 1 implies is_black(visited@, #[trigger] ds[t]) by {}
                        },
                    }
                    k += 1;
                }
            },
            None => {
                assert(self.succ(u) =~= Seq::<Seq<char>>::empty());
            },
        }
        let ghost vb = visited@;
        let ghost pv = path@;
        assert(views(pv) == p1);
        path.pop();
        assert(path@ =~= pv.drop_last());
        assert(views(path@) =~= views(pv).drop_last());
        visited.insert(owned(node_id), false);
        proof {
            assert(views(path@) =~= p0);
            self.lemma_finish(vb, u);
            assert(visited@ == vb.insert(u, false));
            assert forall|n: Seq<char>| is_gray(visited@, n) <==> p0.contains(n) by {
                if n != u {
                    if p0.contains(n) {
                        let j = choose|j: int| 0 <= j < p0.len() && p0[j] == n;
                        assert(p1[j] == n);
                    }
                    if p1.contains(n) && n != u {
                        let j = choose|j: int| 0 <= j < p1.len() && p1[j] == n;
                        assert(j < p0.len());
                        assert(p0[j] == n);
                    }
                }
            }
            assert(self.is_path(p0)) by {
                assert forall|i: int| 0 <= i < p0.len() - 1 implies self.edge(#[trigger] p0[i], p0[i + 1]) by {
                    assert(p0[i] == p1[i] && p0[i + 1] == p1[i + 1]);
                }
            }
        }
        false
    }

    /// Records a cycle, if there is one: the graph's errors are its names
    /// and the message of the cycle found, if any.
    pub fn check_cycles(&mut self) -> (r: Result<(), Vec<String>>)
        requires
            old(self).wf(),
        ensures
            final(self).wf(),
            final(self).deps() == old(self).deps(),
            final(self).order() == old(self).order(),
            final(self).the_resolver() == old(self).the_resolver(),
            r is Ok <==> old(self).acyclic(),
            r is Ok ==> final(self).error_list() == old(self).error_list(),
            r is Err ==> exists|p: Seq<Seq<char>>| {
                &&& old(self).is_cycle(p)
                &&& final(self).error_list() == old(self).error_list().push(cycle_message(p))
                &&& views(r->Err_0@) == final(self).error_list()
            },
    {
        let mut visited: NameMap<bool> = NameMap::new();
        let mut path: Vec<String> = Vec::new();
        let n = self.nodes.len();
        let mut i: usize = 0;
        proof {
            assert(views(path@) =~= Seq::<Seq<char>>::empty());
        }
        while i < n
            invariant
                self == old(self),
                self.wf(),
                n == self.order().len(),
                i <= n,
                visited.wf(),
                self.within(visited@),
                self.search_state(visited@, views(path@)),
                views(path@) == Seq::<Seq<char>>::empty(),
                forall|t: int| 0 <= t < i ==> is_black(visited@, #[trigger] self.order()[t]),
            decreases n - i,
        {
            let key = self.nodes.key_at(i);
            if !visited.contains_key(key.as_str()) {
                proof {
                    self.lemma_universe(key@);
                }
                let ghost before = visited@;
                if self.is_cyclic_dfs(key.as_str(), &mut visited, &mut path) {
                    let ghost p = views(path@);
                    let e = DependencyError::CyclicDependency {
                        cycle: copy_texts(&path),
                        location: SourceLocation::new(owned("unknown"), 0, 0),
                    };
                    let m = e.message();
                    proof {
                        assert(m@ == cycle_message(p));
                    }
                    let ghost errs = views(self.errors@);
                    self.errors.push(m);
                    assert(views(self.errors@) =~= errs.push(cycle_message(p)));
                    return Err(copy_texts(&self.errors));
                }
                assert forall|t: int| 0 <= t < i + 1 implies is_black(visited@, #[trigger] self.order()[t]) by {
                    if t < i {
                        assert(before.contains_key(self.order()[t]));
                    }
                }
            } else {
                proof {
                    let k = key@;
                    if is_gray(visited@, k) {
                        assert(views(path@).contains(k));
                    }
                }
            }
            i += 1;
        }
        proof {
            assert forall|p: Seq<Seq<char>>| !self.is_cycle(p) by {
                if self.is_cycle(p) {
                    assert forall|j: int| 0 <= j < p.len() implies is_black(visited@, #[trigger] p[j]) by {
                        let j2 = if j == p.len() - 1 { 0 } else { j };
                        assert(p[j2] == p[j]);
                        assert(self.edge(p[j2], p[j2 + 1]));
                        assert(self.succ(p[j2]).len() > 0);
                        assert(self.deps().contains_key(p[j2]));
                        assert(self.order().contains(p[j2]));
                        let t = choose|t: int| 0 <= t < self.order().len() && self.order()[t] == p[j2];
                        assert(is_black(visited@, self.order()[t]));
                    }
                    let i0 = choose|i: int| 0 <= i < p.len() && !is_black(visited@, #[trigger] p[i]);
                    assert(false);
                }
            }
        }
        Ok(())
    }
}

impl DependencyGraph {
    /// The state of the ordering search: `done` lists the finished names in
    /// the order they finished, `gray` is the search path; what a finished
    /// name depends on was visited, and, in a graph without cycles, finished
    /// before it.
    pub open spec fn order_state(&self, v: Map<Seq<char>, bool>, done: Seq<Seq<char>>, gray: Seq<Seq<char>>) -> bool {
        &&& done.no_duplicates()
        &&& forall|n: Seq<char>| is_black(v, n) <==> done.contains(n)
        &&& gray.no_duplicates()
        &&& self.is_path(gray)
        &&& forall|n: Seq<char>| is_gray(v, n) <==> gray.contains(n)
        &&& forall|n: Seq<char>, i: int| is_black(v, n) && 0 <= i < self.succ(n).len() ==> v.contains_key(#[trigger] self.succ(n)[i])
        &&& self.acyclic() ==> forall|t: int, i: int| 0 <= t < done.len() && 0 <= i < self.succ(done[t]).len()
                ==> done.take(t).contains(#[trigger] self.succ(done[t])[i])
    }

    /// Visits `node_id` and, first, everything it depends on that was not
    /// visited yet; appends each to `stack` as it finishes.
    fn topological_sort_dfs(&self, node_id: &str, visited: &mut NameMap<bool>, stack: &mut Vec<String>, Ghost(gray): Ghost<Seq<Seq<char>>>)
        requires
            self.wf(),
            old(visited).wf(),
            !old(visited)@.contains_key(node_id@),
            self.universe().contains(node_id@),
            self.within(old(visited)@),
            self.order_state(old(visited)@, views(old(stack)@), gray),
            gray.len() > 0 ==> self.edge(gray.last(), node_id@),
        ensures
            final(visited).wf(),
            self.within(final(visited)@),
            final(visited).spec_len() >= old(visited).spec_len(),
            self.order_state(final(visited)@, views(final(stack)@), gray),
            is_black(final(visited)@, node_id@),
            forall|n: Seq<char>| #[trigger] old(visited)@.contains_key(n) ==> final(visited)@.contains_key(n)
                && final(visited)@[n] == old(visited)@[n],
            views(final(stack)@).len() >= views(old(stack)@).len(),
            views(final(stack)@).take(views(old(stack)@).len() as int) == views(old(stack)@),
        decreases self.universe().len() - old(visited).spec_len(),
    {
        let ghost u = node_id@;
        let ghost s0 = views(stack@);
        let ghost g1 = gray.push(u);
        proof {
            self.lemma_room(*visited, u);
        }
        visited.insert(owned(node_id), true);
        proof {
            assert(!gray.contains(u));
            assert forall|i: int| 0 <= i < g1.len() - 1 implies self.edge(#[trigger] g1[i], g1[i + 1]) by {
                if i < gray.len() - 1 {
                    assert(g1[i] == gray[i] && g1[i + 1] == gray[i + 1]);
                } else {
                    assert(g1[i] == gray.last());
                }
            }
            assert forall|n: Seq<char>| is_gray(visited@, n) <==> g1.contains(n) by {
                if n != u {
                    if g1.contains(n) {
                        let j = choose|j: int| 0 <= j < g1.len() && g1[j] == n;
                        assert(gray[j] == n);
                    }
                    if gray.contains(n) {
                        let j = choose|j: int| 0 <= j < gray.len() && gray[j] == n;
                        assert(g1[j] == n);
                    }
                } else {
                    assert(g1[g1.len() - 1] == u);
                }
            }
            assert forall|n: Seq<char>, i: int| is_black(visited@, n) && 0 <= i < self.succ(n).len() implies visited@.contains_key(#[trigger] self.succ(n)[i]) by {
                assert(is_black(old(visited)@, n));
            }
            assert(self.order_state(visited@, s0, g1));
        }
        match self.nodes.get(node_id) {
            Some(node) => {
                let ghost ds = views(node.depends_on@);
                assert(ds == self.succ(u));
                let mut k: usize = 0;
                while k < node.depends_on.len()
                    invariant
                        self.wf(),
                        u == node_id@,
                        ds == views(node.depends_on@),
                        ds == self.succ(u),
                        k <= ds.len(),
                        visited.wf(),
                        self.within(visited@),
                        self.universe().contains(u),
                        g1 == gray.push(u),
                        self.order_state(visited@, views(stack@), g1),
                        is_gray(visited@, u),
                        visited.spec_len() > old(visited).spec_len(),
                        forall|n: Seq<char>| #[trigger] old(visited)@.contains_key(n) ==> visited@.contains_key(n)
                            && visited@[n] == old(visited)@[n],
                        views(stack@).len() >= s0.len(),
                        views(stack@).take(s0.len() as int) == s0,
                        forall|t: int| 0 <= t < k ==> visited@.contains_key(#[trigger] ds[t]),
                        self.acyclic() ==> forall|t: int| 0 <= t < k ==> is_black(visited@, #[trigger] ds[t]),
                    decreases ds.len() - k,
                {
                    let dep = node.depends_on[k].as_str();
                    proof {
                        self.lemma_succ_in_universe(u, k as int);
                        assert(ds[k as int] == dep@);
                    }
                    if !visited.contains_key(dep) {
                        let ghost before = visited@;
                        let ghost sb = views(stack@);
                        proof {
                            self.lemma_room(*visited, dep@);
                            assert(g1.last() == u);
                        }
                        self.topological_sort_dfs(dep, visited, stack, Ghost(g1));
                        proof {
                            assert forall|t: int| 0 <= t < k + 1 implies visited@.contains_key(#[trigger] ds[t]) by {
                                if t < k {
                                    assert(before.contains_key(ds[t]));
                                }
                            }
                            if self.acyclic() {
                                assert forall|t: int| 0 <= t < k + 1 implies is_black(visited@, #[trigger] ds[t]) by {
                                    if t < k {
                                        assert(before.contains_key(ds[t]));
                                    }
                                }
                            }
                            assert(before.contains_key(u));
                            let sn = views(stack@);
                            assert(sn.take(s0.len() as int) =~= sn.take(sb.len() as int).take(s0.len() as int));
                        }
                    } else {
                        proof {
                            if self.acyclic() && is_gray(visited@, dep@) {
                                assert(g1.contains(dep@));
                                let start = choose|j: int| 0 <= j < g1.len() && g1[j] == dep@;
                                assert(self.edge(g1.last(), dep@)) by {
                                    assert(ds[k as int] == dep@);
                                }
                                self.lemma_cycle_from_path(g1, start, dep@);
                                assert(!self.is_cycle(g1.subrange(start, g1.len() as int).push(dep@)));
                            }
                        }
                    }
                    k += 1;
                }
            },
            None => {
                assert(self.succ(u) =~= Seq::<Seq<char>>::empty());
            },
        }
        let ghost vb = visited@;
        let ghost sb = views(stack@);
        stack.push(owned(node_id));
        visited.insert(owned(node_id), false);
        proof {
            let sn = views(stack@);
            assert(sn =~= sb.push(u));
            assert(!sb.contains(u)) by {
                if sb.contains(u) {
                    assert(is_black(vb, u));
                }
            }
            assert(sn.take(s0.len() as int) =~= sb.take(s0.len() as int));
            assert forall|n: Seq<char>| is_black(visited@, n) <==> sn.contains(n) by {
                if n != u {
                    if sn.contains(n) {
                        let j = choose|j: int| 0 <= j < sn.len() && sn[j] == n;
                        assert(sb[j] == n);
                    }
                    if sb.contains(n) {
                        let j = choose|j: int| 0 <= j < sb.len() && sb[j] == n;
                        assert(sn[j] == n);
                    }
                } else {
                    assert(sn[sn.len() - 1] == u);
                }
            }
            assert forall|n: Seq<char>| is_gray(visited@, n) <==> gray.contains(n) by {
                if n != u {
                    if gray.contains(n) {
                        let j = choose|j: int| 0 <= j < gray.len() && gray[j] == n;
                        assert(g1[j] == n);
                    }
                    if g1.contains(n) {
                        let j = choose|j: int| 0 <= j < g1.len() && g1[j] == n;
                        assert(j < gray.len());
                        assert(gray[j] == n);
                    }
                }
            }
            assert forall|n: Seq<char>, i: int| is_black(visited@, n) && 0 <= i < self.succ(n).len() implies visited@.contains_key(#[trigger] self.succ(n)[i]) by {
                if n != u {
                    assert(is_black(vb, n));
                }
            }
            if self.acyclic() {
                assert forall|t: int, i: int| 0 <= t < sn.len() && 0 <= i < self.succ(sn[t]).len()
                    implies sn.take(t).contains(#[trigger] self.succ(sn[t])[i]) by {
                    if t < sb.len() {
                        assert(sn[t] == sb[t]);
                        assert(sn.take(t) =~= sb.take(t));
                    } else {
                        assert(sn[t] == u);
                        assert(sn.take(t) =~= sb);
                        let d = self.succ(u)[i];
                        assert(is_black(vb, d));
                    }
                }
            }
        }
    }

    /// The symbols, each before everything it depends on (when the graph
    /// holds no cycle), with every name the graph mentions exactly once; an
    /// error when cycles were recorded.
    pub fn topological_sort(&self) -> (r: Result<Vec<String>, String>)
        requires
            self.wf(),
        ensures
            self.error_list().len() > 0 ==> r is Err && r->Err_0@ == "Cannot perform topological sort on cyclic graph"@,
            self.error_list().len() == 0 ==> r is Ok && {
                let o = views(r->Ok_0@);
                &&& o.no_duplicates()
                &&& forall|n: Seq<char>| o.contains(n) <==> self.universe().contains(n)
                &&& self.acyclic() ==> forall|i: int, j: int| 0 <= i < o.len() && 0 <= j < o.len()
                        && self.edge(#[trigger] o[i], #[trigger] o[j]) ==> i < j
            },
    {
        if self.errors.len() > 0 {
            return Err(owned("Cannot perform topological sort on cyclic graph"));
        }
        let mut visited: NameMap<bool> = NameMap::new();
        let mut stack: Vec<String> = Vec::new();
        let n = self.nodes.len();
        let mut i: usize = 0;
        proof {
            assert(views(stack@) =~= Seq::<Seq<char>>::empty());
            assert(self.order_state(visited@, views(stack@), Seq::<Seq<char>>::empty()));
        }
        while i < n
            invariant
                self.wf(),
                n == self.order().len(),
                i <= n,
                visited.wf(),
                self.within(visited@),
                self.order_state(visited@, views(stack@), Seq::<Seq<char>>::empty()),
                forall|t: int| 0 <= t < i ==> visited@.contains_key(#[trigger] self.order()[t]),
            decreases n - i,
        {
            let key = self.nodes.key_at(i);
            if !visited.contains_key(key.as_str()) {
                proof {
                    self.lemma_universe(key@);
                }
                let ghost before = visited@;
                self.topological_sort_dfs(key.as_str(), &mut visited, &mut stack, Ghost(Seq::<Seq<char>>::empty()));
                assert forall|t: int| 0 <= t < i + 1 implies visited@.contains_key(#[trigger] self.order()[t]) by {
                    if t < i {
                        assert(before.contains_key(self.order()[t]));
                    }
                }
            }
            i += 1;
        }
        let ghost s = views(stack@);
        let mut order: Vec<String> = Vec::new();
        let mut j: usize = stack.len();
        while j > 0
            invariant
                s == views(stack@),
                j <= s.len(),
                views(order@).len() == s.len() - j,
                forall|t: int| 0 <= t < views(order@).len() ==> #[trigger] views(order@)[t] == s[s.len() - 1 - t],
            decreases j,
        {
            j -= 1;
            let ghost before = views(order@);
            order.push(stack[j].clone());
            assert(views(order@) =~= before.push(s[j as int]));
        }
        proof {
            let o = views(order@);
            assert(!(exists|m: Seq<char>| is_gray(visited@, m)));
            assert forall|a: int, b: int| 0 <= a < o.len() && 0 <= b < o.len() && a != b implies o[a] != o[b] by {
                assert(o[a] == s[s.len() - 1 - a] && o[b] == s[s.len() - 1 - b]);
            }
            assert forall|m: Seq<char>| o.contains(m) <==> self.universe().contains(m) by {
                if o.contains(m) {
                    let a = choose|a: int| 0 <= a < o.len() && o[a] == m;
                    assert(s[s.len() - 1 - a] == m);
                    assert(s.contains(m));
                    assert(is_black(visited@, m));
                }
                if self.universe().contains(m) {
                    self.lemma_universe(m);
                    let present = visited@.contains_key(m);
                    if !present {
                        if self.deps().contains_key(m) {
                            assert(self.order().contains(m));
                            let t = choose|t: int| 0 <= t < self.order().len() && self.order()[t] == m;
                            assert(visited@.contains_key(self.order()[t]));
                        } else {
                            let k = choose|k: Seq<char>| self.deps().contains_key(k) && (#[trigger] self.deps()[k]).contains(m);
                            assert(self.order().contains(k));
                            let t = choose|t: int| 0 <= t < self.order().len() && self.order()[t] == k;
                            assert(visited@.contains_key(self.order()[t]));
                            assert(is_black(visited@, k)) by {
                                if is_gray(visited@, k) {
                                    assert(Seq::<Seq<char>>::empty().contains(k));
                                }
                            }
                            let x = choose|x: int| 0 <= x < self.succ(k).len() && self.succ(k)[x] == m;
                            assert(visited@.contains_key(self.succ(k)[x]));
                        }
                    }
                    assert(is_black(visited@, m)) by {
                        if is_gray(visited@, m) {
                            assert(Seq::<Seq<char>>::empty().contains(m));
                        }
                    }
                    let t = choose|t: int| 0 <= t < s.len() && s[t] == m;
                    assert(o[s.len() - 1 - t] == m);
                }
            }
            if self.acyclic() {
                assert forall|a: int, b: int| 0 <= a < o.len() && 0 <= b < o.len()
                    && self.edge(#[trigger] o[a], #[trigger] o[b]) implies a < b by {
                    let ta = s.len() - 1 - a;
                    assert(o[a] == s[ta]);
                    assert(o[b] == s[s.len() - 1 - b]);
                    let x = choose|x: int| 0 <= x < self.succ(s[ta]).len() && self.succ(s[ta])[x] == o[b];
                    assert(s.take(ta).contains(self.succ(s[ta])[x]));
                    let y = choose|y: int| 0 <= y < s.take(ta).len() && s.take(ta)[y] == o[b];
                    assert(s[y] == s[s.len() - 1 - b]);
                }
            }
        }
        Ok(order)
    }
}


/// A term depends on a name that resolves to a rule, flow, entity or
/// constraint, and on the entity of a field when that resolves.
pub open spec fn dep_term(g: Visible, t: Term) -> Seq<Seq<char>> {
    match t {
        Term::Identifier(n) => if g.contains_key(n@) && (g[n@].0 == SymbolKind::Rule || g[n@].0 == SymbolKind::Flow
            || g[n@].0 == SymbolKind::Entity || g[n@].0 == SymbolKind::Constraint) {
            seq![n@]
        } else {
            seq![]
        },
        Term::Number(_) => seq![],
        Term::QualifiedRef(e, _) => if g.contains_key(e@) { seq![e@] } else { seq![] },
    }
}

pub open spec fn dep_terms(g: Visible, ts: Seq<Term>) -> Seq<Seq<char>>
    decreases ts.len(),
{
    if ts.len() == 0 {
        seq![]
    } else {
        dep_terms(g, ts.subrange(0, ts.len() - 1)) + dep_term(g, ts[ts.len() - 1])
    }
}

/// A predicate depends on its name when that resolves, then on its arguments.
pub open spec fn dep_pred(g: Visible, p: Predicate) -> Seq<Seq<char>> {
    (if g.contains_key(p.name@) { seq![p.name@] } else { seq![] }) + dep_terms(g, p.arguments@)
}

pub open spec fn dep_cond(g: Visible, c: Condition) -> Seq<Seq<char>>
    decreases c,
{
    match c {
        Condition::Expression(Expression::Comparison { left, op, right }) => dep_term(g, left) + dep_term(g, right),
        Condition::Expression(Expression::Predicate(p)) => dep_pred(g, p),
        Condition::LogicalOp(l, _, r) => dep_cond(g, *l) + dep_cond(g, *r),
    }
}

pub open spec fn dep_action(g: Visible, a: Action) -> Seq<Seq<char>>
    decreases a,
{
    match a {
        Action::Predicate(p) => dep_pred(g, p),
        Action::Assignment(x) => dep_term(g, x.value),
        Action::Control(ControlAction::If(i)) => dep_cond(g, i.condition) + dep_actions(g, i.then_actions@) + match i.else_actions {
            Some(e) => dep_actions(g, e@),
            None => seq![],
        },
        Action::Control(ControlAction::Loop(l)) => dep_actions(g, l.actions@),
        Action::Control(ControlAction::Halt(_)) => seq![],
    }
}

pub open spec fn dep_actions(g: Visible, s: Seq<Action>) -> Seq<Seq<char>>
    decreases s,
{
    if s.len() == 0 {
        seq![]
    } else {
        dep_actions(g, s.subrange(0, s.len() - 1)) + dep_action(g, s[s.len() - 1])
    }
}

/// What a definition depends on, in the order found; an entity on nothing.
pub open spec fn def_deps(g: Visible, d: Definition) -> Seq<Seq<char>> {
    match d {
        Definition::Entity(_) => seq![],
        Definition::Rule(r) => dep_cond(g, r.condition) + dep_actions(g, r.actions@),
        Definition::Flow(f) => dep_actions(g, f.actions@),
        Definition::Constraint(c) => dep_cond(g, c.condition),
    }
}

/// The graph after a node is created for each definition's name, in order.
pub open spec fn created(deps: Map<Seq<char>, Seq<Seq<char>>>, order: Seq<Seq<char>>, ds: Seq<Definition>) -> (Map<Seq<char>, Seq<Seq<char>>>, Seq<Seq<char>>)
    decreases ds.len(),
{
    if ds.len() == 0 {
        (deps, order)
    } else {
        let (d, o) = created(deps, order, ds.subrange(0, ds.len() - 1));
        let n = ds[ds.len() - 1].spec_name();
        (d.insert(n, seq![]), if d.contains_key(n) { o } else { o.push(n) })
    }
}

/// The dependencies after each definition other than an entity adds what it
/// depends on to its node.
pub open spec fn analyzed(deps: Map<Seq<char>, Seq<Seq<char>>>, g: Visible, ds: Seq<Definition>) -> Map<Seq<char>, Seq<Seq<char>>>
    decreases ds.len(),
{
    if ds.len() == 0 {
        deps
    } else {
        let d = analyzed(deps, g, ds.subrange(0, ds.len() - 1));
        let def = ds[ds.len() - 1];
        let n = def.spec_name();
        match def {
            Definition::Entity(_) => d,
            _ => if d.contains_key(n) { d.insert(n, d[n] + def_deps(g, def)) } else { d },
        }
    }
}

/// Whether each name of `p` depends directly on the next, by `deps`.
pub open spec fn deps_path(deps: Map<Seq<char>, Seq<Seq<char>>>, p: Seq<Seq<char>>) -> bool {
    forall|i: int| 0 <= i < p.len() - 1 ==> deps.contains_key(#[trigger] p[i]) && deps[p[i]].contains(p[i + 1])
}

/// A path of at least one step, by `deps`, that ends where it starts.
pub open spec fn deps_cycle(deps: Map<Seq<char>, Seq<Seq<char>>>, p: Seq<Seq<char>>) -> bool {
    &&& p.len() >= 2
    &&& p[0] == p.last()
    &&& deps_path(deps, p)
}

impl DependencyGraph {
    /// The cycles of the graph are those of its dependencies.
    pub proof fn lemma_deps_cycle(&self)
        ensures
            forall|p: Seq<Seq<char>>| #[trigger] self.is_cycle(p) == deps_cycle(self.deps(), p),
            self.acyclic() == forall|p: Seq<Seq<char>>| !deps_cycle(self.deps(), p),
    {
        assert forall|p: Seq<Seq<char>>| #[trigger] self.is_cycle(p) == deps_cycle(self.deps(), p) by {
            assert forall|i: int| 0 <= i < p.len() - 1 implies self.edge(#[trigger] p[i], p[i + 1])
                == (self.deps().contains_key(p[i]) && self.deps()[p[i]].contains(p[i + 1])) by {
            }
            assert(self.is_path(p) == deps_path(self.deps(), p));
        }
        if self.acyclic() {
            assert forall|p: Seq<Seq<char>>| !deps_cycle(self.deps(), p) by {
                assert(!self.is_cycle(p));
            }
        } else {
            let p = choose|p: Seq<Seq<char>>| self.is_cycle(p);
            assert(deps_cycle(self.deps(), p));
        }
    }

    /// Two graphs with the same dependencies have the same cycles.
    pub proof fn lemma_same_deps_acyclic(&self, other: DependencyGraph)
        requires
            self.deps() == other.deps(),
        ensures
            self.acyclic() == other.acyclic(),
            forall|p: Seq<Seq<char>>| self.is_cycle(p) == other.is_cycle(p),
    {
        assert forall|p: Seq<Seq<char>>| self.is_cycle(p) == other.is_cycle(p) by {
            assert forall|i: int| 0 <= i < p.len() - 1 implies self.edge(#[trigger] p[i], p[i + 1]) == other.edge(p[i], p[i + 1]) by {
                assert(self.succ(p[i]) == other.succ(p[i]));
            }
            assert(self.is_path(p) == other.is_path(p));
        }
    }

    /// What names resolve to for the graph.
    pub open spec fn names(&self) -> Visible {
        self.the_resolver().scopes().visible()
    }

    fn collect_term_dependencies_single(&self, term: &Term, dependencies: &mut Vec<String>)
        requires
            self.the_resolver().wf(),
        ensures
            views(final(dependencies)@) == views(old(dependencies)@) + dep_term(self.names(), *term),
    {
        let ghost before = views(dependencies@);
        match term {
            Term::Identifier(name) => {
                let depends = match self.resolver().scope_manager().resolve_symbol(name.as_str()) {
                    Some(symbol) => match symbol.kind {
                        SymbolKind::Rule | SymbolKind::Flow | SymbolKind::Entity | SymbolKind::Constraint => true,
                        _ => false,
                    },
                    None => false,
                };
                if depends {
                    dependencies.push(name.clone());
                }
            },
            Term::Number(_) => {},
            Term::QualifiedRef(entity, _) => {
                if self.resolver().scope_manager().resolve_symbol(entity.as_str()).is_some() {
                    dependencies.push(entity.clone());
                }
            },
        }
        assert(views(dependencies@) =~= before + dep_term(self.names(), *term));
    }

    fn collect_predicate_dependencies(&self, predicate: &Predicate, dependencies: &mut Vec<String>)
        requires
            self.the_resolver().wf(),
        ensures
            views(final(dependencies)@) == views(old(dependencies)@) + dep_pred(self.names(), *predicate),
    {
        let ghost before = views(dependencies@);
        if self.resolver().scope_manager().resolve_symbol(predicate.name.as_str()).is_some() {
            dependencies.push(predicate.name.clone());
        }
        let ghost first = views(dependencies@);
        assert(first =~= before + (if self.names().contains_key(predicate.name@) { seq![predicate.name@] } else { seq![] }));
        let args = &predicate.arguments;
        let mut i: usize = 0;
        assert(args@.subrange(0, 0) =~= Seq::<Term>::empty());
        while i < args.len()
            invariant
                self.the_resolver().wf(),
                args == &predicate.arguments,
                i <= args@.len(),
                views(dependencies@) == first + dep_terms(self.names(), args@.subrange(0, i as int)),
            decreases args@.len() - i,
        {
            self.collect_term_dependencies_single(&args[i], dependencies);
            assert(args@.subrange(0, i + 1).subrange(0, i as int) =~= args@.subrange(0, i as int));
            i += 1;
        }
        assert(args@.subrange(0, args@.len() as int) =~= args@);
        assert(views(dependencies@) =~= before + dep_pred(self.names(), *predicate));
    }

    fn collect_expression_dependencies(&self, expression: &Expression, dependencies: &mut Vec<String>)
        requires
            self.the_resolver().wf(),
        ensures
            views(final(dependencies)@) == views(old(dependencies)@) + dep_cond(self.names(), Condition::Expression(*expression)),
    {
        match expression {
            Expression::Comparison { left, op: _, right } => {
                self.collect_term_dependencies_single(left, dependencies);
                self.collect_term_dependencies_single(right, dependencies);
            },
            Expression::Predicate(predicate) => self.collect_predicate_dependencies(predicate, dependencies),
        }
        assert(views(dependencies@) =~= views(old(dependencies)@) + dep_cond(self.names(), Condition::Expression(*expression)));
    }

    fn collect_term_dependencies(&self, condition: &Condition, dependencies: &mut Vec<String>)
        requires
            self.the_resolver().wf(),
        ensures
            views(final(dependencies)@) == views(old(dependencies)@) + dep_cond(self.names(), *condition),
        decreases condition,
    {
        match condition {
            Condition::Expression(expr) => self.collect_expression_dependencies(expr, dependencies),
            Condition::LogicalOp(left, _, right) => {
                self.collect_term_dependencies(left, dependencies);
                self.collect_term_dependencies(right, dependencies);
                assert(views(dependencies@) =~= views(old(dependencies)@) + dep_cond(self.names(), *condition));
            },
        }
    }

    fn collect_action_list_dependencies(&self, actions: &Vec<Action>, dependencies: &mut Vec<String>)
        requires
            self.the_resolver().wf(),
        ensures
            views(final(dependencies)@) == views(old(dependencies)@) + dep_actions(self.names(), actions@),
        decreases actions,
    {
        let mut i: usize = 0;
        assert(actions@.subrange(0, 0) =~= Seq::<Action>::empty());
        while i < actions.len()
            invariant
                self.the_resolver().wf(),
                i <= actions@.len(),
                views(dependencies@) == views(old(dependencies)@) + dep_actions(self.names(), actions@.subrange(0, i as int)),
            decreases actions@.len() - i,
        {
            self.collect_action_dependencies(&actions[i], dependencies);
            assert(actions@.subrange(0, i + 1).subrange(0, i as int) =~= actions@.subrange(0, i as int));
            i += 1;
        }
        assert(actions@.subrange(0, actions@.len() as int) =~= actions@);
    }

    fn collect_action_dependencies(&self, action: &Action, dependencies: &mut Vec<String>)
        requires
            self.the_resolver().wf(),
        ensures
            views(final(dependencies)@) == views(old(dependencies)@) + dep_action(self.names(), *action),
        decreases action,
    {
        match action {
            Action::Predicate(predicate) => self.collect_predicate_dependencies(predicate, dependencies),
            Action::Assignment(assignment) => self.collect_term_dependencies_single(&assignment.value, dependencies),
            Action::Control(control_action) => self.collect_control_action_dependencies(control_action, dependencies),
        }
    }

    fn collect_control_action_dependencies(&self, control_action: &ControlAction, dependencies: &mut Vec<String>)
        requires
            self.the_resolver().wf(),
        ensures
            views(final(dependencies)@) == views(old(dependencies)@) + dep_action(self.names(), Action::Control(*control_action)),
        decreases control_action,
    {
        match control_action {
            ControlAction::If(if_action) => {
                self.collect_term_dependencies(&if_action.condition, dependencies);
                self.collect_action_list_dependencies(&if_action.then_actions, dependencies);
                match &if_action.else_actions {
                    Some(else_actions) => self.collect_action_list_dependencies(else_actions, dependencies),
                    None => {},
                }
            },
            ControlAction::Loop(loop_action) => self.collect_action_list_dependencies(&loop_action.actions, dependencies),
            ControlAction::Halt(_) => {},
        }
        assert(views(dependencies@) =~= views(old(dependencies)@) + dep_action(self.names(), Action::Control(*control_action)));
    }

    /// Adds what a definition depends on to its node; an entity depends on nothing.
    fn analyze_dependencies(&mut self, definition: &Definition)
        requires
            old(self).wf(),
            old(self).the_resolver().wf(),
        ensures
            final(self).wf(),
            final(self).the_resolver() == old(self).the_resolver(),
            final(self).order() == old(self).order(),
            final(self).error_list() == old(self).error_list(),
            final(self).deps() == match *definition {
                Definition::Entity(_) => old(self).deps(),
                _ => if old(self).deps().contains_key(definition.spec_name()) {
                    old(self).deps().insert(definition.spec_name(), old(self).deps()[definition.spec_name()] + def_deps(old(self).names(), *definition))
                } else {
                    old(self).deps()
                },
            },
    {
        let mut dependencies: Vec<String> = Vec::new();
        assert(views(dependencies@) =~= Seq::<Seq<char>>::empty());
        match definition {
            Definition::Entity(_) => {
                return;
            },
            Definition::Rule(rule_def) => {
                self.collect_term_dependencies(&rule_def.condition, &mut dependencies);
                self.collect_action_list_dependencies(&rule_def.actions, &mut dependencies);
            },
            Definition::Flow(flow_def) => {
                self.collect_action_list_dependencies(&flow_def.actions, &mut dependencies);
            },
            Definition::Constraint(constraint_def) => {
                self.collect_term_dependencies(&constraint_def.condition, &mut dependencies);
            },
        }
        assert(views(dependencies@) =~= def_deps(old(self).names(), *definition));
        self.add_dependencies(definition.name().as_str(), dependencies);
    }

    /// Builds the graph of a program: a node for each definition's name, then
    /// what each definition depends on (see `def_deps`); then looks for a cycle.
    /// A cycle is recorded as an error and answered with all errors; without
    /// one, the result is `Ok` exactly when the graph holds no error.
    pub fn build_graph(&mut self, program: &Program) -> (r: Result<(), Vec<String>>)
        requires
            old(self).wf(),
            old(self).the_resolver().wf(),
        ensures
            final(self).wf(),
            final(self).the_resolver() == old(self).the_resolver(),
            ({
                let (d1, o1) = created(old(self).deps(), old(self).order(), program.definitions@);
                &&& final(self).order() == o1
                &&& final(self).deps() == analyzed(d1, old(self).names(), program.definitions@)
            }),
            match r {
                Ok(()) => final(self).acyclic() && final(self).error_list() == old(self).error_list()
                    && old(self).error_list().len() == 0,
                Err(e) => views(e@) == final(self).error_list() && (
                    (final(self).acyclic() && final(self).error_list() == old(self).error_list() && old(self).error_list().len() > 0)
                    || (!final(self).acyclic() && exists|p: Seq<Seq<char>>| final(self).is_cycle(p)
                        && final(self).error_list() == old(self).error_list().push(cycle_message(p)))),
            },
    {
        let defs = &program.definitions;
        let ghost d0 = old(self).deps();
        let ghost o0 = old(self).order();
        let ghost g = old(self).names();
        let mut i: usize = 0;
        assert(defs@.subrange(0, 0) =~= Seq::<Definition>::empty());
        while i < defs.len()
            invariant
                self.wf(),
                self.the_resolver() == old(self).the_resolver(),
                self.error_list() == old(self).error_list(),
                defs == &program.definitions,
                i <= defs@.len(),
                (self.deps(), self.order()) == created(d0, o0, defs@.subrange(0, i as int)),
            decreases defs@.len() - i,
        {
            self.create_node(defs[i].name().as_str());
            assert(defs@.subrange(0, i + 1).subrange(0, i as int) =~= defs@.subrange(0, i as int));
            i += 1;
        }
        assert(defs@.subrange(0, defs@.len() as int) =~= defs@);
        let ghost d1 = self.deps();
        let mut j: usize = 0;
        while j < defs.len()
            invariant
                self.wf(),
                self.the_resolver() == old(self).the_resolver(),
                self.the_resolver().wf(),
                self.error_list() == old(self).error_list(),
                g == old(self).names(),
                defs == &program.definitions,
                j <= defs@.len(),
                self.order() == created(d0, o0, defs@).1,
                self.deps() == analyzed(d1, g, defs@.subrange(0, j as int)),
            decreases defs@.len() - j,
        {
            self.analyze_dependencies(&defs[j]);
            assert(defs@.subrange(0, j + 1).subrange(0, j as int) =~= defs@.subrange(0, j as int));
            j += 1;
        }
        assert(defs@.subrange(0, defs@.len() as int) =~= defs@);
        let ghost built = *self;
        let checked = self.check_cycles();
        proof {
            built.lemma_same_deps_acyclic(*self);
        }
        match checked {
            Ok(()) => {},
            Err(e) => {
                return Err(e);
            },
        }
        if self.errors.len() == 0 {
            Ok(())
        } else {
            Err(copy_texts(&self.errors))
        }
    }
}

} // verus!
