//! The type system: type kinds and descriptors, their equality and their debug text.
use vstd::prelude::*;
use crate::text::{debug_str, debug_str_string};

verus! {

/// Kinds of types.
#[derive(Debug)]
pub enum TypeKind {
    Int,
    Float,
    Bool,
    String,
    Void,
    /// an entity type, by the entity's name
    Entity(String),
    List(Box<TypeDescriptor>),
    Optional(Box<TypeDescriptor>),
    Sym,
    Num,
    Ref,
    Vec,
    Ctx,
}

/// A type: its kind, an optional name and type parameters.
#[derive(Debug)]
pub struct TypeDescriptor {
    pub kind: TypeKind,
    pub name_id: Option<String>,
    pub parameters: Vec<TypeDescriptor>,
}

/// The content of a type kind.
pub enum KindV {
    Int,
    Float,
    Bool,
    Str,
    Void,
    Entity(Seq<char>),
    List(Box<TypeV>),
    Optional(Box<TypeV>),
    Sym,
    Num,
    Ref,
    Vec,
    Ctx,
}

/// The content of a type descriptor.
pub struct TypeV {
    pub kind: KindV,
    pub name: Option<Seq<char>>,
    pub params: Seq<TypeV>,
}

pub open spec fn opt_text(o: Option<String>) -> Option<Seq<char>> {
    match o {
        Some(s) => Some(s@),
        None => None,
    }
}

impl TypeKind {
    pub open spec fn view(&self) -> KindV
        decreases self, 0nat,
    {
        match self {
            TypeKind::Int => KindV::Int,
            TypeKind::Float => KindV::Float,
            TypeKind::Bool => KindV::Bool,
            TypeKind::String => KindV::Str,
            TypeKind::Void => KindV::Void,
            TypeKind::Entity(s) => KindV::Entity(s@),
            TypeKind::List(b) => KindV::List(Box::new(b.view())),
            TypeKind::Optional(b) => KindV::Optional(Box::new(b.view())),
            TypeKind::Sym => KindV::Sym,
            TypeKind::Num => KindV::Num,
            TypeKind::Ref => KindV::Ref,
            TypeKind::Vec => KindV::Vec,
            TypeKind::Ctx => KindV::Ctx,
        }
    }
}

impl TypeDescriptor {
    pub open spec fn view(&self) -> TypeV
        decreases self, 1nat,
    {
        TypeV {
            kind: self.kind.view(),
            name: opt_text(self.name_id),
            params: type_views(self.parameters@),
        }
    }
}

/// The contents of a sequence of type descriptors.
pub open spec fn type_views(s: Seq<TypeDescriptor>) -> Seq<TypeV>
    decreases s, 0nat,
{
    if s.len() == 0 {
        Seq::empty()
    } else {
        type_views(s.drop_last()).push(s.last().view())
    }
}

pub proof fn lemma_type_views(s: Seq<TypeDescriptor>)
    ensures
        type_views(s).len() == s.len(),
        forall|i: int| 0 <= i < s.len() ==> #[trigger] type_views(s)[i] == s[i]@,
    decreases s.len(),
{
    if s.len() > 0 {
        lemma_type_views(s.drop_last());
    }
}

/// Type equality by content.
pub fn type_eq(a: &TypeDescriptor, b: &TypeDescriptor) -> (r: bool)
    ensures
        r == (a@ == b@),
    decreases a, 1nat,
{
    let k = kind_eq(&a.kind, &b.kind);
    let n = match (&a.name_id, &b.name_id) {
        (Some(x), Some(y)) => *x == *y,
        (None, None) => true,
        _ => false,
    };
    let p = types_eq(&a.parameters, &b.parameters);
    k && n && p
}

fn kind_eq(a: &TypeKind, b: &TypeKind) -> (r: bool)
    ensures
        r == (a@ == b@),
    decreases a, 0nat,
{
    match (a, b) {
        (TypeKind::Int, TypeKind::Int) => true,
        (TypeKind::Float, TypeKind::Float) => true,
        (TypeKind::Bool, TypeKind::Bool) => true,
        (TypeKind::String, TypeKind::String) => true,
        (TypeKind::Void, TypeKind::Void) => true,
        (TypeKind::Entity(x), TypeKind::Entity(y)) => *x == *y,
        (TypeKind::List(x), TypeKind::List(y)) => type_eq(x, y),
        (TypeKind::Optional(x), TypeKind::Optional(y)) => type_eq(x, y),
        (TypeKind::Sym, TypeKind::Sym) => true,
        (TypeKind::Num, TypeKind::Num) => true,
        (TypeKind::Ref, TypeKind::Ref) => true,
        (TypeKind::Vec, TypeKind::Vec) => true,
        (TypeKind::Ctx, TypeKind::Ctx) => true,
        _ => false,
    }
}

fn types_eq(a: &Vec<TypeDescriptor>, b: &Vec<TypeDescriptor>) -> (r: bool)
    ensures
        r == (type_views(a@) == type_views(b@)),
    decreases a, 0nat,
{
    proof {
        lemma_type_views(a@);
        lemma_type_views(b@);
    }
    if a.len() != b.len() {
        return false;
    }
    let mut i: usize = 0;
    while i < a.len()
        invariant
            a.len() == b.len(),
            i <= a.len(),
            type_views(a@).len() == a.len(),
            type_views(b@).len() == b.len(),
            forall|j: int| 0 <= j < a.len() ==> #[trigger] type_views(a@)[j] == a@[j]@,
            forall|j: int| 0 <= j < b.len() ==> #[trigger] type_views(b@)[j] == b@[j]@,
            forall|j: int| 0 <= j < i ==> a@[j]@ == b@[j]@,
        decreases a.len() - i,
    {
        proof {
            assert(decreases_to!(*a => a[i as int]));
        }
        if !type_eq(&a[i], &b[i]) {
            assert(type_views(a@)[i as int] != type_views(b@)[i as int]);
            return false;
        }
        i += 1;
    }
    assert(type_views(a@) =~= type_views(b@));
    true
}

/// A copy of a type with the same content.
pub fn copy_type(t: &TypeDescriptor) -> (r: TypeDescriptor)
    ensures
        r@ == t@,
    decreases t, 1nat,
{
    let kind = copy_kind(&t.kind);
    let name_id = match &t.name_id {
        Some(s) => Some(s.clone()),
        None => None,
    };
    let parameters = copy_types(&t.parameters);
    TypeDescriptor { kind, name_id, parameters }
}

fn copy_kind(k: &TypeKind) -> (r: TypeKind)
    ensures
        r@ == k@,
    decreases k, 0nat,
{
    match k {
        TypeKind::Int => TypeKind::Int,
        TypeKind::Float => TypeKind::Float,
        TypeKind::Bool => TypeKind::Bool,
        TypeKind::String => TypeKind::String,
        TypeKind::Void => TypeKind::Void,
        TypeKind::Entity(s) => TypeKind::Entity(s.clone()),
        TypeKind::List(b) => TypeKind::List(Box::new(copy_type(b))),
        TypeKind::Optional(b) => TypeKind::Optional(Box::new(copy_type(b))),
        TypeKind::Sym => TypeKind::Sym,
        TypeKind::Num => TypeKind::Num,
        TypeKind::Ref => TypeKind::Ref,
        TypeKind::Vec => TypeKind::Vec,
        TypeKind::Ctx => TypeKind::Ctx,
    }
}

fn copy_types(v: &Vec<TypeDescriptor>) -> (r: Vec<TypeDescriptor>)
    ensures
        type_views(r@) == type_views(v@),
    decreases v, 0nat,
{
    let mut out: Vec<TypeDescriptor> = Vec::new();
    let mut i: usize = 0;
    while i < v.len()
        invariant
            i <= v.len(),
            out@.len() == i,
            forall|j: int| 0 <= j < i ==> #[trigger] out@[j]@ == v@[j]@,
        decreases v.len() - i,
    {
        proof {
            assert(decreases_to!(*v => v[i as int]));
        }
        let c = copy_type(&v[i]);
        out.push(c);
        i += 1;
    }
    proof {
        lemma_type_views(out@);
        lemma_type_views(v@);
    }
    assert(type_views(out@) =~= type_views(v@));
    out
}

impl Clone for TypeDescriptor {
    fn clone(&self) -> (r: Self)
        ensures
            r@ == self@,
    {
        copy_type(self)
    }
}

impl Clone for TypeKind {
    fn clone(&self) -> (r: Self)
        ensures
            r@ == self@,
    {
        copy_kind(self)
    }
}

impl PartialEq for TypeKind {
    fn eq(&self, other: &Self) -> (r: bool) {
        kind_eq(self, other)
    }
}

impl vstd::std_specs::cmp::PartialEqSpecImpl for TypeKind {
    open spec fn obeys_eq_spec() -> bool {
        true
    }

    open spec fn eq_spec(&self, other: &Self) -> bool {
        self@ == other@
    }
}

impl PartialEq for TypeDescriptor {
    fn eq(&self, other: &Self) -> (r: bool) {
        type_eq(self, other)
    }
}

impl vstd::std_specs::cmp::PartialEqSpecImpl for TypeDescriptor {
    open spec fn obeys_eq_spec() -> bool {
        true
    }

    open spec fn eq_spec(&self, other: &Self) -> bool {
        self@ == other@
    }
}

impl TypeDescriptor {
    pub fn new(kind: TypeKind) -> (t: Self)
        ensures
            t.kind == kind,
            t.name_id is None,
            t.parameters@ == Seq::<TypeDescriptor>::empty(),
            t@ == (TypeV { kind: kind@, name: None, params: seq![] }),
    {
        let t = TypeDescriptor { kind, name_id: None, parameters: Vec::new() };
        assert(t@.params =~= seq![]);
        t
    }

    pub fn new_named(kind: TypeKind, name: String) -> (t: Self)
        ensures
            t.kind == kind,
            t.name_id == Some(name),
            t.parameters@ == Seq::<TypeDescriptor>::empty(),
            t@ == (TypeV { kind: kind@, name: Some(name@), params: seq![] }),
    {
        let t = TypeDescriptor { kind, name_id: Some(name), parameters: Vec::new() };
        assert(t@.params =~= seq![]);
        t
    }

    pub fn new_composite(kind: TypeKind, parameters: Vec<TypeDescriptor>) -> (t: Self)
        ensures
            t.kind == kind,
            t.name_id is None,
            t.parameters == parameters,
    {
        TypeDescriptor { kind, name_id: None, parameters }
    }

    /// Types are compatible only when they are equal: there are no implicit conversions.
    pub fn is_compatible(&self, other: &TypeDescriptor) -> (b: bool)
        ensures
            b == (self@ == other@),
    {
        type_eq(self, other)
    }

    pub fn is_numeric(&self) -> (b: bool)
        ensures
            b == (self.kind is Int || self.kind is Float),
    {
        match self.kind {
            TypeKind::Int | TypeKind::Float => true,
            _ => false,
        }
    }

    pub fn is_boolean(&self) -> (b: bool)
        ensures
            b == self.kind is Bool,
    {
        match self.kind {
            TypeKind::Bool => true,
            _ => false,
        }
    }

    pub fn is_entity(&self) -> (b: bool)
        ensures
            b == self.kind is Entity,
    {
        match self.kind {
            TypeKind::Entity(_) => true,
            _ => false,
        }
    }

    pub fn isoptional(&self) -> (b: bool)
        ensures
            b == self.kind is Optional,
    {
        match self.kind {
            TypeKind::Optional(_) => true,
            _ => false,
        }
    }

    /// The inner type of an optional type.
    pub fn unwrapoptional(&self) -> (r: Option<&TypeDescriptor>)
        ensures
            match self.kind {
                TypeKind::Optional(inner) => r == Some(&*inner),
                _ => r is None,
            },
    {
        match &self.kind {
            TypeKind::Optional(inner) => Some(&**inner),
            _ => None,
        }
    }
}

/// Checks on types.
pub struct TypeChecker;

impl TypeChecker {
    pub fn validate_compatibility(left: &TypeDescriptor, right: &TypeDescriptor) -> (b: bool)
        ensures
            b == (left@ == right@),
    {
        left.is_compatible(right)
    }

    pub fn validate_numeric(ty: &TypeDescriptor) -> (b: bool)
        ensures
            b == (ty.kind is Int || ty.kind is Float),
    {
        ty.is_numeric()
    }

    pub fn validate_boolean(ty: &TypeDescriptor) -> (b: bool)
        ensures
            b == ty.kind is Bool,
    {
        ty.is_boolean()
    }

    pub fn validate_entity(ty: &TypeDescriptor) -> (b: bool)
        ensures
            b == ty.kind is Entity,
    {
        ty.is_entity()
    }

    pub fn validateoptional(ty: &TypeDescriptor) -> (b: bool)
        ensures
            b == ty.kind is Optional,
    {
        ty.isoptional()
    }
}

/// The debug text of a type, as its derived `Debug` writes it.
pub open spec fn debug_type(t: TypeV) -> Seq<char>
    decreases t, 1nat,
{
    "TypeDescriptor { kind: "@ + debug_kind(t.kind) + ", name_id: "@ + debug_opt(t.name) + ", parameters: ["@
        + debug_types(t.params) + "] }"@
}

pub open spec fn debug_opt(o: Option<Seq<char>>) -> Seq<char> {
    match o {
        Some(s) => "Some("@ + debug_str(s) + ")"@,
        None => "None"@,
    }
}

pub open spec fn debug_kind(k: KindV) -> Seq<char>
    decreases k, 0nat,
{
    match k {
        KindV::Int => "Int"@,
        KindV::Float => "Float"@,
        KindV::Bool => "Bool"@,
        KindV::Str => "String"@,
        KindV::Void => "Void"@,
        KindV::Entity(s) => "Entity("@ + debug_str(s) + ")"@,
        KindV::List(b) => "List("@ + debug_type(*b) + ")"@,
        KindV::Optional(b) => "Optional("@ + debug_type(*b) + ")"@,
        KindV::Sym => "Sym"@,
        KindV::Num => "Num"@,
        KindV::Ref => "Ref"@,
        KindV::Vec => "Vec"@,
        KindV::Ctx => "Ctx"@,
    }
}

/// The items' debug texts separated by `", "`.
pub open spec fn debug_types(ts: Seq<TypeV>) -> Seq<char>
    decreases ts, 0nat,
{
    if ts.len() == 0 {
        Seq::empty()
    } else if ts.len() == 1 {
        debug_type(ts[0])
    } else {
        debug_types(ts.drop_last()) + ", "@ + debug_type(ts.last())
    }
}

fn debug_opt_string(o: &Option<String>) -> (s: String)
    ensures
        s@ == debug_opt(opt_text(*o)),
{
    match o {
        Some(x) => {
            let inner = debug_str_string(x.as_str());
            crate::text::join3("Some(", inner.as_str(), ")")
        },
        None => "None".to_owned(),
    }
}

/// The debug text of a type.
pub fn debug_type_string(t: &TypeDescriptor) -> (s: String)
    ensures
        s@ == debug_type(t@),
    decreases t, 1nat,
{
    let mut s = "TypeDescriptor { kind: ".to_owned();
    let k = debug_kind_string(&t.kind);
    s.append(k.as_str());
    s.append(", name_id: ");
    let n = debug_opt_string(&t.name_id);
    s.append(n.as_str());
    s.append(", parameters: [");
    let p = debug_types_string(&t.parameters);
    s.append(p.as_str());
    s.append("] }");
    s
}

fn debug_kind_string(k: &TypeKind) -> (s: String)
    ensures
        s@ == debug_kind(k@),
    decreases k, 0nat,
{
    match k {
        TypeKind::Int => "Int".to_owned(),
        TypeKind::Float => "Float".to_owned(),
        TypeKind::Bool => "Bool".to_owned(),
        TypeKind::String => "String".to_owned(),
        TypeKind::Void => "Void".to_owned(),
        TypeKind::Entity(x) => {
            let inner = debug_str_string(x.as_str());
            crate::text::join3("Entity(", inner.as_str(), ")")
        },
        TypeKind::List(b) => {
            let inner = debug_type_string(b);
            crate::text::join3("List(", inner.as_str(), ")")
        },
        TypeKind::Optional(b) => {
            let inner = debug_type_string(b);
            crate::text::join3("Optional(", inner.as_str(), ")")
        },
        TypeKind::Sym => "Sym".to_owned(),
        TypeKind::Num => "Num".to_owned(),
        TypeKind::Ref => "Ref".to_owned(),
        TypeKind::Vec => "Vec".to_owned(),
        TypeKind::Ctx => "Ctx".to_owned(),
    }
}

fn debug_types_string(v: &Vec<TypeDescriptor>) -> (s: String)
    ensures
        s@ == debug_types(type_views(v@)),
    decreases v, 0nat,
{
    proof {
        lemma_type_views(v@);
    }
    let mut s = "".to_owned();
    let mut i: usize = 0;
    proof {
        reveal_strlit("");
        assert(type_views(v@).subrange(0, 0) =~= Seq::<TypeV>::empty());
    }
    while i < v.len()
        invariant
            i <= v.len(),
            type_views(v@).len() == v.len(),
            forall|j: int| 0 <= j < v.len() ==> #[trigger] type_views(v@)[j] == v@[j]@,
            s@ == debug_types(type_views(v@).subrange(0, i as int)),
        decreases v.len() - i,
    {
        proof {
            assert(decreases_to!(*v => v[i as int]));
        }
        let item = debug_type_string(&v[i]);
        if i > 0 {
            s.append(", ");
        }
        s.append(item.as_str());
        proof {
            let sub = type_views(v@).subrange(0, i + 1);
            assert(sub.drop_last() =~= type_views(v@).subrange(0, i as int));
            assert(sub.last() == v@[i as int]@);
            if i == 0 {
                assert(sub.len() == 1);
                assert(sub[0] == v@[0]@);
            }
        }
        i += 1;
    }
    assert(type_views(v@).subrange(0, i as int) =~= type_views(v@));
    s
}

} // verus!
