//! The front end's syntax tree, and the projections that later stages read
//! from a module.
use vstd::prelude::*;

use crate::types::{Type, TypeView};

verus! {

/// A module: its named type definitions, in order, and its functions.
#[derive(Debug)]
pub struct Module {
    pub ty_defs: Vec<(String, Type)>,
    pub fns: Vec<Function>,
}

#[derive(Debug, Clone, PartialEq, Eq, Hash)]
pub struct Ident(pub String);

#[derive(Debug)]
pub struct Function {
    pub name: Ident,
    pub args: Vec<Arg>,
    pub ret_ty: Type,
    pub body: Block,
}

#[derive(Debug, Clone)]
pub struct Arg {
    pub name: Ident,
    pub ty: Type,
}

/// A sequence of bindings followed by the expression that gives the block's
/// value.
#[derive(Debug)]
pub struct Block {
    pub stmnts: Vec<Statement>,
    pub ret: Expr,
}

/// A binding of a name to the value of an expression.
#[derive(Debug)]
pub struct Statement {
    pub ident: Ident,
    pub value: Expr,
}

#[derive(Debug)]
pub enum Expr {
    Ident(Ident),
    Call(Call),
    Block(Box<Block>),
    IfElse(Box<IfElse>),
}

#[derive(Debug)]
pub struct IfElse {
    pub cond: Expr,
    pub iff: Block,
    pub elsee: Block,
}

#[derive(Debug)]
pub struct Call {
    pub ident: Ident,
    pub args: Vec<Expr>,
}

impl From<String> for Ident {
    fn from(value: String) -> (r: Ident)
        ensures
            r.0 == value,
    {
        Ident(value)
    }
}

impl vstd::std_specs::convert::FromSpecImpl<String> for Ident {
    open spec fn obeys_from_spec() -> bool {
        true
    }

    open spec fn from_spec(v: String) -> Ident {
        Ident(v)
    }
}

impl From<&str> for Ident {
    fn from(value: &str) -> (r: Ident)
        ensures
            r.0@ == value@,
    {
        Ident(value.to_owned())
    }
}

impl vstd::std_specs::convert::FromSpecImpl<&str> for Ident {
    open spec fn obeys_from_spec() -> bool {
        false
    }

    open spec fn from_spec(v: &str) -> Ident {
        arbitrary()
    }
}

impl Ident {
    /// The identifier as written.
    pub fn text(&self) -> (r: String)
        ensures
            r@ == self.0@,
    {
        self.0.clone()
    }
}

/// A list of type definitions with names as character sequences.
pub open spec fn defs_view(defs: Seq<(String, Type)>) -> Seq<(Seq<char>, TypeView)> {
    defs.map_values(|e: (String, Type)| (e.0@, e.1@))
}

/// Whether a definition defines an enumerated type.
pub open spec fn defines_enum() -> spec_fn((Seq<char>, TypeView)) -> bool {
    |e: (Seq<char>, TypeView)| e.1 is Enum
}

/// Keeps the definitions of enumerated types, in their order.
pub open spec fn enum_defs(defs: Seq<(Seq<char>, TypeView)>) -> Seq<(Seq<char>, TypeView)> {
    defs.filter(defines_enum())
}

/// Every name is defined at most once.
pub open spec fn names_unique(defs: Seq<(Seq<char>, TypeView)>) -> bool {
    forall|i: int, j: int| 0 <= i < j < defs.len() ==> defs[i].0 != defs[j].0
}

impl Module {
    /// The module's type definitions.
    pub open spec fn defs(self) -> Seq<(Seq<char>, TypeView)> {
        defs_view(self.ty_defs@)
    }

    /// A well-formed module defines each type name once.
    pub open spec fn wf(self) -> bool {
        names_unique(self.defs())
    }

    /// The definitions of enumerated types, in the order of the module,
    /// as a fresh list. The module is not changed.
    pub fn enum_constructors(&self) -> (r: Vec<(String, Type)>)
        ensures
            defs_view(r@) == enum_defs(self.defs()),
            self.wf() ==> names_unique(defs_view(r@)),
    {
        let mut r: Vec<(String, Type)> = Vec::new();
        let mut i: usize = 0;
        while i < self.ty_defs.len()
            invariant
                i <= self.ty_defs.len(),
                defs_view(r@) == enum_defs(defs_view(self.ty_defs@.subrange(0, i as int))),
            decreases self.ty_defs.len() - i,
        {
            let ghost before = r@;
            let entry = &self.ty_defs[i];
            let ghost prefix = defs_view(self.ty_defs@.subrange(0, i as int));
            let ghost next = defs_view(self.ty_defs@.subrange(0, i + 1));
            assert(next.len() == i + 1);
            assert(next =~= prefix.push((entry.0@, entry.1@)));
            proof {
                prefix.lemma_filter_push((entry.0@, entry.1@), defines_enum());
            }
            assert(enum_defs(next) == if entry.1@ is Enum {
                enum_defs(prefix).push((entry.0@, entry.1@))
            } else {
                enum_defs(prefix)
            });
            if entry.1.is_enum() {
                r.push((entry.0.clone(), entry.1.duplicate()));
                assert(defs_view(r@) =~= defs_view(before).push((entry.0@, entry.1@)));
            }
            i = i + 1;
        }
        assert(self.ty_defs@.subrange(0, self.ty_defs.len() as int) =~= self.ty_defs@);
        proof {
            lemma_enum_defs_unique(self.defs());
        }
        r
    }
}

/// Projecting a module twice gives equal lists, and projecting the result
/// of a projection changes nothing.
pub proof fn lemma_enum_constructors_idempotent(m: Module, other: Module)
    requires
        other.defs() == m.defs(),
    ensures
        enum_defs(other.defs()) == enum_defs(m.defs()),
        enum_defs(enum_defs(m.defs())) == enum_defs(m.defs()),
{
    lemma_enum_defs_idempotent(m.defs());
}

proof fn lemma_enum_defs_idempotent(defs: Seq<(Seq<char>, TypeView)>)
    ensures
        enum_defs(enum_defs(defs)) == enum_defs(defs),
    decreases defs.len(),
{
    if defs.len() != 0 {
        let rest = defs.drop_last();
        let x = defs.last();
        assert(defs =~= rest.push(x));
        rest.lemma_filter_push(x, defines_enum());
        lemma_enum_defs_idempotent(rest);
        if x.1 is Enum {
            enum_defs(rest).lemma_filter_push(x, defines_enum());
        }
    }
}

proof fn lemma_enum_defs_unique(defs: Seq<(Seq<char>, TypeView)>)
    ensures
        names_unique(defs) ==> names_unique(enum_defs(defs)),
    decreases defs.len(),
{
    if defs.len() != 0 && names_unique(defs) {
        let rest = defs.drop_last();
        let x = defs.last();
        assert(defs =~= rest.push(x));
        rest.lemma_filter_push(x, defines_enum());
        lemma_enum_defs_unique(rest);
        let f = enum_defs(rest);
        assert forall|j: int| 0 <= j < f.len() implies f[j].0 != x.0 by {
            assert(f.contains(f[j]));
            rest.lemma_filter_contains_rev(defines_enum(), f[j]);
            let k = choose|k: int| 0 <= k < rest.len() && rest[k] == f[j];
            assert(defs[k] == rest[k]);
        }
        if x.1 is Enum {
            assert(enum_defs(defs) == f.push(x));
            assert forall|i: int, j: int|
                0 <= i < j < f.push(x).len() implies f.push(x)[i].0 != f.push(x)[j].0 by {
                assert(j < f.len() ==> f.push(x)[j] == f[j]);
            }
        }
    }
}

} // verus!
