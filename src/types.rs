//! The types attached to registers and declared by modules. The IR treats
//! them as comparable, printable tokens.
use vstd::prelude::*;

verus! {

/// A sum of named variants.
#[derive(Debug, Clone)]
pub struct EnumType {
    pub name: String,
    pub variants: Vec<String>,
}

/// A product of named fields.
#[derive(Debug, Clone)]
pub struct StructType {
    pub name: String,
    pub fields: Vec<String>,
}

#[derive(Debug, Clone)]
pub enum Type {
    Int,
    Bool,
    Unit,
    Enum(EnumType),
    Struct(StructType),
}

/// What a type is, with its strings as character sequences.
pub enum TypeView {
    Int,
    Bool,
    Unit,
    Enum { name: Seq<char>, variants: Seq<Seq<char>> },
    Struct { name: Seq<char>, fields: Seq<Seq<char>> },
}

impl View for Type {
    type V = TypeView;

    open spec fn view(&self) -> TypeView {
        match self {
            Type::Int => TypeView::Int,
            Type::Bool => TypeView::Bool,
            Type::Unit => TypeView::Unit,
            Type::Enum(e) => TypeView::Enum { name: e.name@, variants: e.variants.deep_view() },
            Type::Struct(s) => TypeView::Struct { name: s.name@, fields: s.fields.deep_view() },
        }
    }
}

/// How a type is written: its name.
pub open spec fn type_text(t: TypeView) -> Seq<char> {
    match t {
        TypeView::Int => "Int"@,
        TypeView::Bool => "Bool"@,
        TypeView::Unit => "Unit"@,
        TypeView::Enum { name, .. } => name,
        TypeView::Struct { name, .. } => name,
    }
}

fn clone_names(v: &Vec<String>) -> (r: Vec<String>)
    ensures
        r.deep_view() == v.deep_view(),
{
    let mut r: Vec<String> = Vec::new();
    let mut i: usize = 0;
    while i < v.len()
        invariant
            i <= v.len(),
            r.len() == i,
            forall|j: int| 0 <= j < i ==> r@[j]@ == v@[j]@,
        decreases v.len() - i,
    {
        r.push(v[i].clone());
        i = i + 1;
    }
    assert(r.deep_view() =~= v.deep_view());
    r
}

impl Type {
    /// Whether this is an enumerated type.
    pub fn is_enum(&self) -> (r: bool)
        ensures
            r == (self@ is Enum),
    {
        match self {
            Type::Enum(_) => true,
            _ => false,
        }
    }

    /// A copy of the type.
    pub fn duplicate(&self) -> (r: Type)
        ensures
            r@ == self@,
    {
        match self {
            Type::Int => Type::Int,
            Type::Bool => Type::Bool,
            Type::Unit => Type::Unit,
            Type::Enum(e) => Type::Enum(EnumType { name: e.name.clone(), variants: clone_names(&e.variants) }),
            Type::Struct(s) => Type::Struct(StructType { name: s.name.clone(), fields: clone_names(&s.fields) }),
        }
    }

    /// Appends the type's name.
    pub fn push_text(&self, out: &mut String)
        ensures
            final(out)@ == old(out)@ + type_text(self@),
    {
        match self {
            Type::Int => out.append("Int"),
            Type::Bool => out.append("Bool"),
            Type::Unit => out.append("Unit"),
            Type::Enum(e) => out.append(e.name.as_str()),
            Type::Struct(s) => out.append(s.name.as_str()),
        }
    }

    /// The type's name.
    pub fn render(&self) -> (r: String)
        ensures
            r@ == type_text(self@),
    {
        let mut r = String::new();
        self.push_text(&mut r);
        assert(r@ =~= type_text(self@));
        r
    }
}

} // verus!
