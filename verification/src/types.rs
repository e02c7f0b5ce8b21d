//! Inferred types.
//!
//! A [`Type`] is the type that the typechecker inferred for an expression.
//! It mirrors the grammar of requirement shapes, plus the distinguished
//! [`Type::Dynamic`] marker that means "statically unknown, resolve at
//! runtime". The mathematical model of a type is a [`TypeView`].

use vstd::prelude::*;

verus! {

/// The key and value types of a dict type.
#[derive(Debug, PartialEq, Eq)]
pub struct Dict {
    pub key: Type,
    pub value: Type,
}

/// The argument and result types of a function type.
#[derive(Debug, PartialEq, Eq)]
pub struct Function {
    pub args: Vec<Type>,
    pub result: Type,
}

/// The type of an expression, as inferred by the typechecker.
#[derive(Debug, PartialEq, Eq)]
pub enum Type {
    Null,
    Bool,
    Int,
    String,
    List(Box<Type>),
    SetOf(Box<Type>),
    Dict(Box<Dict>),
    Function(Box<Function>),
    /// The type is not known statically; a runtime check is needed.
    Dynamic,
}

/// The mathematical model of a [`Type`]: the same tree with the dict and
/// function records flattened and function arguments as a sequence.
pub enum TypeView {
    Null,
    Bool,
    Int,
    String,
    List(Box<TypeView>),
    SetOf(Box<TypeView>),
    Dict(Box<TypeView>, Box<TypeView>),
    Function(Seq<TypeView>, Box<TypeView>),
    Dynamic,
}

impl TypeView {
    /// An atom is a primitive type: one that has no component types.
    pub open spec fn is_atom(self) -> bool {
        self is Null || self is Bool || self is Int || self is String
    }
}

/// The model of a type value.
pub open spec fn type_view(t: Type) -> TypeView
    decreases t,
{
    match t {
        Type::Null => TypeView::Null,
        Type::Bool => TypeView::Bool,
        Type::Int => TypeView::Int,
        Type::String => TypeView::String,
        Type::List(e) => TypeView::List(Box::new(type_view(*e))),
        Type::SetOf(e) => TypeView::SetOf(Box::new(type_view(*e))),
        Type::Dict(d) => TypeView::Dict(Box::new(type_view(d.key)), Box::new(type_view(d.value))),
        Type::Function(f) => TypeView::Function(
            Seq::new(
                f.args@.len(),
                |i: int|
                    if 0 <= i < f.args@.len() {
                        type_view(f.args@[i])
                    } else {
                        TypeView::Dynamic
                    },
            ),
            Box::new(type_view(f.result)),
        ),
        Type::Dynamic => TypeView::Dynamic,
    }
}

impl View for Type {
    type V = TypeView;

    open spec fn view(&self) -> TypeView {
        type_view(*self)
    }
}

/// Decide structural equality of two types.
pub fn type_eq(a: &Type, b: &Type) -> (r: bool)
    ensures
        r == (a@ == b@),
    decreases *a,
{
    match (a, b) {
        (Type::Null, Type::Null) => true,
        (Type::Bool, Type::Bool) => true,
        (Type::Int, Type::Int) => true,
        (Type::String, Type::String) => true,
        (Type::Dynamic, Type::Dynamic) => true,
        (Type::List(x), Type::List(y)) => type_eq(x, y),
        (Type::SetOf(x), Type::SetOf(y)) => type_eq(x, y),
        (Type::Dict(x), Type::Dict(y)) => {
            type_eq(&x.key, &y.key) && type_eq(&x.value, &y.value)
        },
        (Type::Function(x), Type::Function(y)) => function_eq(x, y),
        _ => false,
    }
}

/// Decide structural equality of two function types.
#[verifier::loop_isolation(false)]
fn function_eq(x: &Function, y: &Function) -> (r: bool)
    ensures
        r == (type_view(Type::Function(Box::new(*x)))
            == type_view(Type::Function(Box::new(*y)))),
    decreases *x,
{
    let ghost xv = type_view(Type::Function(Box::new(*x)));
    let ghost yv = type_view(Type::Function(Box::new(*y)));
    if x.args.len() != y.args.len() {
        assert(xv->Function_0.len() != yv->Function_0.len());
        return false;
    }
    for i in 0..x.args.len()
        invariant
            x.args@.len() == y.args@.len(),
            forall|j: int| 0 <= j < i ==> x.args@[j]@ == y.args@[j]@,
    {
        if !type_eq(&x.args[i], &y.args[i]) {
            assert(xv->Function_0[i as int] != yv->Function_0[i as int]);
            return false;
        }
    }
    let r = type_eq(&x.result, &y.result);
    if r {
        assert(xv->Function_0 =~= yv->Function_0);
    }
    r
}

impl Clone for Type {
    /// A deep copy; the copy has the same model as the original.
    fn clone(&self) -> (r: Self)
        ensures
            r@ == self@,
        decreases self,
    {
        match self {
            Type::Null => Type::Null,
            Type::Bool => Type::Bool,
            Type::Int => Type::Int,
            Type::String => Type::String,
            Type::List(e) => Type::List(Box::new((&**e).clone())),
            Type::SetOf(e) => Type::SetOf(Box::new((&**e).clone())),
            Type::Dict(d) => Type::Dict(Box::new(Dict {
                key: d.key.clone(),
                value: d.value.clone(),
            })),
            Type::Function(f) => {
                let r = Type::Function(Box::new(Function {
                    args: clone_types(&f.args),
                    result: f.result.clone(),
                }));
                proof {
                    assert(r@->Function_0 =~= self@->Function_0);
                }
                r
            },
            Type::Dynamic => Type::Dynamic,
        }
    }
}

/// A deep copy of a vector of types, element for element.
#[verifier::loop_isolation(false)]
pub(crate) fn clone_types(xs: &Vec<Type>) -> (r: Vec<Type>)
    ensures
        r@.len() == xs@.len(),
        forall|i: int| 0 <= i < xs@.len() ==> r@[i]@ == xs@[i]@,
    decreases *xs,
{
    let mut r: Vec<Type> = Vec::new();
    for i in 0..xs.len()
        invariant
            r@.len() == i,
            forall|j: int| 0 <= j < i ==> r@[j]@ == xs@[j]@,
    {
        r.push(xs[i].clone());
    }
    r
}

} // verus!
