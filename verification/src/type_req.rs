//! Type requirements, a central building block of typechecking.
//!
//! A [`crate::types::Type`] is a type that the typechecker inferred. A
//! [`TypeReq`] is a requirement that the typechecker needs to fulfill.
//! Requirements correspond to types, but carry additional context about
//! _why_ that type was expected in a particular location (such as "because
//! of a type annotation at this span", or "because conditions should be
//! booleans"). Requirements can be fulfilled by subtypes of the required
//! type.

use vstd::prelude::*;

use crate::error::{BodyView, Error, ErrorBody, Help, Note, NoteView, PathElement, PathElementView};
use crate::runtime::{Value, ValueView};
use crate::source::Span;
use crate::types::{clone_types, type_eq, Dict, Function, Type, TypeView};

verus! {

/// A type requirement: the required shape, if any, and the reason it is
/// required.
#[derive(Debug, PartialEq, Eq, PartialOrd, Ord)]
pub enum TypeReq {
    /// We have no requirement on the type, any value is allowed.
    Any,
    /// The type was required due to a type annotation.
    Annotation(Span, ReqType),
    /// A boolean was required because it's used as a condition.
    Condition,
    /// The type was required due to an operator.
    Operator(Span, ReqType),
    /// An integer is required due to indexing into a list.
    IndexList,
}

/// The types that can occur in type requirements.
#[derive(Debug, PartialEq, Eq, PartialOrd, Ord)]
pub enum ReqType {
    /// Require `Type::Bool`.
    Bool,
    /// Require `Type::Int`.
    Int,
    /// Require `Type::Null`.
    Null,
    /// Require `Type::String`.
    String,
    /// Require `Type::List`.
    List(Box<TypeReq>),
    /// Require `Type::SetOf`.
    SetOf(Box<TypeReq>),
    /// Require `Type::Dict`.
    Dict(Box<DictReq>),
    /// Require `Type::Function`.
    Function(Box<FunctionReq>),
}

/// The type parameter requirements for the dict type.
#[derive(Debug, PartialEq, Eq, PartialOrd, Ord)]
pub struct DictReq {
    pub key: TypeReq,
    pub value: TypeReq,
}

/// A function type requirement.
#[derive(Debug, PartialEq, Eq, PartialOrd, Ord)]
pub struct FunctionReq {
    pub args: Vec<TypeReq>,
    pub result: TypeReq,
}

/// The mathematical model of a [`TypeReq`].
pub enum TypeReqView {
    Any,
    Annotation(Span, ReqTypeView),
    Condition,
    Operator(Span, ReqTypeView),
    IndexList,
}

/// The mathematical model of a [`ReqType`].
pub enum ReqTypeView {
    Bool,
    Int,
    Null,
    String,
    List(Box<TypeReqView>),
    SetOf(Box<TypeReqView>),
    Dict(Box<TypeReqView>, Box<TypeReqView>),
    Function(Seq<TypeReqView>, Box<TypeReqView>),
}

/// The model of a requirement.
pub open spec fn req_view(r: TypeReq) -> TypeReqView
    decreases r,
{
    match r {
        TypeReq::Any => TypeReqView::Any,
        TypeReq::Annotation(at, t) => TypeReqView::Annotation(at, shape_view(t)),
        TypeReq::Condition => TypeReqView::Condition,
        TypeReq::Operator(at, t) => TypeReqView::Operator(at, shape_view(t)),
        TypeReq::IndexList => TypeReqView::IndexList,
    }
}

/// The model of a required shape.
pub open spec fn shape_view(t: ReqType) -> ReqTypeView
    decreases t,
{
    match t {
        ReqType::Bool => ReqTypeView::Bool,
        ReqType::Int => ReqTypeView::Int,
        ReqType::Null => ReqTypeView::Null,
        ReqType::String => ReqTypeView::String,
        ReqType::List(e) => ReqTypeView::List(Box::new(req_view(*e))),
        ReqType::SetOf(e) => ReqTypeView::SetOf(Box::new(req_view(*e))),
        ReqType::Dict(d) => ReqTypeView::Dict(
            Box::new(req_view(d.key)),
            Box::new(req_view(d.value)),
        ),
        ReqType::Function(f) => ReqTypeView::Function(
            Seq::new(
                f.args@.len(),
                |i: int|
                    if 0 <= i < f.args@.len() {
                        req_view(f.args@[i])
                    } else {
                        TypeReqView::Any
                    },
            ),
            Box::new(req_view(f.result)),
        ),
    }
}

impl View for TypeReq {
    type V = TypeReqView;

    open spec fn view(&self) -> TypeReqView {
        req_view(*self)
    }
}

impl View for ReqType {
    type V = ReqTypeView;

    open spec fn view(&self) -> ReqTypeView {
        shape_view(*self)
    }
}

impl TypeReqView {
    /// The shape this requirement demands, if it demands one.
    pub open spec fn shape(self) -> Option<ReqTypeView> {
        match self {
            TypeReqView::Any => Option::None,
            TypeReqView::Annotation(_, t) => Option::Some(t),
            TypeReqView::Condition => Option::Some(ReqTypeView::Bool),
            TypeReqView::Operator(_, t) => Option::Some(t),
            TypeReqView::IndexList => Option::Some(ReqTypeView::Int),
        }
    }

    /// The most precise type that describes any value satisfying this
    /// requirement; `Dynamic` when there is no requirement.
    pub open spec fn project(self) -> TypeView
        decreases self,
    {
        match self {
            TypeReqView::Any => TypeView::Dynamic,
            TypeReqView::Annotation(_, t) => t.project(),
            TypeReqView::Condition => TypeView::Bool,
            TypeReqView::Operator(_, t) => t.project(),
            TypeReqView::IndexList => TypeView::Int,
        }
    }
}

impl ReqTypeView {
    /// The type of a value when this shape requirement is satisfied: atoms
    /// map to themselves, compound shapes recurse element-wise.
    pub open spec fn project(self) -> TypeView
        decreases self,
    {
        match self {
            ReqTypeView::Bool => TypeView::Bool,
            ReqTypeView::Int => TypeView::Int,
            ReqTypeView::Null => TypeView::Null,
            ReqTypeView::String => TypeView::String,
            ReqTypeView::List(e) => TypeView::List(Box::new(e.project())),
            ReqTypeView::SetOf(e) => TypeView::SetOf(Box::new(e.project())),
            ReqTypeView::Dict(k, v) => TypeView::Dict(
                Box::new(k.project()),
                Box::new(v.project()),
            ),
            ReqTypeView::Function(args, res) => TypeView::Function(
                Seq::new(
                    args.len(),
                    |i: int|
                        if 0 <= i < args.len() {
                            args[i].project()
                        } else {
                            TypeView::Dynamic
                        },
                ),
                Box::new(res.project()),
            ),
        }
    }
}

/// The result of a static typecheck.
///
/// A diff can represent type errors, nested type errors, no error, or a
/// signal that the check could not be performed statically and needs to be
/// deferred to runtime.
#[derive(Debug, PartialEq, Eq)]
pub enum TypeDiff {
    /// No error. The actual type matches the expected type.
    Fits(Type),
    /// The check could not be performed statically, a runtime check is needed.
    Defer(Type),
    /// A static type mismatch that cannot be broken down further.
    ///
    /// The requirement specifies the expected type and the reason for
    /// expecting it, the other type is the actual type that we encountered.
    Error(TypeReq, Type),
    /// There is a type mismatch in the element type of a list.
    List(Box<TypeDiff>),
    /// There is a type mismatch in the element type of a set.
    SetOf(Box<TypeDiff>),
    /// There is a type mismatch somewhere in the dict type.
    Dict(Box<TypeDiff>, Box<TypeDiff>),
    /// There is a type mismatch somewhere in a function type.
    Function(Vec<TypeDiff>, Box<TypeDiff>),
}

/// The mathematical model of a [`TypeDiff`].
pub enum DiffView {
    Fits(TypeView),
    Defer(TypeView),
    Error(TypeReqView, TypeView),
    List(Box<DiffView>),
    SetOf(Box<DiffView>),
    Dict(Box<DiffView>, Box<DiffView>),
    Function(Seq<DiffView>, Box<DiffView>),
}

/// The model of a diff.
pub open spec fn diff_view(d: TypeDiff) -> DiffView
    decreases d,
{
    match d {
        TypeDiff::Fits(t) => DiffView::Fits(t@),
        TypeDiff::Defer(t) => DiffView::Defer(t@),
        TypeDiff::Error(req, t) => DiffView::Error(req@, t@),
        TypeDiff::List(e) => DiffView::List(Box::new(diff_view(*e))),
        TypeDiff::SetOf(e) => DiffView::SetOf(Box::new(diff_view(*e))),
        TypeDiff::Dict(k, v) => DiffView::Dict(
            Box::new(diff_view(*k)),
            Box::new(diff_view(*v)),
        ),
        TypeDiff::Function(args, res) => DiffView::Function(
            Seq::new(
                args@.len(),
                |i: int|
                    if 0 <= i < args@.len() {
                        diff_view(args@[i])
                    } else {
                        DiffView::Fits(TypeView::Dynamic)
                    },
            ),
            Box::new(diff_view(*res)),
        ),
    }
}

impl View for TypeDiff {
    type V = DiffView;

    open spec fn view(&self) -> DiffView {
        diff_view(*self)
    }
}

impl DiffView {
    /// The type carried by a `Fits` or `Defer` diff.
    pub open spec fn resolved(self) -> TypeView
        recommends
            self is Fits || self is Defer,
    {
        if self is Fits {
            self->Fits_0
        } else {
            self->Defer_0
        }
    }
}

impl TypeReqView {
    /// The outcome of statically checking the actual type `actual` against
    /// this requirement: no requirement accepts every type outright, and a
    /// demanded shape is compared structurally.
    pub open spec fn check(self, actual: TypeView) -> DiffView
        decreases self,
    {
        match self {
            TypeReqView::Any => DiffView::Fits(actual),
            TypeReqView::Annotation(_, t) => t.check(self, actual),
            TypeReqView::Condition => if actual is Dynamic {
                DiffView::Defer(TypeView::Bool)
            } else if actual is Bool {
                DiffView::Fits(actual)
            } else {
                DiffView::Error(self, actual)
            },
            TypeReqView::Operator(_, t) => t.check(self, actual),
            TypeReqView::IndexList => if actual is Dynamic {
                DiffView::Defer(TypeView::Int)
            } else if actual is Int {
                DiffView::Fits(actual)
            } else {
                DiffView::Error(self, actual)
            },
        }
    }
}

impl ReqTypeView {
    /// The outcome of statically checking the actual type `actual` against
    /// this shape, where `req` is the requirement the shape came from (used
    /// to attribute a mismatch). In priority order: an actual `Dynamic`
    /// always defers; matching atoms fit; compound shapes recurse; any other
    /// combination is a flat mismatch.
    pub open spec fn check(self, req: TypeReqView, actual: TypeView) -> DiffView
        decreases self,
    {
        if actual is Dynamic {
            DiffView::Defer(self.project())
        } else {
            match (self, actual) {
                (ReqTypeView::Null, TypeView::Null) => DiffView::Fits(actual),
                (ReqTypeView::Bool, TypeView::Bool) => DiffView::Fits(actual),
                (ReqTypeView::Int, TypeView::Int) => DiffView::Fits(actual),
                (ReqTypeView::String, TypeView::String) => DiffView::Fits(actual),
                (ReqTypeView::List(er), TypeView::List(et)) => match er.check(*et) {
                    DiffView::Fits(_) => DiffView::Fits(actual),
                    DiffView::Defer(t) => DiffView::Defer(TypeView::List(Box::new(t))),
                    d => DiffView::List(Box::new(d)),
                },
                (ReqTypeView::SetOf(er), TypeView::SetOf(et)) => match er.check(*et) {
                    DiffView::Fits(_) => DiffView::Fits(actual),
                    DiffView::Defer(t) => DiffView::Defer(TypeView::SetOf(Box::new(t))),
                    d => DiffView::SetOf(Box::new(d)),
                },
                (ReqTypeView::Dict(kr, vr), TypeView::Dict(kt, vt)) => {
                    let k_diff = kr.check(*kt);
                    let v_diff = vr.check(*vt);
                    if k_diff is Fits && v_diff is Fits {
                        DiffView::Fits(actual)
                    } else if (k_diff is Fits || k_diff is Defer) && (v_diff is Fits
                        || v_diff is Defer) {
                        DiffView::Defer(TypeView::Dict(
                            Box::new(k_diff.resolved()),
                            Box::new(v_diff.resolved()),
                        ))
                    } else {
                        DiffView::Dict(Box::new(k_diff), Box::new(v_diff))
                    }
                },
                (ReqTypeView::Function(ar, rr), TypeView::Function(at, rt)) => {
                    if ar.len() != at.len() {
                        DiffView::Error(req, actual)
                    } else {
                        let arg_diffs = Seq::new(
                            ar.len(),
                            |i: int|
                                if 0 <= i < ar.len() {
                                    if ar[i].project() == at[i] {
                                        DiffView::Fits(at[i])
                                    } else {
                                        DiffView::Error(ar[i], at[i])
                                    }
                                } else {
                                    DiffView::Fits(TypeView::Dynamic)
                                },
                        );
                        let args_fit = forall|i: int|
                            0 <= i < ar.len() ==> ar[i].project() == at[i];
                        let rd = rr.check(*rt);
                        if args_fit && rd is Fits {
                            DiffView::Fits(actual)
                        } else if args_fit && rd is Defer {
                            DiffView::Defer(TypeView::Function(at, Box::new(rd->Defer_0)))
                        } else {
                            DiffView::Function(arg_diffs, Box::new(rd))
                        }
                    }
                },
                _ => DiffView::Error(req, actual),
            }
        }
    }
}

impl Clone for TypeReq {
    /// A deep copy; the copy has the same model as the original.
    fn clone(&self) -> (r: Self)
        ensures
            r@ == self@,
        decreases self,
    {
        match self {
            TypeReq::Any => TypeReq::Any,
            TypeReq::Annotation(at, t) => TypeReq::Annotation(*at, t.clone()),
            TypeReq::Condition => TypeReq::Condition,
            TypeReq::Operator(at, t) => TypeReq::Operator(*at, t.clone()),
            TypeReq::IndexList => TypeReq::IndexList,
        }
    }
}

impl Clone for ReqType {
    /// A deep copy; the copy has the same model as the original.
    fn clone(&self) -> (r: Self)
        ensures
            r@ == self@,
        decreases self,
    {
        match self {
            ReqType::Bool => ReqType::Bool,
            ReqType::Int => ReqType::Int,
            ReqType::Null => ReqType::Null,
            ReqType::String => ReqType::String,
            ReqType::List(e) => ReqType::List(Box::new((&**e).clone())),
            ReqType::SetOf(e) => ReqType::SetOf(Box::new((&**e).clone())),
            ReqType::Dict(d) => ReqType::Dict(Box::new(DictReq {
                key: d.key.clone(),
                value: d.value.clone(),
            })),
            ReqType::Function(f) => {
                let r = ReqType::Function(Box::new(FunctionReq {
                    args: clone_reqs(&f.args),
                    result: f.result.clone(),
                }));
                proof {
                    assert(r@->Function_0 =~= self@->Function_0);
                }
                r
            },
        }
    }
}

/// A deep copy of a vector of requirements, element for element.
#[verifier::loop_isolation(false)]
fn clone_reqs(xs: &Vec<TypeReq>) -> (r: Vec<TypeReq>)
    ensures
        r@.len() == xs@.len(),
        forall|i: int| 0 <= i < xs@.len() ==> r@[i]@ == xs@[i]@,
    decreases *xs,
{
    let mut r: Vec<TypeReq> = Vec::new();
    for i in 0..xs.len()
        invariant
            r@.len() == i,
            forall|j: int| 0 <= j < i ==> r@[j]@ == xs@[j]@,
    {
        r.push(xs[i].clone());
    }
    r
}

impl TypeReq {
    /// Return the type required by this requirement, if it requires one.
    pub fn req_type(&self) -> (r: Option<ReqType>)
        ensures
            match r {
                Option::None => self@.shape() is None,
                Option::Some(t) => self@.shape() == Some(t@),
            },
    {
        match self {
            TypeReq::Any => None,
            TypeReq::Annotation(_, t) => Some(t.clone()),
            TypeReq::Condition => Some(ReqType::Bool),
            TypeReq::Operator(_, t) => Some(t.clone()),
            TypeReq::IndexList => Some(ReqType::Int),
        }
    }

    /// Return the most precise type that describes any value that satisfies
    /// this requirement.
    pub fn to_type(&self) -> (r: Type)
        ensures
            r@ == self@.project(),
        decreases self,
    {
        match self {
            TypeReq::Any => Type::Dynamic,
            TypeReq::Annotation(_, t) => t.to_type(),
            TypeReq::Condition => Type::Bool,
            TypeReq::Operator(_, t) => t.to_type(),
            TypeReq::IndexList => Type::Int,
        }
    }
}

impl ReqType {
    /// Return the `Type` of a value when this requirement is satisfied.
    ///
    /// This function is potentially expensive because it does a deep
    /// traversal of the type requirement.
    #[verifier::loop_isolation(false)]
    pub fn to_type(&self) -> (r: Type)
        ensures
            r@ == self@.project(),
        decreases self,
    {
        match self {
            ReqType::Bool => Type::Bool,
            ReqType::Int => Type::Int,
            ReqType::Null => Type::Null,
            ReqType::String => Type::String,
            ReqType::List(e) => Type::List(Box::new(e.to_type())),
            ReqType::SetOf(e) => Type::SetOf(Box::new(e.to_type())),
            ReqType::Dict(d) => Type::Dict(Box::new(Dict {
                key: d.key.to_type(),
                value: d.value.to_type(),
            })),
            ReqType::Function(f) => {
                let mut args: Vec<Type> = Vec::new();
                for i in 0..f.args.len()
                    invariant
                        args@.len() == i,
                        forall|j: int| 0 <= j < i ==> args@[j]@ == f.args@[j]@.project(),
                {
                    args.push(f.args[i].to_type());
                }
                let r = Type::Function(Box::new(Function {
                    args,
                    result: f.result.to_type(),
                }));
                proof {
                    assert(r@->Function_0 =~= self@.project()->Function_0);
                }
                r
            },
        }
    }
}

impl TypeReq {
    /// Statically check that the given type is a subtype of the required
    /// type; the resulting diff is exactly what the model's `check` says.
    pub fn check_type_impl(&self, type_: &Type) -> (r: TypeDiff)
        ensures
            r@ == self@.check(type_@),
        decreases self,
    {
        match self {
            TypeReq::Any => TypeDiff::Fits(type_.clone()),
            TypeReq::Annotation(_, t) => t.check_type(self, type_),
            TypeReq::Condition => match type_ {
                Type::Dynamic => TypeDiff::Defer(Type::Bool),
                Type::Bool => TypeDiff::Fits(type_.clone()),
                _ => TypeDiff::Error(self.clone(), type_.clone()),
            },
            TypeReq::Operator(_, t) => t.check_type(self, type_),
            TypeReq::IndexList => match type_ {
                Type::Dynamic => TypeDiff::Defer(Type::Int),
                Type::Int => TypeDiff::Fits(type_.clone()),
                _ => TypeDiff::Error(self.clone(), type_.clone()),
            },
        }
    }
}

impl ReqType {
    /// Statically check `type_` against this shape. `req` is the requirement
    /// that this shape was derived from; a flat mismatch is attributed to it.
    #[verifier::loop_isolation(false)]
    pub fn check_type(&self, req: &TypeReq, type_: &Type) -> (r: TypeDiff)
        ensures
            r@ == self@.check(req@, type_@),
        decreases self,
    {
        match (self, type_) {
            // If there was some requirement, but we don't know the type,
            // then we have to defer the typecheck to runtime.
            (_, Type::Dynamic) => TypeDiff::Defer(self.to_type()),
            // For the primitive types, we just check for matching values.
            (ReqType::Null, Type::Null) => TypeDiff::Fits(type_.clone()),
            (ReqType::Bool, Type::Bool) => TypeDiff::Fits(type_.clone()),
            (ReqType::Int, Type::Int) => TypeDiff::Fits(type_.clone()),
            (ReqType::String, Type::String) => TypeDiff::Fits(type_.clone()),
            // For compound types, we need to do the inner inspection.
            (ReqType::List(elem_req), Type::List(elem_type)) => {
                match elem_req.check_type_impl(elem_type) {
                    TypeDiff::Fits(_) => TypeDiff::Fits(type_.clone()),
                    TypeDiff::Defer(t) => TypeDiff::Defer(Type::List(Box::new(t))),
                    error => TypeDiff::List(Box::new(error)),
                }
            },
            (ReqType::SetOf(elem_req), Type::SetOf(elem_type)) => {
                match elem_req.check_type_impl(elem_type) {
                    TypeDiff::Fits(_) => TypeDiff::Fits(type_.clone()),
                    TypeDiff::Defer(t) => TypeDiff::Defer(Type::SetOf(Box::new(t))),
                    error => TypeDiff::SetOf(Box::new(error)),
                }
            },
            (ReqType::Dict(kv_req), Type::Dict(kv_type)) => {
                let k_diff = kv_req.key.check_type_impl(&kv_type.key);
                let v_diff = kv_req.value.check_type_impl(&kv_type.value);
                match (k_diff, v_diff) {
                    (TypeDiff::Fits(_), TypeDiff::Fits(_)) => TypeDiff::Fits(type_.clone()),
                    (TypeDiff::Fits(tk), TypeDiff::Defer(tv)) => TypeDiff::Defer(
                        Type::Dict(Box::new(Dict { key: tk, value: tv })),
                    ),
                    (TypeDiff::Defer(tk), TypeDiff::Fits(tv)) => TypeDiff::Defer(
                        Type::Dict(Box::new(Dict { key: tk, value: tv })),
                    ),
                    (TypeDiff::Defer(tk), TypeDiff::Defer(tv)) => TypeDiff::Defer(
                        Type::Dict(Box::new(Dict { key: tk, value: tv })),
                    ),
                    (k_diff, v_diff) => TypeDiff::Dict(Box::new(k_diff), Box::new(v_diff)),
                }
            },
            (ReqType::Function(fn_req), Type::Function(fn_type)) => {
                if fn_req.args.len() != fn_type.args.len() {
                    return TypeDiff::Error(req.clone(), type_.clone());
                }
                let mut arg_diffs: Vec<TypeDiff> = Vec::new();
                let mut args_fit = true;
                // The arguments are compared by exact structural equality of
                // the projected shapes. To be properly generic this would
                // have to allow the arguments to be contravariant, but this
                // comparison is deliberately kept pluggable in one place;
                // equality may reject some correct programs but is safe.
                for i in 0..fn_req.args.len()
                    invariant
                        fn_req.args@.len() == fn_type.args@.len(),
                        arg_diffs@.len() == i,
                        args_fit == (forall|j: int|
                            0 <= j < i ==> fn_req.args@[j]@.project() == fn_type.args@[j]@),
                        forall|j: int|
                            0 <= j < i ==> arg_diffs@[j]@ == (if fn_req.args@[j]@.project()
                                == fn_type.args@[j]@ {
                                DiffView::Fits(fn_type.args@[j]@)
                            } else {
                                DiffView::Error(fn_req.args@[j]@, fn_type.args@[j]@)
                            }),
                {
                    let arg_type = fn_req.args[i].to_type();
                    if type_eq(&arg_type, &fn_type.args[i]) {
                        arg_diffs.push(TypeDiff::Fits(fn_type.args[i].clone()));
                    } else {
                        args_fit = false;
                        arg_diffs.push(TypeDiff::Error(
                            fn_req.args[i].clone(),
                            fn_type.args[i].clone(),
                        ));
                    }
                }
                let result_diff = fn_req.result.check_type_impl(&fn_type.result);
                if args_fit {
                    match result_diff {
                        TypeDiff::Fits(_) => TypeDiff::Fits(type_.clone()),
                        TypeDiff::Defer(t) => {
                            let r = TypeDiff::Defer(Type::Function(Box::new(Function {
                                args: clone_types(&fn_type.args),
                                result: t,
                            })));
                            proof {
                                assert(r@->Defer_0->Function_0 =~= type_@->Function_0);
                            }
                            r
                        },
                        error => {
                            let r = TypeDiff::Function(arg_diffs, Box::new(error));
                            proof {
                                assert(r@->Function_0 =~= self@.check(req@, type_@)->Function_0);
                            }
                            r
                        },
                    }
                } else {
                    let r = TypeDiff::Function(arg_diffs, Box::new(result_diff));
                    proof {
                        let ar = self@->Function_0;
                        let at_ = type_@->Function_0;
                        assert(forall|k: int| 0 <= k < ar.len() ==> ar[k] == fn_req.args@[k]@);
                        assert(forall|k: int| 0 <= k < at_.len() ==> at_[k] == fn_type.args@[k]@);
                        let j = choose|j: int|
                            0 <= j < fn_req.args@.len() && fn_req.args@[j]@.project()
                                != fn_type.args@[j]@;
                        assert(ar[j].project() != at_[j]);
                        assert(!(forall|k: int| 0 <= k < ar.len() ==> ar[k].project() == at_[k]));
                        assert(r@->Function_0 =~= self@.check(req@, type_@)->Function_0);
                    }
                    r
                }
            },
            // If we did not match anything, then this is a type error.
            _ => TypeDiff::Error(req.clone(), type_.clone()),
        }
    }
}

/// Where a dynamic check failed: the path from the root of the value to the
/// failing position (outermost element first), the shape expected there, and
/// the value found there.
pub struct FailView {
    pub path: Seq<PathElementView>,
    pub expected: ReqTypeView,
    pub found: ValueView,
}

impl TypeReqView {
    /// The first failure when the value `v` is checked against this
    /// requirement, if the check fails.
    pub open spec fn first_fail(self, v: ValueView) -> Option<FailView>
        decreases self, 0int,
    {
        match self {
            TypeReqView::Any => Option::None,
            TypeReqView::Annotation(_, t) => t.first_fail(v),
            TypeReqView::Condition => if v is Bool {
                Option::None
            } else {
                Option::Some(FailView {
                    path: Seq::empty(),
                    expected: ReqTypeView::Bool,
                    found: v,
                })
            },
            TypeReqView::Operator(_, t) => t.first_fail(v),
            TypeReqView::IndexList => if v is Int {
                Option::None
            } else {
                Option::Some(FailView {
                    path: Seq::empty(),
                    expected: ReqTypeView::Int,
                    found: v,
                })
            },
        }
    }

    /// The first element of `vs` at or after position `i` that fails this
    /// requirement, with the failure inside that element.
    pub open spec fn seq_first_fail(self, vs: Seq<ValueView>, i: int) -> Option<(int, FailView)>
        decreases self, vs.len() - i,
    {
        if i < 0 || i >= vs.len() {
            Option::None
        } else {
            match self.first_fail(vs[i]) {
                Option::Some(f) => Option::Some((i, f)),
                Option::None => self.seq_first_fail(vs, i + 1),
            }
        }
    }
}

impl ReqTypeView {
    /// The first failure when the value `v` is checked against this shape:
    /// atoms by tag, list and set elements in order, dict entries in order
    /// with the key checked before the value. Function shapes are not
    /// checked structurally at runtime: against any value they report a
    /// failure at the value itself, like any other shape mismatch.
    pub open spec fn first_fail(self, v: ValueView) -> Option<FailView>
        decreases self, 0int,
    {
        match (self, v) {
            (ReqTypeView::Null, ValueView::Null) => Option::None,
            (ReqTypeView::Bool, ValueView::Bool(_)) => Option::None,
            (ReqTypeView::Int, ValueView::Int(_)) => Option::None,
            (ReqTypeView::String, ValueView::String(_)) => Option::None,
            (ReqTypeView::List(er), ValueView::List(vs)) => match er.seq_first_fail(vs, 0) {
                Option::None => Option::None,
                Option::Some((i, f)) => Option::Some(FailView {
                    path: seq![PathElementView::Index(i)] + f.path,
                    expected: f.expected,
                    found: f.found,
                }),
            },
            (ReqTypeView::SetOf(er), ValueView::SetOf(vs)) => match er.seq_first_fail(vs, 0) {
                Option::None => Option::None,
                Option::Some((i, f)) => Option::Some(FailView {
                    path: seq![PathElementView::Index(i)] + f.path,
                    expected: f.expected,
                    found: f.found,
                }),
            },
            (ReqTypeView::Dict(kr, vr), ValueView::Dict(kvs)) => {
                let keys = kvs.map(|i: int, kv: (ValueView, ValueView)| kv.0);
                let vals = kvs.map(|i: int, kv: (ValueView, ValueView)| kv.1);
                match (kr.seq_first_fail(keys, 0), vr.seq_first_fail(vals, 0)) {
                    (Option::None, Option::None) => Option::None,
                    (Option::Some((ik, fk)), Option::None) => Option::Some(FailView {
                        path: seq![PathElementView::Key(kvs[ik].0)] + fk.path,
                        expected: fk.expected,
                        found: fk.found,
                    }),
                    (Option::None, Option::Some((iv, fv))) => Option::Some(FailView {
                        path: seq![PathElementView::Key(kvs[iv].0)] + fv.path,
                        expected: fv.expected,
                        found: fv.found,
                    }),
                    (Option::Some((ik, fk)), Option::Some((iv, fv))) => if ik <= iv {
                        Option::Some(FailView {
                            path: seq![PathElementView::Key(kvs[ik].0)] + fk.path,
                            expected: fk.expected,
                            found: fk.found,
                        })
                    } else {
                        Option::Some(FailView {
                            path: seq![PathElementView::Key(kvs[iv].0)] + fv.path,
                            expected: fv.expected,
                            found: fv.found,
                        })
                    },
                }
            },
            _ => Option::Some(FailView { path: Seq::empty(), expected: self, found: v }),
        }
    }
}

/// What `seq_first_fail` finds: nothing exactly when every element from `i`
/// on fits, and otherwise the first failing element from `i` on.
pub proof fn lemma_seq_first_fail(r: TypeReqView, vs: Seq<ValueView>, i: int)
    requires
        0 <= i <= vs.len(),
    ensures
        match r.seq_first_fail(vs, i) {
            Option::None => forall|j: int| i <= j < vs.len() ==> r.first_fail(vs[j]) is None,
            Option::Some((k, f)) => {
                &&& i <= k < vs.len()
                &&& r.first_fail(vs[k]) is Some
                &&& f == r.first_fail(vs[k]).unwrap()
                &&& forall|j: int| i <= j < k ==> r.first_fail(vs[j]) is None
            },
        },
    decreases vs.len() - i,
{
    if i < vs.len() {
        if r.first_fail(vs[i]) is None {
            lemma_seq_first_fail(r, vs, i + 1);
        }
    }
}

impl TypeReq {
    /// Dynamically check that the given value fits the required type.
    ///
    /// On failure, the error reports the first violation in walking order,
    /// with the path from the root of the value to it.
    pub fn check_value(&self, at: Span, value: &Value) -> (r: Result<(), Error>)
        ensures
            match r {
                Result::Ok(_) => self@.first_fail(value@) is None,
                Result::Err(e) => {
                    &&& self@.first_fail(value@) is Some
                    &&& e@.at == at
                    &&& e@.note is None
                    &&& e@.help is None
                    &&& e@.body == (BodyView::ValueMismatch {
                        expected: self@.first_fail(value@).unwrap().expected.project(),
                        found: self@.first_fail(value@).unwrap().found,
                    })
                    &&& e@.path == self@.first_fail(value@).unwrap().path
                },
            },
        decreases self,
    {
        match self {
            TypeReq::Any => Ok(()),
            TypeReq::Annotation(_, t) => t.check_value(at, value),
            TypeReq::Condition => match value {
                Value::Bool(_) => Ok(()),
                _ => Err(Error::new(at, ErrorBody::ValueMismatch {
                    expected: Type::Bool,
                    found: value.clone(),
                })),
            },
            TypeReq::Operator(_, t) => t.check_value(at, value),
            TypeReq::IndexList => match value {
                Value::Int(_) => Ok(()),
                _ => Err(Error::new(at, ErrorBody::ValueMismatch {
                    expected: Type::Int,
                    found: value.clone(),
                })),
            },
        }
    }
}

impl ReqType {
    /// Dynamically check that the given value fits this shape: atoms by tag,
    /// list and set elements in order (the set index is a best-effort label
    /// in iteration order), dict entries in order, key before value, each
    /// failure labelled with the entry's key. Function shapes are not
    /// checked structurally at runtime; they report a generic mismatch.
    #[verifier::loop_isolation(false)]
    #[verifier::rlimit(100)]
    pub fn check_value(&self, at: Span, value: &Value) -> (r: Result<(), Error>)
        ensures
            match r {
                Result::Ok(_) => self@.first_fail(value@) is None,
                Result::Err(e) => {
                    &&& self@.first_fail(value@) is Some
                    &&& e@.at == at
                    &&& e@.note is None
                    &&& e@.help is None
                    &&& e@.body == (BodyView::ValueMismatch {
                        expected: self@.first_fail(value@).unwrap().expected.project(),
                        found: self@.first_fail(value@).unwrap().found,
                    })
                    &&& e@.path == self@.first_fail(value@).unwrap().path
                },
            },
        decreases self,
    {
        match (self, value) {
            // For the primitive types, we just check for matching values.
            (ReqType::Null, Value::Null) => Ok(()),
            (ReqType::Bool, Value::Bool(_)) => Ok(()),
            (ReqType::Int, Value::Int(_)) => Ok(()),
            (ReqType::String, Value::String(_)) => Ok(()),
            // For compound types, we descend into them to check.
            (ReqType::List(elem_req), Value::List(elems)) => {
                let ghost vs = value@->List_0;
                for i in 0..elems.len()
                    invariant
                        forall|j: int| 0 <= j < i ==> elem_req@.first_fail(vs[j]) is None,
                {
                    proof {
                        assert(vs[i as int] == elems@[i as int]@);
                    }
                    match elem_req.check_value(at, &elems[i]) {
                        Ok(_) => {},
                        Err(err) => {
                            proof {
                                lemma_seq_first_fail(elem_req@, vs, 0);
                            }
                            return Err(err.with_path_element(PathElement::Index(i)));
                        },
                    }
                }
                proof {
                    lemma_seq_first_fail(elem_req@, vs, 0);
                }
                Ok(())
            },
            (ReqType::SetOf(elem_req), Value::SetOf(elems)) => {
                let ghost vs = value@->SetOf_0;
                for i in 0..elems.len()
                    invariant
                        forall|j: int| 0 <= j < i ==> elem_req@.first_fail(vs[j]) is None,
                {
                    proof {
                        assert(vs[i as int] == elems@[i as int]@);
                    }
                    match elem_req.check_value(at, &elems[i]) {
                        Ok(_) => {},
                        Err(err) => {
                            proof {
                                lemma_seq_first_fail(elem_req@, vs, 0);
                            }
                            return Err(err.with_path_element(PathElement::Index(i)));
                        },
                    }
                }
                proof {
                    lemma_seq_first_fail(elem_req@, vs, 0);
                }
                Ok(())
            },
            (ReqType::Dict(kv_req), Value::Dict(kvs)) => {
                let ghost pairs = value@->Dict_0;
                let ghost keys = pairs.map(|i: int, kv: (ValueView, ValueView)| kv.0);
                let ghost vals = pairs.map(|i: int, kv: (ValueView, ValueView)| kv.1);
                for i in 0..kvs.len()
                    invariant
                        forall|j: int| 0 <= j < i ==> kv_req.key@.first_fail(keys[j]) is None,
                        forall|j: int| 0 <= j < i ==> kv_req.value@.first_fail(vals[j]) is None,
                {
                    let entry = &kvs[i];
                    proof {
                        assert(pairs[i as int].0 == kvs@[i as int].0@);
                        assert(pairs[i as int].1 == kvs@[i as int].1@);
                        assert(keys[i as int] == pairs[i as int].0);
                        assert(vals[i as int] == pairs[i as int].1);
                    }
                    match kv_req.key.check_value(at, &entry.0) {
                        Ok(_) => {},
                        Err(err) => {
                            proof {
                                lemma_seq_first_fail(kv_req.key@, keys, 0);
                                lemma_seq_first_fail(kv_req.value@, vals, 0);
                            }
                            return Err(err.with_path_element(PathElement::Key(entry.0.clone())));
                        },
                    }
                    match kv_req.value.check_value(at, &entry.1) {
                        Ok(_) => {},
                        Err(err) => {
                            proof {
                                lemma_seq_first_fail(kv_req.key@, keys, 0);
                                lemma_seq_first_fail(kv_req.value@, vals, 0);
                            }
                            return Err(err.with_path_element(PathElement::Key(entry.0.clone())));
                        },
                    }
                }
                proof {
                    lemma_seq_first_fail(kv_req.key@, keys, 0);
                    lemma_seq_first_fail(kv_req.value@, vals, 0);
                }
                Ok(())
            },
            // Any other combination of shape and value, including every
            // function case, is a mismatch at the value itself.
            _ => Err(Error::new(at, ErrorBody::ValueMismatch {
                expected: self.to_type(),
                found: value.clone(),
            })),
        }
    }
}

/// The result of a static typecheck, as surfaced to callers.
#[derive(Debug, PartialEq, Eq)]
pub enum Typed {
    /// The type is known statically, and this is the most specific type we
    /// can infer for it.
    Type(Type),
    /// We can't check this statically, a runtime check is needed.
    ///
    /// If the runtime check passes, then the value fits the returned type.
    Defer(Type),
}

impl TypeReqView {
    /// The note that explains this requirement to a reader, if a note does:
    /// annotations and operators point back at their span.
    pub open spec fn note(self) -> Option<(Span, NoteView)> {
        match self {
            TypeReqView::Annotation(at, _) => Option::Some((at, NoteView::ExpectedTypeHere)),
            TypeReqView::Operator(at, t) => Option::Some((
                at,
                NoteView::OperatorExpects(t.project()),
            )),
            _ => Option::None,
        }
    }

    /// The help text that explains this requirement, if help text does:
    /// conditions and list indexing have fixed explanations.
    pub open spec fn help(self) -> Option<Help> {
        match self {
            TypeReqView::Condition => Option::Some(Help::ConditionMustBeBool),
            TypeReqView::IndexList => Option::Some(Help::ListIndexMustBeInt),
            _ => Option::None,
        }
    }
}

impl TypeReq {
    /// Explain why the type error is caused.
    ///
    /// A `TypeReq::Any` can never cause an error, so it never reaches this
    /// function; and operators are only defined over atomic types, so an
    /// `Operator` requirement here always projects to an atom. Both are
    /// internal invariants of the caller, not user-facing failures.
    pub fn add_context(&self, error: Error) -> (r: Error)
        requires
            !(self@ is Any),
            self@ matches TypeReqView::Operator(_, t) ==> t.project().is_atom(),
        ensures
            r@.at == error@.at,
            r@.body == error@.body,
            r@.path == error@.path,
            r@.note == if self@.note() is Some {
                self@.note()
            } else {
                error@.note
            },
            r@.help == if self@.help() is Some {
                self@.help()
            } else {
                error@.help
            },
    {
        match self {
            TypeReq::Any => {
                // If no type was expected, it wouldn't cause an error; the
                // precondition rules this arm out.
                proof {
                    assert(false);
                }
                error
            },
            TypeReq::Annotation(at, _) => error.with_note(*at, Note::ExpectedTypeHere),
            TypeReq::Condition => error.with_help(Help::ConditionMustBeBool),
            TypeReq::Operator(at, t) => error.with_note(*at, Note::OperatorExpects(t.to_type())),
            TypeReq::IndexList => error.with_help(Help::ListIndexMustBeInt),
        }
    }

    /// Statically check that the given type is a subtype of the required
    /// type.
    ///
    /// A flat mismatch is reported with the expected and actual types and
    /// the context of the requirement; a mismatch nested inside a compound
    /// type is reported with the structured diff as the error's body, which
    /// records exactly where inside the type the mismatch sits.
    pub fn check_type(&self, at: Span, type_: &Type) -> (r: Result<Typed, Error>)
        requires
            self@ matches TypeReqView::Operator(_, t) ==> t.project().is_atom(),
        ensures
            match r {
                Result::Ok(typed) => match typed {
                    Typed::Type(t) => self@.check(type_@) == DiffView::Fits(t@),
                    Typed::Defer(t) => self@.check(type_@) == DiffView::Defer(t@),
                },
                Result::Err(e) => {
                    &&& e@.at == at
                    &&& e@.path == Seq::<PathElementView>::empty()
                    &&& match self@.check(type_@) {
                        DiffView::Fits(_) => false,
                        DiffView::Defer(_) => false,
                        DiffView::Error(expected, actual) => {
                            &&& e@.body == (BodyView::TypeMismatch {
                                expected: expected.project(),
                                actual,
                            })
                            &&& e@.note == self@.note()
                            &&& e@.help == self@.help()
                        },
                        d => {
                            &&& e@.body == BodyView::NestedMismatch(d)
                            &&& e@.note is None
                            &&& e@.help is None
                        },
                    }
                },
            },
    {
        match self.check_type_impl(type_) {
            TypeDiff::Fits(t) => Ok(Typed::Type(t)),
            TypeDiff::Defer(t) => Ok(Typed::Defer(t)),
            TypeDiff::Error(expected, actual) => {
                // A top-level type error, we can report with a simple message.
                proof {
                    if self@ is Any {
                        assert(self@.check(type_@) == DiffView::Fits(type_@));
                    }
                }
                let expected_type = expected.to_type();
                let err = Error::new(at, ErrorBody::TypeMismatch {
                    expected: expected_type,
                    actual,
                });
                Err(self.add_context(err))
            },
            diff => {
                // The error is nested somewhere inside a compound type; hand
                // the caller the full diff, which pins down the position.
                Err(Error::new(at, ErrorBody::NestedMismatch(diff)))
            },
        }
    }
}

/// Law: a concrete shape round-trips through projection. Checking the
/// projection of a shape requirement against that same requirement always
/// succeeds, and resolves to the projection itself.
pub proof fn lemma_project_round_trip(t: ReqTypeView, req: TypeReqView)
    ensures
        t.check(req, t.project()) == DiffView::Fits(t.project()),
    decreases t,
{
    match t {
        ReqTypeView::List(e) => {
            lemma_req_project_round_trip(*e);
        },
        ReqTypeView::SetOf(e) => {
            lemma_req_project_round_trip(*e);
        },
        ReqTypeView::Dict(k, v) => {
            lemma_req_project_round_trip(*k);
            lemma_req_project_round_trip(*v);
        },
        ReqTypeView::Function(args, res) => {
            lemma_req_project_round_trip(*res);
        },
        _ => {},
    }
}

/// Law: a requirement round-trips through projection. A requirement always
/// accepts its own projection, with the projection as the resolved type;
/// in particular a requirement of `Any` accepts its projection `Dynamic`.
pub proof fn lemma_req_project_round_trip(r: TypeReqView)
    ensures
        r.check(r.project()) == DiffView::Fits(r.project()),
    decreases r,
{
    match r {
        TypeReqView::Annotation(_, t) => {
            lemma_project_round_trip(t, r);
        },
        TypeReqView::Operator(_, t) => {
            lemma_project_round_trip(t, r);
        },
        _ => {},
    }
}

/// Law: an actual type of `Dynamic` always defers a shape comparison, to
/// the projection of the shape — it is never an error, whatever the shape.
pub proof fn lemma_dynamic_always_defers(t: ReqTypeView, req: TypeReqView)
    ensures
        t.check(req, TypeView::Dynamic) == DiffView::Defer(t.project()),
{
}

/// Law: an actual type of `Dynamic` never produces an error at the
/// requirement level either: a real requirement defers, and no requirement
/// resolves to `Dynamic` itself.
pub proof fn lemma_req_dynamic_never_errors(r: TypeReqView)
    ensures
        !(r is Any) ==> r.check(TypeView::Dynamic) == DiffView::Defer(r.project()),
        r is Any ==> r.check(TypeView::Dynamic) == DiffView::Fits(TypeView::Dynamic),
{
    match r {
        TypeReqView::Annotation(_, t) => {
            lemma_dynamic_always_defers(t, r);
        },
        TypeReqView::Operator(_, t) => {
            lemma_dynamic_always_defers(t, r);
        },
        _ => {},
    }
}

/// Law: when a shape comparison succeeds, the resolved type is exactly the
/// actual type that was passed in.
pub proof fn lemma_fits_is_actual(t: ReqTypeView, req: TypeReqView, actual: TypeView)
    ensures
        t.check(req, actual) matches DiffView::Fits(u) ==> u == actual,
{
}

/// Law: when a requirement-level comparison succeeds, the resolved type is
/// exactly the actual type that was passed in.
pub proof fn lemma_req_fits_is_actual(r: TypeReqView, actual: TypeView)
    ensures
        r.check(actual) matches DiffView::Fits(u) ==> u == actual,
{
    match r {
        TypeReqView::Annotation(_, t) => {
            lemma_fits_is_actual(t, r, actual);
        },
        TypeReqView::Operator(_, t) => {
            lemma_fits_is_actual(t, r, actual);
        },
        _ => {},
    }
}

/// Law: a function comparison with mismatched argument counts is an
/// immediate flat error attributed to the requirement, never a nested diff
/// and never a deferral, whatever `Dynamic` components either side holds.
pub proof fn lemma_arg_count_mismatch_is_flat_error(
    t: ReqTypeView,
    req: TypeReqView,
    actual: TypeView,
)
    requires
        t is Function,
        actual is Function,
        t->Function_0.len() != actual->Function_0.len(),
    ensures
        t.check(req, actual) == DiffView::Error(req, actual),
{
}

/// Law: a dict comparison whose key branch fits and whose value branch
/// defers yields a deferral — never an error — and the deferred type is the
/// dict of the resolved key type and the deferred value type.
pub proof fn lemma_dict_key_fits_value_defers(
    t: ReqTypeView,
    req: TypeReqView,
    actual: TypeView,
    kt: TypeView,
    vt: TypeView,
)
    requires
        t matches ReqTypeView::Dict(kr, vr) && actual matches TypeView::Dict(ka, va)
            && kr.check(*ka) == DiffView::Fits(kt) && vr.check(*va) == DiffView::Defer(vt),
    ensures
        t.check(req, actual) == DiffView::Defer(TypeView::Dict(Box::new(kt), Box::new(vt))),
{
}

/// Law: no requirement means no error: `Any` accepts every type and every
/// value outright.
pub proof fn lemma_any_never_errors(actual: TypeView, v: ValueView)
    ensures
        TypeReqView::Any.check(actual) == DiffView::Fits(actual),
        TypeReqView::Any.first_fail(v) is None,
{
}

/// Law: when the elements of a list value before position `i` fit the
/// element requirement and the element at `i` does not, the dynamic check
/// fails, and the first element of the failure path is the index `i`.
pub proof fn lemma_list_fail_path(t: ReqTypeView, v: ValueView, i: int)
    requires
        t matches ReqTypeView::List(er) && v matches ValueView::List(vs) && 0 <= i < vs.len()
            && (forall|j: int| 0 <= j < i ==> er.first_fail(vs[j]) is None)
            && er.first_fail(vs[i]) is Some,
    ensures
        t.first_fail(v) is Some,
        t.first_fail(v).unwrap().path.len() >= 1,
        t.first_fail(v).unwrap().path[0] == PathElementView::Index(i),
{
    let er = t->List_0;
    let vs = v->List_0;
    lemma_seq_first_fail(*er, vs, 0);
    let kf = er.seq_first_fail(vs, 0);
    assert(kf is Some);
    let (k, f) = kf.unwrap();
    assert(k == i);
}

/// Law: a requirement checks exactly as the shape it demands does. No
/// demanded shape means everything fits; a demanded shape is compared with
/// the requirement itself as context.
pub proof fn lemma_check_goes_by_shape(r: TypeReqView, actual: TypeView)
    ensures
        r.check(actual) == (match r.shape() {
            Option::None => DiffView::Fits(actual),
            Option::Some(s) => s.check(r, actual),
        }),
{
}

/// Law: a dynamic check goes by the demanded shape in the same way.
pub proof fn lemma_first_fail_goes_by_shape(r: TypeReqView, v: ValueView)
    ensures
        r.first_fail(v) == (match r.shape() {
            Option::None => Option::<FailView>::None,
            Option::Some(s) => s.first_fail(v),
        }),
{
}

} // verus!

