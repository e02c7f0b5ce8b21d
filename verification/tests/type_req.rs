use rcl_types::error::{ErrorBody, Help, Note, PathElement};
use rcl_types::runtime::Value;
use rcl_types::source::Span;
use rcl_types::type_req::{DictReq, FunctionReq, ReqType, TypeDiff, TypeReq, Typed};
use rcl_types::types::{Dict, Function, Type};

fn sp() -> Span {
    Span { start: 3, end: 7 }
}

fn ann(t: ReqType) -> TypeReq {
    TypeReq::Annotation(sp(), t)
}

fn list_req(elem: TypeReq) -> ReqType {
    ReqType::List(Box::new(elem))
}

fn dict_req(key: TypeReq, value: TypeReq) -> ReqType {
    ReqType::Dict(Box::new(DictReq { key, value }))
}

fn fn_req(args: Vec<TypeReq>, result: TypeReq) -> ReqType {
    ReqType::Function(Box::new(FunctionReq { args, result }))
}

fn list_ty(elem: Type) -> Type {
    Type::List(Box::new(elem))
}

fn dict_ty(key: Type, value: Type) -> Type {
    Type::Dict(Box::new(Dict { key, value }))
}

fn fn_ty(args: Vec<Type>, result: Type) -> Type {
    Type::Function(Box::new(Function { args, result }))
}

fn str_val(s: &str) -> Value {
    Value::String(s.to_string())
}

// Requirement `Int` against actual `Int` resolves to `Int`.
#[test]
fn compare_int_against_int_fits() {
    let req = ann(ReqType::Int);
    assert_eq!(req.check_type_impl(&Type::Int), TypeDiff::Fits(Type::Int));
    assert_eq!(req.check_type(sp(), &Type::Int), Ok(Typed::Type(Type::Int)));
}

// Requirement `Int` against actual `String` is a flat error carrying both.
#[test]
fn compare_int_against_string_is_error() {
    let req = ann(ReqType::Int);
    assert_eq!(
        req.check_type_impl(&Type::String),
        TypeDiff::Error(req.clone(), Type::String)
    );
    let err = req.check_type(sp(), &Type::String).unwrap_err();
    assert_eq!(
        err.body,
        ErrorBody::TypeMismatch { expected: Type::Int, actual: Type::String }
    );
    assert_eq!(err.at, sp());
    assert_eq!(err.note, Some((sp(), Note::ExpectedTypeHere)));
    assert_eq!(err.help, None);
    assert_eq!(err.path, vec![]);
}

// Requirement `List(Int)` against actual `List(Dynamic)` defers to runtime,
// promising `List(Int)` if the runtime check passes.
#[test]
fn compare_list_int_against_list_dynamic_defers() {
    let req = ann(list_req(ann(ReqType::Int)));
    assert_eq!(
        req.check_type_impl(&list_ty(Type::Dynamic)),
        TypeDiff::Defer(list_ty(Type::Int))
    );
    assert_eq!(
        req.check_type(sp(), &list_ty(Type::Dynamic)),
        Ok(Typed::Defer(list_ty(Type::Int)))
    );
}

// A function comparison with argument counts 1 and 2 is an immediate flat
// error.
#[test]
fn compare_function_arg_count_mismatch_is_flat_error() {
    let req = ann(fn_req(vec![ann(ReqType::Int)], ann(ReqType::Int)));
    let actual = fn_ty(vec![Type::Int, Type::Int], Type::Int);
    assert_eq!(
        req.check_type_impl(&actual),
        TypeDiff::Error(req.clone(), actual.clone())
    );
}

// Argument-count mismatch stays a flat error even when the actual type is
// full of `Dynamic` components.
#[test]
fn arg_count_mismatch_with_dynamic_components() {
    let req = ann(fn_req(vec![ann(ReqType::Int)], ann(ReqType::Int)));
    let actual = fn_ty(vec![Type::Dynamic, Type::Dynamic], Type::Dynamic);
    assert_eq!(
        req.check_type_impl(&actual),
        TypeDiff::Error(req.clone(), actual.clone())
    );
}

// A concrete requirement round-trips: checking its own projection succeeds
// and resolves to the projection.
#[test]
fn project_round_trip_concrete_requirement() {
    let req = ann(dict_req(
        ann(ReqType::String),
        ann(list_req(ann(fn_req(vec![ann(ReqType::Int)], ann(ReqType::Bool))))),
    ));
    let projected = req.to_type();
    assert_eq!(
        req.check_type_impl(&projected),
        TypeDiff::Fits(projected.clone())
    );
    assert_eq!(req.check_type(sp(), &projected), Ok(Typed::Type(projected)));
}

// An actual type of `Dynamic` always defers, to the projection of the
// requirement, never errs.
#[test]
fn dynamic_actual_always_defers() {
    let shapes = vec![
        ReqType::Bool,
        ReqType::Null,
        list_req(ann(ReqType::Int)),
        dict_req(ann(ReqType::String), ann(ReqType::Int)),
        fn_req(vec![ann(ReqType::Int)], ann(ReqType::Int)),
    ];
    for shape in shapes {
        let req = ann(shape);
        let projected = req.to_type();
        assert_eq!(req.check_type_impl(&Type::Dynamic), TypeDiff::Defer(projected));
    }
    assert_eq!(
        TypeReq::Condition.check_type_impl(&Type::Dynamic),
        TypeDiff::Defer(Type::Bool)
    );
    assert_eq!(
        TypeReq::IndexList.check_type_impl(&Type::Dynamic),
        TypeDiff::Defer(Type::Int)
    );
}

// When a comparison succeeds, the resolved type is the actual type that was
// passed in, not the requirement's projection.
#[test]
fn fits_returns_the_actual_type() {
    // The condition requirement projects to `Bool`, and the actual type is
    // `Bool` too; what comes back must be the actual.
    assert_eq!(
        TypeReq::Condition.check_type(sp(), &Type::Bool),
        Ok(Typed::Type(Type::Bool))
    );
    // `Any` resolves to whatever was passed in.
    assert_eq!(
        TypeReq::Any.check_type(sp(), &Type::String),
        Ok(Typed::Type(Type::String))
    );
}

// Dict comparison with a fitting key and a deferred value defers to the
// dict of the resolved key type and the deferred value type.
#[test]
fn dict_key_fits_value_defers_reconstructs() {
    let req = ann(dict_req(ann(ReqType::String), ann(ReqType::Int)));
    let actual = dict_ty(Type::String, Type::Dynamic);
    assert_eq!(
        req.check_type_impl(&actual),
        TypeDiff::Defer(dict_ty(Type::String, Type::Int))
    );
}

// Dict comparison with both sides deferred still defers.
#[test]
fn dict_both_defer() {
    let req = ann(dict_req(ann(ReqType::String), ann(ReqType::Int)));
    let actual = dict_ty(Type::Dynamic, Type::Dynamic);
    assert_eq!(
        req.check_type_impl(&actual),
        TypeDiff::Defer(dict_ty(Type::String, Type::Int))
    );
}

// A mismatch in a dict branch nests the error, carrying both branch diffs.
#[test]
fn dict_branch_mismatch_nests_both_diffs() {
    let key_req = ann(ReqType::String);
    let value_req = ann(ReqType::Int);
    let req = ann(dict_req(key_req.clone(), value_req));
    let actual = dict_ty(Type::String, Type::Bool);
    let diff = req.check_type_impl(&actual);
    match diff {
        TypeDiff::Dict(k, v) => {
            assert_eq!(*k, TypeDiff::Fits(Type::String));
            assert_eq!(*v, TypeDiff::Error(ann(ReqType::Int), Type::Bool));
        },
        other => panic!("expected a dict diff, got {other:?}"),
    }
}

// A function whose arguments match exactly and whose result defers
// reconstructs the function type around the deferred result.
#[test]
fn function_result_defer_reconstructs() {
    let req = ann(fn_req(vec![ann(ReqType::Int)], ann(ReqType::Bool)));
    let actual = fn_ty(vec![Type::Int], Type::Dynamic);
    assert_eq!(
        req.check_type_impl(&actual),
        TypeDiff::Defer(fn_ty(vec![Type::Int], Type::Bool))
    );
}

// A function argument of the wrong type makes a function diff that carries
// the per-argument diffs and the result diff, even when the result fits.
#[test]
fn function_arg_type_mismatch_is_function_diff() {
    let req = ann(fn_req(vec![ann(ReqType::Int)], ann(ReqType::Bool)));
    let actual = fn_ty(vec![Type::String], Type::Bool);
    let diff = req.check_type_impl(&actual);
    match diff {
        TypeDiff::Function(args, result) => {
            assert_eq!(args, vec![TypeDiff::Error(ann(ReqType::Int), Type::String)]);
            assert_eq!(*result, TypeDiff::Fits(Type::Bool));
        },
        other => panic!("expected a function diff, got {other:?}"),
    }
}

// A nested static mismatch is reported with the structured diff as the
// error's body, pinning down where inside the type the mismatch sits.
#[test]
fn nested_static_mismatch_reports_structured_diff() {
    let elem = ann(ReqType::Int);
    let req = ann(list_req(elem.clone()));
    let actual = list_ty(Type::String);
    let err = req.check_type(sp(), &actual).unwrap_err();
    assert_eq!(
        err.body,
        ErrorBody::NestedMismatch(TypeDiff::List(Box::new(TypeDiff::Error(
            elem,
            Type::String
        ))))
    );
    assert_eq!(err.note, None);
    assert_eq!(err.help, None);
}

// A condition that is not a boolean gets the no-implicit-conversion help.
#[test]
fn condition_mismatch_gets_help() {
    let err = TypeReq::Condition.check_type(sp(), &Type::Int).unwrap_err();
    assert_eq!(
        err.body,
        ErrorBody::TypeMismatch { expected: Type::Bool, actual: Type::Int }
    );
    assert_eq!(err.help, Some(Help::ConditionMustBeBool));
    assert_eq!(err.note, None);
}

// A list index that is not an integer gets the list-index help.
#[test]
fn index_list_mismatch_gets_help() {
    let err = TypeReq::IndexList.check_type(sp(), &Type::String).unwrap_err();
    assert_eq!(
        err.body,
        ErrorBody::TypeMismatch { expected: Type::Int, actual: Type::String }
    );
    assert_eq!(err.help, Some(Help::ListIndexMustBeInt));
}

// An operator mismatch points at the operator and names the atomic type it
// expects.
#[test]
fn operator_mismatch_gets_note() {
    let at = Span { start: 11, end: 12 };
    let req = TypeReq::Operator(at, ReqType::Int);
    let err = req.check_type(sp(), &Type::String).unwrap_err();
    assert_eq!(err.at, sp());
    assert_eq!(err.note, Some((at, Note::OperatorExpects(Type::Int))));
}

// `Any` accepts every type and every value.
#[test]
fn any_requirement_accepts_everything() {
    assert_eq!(
        TypeReq::Any.check_type_impl(&Type::Dynamic),
        TypeDiff::Fits(Type::Dynamic)
    );
    let value = Value::Dict(vec![(str_val("k"), Value::Bool(false))]);
    assert_eq!(TypeReq::Any.check_value(sp(), &value), Ok(()));
    assert_eq!(TypeReq::Any.to_type(), Type::Dynamic);
    assert_eq!(TypeReq::Any.req_type(), None);
}

// The required shapes behind each requirement variant.
#[test]
fn req_type_reports_the_required_shape() {
    assert_eq!(TypeReq::Condition.req_type(), Some(ReqType::Bool));
    assert_eq!(TypeReq::IndexList.req_type(), Some(ReqType::Int));
    assert_eq!(ann(ReqType::String).req_type(), Some(ReqType::String));
    assert_eq!(
        TypeReq::Operator(sp(), ReqType::Int).req_type(),
        Some(ReqType::Int)
    );
}

// Projection maps compound shapes element-wise.
#[test]
fn to_type_projects_compounds() {
    let req = ann(fn_req(
        vec![ann(ReqType::Int), TypeReq::Any],
        ann(list_req(ann(ReqType::Bool))),
    ));
    assert_eq!(
        req.to_type(),
        fn_ty(vec![Type::Int, Type::Dynamic], list_ty(Type::Bool))
    );
}

// Dynamic check of a list with a violation at position 2: the first path
// element identifies index 2.
#[test]
fn list_violation_at_index_two() {
    let req = ann(list_req(ann(ReqType::Int)));
    let value = Value::List(vec![
        Value::Int(0),
        Value::Int(1),
        Value::Bool(true),
        Value::Int(3),
    ]);
    let err = req.check_value(sp(), &value).unwrap_err();
    assert_eq!(err.path, vec![PathElement::Index(2)]);
    assert_eq!(
        err.body,
        ErrorBody::ValueMismatch { expected: Type::Int, found: Value::Bool(true) }
    );
    assert_eq!(err.at, sp());
}

// A nested list violation accumulates the path from the outermost element
// to the innermost one.
#[test]
fn nested_list_violation_path() {
    let req = ann(list_req(ann(list_req(ann(ReqType::Int)))));
    let value = Value::List(vec![
        Value::List(vec![Value::Int(1)]),
        Value::List(vec![Value::Int(2), str_val("x")]),
    ]);
    let err = req.check_value(sp(), &value).unwrap_err();
    assert_eq!(err.path, vec![PathElement::Index(1), PathElement::Index(1)]);
    assert_eq!(
        err.body,
        ErrorBody::ValueMismatch { expected: Type::Int, found: str_val("x") }
    );
}

// Sets have no semantic order, but a violation still gets an index label in
// iteration order to localize it.
#[test]
fn set_violation_gets_index_label() {
    let req = ann(ReqType::SetOf(Box::new(ann(ReqType::Int))));
    let value = Value::SetOf(vec![Value::Int(4), Value::Null]);
    let err = req.check_value(sp(), &value).unwrap_err();
    assert_eq!(err.path, vec![PathElement::Index(1)]);
    assert_eq!(
        err.body,
        ErrorBody::ValueMismatch { expected: Type::Int, found: Value::Null }
    );
}

// Dynamic check of `Dict(key=String, value=Int)` against `{"a": true}`:
// the failure points at the entry under the key "a".
#[test]
fn dynamic_check_dict_flags_entry_under_key() {
    let req = ann(dict_req(ann(ReqType::String), ann(ReqType::Int)));
    let value = Value::Dict(vec![(str_val("a"), Value::Bool(true))]);
    let err = req.check_value(sp(), &value).unwrap_err();
    assert_eq!(err.path, vec![PathElement::Key(str_val("a"))]);
    assert_eq!(
        err.body,
        ErrorBody::ValueMismatch { expected: Type::Int, found: Value::Bool(true) }
    );
}

// A violating dict key is also labelled with that key.
#[test]
fn dict_key_violation_path() {
    let req = ann(dict_req(ann(ReqType::String), ann(ReqType::Int)));
    let value = Value::Dict(vec![
        (str_val("good"), Value::Int(1)),
        (Value::Int(9), Value::Int(2)),
    ]);
    let err = req.check_value(sp(), &value).unwrap_err();
    assert_eq!(err.path, vec![PathElement::Key(Value::Int(9))]);
    assert_eq!(
        err.body,
        ErrorBody::ValueMismatch { expected: Type::String, found: Value::Int(9) }
    );
}

// An empty list fits any element requirement.
#[test]
fn empty_list_fits_any_element_requirement() {
    let req = ann(list_req(ann(fn_req(vec![], ann(ReqType::Null)))));
    assert_eq!(req.check_value(sp(), &Value::List(vec![])), Ok(()));
}

// Atom values pass their atom requirements.
#[test]
fn check_value_atoms_pass() {
    assert_eq!(ann(ReqType::Null).check_value(sp(), &Value::Null), Ok(()));
    assert_eq!(
        ann(ReqType::Bool).check_value(sp(), &Value::Bool(false)),
        Ok(())
    );
    assert_eq!(ann(ReqType::Int).check_value(sp(), &Value::Int(-4)), Ok(()));
    assert_eq!(
        ann(ReqType::String).check_value(sp(), &str_val("")),
        Ok(())
    );
    assert_eq!(
        TypeReq::Condition.check_value(sp(), &Value::Bool(true)),
        Ok(())
    );
    assert_eq!(TypeReq::IndexList.check_value(sp(), &Value::Int(0)), Ok(()));
}

// Function values are not structurally checked at runtime: a function
// requirement reports a generic mismatch against any value, rendering the
// expected type and the value side by side.
#[test]
fn function_requirement_rejects_values_at_runtime() {
    let req = ann(fn_req(vec![ann(ReqType::Int)], ann(ReqType::Int)));
    let err = req.check_value(sp(), &Value::Int(1)).unwrap_err();
    assert_eq!(err.path, vec![]);
    assert_eq!(
        err.body,
        ErrorBody::ValueMismatch {
            expected: fn_ty(vec![Type::Int], Type::Int),
            found: Value::Int(1),
        }
    );
}

// A compound value of the wrong shape is a mismatch at the value itself.
#[test]
fn shape_mismatch_value_reports_both_sides() {
    let req = ann(list_req(ann(ReqType::Int)));
    let err = req.check_value(sp(), &Value::Int(3)).unwrap_err();
    assert_eq!(err.path, vec![]);
    assert_eq!(
        err.body,
        ErrorBody::ValueMismatch {
            expected: list_ty(Type::Int),
            found: Value::Int(3),
        }
    );
}
