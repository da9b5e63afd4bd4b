//! Boxing decisions, type ids, emitted-function names and accessors.

use lowering::ir::{Argument, Definition, Expression, Number, Variable};
use lowering::vars::VariableSet;
use lowering::lower::{
    compile_type_id, get_record_clone_function_name, get_record_drop_function_name,
    is_payload_boxed, CompileError,
};
use lowering::lower_types::is_record_boxed;
use lowering::module::TypeDefinition;
use lowering::types::{FunctionType, RecordContent, RecordType, Type};

#[test]
fn record_with_elements_is_boxed() {
    let types = vec![TypeDefinition::new(
        "foo",
        RecordContent::new(vec![Type::Number]),
    )];
    assert!(is_record_boxed(&RecordType::new("foo"), &types));
}

#[test]
fn record_without_elements_is_inline() {
    let types = vec![TypeDefinition::new("foo", RecordContent::new(vec![]))];
    assert!(!is_record_boxed(&RecordType::new("foo"), &types));
}

#[test]
fn only_byte_string_payloads_are_boxed() {
    assert_eq!(is_payload_boxed(&Type::ByteString), Ok(true));
    assert_eq!(is_payload_boxed(&Type::Number), Ok(false));
    assert_eq!(is_payload_boxed(&Type::Boolean), Ok(false));
    assert_eq!(
        is_payload_boxed(&Type::Record(RecordType::new("foo"))),
        Ok(false),
    );
    assert_eq!(
        is_payload_boxed(&Type::Function(FunctionType::new(
            Type::Number,
            Type::Number,
        ))),
        Ok(false),
    );
    assert_eq!(
        is_payload_boxed(&Type::Variant),
        Err(CompileError::NestedVariant),
    );
}

#[test]
fn type_ids_are_deterministic_strings() {
    assert_eq!(compile_type_id(&Type::Number), "Number");
    assert_eq!(compile_type_id(&Type::Variant), "Variant");
    assert_eq!(
        compile_type_id(&Type::Record(RecordType::new("foo"))),
        "Record(foo)",
    );
    assert_eq!(
        compile_type_id(&Type::Function(FunctionType::new(
            Type::Number,
            Type::Boolean,
        ))),
        "Function(Number,Boolean)",
    );
}

#[test]
fn record_function_names_carry_the_record_name() {
    assert_eq!(
        get_record_clone_function_name(&"foo".to_owned()),
        "rc_clone_foo",
    );
    assert_eq!(
        get_record_drop_function_name(&"foo".to_owned()),
        "rc_drop_foo",
    );
}

#[test]
fn to_variable_sees_only_variables() {
    let variable = Expression::Variable(Variable::new("x"));
    assert_eq!(variable.to_variable().unwrap().name(), "x");
    assert!(Expression::Number(Number::new(0)).to_variable().is_none());
}

#[test]
fn definition_type_is_the_curried_function_type() {
    let definition = Definition::new(
        "f",
        vec![
            Argument::new("x", Type::Number),
            Argument::new("y", Type::Boolean),
        ],
        Expression::Variable(Variable::new("x")),
        Type::Number,
    );
    assert_eq!(
        definition.type_(),
        Type::Function(FunctionType::new(
            Type::Number,
            Type::Function(FunctionType::new(Type::Boolean, Type::Number)),
        )),
    );
}

#[test]
fn variable_sets_compare_as_sets() {
    let mut a = VariableSet::new();
    a.insert("x");
    a.insert("y");
    let mut b = VariableSet::new();
    b.insert("y");
    b.insert("x");
    assert_eq!(a, b);
    let mut c = VariableSet::new();
    c.insert("x");
    assert_ne!(a, c);
    assert!(a.contains_str("y"));
    assert!(!c.contains_str("y"));
    assert_eq!(a.difference(&c).len(), 1);
    assert!(a.union(&c).contains_str("y"));
}

#[test]
fn environment_without_the_definition_itself() {
    let definition = Definition::with_environment(
        "f",
        vec![
            Argument::new("f", Type::Number),
            Argument::new("y", Type::Number),
        ],
        vec![Argument::new("x", Type::Number)],
        Expression::Variable(Variable::new("x")),
        Type::Number,
    );
    let environment = lowering::expressions::get_environment_from_definition(&definition);
    assert_eq!(environment, vec![Argument::new("y", Type::Number)]);
}
