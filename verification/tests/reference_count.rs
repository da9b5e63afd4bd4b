//! The reference-count annotation pass on single expressions and
//! definitions.

use lowering::ir::{
    ArithmeticOperation, ArithmeticOperator, Argument, CloneVariables, Definition, DropVariables,
    Expression, FunctionApplication, Let, LetRecursive, Number, Record, RecordElement, Variable,
};
use lowering::reference_count::{convert_definition, convert_expression};
use lowering::types::{RecordType, Type};
use lowering::vars::VariableSet;

fn var(name: &str) -> Expression {
    Expression::Variable(Variable::new(name))
}

fn num(value: f64) -> Expression {
    Expression::Number(Number::new(value.to_bits()))
}

fn set(names: &[&str]) -> VariableSet {
    let mut s = VariableSet::new();
    for name in names {
        s.insert(name);
    }
    s
}

fn clone_vars(names: &[&str], expression: Expression) -> Expression {
    Expression::CloneVariables(CloneVariables::new(set(names), expression))
}

fn drop_vars(names: &[&str], expression: Expression) -> Expression {
    Expression::DropVariables(DropVariables::new(set(names), expression))
}

fn apply(function: Expression, argument: Expression) -> Expression {
    Expression::FunctionApplication(FunctionApplication::new(function, argument))
}

fn add(lhs: Expression, rhs: Expression) -> Expression {
    Expression::ArithmeticOperation(ArithmeticOperation::new(ArithmeticOperator::Add, lhs, rhs))
}

fn let_(name: &str, bound: Expression, body: Expression) -> Expression {
    Expression::Let(Let::new(name, Type::Number, bound, body))
}

#[test]
fn convert_record() {
    assert_eq!(
        convert_expression(
            &Expression::Record(Record::new(RecordType::new("a"), vec![var("x"), var("x")])),
            &set(&["x"]),
            &VariableSet::new(),
        )
        .unwrap(),
        (
            Expression::Record(Record::new(
                RecordType::new("a"),
                vec![clone_vars(&["x"], var("x")), var("x")],
            )),
            set(&["x"]),
        ),
    );
}

#[test]
fn convert_single() {
    assert_eq!(
        convert_expression(
            &apply(var("f"), var("x")),
            &set(&["f", "x"]),
            &set(&["f", "x"]),
        )
        .unwrap(),
        (
            apply(clone_vars(&["f"], var("f")), clone_vars(&["x"], var("x"))),
            set(&["f", "x"]),
        ),
    );
}

#[test]
fn convert_multiple() {
    assert_eq!(
        convert_expression(
            &apply(apply(var("f"), var("x")), var("x")),
            &set(&["f", "x"]),
            &VariableSet::new(),
        )
        .unwrap(),
        (
            apply(apply(var("f"), clone_vars(&["x"], var("x"))), var("x")),
            set(&["f", "x"]),
        ),
    );
}

#[test]
fn convert_with_moved_variable() {
    assert_eq!(
        convert_expression(
            &let_("x", num(42.0), var("x")),
            &VariableSet::new(),
            &VariableSet::new(),
        )
        .unwrap()
        .0,
        let_("x", num(42.0), var("x")),
    );
}

#[test]
fn convert_with_cloned_variable() {
    assert_eq!(
        convert_expression(
            &let_("x", num(42.0), add(var("x"), var("x"))),
            &VariableSet::new(),
            &VariableSet::new(),
        )
        .unwrap()
        .0,
        let_("x", num(42.0), add(clone_vars(&["x"], var("x")), var("x"))),
    );
}

#[test]
fn convert_with_dropped_variable() {
    assert_eq!(
        convert_expression(
            &let_("x", num(42.0), num(42.0)),
            &VariableSet::new(),
            &VariableSet::new(),
        )
        .unwrap()
        .0,
        let_("x", num(42.0), drop_vars(&["x"], num(42.0))),
    );
}

#[test]
fn convert_with_moved_variable_in_bound_expression() {
    assert_eq!(
        convert_expression(
            &let_("x", var("y"), var("x")),
            &set(&["y"]),
            &VariableSet::new(),
        )
        .unwrap(),
        (let_("x", var("y"), var("x")), set(&["y"])),
    );
}

#[test]
fn convert_with_cloned_variable_in_bound_expression() {
    assert_eq!(
        convert_expression(
            &let_("x", var("y"), var("y")),
            &set(&["y"]),
            &VariableSet::new(),
        )
        .unwrap(),
        (
            let_(
                "x",
                clone_vars(&["y"], var("y")),
                drop_vars(&["x"], var("y")),
            ),
            set(&["y"]),
        ),
    );
}

#[test]
fn mod_convert_with_moved_variable() {
    assert_eq!(
        convert_expression(
            &Expression::LetRecursive(LetRecursive::new(
                Definition::new(
                    "f",
                    vec![Argument::new("x", Type::Number)],
                    num(42.0),
                    Type::Number,
                ),
                var("f"),
            )),
            &VariableSet::new(),
            &VariableSet::new(),
        )
        .unwrap()
        .0,
        Expression::LetRecursive(LetRecursive::new(
            Definition::new(
                "f",
                vec![Argument::new("x", Type::Number)],
                drop_vars(&["f", "x"], num(42.0)),
                Type::Number,
            ),
            var("f"),
        )),
    );
}

#[test]
fn mod_convert_with_cloned_variable() {
    assert_eq!(
        convert_expression(
            &Expression::LetRecursive(LetRecursive::new(
                Definition::new(
                    "f",
                    vec![Argument::new("x", Type::Number)],
                    num(42.0),
                    Type::Number,
                ),
                apply(apply(var("g"), var("f")), var("f")),
            )),
            &VariableSet::new(),
            &VariableSet::new(),
        )
        .unwrap()
        .0,
        Expression::LetRecursive(LetRecursive::new(
            Definition::new(
                "f",
                vec![Argument::new("x", Type::Number)],
                drop_vars(&["f", "x"], num(42.0)),
                Type::Number,
            ),
            apply(
                apply(var("g"), clone_vars(&["f"], var("f"))),
                var("f"),
            ),
        )),
    );
}

#[test]
fn mod_convert_with_dropped_variable() {
    assert_eq!(
        convert_expression(
            &Expression::LetRecursive(LetRecursive::new(
                Definition::new(
                    "f",
                    vec![Argument::new("x", Type::Number)],
                    num(42.0),
                    Type::Number,
                ),
                num(42.0),
            )),
            &VariableSet::new(),
            &VariableSet::new(),
        )
        .unwrap()
        .0,
        Expression::LetRecursive(LetRecursive::new(
            Definition::new(
                "f",
                vec![Argument::new("x", Type::Number)],
                drop_vars(&["f", "x"], num(42.0)),
                Type::Number,
            ),
            drop_vars(&["f"], num(42.0)),
        )),
    );
}

#[test]
fn convert_with_moved_variable_in_environment() {
    assert_eq!(
        convert_expression(
            &Expression::LetRecursive(LetRecursive::new(
                Definition::with_environment(
                    "f",
                    vec![Argument::new("y", Type::Number)],
                    vec![Argument::new("x", Type::Number)],
                    num(42.0),
                    Type::Number,
                ),
                var("f"),
            )),
            &set(&["y"]),
            &VariableSet::new(),
        )
        .unwrap(),
        (
            Expression::LetRecursive(LetRecursive::new(
                Definition::with_environment(
                    "f",
                    vec![Argument::new("y", Type::Number)],
                    vec![Argument::new("x", Type::Number)],
                    drop_vars(&["f", "x", "y"], num(42.0)),
                    Type::Number,
                ),
                var("f"),
            )),
            set(&["y"]),
        ),
    );
}

#[test]
fn convert_with_cloned_variable_in_environment() {
    assert_eq!(
        convert_expression(
            &Expression::LetRecursive(LetRecursive::new(
                Definition::with_environment(
                    "f",
                    vec![Argument::new("y", Type::Number)],
                    vec![Argument::new("x", Type::Number)],
                    num(42.0),
                    Type::Number,
                ),
                apply(var("f"), var("y")),
            )),
            &set(&["y"]),
            &VariableSet::new(),
        )
        .unwrap(),
        (
            clone_vars(
                &["y"],
                Expression::LetRecursive(LetRecursive::new(
                    Definition::with_environment(
                        "f",
                        vec![Argument::new("y", Type::Number)],
                        vec![Argument::new("x", Type::Number)],
                        drop_vars(&["f", "x", "y"], num(42.0)),
                        Type::Number,
                    ),
                    apply(var("f"), var("y")),
                )),
            ),
            set(&["y"]),
        ),
    );
}

#[test]
fn convert_with_dropped_argument() {
    assert_eq!(
        convert_definition(&Definition::new(
            "f",
            vec![Argument::new("x", Type::Number)],
            num(42.0),
            Type::Number,
        ))
        .unwrap(),
        Definition::new(
            "f",
            vec![Argument::new("x", Type::Number)],
            drop_vars(&["f", "x"], num(42.0)),
            Type::Number,
        ),
    );
}

#[test]
fn convert_with_dropped_free_variable() {
    assert_eq!(
        convert_definition(&Definition::with_environment(
            "f",
            vec![Argument::new("y", Type::Number)],
            vec![Argument::new("x", Type::Number)],
            num(42.0),
            Type::Number,
        ))
        .unwrap(),
        Definition::with_environment(
            "f",
            vec![Argument::new("y", Type::Number)],
            vec![Argument::new("x", Type::Number)],
            drop_vars(&["f", "x", "y"], num(42.0)),
            Type::Number,
        ),
    );
}

#[test]
fn reject_already_annotated_expression() {
    assert!(convert_expression(
        &clone_vars(&["x"], var("x")),
        &set(&["x"]),
        &VariableSet::new(),
    )
    .is_err());
}

#[test]
fn annotate_sum_of_bound_variable_with_itself() {
    // let x = 42 in x + x: the left addend gets a clone, no drop appears.
    let (converted, _) = convert_expression(
        &let_("x", num(42.0), add(var("x"), var("x"))),
        &VariableSet::new(),
        &VariableSet::new(),
    )
    .unwrap();
    assert_eq!(
        converted,
        let_("x", num(42.0), add(clone_vars(&["x"], var("x")), var("x"))),
    );
}

#[test]
fn annotate_unused_bound_variable() {
    // let x = 42 in 0: the body drops x.
    let (converted, _) = convert_expression(
        &let_("x", num(42.0), num(0.0)),
        &VariableSet::new(),
        &VariableSet::new(),
    )
    .unwrap();
    assert_eq!(converted, let_("x", num(42.0), drop_vars(&["x"], num(0.0))));
}

#[test]
fn balance_branches_with_drops() {
    // if c then x else 0: the else branch must drop what then consumed.
    let (converted, _) = convert_expression(
        &Expression::If(lowering::ir::If::new(var("c"), var("x"), num(0.0))),
        &set(&["c", "x"]),
        &VariableSet::new(),
    )
    .unwrap();
    assert_eq!(
        converted,
        Expression::If(lowering::ir::If::new(
            var("c"),
            var("x"),
            drop_vars(&["x"], num(0.0)),
        )),
    );
}

#[test]
fn record_element_threads_moved_set() {
    let (converted, moved) = convert_expression(
        &Expression::RecordElement(RecordElement::new(RecordType::new("a"), 0, var("x"))),
        &set(&["x"]),
        &VariableSet::new(),
    )
    .unwrap();
    assert_eq!(
        converted,
        Expression::RecordElement(RecordElement::new(RecordType::new("a"), 0, var("x"))),
    );
    assert_eq!(moved, set(&["x"]));
}

#[test]
fn second_run_fails_on_inserted_markers() {
    // The first run annotates; the second rejects the markers it finds.
    let module = lowering::module::Module::new(
        vec![],
        vec![],
        vec![],
        vec![],
        vec![Definition::new(
            "f",
            vec![Argument::new("x", Type::Number)],
            num(42.0),
            Type::Number,
        )],
    );
    let annotated = lowering::reference_count::count_references(&module).unwrap();
    assert!(lowering::reference_count::count_references(&annotated).is_err());
}

#[test]
fn second_run_keeps_a_fixed_point() {
    // A body that consumes everything it owns gains no markers, so a
    // second run returns the same module.
    let module = lowering::module::Module::new(
        vec![],
        vec![],
        vec![],
        vec![],
        vec![Definition::new(
            "f",
            vec![Argument::new("x", Type::Number)],
            apply(var("f"), var("x")),
            Type::Number,
        )],
    );
    let once = lowering::reference_count::count_references(&module).unwrap();
    assert_eq!(once, module);
    let twice = lowering::reference_count::count_references(&once).unwrap();
    assert_eq!(twice, once);
}
