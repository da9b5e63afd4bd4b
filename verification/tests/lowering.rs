//! Whole-module lowering: every construct compiles, and the lowered
//! modules have the shapes the design promises.

use lowering::compile::compile;
use lowering::ir::{
    Alternative, ArithmeticOperation, ArithmeticOperator, Argument, CallingConvention, Case,
    Definition, Expression, FunctionApplication, If, Let, LetRecursive, Number, Record,
    RecordElement, Variable, Variant,
};
use lowering::module::{
    Declaration, ForeignDeclaration, ForeignDefinition, Module, TypeDefinition,
};
use lowering::target::{Instruction, TargetModule, TerminalInstruction};
use lowering::types::{FunctionType, RecordContent, RecordType, Type};

fn var(name: &str) -> Expression {
    Expression::Variable(Variable::new(name))
}

fn num(value: f64) -> Expression {
    Expression::Number(Number::new(value.to_bits()))
}

fn apply(function: Expression, argument: Expression) -> Expression {
    Expression::FunctionApplication(FunctionApplication::new(function, argument))
}

fn number_to_number() -> FunctionType {
    FunctionType::new(Type::Number, Type::Number)
}

fn module_with_definitions(definitions: Vec<Definition>) -> Module {
    Module::new(vec![], vec![], vec![], vec![], definitions)
}

fn module_with_type_definitions(
    type_definitions: Vec<TypeDefinition>,
    definitions: Vec<Definition>,
) -> Module {
    Module::new(type_definitions, vec![], vec![], vec![], definitions)
}

#[test]
fn compile_empty_module() {
    let target = compile(&Module::new(vec![], vec![], vec![], vec![], vec![])).unwrap();
    assert_eq!(target.function_definitions.len(), 0);
    assert_eq!(target.variable_definitions.len(), 0);
    assert_eq!(target.function_declarations.len(), 0);
    assert_eq!(target.variable_declarations.len(), 0);
}

#[test]
fn lib_compile() {
    compile(&Module::new(
        vec![],
        vec![ForeignDeclaration::new(
            "f",
            "g",
            number_to_number(),
            CallingConvention::Target,
        )],
        vec![],
        vec![],
        vec![],
    ))
    .unwrap();
}

#[test]
fn lib_compile_with_multiple_arguments() {
    compile(&Module::new(
        vec![],
        vec![ForeignDeclaration::new(
            "f",
            "g",
            FunctionType::new(Type::Number, Type::Function(number_to_number())),
            CallingConvention::Target,
        )],
        vec![],
        vec![],
        vec![],
    ))
    .unwrap();
}

#[test]
fn compile_with_source_calling_convention() {
    compile(&Module::new(
        vec![],
        vec![ForeignDeclaration::new(
            "f",
            "g",
            number_to_number(),
            CallingConvention::Source,
        )],
        vec![],
        vec![],
        vec![],
    ))
    .unwrap();
}

#[test]
fn compile_for_foreign_declaration() {
    compile(&Module::new(
        vec![],
        vec![ForeignDeclaration::new(
            "f",
            "g",
            number_to_number(),
            CallingConvention::Target,
        )],
        vec![ForeignDefinition::new("f", "h")],
        vec![],
        vec![],
    ))
    .unwrap();
}

#[test]
fn compile_for_declaration() {
    compile(&Module::new(
        vec![],
        vec![],
        vec![ForeignDefinition::new("f", "g")],
        vec![Declaration::new("f", number_to_number())],
        vec![],
    ))
    .unwrap();
}

#[test]
fn compile_for_definition() {
    compile(&Module::new(
        vec![],
        vec![],
        vec![ForeignDefinition::new("f", "g")],
        vec![],
        vec![Definition::new(
            "f",
            vec![Argument::new("x", Type::Number)],
            var("x"),
            Type::Number,
        )],
    ))
    .unwrap();
}

#[test]
fn compile_definition_module() {
    compile(&module_with_definitions(vec![Definition::new(
        "f",
        vec![Argument::new("x", Type::Number)],
        var("x"),
        Type::Number,
    )]))
    .unwrap();
}

#[test]
fn compile_definition_with_multiple_arguments() {
    compile(&module_with_definitions(vec![Definition::new(
        "f",
        vec![
            Argument::new("x", Type::Number),
            Argument::new("y", Type::Number),
        ],
        Expression::ArithmeticOperation(ArithmeticOperation::new(
            ArithmeticOperator::Add,
            var("x"),
            var("y"),
        )),
        Type::Number,
    )]))
    .unwrap();
}

#[test]
fn compile_declaration_module() {
    compile(&Module::new(
        vec![],
        vec![],
        vec![],
        vec![Declaration::new("f", number_to_number())],
        vec![],
    ))
    .unwrap();
}

#[test]
fn compile_declaration_with_multiple_arguments() {
    compile(&Module::new(
        vec![],
        vec![],
        vec![],
        vec![Declaration::new(
            "f",
            FunctionType::new(Type::Number, Type::Function(number_to_number())),
        )],
        vec![],
    ))
    .unwrap();
}

#[test]
fn compile_thunk() {
    compile(&module_with_definitions(vec![
        Definition::thunk(
            "f",
            vec![Argument::new("x", Type::Number)],
            var("x"),
            Type::Number,
        ),
        Definition::new(
            "g",
            vec![Argument::new("x", Type::Number)],
            apply(var("f"), var("x")),
            Type::Number,
        ),
    ]))
    .unwrap();
}

#[test]
fn compile_let() {
    compile(&module_with_definitions(vec![Definition::new(
        "f",
        vec![Argument::new("x", Type::Number)],
        Expression::Let(Let::new("y", Type::Number, var("x"), var("y"))),
        Type::Number,
    )]))
    .unwrap();
}

#[test]
fn compile_let_recursive() {
    compile(&module_with_definitions(vec![Definition::new(
        "f",
        vec![Argument::new("x", Type::Number)],
        Expression::LetRecursive(LetRecursive::new(
            Definition::with_environment(
                "g",
                vec![Argument::new("x", Type::Number)],
                vec![Argument::new("y", Type::Number)],
                Expression::ArithmeticOperation(ArithmeticOperation::new(
                    ArithmeticOperator::Add,
                    var("x"),
                    var("y"),
                )),
                Type::Number,
            ),
            apply(var("g"), num(42.0)),
        )),
        Type::Number,
    )]))
    .unwrap();
}

#[test]
fn compile_nested_let_recursive() {
    compile(&module_with_definitions(vec![Definition::new(
        "f",
        vec![Argument::new("x", Type::Number)],
        Expression::LetRecursive(LetRecursive::new(
            Definition::with_environment(
                "g",
                vec![Argument::new("x", Type::Number)],
                vec![Argument::new("y", Type::Number)],
                Expression::ArithmeticOperation(ArithmeticOperation::new(
                    ArithmeticOperator::Add,
                    var("x"),
                    var("y"),
                )),
                Type::Number,
            ),
            Expression::LetRecursive(LetRecursive::new(
                Definition::with_environment(
                    "h",
                    vec![Argument::new("g", Type::Function(number_to_number()))],
                    vec![Argument::new("z", Type::Number)],
                    apply(var("g"), var("z")),
                    Type::Number,
                ),
                apply(var("h"), num(42.0)),
            )),
        )),
        Type::Number,
    )]))
    .unwrap();
}

#[test]
fn compile_let_recursive_with_curried_function() {
    compile(&module_with_definitions(vec![Definition::new(
        "f",
        vec![Argument::new("x", Type::Number)],
        Expression::LetRecursive(LetRecursive::new(
            Definition::with_environment(
                "g",
                vec![Argument::new("x", Type::Number)],
                vec![Argument::new("y", Type::Number)],
                Expression::LetRecursive(LetRecursive::new(
                    Definition::with_environment(
                        "h",
                        vec![
                            Argument::new("x", Type::Number),
                            Argument::new("y", Type::Number),
                        ],
                        vec![Argument::new("z", Type::Number)],
                        Expression::ArithmeticOperation(ArithmeticOperation::new(
                            ArithmeticOperator::Add,
                            Expression::ArithmeticOperation(ArithmeticOperation::new(
                                ArithmeticOperator::Add,
                                var("x"),
                                var("y"),
                            )),
                            var("z"),
                        )),
                        Type::Number,
                    ),
                    var("h"),
                )),
                Type::Function(number_to_number()),
            ),
            apply(apply(var("g"), num(42.0)), num(42.0)),
        )),
        Type::Number,
    )]))
    .unwrap();
}

#[test]
fn lib_compile_with_float_64() {
    compile(&module_with_definitions(vec![Definition::new(
        "f",
        vec![Argument::new("x", Type::Variant)],
        Expression::Case(Case::new(
            var("x"),
            vec![Alternative::new(Type::Number, "y", var("y"))],
            None,
        )),
        Type::Number,
    )]))
    .unwrap();
}

#[test]
fn lib_compile_with_unboxed_record() {
    let record_type = RecordType::new("foo");
    compile(&module_with_type_definitions(
        vec![TypeDefinition::new(
            "foo",
            RecordContent::new(vec![Type::Number]),
        )],
        vec![Definition::new(
            "f",
            vec![Argument::new("x", Type::Variant)],
            Expression::Case(Case::new(
                var("x"),
                vec![Alternative::new(
                    Type::Record(record_type.clone()),
                    "x",
                    var("x"),
                )],
                None,
            )),
            Type::Record(record_type),
        )],
    ))
    .unwrap();
}

#[test]
fn compile_with_boxed_record() {
    let record_type = RecordType::new("foo");
    compile(&module_with_type_definitions(
        vec![TypeDefinition::new(
            "foo",
            RecordContent::new(vec![Type::Number]),
        )],
        vec![Definition::new(
            "f",
            vec![Argument::new("x", Type::Variant)],
            Expression::Case(Case::new(
                var("x"),
                vec![Alternative::new(
                    Type::Record(record_type.clone()),
                    "x",
                    var("x"),
                )],
                None,
            )),
            Type::Record(record_type),
        )],
    ))
    .unwrap();
}

#[test]
fn lib_compile_with_string() {
    compile(&module_with_definitions(vec![Definition::new(
        "f",
        vec![Argument::new("x", Type::Variant)],
        Expression::Case(Case::new(
            var("x"),
            vec![Alternative::new(Type::ByteString, "y", var("y"))],
            None,
        )),
        Type::ByteString,
    )]))
    .unwrap();
}

#[test]
fn compile_with_no_element() {
    let record_type = RecordType::new("foo");
    compile(&module_with_type_definitions(
        vec![TypeDefinition::new("foo", RecordContent::new(vec![]))],
        vec![Definition::new(
            "f",
            vec![Argument::new("x", Type::Number)],
            Expression::Record(Record::new(record_type.clone(), vec![])),
            Type::Record(record_type),
        )],
    ))
    .unwrap();
}

#[test]
fn compile_with_1_element() {
    let record_type = RecordType::new("foo");
    compile(&module_with_type_definitions(
        vec![TypeDefinition::new(
            "foo",
            RecordContent::new(vec![Type::Number]),
        )],
        vec![Definition::new(
            "f",
            vec![Argument::new("x", Type::Number)],
            Expression::Record(Record::new(record_type.clone(), vec![num(42.0)])),
            Type::Record(record_type),
        )],
    ))
    .unwrap();
}

#[test]
fn compile_with_2_elements() {
    let record_type = RecordType::new("foo");
    compile(&module_with_type_definitions(
        vec![TypeDefinition::new(
            "foo",
            RecordContent::new(vec![Type::Number, Type::Boolean]),
        )],
        vec![Definition::new(
            "f",
            vec![Argument::new("x", Type::Number)],
            Expression::Record(Record::new(
                record_type.clone(),
                vec![num(42.0), Expression::Boolean(true)],
            )),
            Type::Record(record_type),
        )],
    ))
    .unwrap();
}

#[test]
fn compile_boxed() {
    let record_type = RecordType::new("foo");
    compile(&module_with_type_definitions(
        vec![TypeDefinition::new(
            "foo",
            RecordContent::new(vec![Type::Number]),
        )],
        vec![Definition::new(
            "f",
            vec![Argument::new("x", Type::Number)],
            Expression::Record(Record::new(record_type.clone(), vec![num(42.0)])),
            Type::Record(record_type),
        )],
    ))
    .unwrap();
}

#[test]
fn compile_with_1_element_record() {
    let record_type = RecordType::new("foo");
    compile(&module_with_type_definitions(
        vec![TypeDefinition::new(
            "foo",
            RecordContent::new(vec![Type::Number]),
        )],
        vec![Definition::new(
            "f",
            vec![Argument::new("x", Type::Record(record_type.clone()))],
            Expression::RecordElement(RecordElement::new(record_type, 0, var("x"))),
            Type::Number,
        )],
    ))
    .unwrap();
}

#[test]
fn compile_with_2_element_record() {
    let record_type = RecordType::new("foo");
    compile(&module_with_type_definitions(
        vec![TypeDefinition::new(
            "foo",
            RecordContent::new(vec![Type::Boolean, Type::Number]),
        )],
        vec![Definition::new(
            "f",
            vec![Argument::new("x", Type::Record(record_type.clone()))],
            Expression::RecordElement(RecordElement::new(record_type, 1, var("x"))),
            Type::Number,
        )],
    ))
    .unwrap();
}

#[test]
fn compile_variant_with_float_64() {
    compile(&module_with_definitions(vec![Definition::new(
        "f",
        vec![Argument::new("x", Type::Number)],
        Expression::Variant(Variant::new(Type::Number, num(42.0))),
        Type::Variant,
    )]))
    .unwrap();
}

#[test]
fn compile_with_empty_unboxed_record() {
    let record_type = RecordType::new("foo");
    compile(&module_with_type_definitions(
        vec![TypeDefinition::new("foo", RecordContent::new(vec![]))],
        vec![Definition::new(
            "f",
            vec![Argument::new("x", Type::Record(record_type.clone()))],
            Expression::Variant(Variant::new(
                Type::Record(record_type.clone()),
                Expression::Record(Record::new(record_type, vec![])),
            )),
            Type::Variant,
        )],
    ))
    .unwrap();
}

#[test]
fn compile_variant_with_unboxed_record() {
    let record_type = RecordType::new("foo");
    compile(&module_with_type_definitions(
        vec![TypeDefinition::new(
            "foo",
            RecordContent::new(vec![Type::Number]),
        )],
        vec![Definition::new(
            "f",
            vec![Argument::new("x", Type::Record(record_type.clone()))],
            Expression::Variant(Variant::new(
                Type::Record(record_type.clone()),
                Expression::Record(Record::new(record_type, vec![num(42.0)])),
            )),
            Type::Variant,
        )],
    ))
    .unwrap();
}

#[test]
fn compile_variant_with_string() {
    compile(&module_with_type_definitions(
        vec![],
        vec![Definition::new(
            "f",
            vec![Argument::new("x", Type::Number)],
            Expression::Variant(Variant::new(
                Type::ByteString,
                Expression::ByteString(lowering::ir::ByteString::new(b"foo".to_vec())),
            )),
            Type::Variant,
        )],
    ))
    .unwrap();
}

#[test]
fn compile_1_argument() {
    compile(&module_with_definitions(vec![
        Definition::new(
            "f",
            vec![Argument::new("x", Type::Number)],
            var("x"),
            Type::Number,
        ),
        Definition::new(
            "g",
            vec![Argument::new("x", Type::Number)],
            apply(var("f"), num(42.0)),
            Type::Number,
        ),
    ]))
    .unwrap();
}

#[test]
fn compile_2_arguments() {
    compile(&module_with_definitions(vec![
        Definition::new(
            "f",
            vec![
                Argument::new("x", Type::Number),
                Argument::new("y", Type::Boolean),
            ],
            var("x"),
            Type::Number,
        ),
        Definition::new(
            "g",
            vec![Argument::new("x", Type::Number)],
            apply(apply(var("f"), num(42.0)), Expression::Boolean(true)),
            Type::Number,
        ),
    ]))
    .unwrap();
}

#[test]
fn compile_3_arguments() {
    compile(&module_with_definitions(vec![
        Definition::new(
            "f",
            vec![
                Argument::new("x", Type::Number),
                Argument::new("y", Type::Boolean),
                Argument::new("z", Type::ByteString),
            ],
            var("x"),
            Type::Number,
        ),
        Definition::new(
            "g",
            vec![Argument::new("x", Type::Number)],
            apply(
                apply(apply(var("f"), num(42.0)), Expression::Boolean(true)),
                Expression::ByteString(lowering::ir::ByteString::new(b"foo".to_vec())),
            ),
            Type::Number,
        ),
    ]))
    .unwrap();
}

#[test]
fn compile_1_argument_with_arity_of_2() {
    compile(&module_with_definitions(vec![
        Definition::new(
            "f",
            vec![
                Argument::new("x", Type::Number),
                Argument::new("y", Type::Boolean),
            ],
            var("x"),
            Type::Number,
        ),
        Definition::new(
            "g",
            vec![Argument::new("x", Type::Number)],
            apply(var("f"), num(42.0)),
            Type::Function(FunctionType::new(Type::Boolean, Type::Number)),
        ),
    ]))
    .unwrap();
}

#[test]
fn compile_1_argument_with_arity_of_3() {
    compile(&module_with_definitions(vec![
        Definition::new(
            "f",
            vec![
                Argument::new("x", Type::Number),
                Argument::new("y", Type::Boolean),
                Argument::new("z", Type::ByteString),
            ],
            var("x"),
            Type::Number,
        ),
        Definition::new(
            "g",
            vec![Argument::new("x", Type::Number)],
            apply(var("f"), num(42.0)),
            Type::Function(FunctionType::new(
                Type::Boolean,
                Type::Function(FunctionType::new(Type::ByteString, Type::Number)),
            )),
        ),
    ]))
    .unwrap();
}

#[test]
fn compile_2_arguments_with_arity_of_3() {
    compile(&module_with_definitions(vec![
        Definition::new(
            "f",
            vec![
                Argument::new("x", Type::Number),
                Argument::new("y", Type::Boolean),
                Argument::new("z", Type::ByteString),
            ],
            var("x"),
            Type::Number,
        ),
        Definition::new(
            "g",
            vec![Argument::new("x", Type::Number)],
            apply(apply(var("f"), num(42.0)), Expression::Boolean(true)),
            Type::Function(FunctionType::new(Type::ByteString, Type::Number)),
        ),
    ]))
    .unwrap();
}

#[test]
fn compile_with_curried_function() {
    compile(&module_with_definitions(vec![
        Definition::new(
            "f",
            vec![Argument::new("x", Type::Number)],
            Expression::LetRecursive(LetRecursive::new(
                Definition::with_environment(
                    "g",
                    vec![Argument::new("x", Type::Number)],
                    vec![Argument::new("y", Type::Number)],
                    Expression::ArithmeticOperation(ArithmeticOperation::new(
                        ArithmeticOperator::Add,
                        var("x"),
                        var("y"),
                    )),
                    Type::Number,
                ),
                var("g"),
            )),
            Type::Function(number_to_number()),
        ),
        Definition::new(
            "g",
            vec![Argument::new("x", Type::Number)],
            apply(apply(var("f"), num(111.0)), num(222.0)),
            Type::Number,
        ),
    ]))
    .unwrap();
}

#[test]
fn compile_if() {
    compile(&module_with_definitions(vec![Definition::new(
        "f",
        vec![Argument::new("x", Type::Number)],
        Expression::If(If::new(Expression::Boolean(true), num(42.0), num(42.0))),
        Type::Number,
    )]))
    .unwrap();
}

#[test]
fn clone_and_drop_strings() {
    compile(&module_with_definitions(vec![
        Definition::new(
            "f",
            vec![
                Argument::new("x", Type::ByteString),
                Argument::new("y", Type::ByteString),
            ],
            num(42.0),
            Type::Number,
        ),
        Definition::new(
            "g",
            vec![Argument::new("x", Type::ByteString)],
            apply(apply(var("f"), var("x")), var("x")),
            Type::Number,
        ),
    ]))
    .unwrap();
}

fn identity_module() -> Module {
    module_with_definitions(vec![Definition::new(
        "f",
        vec![Argument::new("x", Type::Number)],
        var("x"),
        Type::Number,
    )])
}

#[test]
fn identity_function_lowers_to_one_source_function() {
    let target = compile(&identity_module()).unwrap();
    let source_functions: Vec<_> = target
        .function_definitions
        .iter()
        .filter(|definition| definition.calling_convention == CallingConvention::Source)
        .collect();
    assert_eq!(source_functions.len(), 1);
    let entry = source_functions[0];
    // The body loads no environment and returns the argument unchanged.
    assert!(entry
        .body
        .instructions
        .iter()
        .all(|instruction| !matches!(instruction, Instruction::Load(_, _))));
    match &entry.body.terminal {
        TerminalInstruction::Return(value) => match &value.expression {
            lowering::target::TargetExpression::Variable(name) => assert_eq!(name, "x"),
            other => panic!("expected a variable, got {:?}", other),
        },
        other => panic!("expected a return, got {:?}", other),
    }
    // One global closure for the definition.
    assert_eq!(target.variable_definitions.len(), 1);
    assert_eq!(target.variable_definitions[0].name, "f");
}

#[test]
fn thunk_lowers_to_three_state_protocol() {
    let target = compile(&module_with_definitions(vec![Definition::thunk(
        "t",
        vec![],
        num(42.0),
        Type::Number,
    )]))
    .unwrap();
    // The thunk's global is mutable: forcing rewrites it.
    assert_eq!(target.variable_definitions.len(), 1);
    assert!(target.variable_definitions[0].mutable);
    // The initial entry performs a compare-and-swap, acquire on success,
    // relaxed on failure, and publishes the settled entry with release
    // ordering.
    let initial = target
        .function_definitions
        .iter()
        .find(|definition| {
            definition
                .body
                .instructions
                .iter()
                .any(|instruction| matches!(instruction, Instruction::CompareAndSwap(..)))
        })
        .expect("an entry with a compare-and-swap");
    assert_eq!(initial.calling_convention, CallingConvention::Source);
    let cas = initial
        .body
        .instructions
        .iter()
        .find_map(|instruction| match instruction {
            Instruction::CompareAndSwap(_, _, _, success, failure, _) => Some((success, failure)),
            _ => None,
        })
        .unwrap();
    assert_eq!(*cas.0, lowering::target::AtomicOrdering::Acquire);
    assert_eq!(*cas.1, lowering::target::AtomicOrdering::Relaxed);
    fn find_atomic_store(instructions: &[Instruction]) -> Option<lowering::target::AtomicOrdering> {
        for instruction in instructions {
            match instruction {
                Instruction::AtomicStore(_, _, ordering) => return Some(*ordering),
                Instruction::If(_, then_block, else_block, _, _) => {
                    if let Some(ordering) = find_atomic_store(&then_block.instructions) {
                        return Some(ordering);
                    }
                    if let Some(ordering) = find_atomic_store(&else_block.instructions) {
                        return Some(ordering);
                    }
                }
                _ => {}
            }
        }
        None
    }
    assert_eq!(
        find_atomic_store(&initial.body.instructions),
        Some(lowering::target::AtomicOrdering::Release),
    );
}

#[test]
fn variant_type_info_globals_are_emitted() {
    let target = compile(&module_with_definitions(vec![Definition::new(
        "f",
        vec![Argument::new("x", Type::Number)],
        Expression::Variant(Variant::new(Type::Number, num(42.0))),
        Type::Variant,
    )]))
    .unwrap();
    // One type-info global for the payload type, with its clone and drop.
    assert_eq!(
        target
            .variable_definitions
            .iter()
            .filter(|definition| definition.name == "Number")
            .count(),
        1,
    );
    assert!(target
        .function_definitions
        .iter()
        .any(|definition| definition.name == "variant_clone_Number"));
    assert!(target
        .function_definitions
        .iter()
        .any(|definition| definition.name == "variant_drop_Number"));
}

#[test]
fn record_clone_and_drop_functions_are_emitted() {
    let target = compile(&module_with_type_definitions(
        vec![TypeDefinition::new(
            "foo",
            RecordContent::new(vec![Type::Number]),
        )],
        vec![],
    ))
    .unwrap();
    assert!(target
        .function_definitions
        .iter()
        .any(|definition| definition.name == "rc_clone_foo"));
    assert!(target
        .function_definitions
        .iter()
        .any(|definition| definition.name == "rc_drop_foo"));
}

#[test]
fn boxed_record_construction_allocates() {
    let target = compile(&module_with_type_definitions(
        vec![TypeDefinition::new(
            "foo",
            RecordContent::new(vec![Type::Number]),
        )],
        vec![Definition::new(
            "f",
            vec![Argument::new("x", Type::Number)],
            Expression::Record(Record::new(RecordType::new("foo"), vec![num(42.0)])),
            Type::Record(RecordType::new("foo")),
        )],
    ))
    .unwrap();
    fn any_allocate(instructions: &[Instruction]) -> bool {
        instructions.iter().any(|instruction| match instruction {
            Instruction::AllocateHeap(_, _) => true,
            Instruction::If(_, then_block, else_block, _, _) => {
                any_allocate(&then_block.instructions) || any_allocate(&else_block.instructions)
            }
            _ => false,
        })
    }
    assert!(target
        .function_definitions
        .iter()
        .any(|definition| any_allocate(&definition.body.instructions)));
}

#[test]
fn empty_record_construction_does_not_allocate() {
    let target = compile(&module_with_type_definitions(
        vec![TypeDefinition::new("foo", RecordContent::new(vec![]))],
        vec![Definition::new(
            "f",
            vec![Argument::new("x", Type::Number)],
            Expression::Record(Record::new(RecordType::new("foo"), vec![])),
            Type::Record(RecordType::new("foo")),
        )],
    ))
    .unwrap();
    fn any_allocate(instructions: &[Instruction]) -> bool {
        instructions.iter().any(|instruction| match instruction {
            Instruction::AllocateHeap(_, _) => true,
            Instruction::If(_, then_block, else_block, _, _) => {
                any_allocate(&then_block.instructions) || any_allocate(&else_block.instructions)
            }
            _ => false,
        })
    }
    let entry = target
        .function_definitions
        .iter()
        .find(|definition| definition.calling_convention == CallingConvention::Source)
        .unwrap();
    assert!(!any_allocate(&entry.body.instructions));
}

#[test]
fn partial_application_builds_a_closure() {
    // A two-argument function given one argument yields a partial
    // closure whose entry awaits the remaining argument.
    let target = compile(&module_with_definitions(vec![
        Definition::new(
            "f",
            vec![
                Argument::new("x", Type::Number),
                Argument::new("y", Type::Boolean),
            ],
            var("x"),
            Type::Number,
        ),
        Definition::new(
            "g",
            vec![Argument::new("x", Type::Number)],
            apply(var("f"), num(42.0)),
            Type::Function(FunctionType::new(Type::Boolean, Type::Number)),
        ),
    ]))
    .unwrap();
    fn any_allocate(instructions: &[Instruction]) -> bool {
        instructions.iter().any(|instruction| match instruction {
            Instruction::AllocateHeap(_, _) => true,
            Instruction::If(_, then_block, else_block, _, _) => {
                any_allocate(&then_block.instructions) || any_allocate(&else_block.instructions)
            }
            _ => false,
        })
    }
    // The under-saturated call site allocates the partial closure.
    assert!(target
        .function_definitions
        .iter()
        .any(|definition| any_allocate(&definition.body.instructions)));
}

#[test]
fn rejects_annotated_input() {
    let module = module_with_definitions(vec![Definition::new(
        "f",
        vec![Argument::new("x", Type::Number)],
        Expression::DropVariables(lowering::ir::DropVariables::new(
            {
                let mut s = lowering::vars::VariableSet::new();
                s.insert("x");
                s
            },
            num(42.0),
        )),
        Type::Number,
    )]);
    assert!(matches!(
        compile(&module),
        Err(lowering::lower::CompileError::ReferenceCount(_)),
    ));
}

#[test]
fn rejects_nested_variant() {
    let module = module_with_definitions(vec![Definition::new(
        "f",
        vec![Argument::new("x", Type::Variant)],
        Expression::Variant(Variant::new(Type::Variant, var("x"))),
        Type::Variant,
    )]);
    assert!(matches!(
        compile(&module),
        Err(lowering::lower::CompileError::NestedVariant),
    ));
}

#[test]
fn rejects_unbound_variable() {
    let module = module_with_definitions(vec![Definition::new(
        "f",
        vec![Argument::new("x", Type::Number)],
        var("y"),
        Type::Number,
    )]);
    assert!(matches!(
        compile(&module),
        Err(lowering::lower::CompileError::Build),
    ));
}

#[test]
fn exact_call_loads_the_entry_atomically() {
    // A saturated call goes through an acquire load of the entry pointer,
    // respecting the thunk protocol, then one call.
    let target = compile(&module_with_definitions(vec![
        Definition::new(
            "f",
            vec![Argument::new("x", Type::Number)],
            var("x"),
            Type::Number,
        ),
        Definition::new(
            "g",
            vec![Argument::new("x", Type::Number)],
            apply(var("f"), num(42.0)),
            Type::Number,
        ),
    ]))
    .unwrap();
    let caller = target
        .function_definitions
        .iter()
        .filter(|definition| {
            definition
                .body
                .instructions
                .iter()
                .any(|instruction| matches!(instruction, Instruction::Call(..)))
        })
        .find(|definition| {
            definition.body.instructions.iter().any(|instruction| {
                matches!(
                    instruction,
                    Instruction::AtomicLoad(_, lowering::target::AtomicOrdering::Acquire, _),
                )
            })
        });
    assert!(caller.is_some());
}

#[test]
fn partial_application_drop_reads_every_capture() {
    // A two-argument function of strings given one string argument: the
    // partial closure's drop function must release the captured closure
    // and the captured string, which it reads from environment slots 0
    // and 1.
    let target = compile(&module_with_definitions(vec![
        Definition::new(
            "f",
            vec![
                Argument::new("x", Type::ByteString),
                Argument::new("y", Type::ByteString),
            ],
            num(42.0),
            Type::Number,
        ),
        Definition::new(
            "g",
            vec![Argument::new("x", Type::ByteString)],
            apply(var("f"), var("x")),
            Type::Function(FunctionType::new(Type::ByteString, Type::Number)),
        ),
    ]))
    .unwrap();
    fn reads_slot(instructions: &[Instruction], slot: usize) -> bool {
        instructions
            .iter()
            .any(|instruction| matches!(instruction, Instruction::DeconstructRecord(_, s, _) if *s == slot))
    }
    // Some emitted drop function reads both environment slots: the
    // captured closure (0) and the captured string argument (1).
    assert!(target.function_definitions.iter().any(|definition| {
        definition.calling_convention == CallingConvention::Target
            && reads_slot(&definition.body.instructions, 0)
            && reads_slot(&definition.body.instructions, 1)
    }));
}

#[test]
fn string_lowers_to_pointer_and_length_record() {
    let target = compile(&module_with_definitions(vec![Definition::new(
        "f",
        vec![Argument::new("x", Type::Number)],
        Expression::ByteString(lowering::ir::ByteString::new(b"abc".to_vec())),
        Type::ByteString,
    )]))
    .unwrap();
    // The bytes sit in a static global.
    assert!(target
        .variable_definitions
        .iter()
        .any(|definition| definition.linkage == lowering::target::Linkage::Internal));
    // The entry returns a two-element record whose second member is the
    // length.
    let entry = target
        .function_definitions
        .iter()
        .find(|definition| definition.calling_convention == CallingConvention::Source)
        .unwrap();
    match &entry.body.terminal {
        TerminalInstruction::Return(value) => match &value.expression {
            lowering::target::TargetExpression::Record(_, members) => {
                assert_eq!(members.len(), 2);
                assert_eq!(
                    members[1],
                    lowering::target::TargetExpression::PointerInteger(3),
                );
            }
            other => panic!("expected a record, got {:?}", other),
        },
        other => panic!("expected a return, got {:?}", other),
    }
}

#[test]
fn untag_clears_only_the_low_bit() {
    // The exact call of a saturated application goes through the untag
    // mask: an AND with the all-ones-but-lowest mask, never a plain XOR,
    // so untagged heap closures keep their address.
    let target = compile(&module_with_definitions(vec![
        Definition::new(
            "f",
            vec![Argument::new("x", Type::Number)],
            var("x"),
            Type::Number,
        ),
        Definition::new(
            "g",
            vec![Argument::new("x", Type::Number)],
            apply(var("f"), num(42.0)),
            Type::Number,
        ),
    ]))
    .unwrap();
    fn expression_has_mask(e: &lowering::target::TargetExpression) -> bool {
        match e {
            lowering::target::TargetExpression::BitwiseAnd(_, mask) => {
                matches!(**mask, lowering::target::TargetExpression::PointerInteger(-2))
            }
            lowering::target::TargetExpression::BitCast(_, _, inner) => expression_has_mask(inner),
            _ => false,
        }
    }
    fn any_mask(instructions: &[Instruction]) -> bool {
        instructions.iter().any(|instruction| match instruction {
            Instruction::RecordAddress(pointer, _, _) => expression_has_mask(&pointer.expression),
            Instruction::If(_, then_block, else_block, _, _) => {
                any_mask(&then_block.instructions) || any_mask(&else_block.instructions)
            }
            _ => false,
        })
    }
    assert!(target
        .function_definitions
        .iter()
        .any(|definition| any_mask(&definition.body.instructions)));
}
