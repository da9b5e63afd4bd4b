//! The whole lowering: reference-count annotation, type-info globals for
//! every variant type the module uses, per-record clone and drop
//! functions, foreign bindings, one global closure per definition, and
//! the compiled entry functions.

use crate::expressions::{
    compile_arity, compile_closure_payload, compile_entry_function,
    compile_function_application, scope_binds, VariableMap,
};
use crate::ir::{CallingConvention, Definition, Expression};
use crate::lower::{
    bit_cast, compile_record_clone_function, compile_record_drop_function, compile_tagged_pointer,
    compile_type_id, compile_type_information_global_variable, compile_type_or_void,
    duplicate_type, duplicate_typed, variable, CompileError,
};
use crate::lower_types::{
    compile_arity_type, compile_closure_drop_function, compile_untyped_closure_pointer,
    spec_lookup_elements, type_defs_view, void_type,
};
use crate::module::{Module, SpecTypeDefinition, TypeDefinition};
use crate::reference_count::count_references;
use crate::target::{
    defines_variable, module_extends, Block, Instruction, Linkage, ModuleContext, TargetExpression,
    TargetFunctionDefinition, TargetModule, TargetType, TargetVariableDeclaration,
    TargetVariableDefinition, TerminalInstruction, TypedExpression,
};
use crate::types::{FunctionType, Type};
use vstd::prelude::*;

verus! {

/// No two collected types share a string form, so each gets exactly one
/// type-info global.
pub open spec fn distinct_type_ids(s: Seq<Type>) -> bool {
    forall|i: int, j: int|
        0 <= i < j < s.len() ==> crate::lower::spec_type_id(#[trigger] s[i]@)
            != crate::lower::spec_type_id(#[trigger] s[j]@)
}

/// Collects the types the module uses as variant payloads or case
/// alternatives, one per distinct string form, well-formed ones only.
pub fn collect_variant_types(module: &Module, types: &Vec<TypeDefinition>) -> (r: Vec<Type>)
    ensures
        forall|i: int|
            0 <= i < r@.len() ==> crate::lower_types::spec_wf_type(
                #[trigger] r@[i]@,
                type_defs_view(types@),
            ),
        module.definitions@.len() == 0 ==> r@.len() == 0,
        distinct_type_ids(r@),
{
    let mut collected: Vec<Type> = Vec::new();
    let mut i: usize = 0;
    while i < module.definitions.len()
        invariant
            forall|k: int|
                0 <= k < collected@.len() ==> crate::lower_types::spec_wf_type(
                    #[trigger] collected@[k]@,
                    type_defs_view(types@),
                ),
            module.definitions@.len() == 0 ==> collected@.len() == 0,
            distinct_type_ids(collected@),
        decreases module.definitions.len() - i,
    {
        collect_expression_variant_types(&module.definitions[i].body, types, &mut collected);
        i += 1;
    }
    collected
}

/// Walks one expression for variant payload and case alternative types.
fn collect_expression_variant_types(
    expression: &Expression,
    types: &Vec<TypeDefinition>,
    collected: &mut Vec<Type>,
) -> (r: ())
    requires
        distinct_type_ids(old(collected)@),
        forall|k: int|
            0 <= k < old(collected)@.len() ==> crate::lower_types::spec_wf_type(
                #[trigger] old(collected)@[k]@,
                type_defs_view(types@),
            ),
    ensures
        distinct_type_ids(final(collected)@),
        forall|k: int|
            0 <= k < final(collected)@.len() ==> crate::lower_types::spec_wf_type(
                #[trigger] final(collected)@[k]@,
                type_defs_view(types@),
            ),
    decreases *expression,
{
    match expression {
        Expression::ArithmeticOperation(operation) => {
            collect_expression_variant_types(&operation.lhs, types, collected);
            collect_expression_variant_types(&operation.rhs, types, collected);
        },
        Expression::Boolean(_) => {},
        Expression::ByteString(_) => {},
        Expression::Case(case) => {
            collect_expression_variant_types(&case.argument, types, collected);
            collect_alternative_variant_types(
                &case.alternatives,
                case.alternatives.len(),
                types,
                collected,
            );
            match &case.default_alternative {
                Some(default) => {
                    collect_expression_variant_types(&default.expression, types, collected);
                },
                None => {},
            }
        },
        Expression::CloneVariables(clone) => {
            collect_expression_variant_types(&clone.expression, types, collected);
        },
        Expression::ComparisonOperation(operation) => {
            collect_expression_variant_types(&operation.lhs, types, collected);
            collect_expression_variant_types(&operation.rhs, types, collected);
        },
        Expression::DropVariables(drop) => {
            collect_expression_variant_types(&drop.expression, types, collected);
        },
        Expression::FunctionApplication(application) => {
            collect_expression_variant_types(&application.function, types, collected);
            collect_expression_variant_types(&application.argument, types, collected);
        },
        Expression::If(if_) => {
            collect_expression_variant_types(&if_.condition, types, collected);
            collect_expression_variant_types(&if_.then_, types, collected);
            collect_expression_variant_types(&if_.else_, types, collected);
        },
        Expression::Let(let_) => {
            collect_expression_variant_types(&let_.bound_expression, types, collected);
            collect_expression_variant_types(&let_.expression, types, collected);
        },
        Expression::LetRecursive(let_) => {
            collect_expression_variant_types(&let_.definition.body, types, collected);
            collect_expression_variant_types(&let_.expression, types, collected);
        },
        Expression::Number(_) => {},
        Expression::Record(record) => {
            collect_element_variant_types(&record.elements, record.elements.len(), types,
                collected);
        },
        Expression::RecordElement(element) => {
            collect_expression_variant_types(&element.record, types, collected);
        },
        Expression::Variable(_) => {},
        Expression::Variant(variant) => {
            collect_one_variant_type(&variant.type_, types, collected);
            collect_expression_variant_types(&variant.payload, types, collected);
        },
    }
}

/// Walks the first `n` alternatives for variant types.
fn collect_alternative_variant_types(
    alternatives: &Vec<crate::ir::Alternative>,
    n: usize,
    types: &Vec<TypeDefinition>,
    collected: &mut Vec<Type>,
) -> (r: ())
    requires
        distinct_type_ids(old(collected)@),
        n <= alternatives.len(),
        forall|k: int|
            0 <= k < old(collected)@.len() ==> crate::lower_types::spec_wf_type(
                #[trigger] old(collected)@[k]@,
                type_defs_view(types@),
            ),
    ensures
        distinct_type_ids(final(collected)@),
        forall|k: int|
            0 <= k < final(collected)@.len() ==> crate::lower_types::spec_wf_type(
                #[trigger] final(collected)@[k]@,
                type_defs_view(types@),
            ),
    decreases *alternatives, n,
{
    if n == 0 {
        return ;
    }
    collect_alternative_variant_types(alternatives, n - 1, types, collected);
    collect_one_variant_type(&alternatives[n - 1].type_, types, collected);
    collect_expression_variant_types(&alternatives[n - 1].expression, types, collected);
}

/// Walks the first `n` operands for variant types.
fn collect_element_variant_types(
    expressions: &Vec<Expression>,
    n: usize,
    types: &Vec<TypeDefinition>,
    collected: &mut Vec<Type>,
) -> (r: ())
    requires
        distinct_type_ids(old(collected)@),
        n <= expressions.len(),
        forall|k: int|
            0 <= k < old(collected)@.len() ==> crate::lower_types::spec_wf_type(
                #[trigger] old(collected)@[k]@,
                type_defs_view(types@),
            ),
    ensures
        distinct_type_ids(final(collected)@),
        forall|k: int|
            0 <= k < final(collected)@.len() ==> crate::lower_types::spec_wf_type(
                #[trigger] final(collected)@[k]@,
                type_defs_view(types@),
            ),
    decreases *expressions, n,
{
    if n == 0 {
        return ;
    }
    collect_element_variant_types(expressions, n - 1, types, collected);
    collect_expression_variant_types(&expressions[n - 1], types, collected);
}

/// Adds one type unless its string form is already present or it is not
/// well-formed.
fn collect_one_variant_type(
    type_: &Type,
    types: &Vec<TypeDefinition>,
    collected: &mut Vec<Type>,
) -> (r: ())
    requires
        distinct_type_ids(old(collected)@),
        forall|k: int|
            0 <= k < old(collected)@.len() ==> crate::lower_types::spec_wf_type(
                #[trigger] old(collected)@[k]@,
                type_defs_view(types@),
            ),
    ensures
        distinct_type_ids(final(collected)@),
        forall|k: int|
            0 <= k < final(collected)@.len() ==> crate::lower_types::spec_wf_type(
                #[trigger] final(collected)@[k]@,
                type_defs_view(types@),
            ),
{
    if !crate::lower::check_wf_type(type_, types) {
        return ;
    }
    let id = compile_type_id(type_);
    let mut i: usize = 0;
    while i < collected.len()
        invariant
            0 <= i <= collected@.len(),
            forall|k: int|
                0 <= k < collected@.len() ==> crate::lower_types::spec_wf_type(
                    #[trigger] collected@[k]@,
                    type_defs_view(types@),
                ),
            collected@ == old(collected)@,
            distinct_type_ids(collected@),
            id@ == crate::lower::spec_type_id(type_@),
            forall|k: int|
                0 <= k < i ==> crate::lower::spec_type_id(#[trigger] collected@[k]@) != id@,
        decreases collected.len() - i,
    {
        if compile_type_id(&collected[i]) == id {
            return ;
        }
        i += 1;
    }
    let ghost c0 = collected@;
    collected.push(type_.clone());
    proof {
        assert(collected@ == c0.push(collected@.last()));
        assert(collected@.last()@ == type_@);
        assert(distinct_type_ids(collected@)) by {
            assert forall|a: int, b: int|
                0 <= a < b < collected@.len() implies crate::lower::spec_type_id(
                #[trigger] collected@[a]@,
            ) != crate::lower::spec_type_id(#[trigger] collected@[b]@) by {
                if b < collected@.len() - 1 {
                    assert(collected@[a] == c0[a]);
                    assert(collected@[b] == c0[b]);
                } else {
                    assert(collected@[a] == c0[a]);
                    assert(crate::lower::spec_type_id(collected@[b]@) == id@);
                }
            }
        }
    }
}

/// Declares a function defined in another unit: its global closure.
pub fn compile_declaration(
    ctx: &mut ModuleContext,
    declaration: &crate::module::Declaration,
    types: &Vec<TypeDefinition>,
) -> (r: ())
    ensures
        module_extends(old(ctx).module, final(ctx).module),
        final(ctx).module.function_definitions == old(ctx).module.function_definitions,
        final(ctx).module.variable_definitions == old(ctx).module.variable_definitions,
        final(ctx).module.variable_declarations@.len() == old(
            ctx,
        ).module.variable_declarations@.len() + 1,
        final(ctx).module.variable_declarations@.last().name@ == declaration.name@,
{
    let type_ = Type::Function(declaration.type_.clone());
    ctx.add_variable_declaration(
        TargetVariableDeclaration {
            name: declaration.name.clone(),
            type_: match compile_type_or_void(&type_, types) {
                TargetType::Pointer(inner) => *inner,
                other => other,
            },
        },
    );
}

/// Defines the closure global of one foreign declaration: a degenerate
/// closure whose entry calls the foreign function under its own calling
/// convention, with an undefined drop function and environment.
/// The degenerate closure global of a foreign declaration: the entry
/// reference, an undefined drop function, the arity, an undefined
/// environment; internal and immutable.
pub open spec fn foreign_closure_shape(
    d: crate::target::TargetVariableDefinition,
    name: Seq<char>,
) -> bool {
    &&& d.name@ == name
    &&& d.linkage == Linkage::Internal
    &&& !d.mutable
    &&& d.body.expression matches TargetExpression::Record(_, members) && members@.len() == 4 && (
    members@[0] matches TargetExpression::Variable(_)) && (members@[1]
        matches TargetExpression::Undefined(_)) && (members@[2]
        matches TargetExpression::PointerInteger(_)) && (members@[3]
        matches TargetExpression::Undefined(_))
}

pub fn compile_foreign_declaration(
    ctx: &mut ModuleContext,
    declaration: &crate::module::ForeignDeclaration,
    types: &Vec<TypeDefinition>,
) -> (r: ())
    ensures
        module_extends(old(ctx).module, final(ctx).module),
        defines_variable(final(ctx).module, declaration.name@),
        foreign_closure_shape(
            final(ctx).module.variable_definitions@.last(),
            declaration.name@,
        ),
        final(ctx).module.function_declarations@.len() == old(
            ctx,
        ).module.function_declarations@.len() + 1,
        final(ctx).module.function_declarations@.last().name@ == declaration.foreign_name@,
        final(ctx).module.function_declarations@.last().type_.calling_convention
            == declaration.calling_convention,
{
    // The foreign function type under the declared convention.
    let mut foreign_arguments: Vec<TargetType> = Vec::new();
    let mut argument_types: Vec<Type> = Vec::new();
    let mut walker: &Type = &Type::Boolean;
    let function_type = Type::Function(declaration.type_.clone());
    let mut entry_arguments: Vec<(String, TargetType)> = Vec::new();
    entry_arguments.push(("_closure".to_owned(), compile_untyped_closure_pointer()));
    push_curried_argument_types(&declaration.type_, types, &mut argument_types);
    let mut i: usize = 0;
    while i < argument_types.len()
        invariant
            ctx.module == old(ctx).module,
            entry_arguments@.len() == i + 1,
        decreases argument_types.len() - i,
    {
        let lowered = compile_type_or_void(&argument_types[i], types);
        foreign_arguments.push(duplicate_type(&lowered));
        let mut argument_name = "a".to_owned();
        argument_name.append(crate::target::decimal_string(i as u64).as_str());
        entry_arguments.push((argument_name, lowered));
        i += 1;
    }
    let result_type = compile_type_or_void(&curried_result_type(&declaration.type_), types);
    let foreign_type = crate::target::TargetFunctionType {
        arguments: foreign_arguments,
        result: Box::new(duplicate_type(&result_type)),
        calling_convention: declaration.calling_convention,
    };
    ctx.add_function_declaration(
        crate::target::TargetFunctionDeclaration {
            name: declaration.foreign_name.clone(),
            type_: foreign_type,
        },
    );
    // The entry function forwarding to it.
    let mut instructions: Vec<Instruction> = Vec::new();
    let mut call_arguments: Vec<TypedExpression> = Vec::new();
    let mut j: usize = 1;
    while j < entry_arguments.len()
        invariant
            1 <= j,
        decreases entry_arguments.len() - j,
    {
        call_arguments.push(
            variable(&entry_arguments[j].0, duplicate_type(&entry_arguments[j].1)),
        );
        j += 1;
    }
    let mut foreign_arguments2: Vec<TargetType> = Vec::new();
    let mut k: usize = 1;
    while k < entry_arguments.len()
        decreases entry_arguments.len() - k,
    {
        foreign_arguments2.push(duplicate_type(&entry_arguments[k].1));
        k += 1;
    }
    let call_name = ctx.generate_name();
    instructions.push(
        Instruction::Call(
            variable(
                &declaration.foreign_name,
                TargetType::Function(
                    crate::target::TargetFunctionType {
                        arguments: foreign_arguments2,
                        result: Box::new(duplicate_type(&result_type)),
                        calling_convention: declaration.calling_convention,
                    },
                ),
            ),
            call_arguments,
            call_name.clone(),
        ),
    );
    let entry_name = ctx.generate_name();
    ctx.add_function_definition(
        TargetFunctionDefinition {
            name: entry_name.clone(),
            arguments: entry_arguments,
            result_type: duplicate_type(&result_type),
            body: Block {
                instructions,
                terminal: TerminalInstruction::Return(
                    variable(&call_name, duplicate_type(&result_type)),
                ),
            },
            calling_convention: CallingConvention::Source,
            linkage: Linkage::Internal,
        },
    );
    // The degenerate closure global.
    let entry_type = compile_type_or_void(&function_type, types);
    let entry_fn_type = match &entry_type {
        TargetType::Pointer(inner) => match &**inner {
            TargetType::Record(es) => {
                if es.len() == 4 {
                    duplicate_type(&es[0])
                } else {
                    void_type()
                }
            },
            _ => void_type(),
        },
        _ => void_type(),
    };
    let mut closure_types: Vec<TargetType> = Vec::new();
    closure_types.push(duplicate_type(&entry_fn_type));
    closure_types.push(compile_closure_drop_function());
    closure_types.push(compile_arity_type());
    closure_types.push(void_type());
    let mut closure_values: Vec<TargetExpression> = Vec::new();
    closure_values.push(TargetExpression::Variable(entry_name));
    closure_values.push(TargetExpression::Undefined(compile_closure_drop_function()));
    closure_values.push(compile_arity(argument_types.len()).expression);
    closure_values.push(TargetExpression::Undefined(void_type()));
    ctx.add_variable_definition(
        TargetVariableDefinition {
            name: declaration.name.clone(),
            body: TypedExpression {
                expression: TargetExpression::Record(
                    crate::lower::duplicate_types(&closure_types),
                    closure_values,
                ),
                type_: TargetType::Record(closure_types),
            },
            mutable: false,
            linkage: Linkage::Internal,
        },
    );
    proof {
        let m = ctx.module;
        assert(m.variable_definitions@[m.variable_definitions@.len() - 1].name@
            == declaration.name@);
    }
}

/// The curried argument types of a function type.
fn push_curried_argument_types(
    function: &FunctionType,
    types: &Vec<TypeDefinition>,
    out: &mut Vec<Type>,
) -> (r: ())
    decreases *function,
{
    out.push((*function.argument).clone());
    match &*function.result {
        Type::Function(rest) => push_curried_argument_types(rest, types, out),
        _ => {},
    }
}

/// The first non-function result of a function type.
fn curried_result_type(function: &FunctionType) -> (r: Type)
    decreases *function,
{
    match &*function.result {
        Type::Function(rest) => curried_result_type(rest),
        other => other.clone(),
    }
}

/// The global closure of a definition: references to its entry and drop
/// functions, an arity equal to its argument count, an undefined payload;
/// external linkage, mutable exactly for a thunk.
pub open spec fn definition_closure_shape(
    d: crate::target::TargetVariableDefinition,
    definition: Definition,
) -> bool {
    &&& d.name@ == definition.name@
    &&& d.linkage == Linkage::External
    &&& d.mutable == definition.is_thunk
    &&& d.body.expression matches TargetExpression::Record(_, members) && members@.len() == 4 && (
    members@[0] matches TargetExpression::Variable(_)) && (members@[1]
        matches TargetExpression::Variable(_)) && members@[2]
        == TargetExpression::PointerInteger(definition.arguments@.len() as i64) && (members@[3]
        matches TargetExpression::Undefined(_))
}

/// Defines the global closure of one of this unit's definitions: entry
/// function, drop function, arity, and an undefined payload; a thunk's
/// global is mutable, since forcing rewrites it.
pub fn compile_definition(
    ctx: &mut ModuleContext,
    definition: &Definition,
    global_variables: &VariableMap,
    types: &Vec<TypeDefinition>,
) -> (r: Result<(), CompileError>)
    ensures
        r matches Err(e2) ==> !(e2 matches CompileError::ReferenceCount(_)),
        module_extends(old(ctx).module, final(ctx).module),
        r matches Ok(_) ==> defines_variable(final(ctx).module, definition.name@),
        r matches Ok(_) ==> definition_closure_shape(
            final(ctx).module.variable_definitions@.last(),
            *definition,
        ),
{
    let entry_function = compile_entry_function(ctx, definition, global_variables, types)?;
    let ghost m1 = ctx.module;
    let drop_function = crate::expressions::compile_drop_function(ctx, definition, types);
    let ghost m2 = ctx.module;
    let mut closure_types: Vec<TargetType> = Vec::new();
    closure_types.push(duplicate_type(&entry_function.type_));
    closure_types.push(compile_closure_drop_function());
    closure_types.push(compile_arity_type());
    closure_types.push(compile_closure_payload(definition, types));
    let mut closure_values: Vec<TargetExpression> = Vec::new();
    closure_values.push(entry_function.expression);
    closure_values.push(drop_function.expression);
    closure_values.push(compile_arity(definition.arguments.len()).expression);
    closure_values.push(
        TargetExpression::Undefined(compile_closure_payload(definition, types)),
    );
    ctx.add_variable_definition(
        TargetVariableDefinition {
            name: definition.name.clone(),
            body: TypedExpression {
                expression: TargetExpression::Record(
                    crate::lower::duplicate_types(&closure_types),
                    closure_values,
                ),
                type_: TargetType::Record(closure_types),
            },
            mutable: definition.is_thunk,
            linkage: Linkage::External,
        },
    );
    proof {
        crate::target::lemma_module_extends_transitive(old(ctx).module, m1, m2);
        crate::target::lemma_module_extends_transitive(old(ctx).module, m2, ctx.module);
        let m = ctx.module;
        assert(m.variable_definitions@[m.variable_definitions@.len() - 1].name@
            == definition.name@);
    }
    Ok(())
}

/// Exports one of this unit's functions under a foreign name: a function
/// in the source convention that applies the global closure to its
/// arguments through the trampoline.
pub fn compile_foreign_definition(
    ctx: &mut ModuleContext,
    foreign_definition: &crate::module::ForeignDefinition,
    function_type: &FunctionType,
    global_variable: &TypedExpression,
    types: &Vec<TypeDefinition>,
) -> (r: Result<(), CompileError>)
    ensures
        r matches Err(e2) ==> !(e2 matches CompileError::ReferenceCount(_)),
        module_extends(old(ctx).module, final(ctx).module),
        r matches Ok(_) ==> final(ctx).module.function_definitions@.len() > 0
            && final(ctx).module.function_definitions@.last().name@
            == foreign_definition.foreign_name@
            && final(ctx).module.function_definitions@.last().linkage == Linkage::External
            && final(ctx).module.function_definitions@.last().calling_convention
            == CallingConvention::Source,
{
    let mut argument_types: Vec<Type> = Vec::new();
    push_curried_argument_types(function_type, types, &mut argument_types);
    let mut arguments: Vec<(String, TargetType)> = Vec::new();
    let mut call_arguments: Vec<TypedExpression> = Vec::new();
    let mut call_argument_types: Vec<Type> = Vec::new();
    let mut i: usize = 0;
    while i < argument_types.len()
        invariant
            ctx.module == old(ctx).module,
            call_argument_types@.len() == call_arguments@.len(),
        decreases argument_types.len() - i,
    {
        let lowered = compile_type_or_void(&argument_types[i], types);
        let mut argument_name = "a".to_owned();
        argument_name.append(crate::target::decimal_string(i as u64).as_str());
        call_arguments.push(variable(&argument_name, duplicate_type(&lowered)));
        call_argument_types.push(argument_types[i].clone());
        arguments.push((argument_name, lowered));
        i += 1;
    }
    let mut instructions: Vec<Instruction> = Vec::new();
    let value = compile_function_application(
        ctx,
        &mut instructions,
        duplicate_typed(global_variable),
        call_arguments,
        call_argument_types,
        types,
    )?;
    let ghost m1 = ctx.module;
    let result_type = compile_type_or_void(&curried_result_type(function_type), types);
    ctx.add_function_definition(
        TargetFunctionDefinition {
            name: foreign_definition.foreign_name.clone(),
            arguments,
            result_type,
            body: Block { instructions, terminal: TerminalInstruction::Return(value) },
            calling_convention: CallingConvention::Source,
            linkage: Linkage::External,
        },
    );
    proof {
        crate::target::lemma_module_extends_transitive(old(ctx).module, m1, ctx.module);
    }
    Ok(())
}

/// Lowers a whole module. The module must already carry inferred
/// environments; the reference-count pass runs first and its rejection is
/// the only reference-count error. An empty module lowers to a target
/// module with no definitions at all.
pub fn compile(module: &Module) -> (r: Result<TargetModule, CompileError>)
    ensures
        crate::reference_count::spec_count_references(module@) is None <==> (r matches Err(e) && (
        e matches CompileError::ReferenceCount(_))),
        (module.type_definitions@.len() == 0 && module.foreign_declarations@.len() == 0
            && module.foreign_definitions@.len() == 0 && module.declarations@.len() == 0
            && module.definitions@.len() == 0) ==> (r matches Ok(m)
            && m.function_definitions@.len() == 0 && m.variable_definitions@.len() == 0
            && m.function_declarations@.len() == 0 && m.variable_declarations@.len() == 0),
        r matches Ok(m) ==> forall|i: int|
            0 <= i < module.type_definitions@.len() ==> crate::target::defines_function(
                m,
                "rc_clone_"@ + #[trigger] module.type_definitions@[i].name@,
            ) && crate::target::defines_function(
                m,
                "rc_drop_"@ + module.type_definitions@[i].name@,
            ),
{
    let annotated = match count_references(module) {
        Ok(annotated) => annotated,
        Err(e) => {
            return Err(CompileError::ReferenceCount(e));
        },
    };
    let types = &annotated.type_definitions;
    proof {
        crate::module::lemma_definitions_view(module.definitions@);
        crate::module::lemma_definitions_view(annotated.definitions@);
        crate::reference_count::lemma_convert_definitions_len(
            crate::module::definitions_view(module.definitions@),
            crate::module::definitions_view(annotated.definitions@),
        );
        assert(annotated.foreign_definitions@.len() == module.foreign_definitions@.len()) by {
            assert(annotated@.foreign_definitions == module@.foreign_definitions);
        }
        assert(annotated.type_definitions@.len() == module.type_definitions@.len()) by {
            assert(annotated@.type_definitions == module@.type_definitions);
        }
        assert(annotated.foreign_declarations@.len() == module.foreign_declarations@.len()) by {
            assert(annotated@.foreign_declarations == module@.foreign_declarations);
        }
        assert(annotated.declarations@.len() == module.declarations@.len()) by {
            assert(annotated@.declarations == module@.declarations);
        }
        assert forall|k: int| 0 <= k < module.type_definitions@.len() implies
            annotated.type_definitions@[k].name@ == #[trigger] module.type_definitions@[k].name@ by {
            assert(annotated@.type_definitions == module@.type_definitions);
            assert(crate::module::type_definitions_view(annotated.type_definitions@)[k]
                == crate::module::type_definitions_view(module.type_definitions@)[k]);
        }
    }
    let ghost rc_some = crate::reference_count::spec_count_references(module@) is Some;
    let mut ctx = ModuleContext::new();
    let variant_types = collect_variant_types(&annotated, types);
    let mut i: usize = 0;
    let ghost empty_module = ctx.module;
    while i < variant_types.len()
        invariant
            forall|k: int|
                0 <= k < variant_types@.len() ==> crate::lower_types::spec_wf_type(
                    #[trigger] variant_types@[k]@,
                    type_defs_view(types@),
                ),
            module_extends(empty_module, ctx.module),
            variant_types@.len() > 0 || ctx.module == empty_module,
            crate::reference_count::spec_count_references(module@) is Some,
            module.definitions@.len() == 0 ==> variant_types@.len() == 0,
        decreases variant_types.len() - i,
    {
        let ghost mi = ctx.module;
        match compile_type_information_global_variable(&mut ctx, &variant_types[i], types) {
            Ok(_) => {},
            Err(e) => {
                return Err(e);
            },
        }
        proof {
            crate::target::lemma_module_extends_transitive(empty_module, mi, ctx.module);
        }
        i += 1;
    }
    let ghost m_info = ctx.module;
    let mut j: usize = 0;
    proof {
        lemma_own_name_lookup(type_defs_view(types@));
    }
    while j < types.len()
        invariant
            module_extends(m_info, ctx.module),
            module_extends(empty_module, m_info),
            types@.len() > 0 || ctx.module == m_info,
            crate::reference_count::spec_count_references(module@) is Some,
            forall|k: int|
                0 <= k < types@.len() ==> spec_lookup_elements(
                    type_defs_view(types@),
                    #[trigger] type_defs_view(types@)[k].name,
                ) is Some,
            forall|k: int|
                0 <= k < j ==> crate::target::defines_function(
                    ctx.module,
                    "rc_clone_"@ + #[trigger] types@[k].name@,
                ) && crate::target::defines_function(
                    ctx.module,
                    "rc_drop_"@ + types@[k].name@,
                ),
        decreases types.len() - j,
    {
        let ghost mj = ctx.module;
        proof {
            assert(type_defs_view(types@)[j as int].name == types@[j as int].name@);
        }
        compile_record_clone_function(&mut ctx, &types[j], types);
        let ghost mj1 = ctx.module;
        compile_record_drop_function(&mut ctx, &types[j], types);
        proof {
            crate::target::lemma_module_extends_transitive(m_info, mj, mj1);
            crate::target::lemma_module_extends_transitive(m_info, mj1, ctx.module);
            crate::target::lemma_extends_keeps_function(
                mj1,
                ctx.module,
                "rc_clone_"@ + types@[j as int].name@,
            );
            assert forall|k: int| 0 <= k < j + 1 implies crate::target::defines_function(
                ctx.module,
                "rc_clone_"@ + #[trigger] types@[k].name@,
            ) && crate::target::defines_function(
                ctx.module,
                "rc_drop_"@ + types@[k].name@,
            ) by {
                if k < j {
                    crate::target::lemma_extends_keeps_function(
                        mj,
                        mj1,
                        "rc_clone_"@ + types@[k].name@,
                    );
                    crate::target::lemma_extends_keeps_function(
                        mj1,
                        ctx.module,
                        "rc_clone_"@ + types@[k].name@,
                    );
                    crate::target::lemma_extends_keeps_function(
                        mj,
                        mj1,
                        "rc_drop_"@ + types@[k].name@,
                    );
                    crate::target::lemma_extends_keeps_function(
                        mj1,
                        ctx.module,
                        "rc_drop_"@ + types@[k].name@,
                    );
                }
            }
        }
        j += 1;
    }
    let ghost m_records = ctx.module;
    // Foreign declarations, declarations, and the global scope.
    let mut k: usize = 0;
    while k < annotated.foreign_declarations.len()
        invariant
            module_extends(m_records, ctx.module),
            annotated.foreign_declarations@.len() > 0 || ctx.module == m_records,
            crate::reference_count::spec_count_references(module@) is Some,
        decreases annotated.foreign_declarations.len() - k,
    {
        let ghost mk = ctx.module;
        compile_foreign_declaration(&mut ctx, &annotated.foreign_declarations[k], types);
        proof {
            crate::target::lemma_module_extends_transitive(m_records, mk, ctx.module);
        }
        k += 1;
    }
    let ghost m_foreign = ctx.module;
    let mut d: usize = 0;
    while d < annotated.declarations.len()
        invariant
            module_extends(m_foreign, ctx.module),
            annotated.declarations@.len() > 0 || ctx.module == m_foreign,
            ctx.module.function_definitions == m_foreign.function_definitions,
            ctx.module.variable_definitions == m_foreign.variable_definitions,
            crate::reference_count::spec_count_references(module@) is Some,
        decreases annotated.declarations.len() - d,
    {
        let ghost md = ctx.module;
        compile_declaration(&mut ctx, &annotated.declarations[d], types);
        proof {
            crate::target::lemma_module_extends_transitive(m_foreign, md, ctx.module);
        }
        d += 1;
    }
    let global_variables = compile_global_variables(&annotated, types);
    let ghost m_decls = ctx.module;
    let mut e: usize = 0;
    while e < annotated.definitions.len()
        invariant
            module_extends(m_decls, ctx.module),
            annotated.definitions@.len() > 0 || ctx.module == m_decls,
            crate::reference_count::spec_count_references(module@) is Some,
            annotated.definitions@.len() == module.definitions@.len(),
        decreases annotated.definitions.len() - e,
    {
        let ghost me = ctx.module;
        match compile_definition(&mut ctx, &annotated.definitions[e], &global_variables, types) {
            Ok(_) => {},
            Err(err) => {
                return Err(err);
            },
        }
        proof {
            crate::target::lemma_module_extends_transitive(m_decls, me, ctx.module);
        }
        e += 1;
    }
    let ghost m_defs = ctx.module;
    let mut f: usize = 0;
    while f < annotated.foreign_definitions.len()
        invariant
            module_extends(m_defs, ctx.module),
            annotated.foreign_definitions@.len() > 0 || ctx.module == m_defs,
            crate::reference_count::spec_count_references(module@) is Some,
            annotated.foreign_definitions@.len() == module.foreign_definitions@.len(),
        decreases annotated.foreign_definitions.len() - f,
    {
        let ghost mf = ctx.module;
        let foreign_definition = &annotated.foreign_definitions[f];
        match find_function_type(&annotated, &foreign_definition.name) {
            Some(function_type) => {
                match global_variables.get(&foreign_definition.name) {
                    Some((global, _)) => {
                        match compile_foreign_definition(
                            &mut ctx,
                            foreign_definition,
                            &function_type,
                            &global,
                            types,
                        ) {
                            Ok(_) => {},
                            Err(err) => {
                                return Err(err);
                            },
                        }
                    },
                    None => {
                        return Err(CompileError::Build);
                    },
                }
            },
            None => {
                return Err(CompileError::Build);
            },
        }
        proof {
            crate::target::lemma_module_extends_transitive(m_defs, mf, ctx.module);
        }
        f += 1;
    }
    proof {
        if module.type_definitions@.len() == 0 && module.foreign_declarations@.len() == 0
            && module.foreign_definitions@.len() == 0 && module.declarations@.len() == 0
            && module.definitions@.len() == 0 {
            assert(variant_types@.len() == 0);
            assert(ctx.module == empty_module);
        }
        assert forall|i2: int| 0 <= i2 < module.type_definitions@.len() implies
            crate::target::defines_function(
            ctx.module,
            "rc_clone_"@ + #[trigger] module.type_definitions@[i2].name@,
        ) && crate::target::defines_function(
            ctx.module,
            "rc_drop_"@ + module.type_definitions@[i2].name@,
        ) by {
            assert(types@[i2].name@ == module.type_definitions@[i2].name@) by {
                assert(annotated@.type_definitions == module@.type_definitions);
                assert(crate::module::type_definitions_view(types@)[i2]
                    == crate::module::type_definitions_view(module.type_definitions@)[i2]);
            }
            crate::target::lemma_extends_keeps_function(
                m_records,
                ctx.module,
                "rc_clone_"@ + types@[i2].name@,
            );
            crate::target::lemma_extends_keeps_function(
                m_records,
                ctx.module,
                "rc_drop_"@ + types@[i2].name@,
            );
        }
    }
    Ok(ctx.module)
}

/// Every definition's own name resolves in the map it is part of.
proof fn lemma_own_name_lookup(tds: Seq<SpecTypeDefinition>)
    ensures
        forall|k: int|
            0 <= k < tds.len() ==> spec_lookup_elements(tds, #[trigger] tds[k].name) is Some,
    decreases tds.len(),
{
    if tds.len() > 0 {
        lemma_own_name_lookup(tds.drop_first());
        assert forall|k: int| 0 <= k < tds.len() implies spec_lookup_elements(
            tds,
            #[trigger] tds[k].name,
        ) is Some by {
            if tds[k].name != tds.first().name {
                assert(k > 0);
                assert(tds.drop_first()[k - 1] == tds[k]);
            }
        }
    }
}

/// The global scope of the lowering: every foreign declaration,
/// declaration and definition under its name, the definitions' globals
/// cast to unsized closure pointers and tagged as static.
pub fn compile_global_variables(module: &Module, types: &Vec<TypeDefinition>) -> (r: VariableMap)
    ensures
        forall|i: int|
            0 <= i < module.foreign_declarations@.len() ==> scope_binds(
                r,
                #[trigger] module.foreign_declarations@[i].name@,
            ),
        forall|i: int|
            0 <= i < module.declarations@.len() ==> scope_binds(
                r,
                #[trigger] module.declarations@[i].name@,
            ),
        forall|i: int|
            0 <= i < module.definitions@.len() ==> scope_binds(
                r,
                #[trigger] module.definitions@[i].name@,
            ),
{
    let mut scope = VariableMap::new();
    let mut i: usize = 0;
    while i < module.foreign_declarations.len()
        invariant
            forall|k: int|
                0 <= k < i ==> scope_binds(
                    scope,
                    #[trigger] module.foreign_declarations@[k].name@,
                ),
        decreases module.foreign_declarations.len() - i,
    {
        let declaration = &module.foreign_declarations[i];
        let type_ = Type::Function(declaration.type_.clone());
        let lowered = compile_type_or_void(&type_, types);
        scope = scope.with(
            &declaration.name,
            compile_tagged_pointer(&variable(&declaration.name, lowered)),
            type_,
        );
        proof {
            assert(scope.entries@.last().0@ == module.foreign_declarations@[i as int].name@);
        }
        i += 1;
    }
    let mut j: usize = 0;
    while j < module.declarations.len()
        invariant
            forall|k: int|
                0 <= k < module.foreign_declarations@.len() ==> scope_binds(
                    scope,
                    #[trigger] module.foreign_declarations@[k].name@,
                ),
            forall|k: int|
                0 <= k < j ==> scope_binds(scope, #[trigger] module.declarations@[k].name@),
        decreases module.declarations.len() - j,
    {
        let declaration = &module.declarations[j];
        let type_ = Type::Function(declaration.type_.clone());
        let lowered = compile_type_or_void(&type_, types);
        let ghost scope0 = scope;
        scope = scope.with(
            &declaration.name,
            compile_tagged_pointer(&variable(&declaration.name, lowered)),
            type_,
        );
        proof {
            assert(scope.entries@.last().0@ == module.declarations@[j as int].name@);
            lemma_with_keeps_bindings(scope0, scope);
        }
        j += 1;
    }
    let mut k: usize = 0;
    while k < module.definitions.len()
        invariant
            forall|n: int|
                0 <= n < module.foreign_declarations@.len() ==> scope_binds(
                    scope,
                    #[trigger] module.foreign_declarations@[n].name@,
                ),
            forall|n: int|
                0 <= n < module.declarations@.len() ==> scope_binds(
                    scope,
                    #[trigger] module.declarations@[n].name@,
                ),
            forall|n: int|
                0 <= n < k ==> scope_binds(scope, #[trigger] module.definitions@[n].name@),
        decreases module.definitions.len() - k,
    {
        let definition = &module.definitions[k];
        let type_ = definition.type_();
        let lowered = compile_type_or_void(&type_, types);
        let sized = crate::expressions::compile_sized_closure(definition, types);
        let ghost scope0 = scope;
        scope = scope.with(
            &definition.name,
            compile_tagged_pointer(
                &bit_cast(
                    lowered,
                    variable(&definition.name, TargetType::Pointer(Box::new(sized))),
                ),
            ),
            type_,
        );
        proof {
            assert(scope.entries@.last().0@ == module.definitions@[k as int].name@);
            lemma_with_keeps_bindings(scope0, scope);
        }
        k += 1;
    }
    scope
}

/// A grown scope keeps every binding the smaller one had.
proof fn lemma_with_keeps_bindings(scope0: VariableMap, scope: VariableMap)
    requires
        scope0.entries@.len() <= scope.entries@.len(),
        forall|j: int| 0 <= j < scope0.entries@.len() ==> scope.entries@[j].0@ == scope0.entries@[j].0@,
    ensures
        forall|name: Seq<char>| scope_binds(scope0, name) ==> scope_binds(scope, name),
{
    assert forall|name: Seq<char>| scope_binds(scope0, name) implies scope_binds(scope, name) by {
        let j = choose|j: int| 0 <= j < scope0.entries@.len() && scope0.entries@[j].0@ == name;
        assert(scope.entries@[j].0@ == name);
    }
}

/// The declared or defined function type a name resolves to.
fn find_function_type(module: &Module, name: &String) -> (r: Option<FunctionType>)
{
    let mut i: usize = 0;
    while i < module.foreign_declarations.len()
        decreases module.foreign_declarations.len() - i,
    {
        if module.foreign_declarations[i].name == *name {
            return Some(module.foreign_declarations[i].type_.clone());
        }
        i += 1;
    }
    let mut j: usize = 0;
    while j < module.declarations.len()
        decreases module.declarations.len() - j,
    {
        if module.declarations[j].name == *name {
            return Some(module.declarations[j].type_.clone());
        }
        j += 1;
    }
    let mut k: usize = 0;
    while k < module.definitions.len()
        decreases module.definitions.len() - k,
    {
        if module.definitions[k].name == *name {
            let definition = &module.definitions[k];
            match definition.type_() {
                Type::Function(function) => {
                    return Some(function);
                },
                _ => {
                    return None;
                },
            }
        }
        k += 1;
    }
    None
}

} // verus!
