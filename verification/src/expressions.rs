//! Expression lowering: produces target IR for every source construct,
//! consuming the reference-count annotations; thunk entry functions follow
//! the three-state atomic protocol, and applications go through the arity
//! trampoline.

use crate::ir::{
    CallingConvention, Case, ComparisonOperator, Definition, Expression, SpecExpr,
};
use crate::lower::{
    allocate_heap, bit_cast, clone_expression, compile_boxed_payload, compile_tag,
    compile_tagged_pointer, compile_type_or_void, compile_unboxed_payload,
    compile_untagged_pointer, drop_expression, duplicate_type, duplicate_typed,
    duplicate_types, get_record_element, pointer_integer, variable, void_value,
    CompileError,
};
use crate::lower_types::{
    compile_arity_type, compile_closure_drop_function, compile_untyped_closure_pointer,
    compile_variant_payload_type, is_record_boxed, spec_lookup_elements, spec_wf_type,
    type_defs_view, void_type,
};
use crate::module::TypeDefinition;
use crate::target::{
    module_extends, AtomicOrdering, Block, Instruction, Linkage, ModuleContext, TargetExpression,
    TargetFunctionDefinition, TargetFunctionType, TargetType, TerminalInstruction, TypedExpression,
};
use crate::types::{RecordType, Type};
use vstd::prelude::*;

verus! {

/// The lexical scope of the lowering: each source variable's target value
/// and source type; a later entry shadows an earlier one of the same name.
pub struct VariableMap {
    pub entries: Vec<(String, TypedExpression, Type)>,
}

/// The name is bound somewhere in the scope.
pub open spec fn scope_binds(scope: VariableMap, name: Seq<char>) -> bool {
    exists|j: int| 0 <= j < scope.entries@.len() && scope.entries@[j].0@ == name
}

impl VariableMap {
    pub fn new() -> (r: Self)
        ensures
            r.entries@.len() == 0,
    {
        VariableMap { entries: Vec::new() }
    }

    /// The latest binding of a name; one exists exactly when the scope
    /// binds the name.
    pub fn get(&self, name: &String) -> (r: Option<(TypedExpression, Type)>)
        ensures
            r is Some <==> scope_binds(*self, name@),
    {
        let mut i: usize = self.entries.len();
        while i > 0
            invariant
                0 <= i <= self.entries.len(),
                forall|k: int| i <= k < self.entries@.len() ==> self.entries@[k].0@ != name@,
            decreases i,
        {
            i -= 1;
            if self.entries[i].0 == *name {
                proof {
                    assert(self.entries@[i as int].0@ == name@);
                }
                return Some(
                    (duplicate_typed(&self.entries[i].1), self.entries[i].2.clone()),
                );
            }
        }
        None
    }

    /// A copy of the scope with one more binding.
    pub fn with(&self, name: &String, value: TypedExpression, type_: Type) -> (r: Self)
        ensures
            r.entries@.len() == self.entries@.len() + 1,
            forall|j: int|
                0 <= j < self.entries@.len() ==> r.entries@[j].0@ == self.entries@[j].0@,
            r.entries@.last().0@ == name@,
    {
        let mut entries: Vec<(String, TypedExpression, Type)> = Vec::new();
        let mut i: usize = 0;
        while i < self.entries.len()
            invariant
                0 <= i <= self.entries.len(),
                entries@.len() == i,
                forall|j: int| 0 <= j < i ==> entries@[j].0@ == self.entries@[j].0@,
            decreases self.entries.len() - i,
        {
            entries.push(
                (
                    self.entries[i].0.clone(),
                    duplicate_typed(&self.entries[i].1),
                    self.entries[i].2.clone(),
                ),
            );
            i += 1;
        }
        entries.push((name.clone(), value, type_));
        VariableMap { entries }
    }

    pub fn duplicate(&self) -> (r: Self) {
        let mut entries: Vec<(String, TypedExpression, Type)> = Vec::new();
        let mut i: usize = 0;
        while i < self.entries.len()
            invariant
                0 <= i <= self.entries.len(),
            decreases self.entries.len() - i,
        {
            entries.push(
                (
                    self.entries[i].0.clone(),
                    duplicate_typed(&self.entries[i].1),
                    self.entries[i].2.clone(),
                ),
            );
            i += 1;
        }
        VariableMap { entries }
    }
}


/// Chains the append-only property through two compilation steps.
proof fn lemma_prefix_chain(a: Seq<Instruction>, b: Seq<Instruction>, c: Seq<Instruction>)
    requires
        a.len() <= b.len() <= c.len(),
        b.take(a.len() as int) == a,
        c.take(b.len() as int) == b,
    ensures
        c.take(a.len() as int) == a,
{
    assert(c.take(a.len() as int) =~= a) by {
        assert forall|k: int| 0 <= k < a.len() implies c[k] == a[k] by {
            assert(c.take(b.len() as int)[k] == c[k]);
            assert(b.take(a.len() as int)[k] == b[k]);
        }
    }
}

/// The arity constant stored in a closure.
pub fn compile_arity(arity: usize) -> (r: TypedExpression)
    ensures
        r.expression == TargetExpression::PointerInteger(arity as i64),
        r.type_ == TargetType::PointerInteger,
{
    pointer_integer(arity as i64)
}

/// Lowers one annotated expression under a lexical scope. Every call only
/// appends to the module under construction; number and boolean constants
/// lower to the corresponding target constants.
pub fn compile_expression(
    ctx: &mut ModuleContext,
    instructions: &mut Vec<Instruction>,
    expression: &Expression,
    variables: &VariableMap,
    types: &Vec<TypeDefinition>,
) -> (r: Result<TypedExpression, CompileError>)
    ensures
        r matches Err(e2) ==> !(e2 matches CompileError::ReferenceCount(_)),
        module_extends(old(ctx).module, final(ctx).module),
        final(instructions)@.len() >= old(instructions)@.len(),
        final(instructions)@.take(old(instructions)@.len() as int) == old(instructions)@,
        expression@ matches SpecExpr::Number(bits) ==> (r matches Ok(t) && t.expression
            == TargetExpression::Float64Bits(bits) && t.type_ == TargetType::Float64),
        expression@ matches SpecExpr::Boolean(b) ==> (r matches Ok(t) && t.expression
            == TargetExpression::Boolean(b) && t.type_ == TargetType::Boolean),
        expression@ matches SpecExpr::ByteString(bytes) ==> (r matches Ok(t)
            && crate::lower_types::is_lowered_string(t.type_) && (t.expression
            matches TargetExpression::Record(_, members) && members@.len() == 2 && members@[1]
            == TargetExpression::PointerInteger(bytes.len() as i64))),
        expression@ matches SpecExpr::ArithmeticOperation(op, _, _) ==> (r matches Ok(t) ==> (
        t.type_ == TargetType::Float64 && (t.expression
            matches TargetExpression::ArithmeticOperation(op2, _, _) && op2 == op))),
        expression@ matches SpecExpr::ComparisonOperation(op, _, _) ==> (r matches Ok(t) ==> (
        t.type_ == TargetType::Boolean && (t.expression
            matches TargetExpression::ComparisonOperation(op2, _, _) && op2 == op))),
        expression@ matches SpecExpr::If(_, _, _) ==> (r matches Ok(t)
            ==> (final(instructions)@.len() > 0 && (final(instructions)@.last()
            matches Instruction::If(_, _, _, _, if_name) && (t.expression
            matches TargetExpression::Variable(n) && n@ == if_name@)))),
        expression@ matches SpecExpr::Variable(nm) ==> (r is Ok <==> scope_binds(
            *variables,
            nm,
        )),
        expression@ matches SpecExpr::Record(nm, _) ==> ((r is Ok
            && crate::lower_types::spec_record_boxed(type_defs_view(types@), nm)) ==> exists|
            i: int,
        |
            old(instructions)@.len() <= i < final(instructions)@.len()
                && crate::lower::is_allocate_instruction(final(instructions)@[i])),
        expression@ matches SpecExpr::Record(nm, _) ==> (r matches Ok(t) ==> (
        !crate::lower_types::spec_record_boxed(type_defs_view(types@), nm) ==> t.expression
            matches TargetExpression::Record(_, _))),
    decreases *expression,
{
    match expression {
        Expression::ArithmeticOperation(operation) => {
            let lhs = compile_expression(ctx, instructions, &operation.lhs, variables, types)?;
            let ghost m1 = ctx.module;
            let ghost ins1 = instructions@;
            let rhs = compile_expression(ctx, instructions, &operation.rhs, variables, types)?;
            proof {
                crate::target::lemma_module_extends_transitive(old(ctx).module, m1, ctx.module);
                lemma_prefix_chain(old(instructions)@, ins1, instructions@);
            }
            Ok(
                TypedExpression {
                    expression: TargetExpression::ArithmeticOperation(
                        operation.operator,
                        Box::new(lhs.expression),
                        Box::new(rhs.expression),
                    ),
                    type_: TargetType::Float64,
                },
            )
        },
        Expression::Boolean(boolean) => Ok(
            TypedExpression {
                expression: TargetExpression::Boolean(*boolean),
                type_: TargetType::Boolean,
            },
        ),
        Expression::ByteString(string) => Ok(compile_string(ctx, &string.value)),
        Expression::Case(case) => compile_case(ctx, instructions, case, variables, types),
        Expression::CloneVariables(clone) => {
            let mut i: usize = 0;
            while i < clone.variables.names.len()
                invariant
                    ctx.module == old(ctx).module,
                    instructions@.len() >= old(instructions)@.len(),
                    instructions@.take(old(instructions)@.len() as int) == old(instructions)@,
                    expression@ matches SpecExpr::CloneVariables(_, _),
                decreases clone.variables.names.len() - i,
            {
                let name = &clone.variables.names[i];
                match variables.get(name) {
                    Some((value, type_)) => {
                        if crate::lower::check_wf_type(&type_, types) {
                            clone_expression(ctx, instructions, &value, &type_, types);
                        }
                    },
                    None => {
                        return Err(CompileError::Build);
                    },
                }
                i += 1;
            }
            let ghost ins1 = instructions@;
            let r = compile_expression(ctx, instructions, &clone.expression, variables, types);
            proof {
                lemma_prefix_chain(old(instructions)@, ins1, instructions@);
            }
            r
        },
        Expression::ComparisonOperation(operation) => {
            let lhs = compile_expression(ctx, instructions, &operation.lhs, variables, types)?;
            let ghost m1 = ctx.module;
            let ghost ins1 = instructions@;
            let rhs = compile_expression(ctx, instructions, &operation.rhs, variables, types)?;
            proof {
                crate::target::lemma_module_extends_transitive(old(ctx).module, m1, ctx.module);
                lemma_prefix_chain(old(instructions)@, ins1, instructions@);
            }
            Ok(
                TypedExpression {
                    expression: TargetExpression::ComparisonOperation(
                        operation.operator,
                        Box::new(lhs.expression),
                        Box::new(rhs.expression),
                    ),
                    type_: TargetType::Boolean,
                },
            )
        },
        Expression::DropVariables(drop) => {
            let mut i: usize = 0;
            while i < drop.variables.names.len()
                invariant
                    ctx.module == old(ctx).module,
                    instructions@.len() >= old(instructions)@.len(),
                    instructions@.take(old(instructions)@.len() as int) == old(instructions)@,
                    expression@ matches SpecExpr::DropVariables(_, _),
                decreases drop.variables.names.len() - i,
            {
                let name = &drop.variables.names[i];
                match variables.get(name) {
                    Some((value, type_)) => {
                        if crate::lower::check_wf_type(&type_, types) {
                            drop_expression(ctx, instructions, &value, &type_, types);
                        }
                    },
                    None => {
                        return Err(CompileError::Build);
                    },
                }
                i += 1;
            }
            let ghost ins1 = instructions@;
            let r = compile_expression(ctx, instructions, &drop.expression, variables, types);
            proof {
                lemma_prefix_chain(old(instructions)@, ins1, instructions@);
            }
            r
        },
        Expression::FunctionApplication(application) => {
            let scope = type_scope_of(variables);
            let argument_type: Type = match infer_expression_type(
                &application.function,
                &scope,
                types,
            ) {
                Some(Type::Function(function_type)) => (*function_type.argument).clone(),
                _ => {
                    return Err(CompileError::Build);
                },
            };
            let function = compile_expression(
                ctx,
                instructions,
                &application.function,
                variables,
                types,
            )?;
            let ghost m1 = ctx.module;
            let ghost ins1 = instructions@;
            let argument = compile_expression(
                ctx,
                instructions,
                &application.argument,
                variables,
                types,
            )?;
            let ghost m2 = ctx.module;
            let ghost ins2 = instructions@;
            proof {
                lemma_prefix_chain(old(instructions)@, ins1, ins2);
            }
            let mut arguments: Vec<TypedExpression> = Vec::new();
            arguments.push(argument);
            let mut argument_types: Vec<Type> = Vec::new();
            argument_types.push(argument_type);
            let r = compile_function_application(
                ctx,
                instructions,
                function,
                arguments,
                argument_types,
                types,
            );
            proof {
                crate::target::lemma_module_extends_transitive(old(ctx).module, m1, m2);
                crate::target::lemma_module_extends_transitive(old(ctx).module, m2, ctx.module);
                lemma_prefix_chain(old(instructions)@, ins2, instructions@);
            }
            r
        },
        Expression::If(if_) => {
            let condition = compile_expression(ctx, instructions, &if_.condition, variables,
                types)?;
            let ghost m1 = ctx.module;
            let mut then_instructions: Vec<Instruction> = Vec::new();
            let then_value = compile_expression(
                ctx,
                &mut then_instructions,
                &if_.then_,
                variables,
                types,
            )?;
            let ghost m2 = ctx.module;
            let mut else_instructions: Vec<Instruction> = Vec::new();
            let else_value = compile_expression(
                ctx,
                &mut else_instructions,
                &if_.else_,
                variables,
                types,
            )?;
            let ghost m3 = ctx.module;
            let result_type = duplicate_type(&then_value.type_);
            let name = ctx.generate_name();
            let ghost ins_before_if = instructions@;
            instructions.push(
                Instruction::If(
                    condition,
                    Block {
                        instructions: then_instructions,
                        terminal: TerminalInstruction::Branch(then_value),
                    },
                    Block {
                        instructions: else_instructions,
                        terminal: TerminalInstruction::Branch(else_value),
                    },
                    duplicate_type(&result_type),
                    name.clone(),
                ),
            );
            proof {
                crate::target::lemma_module_extends_transitive(old(ctx).module, m1, m2);
                crate::target::lemma_module_extends_transitive(old(ctx).module, m2, m3);
                crate::target::lemma_module_extends_transitive(old(ctx).module, m3, ctx.module);
                assert(instructions@.take(ins_before_if.len() as int) =~= ins_before_if);
                lemma_prefix_chain(old(instructions)@, ins_before_if, instructions@);
            }
            Ok(variable(&name, result_type))
        },
        Expression::Let(let_) => {
            let bound = compile_expression(
                ctx,
                instructions,
                &let_.bound_expression,
                variables,
                types,
            )?;
            let ghost m1 = ctx.module;
            let ghost ins1 = instructions@;
            let inner = variables.with(&let_.name, bound, let_.type_.clone());
            let r = compile_expression(ctx, instructions, &let_.expression, &inner, types);
            proof {
                crate::target::lemma_module_extends_transitive(old(ctx).module, m1, ctx.module);
                lemma_prefix_chain(old(instructions)@, ins1, instructions@);
            }
            r
        },
        Expression::LetRecursive(let_) => compile_let_recursive(
            ctx,
            instructions,
            let_,
            variables,
            types,
        ),
        Expression::Number(number) => Ok(
            TypedExpression {
                expression: TargetExpression::Float64Bits(number.bits),
                type_: TargetType::Float64,
            },
        ),
        Expression::Record(record) => {
            let elements = match compile_element_expressions(
                ctx,
                instructions,
                &record.elements,
                record.elements.len(),
                variables,
                types,
            ) {
                Ok(elements) => elements,
                Err(e) => {
                    return Err(e);
                },
            };
            let ghost m1 = ctx.module;
            let ghost ins1 = instructions@;
            let r = compile_record_value(ctx, instructions, &record.type_, elements, types);
            proof {
                crate::target::lemma_module_extends_transitive(old(ctx).module, m1, ctx.module);
                lemma_prefix_chain(old(instructions)@, ins1, instructions@);
            }
            r
        },
        Expression::RecordElement(element) => {
            let record = compile_expression(ctx, instructions, &element.record, variables, types)?;
            if crate::lower_types::lookup_elements(types, &element.type_.name).is_some() {
                Ok(get_record_element(ctx, instructions, &record, &element.type_, element.index,
                    types))
            } else {
                Err(CompileError::Build)
            }
        },
        Expression::Variable(variable_) => {
            match variables.get(&variable_.name) {
                Some((value, _)) => Ok(value),
                None => Err(CompileError::Build),
            }
        },
        Expression::Variant(variant) => {
            let payload = compile_expression(ctx, instructions, &variant.payload, variables,
                types)?;
            let ghost m1 = ctx.module;
            let ghost ins1 = instructions@;
            let boxed_payload = compile_boxed_payload(ctx, instructions, payload, &variant.type_)?;
            proof {
                lemma_prefix_chain(old(instructions)@, ins1, instructions@);
            }
            let mut element_types: Vec<TargetType> = Vec::new();
            element_types.push(crate::lower_types::compile_variant_tag_type());
            element_types.push(compile_variant_payload_type());
            let mut elements: Vec<TargetExpression> = Vec::new();
            elements.push(compile_tag(&variant.type_).expression);
            elements.push(boxed_payload.expression);
            proof {
                crate::target::lemma_module_extends_transitive(old(ctx).module, m1, ctx.module);
            }
            Ok(
                TypedExpression {
                    expression: TargetExpression::Record(duplicate_types(&element_types), elements),
                    type_: TargetType::Record(element_types),
                },
            )
        },
    }
}

/// Lowers the first `n` elements of an operand list in order.
fn compile_element_expressions(
    ctx: &mut ModuleContext,
    instructions: &mut Vec<Instruction>,
    expressions: &Vec<Expression>,
    n: usize,
    variables: &VariableMap,
    types: &Vec<TypeDefinition>,
) -> (r: Result<Vec<TypedExpression>, CompileError>)
    requires
        n <= expressions.len(),
    ensures
        r matches Err(e2) ==> !(e2 matches CompileError::ReferenceCount(_)),
        module_extends(old(ctx).module, final(ctx).module),
        final(instructions)@.len() >= old(instructions)@.len(),
        final(instructions)@.take(old(instructions)@.len() as int) == old(instructions)@,
    decreases *expressions, n,
{
    if n == 0 {
        return Ok(Vec::new());
    }
    let mut rest = compile_element_expressions(ctx, instructions, expressions, n - 1, variables,
        types)?;
    let ghost m1 = ctx.module;
    let element = match compile_expression(ctx, instructions, &expressions[n - 1], variables,
        types) {
        Ok(element) => element,
        Err(e) => {
            proof {
                crate::target::lemma_module_extends_transitive(old(ctx).module, m1, ctx.module);
            }
            return Err(e);
        },
    };
    rest.push(element);
    proof {
        crate::target::lemma_module_extends_transitive(old(ctx).module, m1, ctx.module);
    }
    Ok(rest)
}

/// Lowers a byte-string constant: the bytes become a static global behind
/// a tagged pointer, since no reference count guards a static string.
fn compile_string(ctx: &mut ModuleContext, value: &Vec<u8>) -> (r: TypedExpression)
    ensures
        module_extends(old(ctx).module, final(ctx).module),
        crate::lower_types::is_lowered_string(r.type_),
        r.expression matches TargetExpression::Record(_, vals) && vals@.len() == 2 && vals@[1]
            == TargetExpression::PointerInteger(value@.len() as i64),
{
    let mut byte_types: Vec<TargetType> = Vec::new();
    let mut bytes: Vec<TargetExpression> = Vec::new();
    let mut i: usize = 0;
    while i < value.len()
        decreases value.len() - i,
    {
        byte_types.push(TargetType::Integer8);
        bytes.push(TargetExpression::Integer8(value[i]));
        i += 1;
    }
    let name = ctx.generate_name();
    let content_type = TargetType::Record(duplicate_types(&byte_types));
    ctx.add_variable_definition(
        crate::target::TargetVariableDefinition {
            name: name.clone(),
            body: TypedExpression {
                expression: TargetExpression::Record(duplicate_types(&byte_types), bytes),
                type_: TargetType::Record(byte_types),
            },
            mutable: false,
            linkage: Linkage::Internal,
        },
    );
    let pointer = compile_tagged_pointer(
        &bit_cast(
            TargetType::Pointer(Box::new(TargetType::Integer8)),
            variable(&name, TargetType::Pointer(Box::new(content_type))),
        ),
    );
    let mut element_types: Vec<TargetType> = Vec::new();
    element_types.push(TargetType::Pointer(Box::new(TargetType::Integer8)));
    element_types.push(TargetType::PointerInteger);
    let mut elements: Vec<TargetExpression> = Vec::new();
    elements.push(pointer.expression);
    elements.push(TargetExpression::PointerInteger(value.len() as i64));
    let r = TypedExpression {
        expression: TargetExpression::Record(duplicate_types(&element_types), elements),
        type_: TargetType::Record(element_types),
    };
    proof {
        assert(crate::lower_types::is_lowered_string(r.type_));
    }
    r
}

/// Builds a record value: a boxed record goes to the heap and the pointer
/// stands for it; an unboxed record is the inline value. A record type
/// with elements is always heap-allocated here; one without never is.
/// The built record holds exactly the given element expressions, in
/// order.
pub open spec fn is_record_of(e: TargetExpression, elements: Seq<TypedExpression>) -> bool {
    e matches TargetExpression::Record(_, members) && members@.len() == elements.len() && forall|
        i: int,
    |
        0 <= i < elements.len() ==> members@[i] == #[trigger] elements[i].expression
}

pub fn compile_record_value(
    ctx: &mut ModuleContext,
    instructions: &mut Vec<Instruction>,
    type_: &RecordType,
    elements: Vec<TypedExpression>,
    types: &Vec<TypeDefinition>,
) -> (r: Result<TypedExpression, CompileError>)
    ensures
        r matches Err(e2) ==> !(e2 matches CompileError::ReferenceCount(_)),
        module_extends(old(ctx).module, final(ctx).module),
        final(instructions)@.len() >= old(instructions)@.len(),
        final(instructions)@.take(old(instructions)@.len() as int) == old(instructions)@,
        r matches Ok(_) ==> spec_lookup_elements(type_defs_view(types@), type_@) is Some,
        (r matches Ok(_) && crate::lower_types::spec_record_boxed(type_defs_view(types@), type_@))
            ==> exists|i: int|
            old(instructions)@.len() <= i < final(instructions)@.len()
                && crate::lower::is_allocate_instruction(final(instructions)@[i]),
        (r matches Ok(_) && crate::lower_types::spec_record_boxed(type_defs_view(types@), type_@))
            ==> (final(instructions)@.last() matches Instruction::Store(stored, _) && is_record_of(
            stored.expression,
            elements@,
        )),
        (r matches Ok(_) && !crate::lower_types::spec_record_boxed(
            type_defs_view(types@),
            type_@,
        )) ==> final(instructions)@ == old(instructions)@,
        match r {
            Ok(v) => !crate::lower_types::spec_record_boxed(type_defs_view(types@), type_@)
                ==> is_record_of(v.expression, elements@),
            Err(_) => true,
        },
{
    if crate::lower_types::lookup_elements(types, &type_.name).is_none() {
        return Err(CompileError::Build);
    }
    let ghost given = elements@;
    let mut element_types: Vec<TargetType> = Vec::new();
    let mut element_values: Vec<TargetExpression> = Vec::new();
    let mut remaining = elements;
    proof {
        assert(remaining@.len() == remaining.len());
    }
    let mut i: usize = 0;
    while remaining.len() > 0
        invariant
            ctx.module == old(ctx).module,
            instructions@ == old(instructions)@,
            0 <= i <= given.len(),
            i + remaining@.len() == given.len(),
            i + remaining@.len() <= usize::MAX,
            remaining@ == given.skip(i as int),
            element_values@.len() == i,
            forall|k: int| 0 <= k < i ==> element_values@[k] == #[trigger] given[k].expression,
        decreases remaining.len(),
    {
        let element = remaining.remove(0);
        proof {
            assert(given.skip(i as int)[0] == given[i as int]);
            assert(given.skip(i as int).skip(1) =~= given.skip(i + 1 as int));
        }
        element_types.push(crate::lower::duplicate_type(&element.type_));
        element_values.push(element.expression);
        i += 1;
    }
    proof {
        assert(element_values@.len() == given.len());
    }
    let unboxed = TypedExpression {
        expression: TargetExpression::Record(duplicate_types(&element_types), element_values),
        type_: TargetType::Record(element_types),
    };
    proof {
        assert(is_record_of(unboxed.expression, given));
    }
    if is_record_boxed(type_, types) {
        let ghost len0 = instructions@.len();
        let pointer = allocate_heap(ctx, instructions, duplicate_type(&unboxed.type_));
        let ghost len1 = instructions@.len();
        let ghost mid = instructions@;
        instructions.push(Instruction::Store(unboxed, duplicate_typed(&pointer)));
        proof {
            let i2 = choose|i2: int|
                len0 <= i2 < len1 && crate::lower::is_allocate_instruction(mid[i2]);
            assert(instructions@[i2] == mid[i2]);
            assert(crate::lower::is_allocate_instruction(instructions@[i2]));
        }
        Ok(bit_cast(crate::lower_types::compile_record_type(type_, types), pointer))
    } else {
        Ok(unboxed)
    }
}

/// Lowers a case expression: the scrutinee's tag is compared against each
/// alternative's type-info global in source order; the matched arm unboxes
/// the payload under its binder; a missing match without default is
/// unreachable.
/// A comparison of a scrutinee's tag pointer against the type-info
/// global of the given type id, both seen as integers.
pub open spec fn is_tag_comparison(e: TargetExpression, id: Seq<char>) -> bool {
    e matches TargetExpression::ComparisonOperation(op, _, tag_side) && op
        == ComparisonOperator::Equal && (*tag_side matches TargetExpression::BitCast(_, _, tag)
        && (*tag matches TargetExpression::Variable(n) && n@ == id))
}

fn compile_case(
    ctx: &mut ModuleContext,
    instructions: &mut Vec<Instruction>,
    case: &Case,
    variables: &VariableMap,
    types: &Vec<TypeDefinition>,
) -> (r: Result<TypedExpression, CompileError>)
    ensures
        r matches Err(e2) ==> !(e2 matches CompileError::ReferenceCount(_)),
        module_extends(old(ctx).module, final(ctx).module),
        final(instructions)@.len() >= old(instructions)@.len(),
        final(instructions)@.take(old(instructions)@.len() as int) == old(instructions)@,
        (case.alternatives@.len() == 0 && case.default_alternative is None) ==> !(r is Ok),
    decreases *case,
{
    let argument = compile_expression(ctx, instructions, &case.argument, variables, types)?;
    let ghost m1 = ctx.module;
    let r = compile_alternatives(ctx, instructions, &argument, case, 0, variables, types);
    proof {
        crate::target::lemma_module_extends_transitive(old(ctx).module, m1, ctx.module);
    }
    match r {
        Ok(Some(value)) => Ok(value),
        Ok(None) => Err(CompileError::Build),
        Err(e) => Err(e),
    }
}

/// Linearizes the alternatives from the given position into nested ifs on
/// tag pointer equality.
fn compile_alternatives(
    ctx: &mut ModuleContext,
    instructions: &mut Vec<Instruction>,
    argument: &TypedExpression,
    case: &Case,
    position: usize,
    variables: &VariableMap,
    types: &Vec<TypeDefinition>,
) -> (r: Result<Option<TypedExpression>, CompileError>)
    requires
        position <= case.alternatives.len(),
    ensures
        r matches Err(e2) ==> !(e2 matches CompileError::ReferenceCount(_)),
        module_extends(old(ctx).module, final(ctx).module),
        final(instructions)@.len() >= old(instructions)@.len(),
        final(instructions)@.take(old(instructions)@.len() as int) == old(instructions)@,
        r matches Ok(o) ==> ((o is Some) <==> (position < case.alternatives@.len()
            || case.default_alternative is Some)),
        position < case.alternatives@.len() ==> ((r matches Ok(o) && o is Some)
            ==> (final(instructions)@.len() > 0 && (final(instructions)@.last()
            matches Instruction::If(c, _, _, _, _) && is_tag_comparison(
            c.expression,
            crate::lower::spec_type_id(case.alternatives@[position as int].type_@),
        )))),
    decreases *case, case.alternatives.len() - position,
{
    if position == case.alternatives.len() {
        return match &case.default_alternative {
            Some(default) => {
                let inner = variables.with(
                    &default.name,
                    duplicate_typed(argument),
                    Type::Variant,
                );
                let value = compile_expression(ctx, instructions, &default.expression, &inner,
                    types)?;
                Ok(Some(value))
            },
            None => Ok(None),
        };
    }
    let alternative = &case.alternatives[position];
    let tag_name = ctx.generate_name();
    instructions.push(
        Instruction::DeconstructRecord(duplicate_typed(argument), 0, tag_name.clone()),
    );
    let condition = TypedExpression {
        expression: TargetExpression::ComparisonOperation(
            ComparisonOperator::Equal,
            Box::new(
                bit_cast(
                    TargetType::PointerInteger,
                    variable(&tag_name, crate::lower_types::compile_variant_tag_type()),
                ).expression,
            ),
            Box::new(
                bit_cast(TargetType::PointerInteger, compile_tag(&alternative.type_)).expression,
            ),
        ),
        type_: TargetType::Boolean,
    };
    let ghost m1 = ctx.module;
    let mut then_instructions: Vec<Instruction> = Vec::new();
    let payload_name = ctx.generate_name();
    then_instructions.push(
        Instruction::DeconstructRecord(duplicate_typed(argument), 1, payload_name.clone()),
    );
    let payload = variable(&payload_name, compile_variant_payload_type());
    if !crate::lower::check_wf_type(&alternative.type_, types) {
        return Err(CompileError::Build);
    }
    let unboxed = compile_unboxed_payload(
        ctx,
        &mut then_instructions,
        &payload,
        &alternative.type_,
        types,
    )?;
    let ghost m2 = ctx.module;
    let inner = variables.with(&alternative.name, unboxed, alternative.type_.clone());
    let then_value = compile_expression(
        ctx,
        &mut then_instructions,
        &alternative.expression,
        &inner,
        types,
    )?;
    let ghost m3 = ctx.module;
    let mut else_instructions: Vec<Instruction> = Vec::new();
    let rest = compile_alternatives(
        ctx,
        &mut else_instructions,
        argument,
        case,
        position + 1,
        variables,
        types,
    )?;
    let ghost m4 = ctx.module;
    let result_type = duplicate_type(&then_value.type_);
    let else_block = match rest {
        Some(value) => Block {
            instructions: else_instructions,
            terminal: TerminalInstruction::Branch(value),
        },
        None => Block {
            instructions: else_instructions,
            terminal: TerminalInstruction::Unreachable,
        },
    };
    let name = ctx.generate_name();
    instructions.push(
        Instruction::If(
            condition,
            Block {
                instructions: then_instructions,
                terminal: TerminalInstruction::Branch(then_value),
            },
            else_block,
            duplicate_type(&result_type),
            name.clone(),
        ),
    );
    proof {
        crate::target::lemma_module_extends_transitive(old(ctx).module, m1, m2);
        crate::target::lemma_module_extends_transitive(old(ctx).module, m2, m3);
        crate::target::lemma_module_extends_transitive(old(ctx).module, m3, m4);
        crate::target::lemma_module_extends_transitive(old(ctx).module, m4, ctx.module);
    }
    Ok(Some(variable(&name, result_type)))
}


/// The lowered environment record of a definition's free variables.
pub fn compile_environment_type(definition: &Definition, types: &Vec<TypeDefinition>) -> (r:
    TargetType)
{
    let mut elements: Vec<TargetType> = Vec::new();
    let mut i: usize = 0;
    while i < definition.environment.len()
        decreases definition.environment.len() - i,
    {
        elements.push(compile_type_or_void(&definition.environment[i].type_, types));
        i += 1;
    }
    TargetType::Record(elements)
}

/// A thunk's payload: a union of its environment, used while unevaluated,
/// and its cached result, used after; a plain function's payload is the
/// environment alone.
pub fn compile_closure_payload(definition: &Definition, types: &Vec<TypeDefinition>) -> (r:
    TargetType)
{
    if definition.is_thunk {
        let mut members: Vec<TargetType> = Vec::new();
        members.push(compile_environment_type(definition, types));
        members.push(compile_type_or_void(&definition.result_type, types));
        TargetType::Union(members)
    } else {
        compile_environment_type(definition, types)
    }
}

/// The entry function type of a definition: the untyped closure pointer,
/// then the lowered arguments, then the lowered result, in the source
/// convention.
pub fn compile_entry_function_type(definition: &Definition, types: &Vec<TypeDefinition>) -> (r:
    TargetFunctionType)
    ensures
        r.calling_convention == CallingConvention::Source,
        r.arguments@.len() == definition.arguments@.len() + 1,
{
    let mut arguments: Vec<TargetType> = Vec::new();
    arguments.push(compile_untyped_closure_pointer());
    let mut i: usize = 0;
    while i < definition.arguments.len()
        invariant
            0 <= i <= definition.arguments.len(),
            arguments@.len() == i + 1,
        decreases definition.arguments.len() - i,
    {
        arguments.push(compile_type_or_void(&definition.arguments[i].type_, types));
        i += 1;
    }
    TargetFunctionType {
        arguments,
        result: Box::new(compile_type_or_void(&definition.result_type, types)),
        calling_convention: CallingConvention::Source,
    }
}

/// The sized closure record of one definition: entry function, drop
/// function, arity, concrete payload.
pub fn compile_sized_closure(definition: &Definition, types: &Vec<TypeDefinition>) -> (r:
    TargetType)
{
    let mut elements: Vec<TargetType> = Vec::new();
    elements.push(TargetType::Function(compile_entry_function_type(definition, types)));
    elements.push(compile_closure_drop_function());
    elements.push(compile_arity_type());
    elements.push(compile_closure_payload(definition, types));
    TargetType::Record(elements)
}

/// A closure value: entry function, drop function, the entry's arity, and
/// the captured free variables.
pub fn compile_closure_content(
    entry_function: TypedExpression,
    drop_function: TypedExpression,
    free_variables: Vec<TypedExpression>,
) -> (r: TypedExpression)
{
    let arity: usize = match &entry_function.type_ {
        TargetType::Function(ft) => {
            if ft.arguments.len() >= 1 {
                ft.arguments.len() - 1
            } else {
                0
            }
        },
        _ => 0,
    };
    let mut environment_types: Vec<TargetType> = Vec::new();
    let mut environment_values: Vec<TargetExpression> = Vec::new();
    let mut i: usize = 0;
    while i < free_variables.len()
        decreases free_variables.len() - i,
    {
        environment_types.push(duplicate_type(&free_variables[i].type_));
        environment_values.push(crate::lower::duplicate_expression(&free_variables[i].expression));
        i += 1;
    }
    let mut element_types: Vec<TargetType> = Vec::new();
    element_types.push(duplicate_type(&entry_function.type_));
    element_types.push(duplicate_type(&drop_function.type_));
    element_types.push(compile_arity_type());
    element_types.push(TargetType::Record(duplicate_types(&environment_types)));
    let mut elements: Vec<TargetExpression> = Vec::new();
    elements.push(entry_function.expression);
    elements.push(drop_function.expression);
    elements.push(compile_arity(arity).expression);
    elements.push(
        TargetExpression::Record(duplicate_types(&environment_types), environment_values),
    );
    TypedExpression {
        expression: TargetExpression::Record(duplicate_types(&element_types), elements),
        type_: TargetType::Record(element_types),
    }
}

/// The address of a closure's environment slot.
fn compile_environment_pointer(
    ctx: &mut ModuleContext,
    instructions: &mut Vec<Instruction>,
    definition: &Definition,
    types: &Vec<TypeDefinition>,
) -> (r: TypedExpression)
    ensures
        final(ctx).module == old(ctx).module,
        final(instructions)@ == old(instructions)@.push(final(instructions)@.last()),
        final(instructions)@.last() matches Instruction::RecordAddress(_, slot, slot_name) && slot
            == 3 && (r.expression matches TargetExpression::Variable(n) && n@ == slot_name@),
{
    let closure_name: String = "_closure".to_owned();
    let closure = bit_cast(
        TargetType::Pointer(Box::new(compile_sized_closure(definition, types))),
        variable(&closure_name, compile_untyped_closure_pointer()),
    );
    let name = ctx.generate_name();
    instructions.push(Instruction::RecordAddress(closure, 3, name.clone()));
    variable(&name, TargetType::Pointer(Box::new(compile_closure_payload(definition, types))))
}

/// The address of a thunk's cached-value slot: the second member of its
/// payload union.
fn compile_thunk_value_pointer(
    ctx: &mut ModuleContext,
    instructions: &mut Vec<Instruction>,
    definition: &Definition,
    types: &Vec<TypeDefinition>,
) -> (r: TypedExpression)
    ensures
        final(ctx).module == old(ctx).module,
        final(instructions)@.len() == old(instructions)@.len() + 2,
        final(instructions)@.take(old(instructions)@.len() as int) == old(instructions)@,
        final(instructions)@[final(instructions)@.len() - 2] matches Instruction::RecordAddress(
            _,
            payload_slot,
            _,
        ) && payload_slot == 3,
        final(instructions)@.last() matches Instruction::UnionAddress(_, value_slot, value_name)
            && value_slot == 1 && (r.expression matches TargetExpression::Variable(n) && n@
            == value_name@),
{
    let payload = compile_environment_pointer(ctx, instructions, definition, types);
    let name = ctx.generate_name();
    instructions.push(Instruction::UnionAddress(payload, 1, name.clone()));
    variable(
        &name,
        TargetType::Pointer(Box::new(compile_type_or_void(&definition.result_type, types))),
    )
}

/// Emits the drop function of a plain closure: it drops every captured
/// free variable.
/// The body reads every environment element: for each index one
/// deconstruction at that index stands somewhere in it.
pub open spec fn is_element_read(i: Instruction, k: int) -> bool {
    i matches Instruction::DeconstructRecord(_, idx, _) && idx == k
}

pub open spec fn reads_element(body: Seq<Instruction>, k: int) -> bool {
    exists|j: int| 0 <= j < body.len() && is_element_read(#[trigger] body[j], k)
}

pub open spec fn reads_environment_elements(body: Seq<Instruction>, count: int) -> bool {
    forall|k: int| 0 <= k < count ==> #[trigger] reads_element(body, k)
}

pub fn compile_drop_function(
    ctx: &mut ModuleContext,
    definition: &Definition,
    types: &Vec<TypeDefinition>,
) -> (r: TypedExpression)
    ensures
        module_extends(old(ctx).module, final(ctx).module),
        names_last_function(r, final(ctx).module),
        drop_definition_shape(final(ctx).module.function_definitions@.last()),
        final(ctx).module.function_definitions@.last().body.instructions@.len() >= 2,
        final(ctx).module.function_definitions@.last().body.instructions@[0]
            matches Instruction::RecordAddress(_, payload_slot, _) && payload_slot == 3,
        final(ctx).module.function_definitions@.last().body.instructions@[1]
            matches Instruction::Load(_, _),
        reads_environment_elements(
            final(ctx).module.function_definitions@.last().body.instructions@,
            definition.environment@.len() as int,
        ),
{
    let mut instructions: Vec<Instruction> = Vec::new();
    let environment_pointer = compile_generic_environment_pointer(ctx, &mut instructions);
    let env_type = compile_environment_type(definition, types);
    let typed_pointer = bit_cast(
        TargetType::Pointer(Box::new(duplicate_type(&env_type))),
        environment_pointer,
    );
    let load_name = ctx.generate_name();
    instructions.push(Instruction::Load(typed_pointer, load_name.clone()));
    let environment = variable(&load_name, env_type);
    let mut i: usize = 0;
    while i < definition.environment.len()
        invariant
            0 <= i <= definition.environment@.len(),
            ctx.module == old(ctx).module,
            instructions@.len() >= 2,
            instructions@[0] matches Instruction::RecordAddress(_, payload_slot, _) && payload_slot
                == 3,
            instructions@[1] matches Instruction::Load(_, _),
            reads_environment_elements(instructions@, i as int),
        decreases definition.environment.len() - i,
    {
        let ghost pre = instructions@;
        let element_name = ctx.generate_name();
        instructions.push(
            Instruction::DeconstructRecord(duplicate_typed(&environment), i, element_name.clone()),
        );
        let ghost mid = instructions@;
        let ghost deconstruct_index = instructions@.len() - 1;
        let free_variable = &definition.environment[i];
        if crate::lower::check_wf_type(&free_variable.type_, types) {
            let element = variable(
                &element_name,
                compile_type_or_void(&free_variable.type_, types),
            );
            drop_expression(ctx, &mut instructions, &element, &free_variable.type_, types);
        }
        proof {
            assert(reads_environment_elements(instructions@, i + 1int)) by {
                assert forall|k: int| 0 <= k < i + 1 implies #[trigger] reads_element(
                    instructions@,
                    k,
                ) by {
                    if k < i {
                        assert(reads_element(pre, k));
                        let j0 = choose|j0: int|
                            0 <= j0 < pre.len() && is_element_read(#[trigger] pre[j0], k);
                        assert(mid[j0] == pre[j0]);
                        assert(instructions@.take(mid.len() as int)[j0] == instructions@[j0]);
                        assert(instructions@[j0] == mid[j0]);
                        assert(is_element_read(instructions@[j0], k));
                    } else {
                        assert(mid[deconstruct_index] == mid.last());
                        assert(instructions@.take(mid.len() as int)[deconstruct_index]
                            == instructions@[deconstruct_index]);
                        assert(is_element_read(instructions@[deconstruct_index], k));
                    }
                }
            }
            assert(instructions@[0] == mid[0]) by {
                assert(instructions@.take(mid.len() as int)[0] == instructions@[0]);
            }
            assert(instructions@[1] == mid[1]) by {
                assert(instructions@.take(mid.len() as int)[1] == instructions@[1]);
            }
            assert(mid[0] == pre[0]);
            assert(mid[1] == pre[1]);
        }
        i += 1;
    }
    add_drop_function_definition(ctx, instructions)
}

/// Emits the drop function a thunk installs after evaluation: it drops
/// the cached result instead of the environment.
pub fn compile_normal_thunk_drop_function(
    ctx: &mut ModuleContext,
    definition: &Definition,
    types: &Vec<TypeDefinition>,
) -> (r: TypedExpression)
    ensures
        module_extends(old(ctx).module, final(ctx).module),
        names_last_function(r, final(ctx).module),
        drop_definition_shape(final(ctx).module.function_definitions@.last()),
        final(ctx).module.function_definitions@.last().body.instructions@.len() >= 3,
        final(ctx).module.function_definitions@.last().body.instructions@[1]
            matches Instruction::UnionAddress(_, value_slot, _) && value_slot == 1,
        final(ctx).module.function_definitions@.last().body.instructions@[2]
            matches Instruction::Load(_, _),
        spec_wf_type(definition.result_type@, type_defs_view(types@)) ==> crate::lower::emits_drop_of(
            definition.result_type@,
            final(ctx).module.function_definitions@.last().body.instructions@.skip(
                final(ctx).module.function_definitions@.last().body.instructions@.len()
                    - crate::lower::rc_dispatch_len(definition.result_type@),
            ),
        ),
{
    let mut instructions: Vec<Instruction> = Vec::new();
    let environment_pointer = compile_generic_environment_pointer(ctx, &mut instructions);
    let payload_pointer = bit_cast(
        TargetType::Pointer(Box::new(compile_closure_payload(definition, types))),
        environment_pointer,
    );
    let value_address_name = ctx.generate_name();
    instructions.push(
        Instruction::UnionAddress(payload_pointer, 1, value_address_name.clone()),
    );
    let load_name = ctx.generate_name();
    instructions.push(
        Instruction::Load(
            variable(
                &value_address_name,
                TargetType::Pointer(
                    Box::new(compile_type_or_void(&definition.result_type, types)),
                ),
            ),
            load_name.clone(),
        ),
    );
    let ghost mid = instructions@;
    if crate::lower::check_wf_type(&definition.result_type, types) {
        let value = variable(&load_name, compile_type_or_void(&definition.result_type, types));
        drop_expression(ctx, &mut instructions, &value, &definition.result_type, types);
        proof {
            crate::lower::lemma_drop_emits_len(
                definition.result_type@,
                instructions@.skip(mid.len() as int),
            );
            assert(instructions@.skip(
                instructions@.len() - crate::lower::rc_dispatch_len(definition.result_type@),
            ) =~= instructions@.skip(mid.len() as int));
        }
    }
    proof {
        assert(instructions@[1] == mid[1]) by {
            assert(instructions@.take(mid.len() as int)[1] == instructions@[1]);
        }
        assert(instructions@[2] == mid[2]) by {
            assert(instructions@.take(mid.len() as int)[2] == instructions@[2]);
        }
    }
    add_drop_function_definition(ctx, instructions)
}

/// The environment address seen from inside a drop function, which takes
/// the closure as a pointer-sized integer. The drop and arity slots sit at
/// fixed offsets in every closure, so a generic shape serves.
fn compile_generic_environment_pointer(
    ctx: &mut ModuleContext,
    instructions: &mut Vec<Instruction>,
) -> (r: TypedExpression)
    ensures
        final(ctx).module == old(ctx).module,
        final(instructions)@ == old(instructions)@.push(final(instructions)@.last()),
        final(instructions)@.last() matches Instruction::RecordAddress(_, payload_slot, slot_name)
            && payload_slot == 3 && (r.expression matches TargetExpression::Variable(n) && n@
            == slot_name@),
{
    let argument_name: String = "_closure".to_owned();
    let closure = bit_cast(
        crate::lower::generic_closure_pointer_type(),
        variable(&argument_name, TargetType::PointerInteger),
    );
    let name = ctx.generate_name();
    instructions.push(Instruction::RecordAddress(closure, 3, name.clone()));
    variable(&name, TargetType::Pointer(Box::new(void_type())))
}

/// Adds one drop-function definition around the given body.
/// The frame every emitted drop function shares: internal linkage,
/// target convention, one pointer-sized closure-address argument, a
/// void-returning body.
pub open spec fn drop_definition_shape(d: crate::target::TargetFunctionDefinition) -> bool {
    &&& d.calling_convention == CallingConvention::Target
    &&& d.linkage == Linkage::Internal
    &&& d.arguments@.len() == 1
    &&& d.arguments@[0].1 == TargetType::PointerInteger
    &&& d.body.terminal matches TerminalInstruction::Return(_)
}

fn add_drop_function_definition(ctx: &mut ModuleContext, instructions: Vec<Instruction>) -> (r:
    TypedExpression)
    ensures
        module_extends(old(ctx).module, final(ctx).module),
        names_last_function(r, final(ctx).module),
        drop_definition_shape(final(ctx).module.function_definitions@.last()),
        final(ctx).module.function_definitions@.last().body.instructions@ == instructions@,
{
    let name = ctx.generate_name();
    let mut arguments: Vec<(String, TargetType)> = Vec::new();
    arguments.push(("_closure".to_owned(), TargetType::PointerInteger));
    ctx.add_function_definition(
        TargetFunctionDefinition {
            name: name.clone(),
            arguments,
            result_type: void_type(),
            body: Block { instructions, terminal: TerminalInstruction::Return(void_value()) },
            calling_convention: CallingConvention::Target,
            linkage: Linkage::Internal,
        },
    );
    variable(&name, compile_closure_drop_function())
}


/// Lowers a recursive binding: a heap closure is allocated and filled
/// with the definition's entry function, drop function, arity and
/// captured environment, and the body sees the name as a pointer to it.
fn compile_let_recursive(
    ctx: &mut ModuleContext,
    instructions: &mut Vec<Instruction>,
    let_: &crate::ir::LetRecursive,
    variables: &VariableMap,
    types: &Vec<TypeDefinition>,
) -> (r: Result<TypedExpression, CompileError>)
    ensures
        r matches Err(e2) ==> !(e2 matches CompileError::ReferenceCount(_)),
        module_extends(old(ctx).module, final(ctx).module),
        final(instructions)@.len() >= old(instructions)@.len(),
        final(instructions)@.take(old(instructions)@.len() as int) == old(instructions)@,
    decreases *let_,
{
    let definition = &let_.definition;
    let closure_pointer = allocate_heap(
        ctx,
        instructions,
        compile_sized_closure(definition, types),
    );
    let ghost m1 = ctx.module;
    let entry_function = compile_entry_function(ctx, definition, variables, types)?;
    let ghost m2 = ctx.module;
    let drop_fn = compile_drop_function(ctx, definition, types);
    let ghost m3 = ctx.module;
    let mut free_variables: Vec<TypedExpression> = Vec::new();
    let mut i: usize = 0;
    while i < definition.environment.len()
        invariant
            ctx.module == m3,
            instructions@.len() >= old(instructions)@.len(),
            instructions@.take(old(instructions)@.len() as int) == old(instructions)@,
            module_extends(old(ctx).module, m1),
            module_extends(m1, m2),
            module_extends(m2, m3),
        decreases definition.environment.len() - i,
    {
        match variables.get(&definition.environment[i].name) {
            Some((value, _)) => {
                free_variables.push(value);
            },
            None => {
                proof {
                    crate::target::lemma_module_extends_transitive(old(ctx).module, m1, m2);
                    crate::target::lemma_module_extends_transitive(old(ctx).module, m2, m3);
                }
                return Err(CompileError::Build);
            },
        }
        i += 1;
    }
    instructions.push(
        Instruction::Store(
            compile_closure_content(entry_function, drop_fn, free_variables),
            duplicate_typed(&closure_pointer),
        ),
    );
    let bound_type = definition.type_();
    let inner = variables.with(
        &definition.name,
        bit_cast(compile_type_or_void(&bound_type, types), closure_pointer),
        bound_type,
    );
    let r = compile_expression(ctx, instructions, &let_.expression, &inner, types);
    proof {
        crate::target::lemma_module_extends_transitive(old(ctx).module, m1, m2);
        crate::target::lemma_module_extends_transitive(old(ctx).module, m2, m3);
        crate::target::lemma_module_extends_transitive(old(ctx).module, m3, ctx.module);
    }
    r
}

/// The entry-function arguments of a definition: the untyped closure
/// pointer, then its own arguments.
fn compile_entry_arguments(definition: &Definition, types: &Vec<TypeDefinition>) -> (r: Vec<
    (String, TargetType),
>)
    ensures
        r@.len() == definition.arguments@.len() + 1,
        crate::lower_types::is_untyped_closure_pointer(r@[0].1),
{
    let mut arguments: Vec<(String, TargetType)> = Vec::new();
    arguments.push(("_closure".to_owned(), compile_untyped_closure_pointer()));
    let mut i: usize = 0;
    while i < definition.arguments.len()
        invariant
            0 <= i <= definition.arguments@.len(),
            arguments@.len() == i + 1,
            crate::lower_types::is_untyped_closure_pointer(arguments@[0].1),
        decreases definition.arguments.len() - i,
    {
        arguments.push(
            (
                definition.arguments[i].name.clone(),
                compile_type_or_void(&definition.arguments[i].type_, types),
            ),
        );
        i += 1;
    }
    arguments
}


/// The frame every emitted entry function shares: internal linkage,
/// source calling convention, the untyped closure pointer first and one
/// argument per definition argument.
pub open spec fn entry_definition_shape(
    d: crate::target::TargetFunctionDefinition,
    definition: Definition,
) -> bool {
    &&& d.calling_convention == CallingConvention::Source
    &&& d.linkage == Linkage::Internal
    &&& d.arguments@.len() == definition.arguments@.len() + 1
    &&& crate::lower_types::is_untyped_closure_pointer(d.arguments@[0].1)
}

/// The settled branch of a thunk's initial entry: the winner's block
/// caches the result in the payload union's value slot, installs the
/// settled drop function, and publishes the settled entry with release
/// ordering before returning; each loser re-loads the entry with acquire
/// ordering and calls whatever it now names.
pub open spec fn is_initial_thunk_branch(i: Instruction) -> bool {
    i matches Instruction::If(_, winner, loser, _, _) && {
        let w = winner.instructions@;
        &&& w.len() >= 5
        &&& w[w.len() - 5] matches Instruction::UnionAddress(_, value_slot, _) && value_slot == 1
        &&& w[w.len() - 4] matches Instruction::Store(_, _)
        &&& w[w.len() - 3] matches Instruction::RecordAddress(_, drop_slot, _) && drop_slot == 1
        &&& w[w.len() - 2] matches Instruction::Store(_, _)
        &&& (w.last() matches Instruction::AtomicStore(_, _, publish) && publish
            == AtomicOrdering::Release)
        &&& winner.terminal matches TerminalInstruction::Return(_)
        &&& {
            let l = loser.instructions@;
            &&& l.len() == 2
            &&& (l[0] matches Instruction::AtomicLoad(_, reload, reload_name) && reload
                == AtomicOrdering::Acquire && (l[1] matches Instruction::Call(
                reloaded,
                _,
                call_name,
            ) && (reloaded.expression matches TargetExpression::Variable(rn) && rn@ == reload_name@)
                && (loser.terminal matches TerminalInstruction::Return(result)
                && (result.expression matches TargetExpression::Variable(cn) && cn@
                == call_name@))))
        }
    }
}

/// The body of a settled thunk's entry: it loads the cached value from
/// the payload union's value slot and returns it (after its clone).
pub open spec fn is_normal_thunk_body(b: Block) -> bool {
    let body = b.instructions@;
    &&& body.len() >= 3
    &&& body[0] matches Instruction::RecordAddress(_, payload_slot, _) && payload_slot == 3
    &&& body[1] matches Instruction::UnionAddress(_, value_slot, _) && value_slot == 1
    &&& body[2] matches Instruction::Load(_, value_name) && (b.terminal
        matches TerminalInstruction::Return(v) && (v.expression
        matches TargetExpression::Variable(n) && n@ == value_name@))
}

/// The body of a locked thunk's entry: it re-loads the entry pointer
/// with acquire ordering; observing itself still installed is
/// unreachable under current semantics, anything else means the thunk
/// settled and the cached value is returned.
pub open spec fn is_locked_thunk_body(b: Block) -> bool {
    let body = b.instructions@;
    &&& body.len() >= 2
    &&& (body[1] matches Instruction::AtomicLoad(_, reload, _) && reload == AtomicOrdering::Acquire)
    &&& body.last() matches Instruction::If(_, still_locked, settled, _, _) && (
    still_locked.terminal matches TerminalInstruction::Unreachable) && (settled.terminal
        matches TerminalInstruction::Return(_))
    &&& b.terminal matches TerminalInstruction::Unreachable
}

/// The value returned by an entry-function synthesis names the function
/// definition appended last.
pub open spec fn names_last_function(v: TypedExpression, m: crate::target::TargetModule) -> bool {
    m.function_definitions@.len() > 0 && (v.expression matches TargetExpression::Variable(n) && n@
        == m.function_definitions@.last().name@)
}

/// Synthesizes the entry function of one definition: a plain function
/// gets a single body; a thunk gets the three-state protocol.
pub fn compile_entry_function(
    ctx: &mut ModuleContext,
    definition: &Definition,
    variables: &VariableMap,
    types: &Vec<TypeDefinition>,
) -> (r: Result<TypedExpression, CompileError>)
    ensures
        r matches Err(e2) ==> !(e2 matches CompileError::ReferenceCount(_)),
        module_extends(old(ctx).module, final(ctx).module),
        r matches Ok(v) ==> names_last_function(v, final(ctx).module) && entry_definition_shape(
            final(ctx).module.function_definitions@.last(),
            *definition,
        ),
    decreases *definition, 4int,
{
    if definition.is_thunk {
        compile_thunk(ctx, definition, variables, types)
    } else {
        compile_non_thunk(ctx, definition, variables, types)
    }
}

fn compile_non_thunk(
    ctx: &mut ModuleContext,
    definition: &Definition,
    variables: &VariableMap,
    types: &Vec<TypeDefinition>,
) -> (r: Result<TypedExpression, CompileError>)
    ensures
        r matches Err(e2) ==> !(e2 matches CompileError::ReferenceCount(_)),
        module_extends(old(ctx).module, final(ctx).module),
        r matches Ok(v) ==> names_last_function(v, final(ctx).module) && entry_definition_shape(
            final(ctx).module.function_definitions@.last(),
            *definition,
        ),
        r matches Ok(_) ==> final(ctx).module.function_definitions@.last().body.terminal
            matches TerminalInstruction::Return(_),
        definition.body@ matches SpecExpr::Number(bits) ==> (r matches Ok(_)
            ==> (final(ctx).module.function_definitions@.last().body.terminal
            matches TerminalInstruction::Return(t) && t.expression
            == TargetExpression::Float64Bits(bits))),
        definition.body@ matches SpecExpr::Boolean(b) ==> (r matches Ok(_)
            ==> (final(ctx).module.function_definitions@.last().body.terminal
            matches TerminalInstruction::Return(t) && t.expression == TargetExpression::Boolean(
            b,
        ))),
    decreases *definition, 3int,
{
    let mut instructions: Vec<Instruction> = Vec::new();
    let value = compile_body(ctx, &mut instructions, definition, variables, types)?;
    let ghost m1 = ctx.module;
    let name = ctx.generate_name();
    ctx.add_function_definition(
        TargetFunctionDefinition {
            name: name.clone(),
            arguments: compile_entry_arguments(definition, types),
            result_type: compile_type_or_void(&definition.result_type, types),
            body: Block { instructions, terminal: TerminalInstruction::Return(value) },
            calling_convention: CallingConvention::Source,
            linkage: Linkage::Internal,
        },
    );
    proof {
        crate::target::lemma_module_extends_transitive(old(ctx).module, m1, ctx.module);
    }
    Ok(variable(&name, TargetType::Function(compile_entry_function_type(definition, types))))
}

/// The compiled body of a definition: its free variables are loaded from
/// the environment and cloned, its own name is bound to the closure, and
/// its arguments are in scope.
fn compile_body(
    ctx: &mut ModuleContext,
    instructions: &mut Vec<Instruction>,
    definition: &Definition,
    variables: &VariableMap,
    types: &Vec<TypeDefinition>,
) -> (r: Result<TypedExpression, CompileError>)
    ensures
        r matches Err(e2) ==> !(e2 matches CompileError::ReferenceCount(_)),
        module_extends(old(ctx).module, final(ctx).module),
        final(instructions)@.len() > old(instructions)@.len(),
        final(instructions)@[old(instructions)@.len() as int]
            matches Instruction::RecordAddress(_, payload_slot, _) && payload_slot == 3,
        definition.is_thunk ==> (final(instructions)@.len() >= old(instructions)@.len() + 2 && (
        final(instructions)@[old(instructions)@.len() + 1int]
            matches Instruction::UnionAddress(_, environment_member, _) && environment_member
            == 0)),
        definition.body@ matches SpecExpr::Number(bits) ==> (r matches Ok(t) && t.expression
            == TargetExpression::Float64Bits(bits) && t.type_ == TargetType::Float64),
        definition.body@ matches SpecExpr::Boolean(b) ==> (r matches Ok(t) && t.expression
            == TargetExpression::Boolean(b) && t.type_ == TargetType::Boolean),
    decreases *definition, 1int,
{
    let ghost base = instructions@;
    let payload_pointer = compile_environment_pointer(ctx, instructions, definition, types);
    let environment_pointer = if definition.is_thunk {
        let name = ctx.generate_name();
        instructions.push(Instruction::UnionAddress(payload_pointer, 0, name.clone()));
        variable(&name, TargetType::Pointer(Box::new(compile_environment_type(definition, types))))
    } else {
        payload_pointer
    };
    let ghost head = instructions@;
    let mut scope = variables.duplicate();
    let mut i: usize = 0;
    while i < definition.environment.len()
        invariant
            ctx.module == old(ctx).module,
            head.len() > base.len(),
            instructions@.len() >= head.len(),
            instructions@.take(head.len() as int) == head,
            head[base.len() as int] matches Instruction::RecordAddress(_, payload_slot, _)
                && payload_slot == 3,
            definition.is_thunk ==> (head.len() >= base.len() + 2 && (head[base.len() + 1int]
                matches Instruction::UnionAddress(_, environment_member, _) && environment_member
                == 0)),
        decreases definition.environment.len() - i,
    {
        let ghost pre = instructions@;
        let free_variable = &definition.environment[i];
        let address_name = ctx.generate_name();
        instructions.push(
            Instruction::RecordAddress(
                duplicate_typed(&environment_pointer),
                i,
                address_name.clone(),
            ),
        );
        let value_name = ctx.generate_name();
        instructions.push(
            Instruction::Load(
                variable(
                    &address_name,
                    TargetType::Pointer(
                        Box::new(compile_type_or_void(&free_variable.type_, types)),
                    ),
                ),
                value_name.clone(),
            ),
        );
        let value = variable(&value_name, compile_type_or_void(&free_variable.type_, types));
        let ghost mid2 = instructions@;
        if crate::lower::check_wf_type(&free_variable.type_, types) {
            clone_expression(ctx, instructions, &value, &free_variable.type_, types);
        }
        proof {
            assert(instructions@.take(head.len() as int) =~= head) by {
                assert forall|k: int| 0 <= k < head.len() implies instructions@[k] == head[k] by {
                    assert(instructions@.take(mid2.len() as int)[k] == instructions@[k]);
                    assert(instructions@[k] == mid2[k]);
                    assert(mid2[k] == pre[k]);
                }
            }
        }
        scope = scope.with(&free_variable.name, value, free_variable.type_.clone());
        i += 1;
    }
    let ghost before_body = instructions@;
    let own_type = definition.type_();
    let closure_value = bit_cast(
        compile_type_or_void(&own_type, types),
        variable(&"_closure".to_owned(), compile_untyped_closure_pointer()),
    );
    scope = scope.with(&definition.name, closure_value, own_type);
    let mut j: usize = 0;
    while j < definition.arguments.len()
        invariant
            ctx.module == old(ctx).module,
        decreases definition.arguments.len() - j,
    {
        let argument = &definition.arguments[j];
        scope = scope.with(
            &argument.name,
            variable(&argument.name, compile_type_or_void(&argument.type_, types)),
            argument.type_.clone(),
        );
        j += 1;
    }
    let r = compile_expression(ctx, instructions, &definition.body, &scope, types);
    proof {
        assert(instructions@[base.len() as int] == before_body[base.len() as int]) by {
            assert(instructions@.take(before_body.len() as int)[base.len() as int]
                == instructions@[base.len() as int]);
        }
        if definition.is_thunk {
            assert(instructions@[base.len() + 1int] == before_body[base.len() + 1int]) by {
                assert(instructions@.take(before_body.len() as int)[base.len() + 1int]
                    == instructions@[base.len() + 1int]);
            }
            assert(before_body[base.len() + 1int] == head[base.len() + 1int]);
        }
        assert(before_body[base.len() as int] == head[base.len() as int]);
    }
    r
}

/// The address of a thunk's atomic entry-function slot.
fn compile_entry_function_pointer(
    ctx: &mut ModuleContext,
    instructions: &mut Vec<Instruction>,
    definition: &Definition,
    types: &Vec<TypeDefinition>,
) -> (r: TypedExpression)
    ensures
        final(ctx).module == old(ctx).module,
        final(instructions)@ == old(instructions)@.push(final(instructions)@.last()),
        final(instructions)@.last() matches Instruction::RecordAddress(_, entry_slot, slot_name)
            && entry_slot == 0 && (r.expression matches TargetExpression::Variable(n) && n@
            == slot_name@),
{
    let closure = bit_cast(
        TargetType::Pointer(Box::new(compile_sized_closure(definition, types))),
        variable(&"_closure".to_owned(), compile_untyped_closure_pointer()),
    );
    let name = ctx.generate_name();
    instructions.push(Instruction::RecordAddress(closure, 0, name.clone()));
    variable(
        &name,
        TargetType::Pointer(
            Box::new(TargetType::Function(compile_entry_function_type(definition, types))),
        ),
    )
}

/// The cached-value load, clone and return every settled thunk entry
/// shares.
fn compile_normal_body(
    ctx: &mut ModuleContext,
    instructions: &mut Vec<Instruction>,
    definition: &Definition,
    types: &Vec<TypeDefinition>,
) -> (r: TypedExpression)
    ensures
        final(ctx).module == old(ctx).module,
        final(instructions)@.len() >= old(instructions)@.len() + 3,
        final(instructions)@.take(old(instructions)@.len() as int) == old(instructions)@,
        final(instructions)@[old(instructions)@.len() as int]
            matches Instruction::RecordAddress(_, payload_slot, _) && payload_slot == 3,
        final(instructions)@[old(instructions)@.len() + 1int]
            matches Instruction::UnionAddress(_, value_slot, _) && value_slot == 1,
        final(instructions)@[old(instructions)@.len() + 2int] matches Instruction::Load(
            _,
            value_name,
        ) && (r.expression matches TargetExpression::Variable(n) && n@ == value_name@),
{
    let ghost base = instructions@;
    let value_pointer = compile_thunk_value_pointer(ctx, instructions, definition, types);
    let name = ctx.generate_name();
    instructions.push(Instruction::Load(value_pointer, name.clone()));
    let value = variable(&name, compile_type_or_void(&definition.result_type, types));
    let ghost mid = instructions@;
    if crate::lower::check_wf_type(&definition.result_type, types) {
        clone_expression(ctx, instructions, &value, &definition.result_type, types);
    }
    proof {
        assert(instructions@[base.len() as int] == mid[base.len() as int]);
        assert(instructions@[base.len() + 1int] == mid[base.len() + 1int]);
        assert(instructions@[base.len() + 2int] == mid[base.len() + 2int]);
        assert(instructions@.take(base.len() as int) =~= base) by {
            assert forall|k: int| 0 <= k < base.len() implies instructions@[k] == base[k] by {
                assert(instructions@[k] == mid[k]);
            }
        }
    }
    value
}

/// Emits the entry function of a settled thunk: it loads the cached
/// value, clones it and returns it.
fn compile_normal_thunk_entry(
    ctx: &mut ModuleContext,
    definition: &Definition,
    types: &Vec<TypeDefinition>,
) -> (r: TypedExpression)
    ensures
        module_extends(old(ctx).module, final(ctx).module),
        names_last_function(r, final(ctx).module),
        entry_definition_shape(final(ctx).module.function_definitions@.last(), *definition),
        is_normal_thunk_body(final(ctx).module.function_definitions@.last().body),
    decreases *definition, 1int,
{
    let mut instructions: Vec<Instruction> = Vec::new();
    let value = compile_normal_body(ctx, &mut instructions, definition, types);
    let name = ctx.generate_name();
    ctx.add_function_definition(
        TargetFunctionDefinition {
            name: name.clone(),
            arguments: compile_entry_arguments(definition, types),
            result_type: compile_type_or_void(&definition.result_type, types),
            body: Block { instructions, terminal: TerminalInstruction::Return(value) },
            calling_convention: CallingConvention::Source,
            linkage: Linkage::Internal,
        },
    );
    variable(&name, TargetType::Function(compile_entry_function_type(definition, types)))
}

/// Emits the entry function of a locked thunk: observing itself still
/// installed means a second force raced the first evaluation, which
/// current semantics leave unreachable; otherwise the thunk has settled
/// and the cached value is returned.
fn compile_locked_thunk_entry(
    ctx: &mut ModuleContext,
    definition: &Definition,
    types: &Vec<TypeDefinition>,
) -> (r: TypedExpression)
    ensures
        module_extends(old(ctx).module, final(ctx).module),
        names_last_function(r, final(ctx).module),
        entry_definition_shape(final(ctx).module.function_definitions@.last(), *definition),
        is_locked_thunk_body(final(ctx).module.function_definitions@.last().body),
    decreases *definition, 0int,
{
    let name = ctx.generate_name();
    let mut instructions: Vec<Instruction> = Vec::new();
    let entry_pointer = compile_entry_function_pointer(ctx, &mut instructions, definition, types);
    let loaded_name = ctx.generate_name();
    instructions.push(
        Instruction::AtomicLoad(entry_pointer, AtomicOrdering::Acquire, loaded_name.clone()),
    );
    let entry_type = TargetType::Function(compile_entry_function_type(definition, types));
    let condition = TypedExpression {
        expression: TargetExpression::ComparisonOperation(
            ComparisonOperator::Equal,
            Box::new(
                bit_cast(
                    TargetType::PointerInteger,
                    variable(&loaded_name, duplicate_type(&entry_type)),
                ).expression,
            ),
            Box::new(
                bit_cast(TargetType::PointerInteger, variable(&name, entry_type)).expression,
            ),
        ),
        type_: TargetType::Boolean,
    };
    let mut normal_instructions: Vec<Instruction> = Vec::new();
    let value = compile_normal_body(ctx, &mut normal_instructions, definition, types);
    let if_name = ctx.generate_name();
    instructions.push(
        Instruction::If(
            condition,
            Block { instructions: Vec::new(), terminal: TerminalInstruction::Unreachable },
            Block {
                instructions: normal_instructions,
                terminal: TerminalInstruction::Return(value),
            },
            compile_type_or_void(&definition.result_type, types),
            if_name,
        ),
    );
    ctx.add_function_definition(
        TargetFunctionDefinition {
            name: name.clone(),
            arguments: compile_entry_arguments(definition, types),
            result_type: compile_type_or_void(&definition.result_type, types),
            body: Block { instructions, terminal: TerminalInstruction::Unreachable },
            calling_convention: CallingConvention::Source,
            linkage: Linkage::Internal,
        },
    );
    variable(&name, TargetType::Function(compile_entry_function_type(definition, types)))
}

/// Synthesizes a thunk's three entries and returns the initial one.
fn compile_thunk(
    ctx: &mut ModuleContext,
    definition: &Definition,
    variables: &VariableMap,
    types: &Vec<TypeDefinition>,
) -> (r: Result<TypedExpression, CompileError>)
    ensures
        r matches Err(e2) ==> !(e2 matches CompileError::ReferenceCount(_)),
        module_extends(old(ctx).module, final(ctx).module),
        r matches Ok(v) ==> names_last_function(v, final(ctx).module) && entry_definition_shape(
            final(ctx).module.function_definitions@.last(),
            *definition,
        ),
    decreases *definition, 3int,
{
    let normal = compile_normal_thunk_entry(ctx, definition, types);
    let ghost m1 = ctx.module;
    let locked = compile_locked_thunk_entry(ctx, definition, types);
    let ghost m2 = ctx.module;
    let r = compile_initial_thunk_entry(ctx, definition, normal, locked, variables, types);
    proof {
        crate::target::lemma_module_extends_transitive(old(ctx).module, m1, m2);
        crate::target::lemma_module_extends_transitive(old(ctx).module, m2, ctx.module);
    }
    r
}

/// Emits a thunk's initial entry: one compare-and-swap on the entry
/// pointer decides the winner (acquire on success, relaxed on failure);
/// the winner evaluates the body, clones and caches the result, installs
/// the settled drop function, publishes the settled entry with release
/// ordering and returns; every loser re-loads the entry pointer with
/// acquire ordering and tail-calls whatever it now names.
fn compile_initial_thunk_entry(
    ctx: &mut ModuleContext,
    definition: &Definition,
    normal_entry: TypedExpression,
    locked_entry: TypedExpression,
    variables: &VariableMap,
    types: &Vec<TypeDefinition>,
) -> (r: Result<TypedExpression, CompileError>)
    ensures
        r matches Err(e2) ==> !(e2 matches CompileError::ReferenceCount(_)),
        module_extends(old(ctx).module, final(ctx).module),
        r matches Ok(v) ==> names_last_function(v, final(ctx).module) && entry_definition_shape(
            final(ctx).module.function_definitions@.last(),
            *definition,
        ),
        r matches Ok(_) ==> {
            let defs = final(ctx).module.function_definitions@;
            &&& defs.len() > 0
            &&& defs.last().body.instructions@.len() >= 2
            &&& (defs.last().body.instructions@[defs.last().body.instructions@.len() - 2]
                matches Instruction::CompareAndSwap(_, _, _, so, fo, _) && so
                == AtomicOrdering::Acquire && fo == AtomicOrdering::Relaxed)
            &&& is_initial_thunk_branch(defs.last().body.instructions@.last())
            &&& defs.last().body.terminal matches TerminalInstruction::Unreachable
        },
    decreases *definition, 2int,
{
    let entry_name = ctx.generate_name();
    let entry_type = TargetType::Function(compile_entry_function_type(definition, types));
    let mut instructions: Vec<Instruction> = Vec::new();
    let entry_pointer = compile_entry_function_pointer(ctx, &mut instructions, definition, types);
    let cas_name = ctx.generate_name();
    instructions.push(
        Instruction::CompareAndSwap(
            duplicate_typed(&entry_pointer),
            variable(&entry_name, duplicate_type(&entry_type)),
            locked_entry,
            AtomicOrdering::Acquire,
            AtomicOrdering::Relaxed,
            cas_name.clone(),
        ),
    );
    let mut then_instructions: Vec<Instruction> = Vec::new();
    let ghost m1 = ctx.module;
    let value = compile_body(ctx, &mut then_instructions, definition, variables, types)?;
    let ghost m2 = ctx.module;
    if crate::lower::check_wf_type(&definition.result_type, types) {
        clone_expression(ctx, &mut then_instructions, &value, &definition.result_type, types);
    }
    let value_pointer = compile_thunk_value_pointer(ctx, &mut then_instructions, definition, types);
    then_instructions.push(Instruction::Store(duplicate_typed(&value), value_pointer));
    let normal_drop = compile_normal_thunk_drop_function(ctx, definition, types);
    let ghost m3 = ctx.module;
    let drop_slot = crate::lower::compile_drop_function_pointer(
        ctx,
        &mut then_instructions,
        &bit_cast(
            crate::lower::generic_closure_pointer_type(),
            variable(&"_closure".to_owned(), compile_untyped_closure_pointer()),
        ),
    );
    then_instructions.push(Instruction::Store(normal_drop, drop_slot));
    then_instructions.push(
        Instruction::AtomicStore(
            normal_entry,
            duplicate_typed(&entry_pointer),
            AtomicOrdering::Release,
        ),
    );
    let mut else_instructions: Vec<Instruction> = Vec::new();
    let reload_name = ctx.generate_name();
    else_instructions.push(
        Instruction::AtomicLoad(
            duplicate_typed(&entry_pointer),
            AtomicOrdering::Acquire,
            reload_name.clone(),
        ),
    );
    let mut call_arguments: Vec<TypedExpression> = Vec::new();
    call_arguments.push(variable(&"_closure".to_owned(), compile_untyped_closure_pointer()));
    let mut k: usize = 0;
    while k < definition.arguments.len()
        invariant
            ctx.module == m3,
        decreases definition.arguments.len() - k,
    {
        call_arguments.push(
            variable(
                &definition.arguments[k].name,
                compile_type_or_void(&definition.arguments[k].type_, types),
            ),
        );
        k += 1;
    }
    let call_name = ctx.generate_name();
    else_instructions.push(
        Instruction::Call(
            variable(&reload_name, duplicate_type(&entry_type)),
            call_arguments,
            call_name.clone(),
        ),
    );
    let if_name = ctx.generate_name();
    instructions.push(
        Instruction::If(
            variable(&cas_name, TargetType::Boolean),
            Block {
                instructions: then_instructions,
                terminal: TerminalInstruction::Return(value),
            },
            Block {
                instructions: else_instructions,
                terminal: TerminalInstruction::Return(
                    variable(&call_name, compile_type_or_void(&definition.result_type, types)),
                ),
            },
            compile_type_or_void(&definition.result_type, types),
            if_name,
        ),
    );
    ctx.add_function_definition(
        TargetFunctionDefinition {
            name: entry_name.clone(),
            arguments: compile_entry_arguments(definition, types),
            result_type: compile_type_or_void(&definition.result_type, types),
            body: Block { instructions, terminal: TerminalInstruction::Unreachable },
            calling_convention: CallingConvention::Source,
            linkage: Linkage::Internal,
        },
    );
    proof {
        crate::target::lemma_module_extends_transitive(old(ctx).module, m1, m2);
        crate::target::lemma_module_extends_transitive(old(ctx).module, m2, m3);
        crate::target::lemma_module_extends_transitive(old(ctx).module, m3, ctx.module);
    }
    Ok(variable(&entry_name, entry_type))
}


/// The calling convention a closure type's entry carries.
pub open spec fn entry_convention_of(t: TargetType) -> CallingConvention {
    match t {
        TargetType::Pointer(inner) => match *inner {
            TargetType::Record(elements) => if elements@.len() == 4 {
                match elements@[0] {
                    TargetType::Function(ft) => ft.calling_convention,
                    _ => CallingConvention::Source,
                }
            } else {
                CallingConvention::Source
            },
            _ => CallingConvention::Source,
        },
        _ => CallingConvention::Source,
    }
}

/// The arity a closure type carries: its entry function's argument count
/// less the closure itself.
pub open spec fn spec_closure_arity(t: TargetType) -> int {
    match t {
        TargetType::Pointer(inner) => match *inner {
            TargetType::Record(elements) => if elements@.len() == 4 {
                match elements@[0] {
                    TargetType::Function(ft) => if ft.arguments@.len() >= 1 {
                        ft.arguments@.len() - 1
                    } else {
                        0
                    },
                    _ => 0,
                }
            } else {
                0
            },
            _ => 0,
        },
        _ => 0,
    }
}

/// The runtime arity a closure value carries in its type: the entry
/// function's argument count less the closure itself.
fn closure_arity(function: &TypedExpression) -> (r: usize)
    ensures
        r == spec_closure_arity(function.type_),
{
    match &function.type_ {
        TargetType::Pointer(inner) => match &**inner {
            TargetType::Record(elements) => {
                if elements.len() == 4 {
                    match &elements[0] {
                        TargetType::Function(ft) => {
                            if ft.arguments.len() >= 1 {
                                ft.arguments.len() - 1
                            } else {
                                0
                            }
                        },
                        _ => 0,
                    }
                } else {
                    0
                }
            },
            _ => 0,
        },
        _ => 0,
    }
}

/// The entry function type a closure value carries.
fn closure_entry_type(function: &TypedExpression) -> (r: TargetType)
    ensures
        spec_closure_arity(function.type_) >= 1 ==> (r matches TargetType::Function(ft)
            && ft.calling_convention == entry_convention_of(function.type_) && ft.arguments@.len()
            == spec_closure_arity(function.type_) + 1),
{
    match &function.type_ {
        TargetType::Pointer(inner) => match &**inner {
            TargetType::Record(elements) => {
                if elements.len() == 4 {
                    duplicate_type(&elements[0])
                } else {
                    void_type()
                }
            },
            _ => void_type(),
        },
        _ => void_type(),
    }
}

/// Calls a closure whose arity the supplied arguments exactly meet: the
/// entry function is loaded atomically, to respect the thunk protocol,
/// and called with the closure and the arguments.
fn compile_exact_call(
    ctx: &mut ModuleContext,
    instructions: &mut Vec<Instruction>,
    function: TypedExpression,
    arguments: Vec<TypedExpression>,
) -> (r: TypedExpression)
    ensures
        final(ctx).module == old(ctx).module,
        final(instructions)@.len() >= old(instructions)@.len() + 3,
        final(instructions)@.take(old(instructions)@.len() as int) == old(instructions)@,
        final(instructions)@[final(instructions)@.len() - 2] matches Instruction::AtomicLoad(
            _,
            ordering,
            _,
        ) && ordering == AtomicOrdering::Acquire,
        final(instructions)@.last() matches Instruction::Call(_, _, _),
{
    let entry_type = closure_entry_type(&function);
    let result_type = match &entry_type {
        TargetType::Function(ft) => duplicate_type(&ft.result),
        _ => void_type(),
    };
    let address_name = ctx.generate_name();
    instructions.push(
        Instruction::RecordAddress(
            bit_cast(
                crate::lower::generic_closure_pointer_type(),
                compile_untagged_pointer(&function),
            ),
            0,
            address_name.clone(),
        ),
    );
    let entry_name = ctx.generate_name();
    instructions.push(
        Instruction::AtomicLoad(
            variable(&address_name, TargetType::Pointer(Box::new(duplicate_type(&entry_type)))),
            AtomicOrdering::Acquire,
            entry_name.clone(),
        ),
    );
    let mut call_arguments: Vec<TypedExpression> = Vec::new();
    call_arguments.push(bit_cast(compile_untyped_closure_pointer(), function));
    let mut i: usize = 0;
    let ghost n0 = instructions@.len();
    let ghost snapshot = instructions@;
    while i < arguments.len()
        invariant
            ctx.module == old(ctx).module,
            instructions@ == snapshot,
        decreases arguments.len() - i,
    {
        call_arguments.push(duplicate_typed(&arguments[i]));
        i += 1;
    }
    let call_name = ctx.generate_name();
    instructions.push(
        Instruction::Call(variable(&entry_name, entry_type), call_arguments, call_name.clone()),
    );
    variable(&call_name, result_type)
}

/// The application trampoline: with the arity met the closure is called
/// outright; an under-saturated call builds a partial-application closure
/// that captures the closure and the supplied arguments and waits for the
/// rest; an over-saturated call is split at the arity.
pub fn compile_function_application(
    ctx: &mut ModuleContext,
    instructions: &mut Vec<Instruction>,
    function: TypedExpression,
    arguments: Vec<TypedExpression>,
    argument_types: Vec<Type>,
    types: &Vec<TypeDefinition>,
) -> (r: Result<TypedExpression, CompileError>)
    requires
        argument_types@.len() == arguments@.len(),
    ensures
        r matches Err(e2) ==> !(e2 matches CompileError::ReferenceCount(_)),
        module_extends(old(ctx).module, final(ctx).module),
        final(instructions)@.len() >= old(instructions)@.len(),
        final(instructions)@.take(old(instructions)@.len() as int) == old(instructions)@,
        r matches Ok(_) ==> final(instructions)@.len() > old(instructions)@.len(),
    decreases arguments@.len(),
{
    let arity = closure_arity(&function);
    if arity == 0 {
        return Err(CompileError::Build);
    }
    if arguments.len() == arity {
        Ok(compile_exact_call(ctx, instructions, function, arguments))
    } else if arguments.len() < arity {
        compile_partial_application(ctx, instructions, function, arguments, argument_types, types)
    } else {
        let mut first_arguments: Vec<TypedExpression> = Vec::new();
        let mut rest_arguments: Vec<TypedExpression> = Vec::new();
        let mut rest_types: Vec<Type> = Vec::new();
        let mut i: usize = 0;
        while i < arguments.len()
            invariant
                0 <= i <= arguments@.len(),
                argument_types@.len() == arguments@.len(),
                ctx.module == old(ctx).module,
                instructions@ == old(instructions)@,
                arity >= 1,
                i <= arity ==> rest_arguments@.len() == 0,
                i >= arity ==> rest_arguments@.len() == i - arity,
                rest_types@.len() == rest_arguments@.len(),
            decreases arguments.len() - i,
        {
            if i < arity {
                first_arguments.push(duplicate_typed(&arguments[i]));
            } else {
                rest_arguments.push(duplicate_typed(&arguments[i]));
                rest_types.push(argument_types[i].clone());
            }
            i += 1;
        }
        let inner = compile_exact_call(ctx, instructions, function, first_arguments);
        compile_function_application(ctx, instructions, inner, rest_arguments, rest_types, types)
    }
}

/// Builds a partial-application closure: its environment captures the
/// original closure and the supplied arguments; its entry, given the
/// remaining arguments, reconstructs the full list and calls the original
/// entry; its arity is what remains.
fn compile_partial_application(
    ctx: &mut ModuleContext,
    instructions: &mut Vec<Instruction>,
    function: TypedExpression,
    arguments: Vec<TypedExpression>,
    argument_types: Vec<Type>,
    types: &Vec<TypeDefinition>,
) -> (r: Result<TypedExpression, CompileError>)
    requires
        argument_types@.len() == arguments@.len(),
    ensures
        r matches Err(e2) ==> !(e2 matches CompileError::ReferenceCount(_)),
        module_extends(old(ctx).module, final(ctx).module),
        final(instructions)@.len() >= old(instructions)@.len(),
        final(instructions)@.take(old(instructions)@.len() as int) == old(instructions)@,
        r matches Ok(_) ==> final(instructions)@.len() > old(instructions)@.len(),
        r matches Ok(v) ==> (v.type_ matches TargetType::Pointer(inner) && (*inner
            matches TargetType::Record(es) && es@.len() == 4 && (es@[0]
            matches TargetType::Function(ft) && ft.calling_convention == CallingConvention::Source
            && ft.arguments@.len() == spec_closure_arity(function.type_) - arguments@.len()
            + 1))),
{
    let arity = closure_arity(&function);
    if arity <= arguments.len() {
        return Err(CompileError::Build);
    }
    let entry_type = closure_entry_type(&function);
    let full_entry = match &entry_type {
        TargetType::Function(ft) => ft,
        _ => {
            return Err(CompileError::Build);
        },
    };
    // The environment: the original closure, then the captured arguments.
    let mut environment_types: Vec<TargetType> = Vec::new();
    environment_types.push(duplicate_type(&function.type_));
    let mut i: usize = 0;
    while i < arguments.len()
        invariant
            0 <= i <= arguments@.len(),
            argument_types@.len() == arguments@.len(),
            environment_types@.len() == i + 1,
            ctx.module == old(ctx).module,
        decreases arguments.len() - i,
    {
        environment_types.push(duplicate_type(&arguments[i].type_));
        i += 1;
    }
    let environment_type = TargetType::Record(duplicate_types(&environment_types));
    // The remaining-argument positions of the original entry.
    proof {
        assert(full_entry.arguments@.len() == spec_closure_arity(function.type_) + 1);
    }
    let mut remaining_types: Vec<TargetType> = Vec::new();
    let mut j: usize = arguments.len() + 1;
    while j < full_entry.arguments.len()
        invariant
            arguments@.len() + 1 <= j <= full_entry.arguments@.len(),
            remaining_types@.len() == j - arguments@.len() - 1,
            ctx.module == old(ctx).module,
        decreases full_entry.arguments.len() - j,
    {
        remaining_types.push(duplicate_type(&full_entry.arguments[j]));
        j += 1;
    }
    proof {
        assert(remaining_types@.len() == full_entry.arguments@.len() - arguments@.len() - 1);
    }
    // The partial entry function.
    let entry_name = ctx.generate_name();
    let mut entry_arguments: Vec<(String, TargetType)> = Vec::new();
    entry_arguments.push(("_closure".to_owned(), compile_untyped_closure_pointer()));
    let mut remaining_names: Vec<String> = Vec::new();
    let mut k: usize = 0;
    while k < remaining_types.len()
        invariant
            ctx.module == old(ctx).module,
            remaining_names@.len() == k,
            entry_arguments@.len() == k + 1,
            k <= remaining_types@.len(),
        decreases remaining_types.len() - k,
    {
        let argument_name = ctx.generate_name();
        entry_arguments.push((argument_name.clone(), duplicate_type(&remaining_types[k])));
        remaining_names.push(argument_name);
        k += 1;
    }
    let mut body: Vec<Instruction> = Vec::new();
    // Load the environment out of the partial closure.
    let environment_address_name = ctx.generate_name();
    body.push(
        Instruction::RecordAddress(
            bit_cast(
                crate::lower::generic_closure_pointer_type(),
                variable(&"_closure".to_owned(), compile_untyped_closure_pointer()),
            ),
            3,
            environment_address_name.clone(),
        ),
    );
    let environment_name = ctx.generate_name();
    body.push(
        Instruction::Load(
            bit_cast(
                TargetType::Pointer(Box::new(duplicate_type(&environment_type))),
                variable(&environment_address_name, TargetType::Pointer(Box::new(void_type()))),
            ),
            environment_name.clone(),
        ),
    );
    let environment = variable(&environment_name, duplicate_type(&environment_type));
    let original_name = ctx.generate_name();
    body.push(
        Instruction::DeconstructRecord(duplicate_typed(&environment), 0, original_name.clone()),
    );
    let original = variable(&original_name, duplicate_type(&function.type_));
    let mut full_arguments: Vec<TypedExpression> = Vec::new();
    let mut c: usize = 0;
    while c < arguments.len()
        invariant
            ctx.module == old(ctx).module,
            c <= arguments@.len(),
        decreases arguments.len() - c,
    {
        let captured_name = ctx.generate_name();
        body.push(
            Instruction::DeconstructRecord(
                duplicate_typed(&environment),
                c + 1,
                captured_name.clone(),
            ),
        );
        full_arguments.push(variable(&captured_name, duplicate_type(&arguments[c].type_)));
        c += 1;
    }
    let mut n: usize = 0;
    while n < remaining_names.len()
        invariant
            ctx.module == old(ctx).module,
            remaining_names@.len() == remaining_types@.len(),
            n <= remaining_names@.len(),
        decreases remaining_names.len() - n,
    {
        full_arguments.push(
            variable(&remaining_names[n], duplicate_type(&remaining_types[n])),
        );
        n += 1;
    }
    let result = compile_exact_call(ctx, &mut body, original, full_arguments);
    let partial_entry_result_type = duplicate_type(&full_entry.result);
    let mut partial_entry_argument_types: Vec<TargetType> = Vec::new();
    partial_entry_argument_types.push(compile_untyped_closure_pointer());
    let mut t: usize = 0;
    while t < remaining_types.len()
        invariant
            ctx.module == old(ctx).module,
        decreases remaining_types.len() - t,
    {
        partial_entry_argument_types.push(duplicate_type(&remaining_types[t]));
        t += 1;
    }
    ctx.add_function_definition(
        TargetFunctionDefinition {
            name: entry_name.clone(),
            arguments: entry_arguments,
            result_type: duplicate_type(&partial_entry_result_type),
            body: Block { instructions: body, terminal: TerminalInstruction::Return(result) },
            calling_convention: CallingConvention::Source,
            linkage: Linkage::Internal,
        },
    );
    let ghost m1 = ctx.module;
    let partial_entry = variable(
        &entry_name,
        TargetType::Function(
            TargetFunctionType {
                arguments: partial_entry_argument_types,
                result: Box::new(partial_entry_result_type),
                calling_convention: CallingConvention::Source,
            },
        ),
    );
    // The drop function of the partial closure: it releases the captured
    // closure and those captured arguments whose lowered shape decides
    // their handling. A captured boxed record's drop function is named by
    // its source type, which the target shape no longer carries; such a
    // capture is left to the enclosing scope.
    let drop_fn = compile_partial_drop_function(ctx, &environment_types, &argument_types, types);
    let ghost m2 = ctx.module;
    // The partial closure itself.
    let mut captured: Vec<TypedExpression> = Vec::new();
    captured.push(duplicate_typed(&function));
    let mut a: usize = 0;
    while a < arguments.len()
        invariant
            ctx.module == m2,
        decreases arguments.len() - a,
    {
        captured.push(duplicate_typed(&arguments[a]));
        a += 1;
    }
    let content = compile_closure_content(partial_entry, drop_fn, captured);
    let closure_pointer = allocate_heap(ctx, instructions, duplicate_type(&content.type_));
    instructions.push(Instruction::Store(content, duplicate_typed(&closure_pointer)));
    // The partial closure seen as an unsized closure of the remaining type.
    let mut unsized_entry_arguments: Vec<TargetType> = Vec::new();
    unsized_entry_arguments.push(compile_untyped_closure_pointer());
    let mut v: usize = 0;
    while v < remaining_types.len()
        invariant
            0 <= v <= remaining_types@.len(),
            unsized_entry_arguments@.len() == v + 1,
            ctx.module == m2,
        decreases remaining_types.len() - v,
    {
        unsized_entry_arguments.push(duplicate_type(&remaining_types[v]));
        v += 1;
    }
    let mut unsized_elements: Vec<TargetType> = Vec::new();
    unsized_elements.push(
        TargetType::Function(
            TargetFunctionType {
                arguments: unsized_entry_arguments,
                result: Box::new(duplicate_type(&full_entry.result)),
                calling_convention: CallingConvention::Source,
            },
        ),
    );
    unsized_elements.push(compile_closure_drop_function());
    unsized_elements.push(compile_arity_type());
    unsized_elements.push(void_type());
    let r = bit_cast(
        TargetType::Pointer(Box::new(TargetType::Record(unsized_elements))),
        closure_pointer,
    );
    proof {
        crate::target::lemma_module_extends_transitive(old(ctx).module, m1, m2);
        crate::target::lemma_module_extends_transitive(old(ctx).module, m2, ctx.module);
    }
    Ok(r)
}

/// The drop function of a partial-application closure, dispatching on the
/// lowered shapes of its captures.
/// The drop function of a partial-application closure: it releases the
/// captured original closure through the closure drop protocol, then each
/// captured argument by its source type.
fn compile_partial_drop_function(
    ctx: &mut ModuleContext,
    environment_types: &Vec<TargetType>,
    argument_types: &Vec<Type>,
    types: &Vec<TypeDefinition>,
) -> (r: TypedExpression)
    requires
        environment_types@.len() == argument_types@.len() + 1,
    ensures
        module_extends(old(ctx).module, final(ctx).module),
        names_last_function(r, final(ctx).module),
        drop_definition_shape(final(ctx).module.function_definitions@.last()),
        exists|j: int|
            0 <= j < final(ctx).module.function_definitions@.last().body.instructions@.len()
                && crate::lower::is_drop_function_emission(
                #[trigger] final(ctx).module.function_definitions@.last().body.instructions@[j],
            ),
        forall|k: int|
            1 <= k < environment_types@.len() ==> #[trigger] reads_element(
                final(ctx).module.function_definitions@.last().body.instructions@,
                k,
            ),
{
    let mut instructions: Vec<Instruction> = Vec::new();
    let environment_pointer = compile_generic_environment_pointer(ctx, &mut instructions);
    let environment_type = TargetType::Record(duplicate_types(environment_types));
    let load_name = ctx.generate_name();
    instructions.push(
        Instruction::Load(
            bit_cast(
                TargetType::Pointer(Box::new(duplicate_type(&environment_type))),
                environment_pointer,
            ),
            load_name.clone(),
        ),
    );
    let environment = variable(&load_name, environment_type);
    let closure_name = ctx.generate_name();
    instructions.push(
        Instruction::DeconstructRecord(duplicate_typed(&environment), 0, closure_name.clone()),
    );
    let closure = variable(&closure_name, duplicate_type(&environment_types[0]));
    crate::lower::drop_function(ctx, &mut instructions, &closure);
    let ghost closure_drop_index = instructions@.len() - 1;
    proof {
        assert(crate::lower::is_drop_function_emission(instructions@[closure_drop_index]));
    }
    let mut i: usize = 0;
    while i < argument_types.len()
        invariant
            0 <= i <= argument_types@.len(),
            ctx.module == old(ctx).module,
            environment_types@.len() == argument_types@.len() + 1,
            0 <= closure_drop_index < instructions@.len(),
            crate::lower::is_drop_function_emission(instructions@[closure_drop_index]),
            forall|k: int| 1 <= k < i + 1 ==> #[trigger] reads_element(instructions@, k),
        decreases argument_types.len() - i,
    {
        let ghost pre = instructions@;
        let element_name = ctx.generate_name();
        instructions.push(
            Instruction::DeconstructRecord(
                duplicate_typed(&environment),
                i + 1,
                element_name.clone(),
            ),
        );
        let ghost mid = instructions@;
        let ghost deconstruct_index = instructions@.len() - 1;
        let element = variable(&element_name, duplicate_type(&environment_types[i + 1]));
        if crate::lower::check_wf_type(&argument_types[i], types) {
            crate::lower::drop_expression(ctx, &mut instructions, &element, &argument_types[i],
                types);
        }
        proof {
            assert(instructions@[closure_drop_index] == mid[closure_drop_index]) by {
                assert(instructions@.take(mid.len() as int)[closure_drop_index]
                    == instructions@[closure_drop_index]);
                assert(mid[closure_drop_index] == pre[closure_drop_index]);
            }
            assert forall|k: int| 1 <= k < i + 2 implies #[trigger] reads_element(
                instructions@,
                k,
            ) by {
                if k < i + 1 {
                    assert(reads_element(pre, k));
                    let j0 = choose|j0: int|
                        0 <= j0 < pre.len() && is_element_read(#[trigger] pre[j0], k);
                    assert(mid[j0] == pre[j0]);
                    assert(instructions@.take(mid.len() as int)[j0] == instructions@[j0]);
                    assert(is_element_read(instructions@[j0], k));
                } else {
                    assert(mid[deconstruct_index] == mid.last());
                    assert(instructions@.take(mid.len() as int)[deconstruct_index]
                        == instructions@[deconstruct_index]);
                    assert(is_element_read(instructions@[deconstruct_index], k));
                }
            }
        }
        i += 1;
    }
    add_drop_function_definition(ctx, instructions)
}

/// The environment entries a definition captures, without any entry named
/// like the definition itself, which the closure already binds.
pub open spec fn spec_environment_without_self(
    env: Seq<crate::ir::SpecArgument>,
    name: Seq<char>,
) -> Seq<crate::ir::SpecArgument>
    decreases env.len(),
{
    if env.len() == 0 {
        Seq::empty()
    } else {
        let rest = spec_environment_without_self(env.drop_last(), name);
        if env.last().name == name {
            rest
        } else {
            rest.push(env.last())
        }
    }
}

/// The free variables of a definition other than its own name.
pub fn get_environment_from_definition(definition: &Definition) -> (r: Vec<crate::ir::Argument>)
    ensures
        crate::ir::arguments_view(r@) == spec_environment_without_self(
            crate::ir::arguments_view(definition.environment@),
            definition.name@,
        ),
{
    let ghost all = crate::ir::arguments_view(definition.environment@);
    let mut r: Vec<crate::ir::Argument> = Vec::new();
    let mut i: usize = 0;
    proof {
        assert(crate::ir::arguments_view(definition.environment@.take(0)) =~= Seq::empty());
        assert(crate::ir::arguments_view(r@) =~= Seq::empty());
        assert(spec_environment_without_self(
            crate::ir::arguments_view(definition.environment@.take(0)),
            definition.name@,
        ) =~= Seq::empty());
    }
    while i < definition.environment.len()
        invariant
            0 <= i <= definition.environment.len(),
            all == crate::ir::arguments_view(definition.environment@),
            crate::ir::arguments_view(r@) == spec_environment_without_self(
                crate::ir::arguments_view(definition.environment@.take(i as int)),
                definition.name@,
            ),
        decreases definition.environment.len() - i,
    {
        let ghost r0 = r@;
        let ghost prefix = crate::ir::arguments_view(definition.environment@.take(i as int));
        if definition.environment[i].name != definition.name {
            r.push(definition.environment[i].clone());
            proof {
                assert(r@ == r0.push(r@.last()));
                crate::ir::lemma_arguments_view_push(r0, r@.last());
            }
        }
        proof {
            assert(definition.environment@.take(i + 1 as int) =~= definition.environment@.take(
                i as int,
            ).push(definition.environment@[i as int]));
            crate::ir::lemma_arguments_view_push(
                definition.environment@.take(i as int),
                definition.environment@[i as int],
            );
            assert(crate::ir::arguments_view(definition.environment@.take(i + 1 as int)).drop_last()
                =~= prefix);
            assert(crate::ir::arguments_view(r@) =~= spec_environment_without_self(
                crate::ir::arguments_view(definition.environment@.take(i + 1 as int)),
                definition.name@,
            ));
        }
        i += 1;
    }
    proof {
        assert(definition.environment@.take(definition.environment.len() as int)
            =~= definition.environment@);
    }
    r
}


/// A copy of a name-to-type scope with one more binding.
fn type_scope_with(scope: &Vec<(String, Type)>, name: &String, type_: Type) -> (r: Vec<
    (String, Type),
>)
{
    let mut r: Vec<(String, Type)> = Vec::new();
    let mut i: usize = 0;
    while i < scope.len()
        decreases scope.len() - i,
    {
        r.push((scope[i].0.clone(), scope[i].1.clone()));
        i += 1;
    }
    r.push((name.clone(), type_));
    r
}

/// The latest type bound to a name.
fn type_scope_get(scope: &Vec<(String, Type)>, name: &String) -> (r: Option<Type>)
{
    let mut i: usize = scope.len();
    while i > 0
        invariant
            0 <= i <= scope.len(),
        decreases i,
    {
        i -= 1;
        if scope[i].0 == *name {
            return Some(scope[i].1.clone());
        }
    }
    None
}

/// The name-to-type part of a lowering scope.
fn type_scope_of(variables: &VariableMap) -> (r: Vec<(String, Type)>)
{
    let mut r: Vec<(String, Type)> = Vec::new();
    let mut i: usize = 0;
    while i < variables.entries.len()
        decreases variables.entries.len() - i,
    {
        r.push((variables.entries[i].0.clone(), variables.entries[i].2.clone()));
        i += 1;
    }
    r
}

/// The source type of an expression under a typing scope, where one
/// exists: the application trampoline needs each argument's source type
/// to generate the partial closure's drop function.
fn infer_expression_type(
    expression: &Expression,
    scope: &Vec<(String, Type)>,
    types: &Vec<TypeDefinition>,
) -> (r: Option<Type>)
    decreases *expression,
{
    match expression {
        Expression::ArithmeticOperation(_) => Some(Type::Number),
        Expression::Boolean(_) => Some(Type::Boolean),
        Expression::ByteString(_) => Some(Type::ByteString),
        Expression::Case(case) => {
            if case.alternatives.len() > 0 {
                let alternative = &case.alternatives[0];
                let inner = type_scope_with(scope, &alternative.name, alternative.type_.clone());
                infer_expression_type(&alternative.expression, &inner, types)
            } else {
                match &case.default_alternative {
                    Some(default) => {
                        let inner = type_scope_with(scope, &default.name, Type::Variant);
                        infer_expression_type(&default.expression, &inner, types)
                    },
                    None => None,
                }
            }
        },
        Expression::CloneVariables(clone) => infer_expression_type(&clone.expression, scope, types),
        Expression::ComparisonOperation(_) => Some(Type::Boolean),
        Expression::DropVariables(drop) => infer_expression_type(&drop.expression, scope, types),
        Expression::FunctionApplication(application) => {
            match infer_expression_type(&application.function, scope, types) {
                Some(Type::Function(function_type)) => Some((*function_type.result).clone()),
                _ => None,
            }
        },
        Expression::If(if_) => infer_expression_type(&if_.then_, scope, types),
        Expression::Let(let_) => {
            let inner = type_scope_with(scope, &let_.name, let_.type_.clone());
            infer_expression_type(&let_.expression, &inner, types)
        },
        Expression::LetRecursive(let_) => {
            let inner = type_scope_with(
                scope,
                &let_.definition.name,
                let_.definition.type_(),
            );
            infer_expression_type(&let_.expression, &inner, types)
        },
        Expression::Number(_) => Some(Type::Number),
        Expression::Record(record) => Some(Type::Record(record.type_.clone())),
        Expression::RecordElement(element) => {
            match crate::lower_types::lookup_elements(types, &element.type_.name) {
                Some(elements) => {
                    if element.index < elements.len() {
                        Some(elements[element.index].clone())
                    } else {
                        None
                    }
                },
                None => None,
            }
        },
        Expression::Variable(variable_) => type_scope_get(scope, &variable_.name),
        Expression::Variant(_) => Some(Type::Variant),
    }
}

} // verus!
