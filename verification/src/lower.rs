//! Lowering of reference-count operations and closure layouts. Heap
//! values carry an atomic counter one slot before the value; clone and
//! drop test the pointer's tag bit and skip counter work on static
//! pointers. Every record and variant type gets emitted clone and drop
//! functions with weak linkage.

use crate::ir::{CallingConvention, ComparisonOperator};
use crate::lower_types::{
    compile_arity_type, compile_closure_drop_function, compile_record_type, compile_type,
    compile_untyped_closure_pointer, compile_variant_payload_type, compile_variant_tag_type,
    is_record_boxed, spec_lookup_elements, spec_record_boxed, spec_wf_type, type_defs_view,
    void_type,
};
use crate::module::TypeDefinition;
use crate::target::{
    defines_function, defines_variable, module_extends, AtomicOperator, Block, Instruction,
    Linkage, ModuleContext, TargetExpression, TargetType, TargetVariableDefinition,
    TerminalInstruction, TypedExpression,
};
use crate::types::{RecordType, SpecType, Type};
use vstd::prelude::*;

verus! {

/// A compile-time failure; one aborts the whole lowering.
#[derive(Debug, PartialEq)]
pub enum CompileError {
    /// A variant's payload is itself of the variant type.
    NestedVariant,
    /// The reference-count pass rejected the module.
    ReferenceCount(crate::reference_count::ReferenceCountError),
    /// A malformed construction the builder refuses: an unbound variable,
    /// an unresolved record name, an application of a non-function.
    Build,
}

/// The void value: an empty record.
pub fn void_value() -> (r: TypedExpression)
    ensures
        crate::lower_types::is_void_type(r.type_),
{
    let types: Vec<TargetType> = Vec::new();
    let elements: Vec<TargetExpression> = Vec::new();
    TypedExpression { expression: TargetExpression::Record(types, elements), type_: void_type() }
}

/// A pointer-sized integer constant.
pub fn pointer_integer(value: i64) -> (r: TypedExpression)
    ensures
        r.type_ == TargetType::PointerInteger,
        r.expression == TargetExpression::PointerInteger(value),
{
    TypedExpression {
        expression: TargetExpression::PointerInteger(value),
        type_: TargetType::PointerInteger,
    }
}

/// A variable reference of a known type.
pub fn variable(name: &String, type_: TargetType) -> (r: TypedExpression)
    ensures
        r.expression matches TargetExpression::Variable(n) && n@ == name@,
        r.type_ == type_,
{
    TypedExpression { expression: TargetExpression::Variable(name.clone()), type_: type_ }
}

/// A bit cast of a value to a target type.
pub fn bit_cast(to: TargetType, argument: TypedExpression) -> (r: TypedExpression)
    ensures
        r.type_ == to,
        r.expression matches TargetExpression::BitCast(_, _, inner) && *inner
            == argument.expression,
{
    let from = argument.type_;
    TypedExpression {
        expression: TargetExpression::BitCast(from, duplicate_type(&to), Box::new(
            argument.expression,
        )),
        type_: to,
    }
}

/// A copy of a target type; a function type keeps its convention and
/// argument count.
pub fn duplicate_type(type_: &TargetType) -> (r: TargetType)
    ensures
        type_ matches TargetType::Function(ft) ==> (r matches TargetType::Function(ft2)
            && ft2.calling_convention == ft.calling_convention && ft2.arguments@.len()
            == ft.arguments@.len()),
    decreases *type_,
{
    match type_ {
        TargetType::Boolean => TargetType::Boolean,
        TargetType::Float64 => TargetType::Float64,
        TargetType::Function(function) => TargetType::Function(
            crate::target::TargetFunctionType {
                arguments: duplicate_types(&function.arguments),
                result: Box::new(duplicate_type(&function.result)),
                calling_convention: function.calling_convention,
            },
        ),
        TargetType::Integer8 => TargetType::Integer8,
        TargetType::Integer64 => TargetType::Integer64,
        TargetType::Pointer(inner) => TargetType::Pointer(Box::new(duplicate_type(inner))),
        TargetType::PointerInteger => TargetType::PointerInteger,
        TargetType::Record(elements) => TargetType::Record(duplicate_types(elements)),
        TargetType::Union(members) => TargetType::Union(duplicate_types(members)),
    }
}

/// A copy of a vector of target types, of the same length.
pub fn duplicate_types(types: &Vec<TargetType>) -> (r: Vec<TargetType>)
    ensures
        r@.len() == types@.len(),
    decreases *types,
{
    let mut r: Vec<TargetType> = Vec::new();
    let mut i: usize = 0;
    while i < types.len()
        invariant
            0 <= i <= types@.len(),
            r@.len() == i,
        decreases types.len() - i,
    {
        r.push(duplicate_type(&types[i]));
        i += 1;
    }
    r
}

/// The pointer's low bit read as an integer, for the heap/static test.
fn pointer_as_integer(pointer: &TypedExpression) -> (r: TypedExpression)
    ensures
        r.type_ == TargetType::PointerInteger,
{
    TypedExpression {
        expression: TargetExpression::BitCast(
            duplicate_type(&pointer.type_),
            TargetType::PointerInteger,
            Box::new(duplicate_expression(&pointer.expression)),
        ),
        type_: TargetType::PointerInteger,
    }
}

/// A copy of a target expression.
pub fn duplicate_expression(e: &TargetExpression) -> (r: TargetExpression)
    decreases *e,
{
    match e {
        TargetExpression::ArithmeticOperation(operator, lhs, rhs) => {
            TargetExpression::ArithmeticOperation(
                *operator,
                Box::new(duplicate_expression(lhs)),
                Box::new(duplicate_expression(rhs)),
            )
        },
        TargetExpression::BitCast(from, to, argument) => TargetExpression::BitCast(
            duplicate_type(from),
            duplicate_type(to),
            Box::new(duplicate_expression(argument)),
        ),
        TargetExpression::BitwiseXor(lhs, rhs) => TargetExpression::BitwiseXor(
            Box::new(duplicate_expression(lhs)),
            Box::new(duplicate_expression(rhs)),
        ),
        TargetExpression::BitwiseAnd(lhs, rhs) => TargetExpression::BitwiseAnd(
            Box::new(duplicate_expression(lhs)),
            Box::new(duplicate_expression(rhs)),
        ),
        TargetExpression::Boolean(b) => TargetExpression::Boolean(*b),
        TargetExpression::ComparisonOperation(operator, lhs, rhs) => {
            TargetExpression::ComparisonOperation(
                *operator,
                Box::new(duplicate_expression(lhs)),
                Box::new(duplicate_expression(rhs)),
            )
        },
        TargetExpression::Float64Bits(bits) => TargetExpression::Float64Bits(*bits),
        TargetExpression::Integer8(v) => TargetExpression::Integer8(*v),
        TargetExpression::PointerInteger(v) => TargetExpression::PointerInteger(*v),
        TargetExpression::Record(types, elements) => TargetExpression::Record(
            duplicate_types(types),
            duplicate_expressions(elements),
        ),
        TargetExpression::SizeOf(type_) => TargetExpression::SizeOf(duplicate_type(type_)),
        TargetExpression::Undefined(type_) => TargetExpression::Undefined(duplicate_type(type_)),
        TargetExpression::Union(types, index, member) => TargetExpression::Union(
            duplicate_types(types),
            *index,
            Box::new(duplicate_expression(member)),
        ),
        TargetExpression::Variable(name) => TargetExpression::Variable(name.clone()),
    }
}

fn duplicate_expressions(es: &Vec<TargetExpression>) -> (r: Vec<TargetExpression>)
    decreases *es,
{
    let mut r: Vec<TargetExpression> = Vec::new();
    let mut i: usize = 0;
    while i < es.len()
        decreases es.len() - i,
    {
        r.push(duplicate_expression(&es[i]));
        i += 1;
    }
    r
}

/// A copy of a typed expression.
pub fn duplicate_typed(e: &TypedExpression) -> (r: TypedExpression)
{
    TypedExpression {
        expression: duplicate_expression(&e.expression),
        type_: duplicate_type(&e.type_),
    }
}

/// The address of a heap value's reference counter: one pointer-integer
/// slot before the value.
pub fn get_counter_pointer(
    ctx: &mut ModuleContext,
    instructions: &mut Vec<Instruction>,
    heap_pointer: &TypedExpression,
) -> (r: TypedExpression)
    ensures
        final(ctx).module == old(ctx).module,
        r.type_ == TargetType::Pointer(Box::new(TargetType::PointerInteger)),
        final(instructions)@ == old(instructions)@.push(final(instructions)@.last()),
        is_counter_slot(final(instructions)@.last()),
{
    let name = ctx.generate_name();
    let pointer_type = TargetType::Pointer(Box::new(TargetType::PointerInteger));
    instructions.push(
        Instruction::PointerAddress(
            bit_cast(duplicate_type(&pointer_type), duplicate_typed(heap_pointer)),
            pointer_integer(-1),
            name.clone(),
        ),
    );
    variable(&name, pointer_type)
}

/// The boolean expression testing that the low tag bit is clear.
pub open spec fn is_tag_bit_test(e: TargetExpression) -> bool {
    e matches TargetExpression::ComparisonOperation(op, lhs, one) && op
        == ComparisonOperator::NotEqual && (*lhs matches TargetExpression::BitwiseAnd(_, mask)
        && *mask == TargetExpression::PointerInteger(1i64)) && *one
        == TargetExpression::PointerInteger(1i64)
}

/// The boolean expression testing that a pointer's bit pattern is defined.
pub open spec fn is_defined_test(e: TargetExpression) -> bool {
    e matches TargetExpression::ComparisonOperation(op, _, undef) && op
        == ComparisonOperator::NotEqual && (*undef matches TargetExpression::Undefined(t) && t
        == TargetType::PointerInteger)
}

/// One instruction guarding the given body behind the defined-pointer and
/// heap-tag tests, with empty alternatives: reference counting runs only
/// on defined heap pointers.
pub open spec fn is_heap_guard(i: Instruction, body: Seq<Instruction>) -> bool {
    i matches Instruction::If(outer_condition, outer_then, outer_else, _, _) && is_defined_test(
        outer_condition.expression,
    ) && outer_else.instructions@.len() == 0 && outer_then.instructions@.len() == 1 && (
    outer_then.instructions@[0] matches Instruction::If(
        inner_condition,
        inner_then,
        inner_else,
        _,
        _,
    ) && is_tag_bit_test(inner_condition.expression) && inner_else.instructions@.len() == 0
        && inner_then.instructions@ == body)
}

/// The address of the reference counter: one pointer-integer slot before
/// the value.
pub open spec fn is_counter_slot(i: Instruction) -> bool {
    i matches Instruction::PointerAddress(_, offset, _) && offset.expression
        == TargetExpression::PointerInteger(-1i64)
}

/// The counter raise: take the slot before the value, atomically add one.
pub open spec fn is_counter_add_body(body: Seq<Instruction>) -> bool {
    body.len() == 2 && is_counter_slot(body[0]) && (body[1] matches Instruction::AtomicOperation(
        op,
        _,
        amount,
        _,
    ) && op == AtomicOperator::Add && amount.expression == TargetExpression::PointerInteger(1i64))
}

/// The counter release: atomically subtract one; exactly when the
/// pre-decrement count was zero, run the content drops and free the
/// block.
pub open spec fn is_counter_drop_body(body: Seq<Instruction>, content: Seq<Instruction>) -> bool {
    body.len() == 3 && is_counter_slot(body[0]) && (body[1] matches Instruction::AtomicOperation(
        op,
        _,
        amount,
        count_name,
    ) && op == AtomicOperator::Subtract && amount.expression == TargetExpression::PointerInteger(
        1i64,
    ) && (body[2] matches Instruction::If(condition, free_block, keep_block, _, _) && (
    condition.expression matches TargetExpression::ComparisonOperation(cmp, counted, zero) && cmp
        == ComparisonOperator::Equal && (*counted matches TargetExpression::Variable(n) && n@
        == count_name@) && *zero == TargetExpression::PointerInteger(0i64))
        && keep_block.instructions@.len() == 0 && free_block.instructions@.len() == content.len()
        + 1 && free_block.instructions@.take(content.len() as int) == content && (
    free_block.instructions@.last() matches Instruction::FreeHeap(_))))
}

/// One appended instruction raising a heap pointer's count under the
/// pointer guards.
pub open spec fn is_clone_pointer_emission(i: Instruction) -> bool {
    exists|body: Seq<Instruction>| #[trigger] is_heap_guard(i, body) && is_counter_add_body(body)
}

/// One appended instruction releasing a heap pointer under the pointer
/// guards, running the given drops before the free.
pub open spec fn is_drop_pointer_emission(i: Instruction, content: Seq<Instruction>) -> bool {
    exists|body: Seq<Instruction>| #[trigger] is_heap_guard(i, body) && is_counter_drop_body(
        body,
        content,
    )
}

/// The closure release content: load the drop function from slot one and
/// call it on the closure address.
pub open spec fn is_closure_drop_content(content: Seq<Instruction>) -> bool {
    content.len() == 3 && (content[0] matches Instruction::RecordAddress(_, slot, _) && slot == 1)
        && (content[1] matches Instruction::Load(_, load_name) && (content[2]
        matches Instruction::Call(callee, call_arguments, _) && (callee.expression
        matches TargetExpression::Variable(callee_name) && callee_name@ == load_name@)
        && call_arguments@.len() == 1))
}

/// One appended instruction releasing a closure: the counter protocol
/// whose zero-count content calls the closure's own drop function.
pub open spec fn is_drop_function_emission(i: Instruction) -> bool {
    exists|content: Seq<Instruction>| #[trigger] is_drop_pointer_emission(i, content)
        && is_closure_drop_content(content)
}

/// The boolean that the pointer refers to the heap: its tag bit is clear.
fn is_heap_pointer(pointer: &TypedExpression) -> (r: TypedExpression)
    ensures
        r.type_ == TargetType::Boolean,
        is_tag_bit_test(r.expression),
{
    TypedExpression {
        expression: TargetExpression::ComparisonOperation(
            ComparisonOperator::NotEqual,
            Box::new(
                TargetExpression::BitwiseAnd(
                    Box::new(pointer_as_integer(pointer).expression),
                    Box::new(TargetExpression::PointerInteger(1)),
                ),
            ),
            Box::new(TargetExpression::PointerInteger(1)),
        ),
        type_: TargetType::Boolean,
    }
}

/// The boolean that the pointer holds a defined bit pattern.
fn is_defined_pointer(pointer: &TypedExpression) -> (r: TypedExpression)
    ensures
        r.type_ == TargetType::Boolean,
        is_defined_test(r.expression),
{
    TypedExpression {
        expression: TargetExpression::ComparisonOperation(
            ComparisonOperator::NotEqual,
            Box::new(pointer_as_integer(pointer).expression),
            Box::new(TargetExpression::Undefined(TargetType::PointerInteger)),
        ),
        type_: TargetType::Boolean,
    }
}

/// Runs the given instructions only on a defined heap pointer: reference
/// counting short-circuits on static and undefined pointers.
pub fn if_heap_pointer(
    ctx: &mut ModuleContext,
    instructions: &mut Vec<Instruction>,
    pointer: &TypedExpression,
    then_instructions: Vec<Instruction>,
) -> (r: ())
    ensures
        final(ctx).module == old(ctx).module,
        final(instructions)@ == old(instructions)@.push(final(instructions)@.last()),
        is_heap_guard(final(instructions)@.last(), then_instructions@),
{
    let inner_name = ctx.generate_name();
    let inner = Instruction::If(
        is_heap_pointer(pointer),
        Block {
            instructions: then_instructions,
            terminal: TerminalInstruction::Branch(void_value()),
        },
        Block { instructions: Vec::new(), terminal: TerminalInstruction::Branch(void_value()) },
        void_type(),
        inner_name,
    );
    let outer_name = ctx.generate_name();
    let mut inner_instructions: Vec<Instruction> = Vec::new();
    inner_instructions.push(inner);
    instructions.push(
        Instruction::If(
            is_defined_pointer(pointer),
            Block {
                instructions: inner_instructions,
                terminal: TerminalInstruction::Branch(void_value()),
            },
            Block { instructions: Vec::new(), terminal: TerminalInstruction::Branch(void_value()) },
            void_type(),
            outer_name,
        ),
    );
}

/// Raises a heap pointer's reference count by one; relaxed ordering is
/// enough since the value is already reachable.
pub fn clone_pointer(
    ctx: &mut ModuleContext,
    instructions: &mut Vec<Instruction>,
    expression: &TypedExpression,
) -> (r: ())
    ensures
        final(ctx).module == old(ctx).module,
        final(instructions)@ == old(instructions)@.push(final(instructions)@.last()),
        is_clone_pointer_emission(final(instructions)@.last()),
{
    let mut then_instructions: Vec<Instruction> = Vec::new();
    let counter = get_counter_pointer(ctx, &mut then_instructions, expression);
    let name = ctx.generate_name();
    then_instructions.push(
        Instruction::AtomicOperation(AtomicOperator::Add, counter, pointer_integer(1), name),
    );
    proof {
        assert(is_counter_add_body(then_instructions@));
    }
    let ghost body = then_instructions@;
    if_heap_pointer(ctx, instructions, expression, then_instructions);
    proof {
        assert(is_heap_guard(instructions@.last(), body));
    }
}

/// Lowers a heap pointer's reference count by one; when the pre-decrement
/// count was zero this owner was the last holder, so the given content
/// drops run and the block is freed.
pub fn drop_pointer(
    ctx: &mut ModuleContext,
    instructions: &mut Vec<Instruction>,
    expression: &TypedExpression,
    drop_content: Vec<Instruction>,
) -> (r: ())
    ensures
        final(ctx).module == old(ctx).module,
        final(instructions)@ == old(instructions)@.push(final(instructions)@.last()),
        is_drop_pointer_emission(final(instructions)@.last(), drop_content@),
{
    let ghost content = drop_content@;
    let mut then_instructions: Vec<Instruction> = Vec::new();
    let counter = get_counter_pointer(ctx, &mut then_instructions, expression);
    let decrement_name = ctx.generate_name();
    then_instructions.push(
        Instruction::AtomicOperation(
            AtomicOperator::Subtract,
            counter,
            pointer_integer(1),
            decrement_name.clone(),
        ),
    );
    let mut free_instructions = drop_content;
    free_instructions.push(
        Instruction::FreeHeap(
            bit_cast(
                TargetType::Pointer(Box::new(TargetType::Integer8)),
                duplicate_typed(expression),
            ),
        ),
    );
    proof {
        assert(free_instructions@.take(content.len() as int) =~= content);
    }
    let if_name = ctx.generate_name();
    then_instructions.push(
        Instruction::If(
            TypedExpression {
                expression: TargetExpression::ComparisonOperation(
                    ComparisonOperator::Equal,
                    Box::new(TargetExpression::Variable(decrement_name.clone())),
                    Box::new(TargetExpression::PointerInteger(0)),
                ),
                type_: TargetType::Boolean,
            },
            Block {
                instructions: free_instructions,
                terminal: TerminalInstruction::Branch(void_value()),
            },
            Block { instructions: Vec::new(), terminal: TerminalInstruction::Branch(void_value()) },
            void_type(),
            if_name,
        ),
    );
    proof {
        assert(is_counter_drop_body(then_instructions@, content));
    }
    let ghost body = then_instructions@;
    if_heap_pointer(ctx, instructions, expression, then_instructions);
    proof {
        assert(is_heap_guard(instructions@.last(), body));
    }
}

/// The instruction allocates from the heap.
pub open spec fn is_allocate_instruction(i: Instruction) -> bool {
    i matches Instruction::AllocateHeap(_, _)
}

/// Allocates a heap block of a counter slot followed by the given type,
/// stores a zero count, and returns the pointer to the value slot:
/// freshly allocated objects have count zero, one-owner semantics.
pub fn allocate_heap(
    ctx: &mut ModuleContext,
    instructions: &mut Vec<Instruction>,
    type_: TargetType,
) -> (r: TypedExpression)
    ensures
        final(ctx).module == old(ctx).module,
        r.type_ == TargetType::Pointer(Box::new(type_)),
        final(instructions)@.len() == old(instructions)@.len() + 4,
        final(instructions)@.take(old(instructions)@.len() as int) == old(instructions)@,
        is_allocate_instruction(final(instructions)@[old(instructions)@.len() as int]),
        final(instructions)@[old(instructions)@.len() + 1int] matches Instruction::RecordAddress(
            _,
            counter_index,
            _,
        ) && counter_index == 0,
        final(instructions)@[old(instructions)@.len() + 2int] matches Instruction::Store(zero, _)
            && zero.expression == TargetExpression::PointerInteger(0i64),
        final(instructions)@.last() matches Instruction::RecordAddress(_, value_index, value_name)
            && value_index == 1 && (r.expression matches TargetExpression::Variable(n) && n@
            == value_name@),
        exists|i: int|
            old(instructions)@.len() <= i < final(instructions)@.len() && is_allocate_instruction(
                final(instructions)@[i],
            ),
{
    let ghost base = instructions@.len();
    let mut block_types: Vec<TargetType> = Vec::new();
    block_types.push(TargetType::PointerInteger);
    block_types.push(duplicate_type(&type_));
    let block_type = TargetType::Record(block_types);
    let allocate_name = ctx.generate_name();
    instructions.push(
        Instruction::AllocateHeap(
            TypedExpression {
                expression: TargetExpression::SizeOf(duplicate_type(&block_type)),
                type_: TargetType::PointerInteger,
            },
            allocate_name.clone(),
        ),
    );
    let ghost allocate_index = instructions@.len() - 1;
    let block_pointer = variable(&allocate_name, TargetType::Pointer(Box::new(block_type)));
    let counter_name = ctx.generate_name();
    instructions.push(
        Instruction::RecordAddress(duplicate_typed(&block_pointer), 0, counter_name.clone()),
    );
    instructions.push(
        Instruction::Store(
            pointer_integer(0),
            variable(&counter_name, TargetType::Pointer(Box::new(TargetType::PointerInteger))),
        ),
    );
    let value_name = ctx.generate_name();
    instructions.push(Instruction::RecordAddress(block_pointer, 1, value_name.clone()));
    let r = variable(&value_name, TargetType::Pointer(Box::new(type_)));
    proof {
        assert(is_allocate_instruction(instructions@[allocate_index]));
    }
    r
}

/// Frees a heap block given the pointer to its value slot: the block
/// starts one counter slot before it.
pub fn free_heap(
    ctx: &mut ModuleContext,
    instructions: &mut Vec<Instruction>,
    pointer: TypedExpression,
) -> (r: ())
    ensures
        final(ctx).module == old(ctx).module,
        final(instructions)@.len() == old(instructions)@.len() + 2,
        final(instructions)@.take(old(instructions)@.len() as int) == old(instructions)@,
        is_counter_slot(final(instructions)@[final(instructions)@.len() - 2]),
        final(instructions)@.last() matches Instruction::FreeHeap(_),
{
    let name = ctx.generate_name();
    instructions.push(
        Instruction::PointerAddress(
            bit_cast(TargetType::Pointer(Box::new(TargetType::PointerInteger)), pointer),
            pointer_integer(-1),
            name.clone(),
        ),
    );
    instructions.push(
        Instruction::FreeHeap(
            variable(&name, TargetType::Pointer(Box::new(TargetType::PointerInteger))),
        ),
    );
}


/// The deterministic string form of a source type, keying its type-info
/// global and variant clone/drop functions.
pub open spec fn spec_type_id(t: SpecType) -> Seq<char>
    decreases t,
{
    match t {
        SpecType::Boolean => "Boolean"@,
        SpecType::ByteString => "ByteString"@,
        SpecType::Function(argument, result) => "Function("@ + spec_type_id(*argument) + ","@
            + spec_type_id(*result) + ")"@,
        SpecType::Number => "Number"@,
        SpecType::Record(name) => "Record("@ + name + ")"@,
        SpecType::Variant => "Variant"@,
    }
}

/// The string form of a source type.
pub fn compile_type_id(type_: &Type) -> (r: String)
    ensures
        r@ == spec_type_id(type_@),
    decreases *type_,
{
    match type_ {
        Type::Boolean => "Boolean".to_owned(),
        Type::ByteString => "ByteString".to_owned(),
        Type::Function(function) => {
            let mut s = "Function(".to_owned();
            s.append(compile_type_id(&function.argument).as_str());
            s.append(",");
            s.append(compile_type_id(&function.result).as_str());
            s.append(")");
            proof {
                assert(s@ =~= spec_type_id(type_@));
            }
            s
        },
        Type::Number => "Number".to_owned(),
        Type::Record(record) => {
            let mut s = "Record(".to_owned();
            s.append(record.name.as_str());
            s.append(")");
            proof {
                assert(s@ =~= spec_type_id(type_@));
            }
            s
        },
        Type::Variant => "Variant".to_owned(),
    }
}

/// The name of the emitted clone function of a record type.
pub fn get_record_clone_function_name(name: &String) -> (r: String)
    ensures
        r@ == "rc_clone_"@ + name@,
{
    let mut s = "rc_clone_".to_owned();
    s.append(name.as_str());
    s
}

/// The name of the emitted drop function of a record type.
pub fn get_record_drop_function_name(name: &String) -> (r: String)
    ensures
        r@ == "rc_drop_"@ + name@,
{
    let mut s = "rc_drop_".to_owned();
    s.append(name.as_str());
    s
}

/// The name of the emitted clone function of a variant payload type.
pub fn get_variant_clone_function_name(type_: &Type) -> (r: String)
    ensures
        r@ == "variant_clone_"@ + spec_type_id(type_@),
{
    let mut s = "variant_clone_".to_owned();
    s.append(compile_type_id(type_).as_str());
    s
}

/// The name of the emitted drop function of a variant payload type.
pub fn get_variant_drop_function_name(type_: &Type) -> (r: String)
    ensures
        r@ == "variant_drop_"@ + spec_type_id(type_@),
{
    let mut s = "variant_drop_".to_owned();
    s.append(compile_type_id(type_).as_str());
    s
}

/// The type of a record type's emitted clone or drop function: it takes
/// the lowered record, returns nothing, in the target convention.
pub fn compile_record_rc_function_type(record: &RecordType, types: &Vec<TypeDefinition>) -> (r:
    crate::target::TargetFunctionType)
    requires
        spec_lookup_elements(type_defs_view(types@), record@) is Some,
    ensures
        r.calling_convention == CallingConvention::Target,
        r.arguments@.len() == 1,
{
    let mut arguments: Vec<TargetType> = Vec::new();
    arguments.push(compile_record_type(record, types));
    crate::target::TargetFunctionType {
        arguments,
        result: Box::new(void_type()),
        calling_convention: CallingConvention::Target,
    }
}

/// A variant payload is boxed exactly when its source type is a byte
/// string, the one two-word value; a variant inside a variant is refused.
pub fn is_payload_boxed(type_: &Type) -> (r: Result<bool, CompileError>)
    ensures
        match r {
            Ok(boxed) => !(type_@ matches SpecType::Variant) && (boxed <==> type_@
                matches SpecType::ByteString),
            Err(e) => type_@ matches SpecType::Variant && e == CompileError::NestedVariant,
        },
{
    match type_ {
        Type::ByteString => Ok(true),
        Type::Variant => Err(CompileError::NestedVariant),
        Type::Boolean => Ok(false),
        Type::Function(_) => Ok(false),
        Type::Number => Ok(false),
        Type::Record(_) => Ok(false),
    }
}

/// Tags a pointer as static by setting its low bit. It is applied only
/// to static globals, whose addresses are aligned and carry a clear low
/// bit, so the exclusive-or sets the bit.
pub fn compile_tagged_pointer(pointer: &TypedExpression) -> (r: TypedExpression)
    ensures
        r.expression matches TargetExpression::BitCast(_, _, inner) && (*inner
            matches TargetExpression::BitwiseXor(_, mask) && *mask
            == TargetExpression::PointerInteger(1i64)),
{
    let type_ = duplicate_type(&pointer.type_);
    bit_cast(
        type_,
        TypedExpression {
            expression: TargetExpression::BitwiseXor(
                Box::new(pointer_as_integer(pointer).expression),
                Box::new(TargetExpression::PointerInteger(1)),
            ),
            type_: TargetType::PointerInteger,
        },
    )
}

/// The addressable pointer value regardless of the tag: the low bit is
/// cleared, which takes the bit off a tagged reference and leaves an
/// untagged heap pointer unchanged.
pub fn compile_untagged_pointer(pointer: &TypedExpression) -> (r: TypedExpression)
    ensures
        r.expression matches TargetExpression::BitCast(_, _, inner) && (*inner
            matches TargetExpression::BitwiseAnd(_, mask) && *mask
            == TargetExpression::PointerInteger(-2i64)),
{
    let type_ = duplicate_type(&pointer.type_);
    bit_cast(
        type_,
        TypedExpression {
            expression: TargetExpression::BitwiseAnd(
                Box::new(pointer_as_integer(pointer).expression),
                Box::new(TargetExpression::PointerInteger(-2)),
            ),
            type_: TargetType::PointerInteger,
        },
    )
}

/// Structural equality of target types.
pub fn target_type_equal(one: &TargetType, other: &TargetType) -> (r: bool)
    decreases *one,
{
    match (one, other) {
        (TargetType::Boolean, TargetType::Boolean) => true,
        (TargetType::Float64, TargetType::Float64) => true,
        (TargetType::Function(f1), TargetType::Function(f2)) => {
            f1.calling_convention == f2.calling_convention && target_types_equal(
                &f1.arguments,
                &f2.arguments,
            ) && target_type_equal(&f1.result, &f2.result)
        },
        (TargetType::Integer8, TargetType::Integer8) => true,
        (TargetType::Integer64, TargetType::Integer64) => true,
        (TargetType::Pointer(p1), TargetType::Pointer(p2)) => target_type_equal(p1, p2),
        (TargetType::PointerInteger, TargetType::PointerInteger) => true,
        (TargetType::Record(e1), TargetType::Record(e2)) => target_types_equal(e1, e2),
        (TargetType::Union(e1), TargetType::Union(e2)) => target_types_equal(e1, e2),
        _ => false,
    }
}

fn target_types_equal(one: &Vec<TargetType>, other: &Vec<TargetType>) -> (r: bool)
    decreases *one,
{
    if one.len() != other.len() {
        return false;
    }
    let mut i: usize = 0;
    while i < one.len()
        invariant
            0 <= i <= one.len(),
            one.len() == other.len(),
        decreases one.len() - i,
    {
        if !target_type_equal(&one[i], &other[i]) {
            return false;
        }
        i += 1;
    }
    true
}

/// Reinterprets a value as another type through a one-member union, the
/// target's way of moving bits between same-sized types.
pub fn compile_union_bit_cast(
    ctx: &mut ModuleContext,
    instructions: &mut Vec<Instruction>,
    to_type: TargetType,
    argument: TypedExpression,
) -> (r: TypedExpression)
    ensures
        final(ctx).module == old(ctx).module,
        final(instructions)@.len() >= old(instructions)@.len(),
        final(instructions)@.take(old(instructions)@.len() as int) == old(instructions)@,
{
    if target_type_equal(&argument.type_, &to_type) {
        argument
    } else {
        let mut members: Vec<TargetType> = Vec::new();
        members.push(duplicate_type(&argument.type_));
        members.push(duplicate_type(&to_type));
        let name = ctx.generate_name();
        instructions.push(
            Instruction::DeconstructUnion(
                TypedExpression {
                    expression: TargetExpression::Union(
                        duplicate_types(&members),
                        0,
                        Box::new(argument.expression),
                    ),
                    type_: TargetType::Union(members),
                },
                1,
                name.clone(),
            ),
        );
        variable(&name, to_type)
    }
}

/// Boxes a variant payload on the heap when its type needs it, and
/// reinterprets the result as the payload word.
pub fn compile_boxed_payload(
    ctx: &mut ModuleContext,
    instructions: &mut Vec<Instruction>,
    payload: TypedExpression,
    type_: &Type,
) -> (r: Result<TypedExpression, CompileError>)
    ensures
        r matches Err(e2) ==> e2 == CompileError::NestedVariant,
        final(ctx).module == old(ctx).module,
        final(instructions)@.len() >= old(instructions)@.len(),
        final(instructions)@.take(old(instructions)@.len() as int) == old(instructions)@,
        r is Err <==> type_@ matches SpecType::Variant,
{
    let boxed = is_payload_boxed(type_)?;
    let value = if boxed {
        let pointer = allocate_heap(ctx, instructions, duplicate_type(&payload.type_));
        instructions.push(Instruction::Store(payload, duplicate_typed(&pointer)));
        pointer
    } else {
        payload
    };
    Ok(compile_union_bit_cast(ctx, instructions, compile_variant_payload_type(), value))
}

/// Unboxes a variant payload to its type: a boxed payload is loaded from
/// the heap and its box dropped; an unboxed one is reinterpreted.
pub fn compile_unboxed_payload(
    ctx: &mut ModuleContext,
    instructions: &mut Vec<Instruction>,
    payload: &TypedExpression,
    type_: &Type,
    types: &Vec<TypeDefinition>,
) -> (r: Result<TypedExpression, CompileError>)
    requires
        spec_wf_type(type_@, type_defs_view(types@)),
    ensures
        r matches Err(e2) ==> e2 == CompileError::NestedVariant,
        final(ctx).module == old(ctx).module,
        final(instructions)@.len() >= old(instructions)@.len(),
        final(instructions)@.take(old(instructions)@.len() as int) == old(instructions)@,
        r is Err <==> type_@ matches SpecType::Variant,
{
    let boxed = is_payload_boxed(type_)?;
    Ok(
        if boxed {
            let value_type = compile_type(type_, types);
            let pointer = bit_cast(
                TargetType::Pointer(Box::new(value_type)),
                duplicate_typed(payload),
            );
            let name = ctx.generate_name();
            instructions.push(Instruction::Load(duplicate_typed(&pointer), name.clone()));
            let value = variable(&name, compile_type(type_, types));
            drop_pointer(ctx, instructions, &pointer, Vec::new());
            value
        } else {
            compile_union_bit_cast(
                ctx,
                instructions,
                compile_type(type_, types),
                duplicate_typed(payload),
            )
        },
    )
}

/// The tag of a variant value: a reference to the type-info global of its
/// inner type.
pub fn compile_tag(type_: &Type) -> (r: TypedExpression)
    ensures
        r.expression matches TargetExpression::Variable(n) && n@ == spec_type_id(type_@),
{
    variable(&compile_type_id(type_), compile_variant_tag_type())
}


/// The layout every closure shares: entry function, drop function, arity,
/// environment. Field addresses of the drop and arity slots go through
/// this shape regardless of the concrete entry type.
pub fn generic_closure_pointer_type() -> (r: TargetType)
{
    let mut entry_arguments: Vec<TargetType> = Vec::new();
    entry_arguments.push(compile_untyped_closure_pointer());
    entry_arguments.push(TargetType::Float64);
    let entry = TargetType::Function(
        crate::target::TargetFunctionType {
            arguments: entry_arguments,
            result: Box::new(TargetType::Float64),
            calling_convention: CallingConvention::Source,
        },
    );
    let mut elements: Vec<TargetType> = Vec::new();
    elements.push(entry);
    elements.push(compile_closure_drop_function());
    elements.push(compile_arity_type());
    elements.push(void_type());
    TargetType::Pointer(Box::new(TargetType::Record(elements)))
}

/// The address of a closure's drop-function slot.
pub fn compile_drop_function_pointer(
    ctx: &mut ModuleContext,
    instructions: &mut Vec<Instruction>,
    closure_pointer: &TypedExpression,
) -> (r: TypedExpression)
    ensures
        final(ctx).module == old(ctx).module,
        final(instructions)@ == old(instructions)@.push(final(instructions)@.last()),
        final(instructions)@.last() matches Instruction::RecordAddress(_, slot, slot_name) && slot
            == 1 && (r.expression matches TargetExpression::Variable(n) && n@ == slot_name@),
{
    let untagged = bit_cast(
        generic_closure_pointer_type(),
        compile_untagged_pointer(closure_pointer),
    );
    let name = ctx.generate_name();
    instructions.push(Instruction::RecordAddress(untagged, 1, name.clone()));
    variable(&name, TargetType::Pointer(Box::new(compile_closure_drop_function())))
}

/// Loads a closure's drop function.
pub fn compile_load_drop_function(
    ctx: &mut ModuleContext,
    instructions: &mut Vec<Instruction>,
    closure_pointer: &TypedExpression,
) -> (r: TypedExpression)
    ensures
        final(ctx).module == old(ctx).module,
        final(instructions)@.len() == old(instructions)@.len() + 2,
        final(instructions)@.take(old(instructions)@.len() as int) == old(instructions)@,
        final(instructions)@[final(instructions)@.len() - 2] matches Instruction::RecordAddress(
            _,
            slot,
            _,
        ) && slot == 1,
        final(instructions)@.last() matches Instruction::Load(_, load_name) && (r.expression
            matches TargetExpression::Variable(n) && n@ == load_name@),
{
    let pointer = compile_drop_function_pointer(ctx, instructions, closure_pointer);
    let name = ctx.generate_name();
    instructions.push(Instruction::Load(pointer, name.clone()));
    variable(&name, compile_closure_drop_function())
}

/// Raises a closure's reference count.
pub fn clone_function(
    ctx: &mut ModuleContext,
    instructions: &mut Vec<Instruction>,
    closure_pointer: &TypedExpression,
) -> (r: ())
    ensures
        final(ctx).module == old(ctx).module,
        final(instructions)@ == old(instructions)@.push(final(instructions)@.last()),
        is_clone_pointer_emission(final(instructions)@.last()),
{
    clone_pointer(ctx, instructions, closure_pointer);
}

/// Lowers a closure's reference count; the last holder calls the
/// closure's own drop function, then frees the block.
pub fn drop_function(
    ctx: &mut ModuleContext,
    instructions: &mut Vec<Instruction>,
    closure_pointer: &TypedExpression,
) -> (r: ())
    ensures
        final(ctx).module == old(ctx).module,
        final(instructions)@ == old(instructions)@.push(final(instructions)@.last()),
        is_drop_function_emission(final(instructions)@.last()),
{
    let mut content: Vec<Instruction> = Vec::new();
    let drop_fn = compile_load_drop_function(ctx, &mut content, closure_pointer);
    let call_name = ctx.generate_name();
    let mut call_arguments: Vec<TypedExpression> = Vec::new();
    call_arguments.push(
        bit_cast(TargetType::PointerInteger, duplicate_typed(closure_pointer)),
    );
    content.push(Instruction::Call(drop_fn, call_arguments, call_name));
    proof {
        assert(is_closure_drop_content(content@));
    }
    let ghost content_view = content@;
    drop_pointer(ctx, instructions, closure_pointer, content);
    proof {
        assert(is_drop_pointer_emission(instructions@.last(), content_view));
    }
}

/// One element of a lowered record value, loaded through the pointer
/// where the record is boxed.
pub fn get_record_element(
    ctx: &mut ModuleContext,
    instructions: &mut Vec<Instruction>,
    record: &TypedExpression,
    type_: &RecordType,
    element_index: usize,
    types: &Vec<TypeDefinition>,
) -> (r: TypedExpression)
    requires
        spec_lookup_elements(type_defs_view(types@), type_@) is Some,
    ensures
        final(ctx).module == old(ctx).module,
        final(instructions)@.len() == old(instructions)@.len() + (
        if spec_record_boxed(type_defs_view(types@), type_@) {
            2int
        } else {
            1int
        }),
        final(instructions)@.take(old(instructions)@.len() as int) == old(instructions)@,
        final(instructions)@.last() matches Instruction::DeconstructRecord(_, idx, element_name)
            && idx == element_index && (r.expression matches TargetExpression::Variable(n) && n@
            == element_name@),
        spec_record_boxed(type_defs_view(types@), type_@)
            ==> (final(instructions)@[final(instructions)@.len() - 2] matches Instruction::Load(
            _,
            _,
        )),
{
    let unboxed = if is_record_boxed(type_, types) {
        let unboxed_type = compile_unboxed_record_type(type_, types);
        let pointer = bit_cast(
            TargetType::Pointer(Box::new(unboxed_type)),
            duplicate_typed(record),
        );
        let name = ctx.generate_name();
        instructions.push(Instruction::Load(pointer, name.clone()));
        variable(&name, compile_unboxed_record_type(type_, types))
    } else {
        duplicate_typed(record)
    };
    let element_type = element_target_type(type_, element_index, types);
    let name = ctx.generate_name();
    instructions.push(Instruction::DeconstructRecord(unboxed, element_index, name.clone()));
    variable(&name, element_type)
}

/// The record type with its elements lowered in place.
pub fn compile_unboxed_record_type(record: &RecordType, types: &Vec<TypeDefinition>) -> (r:
    TargetType)
    requires
        spec_lookup_elements(type_defs_view(types@), record@) is Some,
{
    let elements: Vec<Type> = match crate::lower_types::lookup_elements(types, &record.name) {
        Some(elements) => crate::types::clone_types(elements),
        None => Vec::new(),
    };
    let mut lowered: Vec<TargetType> = Vec::new();
    let mut i: usize = 0;
    while i < elements.len()
        decreases elements.len() - i,
    {
        lowered.push(compile_type_or_void(&elements[i], types));
        i += 1;
    }
    TargetType::Record(lowered)
}

/// The lowered form of a type, or the void type where a record name does
/// not resolve; a type-checked module never reaches the fallback.
pub fn compile_type_or_void(type_: &Type, types: &Vec<TypeDefinition>) -> (r: TargetType)
{
    if check_wf_type(type_, types) {
        compile_type(type_, types)
    } else {
        void_type()
    }
}

/// Decides well-formedness of a type against the record-body map.
pub fn check_wf_type(type_: &Type, types: &Vec<TypeDefinition>) -> (r: bool)
    ensures
        r == spec_wf_type(type_@, type_defs_view(types@)),
    decreases *type_,
{
    match type_ {
        Type::Boolean => true,
        Type::ByteString => true,
        Type::Function(function) => check_wf_type(&function.argument, types) && check_wf_type(
            &function.result,
            types,
        ),
        Type::Number => true,
        Type::Record(record) => crate::lower_types::lookup_elements(types, &record.name).is_some(),
        Type::Variant => true,
    }
}

/// The lowered type of one element of a record body.
fn element_target_type(
    record: &RecordType,
    element_index: usize,
    types: &Vec<TypeDefinition>,
) -> (r: TargetType)
{
    match crate::lower_types::lookup_elements(types, &record.name) {
        Some(elements) => {
            if element_index < elements.len() {
                let element = elements[element_index].clone();
                compile_type_or_void(&element, types)
            } else {
                void_type()
            }
        },
        None => void_type(),
    }
}


/// A call through a variant value's type-info table: the tag is read
/// from element zero, the info record loaded, the function at the given
/// slot taken, and called on the payload word from element one.
pub open spec fn is_type_info_call(s: Seq<Instruction>, slot: int) -> bool {
    s.len() == 5 && (s[0] matches Instruction::DeconstructRecord(_, tag_index, tag_name)
        && tag_index == 0 && (s[1] matches Instruction::Load(tag_ref, info_name) && (
    tag_ref.expression matches TargetExpression::Variable(t) && t@ == tag_name@) && (s[2]
        matches Instruction::DeconstructRecord(info_ref, fn_index, fn_name) && fn_index == slot
        && (info_ref.expression matches TargetExpression::Variable(iv) && iv@ == info_name@) && (
    s[3] matches Instruction::DeconstructRecord(_, payload_index, payload_name) && payload_index
        == 1 && (s[4] matches Instruction::Call(callee, call_arguments, _) && (callee.expression
        matches TargetExpression::Variable(c) && c@ == fn_name@) && call_arguments@.len() == 1 && (
    call_arguments@[0].expression matches TargetExpression::Variable(p) && p@ == payload_name@))))))
}

/// The type-directed reference-count raise of one value: numbers and
/// booleans take nothing; a byte string's pointer element and a closure
/// raise their pointer's count; a record calls its emitted clone
/// function; a variant dispatches through its type-info table.
pub open spec fn emits_clone_of(t: SpecType, s: Seq<Instruction>) -> bool {
    match t {
        SpecType::Boolean => s.len() == 0,
        SpecType::Number => s.len() == 0,
        SpecType::ByteString => s.len() == 2 && (s[0] matches Instruction::DeconstructRecord(
            _,
            pointer_index,
            _,
        ) && pointer_index == 0) && is_clone_pointer_emission(s[1]),
        SpecType::Function(_, _) => s.len() == 1 && is_clone_pointer_emission(s[0]),
        SpecType::Record(name) => s.len() == 1 && (s[0] matches Instruction::Call(
            callee,
            call_arguments,
            _,
        ) && (callee.expression matches TargetExpression::Variable(m) && m@ == "rc_clone_"@ + name)
            && call_arguments@.len() == 1),
        SpecType::Variant => is_type_info_call(s, 0),
    }
}

/// The type-directed reference-count release of one value, symmetric to
/// the clone dispatch; a byte string's box is freed with no content
/// drops, a closure goes through its own drop function.
pub open spec fn emits_drop_of(t: SpecType, s: Seq<Instruction>) -> bool {
    match t {
        SpecType::Boolean => s.len() == 0,
        SpecType::Number => s.len() == 0,
        SpecType::ByteString => s.len() == 2 && (s[0] matches Instruction::DeconstructRecord(
            _,
            pointer_index,
            _,
        ) && pointer_index == 0) && is_drop_pointer_emission(s[1], Seq::empty()),
        SpecType::Function(_, _) => s.len() == 1 && is_drop_function_emission(s[0]),
        SpecType::Record(name) => s.len() == 1 && (s[0] matches Instruction::Call(
            callee,
            call_arguments,
            _,
        ) && (callee.expression matches TargetExpression::Variable(m) && m@ == "rc_drop_"@ + name)
            && call_arguments@.len() == 1),
        SpecType::Variant => is_type_info_call(s, 1),
    }
}

/// Emits the reference-count raise of one value, dispatched on its source
/// type: numbers and booleans take nothing; strings and functions raise
/// their pointer's count; records call their type's emitted clone
/// function; variants dispatch through their type-info table.
pub fn clone_expression(
    ctx: &mut ModuleContext,
    instructions: &mut Vec<Instruction>,
    expression: &TypedExpression,
    type_: &Type,
    types: &Vec<TypeDefinition>,
) -> (r: ())
    requires
        spec_wf_type(type_@, type_defs_view(types@)),
    ensures
        final(ctx).module == old(ctx).module,
        final(instructions)@.len() >= old(instructions)@.len(),
        final(instructions)@.take(old(instructions)@.len() as int) == old(instructions)@,
        emits_clone_of(type_@, final(instructions)@.skip(old(instructions)@.len() as int)),
{
    match type_ {
        Type::ByteString => {
            let name = ctx.generate_name();
            instructions.push(
                Instruction::DeconstructRecord(duplicate_typed(expression), 0, name.clone()),
            );
            let pointer = variable(&name, TargetType::Pointer(Box::new(TargetType::Integer8)));
            clone_pointer(ctx, instructions, &pointer);
        },
        Type::Function(_) => clone_function(ctx, instructions, expression),
        Type::Record(record) => {
            let name = ctx.generate_name();
            let mut arguments: Vec<TypedExpression> = Vec::new();
            arguments.push(duplicate_typed(expression));
            instructions.push(
                Instruction::Call(
                    variable(
                        &get_record_clone_function_name(&record.name),
                        TargetType::Function(compile_record_rc_function_type(record, types)),
                    ),
                    arguments,
                    name,
                ),
            );
        },
        Type::Variant => {
            call_type_information_function(ctx, instructions, expression, 0);
        },
        Type::Boolean => {},
        Type::Number => {},
    }
}

/// Emits the reference-count release of one value, symmetric to the
/// clone dispatch.
pub fn drop_expression(
    ctx: &mut ModuleContext,
    instructions: &mut Vec<Instruction>,
    expression: &TypedExpression,
    type_: &Type,
    types: &Vec<TypeDefinition>,
) -> (r: ())
    requires
        spec_wf_type(type_@, type_defs_view(types@)),
    ensures
        final(ctx).module == old(ctx).module,
        final(instructions)@.len() >= old(instructions)@.len(),
        final(instructions)@.take(old(instructions)@.len() as int) == old(instructions)@,
        emits_drop_of(type_@, final(instructions)@.skip(old(instructions)@.len() as int)),
{
    match type_ {
        Type::ByteString => {
            let name = ctx.generate_name();
            instructions.push(
                Instruction::DeconstructRecord(duplicate_typed(expression), 0, name.clone()),
            );
            let pointer = variable(&name, TargetType::Pointer(Box::new(TargetType::Integer8)));
            drop_pointer(ctx, instructions, &pointer, Vec::new());
        },
        Type::Function(_) => drop_function(ctx, instructions, expression),
        Type::Record(record) => {
            let name = ctx.generate_name();
            let mut arguments: Vec<TypedExpression> = Vec::new();
            arguments.push(duplicate_typed(expression));
            instructions.push(
                Instruction::Call(
                    variable(
                        &get_record_drop_function_name(&record.name),
                        TargetType::Function(compile_record_rc_function_type(record, types)),
                    ),
                    arguments,
                    name,
                ),
            );
        },
        Type::Variant => {
            call_type_information_function(ctx, instructions, expression, 1);
        },
        Type::Boolean => {},
        Type::Number => {},
    }
}

/// Calls one of a variant value's type-info functions on its payload:
/// element zero clones, element one drops.
fn call_type_information_function(
    ctx: &mut ModuleContext,
    instructions: &mut Vec<Instruction>,
    expression: &TypedExpression,
    function_index: usize,
) -> (r: ())
    ensures
        final(ctx).module == old(ctx).module,
        final(instructions)@.len() == old(instructions)@.len() + 5,
        final(instructions)@.take(old(instructions)@.len() as int) == old(instructions)@,
        is_type_info_call(
            final(instructions)@.skip(old(instructions)@.len() as int),
            function_index as int,
        ),
{
    let tag_name = ctx.generate_name();
    instructions.push(
        Instruction::DeconstructRecord(duplicate_typed(expression), 0, tag_name.clone()),
    );
    let info_name = ctx.generate_name();
    instructions.push(
        Instruction::Load(variable(&tag_name, compile_variant_tag_type()), info_name.clone()),
    );
    let mut info_elements: Vec<TargetType> = Vec::new();
    info_elements.push(variant_fn_target_type());
    info_elements.push(variant_fn_target_type());
    let fn_name = ctx.generate_name();
    instructions.push(
        Instruction::DeconstructRecord(
            variable(&info_name, TargetType::Record(info_elements)),
            function_index,
            fn_name.clone(),
        ),
    );
    let payload_name = ctx.generate_name();
    instructions.push(
        Instruction::DeconstructRecord(duplicate_typed(expression), 1, payload_name.clone()),
    );
    let call_name = ctx.generate_name();
    let mut arguments: Vec<TypedExpression> = Vec::new();
    arguments.push(variable(&payload_name, compile_variant_payload_type()));
    instructions.push(
        Instruction::Call(variable(&fn_name, variant_fn_target_type()), arguments, call_name),
    );
}

fn variant_fn_target_type() -> (r: TargetType)
{
    let mut arguments: Vec<TargetType> = Vec::new();
    arguments.push(TargetType::Integer64);
    TargetType::Function(
        crate::target::TargetFunctionType {
            arguments,
            result: Box::new(void_type()),
            calling_convention: CallingConvention::Target,
        },
    )
}



/// The instruction count of one type-directed clone or drop dispatch.
pub open spec fn rc_dispatch_len(t: SpecType) -> int {
    match t {
        SpecType::Boolean => 0,
        SpecType::Number => 0,
        SpecType::ByteString => 2,
        SpecType::Function(_, _) => 1,
        SpecType::Record(_) => 1,
        SpecType::Variant => 5,
    }
}

pub proof fn lemma_clone_emits_len(t: SpecType, s: Seq<Instruction>)
    requires
        emits_clone_of(t, s),
    ensures
        s.len() == rc_dispatch_len(t),
{
}

pub proof fn lemma_drop_emits_len(t: SpecType, s: Seq<Instruction>)
    requires
        emits_drop_of(t, s),
    ensures
        s.len() == rc_dispatch_len(t),
{
}

/// An emitted function body that takes every element of a record in
/// order and clones or drops it by its type: element `i` is read with a
/// deconstruction at index `i` — behind a load of the pointee for a boxed
/// record — followed by its type-directed dispatch.
pub open spec fn is_elementwise_rc_body(
    body: Seq<Instruction>,
    elements: Seq<SpecType>,
    tds: Seq<crate::module::SpecTypeDefinition>,
    boxed: bool,
    clone: bool,
) -> bool
    decreases elements.len(),
{
    if elements.len() == 0 {
        body.len() == 0
    } else {
        let t = elements.last();
        let access = if boxed {
            2int
        } else {
            1int
        };
        let seg = access + if spec_wf_type(t, tds) {
            rc_dispatch_len(t)
        } else {
            0int
        };
        body.len() >= seg && {
            let tail = body.skip(body.len() - seg);
            &&& (boxed ==> tail[0] matches Instruction::Load(_, _))
            &&& tail[access - 1] matches Instruction::DeconstructRecord(_, idx, _) && idx
                == elements.len() - 1
            &&& (spec_wf_type(t, tds) ==> if clone {
                emits_clone_of(t, tail.skip(access))
            } else {
                emits_drop_of(t, tail.skip(access))
            })
            &&& is_elementwise_rc_body(
                body.take(body.len() - seg),
                elements.drop_last(),
                tds,
                boxed,
                clone,
            )
        }
    }
}

/// A boxed record's release: the counter protocol whose zero-count
/// content drops every element of the pointee.
pub open spec fn is_boxed_record_drop_emission(
    i: Instruction,
    elements: Seq<SpecType>,
    tds: Seq<crate::module::SpecTypeDefinition>,
) -> bool {
    exists|content: Seq<Instruction>| #[trigger] is_drop_pointer_emission(i, content)
        && is_elementwise_rc_body(content, elements, tds, true, false)
}


/// The whole shape of an emitted per-record clone or drop function:
/// weak linkage so units merge, target convention, one argument of the
/// lowered record type, and a body that follows the boxing policy.
pub open spec fn rc_function_shape(
    d: crate::target::TargetFunctionDefinition,
    td: crate::module::SpecTypeDefinition,
    tds: Seq<crate::module::SpecTypeDefinition>,
    clone: bool,
) -> bool {
    &&& d.linkage == Linkage::Weak
    &&& d.calling_convention == CallingConvention::Target
    &&& d.arguments@.len() == 1
    &&& crate::lower_types::is_lowered_leaf(SpecType::Record(td.name), tds, d.arguments@[0].1)
    &&& d.body.terminal matches TerminalInstruction::Return(_)
    &&& if spec_record_boxed(tds, td.name) {
        d.body.instructions@.len() == 1 && if clone {
            is_clone_pointer_emission(d.body.instructions@[0])
        } else {
            is_boxed_record_drop_emission(d.body.instructions@[0], td.elements, tds)
        }
    } else {
        is_elementwise_rc_body(d.body.instructions@, td.elements, tds, false, clone)
    }
}

/// One step of an elementwise clone or drop body: the element access and
/// its dispatch extend the body by one segment.
proof fn lemma_elementwise_step(
    pre: Seq<Instruction>,
    mid: Seq<Instruction>,
    cur: Seq<Instruction>,
    elements: Seq<Type>,
    i: int,
    tds: Seq<crate::module::SpecTypeDefinition>,
    boxed: bool,
    clone: bool,
)
    requires
        0 <= i < elements.len(),
        is_elementwise_rc_body(
            pre,
            crate::types::types_view(elements.take(i)),
            tds,
            boxed,
            clone,
        ),
        mid.len() == pre.len() + if boxed {
            2int
        } else {
            1int
        },
        mid.take(pre.len() as int) == pre,
        boxed ==> (mid[pre.len() as int] matches Instruction::Load(_, _)),
        mid.last() matches Instruction::DeconstructRecord(_, idx, _) && idx == i,
        spec_wf_type(crate::types::type_view(elements[i]), tds) ==> (cur.len() == mid.len()
            + rc_dispatch_len(crate::types::type_view(elements[i])) && cur.take(mid.len() as int)
            == mid && (if clone {
            emits_clone_of(crate::types::type_view(elements[i]), cur.skip(mid.len() as int))
        } else {
            emits_drop_of(crate::types::type_view(elements[i]), cur.skip(mid.len() as int))
        })),
        !spec_wf_type(crate::types::type_view(elements[i]), tds) ==> cur == mid,
    ensures
        is_elementwise_rc_body(
            cur,
            crate::types::types_view(elements.take(i + 1)),
            tds,
            boxed,
            clone,
        ),
{
    let access = if boxed {
        2int
    } else {
        1int
    };
    let tv = crate::types::type_view(elements[i]);
    let old_elems = crate::types::types_view(elements.take(i));
    let new_elems = crate::types::types_view(elements.take(i + 1));
    assert(elements.take(i + 1) =~= elements.take(i).push(elements[i]));
    crate::types::lemma_types_view_push(elements.take(i), elements[i]);
    assert(new_elems == old_elems.push(tv));
    assert(new_elems.last() == tv);
    assert(new_elems.drop_last() =~= old_elems);
    crate::types::lemma_types_view(elements.take(i));
    assert(new_elems.len() == i + 1);
    let seg = access + if spec_wf_type(tv, tds) {
        rc_dispatch_len(tv)
    } else {
        0int
    };
    if spec_wf_type(tv, tds) {
        assert(cur.len() == pre.len() + seg);
        let tail = cur.skip(cur.len() - seg);
        assert(tail[0] == cur[pre.len() as int]);
        assert(cur[pre.len() as int] == mid[pre.len() as int]);
        assert(tail[access - 1] == cur[pre.len() + access - 1]);
        assert(cur[pre.len() + access - 1] == mid[mid.len() - 1]);
        assert(tail.skip(access) =~= cur.skip(mid.len() as int));
        assert(cur.take(cur.len() - seg) =~= pre) by {
            assert forall|k: int| 0 <= k < pre.len() implies cur[k] == pre[k] by {
                assert(cur[k] == mid[k]);
                assert(mid[k] == pre[k]);
            }
        }
    } else {
        assert(cur.len() == pre.len() + seg);
        let tail = cur.skip(cur.len() - seg);
        assert(tail[0] == cur[pre.len() as int]);
        assert(cur[pre.len() as int] == mid[pre.len() as int]);
        assert(tail[access - 1] == cur[pre.len() + access - 1]);
        assert(cur[pre.len() + access - 1] == mid[mid.len() - 1]);
        assert(cur.take(cur.len() - seg) =~= pre) by {
            assert forall|k: int| 0 <= k < pre.len() implies cur[k] == pre[k] by {
                assert(cur[k] == mid[k]);
                assert(mid[k] == pre[k]);
            }
        }
    }
}

/// Emits the clone function of one record type: boxed records raise their
/// pointer's count; inline records clone every element.
pub fn compile_record_clone_function(
    ctx: &mut ModuleContext,
    definition: &TypeDefinition,
    types: &Vec<TypeDefinition>,
) -> (r: ())
    requires
        spec_lookup_elements(type_defs_view(types@), definition.name@) is Some,
    ensures
        final(ctx).module.function_definitions@.len() == old(
            ctx,
        ).module.function_definitions@.len() + 1,
        module_extends(old(ctx).module, final(ctx).module),
        defines_function(final(ctx).module, "rc_clone_"@ + definition.name@),
        final(ctx).module.variable_definitions == old(ctx).module.variable_definitions,
        final(ctx).module.variable_declarations == old(ctx).module.variable_declarations,
        final(ctx).module.function_declarations == old(ctx).module.function_declarations,
        rc_function_shape(
            final(ctx).module.function_definitions@.last(),
            definition@,
            type_defs_view(types@),
            true,
        ),
{
    let ghost tds = type_defs_view(types@);
    let record_type = RecordType::new(definition.name.as_str());
    let lowered = compile_record_type(&record_type, types);
    let argument_name: String = "_record".to_owned();
    let argument = variable(&argument_name, duplicate_type(&lowered));
    let mut instructions: Vec<Instruction> = Vec::new();
    if is_record_boxed(&record_type, types) {
        clone_pointer(ctx, &mut instructions, &argument);
        proof {
            assert(instructions@.len() == 1);
            assert(is_clone_pointer_emission(instructions@[0]));
        }
    } else {
        let mut i: usize = 0;
        proof {
            assert(crate::types::types_view(definition.type_.elements@.take(0))
                =~= Seq::<SpecType>::empty());
        }
        while i < definition.type_.elements.len()
            invariant
                0 <= i <= definition.type_.elements@.len(),
                ctx.module == old(ctx).module,
                tds == type_defs_view(types@),
                spec_lookup_elements(tds, record_type@) is Some,
                !spec_record_boxed(tds, record_type@),
                record_type@ == definition.name@,
                is_elementwise_rc_body(
                    instructions@,
                    crate::types::types_view(definition.type_.elements@.take(i as int)),
                    tds,
                    false,
                    true,
                ),
            decreases definition.type_.elements.len() - i,
        {
            let ghost pre = instructions@;
            let element = get_record_element(
                ctx,
                &mut instructions,
                &argument,
                &record_type,
                i,
                types,
            );
            let ghost mid = instructions@;
            let element_type = definition.type_.elements[i].clone();
            let ghost t = element_type@;
            if check_wf_type(&element_type, types) {
                clone_expression(ctx, &mut instructions, &element, &element_type, types);
                proof {
                    lemma_clone_emits_len(t, instructions@.skip(mid.len() as int));
                }
            }
            proof {
                lemma_elementwise_step(pre, mid, instructions@, definition.type_.elements@, i as int, tds, false, true);
            }
            i += 1;
        }
        proof {
            assert(definition.type_.elements@.take(definition.type_.elements@.len() as int)
                =~= definition.type_.elements@);
        }
    }
    let mut arguments: Vec<(String, TargetType)> = Vec::new();
    arguments.push((argument_name, lowered));
    let name = get_record_clone_function_name(&definition.name);
    let ghost fn_name = name@;
    ctx.add_function_definition(
        crate::target::TargetFunctionDefinition {
            name,
            arguments,
            result_type: void_type(),
            body: Block {
                instructions,
                terminal: crate::target::TerminalInstruction::Return(void_value()),
            },
            calling_convention: CallingConvention::Target,
            linkage: Linkage::Weak,
        },
    );
    proof {
        let m = ctx.module;
        let d = m.function_definitions@.last();
        assert(d.name@ == "rc_clone_"@ + definition.name@);
        assert(definition@.name == definition.name@);
        assert(definition@.elements == crate::types::types_view(definition.type_.elements@));
        assert(d.linkage == Linkage::Weak);
        assert(d.calling_convention == CallingConvention::Target);
        assert(d.arguments@.len() == 1);
        assert(crate::lower_types::is_lowered_leaf(
            SpecType::Record(definition@.name),
            tds,
            d.arguments@[0].1,
        ));
        assert(d.body.terminal matches TerminalInstruction::Return(_));
        if spec_record_boxed(tds, definition@.name) {
            assert(d.body.instructions@.len() == 1 && is_clone_pointer_emission(
                d.body.instructions@[0],
            ));
        } else {
            assert(is_elementwise_rc_body(
                d.body.instructions@,
                definition@.elements,
                tds,
                false,
                true,
            ));
        }
        assert(rc_function_shape(d, definition@, tds, true));
    }
}

/// Emits the drop function of one record type: boxed records release
/// their pointer, dropping every element when the count hits zero; inline
/// records drop every element.
pub fn compile_record_drop_function(
    ctx: &mut ModuleContext,
    definition: &TypeDefinition,
    types: &Vec<TypeDefinition>,
) -> (r: ())
    requires
        spec_lookup_elements(type_defs_view(types@), definition.name@) is Some,
    ensures
        final(ctx).module.function_definitions@.len() == old(
            ctx,
        ).module.function_definitions@.len() + 1,
        module_extends(old(ctx).module, final(ctx).module),
        defines_function(final(ctx).module, "rc_drop_"@ + definition.name@),
        final(ctx).module.variable_definitions == old(ctx).module.variable_definitions,
        final(ctx).module.variable_declarations == old(ctx).module.variable_declarations,
        final(ctx).module.function_declarations == old(ctx).module.function_declarations,
        rc_function_shape(
            final(ctx).module.function_definitions@.last(),
            definition@,
            type_defs_view(types@),
            false,
        ),
{
    let ghost tds = type_defs_view(types@);
    let record_type = RecordType::new(definition.name.as_str());
    let lowered = compile_record_type(&record_type, types);
    let argument_name: String = "_record".to_owned();
    let argument = variable(&argument_name, duplicate_type(&lowered));
    let mut instructions: Vec<Instruction> = Vec::new();
    if is_record_boxed(&record_type, types) {
        let mut content: Vec<Instruction> = Vec::new();
        drop_record_elements(ctx, &mut content, &argument, &record_type, definition, types);
        proof {
            assert(content@.skip(0) =~= content@);
        }
        let ghost content_view = content@;
        drop_pointer(ctx, &mut instructions, &argument, content);
        proof {
            assert(is_drop_pointer_emission(instructions@.last(), content_view));
            assert(is_boxed_record_drop_emission(
                instructions@.last(),
                crate::types::types_view(definition.type_.elements@),
                tds,
            ));
        }
    } else {
        drop_record_elements(ctx, &mut instructions, &argument, &record_type, definition, types);
        proof {
            assert(instructions@.skip(0) =~= instructions@);
        }
    }
    let mut arguments: Vec<(String, TargetType)> = Vec::new();
    arguments.push((argument_name, lowered));
    let name = get_record_drop_function_name(&definition.name);
    ctx.add_function_definition(
        crate::target::TargetFunctionDefinition {
            name,
            arguments,
            result_type: void_type(),
            body: Block {
                instructions,
                terminal: crate::target::TerminalInstruction::Return(void_value()),
            },
            calling_convention: CallingConvention::Target,
            linkage: Linkage::Weak,
        },
    );
    proof {
        let m = ctx.module;
        let d = m.function_definitions@.last();
        assert(d.name@ == "rc_drop_"@ + definition.name@);
        assert(definition@.elements == crate::types::types_view(definition.type_.elements@));
        assert(rc_function_shape(d, definition@, tds, false));
    }
}

/// Drops every element of a record value, in order.
fn drop_record_elements(
    ctx: &mut ModuleContext,
    instructions: &mut Vec<Instruction>,
    record: &TypedExpression,
    record_type: &RecordType,
    definition: &TypeDefinition,
    types: &Vec<TypeDefinition>,
) -> (r: ())
    requires
        spec_lookup_elements(type_defs_view(types@), record_type@) is Some,
    ensures
        final(ctx).module == old(ctx).module,
        final(instructions)@.len() >= old(instructions)@.len(),
        final(instructions)@.take(old(instructions)@.len() as int) == old(instructions)@,
        is_elementwise_rc_body(
            final(instructions)@.skip(old(instructions)@.len() as int),
            crate::types::types_view(definition.type_.elements@),
            type_defs_view(types@),
            spec_record_boxed(type_defs_view(types@), record_type@),
            false,
        ),
{
    let ghost tds = type_defs_view(types@);
    let ghost base = instructions@;
    let ghost boxed = spec_record_boxed(tds, record_type@);
    let mut i: usize = 0;
    proof {
        assert(crate::types::types_view(definition.type_.elements@.take(0))
            =~= Seq::<SpecType>::empty());
        assert(instructions@.skip(base.len() as int) =~= Seq::<Instruction>::empty());
    }
    while i < definition.type_.elements.len()
        invariant
            0 <= i <= definition.type_.elements@.len(),
            ctx.module == old(ctx).module,
            tds == type_defs_view(types@),
            boxed == spec_record_boxed(tds, record_type@),
            spec_lookup_elements(tds, record_type@) is Some,
            instructions@.len() >= base.len(),
            instructions@.take(base.len() as int) == base,
            base == old(instructions)@,
            is_elementwise_rc_body(
                instructions@.skip(base.len() as int),
                crate::types::types_view(definition.type_.elements@.take(i as int)),
                tds,
                boxed,
                false,
            ),
        decreases definition.type_.elements.len() - i,
    {
        let ghost pre = instructions@;
        let element = get_record_element(ctx, instructions, record, record_type, i, types);
        let ghost mid = instructions@;
        let element_type = definition.type_.elements[i].clone();
        let ghost t = element_type@;
        if check_wf_type(&element_type, types) {
            drop_expression(ctx, instructions, &element, &element_type, types);
            proof {
                lemma_drop_emits_len(t, instructions@.skip(mid.len() as int));
            }
        }
        proof {
            assert(pre.skip(base.len() as int).len() == pre.len() - base.len());
            lemma_elementwise_step_offset(
                base,
                pre,
                mid,
                instructions@,
                definition.type_.elements@,
                i as int,
                tds,
                boxed,
                false,
            );
        }
        i += 1;
    }
    proof {
        assert(definition.type_.elements@.take(definition.type_.elements@.len() as int)
            =~= definition.type_.elements@);
    }
}

/// The elementwise step, working on the suffix past a kept prefix.
proof fn lemma_elementwise_step_offset(
    base: Seq<Instruction>,
    pre: Seq<Instruction>,
    mid: Seq<Instruction>,
    cur: Seq<Instruction>,
    elements: Seq<Type>,
    i: int,
    tds: Seq<crate::module::SpecTypeDefinition>,
    boxed: bool,
    clone: bool,
)
    requires
        0 <= i < elements.len(),
        pre.len() >= base.len(),
        pre.take(base.len() as int) == base,
        is_elementwise_rc_body(
            pre.skip(base.len() as int),
            crate::types::types_view(elements.take(i)),
            tds,
            boxed,
            clone,
        ),
        mid.len() == pre.len() + if boxed {
            2int
        } else {
            1int
        },
        mid.take(pre.len() as int) == pre,
        boxed ==> (mid[pre.len() as int] matches Instruction::Load(_, _)),
        mid.last() matches Instruction::DeconstructRecord(_, idx, _) && idx == i,
        spec_wf_type(crate::types::type_view(elements[i]), tds) ==> (cur.len() == mid.len()
            + rc_dispatch_len(crate::types::type_view(elements[i])) && cur.take(mid.len() as int)
            == mid && (if clone {
            emits_clone_of(crate::types::type_view(elements[i]), cur.skip(mid.len() as int))
        } else {
            emits_drop_of(crate::types::type_view(elements[i]), cur.skip(mid.len() as int))
        })),
        !spec_wf_type(crate::types::type_view(elements[i]), tds) ==> cur == mid,
    ensures
        cur.len() >= base.len(),
        cur.take(base.len() as int) == base,
        is_elementwise_rc_body(
            cur.skip(base.len() as int),
            crate::types::types_view(elements.take(i + 1)),
            tds,
            boxed,
            clone,
        ),
{
    let pre2 = pre.skip(base.len() as int);
    let mid2 = mid.skip(base.len() as int);
    let cur2 = cur.skip(base.len() as int);
    assert(mid2.take(pre2.len() as int) =~= pre2) by {
        assert forall|k: int| 0 <= k < pre2.len() implies mid2[k] == pre2[k] by {
            assert(mid2[k] == mid[base.len() + k]);
            assert(mid[base.len() + k] == pre[base.len() + k]);
        }
    }
    assert(mid2.last() == mid.last());
    if boxed {
        assert(mid2[pre2.len() as int] == mid[pre.len() as int]);
    }
    let tv = crate::types::type_view(elements[i]);
    if spec_wf_type(tv, tds) {
        assert(cur2.take(mid2.len() as int) =~= mid2) by {
            assert forall|k: int| 0 <= k < mid2.len() implies cur2[k] == mid2[k] by {
                assert(cur2[k] == cur[base.len() + k]);
                assert(cur[base.len() + k] == mid[base.len() + k]);
            }
        }
        assert(cur2.skip(mid2.len() as int) =~= cur.skip(mid.len() as int));
        lemma_elementwise_step(pre2, mid2, cur2, elements, i, tds, boxed, clone);
    } else {
        assert(cur2 =~= mid2);
        lemma_elementwise_step(pre2, mid2, cur2, elements, i, tds, boxed, clone);
    }
    assert(cur.take(base.len() as int) =~= base) by {
        assert forall|k: int| 0 <= k < base.len() implies cur[k] == base[k] by {
            assert(cur[k] == mid[k]);
            assert(mid[k] == pre[k]);
        }
    }
}


/// The whole shape of an emitted variant clone or drop function: weak
/// linkage, target convention, one payload-word argument, a body ending
/// in the type-directed dispatch of the unboxed value.
pub open spec fn variant_rc_function_shape(
    d: crate::target::TargetFunctionDefinition,
    t: SpecType,
    clone: bool,
) -> bool {
    &&& d.linkage == Linkage::Weak
    &&& d.calling_convention == CallingConvention::Target
    &&& d.arguments@.len() == 1
    &&& d.arguments@[0].1 == TargetType::Integer64
    &&& d.body.terminal matches TerminalInstruction::Return(_)
    &&& d.body.instructions@.len() >= rc_dispatch_len(t)
    &&& if clone {
        emits_clone_of(
            t,
            d.body.instructions@.skip(d.body.instructions@.len() - rc_dispatch_len(t)),
        )
    } else {
        emits_drop_of(
            t,
            d.body.instructions@.skip(d.body.instructions@.len() - rc_dispatch_len(t)),
        )
    }
}

/// Emits the clone function of one variant payload type; it unboxes the
/// payload word and clones the contained value. A variant inside a
/// variant is refused.
pub fn compile_variant_clone_function(
    ctx: &mut ModuleContext,
    type_: &Type,
    types: &Vec<TypeDefinition>,
) -> (r: Result<TypedExpression, CompileError>)
    requires
        spec_wf_type(type_@, type_defs_view(types@)),
    ensures
        r matches Err(e2) ==> e2 == CompileError::NestedVariant,
        match r {
            Ok(v) => {
                &&& final(ctx).module.function_definitions@.len() == old(
                    ctx,
                ).module.function_definitions@.len() + 1
                &&& module_extends(old(ctx).module, final(ctx).module)
                &&& defines_function(final(ctx).module, "variant_clone_"@ + spec_type_id(type_@))
                &&& v.expression matches TargetExpression::Variable(vn) && vn@ == "variant_clone_"@
                    + spec_type_id(type_@)
                &&& final(ctx).module.variable_definitions == old(ctx).module.variable_definitions
                &&& !(type_@ matches SpecType::Variant)
                &&& variant_rc_function_shape(
                    final(ctx).module.function_definitions@.last(),
                    type_@,
                    true,
                )
                &&& final(ctx).module.function_definitions@.last().name@ == "variant_clone_"@
                    + spec_type_id(type_@)
            },
            Err(_) => type_@ matches SpecType::Variant && final(ctx).module == old(ctx).module,
        },
{
    let payload_name: String = "_payload".to_owned();
    let payload = variable(&payload_name, compile_variant_payload_type());
    let mut instructions: Vec<Instruction> = Vec::new();
    let value = compile_unboxed_payload(ctx, &mut instructions, &payload, type_, types)?;
    let ghost mid = instructions@;
    clone_expression(ctx, &mut instructions, &value, type_, types);
    proof {
        lemma_clone_emits_len(type_@, instructions@.skip(mid.len() as int));
        assert(instructions@.skip(instructions@.len() - rc_dispatch_len(type_@))
            =~= instructions@.skip(mid.len() as int));
    }
    let mut arguments: Vec<(String, TargetType)> = Vec::new();
    arguments.push((payload_name, compile_variant_payload_type()));
    let name = get_variant_clone_function_name(type_);
    let reference = variable(&name, variant_fn_target_type());
    ctx.add_function_definition(
        crate::target::TargetFunctionDefinition {
            name,
            arguments,
            result_type: void_type(),
            body: Block {
                instructions,
                terminal: crate::target::TerminalInstruction::Return(void_value()),
            },
            calling_convention: CallingConvention::Target,
            linkage: Linkage::Weak,
        },
    );
    proof {
        let m = ctx.module;
        assert(m.function_definitions@[m.function_definitions@.len() - 1].name@
            == "variant_clone_"@ + spec_type_id(type_@));
    }
    Ok(reference)
}

/// Emits the drop function of one variant payload type, symmetric to the
/// clone.
pub fn compile_variant_drop_function(
    ctx: &mut ModuleContext,
    type_: &Type,
    types: &Vec<TypeDefinition>,
) -> (r: Result<TypedExpression, CompileError>)
    requires
        spec_wf_type(type_@, type_defs_view(types@)),
    ensures
        r matches Err(e2) ==> e2 == CompileError::NestedVariant,
        match r {
            Ok(v) => {
                &&& final(ctx).module.function_definitions@.len() == old(
                    ctx,
                ).module.function_definitions@.len() + 1
                &&& module_extends(old(ctx).module, final(ctx).module)
                &&& defines_function(final(ctx).module, "variant_drop_"@ + spec_type_id(type_@))
                &&& v.expression matches TargetExpression::Variable(vn) && vn@ == "variant_drop_"@
                    + spec_type_id(type_@)
                &&& final(ctx).module.variable_definitions == old(ctx).module.variable_definitions
                &&& !(type_@ matches SpecType::Variant)
                &&& variant_rc_function_shape(
                    final(ctx).module.function_definitions@.last(),
                    type_@,
                    false,
                )
                &&& final(ctx).module.function_definitions@.last().name@ == "variant_drop_"@
                    + spec_type_id(type_@)
            },
            Err(_) => type_@ matches SpecType::Variant && final(ctx).module == old(ctx).module,
        },
{
    let payload_name: String = "_payload".to_owned();
    let payload = variable(&payload_name, compile_variant_payload_type());
    let mut instructions: Vec<Instruction> = Vec::new();
    let value = compile_unboxed_payload(ctx, &mut instructions, &payload, type_, types)?;
    let ghost mid = instructions@;
    drop_expression(ctx, &mut instructions, &value, type_, types);
    proof {
        lemma_drop_emits_len(type_@, instructions@.skip(mid.len() as int));
        assert(instructions@.skip(instructions@.len() - rc_dispatch_len(type_@))
            =~= instructions@.skip(mid.len() as int));
    }
    let mut arguments: Vec<(String, TargetType)> = Vec::new();
    arguments.push((payload_name, compile_variant_payload_type()));
    let name = get_variant_drop_function_name(type_);
    let reference = variable(&name, variant_fn_target_type());
    ctx.add_function_definition(
        crate::target::TargetFunctionDefinition {
            name,
            arguments,
            result_type: void_type(),
            body: Block {
                instructions,
                terminal: crate::target::TerminalInstruction::Return(void_value()),
            },
            calling_convention: CallingConvention::Target,
            linkage: Linkage::Weak,
        },
    );
    proof {
        let m = ctx.module;
        assert(m.function_definitions@[m.function_definitions@.len() - 1].name@ == "variant_drop_"@
            + spec_type_id(type_@));
    }
    Ok(reference)
}

/// The shape of a type-info global: a weak immutable record, named by
/// the type's string form, of references to the type's variant clone and
/// drop functions.
pub open spec fn type_info_global_shape(d: TargetVariableDefinition, t: SpecType) -> bool {
    &&& d.name@ == spec_type_id(t)
    &&& d.linkage == Linkage::Weak
    &&& !d.mutable
    &&& d.body.expression matches TargetExpression::Record(_, members) && members@.len() == 2 && (
    members@[0] matches TargetExpression::Variable(clone_name) && clone_name@ == "variant_clone_"@
        + spec_type_id(t)) && (members@[1] matches TargetExpression::Variable(drop_name)
        && drop_name@ == "variant_drop_"@ + spec_type_id(t))
}

/// Emits the type-info global of one variant payload type: a weak record
/// of its clone and drop functions, named by the type's string form, that
/// variant tags point at.
pub fn compile_type_information_global_variable(
    ctx: &mut ModuleContext,
    type_: &Type,
    types: &Vec<TypeDefinition>,
) -> (r: Result<(), CompileError>)
    requires
        spec_wf_type(type_@, type_defs_view(types@)),
    ensures
        r matches Err(e2) ==> e2 == CompileError::NestedVariant,
        match r {
            Ok(_) => {
                &&& module_extends(old(ctx).module, final(ctx).module)
                &&& defines_variable(final(ctx).module, spec_type_id(type_@))
                &&& defines_function(final(ctx).module, "variant_clone_"@ + spec_type_id(type_@))
                &&& defines_function(final(ctx).module, "variant_drop_"@ + spec_type_id(type_@))
                &&& !(type_@ matches SpecType::Variant)
                &&& type_info_global_shape(
                    final(ctx).module.variable_definitions@.last(),
                    type_@,
                )
            },
            Err(_) => type_@ matches SpecType::Variant && final(ctx).module == old(ctx).module,
        },
{
    let ghost m0 = ctx.module;
    let clone_fn = compile_variant_clone_function(ctx, type_, types)?;
    let ghost m1 = ctx.module;
    let drop_fn = compile_variant_drop_function(ctx, type_, types)?;
    let ghost m2 = ctx.module;
    let mut info_types: Vec<TargetType> = Vec::new();
    info_types.push(variant_fn_target_type());
    info_types.push(variant_fn_target_type());
    let mut info_values: Vec<TargetExpression> = Vec::new();
    info_values.push(clone_fn.expression);
    info_values.push(drop_fn.expression);
    ctx.add_variable_definition(
        TargetVariableDefinition {
            name: compile_type_id(type_),
            body: TypedExpression {
                expression: TargetExpression::Record(duplicate_types(&info_types), info_values),
                type_: TargetType::Record(info_types),
            },
            mutable: false,
            linkage: Linkage::Weak,
        },
    );
    proof {
        let m3 = ctx.module;
        crate::target::lemma_module_extends_transitive(m0, m1, m2);
        crate::target::lemma_module_extends_transitive(m0, m2, m3);
        assert(m3.variable_definitions@[m3.variable_definitions@.len() - 1].name@ == spec_type_id(
            type_@,
        ));
        crate::target::lemma_extends_keeps_function(m1, m2, "variant_clone_"@ + spec_type_id(
            type_@,
        ));
        assert(defines_function(m3, "variant_clone_"@ + spec_type_id(type_@))) by {
            crate::target::lemma_extends_keeps_function(
                m2,
                m3,
                "variant_clone_"@ + spec_type_id(type_@),
            );
        }
        assert(defines_function(m3, "variant_drop_"@ + spec_type_id(type_@))) by {
            crate::target::lemma_extends_keeps_function(
                m2,
                m3,
                "variant_drop_"@ + spec_type_id(type_@),
            );
        }
    }
    Ok(())
}

} // verus!
