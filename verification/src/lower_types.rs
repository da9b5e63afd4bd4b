//! Type lowering: maps each source type to its target representation,
//! decides record boxing, and lays out closures. A closure is a record of
//! entry-function pointer, drop-function pointer, arity and environment;
//! a variant is a pair of type-info pointer and payload word.

use crate::ir::{CallingConvention};
use crate::module::{SpecTypeDefinition, TypeDefinition};
use crate::target::{TargetFunctionType, TargetType};
use crate::types::{type_view, FunctionType, RecordType, SpecType, Type};
use vstd::prelude::*;

verus! {

/// The element types a record name resolves to, from the first matching
/// definition.
pub open spec fn spec_lookup_elements(tds: Seq<SpecTypeDefinition>, name: Seq<char>) -> Option<
    Seq<SpecType>,
>
    decreases tds.len(),
{
    if tds.len() == 0 {
        None
    } else if tds.first().name == name {
        Some(tds.first().elements)
    } else {
        spec_lookup_elements(tds.drop_first(), name)
    }
}

/// Every record name in the type resolves.
pub open spec fn spec_wf_type(t: SpecType, tds: Seq<SpecTypeDefinition>) -> bool
    decreases t,
{
    match t {
        SpecType::Boolean => true,
        SpecType::ByteString => true,
        SpecType::Function(argument, result) => spec_wf_type(*argument, tds) && spec_wf_type(
            *result,
            tds,
        ),
        SpecType::Number => true,
        SpecType::Record(name) => spec_lookup_elements(tds, name) is Some,
        SpecType::Variant => true,
    }
}

/// Every record name in every definition's elements resolves.
pub open spec fn spec_wf_type_map(tds: Seq<SpecTypeDefinition>) -> bool {
    forall|i: int, j: int|
        0 <= i < tds.len() && 0 <= j < tds[i].elements.len() ==> spec_wf_type(
            #[trigger] tds[i].elements[j],
            tds,
        )
}

/// A record type is boxed exactly when its body has elements.
pub open spec fn spec_record_boxed(tds: Seq<SpecTypeDefinition>, name: Seq<char>) -> bool {
    match spec_lookup_elements(tds, name) {
        Some(elements) => elements.len() > 0,
        None => false,
    }
}

/// The curried argument positions of a source function type.
pub open spec fn spec_fn_arguments(t: SpecType) -> Seq<SpecType>
    decreases t,
{
    match t {
        SpecType::Function(argument, result) => seq![*argument] + spec_fn_arguments(*result),
        _ => Seq::empty(),
    }
}

/// The first non-function result of a source function type.
pub open spec fn spec_fn_result(t: SpecType) -> SpecType
    decreases t,
{
    match t {
        SpecType::Function(_, result) => spec_fn_result(*result),
        _ => t,
    }
}

/// The arity of a source function type: its curried argument count.
pub open spec fn spec_arity(t: SpecType) -> nat {
    spec_fn_arguments(t).len()
}

/// The target void type: an empty record.
pub open spec fn is_void_type(r: TargetType) -> bool {
    r matches TargetType::Record(es) && es@.len() == 0
}

/// The untyped closure pointer: a pointer to an empty record, since the
/// target has no recursive types to name a closure with.
pub open spec fn is_untyped_closure_pointer(r: TargetType) -> bool {
    r matches TargetType::Pointer(p) && is_void_type(*p)
}

/// The type of a closure drop function: it takes the closure address as a
/// pointer-sized integer, returns nothing, in the target convention.
pub open spec fn is_closure_drop_fn_type(r: TargetType) -> bool {
    r matches TargetType::Function(ft) && ft.arguments@.len() == 1 && ft.arguments@[0]
        == TargetType::PointerInteger && is_void_type(*ft.result) && ft.calling_convention
        == CallingConvention::Target
}

/// The lowered byte string: a record of the byte pointer and the length.
/// The pointer is tagged when it refers to a static constant.
pub open spec fn is_lowered_string(r: TargetType) -> bool {
    r matches TargetType::Record(es) && es@.len() == 2 && (es@[0] matches TargetType::Pointer(p)
        && *p == TargetType::Integer8) && es@[1] == TargetType::PointerInteger
}

/// The variant payload word.
pub open spec fn is_variant_payload_type(r: TargetType) -> bool {
    r == TargetType::Integer64
}

/// The variant tag: a pointer to the type-info record of clone and drop
/// functions over the payload word.
pub open spec fn is_variant_tag_type(r: TargetType) -> bool {
    r matches TargetType::Pointer(p) && (*p matches TargetType::Record(es) && es@.len() == 2
        && is_variant_fn_type(es@[0]) && is_variant_fn_type(es@[1]))
}

pub open spec fn is_variant_fn_type(r: TargetType) -> bool {
    r matches TargetType::Function(ft) && ft.arguments@.len() == 1 && ft.arguments@[0]
        == TargetType::Integer64 && is_void_type(*ft.result) && ft.calling_convention
        == CallingConvention::Target
}

/// The lowered variant: tag pointer and payload word.
pub open spec fn is_lowered_variant(r: TargetType) -> bool {
    r matches TargetType::Record(es) && es@.len() == 2 && is_variant_tag_type(es@[0])
        && is_variant_payload_type(es@[1])
}

/// The lowering of a non-function source type.
pub open spec fn is_lowered_leaf(t: SpecType, tds: Seq<SpecTypeDefinition>, r: TargetType) -> bool {
    match t {
        SpecType::Boolean => r == TargetType::Boolean,
        SpecType::ByteString => is_lowered_string(r),
        SpecType::Function(_, _) => false,
        SpecType::Number => r == TargetType::Float64,
        SpecType::Record(name) => if spec_record_boxed(tds, name) {
            is_untyped_closure_pointer(r)
        } else {
            is_void_type(r)
        },
        SpecType::Variant => is_lowered_variant(r),
    }
}

/// The lowering of any source type: a function becomes a pointer to an
/// unsized closure whose entry function takes the closure and the curried
/// arguments in the source convention.
pub open spec fn is_lowered_type(t: SpecType, tds: Seq<SpecTypeDefinition>, r: TargetType) -> bool
    decreases t, 1int,
{
    match t {
        SpecType::Function(_, _) => r matches TargetType::Pointer(p) && (*p
            matches TargetType::Record(es) && es@.len() == 4 && (es@[0]
            matches TargetType::Function(ft) && ft.calling_convention == CallingConvention::Source
            && ft.arguments@.len() >= 1 && is_untyped_closure_pointer(ft.arguments@[0])
            && entry_signature_matches(t, tds, ft.arguments@, 1, *ft.result))
            && is_closure_drop_fn_type(es@[1]) && es@[2] == TargetType::PointerInteger && is_void_type(
            es@[3],
        )),
        _ => is_lowered_leaf(t, tds, r),
    }
}

/// The tail of an entry function's signature follows a curried source
/// function type: one lowered argument per curried position, then the
/// lowered result.
pub open spec fn entry_signature_matches(
    t: SpecType,
    tds: Seq<SpecTypeDefinition>,
    arguments: Seq<TargetType>,
    i: int,
    result: TargetType,
) -> bool
    decreases t, 0int,
{
    match t {
        SpecType::Function(argument, rest) => i < arguments.len() && is_lowered_type(
            *argument,
            tds,
            arguments[i],
        ) && entry_signature_matches(*rest, tds, arguments, i + 1, result),
        _ => i == arguments.len() && is_lowered_leaf(t, tds, result),
    }
}

/// The views of the record-type definitions.
pub open spec fn type_defs_view(tds: Seq<TypeDefinition>) -> Seq<SpecTypeDefinition> {
    Seq::new(tds.len(), |i: int| tds[i]@)
}

/// Looks a record name up in the type definitions.
pub fn lookup_elements<'a>(types: &'a Vec<TypeDefinition>, name: &String) -> (r: Option<
    &'a Vec<Type>,
>)
    ensures
        match r {
            Some(elements) => spec_lookup_elements(type_defs_view(types@), name@) == Some(
                crate::types::types_view(elements@),
            ),
            None => spec_lookup_elements(type_defs_view(types@), name@) is None,
        },
{
    let ghost tds = type_defs_view(types@);
    proof {
        assert(tds.skip(0) =~= tds);
    }
    let mut i: usize = 0;
    while i < types.len()
        invariant
            0 <= i <= types.len(),
            tds == type_defs_view(types@),
            spec_lookup_elements(tds, name@) == spec_lookup_elements(tds.skip(i as int), name@),
        decreases types.len() - i,
    {
        proof {
            assert(tds.skip(i as int).first() == tds[i as int]);
            assert(tds.skip(i as int).drop_first() =~= tds.skip(i + 1 as int));
        }
        if types[i].name == *name {
            return Some(&types[i].type_.elements);
        }
        i += 1;
    }
    proof {
        assert(tds.skip(types.len() as int) =~= Seq::<SpecTypeDefinition>::empty());
    }
    None
}

/// Record boxing: a record is heap-allocated exactly when its body has at
/// least one element.
pub fn is_record_boxed(record: &RecordType, types: &Vec<TypeDefinition>) -> (r: bool)
    requires
        spec_lookup_elements(type_defs_view(types@), record@) is Some,
    ensures
        r == spec_record_boxed(type_defs_view(types@), record@),
{
    let elements = match lookup_elements(types, &record.name) {
        Some(elements) => elements,
        None => {
            proof {
                assert(false);
            }
            return false;
        },
    };
    proof {
        crate::types::lemma_types_view(elements@);
    }
    elements.len() > 0
}

/// The target void type.
pub fn void_type() -> (r: TargetType)
    ensures
        is_void_type(r),
{
    let elements: Vec<TargetType> = Vec::new();
    TargetType::Record(elements)
}

/// The untyped closure pointer type.
pub fn compile_untyped_closure_pointer() -> (r: TargetType)
    ensures
        is_untyped_closure_pointer(r),
{
    TargetType::Pointer(Box::new(void_type()))
}

/// The closure drop function type.
pub fn compile_closure_drop_function() -> (r: TargetType)
    ensures
        is_closure_drop_fn_type(r),
{
    let mut arguments: Vec<TargetType> = Vec::new();
    arguments.push(TargetType::PointerInteger);
    TargetType::Function(
        TargetFunctionType {
            arguments,
            result: Box::new(void_type()),
            calling_convention: CallingConvention::Target,
        },
    )
}

/// The arity slot type.
pub fn compile_arity_type() -> (r: TargetType)
    ensures
        r == TargetType::PointerInteger,
{
    TargetType::PointerInteger
}

/// The lowered byte string type.
pub fn compile_string_type() -> (r: TargetType)
    ensures
        is_lowered_string(r),
{
    let mut elements: Vec<TargetType> = Vec::new();
    elements.push(TargetType::Pointer(Box::new(TargetType::Integer8)));
    elements.push(TargetType::PointerInteger);
    TargetType::Record(elements)
}

/// The variant payload word type.
pub fn compile_variant_payload_type() -> (r: TargetType)
    ensures
        is_variant_payload_type(r),
{
    TargetType::Integer64
}

fn compile_variant_fn_type() -> (r: TargetType)
    ensures
        is_variant_fn_type(r),
{
    let mut arguments: Vec<TargetType> = Vec::new();
    arguments.push(TargetType::Integer64);
    TargetType::Function(
        TargetFunctionType {
            arguments,
            result: Box::new(void_type()),
            calling_convention: CallingConvention::Target,
        },
    )
}

/// The variant tag type: a pointer to the type-info record.
pub fn compile_variant_tag_type() -> (r: TargetType)
    ensures
        is_variant_tag_type(r),
{
    let mut elements: Vec<TargetType> = Vec::new();
    elements.push(compile_variant_fn_type());
    elements.push(compile_variant_fn_type());
    TargetType::Pointer(Box::new(TargetType::Record(elements)))
}

/// The lowered variant type.
pub fn compile_variant_type() -> (r: TargetType)
    ensures
        is_lowered_variant(r),
{
    let mut elements: Vec<TargetType> = Vec::new();
    elements.push(compile_variant_tag_type());
    elements.push(compile_variant_payload_type());
    TargetType::Record(elements)
}

/// The lowered form of a nominal record type: boxed records are opaque
/// pointers, unboxed (empty) records are inline empty records.
pub fn compile_record_type(record: &RecordType, types: &Vec<TypeDefinition>) -> (r: TargetType)
    requires
        spec_lookup_elements(type_defs_view(types@), record@) is Some,
    ensures
        is_lowered_leaf(SpecType::Record(record@), type_defs_view(types@), r),
{
    if is_record_boxed(record, types) {
        compile_untyped_closure_pointer()
    } else {
        void_type()
    }
}

/// Lowers one source type.
pub fn compile_type(type_: &Type, types: &Vec<TypeDefinition>) -> (r: TargetType)
    requires
        spec_wf_type(type_@, type_defs_view(types@)),
    ensures
        is_lowered_type(type_@, type_defs_view(types@), r),
    decreases *type_, 3int,
{
    match type_ {
        Type::Boolean => TargetType::Boolean,
        Type::ByteString => compile_string_type(),
        Type::Function(function) => TargetType::Pointer(
            Box::new(compile_unsized_closure(function, types)),
        ),
        Type::Number => TargetType::Float64,
        Type::Record(record) => compile_record_type(record, types),
        Type::Variant => compile_variant_type(),
    }
}

/// The unsized closure record of a function type: entry function, drop
/// function, arity, empty environment.
pub fn compile_unsized_closure(function: &FunctionType, types: &Vec<TypeDefinition>) -> (r:
    TargetType)
    requires
        spec_wf_type(function@, type_defs_view(types@)),
    ensures
        is_lowered_type(function@, type_defs_view(types@), TargetType::Pointer(Box::new(r))),
    decreases *function, 2int,
{
    let entry = compile_curried_entry_type(function, types);
    let mut elements: Vec<TargetType> = Vec::new();
    elements.push(entry);
    elements.push(compile_closure_drop_function());
    elements.push(compile_arity_type());
    elements.push(void_type());
    TargetType::Record(elements)
}

/// The entry function type of a curried source function: the untyped
/// closure pointer, then one lowered argument per curried position, then
/// the lowered final result, in the source convention.
fn compile_curried_entry_type(function: &FunctionType, types: &Vec<TypeDefinition>) -> (r:
    TargetType)
    requires
        spec_wf_type(function@, type_defs_view(types@)),
    ensures
        r matches TargetType::Function(ft) && ft.calling_convention == CallingConvention::Source
            && ft.arguments@.len() >= 1 && is_untyped_closure_pointer(ft.arguments@[0])
            && entry_signature_matches(function@, type_defs_view(types@), ft.arguments@, 1,
        *ft.result),
    decreases *function, 1int,
{
    let mut arguments: Vec<TargetType> = Vec::new();
    arguments.push(compile_untyped_closure_pointer());
    let result = push_curried_arguments(function, types, &mut arguments);
    TargetType::Function(
        TargetFunctionType {
            arguments,
            result: Box::new(result),
            calling_convention: CallingConvention::Source,
        },
    )
}

/// Appends the lowered curried arguments of a function type and returns
/// the lowered final result.
fn push_curried_arguments(
    function: &FunctionType,
    types: &Vec<TypeDefinition>,
    arguments: &mut Vec<TargetType>,
) -> (result: TargetType)
    requires
        spec_wf_type(function@, type_defs_view(types@)),
    ensures
        final(arguments)@.len() > old(arguments)@.len(),
        forall|i: int|
            0 <= i < old(arguments)@.len() ==> final(arguments)@[i] == old(arguments)@[i],
        entry_signature_matches(
            function@,
            type_defs_view(types@),
            final(arguments)@,
            old(arguments)@.len() as int,
            result,
        ),
    decreases *function, 0int,
{
    let argument_type = compile_type(&function.argument, types);
    arguments.push(argument_type);
    match &*function.result {
        Type::Function(rest) => push_curried_arguments(rest, types, arguments),
        other => {
            let r = compile_type(other, types);
            proof {
                assert(entry_signature_matches(
                    type_view(*function.result),
                    type_defs_view(types@),
                    arguments@,
                    old(arguments)@.len() + 1 as int,
                    r,
                ));
            }
            r
        },
    }
}

/// The runtime arity held in a closure: the entry function's argument
/// count less the closure pointer itself.
pub fn get_arity(type_: &TargetFunctionType) -> (r: usize)
    requires
        type_.arguments@.len() >= 1,
    ensures
        r == type_.arguments@.len() - 1,
{
    type_.arguments.len() - 1
}

} // verus!
