//! The target IR: a low-level, imperative SSA-like representation with
//! primitive numbers, pointers, records, unions, atomic memory operations
//! and explicit heap allocation, which a code emitter turns into native
//! code. The lowering builds values of these types; nothing here computes.

use crate::ir::{ArithmeticOperator, CallingConvention, ComparisonOperator};
use vstd::prelude::*;

verus! {

/// The type of a target function: uncurried arguments, one result, and
/// the calling convention it is invoked under.
#[derive(Debug, PartialEq)]
pub struct TargetFunctionType {
    pub arguments: Vec<TargetType>,
    pub result: Box<TargetType>,
    pub calling_convention: CallingConvention,
}

/// A target type.
#[derive(Debug, PartialEq)]
pub enum TargetType {
    Boolean,
    Float64,
    Function(TargetFunctionType),
    Integer8,
    Integer64,
    Pointer(Box<TargetType>),
    PointerInteger,
    Record(Vec<TargetType>),
    Union(Vec<TargetType>),
}

#[derive(Clone, Copy, PartialEq, Eq, Structural, Debug)]
pub enum AtomicOrdering {
    Acquire,
    Relaxed,
    Release,
}

#[derive(Clone, Copy, PartialEq, Eq, Structural, Debug)]
pub enum AtomicOperator {
    Add,
    Subtract,
}

#[derive(Clone, Copy, PartialEq, Eq, Structural, Debug)]
pub enum Linkage {
    External,
    Internal,
    Weak,
}

/// A pure target expression.
#[derive(Debug, PartialEq)]
pub enum TargetExpression {
    ArithmeticOperation(ArithmeticOperator, Box<TargetExpression>, Box<TargetExpression>),
    BitCast(TargetType, TargetType, Box<TargetExpression>),
    BitwiseXor(Box<TargetExpression>, Box<TargetExpression>),
    BitwiseAnd(Box<TargetExpression>, Box<TargetExpression>),
    Boolean(bool),
    ComparisonOperation(ComparisonOperator, Box<TargetExpression>, Box<TargetExpression>),
    /// A 64-bit float constant, carried as its bit pattern.
    Float64Bits(u64),
    Integer8(u8),
    PointerInteger(i64),
    Record(Vec<TargetType>, Vec<TargetExpression>),
    SizeOf(TargetType),
    Undefined(TargetType),
    Union(Vec<TargetType>, usize, Box<TargetExpression>),
    Variable(String),
}

/// A target expression together with its type.
#[derive(Debug, PartialEq)]
pub struct TypedExpression {
    pub expression: TargetExpression,
    pub type_: TargetType,
}

/// One target instruction; those that produce a value name it.
#[derive(Debug, PartialEq)]
pub enum Instruction {
    AllocateHeap(TypedExpression, String),
    AtomicLoad(TypedExpression, AtomicOrdering, String),
    AtomicOperation(AtomicOperator, TypedExpression, TypedExpression, String),
    AtomicStore(TypedExpression, TypedExpression, AtomicOrdering),
    Call(TypedExpression, Vec<TypedExpression>, String),
    CompareAndSwap(
        TypedExpression,
        TypedExpression,
        TypedExpression,
        AtomicOrdering,
        AtomicOrdering,
        String,
    ),
    DeconstructRecord(TypedExpression, usize, String),
    DeconstructUnion(TypedExpression, usize, String),
    FreeHeap(TypedExpression),
    If(TypedExpression, Block, Block, TargetType, String),
    Load(TypedExpression, String),
    PointerAddress(TypedExpression, TypedExpression, String),
    RecordAddress(TypedExpression, usize, String),
    Store(TypedExpression, TypedExpression),
    UnionAddress(TypedExpression, usize, String),
}

/// How a block ends.
#[derive(Debug, PartialEq)]
pub enum TerminalInstruction {
    Branch(TypedExpression),
    Return(TypedExpression),
    Unreachable,
}

/// A straight-line block with one terminal.
#[derive(Debug, PartialEq)]
pub struct Block {
    pub instructions: Vec<Instruction>,
    pub terminal: TerminalInstruction,
}

/// A target function definition.
#[derive(Debug, PartialEq)]
pub struct TargetFunctionDefinition {
    pub name: String,
    pub arguments: Vec<(String, TargetType)>,
    pub result_type: TargetType,
    pub body: Block,
    pub calling_convention: CallingConvention,
    pub linkage: Linkage,
}

/// A target global variable definition.
#[derive(Debug, PartialEq)]
pub struct TargetVariableDefinition {
    pub name: String,
    pub body: TypedExpression,
    pub mutable: bool,
    pub linkage: Linkage,
}

#[derive(Debug, PartialEq)]
pub struct TargetFunctionDeclaration {
    pub name: String,
    pub type_: TargetFunctionType,
}

#[derive(Debug, PartialEq)]
pub struct TargetVariableDeclaration {
    pub name: String,
    pub type_: TargetType,
}

/// A whole target module.
#[derive(Debug, PartialEq)]
pub struct TargetModule {
    pub variable_declarations: Vec<TargetVariableDeclaration>,
    pub function_declarations: Vec<TargetFunctionDeclaration>,
    pub variable_definitions: Vec<TargetVariableDefinition>,
    pub function_definitions: Vec<TargetFunctionDefinition>,
}

/// The second module keeps everything the first holds, at the same
/// positions; the lowering only ever appends to a module.
pub open spec fn module_extends(m1: TargetModule, m2: TargetModule) -> bool {
    &&& m1.variable_declarations@.len() <= m2.variable_declarations@.len()
    &&& forall|i: int|
        0 <= i < m1.variable_declarations@.len() ==> m2.variable_declarations@[i]
            == m1.variable_declarations@[i]
    &&& m1.function_declarations@.len() <= m2.function_declarations@.len()
    &&& forall|i: int|
        0 <= i < m1.function_declarations@.len() ==> m2.function_declarations@[i]
            == m1.function_declarations@[i]
    &&& m1.variable_definitions@.len() <= m2.variable_definitions@.len()
    &&& forall|i: int|
        0 <= i < m1.variable_definitions@.len() ==> m2.variable_definitions@[i]
            == m1.variable_definitions@[i]
    &&& m1.function_definitions@.len() <= m2.function_definitions@.len()
    &&& forall|i: int|
        0 <= i < m1.function_definitions@.len() ==> m2.function_definitions@[i]
            == m1.function_definitions@[i]
}

pub proof fn lemma_module_extends_transitive(m1: TargetModule, m2: TargetModule, m3: TargetModule)
    requires
        module_extends(m1, m2),
        module_extends(m2, m3),
    ensures
        module_extends(m1, m3),
{
}

/// The module defines a global variable under this name.
pub open spec fn defines_variable(m: TargetModule, name: Seq<char>) -> bool {
    exists|i: int|
        0 <= i < m.variable_definitions@.len() && m.variable_definitions@[i].name@ == name
}

/// The module defines a function under this name.
pub open spec fn defines_function(m: TargetModule, name: Seq<char>) -> bool {
    exists|i: int|
        0 <= i < m.function_definitions@.len() && m.function_definitions@[i].name@ == name
}

pub proof fn lemma_extends_keeps_variable(m1: TargetModule, m2: TargetModule, name: Seq<char>)
    requires
        module_extends(m1, m2),
        defines_variable(m1, name),
    ensures
        defines_variable(m2, name),
{
    let i = choose|i: int|
        0 <= i < m1.variable_definitions@.len() && m1.variable_definitions@[i].name@ == name;
    assert(m2.variable_definitions@[i].name@ == name);
}

pub proof fn lemma_extends_keeps_function(m1: TargetModule, m2: TargetModule, name: Seq<char>)
    requires
        module_extends(m1, m2),
        defines_function(m1, name),
    ensures
        defines_function(m2, name),
{
    let i = choose|i: int|
        0 <= i < m1.function_definitions@.len() && m1.function_definitions@[i].name@ == name;
    assert(m2.function_definitions@[i].name@ == name);
}

/// The module under construction: the pieces emitted so far and a counter
/// for fresh names.
pub struct ModuleContext {
    pub module: TargetModule,
    pub name_counter: u64,
}

/// The decimal digits of a number, highest first.
pub open spec fn spec_decimal(n: nat) -> Seq<char>
    decreases n,
{
    if n < 10 {
        seq![spec_digit_char(n)]
    } else {
        spec_decimal(n / 10).push(spec_digit_char(n % 10))
    }
}

pub open spec fn spec_digit_char(d: nat) -> char {
    ((48 + d) as u8) as char
}

/// The name the context generates at one counter value.
pub open spec fn spec_generated_name(counter: nat) -> Seq<char> {
    "_g"@ + spec_decimal(counter)
}

fn digit_str(d: u64) -> (r: &'static str)
    requires
        d < 10,
    ensures
        r@ == seq![spec_digit_char(d as nat)],
{
    proof {
        reveal_strlit("0");
        reveal_strlit("1");
        reveal_strlit("2");
        reveal_strlit("3");
        reveal_strlit("4");
        reveal_strlit("5");
        reveal_strlit("6");
        reveal_strlit("7");
        reveal_strlit("8");
        reveal_strlit("9");
    }
    if d == 0 {
        "0"
    } else if d == 1 {
        "1"
    } else if d == 2 {
        "2"
    } else if d == 3 {
        "3"
    } else if d == 4 {
        "4"
    } else if d == 5 {
        "5"
    } else if d == 6 {
        "6"
    } else if d == 7 {
        "7"
    } else if d == 8 {
        "8"
    } else {
        "9"
    }
}

/// The decimal form of a number.
pub fn decimal_string(n: u64) -> (r: String)
    ensures
        r@ == spec_decimal(n as nat),
    decreases n,
{
    if n < 10 {
        digit_str(n).to_owned()
    } else {
        let mut s = decimal_string(n / 10);
        s.append(digit_str(n % 10));
        proof {
            assert(s@ =~= spec_decimal(n as nat));
        }
        s
    }
}

impl ModuleContext {
    pub fn new() -> (r: Self)
        ensures
            r.module.variable_declarations@.len() == 0,
            r.module.function_declarations@.len() == 0,
            r.module.variable_definitions@.len() == 0,
            r.module.function_definitions@.len() == 0,
            r.name_counter == 0,
    {
        ModuleContext {
            module: TargetModule {
                variable_declarations: Vec::new(),
                function_declarations: Vec::new(),
                variable_definitions: Vec::new(),
                function_definitions: Vec::new(),
            },
            name_counter: 0,
        }
    }

    /// A fresh name; the module itself is untouched. The counter advances
    /// by one until it tops out at its maximum, which no real module
    /// reaches; below the ceiling, distinct counters give distinct names.
    pub fn generate_name(&mut self) -> (r: String)
        ensures
            final(self).module == old(self).module,
            r@ == spec_generated_name(old(self).name_counter as nat),
            final(self).name_counter >= old(self).name_counter,
            old(self).name_counter < u64::MAX ==> final(self).name_counter == old(
                self,
            ).name_counter + 1,
    {
        let mut name = "_g".to_owned();
        name.append(decimal_string(self.name_counter).as_str());
        if self.name_counter < u64::MAX {
            self.name_counter = self.name_counter + 1;
        }
        name
    }

    pub fn add_function_definition(&mut self, definition: TargetFunctionDefinition)
        ensures
            final(self).module.function_definitions@ == old(
                self,
            ).module.function_definitions@.push(definition),
            final(self).module.variable_definitions == old(self).module.variable_definitions,
            final(self).module.variable_declarations == old(self).module.variable_declarations,
            final(self).module.function_declarations == old(self).module.function_declarations,
            final(self).name_counter == old(self).name_counter,
            module_extends(old(self).module, final(self).module),
    {
        self.module.function_definitions.push(definition);
    }

    pub fn add_variable_definition(&mut self, definition: TargetVariableDefinition)
        ensures
            final(self).module.variable_definitions@ == old(
                self,
            ).module.variable_definitions@.push(definition),
            final(self).module.function_definitions == old(self).module.function_definitions,
            final(self).module.variable_declarations == old(self).module.variable_declarations,
            final(self).module.function_declarations == old(self).module.function_declarations,
            final(self).name_counter == old(self).name_counter,
            module_extends(old(self).module, final(self).module),
    {
        self.module.variable_definitions.push(definition);
    }

    pub fn add_function_declaration(&mut self, declaration: TargetFunctionDeclaration)
        ensures
            final(self).module.function_declarations@ == old(
                self,
            ).module.function_declarations@.push(declaration),
            final(self).module.function_definitions == old(self).module.function_definitions,
            final(self).module.variable_definitions == old(self).module.variable_definitions,
            final(self).module.variable_declarations == old(self).module.variable_declarations,
            final(self).name_counter == old(self).name_counter,
            module_extends(old(self).module, final(self).module),
    {
        self.module.function_declarations.push(declaration);
    }

    pub fn add_variable_declaration(&mut self, declaration: TargetVariableDeclaration)
        ensures
            final(self).module.variable_declarations@ == old(
                self,
            ).module.variable_declarations@.push(declaration),
            final(self).module.function_definitions == old(self).module.function_definitions,
            final(self).module.variable_definitions == old(self).module.variable_definitions,
            final(self).module.function_declarations == old(self).module.function_declarations,
            final(self).name_counter == old(self).name_counter,
            module_extends(old(self).module, final(self).module),
    {
        self.module.variable_declarations.push(declaration);
    }
}

} // verus!
