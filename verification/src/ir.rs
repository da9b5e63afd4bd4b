//! The source IR: a closed expression sum over a typed lambda calculus with
//! records, variants, thunks and explicit clone/drop ownership markers, plus
//! the module that carries top-level definitions and foreign bindings.

use crate::types::{FunctionType, RecordType, SpecType, Type};
use crate::vars::VariableSet;
use vstd::prelude::*;

verus! {

#[derive(Clone, Copy, PartialEq, Eq, Structural, Debug)]
pub enum ArithmeticOperator {
    Add,
    Subtract,
    Multiply,
    Divide,
}

#[derive(Clone, Copy, PartialEq, Eq, Structural, Debug)]
pub enum ComparisonOperator {
    Equal,
    NotEqual,
    GreaterThan,
    GreaterThanOrEqual,
    LessThan,
    LessThanOrEqual,
}

#[derive(Clone, Copy, PartialEq, Eq, Structural, Debug)]
pub enum CallingConvention {
    Source,
    Target,
}

/// Mathematical form of an argument: name and type.
pub struct SpecArgument {
    pub name: Seq<char>,
    pub type_: SpecType,
}

/// Mathematical form of a case alternative.
pub struct SpecAlternative {
    pub type_: SpecType,
    pub name: Seq<char>,
    pub expression: Box<SpecExpr>,
}

/// Mathematical form of a default case alternative.
pub struct SpecDefaultAlternative {
    pub name: Seq<char>,
    pub expression: Box<SpecExpr>,
}

/// Mathematical form of a function definition.
pub struct SpecDefinition {
    pub name: Seq<char>,
    pub environment: Seq<SpecArgument>,
    pub arguments: Seq<SpecArgument>,
    pub body: Box<SpecExpr>,
    pub result_type: SpecType,
    pub is_thunk: bool,
}

/// Mathematical form of a source expression, used by every contract.
pub enum SpecExpr {
    ArithmeticOperation(ArithmeticOperator, Box<SpecExpr>, Box<SpecExpr>),
    Boolean(bool),
    ByteString(Seq<u8>),
    Case(Box<SpecExpr>, Seq<SpecAlternative>, Option<Box<SpecDefaultAlternative>>),
    CloneVariables(Set<Seq<char>>, Box<SpecExpr>),
    ComparisonOperation(ComparisonOperator, Box<SpecExpr>, Box<SpecExpr>),
    DropVariables(Set<Seq<char>>, Box<SpecExpr>),
    FunctionApplication(Box<SpecExpr>, Box<SpecExpr>),
    If(Box<SpecExpr>, Box<SpecExpr>, Box<SpecExpr>),
    Let(Seq<char>, SpecType, Box<SpecExpr>, Box<SpecExpr>),
    LetRecursive(Box<SpecDefinition>, Box<SpecExpr>),
    Number(u64),
    Record(Seq<char>, Seq<SpecExpr>),
    RecordElement(Seq<char>, int, Box<SpecExpr>),
    Variable(Seq<char>),
    Variant(SpecType, Box<SpecExpr>),
}

/// A function argument or an environment entry: a name with its type.
#[derive(Debug, PartialEq)]
pub struct Argument {
    pub name: String,
    pub type_: Type,
}

/// One alternative of a case expression; it binds `name` at the
/// alternative's inner type inside its expression.
#[derive(Debug, PartialEq)]
pub struct Alternative {
    pub type_: Type,
    pub name: String,
    pub expression: Box<Expression>,
}

/// The default alternative of a case expression; it binds the scrutinee.
#[derive(Debug, PartialEq)]
pub struct DefaultAlternative {
    pub name: String,
    pub expression: Box<Expression>,
}

/// A function definition: free-variable environment, arguments, body.
/// With `is_thunk` the body is evaluated lazily, once.
#[derive(Debug, PartialEq)]
pub struct Definition {
    pub name: String,
    pub environment: Vec<Argument>,
    pub arguments: Vec<Argument>,
    pub body: Box<Expression>,
    pub result_type: Type,
    pub is_thunk: bool,
}

#[derive(Debug, PartialEq)]
pub struct ArithmeticOperation {
    pub operator: ArithmeticOperator,
    pub lhs: Box<Expression>,
    pub rhs: Box<Expression>,
}

#[derive(Debug, PartialEq)]
pub struct ComparisonOperation {
    pub operator: ComparisonOperator,
    pub lhs: Box<Expression>,
    pub rhs: Box<Expression>,
}

/// A byte-string constant.
#[derive(Debug, PartialEq)]
pub struct ByteString {
    pub value: Vec<u8>,
}

/// A number constant, carried as the bit pattern of its 64-bit
/// floating-point encoding; the lowering hands the bits through unread.
#[derive(Debug, PartialEq)]
pub struct Number {
    pub bits: u64,
}

#[derive(Debug, PartialEq)]
pub struct Case {
    pub argument: Box<Expression>,
    pub alternatives: Vec<Alternative>,
    pub default_alternative: Option<Box<DefaultAlternative>>,
}

/// Clone markers: the named variables gain one reference before the
/// inner expression runs. Produced only by the reference-count pass.
#[derive(Debug, PartialEq)]
pub struct CloneVariables {
    pub variables: VariableSet,
    pub expression: Box<Expression>,
}

/// Drop markers: the named variables lose their reference after the
/// inner expression runs. Produced only by the reference-count pass.
#[derive(Debug, PartialEq)]
pub struct DropVariables {
    pub variables: VariableSet,
    pub expression: Box<Expression>,
}

#[derive(Debug, PartialEq)]
pub struct FunctionApplication {
    pub function: Box<Expression>,
    pub argument: Box<Expression>,
}

#[derive(Debug, PartialEq)]
pub struct If {
    pub condition: Box<Expression>,
    pub then_: Box<Expression>,
    pub else_: Box<Expression>,
}

#[derive(Debug, PartialEq)]
pub struct Let {
    pub name: String,
    pub type_: Type,
    pub bound_expression: Box<Expression>,
    pub expression: Box<Expression>,
}

#[derive(Debug, PartialEq)]
pub struct LetRecursive {
    pub definition: Box<Definition>,
    pub expression: Box<Expression>,
}

#[derive(Debug, PartialEq)]
pub struct Record {
    pub type_: RecordType,
    pub elements: Vec<Expression>,
}

#[derive(Debug, PartialEq)]
pub struct RecordElement {
    pub type_: RecordType,
    pub index: usize,
    pub record: Box<Expression>,
}

#[derive(Debug, PartialEq)]
pub struct Variable {
    pub name: String,
}

/// A dynamically tagged value holding a payload of the inner type.
#[derive(Debug, PartialEq)]
pub struct Variant {
    pub type_: Type,
    pub payload: Box<Expression>,
}

/// A source expression.
#[derive(Debug, PartialEq)]
pub enum Expression {
    ArithmeticOperation(ArithmeticOperation),
    Boolean(bool),
    ByteString(ByteString),
    Case(Case),
    CloneVariables(CloneVariables),
    ComparisonOperation(ComparisonOperation),
    DropVariables(DropVariables),
    FunctionApplication(FunctionApplication),
    If(If),
    Let(Let),
    LetRecursive(LetRecursive),
    Number(Number),
    Record(Record),
    RecordElement(RecordElement),
    Variable(Variable),
    Variant(Variant),
}

pub open spec fn argument_view(a: Argument) -> SpecArgument {
    SpecArgument { name: a.name@, type_: a.type_@ }
}

pub open spec fn arguments_view(s: Seq<Argument>) -> Seq<SpecArgument> {
    Seq::new(s.len(), |i: int| argument_view(s[i]))
}

pub open spec fn expression_view(e: Expression) -> SpecExpr
    decreases e,
{
    match e {
        Expression::ArithmeticOperation(operation) => SpecExpr::ArithmeticOperation(
            operation.operator,
            Box::new(expression_view(*operation.lhs)),
            Box::new(expression_view(*operation.rhs)),
        ),
        Expression::Boolean(boolean) => SpecExpr::Boolean(boolean),
        Expression::ByteString(string) => SpecExpr::ByteString(string.value@),
        Expression::Case(case) => SpecExpr::Case(
            Box::new(expression_view(*case.argument)),
            alternatives_view(case.alternatives@),
            match case.default_alternative {
                Some(default) => Some(
                    Box::new(
                        SpecDefaultAlternative {
                            name: default.name@,
                            expression: Box::new(expression_view(*default.expression)),
                        },
                    ),
                ),
                None => None,
            },
        ),
        Expression::CloneVariables(clone) => SpecExpr::CloneVariables(
            clone.variables@,
            Box::new(expression_view(*clone.expression)),
        ),
        Expression::ComparisonOperation(operation) => SpecExpr::ComparisonOperation(
            operation.operator,
            Box::new(expression_view(*operation.lhs)),
            Box::new(expression_view(*operation.rhs)),
        ),
        Expression::DropVariables(drop) => SpecExpr::DropVariables(
            drop.variables@,
            Box::new(expression_view(*drop.expression)),
        ),
        Expression::FunctionApplication(application) => SpecExpr::FunctionApplication(
            Box::new(expression_view(*application.function)),
            Box::new(expression_view(*application.argument)),
        ),
        Expression::If(if_) => SpecExpr::If(
            Box::new(expression_view(*if_.condition)),
            Box::new(expression_view(*if_.then_)),
            Box::new(expression_view(*if_.else_)),
        ),
        Expression::Let(let_) => SpecExpr::Let(
            let_.name@,
            let_.type_@,
            Box::new(expression_view(*let_.bound_expression)),
            Box::new(expression_view(*let_.expression)),
        ),
        Expression::LetRecursive(let_) => SpecExpr::LetRecursive(
            Box::new(definition_view(*let_.definition)),
            Box::new(expression_view(*let_.expression)),
        ),
        Expression::Number(number) => SpecExpr::Number(number.bits),
        Expression::Record(record) => SpecExpr::Record(
            record.type_@,
            exprs_view(record.elements@),
        ),
        Expression::RecordElement(element) => SpecExpr::RecordElement(
            element.type_@,
            element.index as int,
            Box::new(expression_view(*element.record)),
        ),
        Expression::Variable(variable) => SpecExpr::Variable(variable.name@),
        Expression::Variant(variant) => SpecExpr::Variant(
            variant.type_@,
            Box::new(expression_view(*variant.payload)),
        ),
    }
}

pub open spec fn exprs_view(es: Seq<Expression>) -> Seq<SpecExpr>
    decreases es,
{
    if es.len() == 0 {
        Seq::empty()
    } else {
        exprs_view(es.drop_last()).push(expression_view(es.last()))
    }
}

pub proof fn lemma_exprs_view(es: Seq<Expression>)
    ensures
        exprs_view(es).len() == es.len(),
        forall|i: int| 0 <= i < es.len() ==> exprs_view(es)[i] == expression_view(es[i]),
    decreases es.len(),
{
    if es.len() > 0 {
        lemma_exprs_view(es.drop_last());
    }
}

pub open spec fn alternative_view(a: Alternative) -> SpecAlternative
    decreases a,
{
    SpecAlternative {
        type_: a.type_@,
        name: a.name@,
        expression: Box::new(expression_view(*a.expression)),
    }
}

pub open spec fn alternatives_view(s: Seq<Alternative>) -> Seq<SpecAlternative>
    decreases s,
{
    if s.len() == 0 {
        Seq::empty()
    } else {
        alternatives_view(s.drop_last()).push(alternative_view(s.last()))
    }
}

pub proof fn lemma_alternatives_view(s: Seq<Alternative>)
    ensures
        alternatives_view(s).len() == s.len(),
        forall|i: int| 0 <= i < s.len() ==> alternatives_view(s)[i] == alternative_view(s[i]),
    decreases s.len(),
{
    if s.len() > 0 {
        lemma_alternatives_view(s.drop_last());
    }
}

pub open spec fn definition_view(d: Definition) -> SpecDefinition
    decreases d,
{
    SpecDefinition {
        name: d.name@,
        environment: arguments_view(d.environment@),
        arguments: arguments_view(d.arguments@),
        body: Box::new(expression_view(*d.body)),
        result_type: d.result_type@,
        is_thunk: d.is_thunk,
    }
}

impl View for Argument {
    type V = SpecArgument;

    open spec fn view(&self) -> SpecArgument {
        argument_view(*self)
    }
}

impl View for Alternative {
    type V = SpecAlternative;

    open spec fn view(&self) -> SpecAlternative {
        alternative_view(*self)
    }
}

impl View for Definition {
    type V = SpecDefinition;

    open spec fn view(&self) -> SpecDefinition {
        definition_view(*self)
    }
}

impl View for Expression {
    type V = SpecExpr;

    open spec fn view(&self) -> SpecExpr {
        expression_view(*self)
    }
}


pub proof fn lemma_exprs_view_push(s: Seq<Expression>, x: Expression)
    ensures
        exprs_view(s.push(x)) == exprs_view(s).push(expression_view(x)),
{
    assert(s.push(x).drop_last() =~= s);
}

pub proof fn lemma_alternatives_view_push(s: Seq<Alternative>, x: Alternative)
    ensures
        alternatives_view(s.push(x)) == alternatives_view(s).push(alternative_view(x)),
{
    assert(s.push(x).drop_last() =~= s);
}

pub proof fn lemma_arguments_view_push(s: Seq<Argument>, x: Argument)
    ensures
        arguments_view(s.push(x)) == arguments_view(s).push(argument_view(x)),
{
    assert(arguments_view(s.push(x)) =~= arguments_view(s).push(argument_view(x)));
}

/// A view-preserving copy of a vector of expressions.
pub fn clone_expressions(es: &Vec<Expression>) -> (r: Vec<Expression>)
    ensures
        exprs_view(r@) == exprs_view(es@),
    decreases es,
{
    let mut r: Vec<Expression> = Vec::new();
    let mut i: usize = 0;
    while i < es.len()
        invariant
            0 <= i <= es.len(),
            exprs_view(r@) == exprs_view(es@.take(i as int)),
        decreases es.len() - i,
    {
        let ghost r0 = r@;
        r.push(es[i].clone());
        proof {
            assert(r@ == r0.push(r@.last()));
            lemma_exprs_view_push(r0, r@.last());
            assert(es@.take(i + 1 as int).drop_last() =~= es@.take(i as int));
            assert(exprs_view(r@) =~= exprs_view(es@.take(i + 1 as int)));
        }
        i += 1;
    }
    proof {
        assert(es@.take(es.len() as int) =~= es@);
    }
    r
}

/// A view-preserving copy of a vector of arguments.
pub fn clone_arguments(args: &Vec<Argument>) -> (r: Vec<Argument>)
    ensures
        arguments_view(r@) == arguments_view(args@),
{
    let mut r: Vec<Argument> = Vec::new();
    let mut i: usize = 0;
    while i < args.len()
        invariant
            0 <= i <= args.len(),
            arguments_view(r@) == arguments_view(args@.take(i as int)),
        decreases args.len() - i,
    {
        let ghost r0 = r@;
        r.push(args[i].clone());
        proof {
            assert(r@ == r0.push(r@.last()));
            lemma_arguments_view_push(r0, r@.last());
            assert(args@.take(i + 1 as int) =~= args@.take(i as int).push(args@[i as int]));
            lemma_arguments_view_push(args@.take(i as int), args@[i as int]);
        }
        i += 1;
    }
    proof {
        assert(args@.take(args.len() as int) =~= args@);
    }
    r
}

/// A view-preserving copy of a vector of alternatives.
pub fn clone_alternatives(alts: &Vec<Alternative>) -> (r: Vec<Alternative>)
    ensures
        alternatives_view(r@) == alternatives_view(alts@),
    decreases alts,
{
    let mut r: Vec<Alternative> = Vec::new();
    let mut i: usize = 0;
    while i < alts.len()
        invariant
            0 <= i <= alts.len(),
            alternatives_view(r@) == alternatives_view(alts@.take(i as int)),
        decreases alts.len() - i,
    {
        let ghost r0 = r@;
        r.push(alts[i].clone());
        proof {
            assert(r@ == r0.push(r@.last()));
            lemma_alternatives_view_push(r0, r@.last());
            assert(alts@.take(i + 1 as int).drop_last() =~= alts@.take(i as int));
            assert(alternatives_view(r@) =~= alternatives_view(alts@.take(i + 1 as int)));
        }
        i += 1;
    }
    proof {
        assert(alts@.take(alts.len() as int) =~= alts@);
    }
    r
}

impl Clone for Argument {
    fn clone(&self) -> (r: Self)
        ensures
            r@ == self@,
    {
        Argument { name: self.name.clone(), type_: self.type_.clone() }
    }
}

impl Clone for Alternative {
    fn clone(&self) -> (r: Self)
        ensures
            r@ == self@,
        decreases *self,
    {
        Alternative {
            type_: self.type_.clone(),
            name: self.name.clone(),
            expression: Box::new((*self.expression).clone()),
        }
    }
}

impl Clone for DefaultAlternative {
    fn clone(&self) -> (r: Self)
        ensures
            r.name@ == self.name@,
            expression_view(*r.expression) == expression_view(*self.expression),
        decreases *self,
    {
        DefaultAlternative {
            name: self.name.clone(),
            expression: Box::new((*self.expression).clone()),
        }
    }
}

impl Clone for Definition {
    fn clone(&self) -> (r: Self)
        ensures
            r@ == self@,
        decreases *self,
    {
        Definition {
            name: self.name.clone(),
            environment: clone_arguments(&self.environment),
            arguments: clone_arguments(&self.arguments),
            body: Box::new((*self.body).clone()),
            result_type: self.result_type.clone(),
            is_thunk: self.is_thunk,
        }
    }
}

impl Clone for Expression {
    fn clone(&self) -> (r: Self)
        ensures
            r@ == self@,
        decreases *self,
    {
        match self {
            Expression::ArithmeticOperation(operation) => Expression::ArithmeticOperation(
                ArithmeticOperation {
                    operator: operation.operator,
                    lhs: Box::new((*operation.lhs).clone()),
                    rhs: Box::new((*operation.rhs).clone()),
                },
            ),
            Expression::Boolean(boolean) => Expression::Boolean(*boolean),
            Expression::ByteString(string) => Expression::ByteString(
                ByteString { value: clone_bytes(&string.value) },
            ),
            Expression::Case(case) => Expression::Case(
                Case {
                    argument: Box::new((*case.argument).clone()),
                    alternatives: clone_alternatives(&case.alternatives),
                    default_alternative: match &case.default_alternative {
                        Some(default) => Some(Box::new((**default).clone())),
                        None => None,
                    },
                },
            ),
            Expression::CloneVariables(clone) => Expression::CloneVariables(
                CloneVariables {
                    variables: clone.variables.duplicate(),
                    expression: Box::new((*clone.expression).clone()),
                },
            ),
            Expression::ComparisonOperation(operation) => Expression::ComparisonOperation(
                ComparisonOperation {
                    operator: operation.operator,
                    lhs: Box::new((*operation.lhs).clone()),
                    rhs: Box::new((*operation.rhs).clone()),
                },
            ),
            Expression::DropVariables(drop) => Expression::DropVariables(
                DropVariables {
                    variables: drop.variables.duplicate(),
                    expression: Box::new((*drop.expression).clone()),
                },
            ),
            Expression::FunctionApplication(application) => Expression::FunctionApplication(
                FunctionApplication {
                    function: Box::new((*application.function).clone()),
                    argument: Box::new((*application.argument).clone()),
                },
            ),
            Expression::If(if_) => Expression::If(
                If {
                    condition: Box::new((*if_.condition).clone()),
                    then_: Box::new((*if_.then_).clone()),
                    else_: Box::new((*if_.else_).clone()),
                },
            ),
            Expression::Let(let_) => Expression::Let(
                Let {
                    name: let_.name.clone(),
                    type_: let_.type_.clone(),
                    bound_expression: Box::new((*let_.bound_expression).clone()),
                    expression: Box::new((*let_.expression).clone()),
                },
            ),
            Expression::LetRecursive(let_) => Expression::LetRecursive(
                LetRecursive {
                    definition: Box::new((*let_.definition).clone()),
                    expression: Box::new((*let_.expression).clone()),
                },
            ),
            Expression::Number(number) => Expression::Number(Number { bits: number.bits }),
            Expression::Record(record) => Expression::Record(
                Record {
                    type_: record.type_.clone(),
                    elements: clone_expressions(&record.elements),
                },
            ),
            Expression::RecordElement(element) => Expression::RecordElement(
                RecordElement {
                    type_: element.type_.clone(),
                    index: element.index,
                    record: Box::new((*element.record).clone()),
                },
            ),
            Expression::Variable(variable) => Expression::Variable(
                Variable { name: variable.name.clone() },
            ),
            Expression::Variant(variant) => Expression::Variant(
                Variant {
                    type_: variant.type_.clone(),
                    payload: Box::new((*variant.payload).clone()),
                },
            ),
        }
    }
}

/// A copy of a byte vector with the same view.
pub fn clone_bytes(bytes: &Vec<u8>) -> (r: Vec<u8>)
    ensures
        r@ == bytes@,
{
    let mut r: Vec<u8> = Vec::new();
    let mut i: usize = 0;
    while i < bytes.len()
        invariant
            0 <= i <= bytes.len(),
            r@ == bytes@.take(i as int),
        decreases bytes.len() - i,
    {
        r.push(bytes[i]);
        proof {
            assert(r@ =~= bytes@.take(i + 1 as int));
        }
        i += 1;
    }
    proof {
        assert(bytes@.take(bytes.len() as int) =~= bytes@);
    }
    r
}


impl Argument {
    pub fn new(name: &str, type_: Type) -> (r: Self)
        ensures
            r@ == (SpecArgument { name: name@, type_: type_@ }),
    {
        Argument { name: name.to_owned(), type_ }
    }

    pub fn name(&self) -> (r: &String)
        ensures
            r@ == self@.name,
    {
        &self.name
    }

    pub fn type_(&self) -> (r: &Type)
        ensures
            r@ == self@.type_,
    {
        &self.type_
    }
}

impl ArithmeticOperation {
    pub fn new(operator: ArithmeticOperator, lhs: Expression, rhs: Expression) -> (r: Self)
        ensures
            r.operator == operator,
            *r.lhs == lhs,
            *r.rhs == rhs,
    {
        ArithmeticOperation { operator, lhs: Box::new(lhs), rhs: Box::new(rhs) }
    }

    pub fn operator(&self) -> (r: ArithmeticOperator)
        ensures
            r == self.operator,
    {
        self.operator
    }

    pub fn lhs(&self) -> (r: &Expression)
        ensures
            *r == *self.lhs,
    {
        &self.lhs
    }

    pub fn rhs(&self) -> (r: &Expression)
        ensures
            *r == *self.rhs,
    {
        &self.rhs
    }
}

impl ComparisonOperation {
    pub fn new(operator: ComparisonOperator, lhs: Expression, rhs: Expression) -> (r: Self)
        ensures
            r.operator == operator,
            *r.lhs == lhs,
            *r.rhs == rhs,
    {
        ComparisonOperation { operator, lhs: Box::new(lhs), rhs: Box::new(rhs) }
    }

    pub fn operator(&self) -> (r: ComparisonOperator)
        ensures
            r == self.operator,
    {
        self.operator
    }

    pub fn lhs(&self) -> (r: &Expression)
        ensures
            *r == *self.lhs,
    {
        &self.lhs
    }

    pub fn rhs(&self) -> (r: &Expression)
        ensures
            *r == *self.rhs,
    {
        &self.rhs
    }
}

impl ByteString {
    pub fn new(value: Vec<u8>) -> (r: Self)
        ensures
            r.value == value,
    {
        ByteString { value }
    }

    pub fn value(&self) -> (r: &Vec<u8>)
        ensures
            *r == self.value,
    {
        &self.value
    }
}

impl Number {
    pub fn new(bits: u64) -> (r: Self)
        ensures
            r.bits == bits,
    {
        Number { bits }
    }

    pub fn bits(&self) -> (r: u64)
        ensures
            r == self.bits,
    {
        self.bits
    }
}

impl Variable {
    pub fn new(name: &str) -> (r: Self)
        ensures
            r.name@ == name@,
    {
        Variable { name: name.to_owned() }
    }

    pub fn name(&self) -> (r: &String)
        ensures
            *r == self.name,
    {
        &self.name
    }
}

impl If {
    pub fn new(condition: Expression, then_: Expression, else_: Expression) -> (r: Self)
        ensures
            *r.condition == condition,
            *r.then_ == then_,
            *r.else_ == else_,
    {
        If { condition: Box::new(condition), then_: Box::new(then_), else_: Box::new(else_) }
    }

    pub fn condition(&self) -> (r: &Expression)
        ensures
            *r == *self.condition,
    {
        &self.condition
    }

    pub fn then_(&self) -> (r: &Expression)
        ensures
            *r == *self.then_,
    {
        &self.then_
    }

    pub fn else_(&self) -> (r: &Expression)
        ensures
            *r == *self.else_,
    {
        &self.else_
    }
}

impl Let {
    pub fn new(name: &str, type_: Type, bound_expression: Expression, expression: Expression) -> (r:
        Self)
        ensures
            r.name@ == name@,
            r.type_ == type_,
            *r.bound_expression == bound_expression,
            *r.expression == expression,
    {
        Let {
            name: name.to_owned(),
            type_,
            bound_expression: Box::new(bound_expression),
            expression: Box::new(expression),
        }
    }

    pub fn name(&self) -> (r: &String)
        ensures
            *r == self.name,
    {
        &self.name
    }

    pub fn type_(&self) -> (r: &Type)
        ensures
            *r == self.type_,
    {
        &self.type_
    }

    pub fn bound_expression(&self) -> (r: &Expression)
        ensures
            *r == *self.bound_expression,
    {
        &self.bound_expression
    }

    pub fn expression(&self) -> (r: &Expression)
        ensures
            *r == *self.expression,
    {
        &self.expression
    }
}

impl LetRecursive {
    pub fn new(definition: Definition, expression: Expression) -> (r: Self)
        ensures
            *r.definition == definition,
            *r.expression == expression,
    {
        LetRecursive { definition: Box::new(definition), expression: Box::new(expression) }
    }

    pub fn definition(&self) -> (r: &Definition)
        ensures
            *r == *self.definition,
    {
        &self.definition
    }

    pub fn expression(&self) -> (r: &Expression)
        ensures
            *r == *self.expression,
    {
        &self.expression
    }
}

impl FunctionApplication {
    pub fn new(function: Expression, argument: Expression) -> (r: Self)
        ensures
            *r.function == function,
            *r.argument == argument,
    {
        FunctionApplication { function: Box::new(function), argument: Box::new(argument) }
    }

    pub fn function(&self) -> (r: &Expression)
        ensures
            *r == *self.function,
    {
        &self.function
    }

    pub fn argument(&self) -> (r: &Expression)
        ensures
            *r == *self.argument,
    {
        &self.argument
    }
}

impl Record {
    pub fn new(type_: RecordType, elements: Vec<Expression>) -> (r: Self)
        ensures
            r.type_ == type_,
            r.elements == elements,
    {
        Record { type_, elements }
    }

    pub fn type_(&self) -> (r: &RecordType)
        ensures
            *r == self.type_,
    {
        &self.type_
    }

    pub fn elements(&self) -> (r: &Vec<Expression>)
        ensures
            *r == self.elements,
    {
        &self.elements
    }
}

impl RecordElement {
    pub fn new(type_: RecordType, index: usize, record: Expression) -> (r: Self)
        ensures
            r.type_ == type_,
            r.index == index,
            *r.record == record,
    {
        RecordElement { type_, index, record: Box::new(record) }
    }

    pub fn type_(&self) -> (r: &RecordType)
        ensures
            *r == self.type_,
    {
        &self.type_
    }

    pub fn index(&self) -> (r: usize)
        ensures
            r == self.index,
    {
        self.index
    }

    pub fn record(&self) -> (r: &Expression)
        ensures
            *r == *self.record,
    {
        &self.record
    }
}

impl Variant {
    pub fn new(type_: Type, payload: Expression) -> (r: Self)
        ensures
            r.type_ == type_,
            *r.payload == payload,
    {
        Variant { type_, payload: Box::new(payload) }
    }

    pub fn type_(&self) -> (r: &Type)
        ensures
            *r == self.type_,
    {
        &self.type_
    }

    pub fn payload(&self) -> (r: &Expression)
        ensures
            *r == *self.payload,
    {
        &self.payload
    }
}

impl Alternative {
    pub fn new(type_: Type, name: &str, expression: Expression) -> (r: Self)
        ensures
            r.type_ == type_,
            r.name@ == name@,
            *r.expression == expression,
    {
        Alternative { type_, name: name.to_owned(), expression: Box::new(expression) }
    }

    pub fn type_(&self) -> (r: &Type)
        ensures
            *r == self.type_,
    {
        &self.type_
    }

    pub fn name(&self) -> (r: &String)
        ensures
            *r == self.name,
    {
        &self.name
    }

    pub fn expression(&self) -> (r: &Expression)
        ensures
            *r == *self.expression,
    {
        &self.expression
    }
}

impl DefaultAlternative {
    pub fn new(name: &str, expression: Expression) -> (r: Self)
        ensures
            r.name@ == name@,
            *r.expression == expression,
    {
        DefaultAlternative { name: name.to_owned(), expression: Box::new(expression) }
    }

    pub fn name(&self) -> (r: &String)
        ensures
            *r == self.name,
    {
        &self.name
    }

    pub fn expression(&self) -> (r: &Expression)
        ensures
            *r == *self.expression,
    {
        &self.expression
    }
}

impl Case {
    pub fn new(
        argument: Expression,
        alternatives: Vec<Alternative>,
        default_alternative: Option<DefaultAlternative>,
    ) -> (r: Self)
        ensures
            *r.argument == argument,
            r.alternatives == alternatives,
            match default_alternative {
                Some(default) => r.default_alternative matches Some(b) && *b == default,
                None => r.default_alternative matches None,
            },
    {
        Case {
            argument: Box::new(argument),
            alternatives,
            default_alternative: match default_alternative {
                Some(default) => Some(Box::new(default)),
                None => None,
            },
        }
    }

    pub fn argument(&self) -> (r: &Expression)
        ensures
            *r == *self.argument,
    {
        &self.argument
    }

    pub fn alternatives(&self) -> (r: &Vec<Alternative>)
        ensures
            *r == self.alternatives,
    {
        &self.alternatives
    }

    pub fn default_alternative(&self) -> (r: Option<&DefaultAlternative>)
        ensures
            match self.default_alternative {
                Some(b) => r matches Some(d) && *d == *b,
                None => r matches None,
            },
    {
        match &self.default_alternative {
            Some(b) => Some(&**b),
            None => None,
        }
    }
}

impl CloneVariables {
    pub fn new(variables: VariableSet, expression: Expression) -> (r: Self)
        ensures
            r.variables == variables,
            *r.expression == expression,
    {
        CloneVariables { variables, expression: Box::new(expression) }
    }

    pub fn variables(&self) -> (r: &VariableSet)
        ensures
            *r == self.variables,
    {
        &self.variables
    }

    pub fn expression(&self) -> (r: &Expression)
        ensures
            *r == *self.expression,
    {
        &self.expression
    }
}

impl DropVariables {
    pub fn new(variables: VariableSet, expression: Expression) -> (r: Self)
        ensures
            r.variables == variables,
            *r.expression == expression,
    {
        DropVariables { variables, expression: Box::new(expression) }
    }

    pub fn variables(&self) -> (r: &VariableSet)
        ensures
            *r == self.variables,
    {
        &self.variables
    }

    pub fn expression(&self) -> (r: &Expression)
        ensures
            *r == *self.expression,
    {
        &self.expression
    }
}

/// The curried function type of a definition: its argument types folded
/// right to left over the result type; with no arguments, the result type
/// itself (the type a thunk's cached value has).
pub open spec fn spec_definition_type(args: Seq<SpecArgument>, result: SpecType) -> SpecType
    decreases args.len(),
{
    if args.len() == 0 {
        result
    } else {
        SpecType::Function(
            Box::new(args.first().type_),
            Box::new(spec_definition_type(args.drop_first(), result)),
        )
    }
}

impl Definition {
    pub fn new(name: &str, arguments: Vec<Argument>, body: Expression, result_type: Type) -> (r:
        Self)
        ensures
            r@ == (SpecDefinition {
                name: name@,
                environment: Seq::empty(),
                arguments: arguments_view(arguments@),
                body: Box::new(body@),
                result_type: result_type@,
                is_thunk: false,
            }),
    {
        let r = Definition {
            name: name.to_owned(),
            environment: Vec::new(),
            arguments,
            body: Box::new(body),
            result_type,
            is_thunk: false,
        };
        proof {
            assert(arguments_view(r.environment@) =~= Seq::<SpecArgument>::empty());
        }
        r
    }

    pub fn thunk(name: &str, arguments: Vec<Argument>, body: Expression, result_type: Type) -> (r:
        Self)
        ensures
            r@ == (SpecDefinition {
                name: name@,
                environment: Seq::empty(),
                arguments: arguments_view(arguments@),
                body: Box::new(body@),
                result_type: result_type@,
                is_thunk: true,
            }),
    {
        let r = Definition {
            name: name.to_owned(),
            environment: Vec::new(),
            arguments,
            body: Box::new(body),
            result_type,
            is_thunk: true,
        };
        proof {
            assert(arguments_view(r.environment@) =~= Seq::<SpecArgument>::empty());
        }
        r
    }

    pub fn with_environment(
        name: &str,
        environment: Vec<Argument>,
        arguments: Vec<Argument>,
        body: Expression,
        result_type: Type,
    ) -> (r: Self)
        ensures
            r@ == (SpecDefinition {
                name: name@,
                environment: arguments_view(environment@),
                arguments: arguments_view(arguments@),
                body: Box::new(body@),
                result_type: result_type@,
                is_thunk: false,
            }),
    {
        Definition {
            name: name.to_owned(),
            environment,
            arguments,
            body: Box::new(body),
            result_type,
            is_thunk: false,
        }
    }

    pub fn with_options(
        name: &str,
        environment: Vec<Argument>,
        arguments: Vec<Argument>,
        body: Expression,
        result_type: Type,
        is_thunk: bool,
    ) -> (r: Self)
        ensures
            r@ == (SpecDefinition {
                name: name@,
                environment: arguments_view(environment@),
                arguments: arguments_view(arguments@),
                body: Box::new(body@),
                result_type: result_type@,
                is_thunk: is_thunk,
            }),
    {
        Definition {
            name: name.to_owned(),
            environment,
            arguments,
            body: Box::new(body),
            result_type,
            is_thunk,
        }
    }

    pub fn name(&self) -> (r: &String)
        ensures
            *r == self.name,
    {
        &self.name
    }

    pub fn environment(&self) -> (r: &Vec<Argument>)
        ensures
            *r == self.environment,
    {
        &self.environment
    }

    pub fn arguments(&self) -> (r: &Vec<Argument>)
        ensures
            *r == self.arguments,
    {
        &self.arguments
    }

    pub fn body(&self) -> (r: &Expression)
        ensures
            *r == *self.body,
    {
        &self.body
    }

    pub fn result_type(&self) -> (r: &Type)
        ensures
            *r == self.result_type,
    {
        &self.result_type
    }

    pub fn is_thunk(&self) -> (r: bool)
        ensures
            r == self.is_thunk,
    {
        self.is_thunk
    }

    /// The curried function type this definition has as a value.
    pub fn type_(&self) -> (r: Type)
        ensures
            r@ == spec_definition_type(self@.arguments, self@.result_type),
    {
        let ghost all = arguments_view(self.arguments@);
        let mut result = self.result_type.clone();
        let mut i: usize = self.arguments.len();
        while i > 0
            invariant
                0 <= i <= self.arguments.len(),
                all == arguments_view(self.arguments@),
                result@ == spec_definition_type(all.skip(i as int), self@.result_type),
            decreases i,
        {
            i -= 1;
            let next = Type::Function(
                FunctionType::new(self.arguments[i].type_.clone(), result),
            );
            proof {
                assert(all.skip(i as int).first() == all[i as int]);
                assert(all.skip(i as int).drop_first() =~= all.skip(i + 1 as int));
                assert(all[i as int] == argument_view(self.arguments@[i as int]));
            }
            result = next;
        }
        proof {
            assert(all.skip(0) =~= all);
        }
        result
    }
}

impl Expression {
    /// The variable inside, where this expression is one.
    pub fn to_variable(&self) -> (r: Option<&Variable>)
        ensures
            match r {
                Some(v) => *self matches Expression::Variable(w) && *v == w,
                None => !(*self matches Expression::Variable(_)),
            },
    {
        match self {
            Expression::Variable(variable) => Some(variable),
            _ => None,
        }
    }
}

} // verus!
