//! Source-IR types: a typed lambda calculus with numbers, booleans, byte
//! strings, nominal record types, curried unary functions and a single
//! dynamically tagged variant type.

use vstd::prelude::*;

verus! {

/// Mathematical form of a source type, used by every contract.
pub enum SpecType {
    Boolean,
    ByteString,
    Function(Box<SpecType>, Box<SpecType>),
    Number,
    Record(Seq<char>),
    Variant,
}

/// A curried function type: one argument, one result.
#[derive(Debug, PartialEq)]
pub struct FunctionType {
    pub argument: Box<Type>,
    pub result: Box<Type>,
}

/// A nominal record type; its element types live in the module's
/// record-body map, which also resolves recursive types.
#[derive(Debug, PartialEq)]
pub struct RecordType {
    pub name: String,
}

/// A source type.
#[derive(Debug, PartialEq)]
pub enum Type {
    Boolean,
    ByteString,
    Function(FunctionType),
    Number,
    Record(RecordType),
    Variant,
}

impl View for RecordType {
    type V = Seq<char>;

    open spec fn view(&self) -> Seq<char> {
        self.name@
    }
}

pub open spec fn function_type_view(f: FunctionType) -> SpecType
    decreases f,
{
    SpecType::Function(Box::new(type_view(*f.argument)), Box::new(type_view(*f.result)))
}

pub open spec fn type_view(t: Type) -> SpecType
    decreases t,
{
    match t {
        Type::Boolean => SpecType::Boolean,
        Type::ByteString => SpecType::ByteString,
        Type::Function(function) => function_type_view(function),
        Type::Number => SpecType::Number,
        Type::Record(record) => SpecType::Record(record@),
        Type::Variant => SpecType::Variant,
    }
}

impl View for FunctionType {
    type V = SpecType;

    open spec fn view(&self) -> SpecType {
        function_type_view(*self)
    }
}

impl View for Type {
    type V = SpecType;

    open spec fn view(&self) -> SpecType {
        type_view(*self)
    }
}

impl RecordType {
    pub fn new(name: &str) -> (r: Self)
        ensures
            r@ == name@,
    {
        RecordType { name: name.to_owned() }
    }

    pub fn name(&self) -> (r: &String)
        ensures
            r@ == self@,
    {
        &self.name
    }
}

impl FunctionType {
    pub fn new(argument: Type, result: Type) -> (r: Self)
        ensures
            r@ == SpecType::Function(Box::new(argument@), Box::new(result@)),
    {
        FunctionType { argument: Box::new(argument), result: Box::new(result) }
    }

    pub fn argument(&self) -> (r: &Type)
        ensures
            r@ == self@->Function_0,
    {
        &self.argument
    }

    pub fn result(&self) -> (r: &Type)
        ensures
            r@ == self@->Function_1,
    {
        &self.result
    }
}

impl Clone for RecordType {
    fn clone(&self) -> (r: Self)
        ensures
            r@ == self@,
    {
        RecordType { name: self.name.clone() }
    }
}

impl Clone for FunctionType {
    fn clone(&self) -> (r: Self)
        ensures
            r@ == self@,
        decreases *self,
    {
        FunctionType {
            argument: Box::new((*self.argument).clone()),
            result: Box::new((*self.result).clone()),
        }
    }
}

impl Clone for Type {
    fn clone(&self) -> (r: Self)
        ensures
            r@ == self@,
        decreases *self,
    {
        match self {
            Type::Boolean => Type::Boolean,
            Type::ByteString => Type::ByteString,
            Type::Function(function) => Type::Function(function.clone()),
            Type::Number => Type::Number,
            Type::Record(record) => Type::Record(record.clone()),
            Type::Variant => Type::Variant,
        }
    }
}


/// The element types of one record type, resolved from its name.
#[derive(Debug, PartialEq)]
pub struct RecordContent {
    pub elements: Vec<Type>,
}

pub open spec fn types_view(s: Seq<Type>) -> Seq<SpecType>
    decreases s,
{
    if s.len() == 0 {
        Seq::empty()
    } else {
        types_view(s.drop_last()).push(type_view(s.last()))
    }
}

pub proof fn lemma_types_view(s: Seq<Type>)
    ensures
        types_view(s).len() == s.len(),
        forall|i: int| 0 <= i < s.len() ==> types_view(s)[i] == type_view(s[i]),
    decreases s.len(),
{
    if s.len() > 0 {
        lemma_types_view(s.drop_last());
    }
}

pub proof fn lemma_types_view_push(s: Seq<Type>, x: Type)
    ensures
        types_view(s.push(x)) == types_view(s).push(type_view(x)),
{
    assert(s.push(x).drop_last() =~= s);
}

/// A view-preserving copy of a vector of types.
pub fn clone_types(types: &Vec<Type>) -> (r: Vec<Type>)
    ensures
        types_view(r@) == types_view(types@),
{
    let mut r: Vec<Type> = Vec::new();
    let mut i: usize = 0;
    while i < types.len()
        invariant
            0 <= i <= types.len(),
            types_view(r@) == types_view(types@.take(i as int)),
        decreases types.len() - i,
    {
        let ghost r0 = r@;
        r.push(types[i].clone());
        proof {
            assert(r@ == r0.push(r@.last()));
            lemma_types_view_push(r0, r@.last());
            assert(types@.take(i + 1 as int).drop_last() =~= types@.take(i as int));
            assert(types_view(r@) =~= types_view(types@.take(i + 1 as int)));
        }
        i += 1;
    }
    proof {
        assert(types@.take(types.len() as int) =~= types@);
    }
    r
}

impl View for RecordContent {
    type V = Seq<SpecType>;

    open spec fn view(&self) -> Seq<SpecType> {
        types_view(self.elements@)
    }
}

impl RecordContent {
    pub fn new(elements: Vec<Type>) -> (r: Self)
        ensures
            r@ == types_view(elements@),
    {
        RecordContent { elements }
    }

    pub fn elements(&self) -> (r: &Vec<Type>)
        ensures
            types_view(r@) == self@,
    {
        &self.elements
    }
}

impl Clone for RecordContent {
    fn clone(&self) -> (r: Self)
        ensures
            r@ == self@,
    {
        RecordContent { elements: clone_types(&self.elements) }
    }
}

} // verus!
