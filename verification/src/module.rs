//! The source module: record-type definitions, foreign bindings,
//! declarations of functions defined elsewhere, and this unit's own
//! function definitions.

use crate::ir::{
    arguments_view, definition_view, CallingConvention, Definition, SpecDefinition,
};
use crate::types::{clone_types, types_view, FunctionType, RecordContent, SpecType};
use vstd::prelude::*;

verus! {

/// Names one record type and gives its element types.
#[derive(Debug, PartialEq)]
pub struct TypeDefinition {
    pub name: String,
    pub type_: RecordContent,
}

/// Mathematical form of a record-type definition.
pub struct SpecTypeDefinition {
    pub name: Seq<char>,
    pub elements: Seq<SpecType>,
}

/// A function defined in another compilation unit.
#[derive(Debug, PartialEq)]
pub struct Declaration {
    pub name: String,
    pub type_: FunctionType,
}

pub struct SpecDeclaration {
    pub name: Seq<char>,
    pub type_: SpecType,
}

/// A foreign function this unit imports under a closure interface.
#[derive(Debug, PartialEq)]
pub struct ForeignDeclaration {
    pub name: String,
    pub foreign_name: String,
    pub type_: FunctionType,
    pub calling_convention: CallingConvention,
}

pub struct SpecForeignDeclaration {
    pub name: Seq<char>,
    pub foreign_name: Seq<char>,
    pub type_: SpecType,
    pub calling_convention: CallingConvention,
}

/// A function of this unit exported under a foreign name.
#[derive(Debug, PartialEq)]
pub struct ForeignDefinition {
    pub name: String,
    pub foreign_name: String,
}

pub struct SpecForeignDefinition {
    pub name: Seq<char>,
    pub foreign_name: Seq<char>,
}

/// A whole source module.
#[derive(Debug, PartialEq)]
pub struct Module {
    pub type_definitions: Vec<TypeDefinition>,
    pub foreign_declarations: Vec<ForeignDeclaration>,
    pub foreign_definitions: Vec<ForeignDefinition>,
    pub declarations: Vec<Declaration>,
    pub definitions: Vec<Definition>,
}

/// Mathematical form of a module.
pub struct SpecModule {
    pub type_definitions: Seq<SpecTypeDefinition>,
    pub foreign_declarations: Seq<SpecForeignDeclaration>,
    pub foreign_definitions: Seq<SpecForeignDefinition>,
    pub declarations: Seq<SpecDeclaration>,
    pub definitions: Seq<SpecDefinition>,
}

impl View for TypeDefinition {
    type V = SpecTypeDefinition;

    open spec fn view(&self) -> SpecTypeDefinition {
        SpecTypeDefinition { name: self.name@, elements: types_view(self.type_.elements@) }
    }
}

impl View for Declaration {
    type V = SpecDeclaration;

    open spec fn view(&self) -> SpecDeclaration {
        SpecDeclaration { name: self.name@, type_: self.type_@ }
    }
}

impl View for ForeignDeclaration {
    type V = SpecForeignDeclaration;

    open spec fn view(&self) -> SpecForeignDeclaration {
        SpecForeignDeclaration {
            name: self.name@,
            foreign_name: self.foreign_name@,
            type_: self.type_@,
            calling_convention: self.calling_convention,
        }
    }
}

impl View for ForeignDefinition {
    type V = SpecForeignDefinition;

    open spec fn view(&self) -> SpecForeignDefinition {
        SpecForeignDefinition { name: self.name@, foreign_name: self.foreign_name@ }
    }
}

pub open spec fn type_definitions_view(s: Seq<TypeDefinition>) -> Seq<SpecTypeDefinition> {
    Seq::new(s.len(), |i: int| s[i]@)
}

pub open spec fn declarations_view(s: Seq<Declaration>) -> Seq<SpecDeclaration> {
    Seq::new(s.len(), |i: int| s[i]@)
}

pub open spec fn foreign_declarations_view(s: Seq<ForeignDeclaration>) -> Seq<
    SpecForeignDeclaration,
> {
    Seq::new(s.len(), |i: int| s[i]@)
}

pub open spec fn foreign_definitions_view(s: Seq<ForeignDefinition>) -> Seq<SpecForeignDefinition> {
    Seq::new(s.len(), |i: int| s[i]@)
}

pub open spec fn definitions_view(s: Seq<Definition>) -> Seq<SpecDefinition>
    decreases s,
{
    if s.len() == 0 {
        Seq::empty()
    } else {
        definitions_view(s.drop_last()).push(definition_view(s.last()))
    }
}

pub proof fn lemma_definitions_view(s: Seq<Definition>)
    ensures
        definitions_view(s).len() == s.len(),
        forall|i: int| 0 <= i < s.len() ==> definitions_view(s)[i] == definition_view(s[i]),
    decreases s.len(),
{
    if s.len() > 0 {
        lemma_definitions_view(s.drop_last());
    }
}

pub proof fn lemma_definitions_view_push(s: Seq<Definition>, x: Definition)
    ensures
        definitions_view(s.push(x)) == definitions_view(s).push(definition_view(x)),
{
    assert(s.push(x).drop_last() =~= s);
}

impl View for Module {
    type V = SpecModule;

    open spec fn view(&self) -> SpecModule {
        SpecModule {
            type_definitions: type_definitions_view(self.type_definitions@),
            foreign_declarations: foreign_declarations_view(self.foreign_declarations@),
            foreign_definitions: foreign_definitions_view(self.foreign_definitions@),
            declarations: declarations_view(self.declarations@),
            definitions: definitions_view(self.definitions@),
        }
    }
}

impl TypeDefinition {
    pub fn new(name: &str, type_: RecordContent) -> (r: Self)
        ensures
            r@ == (SpecTypeDefinition { name: name@, elements: type_@ }),
    {
        TypeDefinition { name: name.to_owned(), type_ }
    }

    pub fn name(&self) -> (r: &String)
        ensures
            *r == self.name,
    {
        &self.name
    }

    pub fn type_(&self) -> (r: &RecordContent)
        ensures
            *r == self.type_,
    {
        &self.type_
    }
}

impl Clone for TypeDefinition {
    fn clone(&self) -> (r: Self)
        ensures
            r@ == self@,
    {
        TypeDefinition { name: self.name.clone(), type_: self.type_.clone() }
    }
}

impl Declaration {
    pub fn new(name: &str, type_: FunctionType) -> (r: Self)
        ensures
            r@ == (SpecDeclaration { name: name@, type_: type_@ }),
    {
        Declaration { name: name.to_owned(), type_ }
    }

    pub fn name(&self) -> (r: &String)
        ensures
            *r == self.name,
    {
        &self.name
    }

    pub fn type_(&self) -> (r: &FunctionType)
        ensures
            *r == self.type_,
    {
        &self.type_
    }
}

impl Clone for Declaration {
    fn clone(&self) -> (r: Self)
        ensures
            r@ == self@,
    {
        Declaration { name: self.name.clone(), type_: self.type_.clone() }
    }
}

impl ForeignDeclaration {
    pub fn new(
        name: &str,
        foreign_name: &str,
        type_: FunctionType,
        calling_convention: CallingConvention,
    ) -> (r: Self)
        ensures
            r@ == (SpecForeignDeclaration {
                name: name@,
                foreign_name: foreign_name@,
                type_: type_@,
                calling_convention: calling_convention,
            }),
    {
        ForeignDeclaration {
            name: name.to_owned(),
            foreign_name: foreign_name.to_owned(),
            type_,
            calling_convention,
        }
    }

    pub fn name(&self) -> (r: &String)
        ensures
            *r == self.name,
    {
        &self.name
    }

    pub fn foreign_name(&self) -> (r: &String)
        ensures
            *r == self.foreign_name,
    {
        &self.foreign_name
    }

    pub fn type_(&self) -> (r: &FunctionType)
        ensures
            *r == self.type_,
    {
        &self.type_
    }

    pub fn calling_convention(&self) -> (r: CallingConvention)
        ensures
            r == self.calling_convention,
    {
        self.calling_convention
    }
}

impl Clone for ForeignDeclaration {
    fn clone(&self) -> (r: Self)
        ensures
            r@ == self@,
    {
        ForeignDeclaration {
            name: self.name.clone(),
            foreign_name: self.foreign_name.clone(),
            type_: self.type_.clone(),
            calling_convention: self.calling_convention,
        }
    }
}

impl ForeignDefinition {
    pub fn new(name: &str, foreign_name: &str) -> (r: Self)
        ensures
            r@ == (SpecForeignDefinition { name: name@, foreign_name: foreign_name@ }),
    {
        ForeignDefinition { name: name.to_owned(), foreign_name: foreign_name.to_owned() }
    }

    pub fn name(&self) -> (r: &String)
        ensures
            *r == self.name,
    {
        &self.name
    }

    pub fn foreign_name(&self) -> (r: &String)
        ensures
            *r == self.foreign_name,
    {
        &self.foreign_name
    }
}

impl Clone for ForeignDefinition {
    fn clone(&self) -> (r: Self)
        ensures
            r@ == self@,
    {
        ForeignDefinition {
            name: self.name.clone(),
            foreign_name: self.foreign_name.clone(),
        }
    }
}

/// A view-preserving copy of a vector of type definitions.
pub fn clone_type_definitions(v: &Vec<TypeDefinition>) -> (r: Vec<TypeDefinition>)
    ensures
        type_definitions_view(r@) == type_definitions_view(v@),
{
    let mut r: Vec<TypeDefinition> = Vec::new();
    let mut i: usize = 0;
    while i < v.len()
        invariant
            0 <= i <= v.len(),
            r.len() == i,
            forall|k: int| 0 <= k < i ==> r@[k]@ == v@[k]@,
        decreases v.len() - i,
    {
        r.push(v[i].clone());
        i += 1;
    }
    proof {
        assert(type_definitions_view(r@) =~= type_definitions_view(v@));
    }
    r
}

/// A view-preserving copy of a vector of declarations.
pub fn clone_declarations(v: &Vec<Declaration>) -> (r: Vec<Declaration>)
    ensures
        declarations_view(r@) == declarations_view(v@),
{
    let mut r: Vec<Declaration> = Vec::new();
    let mut i: usize = 0;
    while i < v.len()
        invariant
            0 <= i <= v.len(),
            r.len() == i,
            forall|k: int| 0 <= k < i ==> r@[k]@ == v@[k]@,
        decreases v.len() - i,
    {
        r.push(v[i].clone());
        i += 1;
    }
    proof {
        assert(declarations_view(r@) =~= declarations_view(v@));
    }
    r
}

/// A view-preserving copy of a vector of foreign declarations.
pub fn clone_foreign_declarations(v: &Vec<ForeignDeclaration>) -> (r: Vec<ForeignDeclaration>)
    ensures
        foreign_declarations_view(r@) == foreign_declarations_view(v@),
{
    let mut r: Vec<ForeignDeclaration> = Vec::new();
    let mut i: usize = 0;
    while i < v.len()
        invariant
            0 <= i <= v.len(),
            r.len() == i,
            forall|k: int| 0 <= k < i ==> r@[k]@ == v@[k]@,
        decreases v.len() - i,
    {
        r.push(v[i].clone());
        i += 1;
    }
    proof {
        assert(foreign_declarations_view(r@) =~= foreign_declarations_view(v@));
    }
    r
}

/// A view-preserving copy of a vector of foreign definitions.
pub fn clone_foreign_definitions(v: &Vec<ForeignDefinition>) -> (r: Vec<ForeignDefinition>)
    ensures
        foreign_definitions_view(r@) == foreign_definitions_view(v@),
{
    let mut r: Vec<ForeignDefinition> = Vec::new();
    let mut i: usize = 0;
    while i < v.len()
        invariant
            0 <= i <= v.len(),
            r.len() == i,
            forall|k: int| 0 <= k < i ==> r@[k]@ == v@[k]@,
        decreases v.len() - i,
    {
        r.push(v[i].clone());
        i += 1;
    }
    proof {
        assert(foreign_definitions_view(r@) =~= foreign_definitions_view(v@));
    }
    r
}

impl Module {
    pub fn new(
        type_definitions: Vec<TypeDefinition>,
        foreign_declarations: Vec<ForeignDeclaration>,
        foreign_definitions: Vec<ForeignDefinition>,
        declarations: Vec<Declaration>,
        definitions: Vec<Definition>,
    ) -> (r: Self)
        ensures
            r@ == (SpecModule {
                type_definitions: type_definitions_view(type_definitions@),
                foreign_declarations: foreign_declarations_view(foreign_declarations@),
                foreign_definitions: foreign_definitions_view(foreign_definitions@),
                declarations: declarations_view(declarations@),
                definitions: definitions_view(definitions@),
            }),
    {
        Module {
            type_definitions,
            foreign_declarations,
            foreign_definitions,
            declarations,
            definitions,
        }
    }

    pub fn type_definitions(&self) -> (r: &Vec<TypeDefinition>)
        ensures
            *r == self.type_definitions,
    {
        &self.type_definitions
    }

    pub fn foreign_declarations(&self) -> (r: &Vec<ForeignDeclaration>)
        ensures
            *r == self.foreign_declarations,
    {
        &self.foreign_declarations
    }

    pub fn foreign_definitions(&self) -> (r: &Vec<ForeignDefinition>)
        ensures
            *r == self.foreign_definitions,
    {
        &self.foreign_definitions
    }

    pub fn declarations(&self) -> (r: &Vec<Declaration>)
        ensures
            *r == self.declarations,
    {
        &self.declarations
    }

    pub fn definitions(&self) -> (r: &Vec<Definition>)
        ensures
            *r == self.definitions,
    {
        &self.definitions
    }
}

} // verus!
