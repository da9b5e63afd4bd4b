//! Structural recursive types and their canonical form. A record type may
//! refer to an enclosing record by position (`Index`), so two types can
//! spell one fix-point differently; canonicalization rewrites every such
//! reference to the innermost equal enclosing record.

use vstd::prelude::*;

verus! {

/// A primitive machine type.
#[derive(Clone, Copy, PartialEq, Eq, Structural, Debug)]
pub enum Primitive {
    Boolean,
    Float32,
    Float64,
    Integer8,
    Integer32,
    Integer64,
}

/// A structural function type.
#[derive(Debug, PartialEq)]
pub struct Function {
    pub argument: Box<Type>,
    pub result: Box<Type>,
}

/// A structural record type; `Index(i)` inside it refers to the `i`-th
/// enclosing record.
#[derive(Debug, PartialEq)]
pub struct Record {
    pub elements: Vec<Type>,
    pub is_boxed: bool,
}

/// A structural type.
#[derive(Debug, PartialEq)]
pub enum Type {
    Function(Function),
    Index(usize),
    Primitive(Primitive),
    Record(Record),
    Variant,
}

/// Mathematical form of a structural type.
pub enum SpecRecType {
    Function(Box<SpecRecType>, Box<SpecRecType>),
    Index(int),
    Primitive(Primitive),
    Record(SpecRecord),
    Variant,
}

/// Mathematical form of a structural record type.
pub struct SpecRecord {
    pub elements: Seq<SpecRecType>,
    pub is_boxed: bool,
}

pub open spec fn rec_type_view(t: Type) -> SpecRecType
    decreases t,
{
    match t {
        Type::Function(function) => SpecRecType::Function(
            Box::new(rec_type_view(*function.argument)),
            Box::new(rec_type_view(*function.result)),
        ),
        Type::Index(index) => SpecRecType::Index(index as int),
        Type::Primitive(primitive) => SpecRecType::Primitive(primitive),
        Type::Record(record) => SpecRecType::Record(rec_record_view(record)),
        Type::Variant => SpecRecType::Variant,
    }
}

pub open spec fn rec_types_view(s: Seq<Type>) -> Seq<SpecRecType>
    decreases s,
{
    if s.len() == 0 {
        Seq::empty()
    } else {
        rec_types_view(s.drop_last()).push(rec_type_view(s.last()))
    }
}

pub open spec fn rec_record_view(r: Record) -> SpecRecord
    decreases r,
{
    SpecRecord { elements: rec_types_view(r.elements@), is_boxed: r.is_boxed }
}

pub proof fn lemma_rec_types_view(s: Seq<Type>)
    ensures
        rec_types_view(s).len() == s.len(),
        forall|i: int| 0 <= i < s.len() ==> rec_types_view(s)[i] == rec_type_view(s[i]),
    decreases s.len(),
{
    if s.len() > 0 {
        lemma_rec_types_view(s.drop_last());
    }
}

pub proof fn lemma_rec_types_view_push(s: Seq<Type>, x: Type)
    ensures
        rec_types_view(s.push(x)) == rec_types_view(s).push(rec_type_view(x)),
{
    assert(s.push(x).drop_last() =~= s);
}

impl View for Type {
    type V = SpecRecType;

    open spec fn view(&self) -> SpecRecType {
        rec_type_view(*self)
    }
}

impl View for Record {
    type V = SpecRecord;

    open spec fn view(&self) -> SpecRecord {
        rec_record_view(*self)
    }
}

impl Function {
    pub fn new(argument: Type, result: Type) -> (r: Self)
        ensures
            *r.argument == argument,
            *r.result == result,
    {
        Function { argument: Box::new(argument), result: Box::new(result) }
    }

    pub fn argument(&self) -> (r: &Type)
        ensures
            *r == *self.argument,
    {
        &self.argument
    }

    pub fn result(&self) -> (r: &Type)
        ensures
            *r == *self.result,
    {
        &self.result
    }
}

impl Record {
    pub fn new(elements: Vec<Type>, is_boxed: bool) -> (r: Self)
        ensures
            r.elements == elements,
            r.is_boxed == is_boxed,
    {
        Record { elements, is_boxed }
    }

    pub fn elements(&self) -> (r: &Vec<Type>)
        ensures
            *r == self.elements,
    {
        &self.elements
    }

    pub fn is_boxed(&self) -> (r: bool)
        ensures
            r == self.is_boxed,
    {
        self.is_boxed
    }
}

/// A view-preserving copy of a vector of structural types.
pub fn clone_rec_types(types: &Vec<Type>) -> (r: Vec<Type>)
    ensures
        rec_types_view(r@) == rec_types_view(types@),
    decreases *types,
{
    let mut r: Vec<Type> = Vec::new();
    let mut i: usize = 0;
    while i < types.len()
        invariant
            0 <= i <= types.len(),
            rec_types_view(r@) == rec_types_view(types@.take(i as int)),
        decreases types.len() - i,
    {
        let ghost r0 = r@;
        r.push(types[i].clone());
        proof {
            assert(r@ == r0.push(r@.last()));
            lemma_rec_types_view_push(r0, r@.last());
            assert(types@.take(i + 1 as int).drop_last() =~= types@.take(i as int));
            assert(rec_types_view(r@) =~= rec_types_view(types@.take(i + 1 as int)));
        }
        i += 1;
    }
    proof {
        assert(types@.take(types.len() as int) =~= types@);
    }
    r
}

impl Clone for Record {
    fn clone(&self) -> (r: Self)
        ensures
            r@ == self@,
        decreases *self,
    {
        Record { elements: clone_rec_types(&self.elements), is_boxed: self.is_boxed }
    }
}

impl View for Function {
    type V = SpecRecType;

    open spec fn view(&self) -> SpecRecType {
        SpecRecType::Function(
            Box::new(rec_type_view(*self.argument)),
            Box::new(rec_type_view(*self.result)),
        )
    }
}

impl Clone for Function {
    fn clone(&self) -> (r: Self)
        ensures
            r@ == self@,
        decreases *self,
    {
        Function {
            argument: Box::new((*self.argument).clone()),
            result: Box::new((*self.result).clone()),
        }
    }
}

impl Clone for Type {
    fn clone(&self) -> (r: Self)
        ensures
            r@ == self@,
        decreases *self,
    {
        match self {
            Type::Function(function) => Type::Function(function.clone()),
            Type::Index(index) => Type::Index(*index),
            Type::Primitive(primitive) => Type::Primitive(*primitive),
            Type::Record(record) => Type::Record(record.clone()),
            Type::Variant => Type::Variant,
        }
    }
}


/// Structural height of a type, the measure the equality recursion
/// shrinks within one fuel step.
pub open spec fn spec_rec_height(t: SpecRecType) -> nat
    decreases t,
{
    match t {
        SpecRecType::Function(argument, result) => 1 + if spec_rec_height(*argument)
            >= spec_rec_height(*result) {
            spec_rec_height(*argument)
        } else {
            spec_rec_height(*result)
        },
        SpecRecType::Record(record) => 1 + spec_rec_heights(record.elements),
        SpecRecType::Index(_) => 0,
        SpecRecType::Primitive(_) => 0,
        SpecRecType::Variant => 0,
    }
}

pub open spec fn spec_rec_heights(es: Seq<SpecRecType>) -> nat
    decreases es,
{
    if es.len() == 0 {
        0
    } else {
        if spec_rec_height(es.first()) >= spec_rec_heights(es.drop_first()) {
            spec_rec_height(es.first())
        } else {
            spec_rec_heights(es.drop_first())
        }
    }
}

/// Structural equality of types.
pub fn type_equal(one: &Type, other: &Type) -> (r: bool)
    ensures
        r == (one@ == other@),
    decreases *one,
{
    match (one, other) {
        (Type::Function(f1), Type::Function(f2)) => {
            type_equal(&f1.argument, &f2.argument) && type_equal(&f1.result, &f2.result)
        },
        (Type::Index(i1), Type::Index(i2)) => i1 == i2,
        (Type::Primitive(p1), Type::Primitive(p2)) => p1 == p2,
        (Type::Record(r1), Type::Record(r2)) => record_equal(r1, r2),
        (Type::Variant, Type::Variant) => true,
        _ => false,
    }
}

/// Structural equality of record types.
pub fn record_equal(one: &Record, other: &Record) -> (r: bool)
    ensures
        r == (one@ == other@),
    decreases *one,
{
    if one.is_boxed != other.is_boxed || one.elements.len() != other.elements.len() {
        proof {
            lemma_rec_types_view(one.elements@);
            lemma_rec_types_view(other.elements@);
        }
        return false;
    }
    let mut i: usize = 0;
    while i < one.elements.len()
        invariant
            0 <= i <= one.elements.len(),
            one.elements.len() == other.elements.len(),
            one.is_boxed == other.is_boxed,
            forall|k: int| 0 <= k < i ==> rec_type_view(one.elements@[k]) == rec_type_view(
                other.elements@[k],
            ),
        decreases one.elements.len() - i,
    {
        if !type_equal(&one.elements[i], &other.elements[i]) {
            proof {
                lemma_rec_types_view(one.elements@);
                lemma_rec_types_view(other.elements@);
                assert(rec_types_view(one.elements@)[i as int] != rec_types_view(
                    other.elements@,
                )[i as int]);
            }
            return false;
        }
        i += 1;
    }
    proof {
        lemma_rec_types_view(one.elements@);
        lemma_rec_types_view(other.elements@);
        assert(rec_types_view(one.elements@) =~= rec_types_view(other.elements@));
    }
    true
}

/// The views of a stack of visited record pairs.
pub open spec fn rec_pairs_view(s: Seq<(Record, Record)>) -> Seq<(SpecRecord, SpecRecord)> {
    Seq::new(s.len(), |i: int| (rec_record_view(s[i].0), rec_record_view(s[i].1)))
}

/// The views of a stack of parent records.
pub open spec fn rec_records_view(s: Seq<Record>) -> Seq<SpecRecord> {
    Seq::new(s.len(), |i: int| rec_record_view(s[i]))
}

/// Each parent paired with itself, the starting pair stack.
pub open spec fn spec_zip_self(records: Seq<SpecRecord>) -> Seq<(SpecRecord, SpecRecord)> {
    Seq::new(records.len(), |i: int| (records[i], records[i]))
}

/// The fuel bound on visited-pair growth. Each step of the equality adds
/// one pair to the stack, so no run on real input can exhaust this.
pub open spec fn spec_equality_fuel() -> nat {
    usize::MAX as nat
}

/// Equality of two record types under a stack of pairs already assumed
/// equal, as the fuel-bounded unfolding: records already on the stack are
/// equal; otherwise both sides must agree shape-wise and element-wise
/// under the stack extended with the pair itself.
pub open spec fn spec_equal_records_with_pairs(
    one: SpecRecord,
    other: SpecRecord,
    pairs: Seq<(SpecRecord, SpecRecord)>,
    fuel: nat,
) -> bool
    decreases fuel, 0int, 0int,
{
    if fuel == 0 {
        false
    } else if pairs.contains((one, other)) {
        true
    } else {
        one.elements.len() == other.elements.len() && one.is_boxed == other.is_boxed
            && spec_equal_elements(
            one.elements,
            other.elements,
            seq![(one, other)] + pairs,
            (fuel - 1) as nat,
        )
    }
}

pub open spec fn spec_equal_elements(
    one: Seq<SpecRecType>,
    other: Seq<SpecRecType>,
    pairs: Seq<(SpecRecord, SpecRecord)>,
    fuel: nat,
) -> bool
    decreases fuel, 2int, one.len(),
{
    if one.len() == 0 || other.len() == 0 {
        one.len() == other.len()
    } else {
        spec_equal_with_pairs(one.first(), other.first(), pairs, fuel) && spec_equal_elements(
            one.drop_first(),
            other.drop_first(),
            pairs,
            fuel,
        )
    }
}

/// Equality of two types under a stack of record pairs assumed equal; a
/// positional reference into the stack stands for the record it names.
pub open spec fn spec_equal_with_pairs(
    one: SpecRecType,
    other: SpecRecType,
    pairs: Seq<(SpecRecord, SpecRecord)>,
    fuel: nat,
) -> bool
    decreases fuel, 1int, spec_rec_height(one),
{
    match (one, other) {
        (SpecRecType::Function(a1, r1), SpecRecType::Function(a2, r2)) => {
            spec_equal_with_pairs(*a1, *a2, pairs, fuel) && spec_equal_with_pairs(
                *r1,
                *r2,
                pairs,
                fuel,
            )
        },
        (SpecRecType::Primitive(p1), SpecRecType::Primitive(p2)) => p1 == p2,
        (SpecRecType::Record(r1), SpecRecType::Record(r2)) => spec_equal_records_with_pairs(
            r1,
            r2,
            pairs,
            fuel,
        ),
        (SpecRecType::Index(i), SpecRecType::Record(r)) => 0 <= i < pairs.len()
            && spec_equal_records_with_pairs(pairs[i].0, r, pairs, fuel),
        (SpecRecType::Record(r), SpecRecType::Index(i)) => 0 <= i < pairs.len()
            && spec_equal_records_with_pairs(r, pairs[i].1, pairs, fuel),
        (SpecRecType::Index(i), SpecRecType::Index(j)) => 0 <= i < pairs.len() && 0 <= j
            < pairs.len() && spec_equal_records_with_pairs(pairs[i].0, pairs[j].1, pairs, fuel),
        (SpecRecType::Variant, SpecRecType::Variant) => true,
        _ => false,
    }
}

fn pairs_contains(pairs: &Vec<(Record, Record)>, one: &Record, other: &Record) -> (r: bool)
    ensures
        r == rec_pairs_view(pairs@).contains((one@, other@)),
{
    let mut i: usize = 0;
    while i < pairs.len()
        invariant
            0 <= i <= pairs.len(),
            forall|k: int| 0 <= k < i ==> rec_pairs_view(pairs@)[k] != (one@, other@),
        decreases pairs.len() - i,
    {
        if record_equal(&pairs[i].0, one) && record_equal(&pairs[i].1, other) {
            proof {
                assert(rec_pairs_view(pairs@)[i as int] == (one@, other@));
            }
            return true;
        }
        i += 1;
    }
    proof {
        assert forall|p: (SpecRecord, SpecRecord)|
            rec_pairs_view(pairs@).contains(p) implies p != (one@, other@) by {
            let k = choose|k: int|
                0 <= k < rec_pairs_view(pairs@).len() && rec_pairs_view(pairs@)[k] == p;
        }
    }
    false
}

fn equal_records_with_pairs_fueled(
    one: &Record,
    other: &Record,
    pairs: &Vec<(Record, Record)>,
    fuel: usize,
) -> (r: bool)
    ensures
        r == spec_equal_records_with_pairs(one@, other@, rec_pairs_view(pairs@), fuel as nat),
    decreases fuel, 0int, 0int,
{
    if fuel == 0 {
        return false;
    }
    if pairs_contains(pairs, one, other) {
        return true;
    }
    if one.elements.len() != other.elements.len() || one.is_boxed != other.is_boxed {
        proof {
            lemma_rec_types_view(one.elements@);
            lemma_rec_types_view(other.elements@);
        }
        return false;
    }
    let mut pairs2: Vec<(Record, Record)> = Vec::new();
    pairs2.push((one.clone(), other.clone()));
    let mut i: usize = 0;
    while i < pairs.len()
        invariant
            0 <= i <= pairs.len(),
            pairs2.len() == i + 1,
            rec_pairs_view(pairs2@) == (seq![(one@, other@)] + rec_pairs_view(pairs@)).take(
                i + 1 as int,
            ),
        decreases pairs.len() - i,
    {
        pairs2.push((pairs[i].0.clone(), pairs[i].1.clone()));
        proof {
            assert(rec_pairs_view(pairs2@) =~= (seq![(one@, other@)] + rec_pairs_view(
                pairs@,
            )).take(i + 2 as int));
        }
        i += 1;
    }
    proof {
        assert(rec_pairs_view(pairs2@) =~= seq![(one@, other@)] + rec_pairs_view(pairs@));
        lemma_rec_types_view(one.elements@);
        lemma_rec_types_view(other.elements@);
        assert(rec_types_view(one.elements@).skip(0) =~= rec_types_view(one.elements@));
        assert(rec_types_view(other.elements@).skip(0) =~= rec_types_view(other.elements@));
    }
    equal_elements_fueled(&one.elements, &other.elements, 0, &pairs2, fuel - 1)
}

fn equal_elements_fueled(
    one: &Vec<Type>,
    other: &Vec<Type>,
    start: usize,
    pairs: &Vec<(Record, Record)>,
    fuel: usize,
) -> (r: bool)
    requires
        start <= one.len(),
        start <= other.len(),
    ensures
        r == spec_equal_elements(
            rec_types_view(one@).skip(start as int),
            rec_types_view(other@).skip(start as int),
            rec_pairs_view(pairs@),
            fuel as nat,
        ),
    decreases fuel, 2int, one.len() - start,
{
    proof {
        lemma_rec_types_view(one@);
        lemma_rec_types_view(other@);
    }
    if start == one.len() || start == other.len() {
        return one.len() - start == other.len() - start;
    }
    proof {
        assert(rec_types_view(one@).skip(start as int).first() == rec_types_view(
            one@,
        )[start as int]);
        assert(rec_types_view(other@).skip(start as int).first() == rec_types_view(
            other@,
        )[start as int]);
        assert(rec_types_view(one@).skip(start as int).drop_first() =~= rec_types_view(
            one@,
        ).skip(start + 1 as int));
        assert(rec_types_view(other@).skip(start as int).drop_first() =~= rec_types_view(
            other@,
        ).skip(start + 1 as int));
    }
    equal_with_pairs_fueled(&one[start], &other[start], pairs, fuel) && equal_elements_fueled(
        one,
        other,
        start + 1,
        pairs,
        fuel,
    )
}

fn equal_with_pairs_fueled(
    one: &Type,
    other: &Type,
    pairs: &Vec<(Record, Record)>,
    fuel: usize,
) -> (r: bool)
    ensures
        r == spec_equal_with_pairs(one@, other@, rec_pairs_view(pairs@), fuel as nat),
    decreases fuel, 1int, spec_rec_height(one@),
{
    match (one, other) {
        (Type::Function(f1), Type::Function(f2)) => {
            equal_with_pairs_fueled(&f1.argument, &f2.argument, pairs, fuel)
                && equal_with_pairs_fueled(&f1.result, &f2.result, pairs, fuel)
        },
        (Type::Primitive(p1), Type::Primitive(p2)) => p1 == p2,
        (Type::Record(r1), Type::Record(r2)) => equal_records_with_pairs_fueled(r1, r2, pairs,
            fuel),
        (Type::Index(i), Type::Record(r)) => *i < pairs.len()
            && equal_records_with_pairs_fueled(&pairs[*i].0, r, pairs, fuel),
        (Type::Record(r), Type::Index(i)) => *i < pairs.len()
            && equal_records_with_pairs_fueled(r, &pairs[*i].1, pairs, fuel),
        (Type::Index(i), Type::Index(j)) => *i < pairs.len() && *j < pairs.len()
            && equal_records_with_pairs_fueled(&pairs[*i].0, &pairs[*j].1, pairs, fuel),
        (Type::Variant, Type::Variant) => true,
        _ => false,
    }
}

/// Equality of two types under a stack of record pairs assumed equal,
/// with the full fuel bound.
pub fn equal_with_pairs(one: &Type, other: &Type, pairs: &Vec<(Record, Record)>) -> (r: bool)
    ensures
        r == spec_equal_with_pairs(one@, other@, rec_pairs_view(pairs@), spec_equality_fuel()),
{
    equal_with_pairs_fueled(one, other, pairs, usize::MAX)
}

/// Equality of two record types under a stack of parent records, each of
/// which counts as equal to itself.
pub fn equal_records(one: &Record, other: &Record, parents: &Vec<Record>) -> (r: bool)
    ensures
        r == spec_equal_records_with_pairs(
            one@,
            other@,
            spec_zip_self(rec_records_view(parents@)),
            spec_equality_fuel(),
        ),
{
    let mut pairs: Vec<(Record, Record)> = Vec::new();
    let mut i: usize = 0;
    while i < parents.len()
        invariant
            0 <= i <= parents.len(),
            pairs.len() == i,
            rec_pairs_view(pairs@) == spec_zip_self(rec_records_view(parents@)).take(i as int),
        decreases parents.len() - i,
    {
        pairs.push((parents[i].clone(), parents[i].clone()));
        proof {
            assert(rec_pairs_view(pairs@) =~= spec_zip_self(rec_records_view(parents@)).take(
                i + 1 as int,
            ));
        }
        i += 1;
    }
    proof {
        assert(spec_zip_self(rec_records_view(parents@)).take(parents.len() as int)
            =~= spec_zip_self(rec_records_view(parents@)));
    }
    equal_with_pairs_fueled_records(one, other, &pairs, usize::MAX)
}

fn equal_with_pairs_fueled_records(
    one: &Record,
    other: &Record,
    pairs: &Vec<(Record, Record)>,
    fuel: usize,
) -> (r: bool)
    ensures
        r == spec_equal_records_with_pairs(one@, other@, rec_pairs_view(pairs@), fuel as nat),
{
    equal_records_with_pairs_fueled(one, other, pairs, fuel)
}


/// The position of the first enclosing record equal to this one, from the
/// given start, each parent standing for itself on the pair stack.
pub open spec fn spec_first_equal(record: SpecRecord, records: Seq<SpecRecord>, start: nat) -> Option<
    int,
>
    decreases records.len() - start,
{
    if start >= records.len() {
        None
    } else if spec_equal_records_with_pairs(
        record,
        records[start as int],
        spec_zip_self(records),
        spec_equality_fuel(),
    ) {
        Some(start as int)
    } else {
        spec_first_equal(record, records, start + 1)
    }
}

/// The canonical form of a type under a stack of enclosing records: a
/// record equal to an enclosing one becomes the reference to it, so one
/// fix-point has one spelling.
pub open spec fn spec_canonicalize_with_records(t: SpecRecType, records: Seq<SpecRecord>) -> SpecRecType
    decreases t, 1int,
{
    match t {
        SpecRecType::Function(argument, result) => SpecRecType::Function(
            Box::new(spec_canonicalize_with_records(*argument, records)),
            Box::new(spec_canonicalize_with_records(*result, records)),
        ),
        SpecRecType::Record(record) => match spec_first_equal(record, records, 0) {
            Some(index) => SpecRecType::Index(index),
            None => SpecRecType::Record(
                SpecRecord {
                    elements: spec_canonicalize_elements(
                        record.elements,
                        seq![record] + records,
                    ),
                    is_boxed: record.is_boxed,
                },
            ),
        },
        _ => t,
    }
}

pub open spec fn spec_canonicalize_elements(
    es: Seq<SpecRecType>,
    records: Seq<SpecRecord>,
) -> Seq<SpecRecType>
    decreases es, 0int,
{
    if es.len() == 0 {
        Seq::empty()
    } else {
        spec_canonicalize_elements(es.drop_last(), records).push(
            spec_canonicalize_with_records(es.last(), records),
        )
    }
}

/// The canonical form of a type.
pub open spec fn spec_canonicalize(t: SpecRecType) -> SpecRecType {
    spec_canonicalize_with_records(t, Seq::empty())
}

/// A view-preserving copy of a stack of records.
fn clone_records(records: &Vec<Record>) -> (r: Vec<Record>)
    ensures
        rec_records_view(r@) == rec_records_view(records@),
{
    let mut r: Vec<Record> = Vec::new();
    let mut i: usize = 0;
    while i < records.len()
        invariant
            0 <= i <= records.len(),
            r@.len() == i,
            forall|k: int| 0 <= k < i ==> r@[k]@ == records@[k]@,
        decreases records.len() - i,
    {
        r.push(records[i].clone());
        i += 1;
    }
    proof {
        assert(rec_records_view(r@) =~= rec_records_view(records@));
    }
    r
}

/// Canonicalizes a type under a stack of enclosing records.
pub fn canonicalize_with_records(type_: &Type, records: &Vec<Record>) -> (r: Type)
    ensures
        r@ == spec_canonicalize_with_records(type_@, rec_records_view(records@)),
    decreases *type_, 1int,
{
    let ghost rv = rec_records_view(records@);
    match type_ {
        Type::Function(function) => {
            let argument = canonicalize_with_records(&function.argument, records);
            let result = canonicalize_with_records(&function.result, records);
            let r = Type::Function(
                Function { argument: Box::new(argument), result: Box::new(result) },
            );
            proof {
                assert(type_@ == SpecRecType::Function(
                    Box::new(rec_type_view(*function.argument)),
                    Box::new(rec_type_view(*function.result)),
                ));
            }
            r
        },
        Type::Index(index) => Type::Index(*index),
        Type::Primitive(primitive) => Type::Primitive(*primitive),
        Type::Record(record) => {
            let mut i: usize = 0;
            while i < records.len()
                invariant
                    0 <= i <= records.len(),
                    rv == rec_records_view(records@),
                    type_@ == SpecRecType::Record(record@),
                    spec_first_equal(record@, rv, 0) == spec_first_equal(record@, rv, i as nat),
                decreases records.len() - i,
            {
                proof {
                    assert(rv[i as int] == records@[i as int]@);
                }
                if equal_records(record, &records[i], records) {
                    proof {
                        assert(spec_first_equal(record@, rv, i as nat) == Some(i as int));
                        assert(spec_first_equal(record@, rv, 0) == Some(i as int));
                        assert(type_@ == SpecRecType::Record(record@));
                        assert(spec_canonicalize_with_records(type_@, rv) == SpecRecType::Index(
                            i as int,
                        ));
                    }
                    return Type::Index(i);
                }
                proof {
                    assert(spec_first_equal(record@, rv, i as nat) == spec_first_equal(
                        record@,
                        rv,
                        (i + 1) as nat,
                    ));
                }
                i += 1;
            }
            proof {
                assert(spec_first_equal(record@, rv, records.len() as nat) is None);
            }
            let mut inner_records: Vec<Record> = Vec::new();
            inner_records.push(record.clone());
            let mut j: usize = 0;
            while j < records.len()
                invariant
                    0 <= j <= records.len(),
                    rv == rec_records_view(records@),
                    type_@ == SpecRecType::Record(record@),
                    spec_first_equal(record@, rv, 0) is None,
                    inner_records@.len() == j + 1,
                    inner_records@[0]@ == record@,
                    forall|k: int| 0 <= k < j ==> inner_records@[k + 1]@ == records@[k]@,
                decreases records.len() - j,
            {
                inner_records.push(records[j].clone());
                j += 1;
            }
            proof {
                assert(rec_records_view(inner_records@) =~= seq![record@] + rv);
            }
            let elements = canonicalize_elements(
                &record.elements,
                record.elements.len(),
                &inner_records,
            );
            let ghost ev = rec_types_view(elements@);
            proof {
                assert(record.elements@.take(record.elements.len() as int) =~= record.elements@);
                assert(record@.elements == rec_types_view(record.elements@));
                assert(rec_records_view(inner_records@) == seq![record@] + rv);
                assert(ev == spec_canonicalize_elements(
                    rec_types_view(record.elements@),
                    seq![record@] + rv,
                ));
            }
            let inner = Record { elements, is_boxed: record.is_boxed };
            proof {
                assert(inner@ == (SpecRecord { elements: ev, is_boxed: record.is_boxed }));
            }
            let r = Type::Record(inner);
            proof {
                assert(r@ == spec_canonicalize_with_records(type_@, rv));
            }
            r
        },
        Type::Variant => Type::Variant,
    }
}

/// Canonicalizes the first `n` elements of a record body.
fn canonicalize_elements(elements: &Vec<Type>, n: usize, records: &Vec<Record>) -> (r: Vec<Type>)
    requires
        n <= elements.len(),
    ensures
        rec_types_view(r@) == spec_canonicalize_elements(
            rec_types_view(elements@.take(n as int)),
            rec_records_view(records@),
        ),
    decreases *elements, n,
{
    if n == 0 {
        let r: Vec<Type> = Vec::new();
        proof {
            assert(rec_types_view(elements@.take(0)) =~= Seq::<SpecRecType>::empty());
            assert(rec_types_view(r@) =~= Seq::<SpecRecType>::empty());
        }
        return r;
    }
    let mut rest = canonicalize_elements(elements, n - 1, records);
    let ghost rest0 = rest@;
    let element = canonicalize_with_records(&elements[n - 1], records);
    rest.push(element);
    proof {
        assert(rest@ == rest0.push(rest@.last()));
        lemma_rec_types_view_push(rest0, rest@.last());
        assert(elements@.take(n as int).drop_last() =~= elements@.take(n - 1 as int));
        assert(elements@.take(n as int).last() == elements@[n - 1 as int]);
        assert(rec_types_view(elements@.take(n as int)) =~= rec_types_view(
            elements@.take(n - 1 as int),
        ).push(rec_type_view(elements@[n - 1 as int])));
        assert(rec_types_view(elements@.take(n as int)).drop_last() =~= rec_types_view(
            elements@.take(n - 1 as int),
        ));
        assert(rec_types_view(elements@.take(n as int)).last() == rec_type_view(
            elements@[n - 1 as int],
        ));
    }
    rest
}

/// Canonicalizes a type.
pub fn canonicalize(type_: &Type) -> (r: Type)
    ensures
        r@ == spec_canonicalize(type_@),
{
    let records: Vec<Record> = Vec::new();
    proof {
        assert(rec_records_view(records@) =~= Seq::<SpecRecord>::empty());
    }
    canonicalize_with_records(type_, &records)
}

/// One unfolding of a recursive record: references to the root at the
/// given depth become the root itself.
pub open spec fn spec_unfold_with_root(t: SpecRecType, root: SpecRecord, root_index: int) -> SpecRecType
    decreases t, 1int,
{
    match t {
        SpecRecType::Function(argument, result) => SpecRecType::Function(
            Box::new(spec_unfold_with_root(*argument, root, root_index)),
            Box::new(spec_unfold_with_root(*result, root, root_index)),
        ),
        SpecRecType::Index(index) => if index == root_index {
            SpecRecType::Record(root)
        } else {
            SpecRecType::Index(index)
        },
        SpecRecType::Record(record) => SpecRecType::Record(
            SpecRecord {
                elements: spec_unfold_elements(record.elements, root, root_index + 1),
                is_boxed: record.is_boxed,
            },
        ),
        _ => t,
    }
}

pub open spec fn spec_unfold_elements(
    es: Seq<SpecRecType>,
    root: SpecRecord,
    root_index: int,
) -> Seq<SpecRecType>
    decreases es, 0int,
{
    if es.len() == 0 {
        Seq::empty()
    } else {
        spec_unfold_elements(es.drop_last(), root, root_index).push(
            spec_unfold_with_root(es.last(), root, root_index),
        )
    }
}

/// The record with each element unfolded once at the root and brought
/// back to canonical form.
pub open spec fn spec_unfold(record: SpecRecord) -> SpecRecord {
    SpecRecord {
        elements: Seq::new(
            record.elements.len(),
            |i: int| spec_canonicalize(spec_unfold_with_root(record.elements[i], record, 0)),
        ),
        is_boxed: record.is_boxed,
    }
}

/// Unfolds references to the root record at the given depth. The depth
/// plus the type's height must fit the counter, which every real type
/// meets.
pub fn unfold_with_root(type_: &Type, root_record: &Record, root_index: usize) -> (r: Type)
    requires
        root_index + spec_rec_height(type_@) <= usize::MAX,
    ensures
        r@ == spec_unfold_with_root(type_@, root_record@, root_index as int),
    decreases *type_, 1int,
{
    match type_ {
        Type::Function(function) => {
            let argument = unfold_with_root(&function.argument, root_record, root_index);
            let result = unfold_with_root(&function.result, root_record, root_index);
            let r = Type::Function(
                Function { argument: Box::new(argument), result: Box::new(result) },
            );
            proof {
                assert(type_@ == SpecRecType::Function(
                    Box::new(rec_type_view(*function.argument)),
                    Box::new(rec_type_view(*function.result)),
                ));
            }
            r
        },
        Type::Index(index) => {
            if *index == root_index {
                Type::Record(root_record.clone())
            } else {
                Type::Index(*index)
            }
        },
        Type::Record(record) => {
            proof {
                assert(type_@ == SpecRecType::Record(record@));
                assert(spec_rec_height(type_@) == 1 + spec_rec_heights(
                    rec_types_view(record.elements@),
                ));
                lemma_rec_heights_bound(record.elements@, record.elements.len() as int);
                assert forall|k: int|
                    0 <= k < record.elements@.len() implies root_index + 1 + spec_rec_height(
                    #[trigger] rec_type_view(record.elements@[k]),
                ) <= usize::MAX by {
                    assert(spec_rec_height(rec_type_view(record.elements@[k]))
                        <= spec_rec_heights(rec_types_view(record.elements@)));
                }
            }
            let elements = unfold_elements(
                &record.elements,
                record.elements.len(),
                root_record,
                root_index + 1,
            );
            let ghost ev = rec_types_view(elements@);
            proof {
                assert(record.elements@.take(record.elements.len() as int) =~= record.elements@);
                assert(ev == spec_unfold_elements(
                    rec_types_view(record.elements@),
                    root_record@,
                    root_index + 1 as int,
                ));
            }
            let inner = Record { elements, is_boxed: record.is_boxed };
            proof {
                assert(inner@ == (SpecRecord { elements: ev, is_boxed: record.is_boxed }));
            }
            let r = Type::Record(inner);
            proof {
                assert(r@ == spec_unfold_with_root(type_@, root_record@, root_index as int));
            }
            r
        },
        Type::Primitive(primitive) => Type::Primitive(*primitive),
        Type::Variant => Type::Variant,
    }
}

proof fn lemma_rec_heights_bound(es: Seq<Type>, n: int)
    requires
        0 <= n <= es.len(),
    ensures
        forall|k: int|
            0 <= k < n ==> spec_rec_height(#[trigger] rec_type_view(es[k])) <= spec_rec_heights(
                rec_types_view(es),
            ),
    decreases es.len(),
{
    lemma_rec_types_view(es);
    assert forall|k: int|
        0 <= k < n implies spec_rec_height(#[trigger] rec_type_view(es[k])) <= spec_rec_heights(
        rec_types_view(es),
    ) by {
        lemma_rec_height_member(rec_types_view(es), k);
    }
}

proof fn lemma_rec_height_member(vs: Seq<SpecRecType>, k: int)
    requires
        0 <= k < vs.len(),
    ensures
        spec_rec_height(vs[k]) <= spec_rec_heights(vs),
    decreases vs.len(),
{
    if vs.len() > 0 {
        if k == 0 {
            assert(vs.first() == vs[0]);
        } else {
            lemma_rec_height_member(vs.drop_first(), k - 1);
            assert(vs.drop_first()[k - 1] == vs[k]);
        }
    }
}

/// Unfolds the first `n` elements of a record body at the given depth.
fn unfold_elements(
    elements: &Vec<Type>,
    n: usize,
    root_record: &Record,
    root_index: usize,
) -> (r: Vec<Type>)
    requires
        n <= elements.len(),
        forall|k: int|
            0 <= k < n ==> root_index + spec_rec_height(#[trigger] rec_type_view(elements@[k]))
                <= usize::MAX,
    ensures
        rec_types_view(r@) == spec_unfold_elements(
            rec_types_view(elements@.take(n as int)),
            root_record@,
            root_index as int,
        ),
    decreases *elements, n,
{
    if n == 0 {
        let r: Vec<Type> = Vec::new();
        proof {
            assert(rec_types_view(elements@.take(0)) =~= Seq::<SpecRecType>::empty());
            assert(rec_types_view(r@) =~= Seq::<SpecRecType>::empty());
        }
        return r;
    }
    let mut rest = unfold_elements(elements, n - 1, root_record, root_index);
    let ghost rest0 = rest@;
    let element = unfold_with_root(&elements[n - 1], root_record, root_index);
    rest.push(element);
    proof {
        assert(rest@ == rest0.push(rest@.last()));
        lemma_rec_types_view_push(rest0, rest@.last());
        assert(elements@.take(n as int).drop_last() =~= elements@.take(n - 1 as int));
        assert(elements@.take(n as int).last() == elements@[n - 1 as int]);
        assert(rec_types_view(elements@.take(n as int)) =~= rec_types_view(
            elements@.take(n - 1 as int),
        ).push(rec_type_view(elements@[n - 1 as int])));
        assert(rec_types_view(elements@.take(n as int)).drop_last() =~= rec_types_view(
            elements@.take(n - 1 as int),
        ));
        assert(rec_types_view(elements@.take(n as int)).last() == rec_type_view(
            elements@[n - 1 as int],
        ));
    }
    rest
}

/// Unfolds a recursive record once and canonicalizes its elements.
pub fn unfold(record: &Record) -> (r: Record)
    requires
        spec_rec_height(SpecRecType::Record(record@)) <= usize::MAX,
    ensures
        r@ == spec_unfold(record@),
{
    let mut elements: Vec<Type> = Vec::new();
    let mut i: usize = 0;
    proof {
        lemma_rec_types_view(record.elements@);
    }
    while i < record.elements.len()
        invariant
            0 <= i <= record.elements.len(),
            spec_rec_height(SpecRecType::Record(record@)) <= usize::MAX,
            rec_types_view(elements@).len() == i,
            forall|k: int|
                0 <= k < record.elements@.len() ==> rec_types_view(record.elements@)[k]
                    == rec_type_view(#[trigger] record.elements@[k]),
            forall|k: int|
                0 <= k < i ==> rec_types_view(elements@)[k] == spec_canonicalize(
                    spec_unfold_with_root(rec_type_view(record.elements@[k]), record@, 0),
                ),
        decreases record.elements.len() - i,
    {
        let ghost elements0 = elements@;
        proof {
            lemma_rec_heights_bound(record.elements@, record.elements@.len() as int);
        }
        let unfolded = unfold_with_root(&record.elements[i], record, 0);
        let element = canonicalize(&unfolded);
        elements.push(element);
        proof {
            assert(elements@ == elements0.push(elements@.last()));
            lemma_rec_types_view_push(elements0, elements@.last());
            lemma_rec_types_view(elements@);
        }
        i += 1;
    }
    let r = Record { elements, is_boxed: record.is_boxed };
    proof {
        assert(record.elements@.len() == rec_types_view(record.elements@).len()) by {
            lemma_rec_types_view(record.elements@);
        }
        assert(rec_types_view(r.elements@) =~= spec_unfold(record@).elements);
    }
    r
}

} // verus!
