//! Structural equality of recursive record types under visited pairs.

use lowering::canonical::{canonicalize, equal_records, equal_with_pairs, unfold, Function, Primitive, Record, Type};

#[test]
fn equal() {
    for (one, other) in &[
        (
            Type::Primitive(Primitive::Float64),
            Type::Primitive(Primitive::Float64),
        ),
        (
            Type::Function(Function::new(
                Type::Primitive(Primitive::Float64),
                Type::Primitive(Primitive::Float64),
            )),
            Type::Function(Function::new(
                Type::Primitive(Primitive::Float64),
                Type::Primitive(Primitive::Float64),
            )),
        ),
        (
            Type::Record(Record::new(vec![Type::Primitive(Primitive::Float64)], true)),
            Type::Record(Record::new(vec![Type::Primitive(Primitive::Float64)], true)),
        ),
        (
            Type::Record(Record::new(vec![Type::Index(0)], true)),
            Type::Record(Record::new(
                vec![Type::Record(Record::new(vec![Type::Index(0)], true))],
                true,
            )),
        ),
        (
            Type::Record(Record::new(vec![Type::Index(0)], true)),
            Type::Record(Record::new(
                vec![Type::Record(Record::new(vec![Type::Index(1)], true))],
                true,
            )),
        ),
        (
            Type::Record(Record::new(
                vec![Type::Record(Record::new(vec![Type::Index(0)], true))],
                true,
            )),
            Type::Record(Record::new(
                vec![Type::Record(Record::new(vec![Type::Index(1)], true))],
                true,
            )),
        ),
        (
            Type::Record(Record::new(
                vec![Type::Function(Function::new(
                    Type::Primitive(Primitive::Float64),
                    Type::Index(0),
                ))],
                true,
            )),
            Type::Record(Record::new(
                vec![Type::Function(Function::new(
                    Type::Primitive(Primitive::Float64),
                    Type::Record(Record::new(
                        vec![Type::Function(Function::new(
                            Type::Primitive(Primitive::Float64),
                            Type::Index(0),
                        ))],
                        true,
                    )),
                ))],
                true,
            )),
        ),
        (
            Type::Record(Record::new(
                vec![Type::Function(Function::new(
                    Type::Primitive(Primitive::Float64),
                    Type::Index(0),
                ))],
                true,
            )),
            Type::Record(Record::new(
                vec![Type::Function(Function::new(
                    Type::Primitive(Primitive::Float64),
                    Type::Record(Record::new(
                        vec![Type::Function(Function::new(
                            Type::Primitive(Primitive::Float64),
                            Type::Index(1),
                        ))],
                        true,
                    )),
                ))],
                true,
            )),
        ),
    ] {
        assert!(equal_with_pairs(one, other, &vec![]));
    }
}

#[test]
fn not_equal() {
    for (one, other) in &[
        (
            Type::Primitive(Primitive::Float64),
            Type::Function(Function::new(
                Type::Primitive(Primitive::Float64),
                Type::Primitive(Primitive::Float64),
            )),
        ),
        (
            Type::Function(Function::new(
                Type::Primitive(Primitive::Float64),
                Type::Function(Function::new(
                    Type::Primitive(Primitive::Float64),
                    Type::Primitive(Primitive::Float64),
                )),
            )),
            Type::Function(Function::new(
                Type::Primitive(Primitive::Float64),
                Type::Primitive(Primitive::Float64),
            )),
        ),
        (
            Type::Record(Record::new(vec![Type::Primitive(Primitive::Float64)], true)),
            Type::Record(Record::new(
                vec![
                    Type::Primitive(Primitive::Float64),
                    Type::Primitive(Primitive::Float64),
                ],
                true,
            )),
        ),
        (
            Type::Record(Record::new(vec![Type::Primitive(Primitive::Float64)], true)),
            Type::Record(Record::new(vec![Type::Primitive(Primitive::Float64)], false)),
        ),
    ] {
        assert!(!equal_with_pairs(one, other, &vec![]));
    }
}

#[test]
fn equal_records_under_parents() {
    let record = Record::new(vec![Type::Index(0)], true);
    assert!(equal_records(
        &record,
        &Record::new(vec![Type::Index(0)], true),
        &vec![record.clone()],
    ));
}

fn float64() -> Type {
    Type::Primitive(Primitive::Float64)
}

fn boxed(elements: Vec<Type>) -> Type {
    Type::Record(Record::new(elements, true))
}

fn unboxed(elements: Vec<Type>) -> Type {
    Type::Record(Record::new(elements, false))
}

#[test]
fn canonicalize_rewrites_equal_enclosing_records() {
    for (type_, canonical_type) in [
        (float64(), float64()),
        (
            Type::Function(Function::new(float64(), float64())),
            Type::Function(Function::new(float64(), float64())),
        ),
        (boxed(vec![float64()]), boxed(vec![float64()])),
        // A record that spells its own fix-point twice collapses to one
        // self-reference.
        (
            boxed(vec![boxed(vec![Type::Index(0)])]),
            boxed(vec![Type::Index(0)]),
        ),
        (
            boxed(vec![boxed(vec![Type::Index(1)])]),
            boxed(vec![Type::Index(0)]),
        ),
        (
            boxed(vec![Type::Function(Function::new(
                float64(),
                boxed(vec![Type::Function(Function::new(float64(), Type::Index(0)))]),
            ))]),
            boxed(vec![Type::Function(Function::new(float64(), Type::Index(0)))]),
        ),
        (
            boxed(vec![Type::Function(Function::new(
                float64(),
                boxed(vec![Type::Function(Function::new(float64(), Type::Index(1)))]),
            ))]),
            boxed(vec![Type::Function(Function::new(float64(), Type::Index(0)))]),
        ),
        // An unboxed record differs from a boxed one, so the nesting stays.
        (
            boxed(vec![unboxed(vec![boxed(vec![Type::Index(2)])])]),
            boxed(vec![unboxed(vec![boxed(vec![Type::Index(2)])])]),
        ),
    ] {
        assert_eq!(canonicalize(&type_), canonical_type);
    }
}

#[test]
fn unfold_substitutes_the_root() {
    // Unfolding a self-referential record once nests it, and the
    // canonical form collapses the now-local self-reference.
    let record = Record::new(vec![boxed(vec![Type::Index(1)])], true);
    let unfolded = unfold(&record);
    assert_eq!(
        unfolded,
        Record::new(vec![boxed(vec![Type::Index(0)])], true),
    );
    let simple = Record::new(vec![float64()], true);
    assert_eq!(unfold(&simple), Record::new(vec![float64()], true));
}
