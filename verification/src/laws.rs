//! Laws of the reference-count annotation pass. The pass rejects trees
//! that already carry markers, so running it twice either fails on the
//! markers the first run inserted or — when the first run inserted none —
//! returns its input unchanged: the pass is idempotent on its image.

use crate::ir::{SpecAlternative, SpecDefinition, SpecExpr};
use crate::module::SpecModule;
use crate::reference_count::{
    spec_clone_variables, spec_convert, spec_convert_alternatives, spec_convert_definition,
    spec_convert_definitions, spec_convert_list, spec_count_references, spec_drop_variables,
    spec_owned_of, spec_wrap_alternatives,
};
use vstd::prelude::*;

verus! {

/// The expression carries no clone or drop markers anywhere.
pub open spec fn marker_free(e: SpecExpr) -> bool
    decreases e,
{
    match e {
        SpecExpr::ArithmeticOperation(_, lhs, rhs) => marker_free(*lhs) && marker_free(*rhs),
        SpecExpr::Boolean(_) => true,
        SpecExpr::ByteString(_) => true,
        SpecExpr::Case(argument, alternatives, default_alternative) => marker_free(*argument)
            && marker_free_alternatives(alternatives) && (match default_alternative {
            Some(default) => marker_free(*default.expression),
            None => true,
        }),
        SpecExpr::CloneVariables(_, _) => false,
        SpecExpr::ComparisonOperation(_, lhs, rhs) => marker_free(*lhs) && marker_free(*rhs),
        SpecExpr::DropVariables(_, _) => false,
        SpecExpr::FunctionApplication(function, argument) => marker_free(*function) && marker_free(
            *argument,
        ),
        SpecExpr::If(condition, then_, else_) => marker_free(*condition) && marker_free(*then_)
            && marker_free(*else_),
        SpecExpr::Let(_, _, bound, body) => marker_free(*bound) && marker_free(*body),
        SpecExpr::LetRecursive(definition, body) => marker_free(*definition.body) && marker_free(
            *body,
        ),
        SpecExpr::Number(_) => true,
        SpecExpr::Record(_, elements) => marker_free_list(elements),
        SpecExpr::RecordElement(_, _, record) => marker_free(*record),
        SpecExpr::Variable(_) => true,
        SpecExpr::Variant(_, payload) => marker_free(*payload),
    }
}

pub open spec fn marker_free_list(es: Seq<SpecExpr>) -> bool
    decreases es,
{
    if es.len() == 0 {
        true
    } else {
        marker_free_list(es.drop_last()) && marker_free(es.last())
    }
}

pub open spec fn marker_free_alternatives(alts: Seq<SpecAlternative>) -> bool
    decreases alts,
{
    if alts.len() == 0 {
        true
    } else {
        marker_free_alternatives(alts.drop_last()) && marker_free(*alts.last().expression)
    }
}

/// A marker-free drop wrapping wrapped nothing.
proof fn lemma_drop_wrap_marker_free(variables: Set<Seq<char>>, e: SpecExpr)
    requires
        marker_free(spec_drop_variables(variables, e)),
    ensures
        variables == Set::<Seq<char>>::empty(),
        spec_drop_variables(variables, e) == e,
        marker_free(e),
{
}

/// A marker-free clone wrapping wrapped nothing.
proof fn lemma_clone_wrap_marker_free(variables: Set<Seq<char>>, e: SpecExpr)
    requires
        marker_free(spec_clone_variables(variables, e)),
    ensures
        variables == Set::<Seq<char>>::empty(),
        spec_clone_variables(variables, e) == e,
        marker_free(e),
{
}

/// The pass succeeds only on marker-free input: any clone or drop node
/// anywhere makes it fail.
pub proof fn lemma_convert_some_marker_free(e: SpecExpr, owned: Set<Seq<char>>, moved: Set<Seq<char>>)
    requires
        spec_convert(e, owned, moved) is Some,
    ensures
        marker_free(e),
    decreases e, 1int,
{
    match e {
        SpecExpr::ArithmeticOperation(_, lhs, rhs) => {
            lemma_convert_some_marker_free(*rhs, owned, moved);
            let (_, moved1) = spec_convert(*rhs, owned, moved)->Some_0;
            lemma_convert_some_marker_free(*lhs, owned, moved1);
        },
        SpecExpr::Case(argument, alternatives, default_alternative) => {
            match default_alternative {
                Some(default) => {
                    lemma_convert_some_marker_free(
                        *default.expression,
                        owned.insert(default.name),
                        moved,
                    );
                },
                None => {},
            }
            lemma_convert_alternatives_some_marker_free(alternatives, owned, moved);
            assert(marker_free(*argument)) by {
                match default_alternative {
                    Some(default) => {
                        match spec_convert(*default.expression, owned.insert(default.name), moved) {
                            Some((_, dm)) => {
                                let alts2 = spec_convert_alternatives(alternatives, owned, moved)->Some_0;
                                let am = crate::reference_count::spec_alternatives_moved(alts2);
                                lemma_convert_some_marker_free(*argument, owned, dm.union(am));
                            },
                            None => {},
                        }
                    },
                    None => {
                        let alts2 = spec_convert_alternatives(alternatives, owned, moved)->Some_0;
                        let am = crate::reference_count::spec_alternatives_moved(alts2);
                        lemma_convert_some_marker_free(*argument, owned, moved.union(am));
                    },
                }
            }
        },
        SpecExpr::ComparisonOperation(_, lhs, rhs) => {
            lemma_convert_some_marker_free(*rhs, owned, moved);
            let (_, moved1) = spec_convert(*rhs, owned, moved)->Some_0;
            lemma_convert_some_marker_free(*lhs, owned, moved1);
        },
        SpecExpr::FunctionApplication(function, argument) => {
            lemma_convert_some_marker_free(*argument, owned, moved);
            let (_, moved1) = spec_convert(*argument, owned, moved)->Some_0;
            lemma_convert_some_marker_free(*function, owned, moved1);
        },
        SpecExpr::If(condition, then_, else_) => {
            lemma_convert_some_marker_free(*then_, owned, moved);
            lemma_convert_some_marker_free(*else_, owned, moved);
            let (_, tm) = spec_convert(*then_, owned, moved)->Some_0;
            let (_, em) = spec_convert(*else_, owned, moved)->Some_0;
            lemma_convert_some_marker_free(*condition, owned, tm.union(em));
        },
        SpecExpr::Let(name, _, bound, body) => {
            lemma_convert_some_marker_free(*body, owned.insert(name), moved);
            let (_, bm) = spec_convert(*body, owned.insert(name), moved)->Some_0;
            lemma_convert_some_marker_free(*bound, owned, bm.remove(name));
        },
        SpecExpr::LetRecursive(definition, body) => {
            lemma_convert_some_marker_free(*body, owned.insert(definition.name), moved);
            lemma_convert_definition_some_marker_free(*definition);
        },
        SpecExpr::Record(_, elements) => {
            lemma_convert_list_some_marker_free(elements, owned, moved);
        },
        SpecExpr::RecordElement(_, _, record) => {
            lemma_convert_some_marker_free(*record, owned, moved);
        },
        SpecExpr::Variant(_, payload) => {
            lemma_convert_some_marker_free(*payload, owned, moved);
        },
        _ => {},
    }
}

proof fn lemma_convert_list_some_marker_free(
    es: Seq<SpecExpr>,
    owned: Set<Seq<char>>,
    moved: Set<Seq<char>>,
)
    requires
        spec_convert_list(es, owned, moved) is Some,
    ensures
        marker_free_list(es),
    decreases es, 0int,
{
    if es.len() > 0 {
        lemma_convert_some_marker_free(es.last(), owned, moved);
        let (_, moved1) = spec_convert(es.last(), owned, moved)->Some_0;
        lemma_convert_list_some_marker_free(es.drop_last(), owned, moved1);
    }
}

proof fn lemma_convert_alternatives_some_marker_free(
    alts: Seq<SpecAlternative>,
    owned: Set<Seq<char>>,
    moved: Set<Seq<char>>,
)
    requires
        spec_convert_alternatives(alts, owned, moved) is Some,
    ensures
        marker_free_alternatives(alts),
    decreases alts, 0int,
{
    if alts.len() > 0 {
        let a = alts.last();
        lemma_convert_some_marker_free(*a.expression, owned.insert(a.name), moved);
        lemma_convert_alternatives_some_marker_free(alts.drop_last(), owned, moved);
    }
}

proof fn lemma_convert_definition_some_marker_free(d: SpecDefinition)
    requires
        spec_convert_definition(d) is Some,
    ensures
        marker_free(*d.body),
    decreases d, 0int,
{
    lemma_convert_some_marker_free(*d.body, spec_owned_of(d), Set::empty());
}


proof fn lemma_marker_free_alternatives_index(alts: Seq<SpecAlternative>, i: int)
    requires
        marker_free_alternatives(alts),
        0 <= i < alts.len(),
    ensures
        marker_free(*alts[i].expression),
    decreases alts.len(),
{
    if i < alts.len() - 1 {
        lemma_marker_free_alternatives_index(alts.drop_last(), i);
    }
}

/// When the output of the pass is marker-free, the pass inserted nothing
/// and the output is the input.
#[verifier::rlimit(100)]
pub proof fn lemma_convert_marker_free_output(
    e: SpecExpr,
    owned: Set<Seq<char>>,
    moved: Set<Seq<char>>,
)
    requires
        spec_convert(e, owned, moved) is Some,
        marker_free(spec_convert(e, owned, moved)->Some_0.0),
    ensures
        spec_convert(e, owned, moved)->Some_0.0 == e,
    decreases e, 1int,
{
    let e2 = spec_convert(e, owned, moved)->Some_0.0;
    match e {
        SpecExpr::ArithmeticOperation(_, lhs, rhs) => {
            let (rhs2, moved1) = spec_convert(*rhs, owned, moved)->Some_0;
            lemma_convert_marker_free_output(*rhs, owned, moved);
            lemma_convert_marker_free_output(*lhs, owned, moved1);
        },
        SpecExpr::Case(argument, alternatives, default_alternative) => {
            let ts = spec_convert_alternatives(alternatives, owned, moved)->Some_0;
            match default_alternative {
                Some(default) => {
                    let (d2, dm) = spec_convert(
                        *default.expression,
                        owned.insert(default.name),
                        moved,
                    )->Some_0;
                    let am = crate::reference_count::spec_alternatives_moved(ts);
                    let all = dm.union(am);
                    let wrapped_default = spec_drop_variables(all.difference(dm), d2);
                    assert(marker_free(wrapped_default));
                    lemma_drop_wrap_marker_free(all.difference(dm), d2);
                    lemma_convert_marker_free_output(
                        *default.expression,
                        owned.insert(default.name),
                        moved,
                    );
                    assert(marker_free_alternatives(spec_wrap_alternatives(ts, all)));
                    lemma_wrap_alternatives_marker_free(alternatives, owned, moved, all);
                    lemma_convert_marker_free_output(*argument, owned, all);
                },
                None => {
                    let am = crate::reference_count::spec_alternatives_moved(ts);
                    let all = moved.union(am);
                    assert(marker_free_alternatives(spec_wrap_alternatives(ts, all)));
                    lemma_wrap_alternatives_marker_free(alternatives, owned, moved, all);
                    lemma_convert_marker_free_output(*argument, owned, all);
                },
            }
        },
        SpecExpr::ComparisonOperation(_, lhs, rhs) => {
            let (rhs2, moved1) = spec_convert(*rhs, owned, moved)->Some_0;
            lemma_convert_marker_free_output(*rhs, owned, moved);
            lemma_convert_marker_free_output(*lhs, owned, moved1);
        },
        SpecExpr::FunctionApplication(function, argument) => {
            let (argument2, moved1) = spec_convert(*argument, owned, moved)->Some_0;
            lemma_convert_marker_free_output(*argument, owned, moved);
            lemma_convert_marker_free_output(*function, owned, moved1);
        },
        SpecExpr::If(condition, then_, else_) => {
            let (then2, tm) = spec_convert(*then_, owned, moved)->Some_0;
            let (else2, em) = spec_convert(*else_, owned, moved)->Some_0;
            let all = tm.union(em);
            lemma_drop_wrap_marker_free(all.difference(tm), then2);
            lemma_drop_wrap_marker_free(all.difference(em), else2);
            lemma_convert_marker_free_output(*then_, owned, moved);
            lemma_convert_marker_free_output(*else_, owned, moved);
            lemma_convert_marker_free_output(*condition, owned, all);
        },
        SpecExpr::Let(name, type_, bound, body) => {
            let (body2, bm) = spec_convert(*body, owned.insert(name), moved)->Some_0;
            let (bound2, m2) = spec_convert(*bound, owned, bm.remove(name))->Some_0;
            if !bm.contains(name) {
                let s1 = Set::<Seq<char>>::empty().insert(name);
                assert(s1.contains(name));
                assert(!Set::<Seq<char>>::empty().contains(name));
                assert(s1 != Set::<Seq<char>>::empty());
                assert(spec_drop_variables(s1, body2) matches SpecExpr::DropVariables(_, _));
                assert(!marker_free(spec_drop_variables(s1, body2)));
                assert(e2 == SpecExpr::Let(
                    name,
                    type_,
                    Box::new(bound2),
                    Box::new(spec_drop_variables(s1, body2)),
                ));
                assert(!marker_free(e2));
            }
            lemma_convert_marker_free_output(*body, owned.insert(name), moved);
            lemma_convert_marker_free_output(*bound, owned, bm.remove(name));
        },
        SpecExpr::LetRecursive(definition, body) => {
            let (body2, bm) = spec_convert(*body, owned.insert(definition.name), moved)->Some_0;
            let d2 = spec_convert_definition(*definition)->Some_0;
            let cloned = crate::reference_count::spec_cloned_environment(
                definition.environment,
                owned,
                bm,
            );
            let inner_body = if bm.contains(definition.name) {
                body2
            } else {
                spec_drop_variables(Set::empty().insert(definition.name), body2)
            };
            let inner = SpecExpr::LetRecursive(Box::new(d2), Box::new(inner_body));
            assert(e2 == spec_clone_variables(cloned, inner));
            lemma_clone_wrap_marker_free(cloned, inner);
            if !bm.contains(definition.name) {
                let s1 = Set::<Seq<char>>::empty().insert(definition.name);
                assert(s1.contains(definition.name));
                assert(!Set::<Seq<char>>::empty().contains(definition.name));
                assert(s1 != Set::<Seq<char>>::empty());
                assert(spec_drop_variables(s1, body2) matches SpecExpr::DropVariables(_, _));
                assert(!marker_free(spec_drop_variables(s1, body2)));
                assert(inner_body == spec_drop_variables(s1, body2));
                assert(!marker_free(inner));
            }
            lemma_convert_marker_free_output(*body, owned.insert(definition.name), moved);
            lemma_convert_definition_marker_free_output(*definition);
        },
        SpecExpr::Record(_, elements) => {
            lemma_convert_list_marker_free_output(elements, owned, moved);
            assert(e2 == SpecExpr::Record(e->Record_0, spec_convert_list(elements, owned, moved)->Some_0.0));
        },
        SpecExpr::RecordElement(_, _, record) => {
            lemma_convert_marker_free_output(*record, owned, moved);
        },
        SpecExpr::Variable(name) => {
            if crate::reference_count::spec_should_clone(name, owned, moved) {
                assert(!marker_free(e2));
            }
        },
        SpecExpr::Variant(_, payload) => {
            lemma_convert_marker_free_output(*payload, owned, moved);
        },
        _ => {},
    }
}

proof fn lemma_convert_list_marker_free_output(
    es: Seq<SpecExpr>,
    owned: Set<Seq<char>>,
    moved: Set<Seq<char>>,
)
    requires
        spec_convert_list(es, owned, moved) is Some,
        marker_free_list(spec_convert_list(es, owned, moved)->Some_0.0),
    ensures
        spec_convert_list(es, owned, moved)->Some_0.0 == es,
    decreases es, 0int,
{
    if es.len() == 0 {
        assert(spec_convert_list(es, owned, moved)->Some_0.0 =~= es);
    } else {
        let (last2, moved1) = spec_convert(es.last(), owned, moved)->Some_0;
        let (rest2, _) = spec_convert_list(es.drop_last(), owned, moved1)->Some_0;
        let out = rest2.push(last2);
        assert(out.drop_last() =~= rest2);
        assert(out.last() == last2);
        lemma_convert_marker_free_output(es.last(), owned, moved);
        lemma_convert_list_marker_free_output(es.drop_last(), owned, moved1);
        assert(out =~= es);
    }
}

proof fn lemma_convert_alternatives_len(
    alts: Seq<SpecAlternative>,
    owned: Set<Seq<char>>,
    moved: Set<Seq<char>>,
)
    requires
        spec_convert_alternatives(alts, owned, moved) is Some,
    ensures
        spec_convert_alternatives(alts, owned, moved)->Some_0.len() == alts.len(),
    decreases alts,
{
    if alts.len() > 0 {
        lemma_convert_alternatives_len(alts.drop_last(), owned, moved);
    }
}

/// Marker-free balanced alternatives are the original alternatives.
proof fn lemma_wrap_alternatives_marker_free(
    alts: Seq<SpecAlternative>,
    owned: Set<Seq<char>>,
    moved: Set<Seq<char>>,
    all: Set<Seq<char>>,
)
    requires
        spec_convert_alternatives(alts, owned, moved) is Some,
        marker_free_alternatives(
            spec_wrap_alternatives(spec_convert_alternatives(alts, owned, moved)->Some_0, all),
        ),
    ensures
        spec_wrap_alternatives(spec_convert_alternatives(alts, owned, moved)->Some_0, all) == alts,
    decreases alts, 0int,
{
    let ts = spec_convert_alternatives(alts, owned, moved)->Some_0;
    let wrapped = spec_wrap_alternatives(ts, all);
    lemma_convert_alternatives_len(alts, owned, moved);
    if alts.len() == 0 {
        assert(wrapped =~= alts);
    } else {
        let a = alts.last();
        let (e2, m2) = spec_convert(*a.expression, owned.insert(a.name), moved)->Some_0;
        let rest_ts = spec_convert_alternatives(alts.drop_last(), owned, moved)->Some_0;
        lemma_convert_alternatives_len(alts.drop_last(), owned, moved);
        assert(ts == rest_ts.push(
            (SpecAlternative { type_: a.type_, name: a.name, expression: Box::new(e2) }, m2),
        ));
        assert(rest_ts =~= ts.drop_last());
        assert(spec_wrap_alternatives(rest_ts, all) =~= wrapped.drop_last());
        assert(marker_free_alternatives(wrapped.drop_last()));
        assert(marker_free(*wrapped.last().expression));
        lemma_drop_wrap_marker_free(all.difference(m2), e2);
        lemma_convert_marker_free_output(*a.expression, owned.insert(a.name), moved);
        lemma_wrap_alternatives_marker_free(alts.drop_last(), owned, moved, all);
        assert(wrapped.last() == a);
        assert(wrapped =~= wrapped.drop_last().push(wrapped.last()));
        assert(alts =~= alts.drop_last().push(a));
        assert(wrapped =~= alts);
    }
}

proof fn lemma_convert_definition_marker_free_output(d: SpecDefinition)
    requires
        spec_convert_definition(d) is Some,
        marker_free(*spec_convert_definition(d)->Some_0.body),
    ensures
        spec_convert_definition(d)->Some_0 == d,
    decreases d, 0int,
{
    let owned = spec_owned_of(d);
    let (body2, moved) = spec_convert(*d.body, owned, Set::empty())->Some_0;
    lemma_drop_wrap_marker_free(owned.difference(moved), body2);
    lemma_convert_marker_free_output(*d.body, owned, Set::empty());
}

/// One definition through the pass twice: the second run returns the
/// first run's output unchanged.
pub proof fn lemma_convert_definition_idempotent(d: SpecDefinition, d1: SpecDefinition)
    requires
        spec_convert_definition(d) == Some(d1),
        spec_convert_definition(d1) is Some,
    ensures
        spec_convert_definition(d1) == Some(d1),
{
    let owned = spec_owned_of(d);
    let (body2, moved) = spec_convert(*d.body, owned, Set::empty())->Some_0;
    assert(spec_owned_of(d1) == owned);
    lemma_convert_definition_some_marker_free(d1);
    lemma_drop_wrap_marker_free(owned.difference(moved), body2);
    assert(*d1.body == body2);
    lemma_convert_marker_free_output(*d.body, owned, Set::empty());
    assert(body2 == *d.body);
    assert(spec_convert(*d1.body, owned, Set::empty()) == Some((body2, moved)));
    let d2 = spec_convert_definition(d1)->Some_0;
    assert(d2 == d1);
}

proof fn lemma_convert_definitions_idempotent(ds: Seq<SpecDefinition>, ds1: Seq<SpecDefinition>)
    requires
        spec_convert_definitions(ds) == Some(ds1),
        spec_convert_definitions(ds1) is Some,
    ensures
        spec_convert_definitions(ds1) == Some(ds1),
    decreases ds.len(),
{
    if ds.len() == 0 {
        assert(ds1 =~= Seq::<SpecDefinition>::empty());
    } else {
        let rest1 = spec_convert_definitions(ds.drop_last())->Some_0;
        let d1 = spec_convert_definition(ds.last())->Some_0;
        assert(ds1 == rest1.push(d1));
        assert(ds1.drop_last() =~= rest1);
        assert(ds1.last() == d1);
        lemma_convert_definitions_idempotent(ds.drop_last(), rest1);
        lemma_convert_definition_idempotent(ds.last(), d1);
        assert(spec_convert_definitions(ds1)->Some_0 =~= ds1);
    }
}

/// Idempotence of the reference-count pass on its image: when a second
/// run succeeds at all — the first run inserted no markers — it changes
/// nothing. (A second run on a module the first run annotated fails on
/// those markers instead.)
pub proof fn lemma_count_references_idempotent(m: SpecModule, m1: SpecModule)
    requires
        spec_count_references(m) == Some(m1),
        spec_count_references(m1) is Some,
    ensures
        spec_count_references(m1) == Some(m1),
{
    lemma_convert_definitions_idempotent(
        m.definitions,
        spec_convert_definitions(m.definitions)->Some_0,
    );
}


/// Every binder name an expression introduces anywhere.
pub open spec fn spec_binder_names(e: SpecExpr) -> Set<Seq<char>>
    decreases e,
{
    match e {
        SpecExpr::ArithmeticOperation(_, lhs, rhs) => spec_binder_names(*lhs).union(
            spec_binder_names(*rhs),
        ),
        SpecExpr::Boolean(_) => Set::empty(),
        SpecExpr::ByteString(_) => Set::empty(),
        SpecExpr::Case(argument, alternatives, default_alternative) => spec_binder_names(
            *argument,
        ).union(spec_alternative_binder_names(alternatives)).union(
            match default_alternative {
                Some(default) => spec_binder_names(*default.expression).insert(default.name),
                None => Set::empty(),
            },
        ),
        SpecExpr::CloneVariables(_, inner) => spec_binder_names(*inner),
        SpecExpr::ComparisonOperation(_, lhs, rhs) => spec_binder_names(*lhs).union(
            spec_binder_names(*rhs),
        ),
        SpecExpr::DropVariables(_, inner) => spec_binder_names(*inner),
        SpecExpr::FunctionApplication(function, argument) => spec_binder_names(*function).union(
            spec_binder_names(*argument),
        ),
        SpecExpr::If(condition, then_, else_) => spec_binder_names(*condition).union(
            spec_binder_names(*then_),
        ).union(spec_binder_names(*else_)),
        SpecExpr::Let(name, _, bound, body) => spec_binder_names(*bound).union(
            spec_binder_names(*body),
        ).insert(name),
        SpecExpr::LetRecursive(definition, body) => spec_binder_names(*body).insert(
            definition.name,
        ),
        SpecExpr::Number(_) => Set::empty(),
        SpecExpr::Record(_, elements) => spec_list_binder_names(elements),
        SpecExpr::RecordElement(_, _, record) => spec_binder_names(*record),
        SpecExpr::Variable(_) => Set::empty(),
        SpecExpr::Variant(_, payload) => spec_binder_names(*payload),
    }
}

pub open spec fn spec_list_binder_names(es: Seq<SpecExpr>) -> Set<Seq<char>>
    decreases es,
{
    if es.len() == 0 {
        Set::empty()
    } else {
        spec_list_binder_names(es.drop_last()).union(spec_binder_names(es.last()))
    }
}

pub open spec fn spec_alternative_binder_names(alts: Seq<SpecAlternative>) -> Set<Seq<char>>
    decreases alts,
{
    if alts.len() == 0 {
        Set::empty()
    } else {
        spec_alternative_binder_names(alts.drop_last()).union(
            spec_binder_names(*alts.last().expression),
        ).insert(alts.last().name)
    }
}

/// The moved set only grows, up to the expression's own binder names:
/// whatever the suffix had consumed and no binder shadows stays consumed.
/// This is the bookkeeping half of the balance invariant; the pass relies
/// on it when threading the set right to left.
#[verifier::rlimit(100)]
pub proof fn lemma_convert_moved_monotone(
    e: SpecExpr,
    owned: Set<Seq<char>>,
    moved: Set<Seq<char>>,
)
    requires
        spec_convert(e, owned, moved) is Some,
    ensures
        moved.difference(spec_binder_names(e)).subset_of(spec_convert(e, owned, moved)->Some_0.1),
    decreases e, 1int,
{
    let out = spec_convert(e, owned, moved)->Some_0.1;
    match e {
        SpecExpr::ArithmeticOperation(_, lhs, rhs) => {
            let (_, moved1) = spec_convert(*rhs, owned, moved)->Some_0;
            lemma_convert_moved_monotone(*rhs, owned, moved);
            lemma_convert_moved_monotone(*lhs, owned, moved1);
        },
        SpecExpr::Case(argument, alternatives, default_alternative) => {
            match default_alternative {
                Some(default) => {
                    let (_, dm) = spec_convert(
                        *default.expression,
                        owned.insert(default.name),
                        moved,
                    )->Some_0;
                    let ts = spec_convert_alternatives(alternatives, owned, moved)->Some_0;
                    let am = crate::reference_count::spec_alternatives_moved(ts);
                    lemma_convert_moved_monotone(
                        *default.expression,
                        owned.insert(default.name),
                        moved,
                    );
                    lemma_convert_moved_monotone(*argument, owned, dm.union(am));
                },
                None => {
                    let ts = spec_convert_alternatives(alternatives, owned, moved)->Some_0;
                    let am = crate::reference_count::spec_alternatives_moved(ts);
                    lemma_convert_moved_monotone(*argument, owned, moved.union(am));
                },
            }
        },
        SpecExpr::ComparisonOperation(_, lhs, rhs) => {
            let (_, moved1) = spec_convert(*rhs, owned, moved)->Some_0;
            lemma_convert_moved_monotone(*rhs, owned, moved);
            lemma_convert_moved_monotone(*lhs, owned, moved1);
        },
        SpecExpr::FunctionApplication(function, argument) => {
            let (_, moved1) = spec_convert(*argument, owned, moved)->Some_0;
            lemma_convert_moved_monotone(*argument, owned, moved);
            lemma_convert_moved_monotone(*function, owned, moved1);
        },
        SpecExpr::If(condition, then_, else_) => {
            let (_, tm) = spec_convert(*then_, owned, moved)->Some_0;
            let (_, em) = spec_convert(*else_, owned, moved)->Some_0;
            lemma_convert_moved_monotone(*then_, owned, moved);
            lemma_convert_moved_monotone(*condition, owned, tm.union(em));
        },
        SpecExpr::Let(name, _, bound, body) => {
            let (_, bm) = spec_convert(*body, owned.insert(name), moved)->Some_0;
            lemma_convert_moved_monotone(*body, owned.insert(name), moved);
            lemma_convert_moved_monotone(*bound, owned, bm.remove(name));
            assert forall|v: Seq<char>|
                moved.difference(spec_binder_names(e)).contains(v) implies out.contains(v) by {
                assert(v != name);
                assert(bm.contains(v));
                assert(bm.remove(name).difference(spec_binder_names(*bound)).contains(v));
            }
        },
        SpecExpr::LetRecursive(definition, body) => {
            lemma_convert_moved_monotone(*body, owned.insert(definition.name), moved);
            let (_, bm) = spec_convert(*body, owned.insert(definition.name), moved)->Some_0;
            assert forall|v: Seq<char>|
                moved.difference(spec_binder_names(e)).contains(v) implies out.contains(v) by {
                assert(v != definition.name);
                assert(bm.contains(v));
                assert(bm.remove(definition.name).contains(v));
            }
        },
        SpecExpr::Record(_, elements) => {
            lemma_convert_list_moved_monotone(elements, owned, moved);
        },
        SpecExpr::RecordElement(_, _, record) => {
            lemma_convert_moved_monotone(*record, owned, moved);
        },
        SpecExpr::Variant(_, payload) => {
            lemma_convert_moved_monotone(*payload, owned, moved);
        },
        _ => {},
    }
}

proof fn lemma_convert_list_moved_monotone(
    es: Seq<SpecExpr>,
    owned: Set<Seq<char>>,
    moved: Set<Seq<char>>,
)
    requires
        spec_convert_list(es, owned, moved) is Some,
    ensures
        moved.difference(spec_list_binder_names(es)).subset_of(
            spec_convert_list(es, owned, moved)->Some_0.1,
        ),
    decreases es, 0int,
{
    if es.len() > 0 {
        let (_, moved1) = spec_convert(es.last(), owned, moved)->Some_0;
        lemma_convert_moved_monotone(es.last(), owned, moved);
        lemma_convert_list_moved_monotone(es.drop_last(), owned, moved1);
        assert forall|v: Seq<char>|
            moved.difference(spec_list_binder_names(es)).contains(v) implies spec_convert_list(
            es,
            owned,
            moved,
        )->Some_0.1.contains(v) by {
            assert(moved.difference(spec_binder_names(es.last())).contains(v));
            assert(moved1.difference(spec_list_binder_names(es.drop_last())).contains(v));
        }
    }
}

} // verus!
