//! The reference-count annotation pass. It walks every definition bottom-up
//! and inserts the minimal `CloneVariables` / `DropVariables` markers that
//! keep each owned variable consumed exactly once along every control-flow
//! path. Operand lists are visited right to left, so each operand knows what
//! the operands after it already consumed.

use crate::ir::{
    alternative_view, alternatives_view, arguments_view, clone_arguments, definition_view,
    expression_view, exprs_view, lemma_alternatives_view_push, lemma_arguments_view_push,
    lemma_exprs_view, lemma_exprs_view_push, Alternative, ArithmeticOperation, Case,
    CloneVariables, ComparisonOperation, DefaultAlternative, Definition, DropVariables,
    Expression, FunctionApplication, If, Let, LetRecursive, Record, RecordElement,
    SpecAlternative, SpecDefaultAlternative, SpecDefinition, SpecExpr, Variable, Variant,
};
use crate::module::{
    clone_declarations, clone_foreign_declarations, clone_foreign_definitions,
    clone_type_definitions, definitions_view, lemma_definitions_view,
    lemma_definitions_view_push, Module, SpecModule,
};
use crate::vars::VariableSet;
use vstd::prelude::*;

verus! {

/// The pass rejects trees that already carry clone or drop markers.
#[derive(Debug, PartialEq)]
pub enum ReferenceCountError {
    ExpressionNotSupported(Expression),
}

/// An owned variable is cloned at a reference when the suffix of the
/// expression already consumed it.
pub open spec fn spec_should_clone(
    variable: Seq<char>,
    owned: Set<Seq<char>>,
    moved: Set<Seq<char>>,
) -> bool {
    owned.contains(variable) && moved.contains(variable)
}

/// Clone markers around an expression; none when the set is empty.
pub open spec fn spec_clone_variables(variables: Set<Seq<char>>, expression: SpecExpr) -> SpecExpr {
    if variables == Set::<Seq<char>>::empty() {
        expression
    } else {
        SpecExpr::CloneVariables(variables, Box::new(expression))
    }
}

/// Drop markers around an expression; none when the set is empty.
pub open spec fn spec_drop_variables(variables: Set<Seq<char>>, expression: SpecExpr) -> SpecExpr {
    if variables == Set::<Seq<char>>::empty() {
        expression
    } else {
        SpecExpr::DropVariables(variables, Box::new(expression))
    }
}

/// The names of a sequence of arguments, as a set.
pub open spec fn spec_argument_names(args: Seq<crate::ir::SpecArgument>) -> Set<Seq<char>>
    decreases args.len(),
{
    if args.len() == 0 {
        Set::empty()
    } else {
        spec_argument_names(args.drop_last()).insert(args.last().name)
    }
}

/// The set a definition owns: its own name, its free variables, its
/// arguments.
pub open spec fn spec_owned_of(d: SpecDefinition) -> Set<Seq<char>> {
    spec_argument_names(d.environment).union(spec_argument_names(d.arguments)).insert(d.name)
}

/// The environment variables a recursive definition must clone before its
/// closure captures them.
pub open spec fn spec_cloned_environment(
    env: Seq<crate::ir::SpecArgument>,
    owned: Set<Seq<char>>,
    moved: Set<Seq<char>>,
) -> Set<Seq<char>>
    decreases env.len(),
{
    if env.len() == 0 {
        Set::empty()
    } else {
        let rest = spec_cloned_environment(env.drop_last(), owned, moved);
        if spec_should_clone(env.last().name, owned, moved) {
            rest.insert(env.last().name)
        } else {
            rest
        }
    }
}

/// What the pass does to one expression under an owned set and the set of
/// variables the expression's suffix already moved: the annotated
/// expression and the updated moved set, or nothing where the input
/// already carries markers.
pub open spec fn spec_convert(
    e: SpecExpr,
    owned: Set<Seq<char>>,
    moved: Set<Seq<char>>,
) -> Option<(SpecExpr, Set<Seq<char>>)>
    decreases e,
{
    match e {
        SpecExpr::ArithmeticOperation(operator, lhs, rhs) => {
            match spec_convert(*rhs, owned, moved) {
                Some((rhs2, moved1)) => match spec_convert(*lhs, owned, moved1) {
                    Some((lhs2, moved2)) => Some(
                        (
                            SpecExpr::ArithmeticOperation(operator, Box::new(lhs2), Box::new(rhs2)),
                            moved2,
                        ),
                    ),
                    None => None,
                },
                None => None,
            }
        },
        SpecExpr::Boolean(_) => Some((e, moved)),
        SpecExpr::ByteString(_) => Some((e, moved)),
        SpecExpr::Case(argument, alternatives, default_alternative) => {
            let default_converted = match default_alternative {
                Some(default) => match spec_convert(
                    *default.expression,
                    owned.insert(default.name),
                    moved,
                ) {
                    Some((e2, m2)) => Some(
                        Some(
                            (
                                SpecDefaultAlternative {
                                    name: default.name,
                                    expression: Box::new(e2),
                                },
                                m2,
                            ),
                        ),
                    ),
                    None => None,
                },
                None => Some(None),
            };
            match default_converted {
                Some(default2) => match spec_convert_alternatives(alternatives, owned, moved) {
                    Some(alts2) => {
                        let default_moved = match default2 {
                            Some((_, m)) => m,
                            None => moved,
                        };
                        let all_moved = default_moved.union(spec_alternatives_moved(alts2));
                        match spec_convert(*argument, owned, all_moved) {
                            Some((argument2, moved2)) => Some(
                                (
                                    SpecExpr::Case(
                                        Box::new(argument2),
                                        spec_wrap_alternatives(alts2, all_moved),
                                        match default2 {
                                            Some((d, m)) => Some(
                                                Box::new(
                                                    SpecDefaultAlternative {
                                                        name: d.name,
                                                        expression: Box::new(
                                                            spec_drop_variables(
                                                                all_moved.difference(m),
                                                                *d.expression,
                                                            ),
                                                        ),
                                                    },
                                                ),
                                            ),
                                            None => None,
                                        },
                                    ),
                                    moved2,
                                ),
                            ),
                            None => None,
                        }
                    },
                    None => None,
                },
                None => None,
            }
        },
        SpecExpr::CloneVariables(_, _) => None,
        SpecExpr::ComparisonOperation(operator, lhs, rhs) => {
            match spec_convert(*rhs, owned, moved) {
                Some((rhs2, moved1)) => match spec_convert(*lhs, owned, moved1) {
                    Some((lhs2, moved2)) => Some(
                        (
                            SpecExpr::ComparisonOperation(operator, Box::new(lhs2), Box::new(rhs2)),
                            moved2,
                        ),
                    ),
                    None => None,
                },
                None => None,
            }
        },
        SpecExpr::DropVariables(_, _) => None,
        SpecExpr::FunctionApplication(function, argument) => {
            match spec_convert(*argument, owned, moved) {
                Some((argument2, moved1)) => match spec_convert(*function, owned, moved1) {
                    Some((function2, moved2)) => Some(
                        (
                            SpecExpr::FunctionApplication(
                                Box::new(function2),
                                Box::new(argument2),
                            ),
                            moved2,
                        ),
                    ),
                    None => None,
                },
                None => None,
            }
        },
        SpecExpr::If(condition, then_, else_) => {
            match spec_convert(*then_, owned, moved) {
                Some((then2, then_moved)) => match spec_convert(*else_, owned, moved) {
                    Some((else2, else_moved)) => {
                        let all_moved = then_moved.union(else_moved);
                        match spec_convert(*condition, owned, all_moved) {
                            Some((condition2, moved2)) => Some(
                                (
                                    SpecExpr::If(
                                        Box::new(condition2),
                                        Box::new(
                                            spec_drop_variables(
                                                all_moved.difference(then_moved),
                                                then2,
                                            ),
                                        ),
                                        Box::new(
                                            spec_drop_variables(
                                                all_moved.difference(else_moved),
                                                else2,
                                            ),
                                        ),
                                    ),
                                    moved2,
                                ),
                            ),
                            None => None,
                        }
                    },
                    None => None,
                },
                None => None,
            }
        },
        SpecExpr::Let(name, type_, bound, body) => {
            match spec_convert(*body, owned.insert(name), moved) {
                Some((body2, body_moved)) => match spec_convert(
                    *bound,
                    owned,
                    body_moved.remove(name),
                ) {
                    Some((bound2, moved2)) => Some(
                        (
                            SpecExpr::Let(
                                name,
                                type_,
                                Box::new(bound2),
                                Box::new(
                                    if body_moved.contains(name) {
                                        body2
                                    } else {
                                        spec_drop_variables(
                                            Set::empty().insert(name),
                                            body2,
                                        )
                                    },
                                ),
                            ),
                            moved2,
                        ),
                    ),
                    None => None,
                },
                None => None,
            }
        },
        SpecExpr::LetRecursive(definition, body) => {
            match spec_convert(*body, owned.insert(definition.name), moved) {
                Some((body2, body_moved)) => match spec_convert_definition(*definition) {
                    Some(definition2) => {
                        let cloned = spec_cloned_environment(
                            definition.environment,
                            owned,
                            body_moved,
                        );
                        let inner = SpecExpr::LetRecursive(
                            Box::new(definition2),
                            Box::new(
                                if body_moved.contains(definition.name) {
                                    body2
                                } else {
                                    spec_drop_variables(
                                        Set::empty().insert(definition.name),
                                        body2,
                                    )
                                },
                            ),
                        );
                        let moved_out = body_moved.remove(definition.name).union(
                            spec_argument_names(definition.environment),
                        );
                        Some((spec_clone_variables(cloned, inner), moved_out))
                    },
                    None => None,
                },
                None => None,
            }
        },
        SpecExpr::Number(_) => Some((e, moved)),
        SpecExpr::Record(name, elements) => {
            match spec_convert_list(elements, owned, moved) {
                Some((elements2, moved2)) => Some((SpecExpr::Record(name, elements2), moved2)),
                None => None,
            }
        },
        SpecExpr::RecordElement(name, index, record) => {
            match spec_convert(*record, owned, moved) {
                Some((record2, moved2)) => Some(
                    (SpecExpr::RecordElement(name, index, Box::new(record2)), moved2),
                ),
                None => None,
            }
        },
        SpecExpr::Variable(name) => {
            if spec_should_clone(name, owned, moved) {
                Some(
                    (
                        SpecExpr::CloneVariables(
                            Set::empty().insert(name),
                            Box::new(SpecExpr::Variable(name)),
                        ),
                        moved,
                    ),
                )
            } else {
                Some((SpecExpr::Variable(name), moved.insert(name)))
            }
        },
        SpecExpr::Variant(type_, payload) => {
            match spec_convert(*payload, owned, moved) {
                Some((payload2, moved2)) => Some(
                    (SpecExpr::Variant(type_, Box::new(payload2)), moved2),
                ),
                None => None,
            }
        },
    }
}

/// Right-to-left conversion of an operand list, threading the moved set
/// from the last element to the first.
pub open spec fn spec_convert_list(
    es: Seq<SpecExpr>,
    owned: Set<Seq<char>>,
    moved: Set<Seq<char>>,
) -> Option<(Seq<SpecExpr>, Set<Seq<char>>)>
    decreases es,
{
    if es.len() == 0 {
        Some((Seq::empty(), moved))
    } else {
        match spec_convert(es.last(), owned, moved) {
            Some((last2, moved1)) => match spec_convert_list(es.drop_last(), owned, moved1) {
                Some((rest2, moved2)) => Some((rest2.push(last2), moved2)),
                None => None,
            },
            None => None,
        }
    }
}

/// Each alternative converted independently from the same incoming moved
/// set, its binder added to the owned set; the result keeps each
/// alternative's own moved set for the balancing step.
pub open spec fn spec_convert_alternatives(
    alts: Seq<SpecAlternative>,
    owned: Set<Seq<char>>,
    moved: Set<Seq<char>>,
) -> Option<Seq<(SpecAlternative, Set<Seq<char>>)>>
    decreases alts,
{
    if alts.len() == 0 {
        Some(Seq::empty())
    } else {
        let a = alts.last();
        match spec_convert(*a.expression, owned.insert(a.name), moved) {
            Some((e2, m2)) => match spec_convert_alternatives(alts.drop_last(), owned, moved) {
                Some(rest) => Some(
                    rest.push(
                        (
                            SpecAlternative {
                                type_: a.type_,
                                name: a.name,
                                expression: Box::new(e2),
                            },
                            m2,
                        ),
                    ),
                ),
                None => None,
            },
            None => None,
        }
    }
}

/// The union of the moved sets of converted alternatives.
pub open spec fn spec_alternatives_moved(ts: Seq<(SpecAlternative, Set<Seq<char>>)>) -> Set<
    Seq<char>,
>
    decreases ts.len(),
{
    if ts.len() == 0 {
        Set::empty()
    } else {
        spec_alternatives_moved(ts.drop_last()).union(ts.last().1)
    }
}

/// Balances the alternatives: each is wrapped with drops for what the
/// other paths consumed and it did not.
pub open spec fn spec_wrap_alternatives(
    ts: Seq<(SpecAlternative, Set<Seq<char>>)>,
    all_moved: Set<Seq<char>>,
) -> Seq<SpecAlternative> {
    Seq::new(
        ts.len(),
        |i: int|
            SpecAlternative {
                type_: ts[i].0.type_,
                name: ts[i].0.name,
                expression: Box::new(
                    spec_drop_variables(all_moved.difference(ts[i].1), *ts[i].0.expression),
                ),
            },
    )
}

/// What the pass does to one definition: the body is converted under the
/// definition's owned set, then wrapped with drops for every owned
/// variable the body left unconsumed.
pub open spec fn spec_convert_definition(d: SpecDefinition) -> Option<SpecDefinition>
    decreases d,
{
    let owned = spec_owned_of(d);
    match spec_convert(*d.body, owned, Set::empty()) {
        Some((body2, moved)) => Some(
            SpecDefinition {
                name: d.name,
                environment: d.environment,
                arguments: d.arguments,
                body: Box::new(spec_drop_variables(owned.difference(moved), body2)),
                result_type: d.result_type,
                is_thunk: d.is_thunk,
            },
        ),
        None => None,
    }
}

/// What the pass does to a module: every definition converted, everything
/// else kept.
pub open spec fn spec_count_references(m: SpecModule) -> Option<SpecModule> {
    match spec_convert_definitions(m.definitions) {
        Some(definitions) => Some(
            SpecModule {
                type_definitions: m.type_definitions,
                foreign_declarations: m.foreign_declarations,
                foreign_definitions: m.foreign_definitions,
                declarations: m.declarations,
                definitions: definitions,
            },
        ),
        None => None,
    }
}

pub open spec fn spec_convert_definitions(ds: Seq<SpecDefinition>) -> Option<Seq<SpecDefinition>>
    decreases ds.len(),
{
    if ds.len() == 0 {
        Some(Seq::empty())
    } else {
        match spec_convert_definitions(ds.drop_last()) {
            Some(rest) => match spec_convert_definition(ds.last()) {
                Some(d2) => Some(rest.push(d2)),
                None => None,
            },
            None => None,
        }
    }
}


/// Wraps an expression in clone markers unless the set is empty.
pub fn clone_variables(expression: Expression, cloned_variables: VariableSet) -> (r: Expression)
    ensures
        r@ == spec_clone_variables(cloned_variables@, expression@),
{
    if cloned_variables.is_empty() {
        expression
    } else {
        Expression::CloneVariables(
            CloneVariables { variables: cloned_variables, expression: Box::new(expression) },
        )
    }
}

/// Wraps an expression in drop markers unless the set is empty.
pub fn drop_variables(expression: Expression, dropped_variables: VariableSet) -> (r: Expression)
    ensures
        r@ == spec_drop_variables(dropped_variables@, expression@),
{
    if dropped_variables.is_empty() {
        expression
    } else {
        Expression::DropVariables(
            DropVariables { variables: dropped_variables, expression: Box::new(expression) },
        )
    }
}

/// A variable reference is cloned when the variable is owned here and the
/// expression's suffix already consumed it.
pub fn should_clone_variable(
    variable: &String,
    owned_variables: &VariableSet,
    moved_variables: &VariableSet,
) -> (r: bool)
    ensures
        r == spec_should_clone(variable@, owned_variables@, moved_variables@),
{
    owned_variables.contains(variable) && moved_variables.contains(variable)
}

/// The names of a vector of arguments, as a set.
fn argument_names(args: &Vec<crate::ir::Argument>) -> (r: VariableSet)
    ensures
        r@ == spec_argument_names(arguments_view(args@)),
{
    let mut r = VariableSet::new();
    let mut i: usize = 0;
    proof {
        assert(arguments_view(args@.take(0)) =~= Seq::empty());
    }
    while i < args.len()
        invariant
            0 <= i <= args.len(),
            r@ == spec_argument_names(arguments_view(args@.take(i as int))),
        decreases args.len() - i,
    {
        let ghost prefix = arguments_view(args@.take(i as int));
        r.insert(args[i].name.as_str());
        proof {
            assert(args@.take(i + 1 as int) =~= args@.take(i as int).push(args@[i as int]));
            lemma_arguments_view_push(args@.take(i as int), args@[i as int]);
            assert(arguments_view(args@.take(i + 1 as int)).drop_last() =~= prefix);
        }
        i += 1;
    }
    proof {
        assert(args@.take(args.len() as int) =~= args@);
    }
    r
}

/// The owned set of a definition: its own name, its environment, its
/// arguments.
fn owned_of(definition: &Definition) -> (r: VariableSet)
    ensures
        r@ == spec_owned_of(definition@),
{
    let env_names = argument_names(&definition.environment);
    let arg_names = argument_names(&definition.arguments);
    let r = env_names.union(&arg_names).with(definition.name.as_str());
    r
}

/// The environment variables of a recursive definition that the pass must
/// clone before the closure captures them.
fn cloned_environment(
    environment: &Vec<crate::ir::Argument>,
    owned_variables: &VariableSet,
    moved_variables: &VariableSet,
) -> (r: VariableSet)
    ensures
        r@ == spec_cloned_environment(
            arguments_view(environment@),
            owned_variables@,
            moved_variables@,
        ),
{
    let mut r = VariableSet::new();
    let mut i: usize = 0;
    proof {
        assert(arguments_view(environment@.take(0)) =~= Seq::empty());
    }
    while i < environment.len()
        invariant
            0 <= i <= environment.len(),
            r@ == spec_cloned_environment(
                arguments_view(environment@.take(i as int)),
                owned_variables@,
                moved_variables@,
            ),
        decreases environment.len() - i,
    {
        let ghost prefix = arguments_view(environment@.take(i as int));
        if should_clone_variable(&environment[i].name, owned_variables, moved_variables) {
            r.insert(environment[i].name.as_str());
        }
        proof {
            assert(environment@.take(i + 1 as int) =~= environment@.take(i as int).push(
                environment@[i as int],
            ));
            lemma_arguments_view_push(environment@.take(i as int), environment@[i as int]);
            assert(arguments_view(environment@.take(i + 1 as int)).drop_last() =~= prefix);
        }
        i += 1;
    }
    proof {
        assert(environment@.take(environment.len() as int) =~= environment@);
    }
    r
}


/// Converts the first `n` operands of a list right to left, threading the
/// moved set from the last to the first.
fn convert_list(
    expressions: &Vec<Expression>,
    n: usize,
    owned_variables: &VariableSet,
    moved_variables: VariableSet,
) -> (r: Result<(Vec<Expression>, VariableSet), ReferenceCountError>)
    requires
        n <= expressions.len(),
    ensures
        match r {
            Ok((es2, m2)) => spec_convert_list(
                exprs_view(expressions@.take(n as int)),
                owned_variables@,
                moved_variables@,
            ) == Some((exprs_view(es2@), m2@)),
            Err(_) => spec_convert_list(
                exprs_view(expressions@.take(n as int)),
                owned_variables@,
                moved_variables@,
            ) is None,
        },
    decreases *expressions, n,
{
    let ghost all = exprs_view(expressions@.take(n as int));
    if n == 0 {
        let r: Vec<Expression> = Vec::new();
        proof {
            assert(exprs_view(expressions@.take(0)) =~= Seq::empty());
            assert(exprs_view(r@) =~= Seq::empty());
        }
        Ok((r, moved_variables))
    } else {
        proof {
            assert(expressions@.take(n as int).drop_last() =~= expressions@.take(n - 1 as int));
            assert(expressions@.take(n as int).last() == expressions@[n - 1 as int]);
            assert(all == exprs_view(expressions@.take(n - 1 as int)).push(
                expression_view(expressions@[n - 1 as int]),
            ));
            assert(all.last() == expression_view(expressions@[n - 1 as int]));
            assert(all.drop_last() =~= exprs_view(expressions@.take(n - 1 as int)));
        }
        let (last2, moved1) = match convert_expression(
            &expressions[n - 1],
            owned_variables,
            &moved_variables,
        ) {
            Ok(p) => p,
            Err(e) => {
                return Err(e);
            },
        };
        let (mut rest2, moved2) = match convert_list(expressions, n - 1, owned_variables, moved1) {
            Ok(p) => p,
            Err(e) => {
                return Err(e);
            },
        };
        let ghost rest0 = rest2@;
        rest2.push(last2);
        proof {
            assert(rest2@ == rest0.push(rest2@.last()));
            lemma_exprs_view_push(rest0, rest2@.last());
        }
        Ok((rest2, moved2))
    }
}

/// Converts the first `n` alternatives, each independently from the same
/// incoming moved set, keeping each alternative's own moved set.
fn convert_alternatives(
    alternatives: &Vec<Alternative>,
    n: usize,
    owned_variables: &VariableSet,
    moved_variables: &VariableSet,
) -> (r: Result<Vec<(Alternative, VariableSet)>, ReferenceCountError>)
    requires
        n <= alternatives.len(),
    ensures
        match r {
            Ok(ts) => spec_convert_alternatives(
                alternatives_view(alternatives@.take(n as int)),
                owned_variables@,
                moved_variables@,
            ) == Some(alternative_pairs_view(ts@)),
            Err(_) => spec_convert_alternatives(
                alternatives_view(alternatives@.take(n as int)),
                owned_variables@,
                moved_variables@,
            ) is None,
        },
    decreases *alternatives, n,
{
    if n == 0 {
        let r: Vec<(Alternative, VariableSet)> = Vec::new();
        proof {
            assert(alternatives_view(alternatives@.take(0)) =~= Seq::<SpecAlternative>::empty());
            assert(alternative_pairs_view(r@) =~= Seq::empty());
        }
        Ok(r)
    } else {
        let ghost all = alternatives_view(alternatives@.take(n as int));
        proof {
            assert(alternatives@.take(n as int).drop_last() =~= alternatives@.take(n - 1 as int));
            assert(alternatives@.take(n as int).last() == alternatives@[n - 1 as int]);
            assert(all == alternatives_view(alternatives@.take(n - 1 as int)).push(
                alternative_view(alternatives@[n - 1 as int]),
            ));
            assert(all.last() == alternative_view(alternatives@[n - 1 as int]));
            assert(all.drop_last() =~= alternatives_view(alternatives@.take(n - 1 as int)));
        }
        let alternative = &alternatives[n - 1];
        let inner_owned = owned_variables.with(alternative.name.as_str());
        let (e2, m2) = match convert_expression(
            &alternative.expression,
            &inner_owned,
            moved_variables,
        ) {
            Ok(p) => p,
            Err(e) => {
                return Err(e);
            },
        };
        let mut rest = match convert_alternatives(alternatives, n - 1, owned_variables,
            moved_variables) {
            Ok(p) => p,
            Err(e) => {
                return Err(e);
            },
        };
        let ghost rest0 = rest@;
        rest.push(
            (
                Alternative {
                    type_: alternative.type_.clone(),
                    name: alternative.name.clone(),
                    expression: Box::new(e2),
                },
                m2,
            ),
        );
        proof {
            assert(rest@ == rest0.push(rest@.last()));
            assert(alternative_pairs_view(rest@) =~= alternative_pairs_view(rest0).push(
                (alternative_view(rest@.last().0), rest@.last().1@),
            ));
        }
        Ok(rest)
    }
}

/// The views of converted alternatives paired with their moved sets.
pub open spec fn alternative_pairs_view(s: Seq<(Alternative, VariableSet)>) -> Seq<
    (SpecAlternative, Set<Seq<char>>),
> {
    Seq::new(s.len(), |i: int| (alternative_view(s[i].0), s[i].1@))
}


/// Converts one expression: every construct is rebuilt with its operands
/// converted right to left, variables gain clone markers where their
/// suffix already consumed them, and branching constructs are balanced
/// with drop markers so every path consumes the same set.
#[verifier::rlimit(60)]
pub fn convert_expression(
    expression: &Expression,
    owned_variables: &VariableSet,
    moved_variables: &VariableSet,
) -> (r: Result<(Expression, VariableSet), ReferenceCountError>)
    ensures
        match r {
            Ok((e2, m2)) => spec_convert(expression@, owned_variables@, moved_variables@) == Some(
                (e2@, m2@),
            ),
            Err(_) => spec_convert(expression@, owned_variables@, moved_variables@) is None,
        },
    decreases *expression,
{
    match expression {
        Expression::ArithmeticOperation(operation) => {
            let (rhs2, moved1) = convert_expression(&operation.rhs, owned_variables,
                moved_variables)?;
            let (lhs2, moved2) = convert_expression(&operation.lhs, owned_variables, &moved1)?;
            Ok(
                (
                    Expression::ArithmeticOperation(
                        ArithmeticOperation {
                            operator: operation.operator,
                            lhs: Box::new(lhs2),
                            rhs: Box::new(rhs2),
                        },
                    ),
                    moved2,
                ),
            )
        },
        Expression::Boolean(_) => Ok((expression.clone(), moved_variables.duplicate())),
        Expression::ByteString(_) => Ok((expression.clone(), moved_variables.duplicate())),
        Expression::Case(case) => convert_case(case, owned_variables, moved_variables),
        Expression::CloneVariables(_) => Err(
            ReferenceCountError::ExpressionNotSupported(expression.clone()),
        ),
        Expression::ComparisonOperation(operation) => {
            let (rhs2, moved1) = convert_expression(&operation.rhs, owned_variables,
                moved_variables)?;
            let (lhs2, moved2) = convert_expression(&operation.lhs, owned_variables, &moved1)?;
            Ok(
                (
                    Expression::ComparisonOperation(
                        ComparisonOperation {
                            operator: operation.operator,
                            lhs: Box::new(lhs2),
                            rhs: Box::new(rhs2),
                        },
                    ),
                    moved2,
                ),
            )
        },
        Expression::DropVariables(_) => Err(
            ReferenceCountError::ExpressionNotSupported(expression.clone()),
        ),
        Expression::FunctionApplication(application) => {
            let (argument2, moved1) = convert_expression(
                &application.argument,
                owned_variables,
                moved_variables,
            )?;
            let (function2, moved2) = convert_expression(&application.function, owned_variables,
                &moved1)?;
            Ok(
                (
                    Expression::FunctionApplication(
                        FunctionApplication {
                            function: Box::new(function2),
                            argument: Box::new(argument2),
                        },
                    ),
                    moved2,
                ),
            )
        },
        Expression::If(if_) => {
            let (then2, then_moved) = convert_expression(&if_.then_, owned_variables,
                moved_variables)?;
            let (else2, else_moved) = convert_expression(&if_.else_, owned_variables,
                moved_variables)?;
            let all_moved = then_moved.union(&else_moved);
            let (condition2, moved2) = convert_expression(&if_.condition, owned_variables,
                &all_moved)?;
            Ok(
                (
                    Expression::If(
                        If {
                            condition: Box::new(condition2),
                            then_: Box::new(
                                drop_variables(then2, all_moved.difference(&then_moved)),
                            ),
                            else_: Box::new(
                                drop_variables(else2, all_moved.difference(&else_moved)),
                            ),
                        },
                    ),
                    moved2,
                ),
            )
        },
        Expression::Let(let_) => {
            let inner_owned = owned_variables.with(let_.name.as_str());
            let (body2, body_moved) = convert_expression(&let_.expression, &inner_owned,
                moved_variables)?;
            let bound_moved = body_moved.without(&let_.name);
            let (bound2, moved2) = convert_expression(&let_.bound_expression, owned_variables,
                &bound_moved)?;
            let body3 = if body_moved.contains(&let_.name) {
                body2
            } else {
                drop_variables(body2, VariableSet::singleton(let_.name.as_str()))
            };
            Ok(
                (
                    Expression::Let(
                        Let {
                            name: let_.name.clone(),
                            type_: let_.type_.clone(),
                            bound_expression: Box::new(bound2),
                            expression: Box::new(body3),
                        },
                    ),
                    moved2,
                ),
            )
        },
        Expression::LetRecursive(let_) => convert_let_recursive(
            let_,
            owned_variables,
            moved_variables,
        ),
        Expression::Number(_) => Ok((expression.clone(), moved_variables.duplicate())),
        Expression::Record(record) => {
            proof {
                assert(record.elements@.take(record.elements.len() as int) =~= record.elements@);
            }
            let (elements2, moved2) = convert_list(
                &record.elements,
                record.elements.len(),
                owned_variables,
                moved_variables.duplicate(),
            )?;
            Ok(
                (
                    Expression::Record(
                        Record { type_: record.type_.clone(), elements: elements2 },
                    ),
                    moved2,
                ),
            )
        },
        Expression::RecordElement(element) => {
            let (record2, moved2) = convert_expression(&element.record, owned_variables,
                moved_variables)?;
            Ok(
                (
                    Expression::RecordElement(
                        RecordElement {
                            type_: element.type_.clone(),
                            index: element.index,
                            record: Box::new(record2),
                        },
                    ),
                    moved2,
                ),
            )
        },
        Expression::Variable(variable) => {
            if should_clone_variable(&variable.name, owned_variables, moved_variables) {
                Ok(
                    (
                        Expression::CloneVariables(
                            CloneVariables {
                                variables: VariableSet::singleton(variable.name.as_str()),
                                expression: Box::new(
                                    Expression::Variable(
                                        Variable { name: variable.name.clone() },
                                    ),
                                ),
                            },
                        ),
                        moved_variables.duplicate(),
                    ),
                )
            } else {
                Ok(
                    (
                        Expression::Variable(Variable { name: variable.name.clone() }),
                        moved_variables.with(variable.name.as_str()),
                    ),
                )
            }
        },
        Expression::Variant(variant) => {
            let (payload2, moved2) = convert_expression(&variant.payload, owned_variables,
                moved_variables)?;
            Ok(
                (
                    Expression::Variant(
                        Variant { type_: variant.type_.clone(), payload: Box::new(payload2) },
                    ),
                    moved2,
                ),
            )
        },
    }
}

/// Converts one definition: its body runs under the set it owns, and the
/// owned variables the body leaves unconsumed are dropped around it.
pub fn convert_definition(definition: &Definition) -> (r: Result<
    Definition,
    ReferenceCountError,
>)
    ensures
        match r {
            Ok(d2) => spec_convert_definition(definition@) == Some(d2@),
            Err(_) => spec_convert_definition(definition@) is None,
        },
    decreases *definition,
{
    let owned = owned_of(definition);
    let empty = VariableSet::new();
    let (body2, moved) = convert_expression(&definition.body, &owned, &empty)?;
    let body3 = drop_variables(body2, owned.difference(&moved));
    Ok(
        Definition {
            name: definition.name.clone(),
            environment: clone_arguments(&definition.environment),
            arguments: clone_arguments(&definition.arguments),
            body: Box::new(body3),
            result_type: definition.result_type.clone(),
            is_thunk: definition.is_thunk,
        },
    )
}

/// A converted definition list has the length of its input.
pub proof fn lemma_convert_definitions_len(ds: Seq<SpecDefinition>, rs: Seq<SpecDefinition>)
    requires
        spec_convert_definitions(ds) == Some(rs),
    ensures
        rs.len() == ds.len(),
    decreases ds.len(),
{
    if ds.len() > 0 {
        let rest = spec_convert_definitions(ds.drop_last());
        match rest {
            Some(rs0) => {
                lemma_convert_definitions_len(ds.drop_last(), rs0);
            },
            None => {},
        }
    }
}

proof fn lemma_convert_definitions_element_none(ds: Seq<SpecDefinition>, i: int)
    requires
        0 <= i < ds.len(),
        spec_convert_definition(ds[i]) is None,
    ensures
        spec_convert_definitions(ds) is None,
    decreases ds.len(),
{
    if i == ds.len() - 1 {
        assert(ds.last() == ds[i]);
    } else {
        assert(ds.drop_last()[i] == ds[i]);
        lemma_convert_definitions_element_none(ds.drop_last(), i);
    }
}

/// The reference-count annotation pass over a whole module. Closure
/// environments need to be inferred before reference counting. It fails
/// exactly where some definition's body already carries clone or drop
/// markers.
pub fn count_references(module: &Module) -> (r: Result<Module, ReferenceCountError>)
    ensures
        match r {
            Ok(m2) => spec_count_references(module@) == Some(m2@),
            Err(_) => spec_count_references(module@) is None,
        },
{
    let mut definitions: Vec<Definition> = Vec::new();
    let mut i: usize = 0;
    proof {
        assert(definitions_view(module.definitions@.take(0)) =~= Seq::<SpecDefinition>::empty());
        assert(definitions_view(definitions@) =~= Seq::<SpecDefinition>::empty());
    }
    while i < module.definitions.len()
        invariant
            0 <= i <= module.definitions.len(),
            spec_convert_definitions(definitions_view(module.definitions@.take(i as int))) == Some(
                definitions_view(definitions@),
            ),
        decreases module.definitions.len() - i,
    {
        let d2 = match convert_definition(&module.definitions[i]) {
            Ok(d2) => d2,
            Err(e) => {
                proof {
                    lemma_definitions_view(module.definitions@);
                    lemma_convert_definitions_element_none(
                        definitions_view(module.definitions@),
                        i as int,
                    );
                }
                return Err(e);
            },
        };
        let ghost defs0 = definitions@;
        definitions.push(d2);
        proof {
            assert(definitions@ == defs0.push(definitions@.last()));
            lemma_definitions_view_push(defs0, definitions@.last());
            assert(module.definitions@.take(i + 1 as int) =~= module.definitions@.take(
                i as int,
            ).push(module.definitions@[i as int]));
            lemma_definitions_view_push(
                module.definitions@.take(i as int),
                module.definitions@[i as int],
            );
            let dv = definitions_view(module.definitions@.take(i + 1 as int));
            assert(dv.drop_last() =~= definitions_view(module.definitions@.take(i as int)));
            assert(dv.last() == definition_view(module.definitions@[i as int]));
        }
        i += 1;
    }
    proof {
        assert(module.definitions@.take(module.definitions.len() as int) =~= module.definitions@);
    }
    Ok(
        Module {
            type_definitions: clone_type_definitions(&module.type_definitions),
            foreign_declarations: clone_foreign_declarations(&module.foreign_declarations),
            foreign_definitions: clone_foreign_definitions(&module.foreign_definitions),
            declarations: clone_declarations(&module.declarations),
            definitions,
        },
    )
}


/// Converts one case expression: the default and each alternative start
/// from the same incoming moved set; the union of what the paths moved is
/// handed to the scrutinee, and each path is balanced with drops.
#[verifier::rlimit(60)]
fn convert_case(
    case: &Case,
    owned_variables: &VariableSet,
    moved_variables: &VariableSet,
) -> (r: Result<(Expression, VariableSet), ReferenceCountError>)
    ensures
        match r {
            Ok((e2, m2)) => spec_convert(
                expression_view(Expression::Case(*case)),
                owned_variables@,
                moved_variables@,
            ) == Some((e2@, m2@)),
            Err(_) => spec_convert(
                expression_view(Expression::Case(*case)),
                owned_variables@,
                moved_variables@,
            ) is None,
        },
    decreases *case,
{

            let default2: Option<(DefaultAlternative, VariableSet)> = match &case
                .default_alternative {
                Some(default) => {
                    let inner_owned = owned_variables.with(default.name.as_str());
                    let (e2, m2) = convert_expression(
                        &default.expression,
                        &inner_owned,
                        moved_variables,
                    )?;
                    Some(
                        (
                            DefaultAlternative {
                                name: default.name.clone(),
                                expression: Box::new(e2),
                            },
                            m2,
                        ),
                    )
                },
                None => None,
            };
            proof {
                assert(case.alternatives@.take(case.alternatives.len() as int)
                    =~= case.alternatives@);
            }
            let ts = convert_alternatives(
                &case.alternatives,
                case.alternatives.len(),
                owned_variables,
                moved_variables,
            )?;
            let default_moved: VariableSet = match &default2 {
                Some((_, m)) => m.duplicate(),
                None => moved_variables.duplicate(),
            };
            let ghost pairs = alternative_pairs_view(ts@);
            let mut all_moved = default_moved.duplicate();
            let mut i: usize = 0;
            proof {
                assert(alternative_pairs_view(ts@.take(0)) =~= Seq::empty());
                assert(all_moved@ =~= default_moved@.union(
                    spec_alternatives_moved(alternative_pairs_view(ts@.take(0))),
                ));
            }
            while i < ts.len()
                invariant
                    0 <= i <= ts.len(),
                    all_moved@ == default_moved@.union(
                        spec_alternatives_moved(alternative_pairs_view(ts@.take(i as int))),
                    ),
                decreases ts.len() - i,
            {
                let ghost prefix = alternative_pairs_view(ts@.take(i as int));
                all_moved = all_moved.union(&ts[i].1);
                proof {
                    assert(alternative_pairs_view(ts@.take(i + 1 as int)) =~= prefix.push(
                        (alternative_view(ts@[i as int].0), ts@[i as int].1@),
                    ));
                    assert(alternative_pairs_view(ts@.take(i + 1 as int)).drop_last() =~= prefix);
                    assert(all_moved@ =~= default_moved@.union(
                        spec_alternatives_moved(alternative_pairs_view(ts@.take(i + 1 as int))),
                    ));
                }
                i += 1;
            }
            proof {
                assert(ts@.take(ts.len() as int) =~= ts@);
            }
            let (argument2, moved2) = convert_expression(&case.argument, owned_variables,
                &all_moved)?;
            let mut alternatives2: Vec<Alternative> = Vec::new();
            let mut j: usize = 0;
            while j < ts.len()
                invariant
                    0 <= j <= ts.len(),
                    pairs == alternative_pairs_view(ts@),
                    all_moved@ == default_moved@.union(spec_alternatives_moved(pairs)),
                    alternatives_view(alternatives2@) == spec_wrap_alternatives(
                        pairs,
                        all_moved@,
                    ).take(j as int),
                decreases ts.len() - j,
            {
                let ghost alts0 = alternatives2@;
                let (alternative, m) = &ts[j];
                let wrapped = drop_variables(
                    (*alternative.expression).clone(),
                    all_moved.difference(m),
                );
                alternatives2.push(
                    Alternative {
                        type_: alternative.type_.clone(),
                        name: alternative.name.clone(),
                        expression: Box::new(wrapped),
                    },
                );
                proof {
                    assert(alternatives2@ == alts0.push(alternatives2@.last()));
                    lemma_alternatives_view_push(alts0, alternatives2@.last());
                    assert(alternative_view(alternatives2@.last())
                        == spec_wrap_alternatives(pairs, all_moved@)[j as int]);
                    assert(alternatives_view(alternatives2@) =~= spec_wrap_alternatives(
                        pairs,
                        all_moved@,
                    ).take(j + 1 as int));
                }
                j += 1;
            }
            proof {
                assert(spec_wrap_alternatives(pairs, all_moved@).take(ts.len() as int)
                    =~= spec_wrap_alternatives(pairs, all_moved@));
            }
            let default3: Option<Box<DefaultAlternative>> = match default2 {
                Some((d, m)) => Some(
                    Box::new(
                        DefaultAlternative {
                            name: d.name,
                            expression: Box::new(
                                drop_variables(*d.expression, all_moved.difference(&m)),
                            ),
                        },
                    ),
                ),
                None => None,
            };
            Ok(
                (
                    Expression::Case(
                        Case {
                            argument: Box::new(argument2),
                            alternatives: alternatives2,
                            default_alternative: default3,
                        },
                    ),
                    moved2,
                ),
            )
}


/// Converts one recursive binding: the definition is converted on its own,
/// its environment variables count as moved in the enclosing scope, and
/// those the scope had already moved are cloned around the binding.
fn convert_let_recursive(
    let_: &LetRecursive,
    owned_variables: &VariableSet,
    moved_variables: &VariableSet,
) -> (r: Result<(Expression, VariableSet), ReferenceCountError>)
    ensures
        match r {
            Ok((e2, m2)) => spec_convert(
                expression_view(Expression::LetRecursive(*let_)),
                owned_variables@,
                moved_variables@,
            ) == Some((e2@, m2@)),
            Err(_) => spec_convert(
                expression_view(Expression::LetRecursive(*let_)),
                owned_variables@,
                moved_variables@,
            ) is None,
        },
    decreases *let_,
{
    let inner_owned = owned_variables.with(let_.definition.name.as_str());
    let (body2, body_moved) = match convert_expression(
        &let_.expression,
        &inner_owned,
        moved_variables,
    ) {
        Ok(p) => p,
        Err(e) => {
            proof {
                let sv = expression_view(Expression::LetRecursive(*let_));
                assert(inner_owned@ == owned_variables@.insert(let_.definition.name@));
                assert(spec_convert(
                    expression_view(*let_.expression),
                    owned_variables@.insert(let_.definition.name@),
                    moved_variables@,
                ) is None);
                assert(sv == SpecExpr::LetRecursive(
                    Box::new(definition_view(*let_.definition)),
                    Box::new(expression_view(*let_.expression)),
                ));
                assert(spec_convert(sv, owned_variables@, moved_variables@) is None);
            }
            return Err(e);
        },
    };
    let definition2 = convert_definition(&let_.definition)?;
    let cloned = cloned_environment(&let_.definition.environment, owned_variables, &body_moved);
    let body3 = if body_moved.contains(&let_.definition.name) {
        body2
    } else {
        drop_variables(body2, VariableSet::singleton(let_.definition.name.as_str()))
    };
    let inner = Expression::LetRecursive(
        LetRecursive { definition: Box::new(definition2), expression: Box::new(body3) },
    );
    let env_names = argument_names(&let_.definition.environment);
    let moved_out = body_moved.without(&let_.definition.name).union(&env_names);
    Ok((clone_variables(inner, cloned), moved_out))
}

} // verus!
