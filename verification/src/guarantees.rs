//! What holds of every rewrite, proved from the definitions that the contracts are stated in.

use vstd::prelude::*;
use crate::{
    boxed, expanded, expansion_view, future_marker, future_scope_name, outlives_constraint,
    outlives_constraints, parse_result_view, result_scope, rewrite_result_view, scope_count,
    scope_param, scopes_first, transformed,
};
use crate::error::{Diagnostic, Error, ParseFailure};
use crate::lifetime_elision::{
    Resolver, lemma_walk_over_inputs_keeps, unelided_inputs, unelided_scope, unelided_signature,
    unelided_type, unelided_types,
};
use crate::naming::{
    AllocatorState, ScopeAllocator, allocated_scope, declares, elided_marker, lemma_first_free,
    names_scope,
};
use crate::syntax::{
    AttributeArgument, Declaration, DeclarationView, GenericParamView, InputParamView, Position,
    ScopeView, SignatureView, TypeView, arguments_view,
};

verus! {

/// Rewriting is a function of the values of its inputs: two runs of `async_fn_boxed_inner`
/// on arguments and inputs of the same value end in results of the same value, be it the
/// rewritten declaration or the error. What is required of each run is what the contract
/// of `async_fn_boxed_inner` ensures of it.
pub proof fn lemma_rewrite_is_deterministic(
    args: Vec<AttributeArgument>,
    input: Result<Declaration, ParseFailure>,
    result: Result<Declaration, Error>,
    args_again: Vec<AttributeArgument>,
    input_again: Result<Declaration, ParseFailure>,
    result_again: Result<Declaration, Error>,
)
    requires
        arguments_view(args@) == arguments_view(args_again@),
        parse_result_view(input) == parse_result_view(input_again),
        rewrite_result_view(result) == transformed(arguments_view(args@), parse_result_view(input)),
        rewrite_result_view(result_again) == transformed(
            arguments_view(args_again@),
            parse_result_view(input_again),
        ),
    ensures
        rewrite_result_view(result) == rewrite_result_view(result_again),
{
}

/// The same holds of `async_fn_boxed`: the same values give the same expansion, be it the
/// rewritten declaration or the diagnostic.
pub proof fn lemma_expansion_is_deterministic(
    args: Vec<AttributeArgument>,
    input: Result<Declaration, ParseFailure>,
    result: Result<Declaration, Diagnostic>,
    args_again: Vec<AttributeArgument>,
    input_again: Result<Declaration, ParseFailure>,
    result_again: Result<Declaration, Diagnostic>,
)
    requires
        arguments_view(args@) == arguments_view(args_again@),
        parse_result_view(input) == parse_result_view(input_again),
        expansion_view(result) == expanded(arguments_view(args@), parse_result_view(input)),
        expansion_view(result_again) == expanded(
            arguments_view(args_again@),
            parse_result_view(input_again),
        ),
    ensures
        expansion_view(result) == expansion_view(result_again),
{
}

/// How many scope parameters of a list have the given name.
pub open spec fn occurrences(params: Seq<GenericParamView>, name: Seq<char>) -> nat
    decreases params.len(),
{
    if params.len() == 0 {
        0
    } else {
        occurrences(params.drop_last(), name) + if names_scope(params.last(), name) {
            1nat
        } else {
            0nat
        }
    }
}

/// A name is declared if and only if it occurs.
pub proof fn lemma_occurrences_declares(params: Seq<GenericParamView>, name: Seq<char>)
    ensures
        declares(params, name) <==> occurrences(params, name) > 0,
    decreases params.len(),
{
    if params.len() > 0 {
        let front = params.drop_last();
        lemma_occurrences_declares(front, name);
        if declares(params, name) {
            let i = choose|i: int| 0 <= i < params.len() && names_scope(#[trigger] params[i], name);
            if i < front.len() {
                assert(names_scope(front[i], name));
            }
        }
        if occurrences(params, name) > 0 && !names_scope(params.last(), name) {
            let i = choose|i: int| 0 <= i < front.len() && names_scope(#[trigger] front[i], name);
            assert(names_scope(params[i], name));
        }
    }
}

/// Putting a parameter into a list adds one occurrence of its name, if it is a scope
/// parameter, and none of any other name.
pub proof fn lemma_occurrences_insert(
    params: Seq<GenericParamView>,
    at: int,
    param: GenericParamView,
    name: Seq<char>,
)
    requires
        0 <= at <= params.len(),
    ensures
        occurrences(params.insert(at, param), name) == occurrences(params, name) + if names_scope(
            param,
            name,
        ) {
            1nat
        } else {
            0nat
        },
    decreases params.len(),
{
    let longer = params.insert(at, param);
    if at == params.len() {
        assert(longer.drop_last() =~= params);
    } else {
        assert(longer.drop_last() =~= params.drop_last().insert(at, param));
        lemma_occurrences_insert(params.drop_last(), at, param, name);
    }
}

/// Whether every name occurs in `after` as often as in `before`, but for names that do not
/// occur in `before` at all and occur in `after` once.
pub open spec fn adds_only_fresh_names(
    before: Seq<GenericParamView>,
    after: Seq<GenericParamView>,
) -> bool {
    forall|name: Seq<char>|
        {
            ||| #[trigger] occurrences(after, name) == occurrences(before, name)
            ||| occurrences(before, name) == 0 && occurrences(after, name) == 1
        }
}

/// Declaring one more scope under a name that is not declared adds only fresh names.
proof fn lemma_fresh_name_added(
    given: Seq<GenericParamView>,
    params: Seq<GenericParamView>,
    at: int,
    scope: ScopeView,
)
    requires
        adds_only_fresh_names(given, params),
        !declares(params, scope.name),
        0 <= at <= params.len(),
    ensures
        adds_only_fresh_names(given, params.insert(at, scope_param(scope))),
{
    let longer = params.insert(at, scope_param(scope));
    assert forall|name: Seq<char>|
        {
            ||| #[trigger] occurrences(longer, name) == occurrences(given, name)
            ||| occurrences(given, name) == 0 && occurrences(longer, name) == 1
        } by {
        lemma_occurrences_insert(params, at, scope_param(scope), name);
        lemma_occurrences_declares(params, scope.name);
    }
}

/// The name of the future's scope is not declared by the parameters it was chosen against.
pub proof fn lemma_future_scope_name_is_free(params: Seq<GenericParamView>)
    ensures
        !declares(params, future_scope_name(params)),
{
    lemma_first_free(params, future_marker(), 0);
}

/// Making the elided scopes explicit declares each new name once, under a name that was
/// not declared before, and leaves the declared names as they are.
pub proof fn lemma_unelided_names_are_fresh(sig: SignatureView)
    ensures
        adds_only_fresh_names(sig.generics.params, unelided_signature(sig).generics.params),
{
    let given = sig.generics.params;
    let keeps = |s: AllocatorState| adds_only_fresh_names(given, s.generics.params);
    let start = AllocatorState { next: 0, generics: sig.generics };
    assert forall|s: AllocatorState, p: Position| keeps(s) implies keeps(
        #[trigger] ScopeAllocator::successor(s, p),
    ) by {
        lemma_first_free(s.generics.params, elided_marker(), s.next);
        crate::lemma_scope_count_bounded(s.generics.params);
        lemma_fresh_name_added(
            given,
            s.generics.params,
            scope_count(s.generics.params) as int,
            allocated_scope(s, p),
        );
    }
    lemma_walk_over_inputs_keeps::<ScopeAllocator>(sig.inputs, start, keeps);
}

/// No scope that the rewrite declares collides with a scope declared before it or with
/// another one that it declares: whatever the name, the rewritten declaration declares it
/// as often as the given one, or once where the given one does not declare it.
pub proof fn lemma_new_names_are_fresh(decl: DeclarationView)
    requires
        decl.sig.asyncness is Some,
    ensures
        adds_only_fresh_names(decl.sig.generics.params, boxed(decl).sig.generics.params),
{
    let sig = SignatureView { asyncness: None, ..decl.sig };
    let unelided = unelided_signature(sig).generics.params;
    lemma_unelided_names_are_fresh(sig);
    lemma_future_scope_name_is_free(unelided);
    lemma_fresh_name_added(decl.sig.generics.params, unelided, 0, result_scope(decl));
}

/// Where the given declaration declares no name twice, neither does the rewritten one.
pub proof fn lemma_distinct_names_stay_distinct(decl: DeclarationView)
    requires
        decl.sig.asyncness is Some,
        forall|name: Seq<char>| #[trigger] occurrences(decl.sig.generics.params, name) <= 1,
    ensures
        forall|name: Seq<char>| #[trigger] occurrences(boxed(decl).sig.generics.params, name) <= 1,
{
    lemma_new_names_are_fresh(decl);
    assert forall|name: Seq<char>| #[trigger]
        occurrences(boxed(decl).sig.generics.params, name) <= 1 by {
        assert(occurrences(decl.sig.generics.params, name) <= 1);
    }
}

/// In a list with the scope parameters in front, they are the first `scope_count` ones.
pub proof fn lemma_scopes_in_front(params: Seq<GenericParamView>)
    requires
        scopes_first(params),
    ensures
        forall|i: int|
            0 <= i < params.len() ==> ((#[trigger] params[i]) is Scope <==> i < scope_count(params)),
    decreases params.len(),
{
    if params.len() > 0 {
        let front = params.drop_last();
        assert forall|i: int, j: int|
            0 <= i < j < front.len() && (#[trigger] front[j]) is Scope implies (#[trigger] front[i]) is Scope by {
            assert(params[j] is Scope);
        }
        lemma_scopes_in_front(front);
        crate::lemma_scope_count_bounded(front);
        if params.last() is Scope && front.len() > 0 {
            assert(front[front.len() - 1] is Scope);
        }
        assert forall|i: int| 0 <= i < params.len() implies ((#[trigger] params[i]) is Scope <==> i
            < scope_count(params)) by {
            if i < front.len() {
                assert(front[i] == params[i]);
            }
        }
    }
}

/// A scope parameter put behind the scope parameters of a list keeps them in front.
pub proof fn lemma_order_kept_behind_scopes(params: Seq<GenericParamView>, scope: ScopeView)
    requires
        scopes_first(params),
    ensures
        scopes_first(params.insert(scope_count(params) as int, scope_param(scope))),
{
    lemma_scopes_in_front(params);
    crate::lemma_scope_count_bounded(params);
    let at = scope_count(params) as int;
    let longer = params.insert(at, scope_param(scope));
    assert forall|i: int, j: int|
        0 <= i < j < longer.len() && (#[trigger] longer[j]) is Scope implies (#[trigger] longer[i]) is Scope by {
        if j > at {
            assert(longer[j] == params[j - 1]);
        }
        if i > at {
            assert(longer[i] == params[i - 1]);
        }
    }
}

/// A scope parameter put in front of a list keeps its scope parameters in front.
pub proof fn lemma_order_kept_in_front(params: Seq<GenericParamView>, scope: ScopeView)
    requires
        scopes_first(params),
    ensures
        scopes_first(params.insert(0, scope_param(scope))),
{
    let longer = params.insert(0, scope_param(scope));
    assert forall|i: int, j: int|
        0 <= i < j < longer.len() && (#[trigger] longer[j]) is Scope implies (#[trigger] longer[i]) is Scope by {
        assert(longer[j] == params[j - 1]);
    }
}

/// Making the elided scopes explicit keeps the scope parameters in front of the others.
pub proof fn lemma_unelided_order(sig: SignatureView)
    requires
        scopes_first(sig.generics.params),
    ensures
        scopes_first(unelided_signature(sig).generics.params),
{
    let keeps = |s: AllocatorState| scopes_first(s.generics.params);
    let start = AllocatorState { next: 0, generics: sig.generics };
    assert forall|s: AllocatorState, p: Position| keeps(s) implies keeps(
        #[trigger] ScopeAllocator::successor(s, p),
    ) by {
        lemma_order_kept_behind_scopes(s.generics.params, allocated_scope(s, p));
    }
    lemma_walk_over_inputs_keeps::<ScopeAllocator>(sig.inputs, start, keeps);
}

/// In the rewritten declaration the scope of the future is the first parameter of all, and
/// where the given declaration has its scope parameters in front of its type and const
/// parameters, so has the rewritten one.
pub proof fn lemma_order_of_parameters(decl: DeclarationView)
    requires
        decl.sig.asyncness is Some,
    ensures
        boxed(decl).sig.generics.params.len() > 0,
        boxed(decl).sig.generics.params[0] == scope_param(result_scope(decl)),
        scopes_first(decl.sig.generics.params) ==> scopes_first(boxed(decl).sig.generics.params),
{
    let sig = SignatureView { asyncness: None, ..decl.sig };
    if scopes_first(decl.sig.generics.params) {
        lemma_unelided_order(sig);
        lemma_order_kept_in_front(unelided_signature(sig).generics.params, result_scope(decl));
    }
}

/// Every parameter of a list but the const parameters has its constraint among the
/// constraints of the list.
pub proof fn lemma_constraints_complete(params: Seq<GenericParamView>, bound: ScopeView, i: int)
    requires
        0 <= i < params.len(),
        !(params[i] is Const),
    ensures
        outlives_constraint(params[i], bound) is Some,
        outlives_constraints(params, bound).contains(outlives_constraint(params[i], bound)->Some_0),
    decreases params.len(),
{
    let front = params.drop_last();
    let all = outlives_constraints(params, bound);
    let wanted = outlives_constraint(params[i], bound)->Some_0;
    if i == params.len() - 1 {
        assert(all.last() == wanted);
    } else {
        lemma_constraints_complete(front, bound, i);
        let earlier = outlives_constraints(front, bound);
        let at = choose|at: int| 0 <= at < earlier.len() && earlier[at] == wanted;
        assert(all[at] == wanted);
    }
}

/// The number of const parameters in a parameter list.
pub open spec fn const_count(params: Seq<GenericParamView>) -> nat
    decreases params.len(),
{
    if params.len() == 0 {
        0
    } else {
        const_count(params.drop_last()) + if params.last() is Const {
            1nat
        } else {
            0nat
        }
    }
}

/// The constraints of a list are as many as its scope and type parameters: one for each.
pub proof fn lemma_one_constraint_for_each(params: Seq<GenericParamView>, bound: ScopeView)
    ensures
        outlives_constraints(params, bound).len() + const_count(params) == params.len(),
    decreases params.len(),
{
    if params.len() > 0 {
        lemma_one_constraint_for_each(params.drop_last(), bound);
    }
}

/// Every scope and type parameter of the rewritten declaration, but for the scope of the
/// future itself, is bound by a predicate to outlive the scope of the future.
pub proof fn lemma_every_parameter_outlives_the_future(decl: DeclarationView, i: int)
    requires
        decl.sig.asyncness is Some,
        0 < i < boxed(decl).sig.generics.params.len(),
        !(boxed(decl).sig.generics.params[i] is Const),
    ensures
        outlives_constraint(boxed(decl).sig.generics.params[i], result_scope(decl)) is Some,
        boxed(decl).sig.generics.predicates.contains(
            outlives_constraint(boxed(decl).sig.generics.params[i], result_scope(decl))->Some_0,
        ),
{
    let sig = SignatureView { asyncness: None, ..decl.sig };
    let unelided = unelided_signature(sig).generics;
    let future = result_scope(decl);
    lemma_constraints_complete(unelided.params, future, i - 1);
    let added = outlives_constraints(unelided.params, future);
    let wanted = outlives_constraint(unelided.params[i - 1], future)->Some_0;
    let at = choose|at: int| 0 <= at < added.len() && added[at] == wanted;
    assert((unelided.predicates + added)[unelided.predicates.len() + at] == wanted);
}

/// The rewrite keeps the predicates that were written and adds one for each scope and type
/// parameter other than the scope of the future, and no more.
pub proof fn lemma_predicates_added(decl: DeclarationView)
    requires
        decl.sig.asyncness is Some,
    ensures
        ({
            let given = decl.sig.generics.predicates;
            let all = boxed(decl).sig.generics.predicates;
            let params = boxed(decl).sig.generics.params;
            &&& all.subrange(0, given.len() as int) == given
            &&& all.len() - given.len() + const_count(params) + 1 == params.len()
        }),
{
    let sig = SignatureView { asyncness: None, ..decl.sig };
    let unelided = unelided_signature(sig).generics;
    let future = result_scope(decl);
    lemma_one_constraint_for_each(unelided.params, future);
    lemma_walk_over_inputs_keeps::<ScopeAllocator>(
        sig.inputs,
        AllocatorState { next: 0, generics: sig.generics },
        |s: AllocatorState| s.generics.predicates == sig.generics.predicates,
    );
    lemma_const_count_insert(unelided.params, 0, scope_param(future));
}

/// Putting a scope parameter into a list leaves the number of const parameters as it is.
pub proof fn lemma_const_count_insert(
    params: Seq<GenericParamView>,
    at: int,
    param: GenericParamView,
)
    requires
        0 <= at <= params.len(),
        !(param is Const),
    ensures
        const_count(params.insert(at, param)) == const_count(params),
    decreases params.len(),
{
    let longer = params.insert(at, param);
    if at == params.len() {
        assert(longer.drop_last() =~= params);
    } else {
        assert(longer.drop_last() =~= params.drop_last().insert(at, param));
        lemma_const_count_insert(params.drop_last(), at, param);
    }
}

/// The function pointers and callable bounds of a type tree that the walk comes to, in the
/// order in which it comes to them.
pub open spec fn opaque_nodes(ty: TypeView) -> Seq<TypeView>
    decreases ty, 0int,
{
    match ty {
        TypeView::Reference { referee, .. } => opaque_nodes(*referee),
        TypeView::ScopeArgument(_) => Seq::empty(),
        TypeView::FunctionPointer { .. } => seq![ty],
        TypeView::CallableBound { .. } => seq![ty],
        TypeView::Composite { children, .. } => opaque_nodes_of_types(children),
    }
}

pub open spec fn opaque_nodes_of_types(types: Seq<TypeView>) -> Seq<TypeView>
    decreases types, 1int,
{
    if types.len() == 0 {
        Seq::empty()
    } else {
        opaque_nodes_of_types(types.drop_last()) + opaque_nodes(types.last())
    }
}

pub open spec fn opaque_nodes_of_inputs(inputs: Seq<InputParamView>) -> Seq<TypeView>
    decreases inputs.len(),
{
    if inputs.len() == 0 {
        Seq::empty()
    } else {
        opaque_nodes_of_inputs(inputs.drop_last()) + opaque_nodes(inputs.last().ty)
    }
}

/// At a function pointer or a callable bound the walk changes nothing, whatever scopes are
/// elided inside, and does not ask the resolver.
pub proof fn lemma_opaque_node_untouched<R: Resolver>(ty: TypeView, state: R::State)
    requires
        ty is FunctionPointer || ty is CallableBound,
    ensures
        unelided_type::<R>(ty, state) == (ty, state),
{
}

/// The walk leaves every function pointer and callable bound that it comes to as it is.
pub proof fn lemma_walk_keeps_opaque_nodes<R: Resolver>(ty: TypeView, state: R::State)
    ensures
        opaque_nodes(unelided_type::<R>(ty, state).0) == opaque_nodes(ty),
    decreases ty, 0int,
{
    match ty {
        TypeView::Reference { position, scope, mutable, referee } => {
            match scope {
                Some(written) => {
                    let (_, after_scope) = unelided_scope::<R>(written, state);
                    lemma_walk_keeps_opaque_nodes::<R>(*referee, after_scope);
                },
                None => {
                    lemma_walk_keeps_opaque_nodes::<R>(*referee, state);
                },
            }
        },
        TypeView::ScopeArgument(_) => {},
        TypeView::FunctionPointer { .. } => {},
        TypeView::CallableBound { .. } => {},
        TypeView::Composite { form, children } => {
            lemma_walk_over_types_keeps_opaque_nodes::<R>(children, state);
        },
    }
}

pub proof fn lemma_walk_over_types_keeps_opaque_nodes<R: Resolver>(
    types: Seq<TypeView>,
    state: R::State,
)
    ensures
        unelided_types::<R>(types, state).0.len() == types.len(),
        opaque_nodes_of_types(unelided_types::<R>(types, state).0) == opaque_nodes_of_types(types),
    decreases types, 1int,
{
    if types.len() > 0 {
        let (front, after_front) = unelided_types::<R>(types.drop_last(), state);
        let (last, _) = unelided_type::<R>(types.last(), after_front);
        lemma_walk_over_types_keeps_opaque_nodes::<R>(types.drop_last(), state);
        lemma_walk_keeps_opaque_nodes::<R>(types.last(), after_front);
        assert(front.push(last).drop_last() =~= front);
    }
}

pub proof fn lemma_walk_over_inputs_keeps_opaque_nodes<R: Resolver>(
    inputs: Seq<InputParamView>,
    state: R::State,
)
    ensures
        unelided_inputs::<R>(inputs, state).0.len() == inputs.len(),
        opaque_nodes_of_inputs(unelided_inputs::<R>(inputs, state).0) == opaque_nodes_of_inputs(
            inputs,
        ),
    decreases inputs.len(),
{
    if inputs.len() > 0 {
        let (front, after_front) = unelided_inputs::<R>(inputs.drop_last(), state);
        let (ty, _) = unelided_type::<R>(inputs.last().ty, after_front);
        lemma_walk_over_inputs_keeps_opaque_nodes::<R>(inputs.drop_last(), state);
        lemma_walk_keeps_opaque_nodes::<R>(inputs.last().ty, after_front);
        let last = InputParamView { pattern: inputs.last().pattern, ty };
        assert(front.push(last).drop_last() =~= front);
    }
}

/// The rewrite leaves every function pointer and callable bound in the types of the inputs
/// as it is: no scope elided inside one is ever given a name.
pub proof fn lemma_rewrite_keeps_opaque_nodes(decl: DeclarationView)
    requires
        decl.sig.asyncness is Some,
    ensures
        boxed(decl).sig.inputs.len() == decl.sig.inputs.len(),
        opaque_nodes_of_inputs(boxed(decl).sig.inputs) == opaque_nodes_of_inputs(decl.sig.inputs),
{
    let start = AllocatorState { next: 0, generics: decl.sig.generics };
    lemma_walk_over_inputs_keeps_opaque_nodes::<ScopeAllocator>(decl.sig.inputs, start);
}

/// The scope of the future is declared exactly once by the rewritten declaration, under a
/// name that nothing declared before.
pub proof fn lemma_result_scope_is_declared_once(decl: DeclarationView)
    requires
        decl.sig.asyncness is Some,
    ensures
        occurrences(decl.sig.generics.params, result_scope(decl).name) == 0,
        occurrences(boxed(decl).sig.generics.params, result_scope(decl).name) == 1,
{
    let sig = SignatureView { asyncness: None, ..decl.sig };
    let unelided = unelided_signature(sig).generics.params;
    let name = result_scope(decl).name;
    lemma_unelided_names_are_fresh(sig);
    lemma_future_scope_name_is_free(unelided);
    lemma_occurrences_declares(unelided, name);
    lemma_occurrences_insert(unelided, 0, scope_param(result_scope(decl)), name);
}

/// With a resolver that never has an answer, the walk leaves a type tree as it is.
pub proof fn lemma_unanswered_places_stay<R: Resolver>(ty: TypeView, state: R::State)
    requires
        forall|s: R::State, p: Position| (#[trigger] R::answer(s, p)) is None,
    ensures
        unelided_type::<R>(ty, state).0 == ty,
    decreases ty, 0int,
{
    match ty {
        TypeView::Reference { position, scope, mutable, referee } => {
            match scope {
                Some(written) => {
                    let (_, after_scope) = unelided_scope::<R>(written, state);
                    lemma_unanswered_places_stay::<R>(*referee, after_scope);
                },
                None => {
                    lemma_unanswered_places_stay::<R>(*referee, state);
                },
            }
        },
        TypeView::ScopeArgument(_) => {},
        TypeView::FunctionPointer { .. } => {},
        TypeView::CallableBound { .. } => {},
        TypeView::Composite { form, children } => {
            lemma_unanswered_places_stay_in_types::<R>(children, state);
        },
    }
}

pub proof fn lemma_unanswered_places_stay_in_types<R: Resolver>(
    types: Seq<TypeView>,
    state: R::State,
)
    requires
        forall|s: R::State, p: Position| (#[trigger] R::answer(s, p)) is None,
    ensures
        unelided_types::<R>(types, state).0 == types,
    decreases types, 1int,
{
    if types.len() > 0 {
        let (_, after_front) = unelided_types::<R>(types.drop_last(), state);
        lemma_unanswered_places_stay_in_types::<R>(types.drop_last(), state);
        lemma_unanswered_places_stay::<R>(types.last(), after_front);
    }
}

} // verus!
