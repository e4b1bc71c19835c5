//! Making the elided scopes of a signature's inputs explicit.
//!
//! A walk over each input's type tree finds every place where a scope was left out (`&T`) or
//! written as the placeholder (`&'_ T`, `Cow<'_, str>`) and asks a resolver for a scope to
//! put there. Function pointers and callable bounds are not entered: a scope elided inside
//! them is quantified by each call, and naming it would change what the type means.

use vstd::prelude::*;
use crate::error::Error;
use crate::scopes_first;
use crate::naming::{AllocatorState, ScopeAllocator};
use crate::syntax::{
    Generics, InputParam, InputParamView, Position, Scope, ScopeView, Signature, SignatureView,
    TypeExpr, TypeView, inputs_view, scope_option_view, types_view,
};

verus! {

/// Whether a written scope is the placeholder `'_`.
pub open spec fn is_placeholder(scope: ScopeView) -> bool {
    scope.name == "'_"@
}

/// Something that decides which scope to put at an elided place.
///
/// A resolver is a state machine: its answer at a place, and the state it is in afterwards,
/// are functions of the state it was in before. The walk is specified over these two
/// functions alone.
pub trait Resolver: Sized {
    /// The mathematical state.
    type State;

    spec fn state(&self) -> Self::State;

    /// The states in which `resolve` may be called.
    spec fn valid(state: Self::State) -> bool;

    /// The scope handed out at `position`, if any.
    spec fn answer(state: Self::State, position: Position) -> Option<ScopeView>;

    /// The state after having been asked at `position`.
    spec fn successor(state: Self::State, position: Position) -> Self::State;

    fn resolve(&mut self, position: Position) -> (scope: Option<Scope>)
        requires
            Self::valid(old(self).state()),
        ensures
            Self::valid(final(self).state()),
            scope_option_view(scope) == Self::answer(old(self).state(), position),
            final(self).state() == Self::successor(old(self).state(), position),
    ;
}

/// A written scope after the walk has passed it: the placeholder gives way to the resolver's
/// answer, if there is one; any other scope stays, and the resolver is not asked.
pub open spec fn unelided_scope<R: Resolver>(scope: ScopeView, state: R::State) -> (
    ScopeView,
    R::State,
) {
    if is_placeholder(scope) {
        (
            match R::answer(state, scope.position) {
                Some(resolved) => resolved,
                None => scope,
            },
            R::successor(state, scope.position),
        )
    } else {
        (scope, state)
    }
}

/// The parts of a reference after the walk: the written scope comes first, then the referee,
/// and last the `&` itself, at `position`, if no scope was written at all.
pub open spec fn unelided_reference<R: Resolver>(
    position: Position,
    scope: Option<ScopeView>,
    referee: TypeView,
    state: R::State,
) -> (Option<ScopeView>, TypeView, R::State)
    decreases referee, 1int,
{
    match scope {
        Some(written) => {
            let (scope, state) = unelided_scope::<R>(written, state);
            let (referee, state) = unelided_type::<R>(referee, state);
            (Some(scope), referee, state)
        },
        None => {
            let (referee, state) = unelided_type::<R>(referee, state);
            (R::answer(state, position), referee, R::successor(state, position))
        },
    }
}

/// A type tree after the walk, together with the resolver's state after it.
///
/// Function pointers and callable bounds come out as they went in.
pub open spec fn unelided_type<R: Resolver>(ty: TypeView, state: R::State) -> (TypeView, R::State)
    decreases ty, 0int,
{
    match ty {
        TypeView::Reference { position, scope, mutable, referee } => {
            let (scope, referee, state) = unelided_reference::<R>(position, scope, *referee, state);
            (TypeView::Reference { position, scope, mutable, referee: Box::new(referee) }, state)
        },
        TypeView::ScopeArgument(scope) => {
            let (scope, state) = unelided_scope::<R>(scope, state);
            (TypeView::ScopeArgument(scope), state)
        },
        TypeView::FunctionPointer { .. } => (ty, state),
        TypeView::CallableBound { .. } => (ty, state),
        TypeView::Composite { form, children } => {
            let (children, state) = unelided_types::<R>(children, state);
            (TypeView::Composite { form, children }, state)
        },
    }
}

/// A sequence of type trees after the walk has gone through them from left to right.
pub open spec fn unelided_types<R: Resolver>(types: Seq<TypeView>, state: R::State) -> (
    Seq<TypeView>,
    R::State,
)
    decreases types, 0int,
{
    if types.len() == 0 {
        (Seq::empty(), state)
    } else {
        let (front, state) = unelided_types::<R>(types.drop_last(), state);
        let (last, state) = unelided_type::<R>(types.last(), state);
        (front.push(last), state)
    }
}

/// The inputs of a signature after the walk has gone through their types from left to right.
pub open spec fn unelided_inputs<R: Resolver>(inputs: Seq<InputParamView>, state: R::State) -> (
    Seq<InputParamView>,
    R::State,
)
    decreases inputs.len(),
{
    if inputs.len() == 0 {
        (Seq::empty(), state)
    } else {
        let (front, state) = unelided_inputs::<R>(inputs.drop_last(), state);
        let (ty, state) = unelided_type::<R>(inputs.last().ty, state);
        (front.push(InputParamView { pattern: inputs.last().pattern, ty }), state)
    }
}

/// The signature with every scope that its inputs elide given a name of its own, and each
/// of these names declared. Names are handed out in the order of the walk, starting at
/// number 0. The return type is not looked at.
pub open spec fn unelided_signature(sig: SignatureView) -> SignatureView {
    let (inputs, state) = unelided_inputs::<ScopeAllocator>(
        sig.inputs,
        AllocatorState { next: 0, generics: sig.generics },
    );
    SignatureView { generics: state.generics, inputs, ..sig }
}

/// Gives every scope that the inputs of `sig` elide a name of its own and declares it.
/// This never fails.
pub fn unelide_input_lifetimes(sig: &mut Signature) -> (result: Result<(), Error>)
    ensures
        result is Ok,
        final(sig)@ == unelided_signature(old(sig)@),
        scopes_first(old(sig)@.generics.params) ==> scopes_first(final(sig)@.generics.params),
{
    proof {
        if scopes_first(sig@.generics.params) {
            crate::guarantees::lemma_unelided_order(sig@);
        }
    }
    let mut generics = Generics { params: Vec::new(), predicates: Vec::new() };
    core::mem::swap(&mut sig.generics, &mut generics);
    let mut visitor = ElidedLifetimesVisitor {
        map_each_elided_lt: ScopeAllocator { next: 0, generics },
    };
    let ghost start = visitor.state();
    let ghost given = inputs_view(sig.inputs@);
    let n = sig.inputs.len();
    let mut i: usize = 0;
    while i < n
        invariant
            i <= n,
            n == sig.inputs.len(),
            n == given.len(),
            ScopeAllocator::valid(visitor.state()),
            sig.qualifiers == old(sig).qualifiers,
            sig.asyncness == old(sig).asyncness,
            sig.fn_position == old(sig).fn_position,
            sig.name == old(sig).name,
            sig.output == old(sig).output,
            inputs_view(sig.inputs@).skip(i as int) == given.skip(i as int),
            (inputs_view(sig.inputs@).take(i as int), visitor.state()) == unelided_inputs::<
                ScopeAllocator,
            >(given.take(i as int), start),
        decreases n - i,
    {
        let ghost previous = inputs_view(sig.inputs@);
        assert(previous[i as int] == previous.skip(i as int)[0]);
        visitor.visit_fn_arg_mut(&mut sig.inputs[i]);
        proof {
            let now = inputs_view(sig.inputs@);
            assert(given.take(i + 1).drop_last() =~= given.take(i as int));
            assert(now.skip(i + 1) =~= previous.skip(i as int).skip(1));
        }
        i += 1;
    }
    proof {
        assert(inputs_view(sig.inputs@).take(n as int) =~= inputs_view(sig.inputs@));
        assert(given.take(n as int) =~= given);
    }
    sig.generics = visitor.map_each_elided_lt.generics;
    Ok(())
}

/// The walk over a type tree, with the resolver it asks.
pub struct ElidedLifetimesVisitor<R: Resolver> {
    pub map_each_elided_lt: R,
}

impl<R: Resolver> ElidedLifetimesVisitor<R> {
    pub open spec fn state(&self) -> R::State {
        self.map_each_elided_lt.state()
    }

    /// A written scope: `'_` is resolved, anything else is left alone.
    pub fn visit_lifetime_mut(&mut self, lt: &mut Scope)
        requires
            R::valid(old(self).state()),
        ensures
            R::valid(final(self).state()),
            (final(lt)@, final(self).state()) == unelided_scope::<R>(old(lt)@, old(self).state()),
    {
        let placeholder = String::from_str("'_");
        if lt.name == placeholder {
            match self.map_each_elided_lt.resolve(lt.position) {
                Some(new_lt) => {
                    *lt = new_lt;
                },
                None => {},
            }
        }
    }

    /// `fn(..) -> ..`: nothing inside is touched.
    pub fn visit_type_bare_fn_mut(
        &mut self,
        inputs: &mut Vec<TypeExpr>,
        output: &mut Option<Box<TypeExpr>>,
    )
        ensures
            *final(self) == *old(self),
            *final(inputs) == *old(inputs),
            *final(output) == *old(output),
    {
    }

    /// `Fn(..) -> ..`: nothing inside is touched.
    pub fn visit_parenthesized_generic_arguments_mut(
        &mut self,
        inputs: &mut Vec<TypeExpr>,
        output: &mut Option<Box<TypeExpr>>,
    )
        ensures
            *final(self) == *old(self),
            *final(inputs) == *old(inputs),
            *final(output) == *old(output),
    {
    }

    /// A reference, given by its parts: the written scope if any, then the referee, then the
    /// `&` at `position` if no scope was written.
    pub fn visit_type_reference_mut(
        &mut self,
        position: Position,
        scope: &mut Option<Scope>,
        referee: &mut TypeExpr,
    )
        requires
            R::valid(old(self).state()),
        ensures
            R::valid(final(self).state()),
            (scope_option_view(*final(scope)), final(referee)@, final(self).state())
                == unelided_reference::<R>(
                position,
                scope_option_view(*old(scope)),
                old(referee)@,
                old(self).state(),
            ),
        decreases *old(referee), 1int,
    {
        match scope {
            Some(lt) => {
                self.visit_lifetime_mut(lt);
            },
            None => {},
        }
        self.visit_type_mut(referee);
        if scope.is_none() {
            *scope = self.map_each_elided_lt.resolve(position);
        }
    }

    /// An input of the function: its type is walked, its pattern is not looked at.
    pub fn visit_fn_arg_mut(&mut self, arg: &mut InputParam)
        requires
            R::valid(old(self).state()),
        ensures
            R::valid(final(self).state()),
            final(arg).pattern == old(arg).pattern,
            (final(arg).ty@, final(self).state()) == unelided_type::<R>(
                old(arg).ty@,
                old(self).state(),
            ),
    {
        self.visit_type_mut(&mut arg.ty);
    }

    /// Any node of a type tree.
    pub fn visit_type_mut(&mut self, ty: &mut TypeExpr)
        requires
            R::valid(old(self).state()),
        ensures
            R::valid(final(self).state()),
            (final(ty)@, final(self).state()) == unelided_type::<R>(old(ty)@, old(self).state()),
        decreases *old(ty), 0int,
    {
        match ty {
            TypeExpr::Reference { position, scope, mutable, referee } => {
                self.visit_type_reference_mut(*position, scope, &mut **referee);
            },
            TypeExpr::ScopeArgument(scope) => {
                self.visit_lifetime_mut(scope);
            },
            TypeExpr::FunctionPointer { qualifiers, inputs, output } => {
                self.visit_type_bare_fn_mut(inputs, output);
            },
            TypeExpr::CallableBound { inputs, output } => {
                self.visit_parenthesized_generic_arguments_mut(inputs, output);
            },
            TypeExpr::Composite { form, children } => {
                let ghost before = *children;
                let ghost start = self.state();
                let n = children.len();
                let mut i: usize = 0;
                while i < n
                    invariant
                        i <= n,
                        n == children.len(),
                        n == before.len(),
                        R::valid(self.state()),
                        forall|j: int| i <= j < n ==> children[j] == before[j],
                        forall|j: int| 0 <= j < n ==> decreases_to!(*old(ty) => #[trigger] before[j]),
                        (types_view(children@).take(i as int), self.state()) == unelided_types::<R>(
                            types_view(before@).take(i as int),
                            start,
                        ),
                    decreases n - i,
                {
                    assert(children[i as int] == before[i as int]);
                    self.visit_type_mut(&mut children[i]);
                    proof {
                        let given = types_view(before@);
                        assert(given.take(i + 1).drop_last() =~= given.take(i as int));
                    }
                    i += 1;
                }
                proof {
                    assert(types_view(children@).take(n as int) =~= types_view(children@));
                    assert(types_view(before@).take(n as int) =~= types_view(before@));
                }
            },
        }
    }
}

/// Whatever holds of a resolver's state before it is asked, and still holds after each
/// answer, holds after the walk over a type tree.
pub proof fn lemma_walk_keeps<R: Resolver>(
    ty: TypeView,
    state: R::State,
    keeps: spec_fn(R::State) -> bool,
)
    requires
        keeps(state),
        forall|s: R::State, p: Position| keeps(s) ==> keeps(#[trigger] R::successor(s, p)),
    ensures
        keeps(unelided_type::<R>(ty, state).1),
    decreases ty, 0int,
{
    match ty {
        TypeView::Reference { position, scope, mutable, referee } => {
            match scope {
                Some(written) => {
                    let (_, after_scope) = unelided_scope::<R>(written, state);
                    lemma_walk_keeps::<R>(*referee, after_scope, keeps);
                },
                None => {
                    lemma_walk_keeps::<R>(*referee, state, keeps);
                },
            }
        },
        TypeView::ScopeArgument(_) => {},
        TypeView::FunctionPointer { .. } => {},
        TypeView::CallableBound { .. } => {},
        TypeView::Composite { form, children } => {
            lemma_walk_over_types_keeps::<R>(children, state, keeps);
        },
    }
}

/// The same for the walk over a sequence of type trees.
pub proof fn lemma_walk_over_types_keeps<R: Resolver>(
    types: Seq<TypeView>,
    state: R::State,
    keeps: spec_fn(R::State) -> bool,
)
    requires
        keeps(state),
        forall|s: R::State, p: Position| keeps(s) ==> keeps(#[trigger] R::successor(s, p)),
    ensures
        keeps(unelided_types::<R>(types, state).1),
    decreases types, 1int,
{
    if types.len() > 0 {
        lemma_walk_over_types_keeps::<R>(types.drop_last(), state, keeps);
        let (_, after_front) = unelided_types::<R>(types.drop_last(), state);
        lemma_walk_keeps::<R>(types.last(), after_front, keeps);
    }
}

/// The same for the walk over the inputs of a signature.
pub proof fn lemma_walk_over_inputs_keeps<R: Resolver>(
    inputs: Seq<InputParamView>,
    state: R::State,
    keeps: spec_fn(R::State) -> bool,
)
    requires
        keeps(state),
        forall|s: R::State, p: Position| keeps(s) ==> keeps(#[trigger] R::successor(s, p)),
    ensures
        keeps(unelided_inputs::<R>(inputs, state).1),
    decreases inputs.len(),
{
    if inputs.len() > 0 {
        lemma_walk_over_inputs_keeps::<R>(inputs.drop_last(), state, keeps);
        let (_, after_front) = unelided_inputs::<R>(inputs.drop_last(), state);
        lemma_walk_keeps::<R>(inputs.last().ty, after_front, keeps);
    }
}

} // verus!
