//! Turning an `async fn` into a function that returns its future boxed.
//!
//! The rewrite works on the syntax tree of a function declaration. It gives a name to every
//! scope that the inputs leave out, adds one more scope parameter for the returned future,
//! bounds that future's scope by every other scope and type parameter, and wraps the body in
//! `Box::pin(async move { .. })`.

use vstd::prelude::*;
use crate::error::{Diagnostic, DiagnosticView, Error, ErrorView, ParseFailure, ParseFailureView, diagnostic_of};
use crate::lifetime_elision::{unelide_input_lifetimes, unelided_signature};
use crate::naming::{declares, declares_scope, first_free, first_free_name, numbered_name};
use crate::syntax::{
    AttributeArgument, AttributeArgumentView, Body, BodyView, Declaration, DeclarationView, Form,
    FormView, GenericParam, GenericParamView, Generics, GenericsView, Position, Predicate,
    PredicateView, Scope, ScopeView, SignatureView, Statement, StatementView, Subject,
    SubjectView, TypeExpr, TypeView, arguments_view, params_view, predicates_view,
    statements_view, types_view,
};

pub mod error;
pub mod guarantees;
pub mod lifetime_elision;
pub mod naming;
pub mod syntax;

verus! {

/// The number of scope parameters in a parameter list.
pub open spec fn scope_count(params: Seq<GenericParamView>) -> nat
    decreases params.len(),
{
    if params.len() == 0 {
        0
    } else {
        scope_count(params.drop_last()) + if params.last() is Scope {
            1nat
        } else {
            0nat
        }
    }
}

/// A parameter list has no more scope parameters than parameters.
pub proof fn lemma_scope_count_bounded(params: Seq<GenericParamView>)
    ensures
        scope_count(params) <= params.len(),
    decreases params.len(),
{
    if params.len() > 0 {
        lemma_scope_count_bounded(params.drop_last());
    }
}

/// Whether all scope parameters stand in front of all type and const parameters, as a
/// declaration must have them.
pub open spec fn scopes_first(params: Seq<GenericParamView>) -> bool {
    forall|i: int, j: int|
        0 <= i < j < params.len() && (#[trigger] params[j]) is Scope ==> (#[trigger] params[i]) is Scope
}

/// The scope parameter that declares `scope` and nothing more.
pub open spec fn scope_param(scope: ScopeView) -> GenericParamView {
    GenericParamView::Scope { attributes: Seq::empty(), scope, rest: Seq::empty() }
}

/// The generics with one more scope parameter, placed behind the scope parameters that are
/// there already. Where those stand in front of all other parameters, so does the new one.
pub open spec fn with_scope_param(generics: GenericsView, scope: ScopeView) -> GenericsView {
    GenericsView {
        params: generics.params.insert(scope_count(generics.params) as int, scope_param(scope)),
        predicates: generics.predicates,
    }
}

/// Counts the scope parameters.
fn lifetime_count(generics: &Generics) -> (count: usize)
    ensures
        count == scope_count(generics@.params),
{
    let ghost params = generics@.params;
    let mut count: usize = 0;
    let mut i: usize = 0;
    while i < generics.params.len()
        invariant
            i <= generics.params.len(),
            params == generics@.params,
            count == scope_count(params.take(i as int)),
            count <= i,
        decreases generics.params.len() - i,
    {
        proof {
            assert(params.take(i + 1).drop_last() =~= params.take(i as int));
        }
        match &generics.params[i] {
            GenericParam::Scope { .. } => {
                count += 1;
            },
            _ => {},
        }
        i += 1;
    }
    proof {
        assert(params.take(i as int) =~= params);
    }
    count
}

/// Declares `lifetime` as a new scope parameter, behind those that are there already.
pub fn introduce_new_generic_lt(lifetime: &Scope, generics: &mut Generics)
    ensures
        final(generics)@ == with_scope_param(old(generics)@, lifetime@),
        scopes_first(old(generics)@.params) ==> scopes_first(final(generics)@.params),
{
    let at = lifetime_count(generics);
    proof {
        lemma_scope_count_bounded(generics@.params);
        if scopes_first(generics@.params) {
            crate::guarantees::lemma_order_kept_behind_scopes(generics@.params, lifetime@);
        }
    }
    let param = GenericParam::Scope {
        attributes: String::new(),
        scope: lifetime.clone(),
        rest: String::new(),
    };
    generics.params.insert(at, param);
    proof {
        assert(params_view(generics.params@) =~= params_view(old(generics).params@).insert(
            at as int,
            scope_param(lifetime@),
        ));
    }
}

/// The name that the scope of the returned future gets where nothing else has it.
pub open spec fn future_marker() -> Seq<char> {
    "'__fut"@
}

/// The name of the scope of the returned future: `'__fut`, or, where the parameters declare
/// that name already, `'__fut` followed by the first number that makes a name they do not
/// declare.
pub open spec fn future_scope_name(params: Seq<GenericParamView>) -> Seq<char> {
    if declares(params, future_marker()) {
        numbered_name(future_marker(), first_free(params, future_marker(), 0))
    } else {
        future_marker()
    }
}

fn future_scope_name_text(generics: &Generics) -> (name: String)
    ensures
        name@ == future_scope_name(generics@.params),
{
    let plain = String::from_str("'__fut");
    if declares_scope(generics, &plain) {
        let (_, name) = first_free_name(generics, "'__fut", 0);
        name
    } else {
        plain
    }
}

/// The constraint that a parameter stays valid at least as long as `bound`; const parameters
/// get none.
pub open spec fn outlives_constraint(param: GenericParamView, bound: ScopeView) -> Option<
    PredicateView,
> {
    match param {
        GenericParamView::Scope { scope, .. } => Some(
            PredicateView::Outlives { subject: SubjectView::Scope(scope), bound },
        ),
        GenericParamView::Type { name, .. } => Some(
            PredicateView::Outlives { subject: SubjectView::Type(name), bound },
        ),
        GenericParamView::Const { .. } => None,
    }
}

/// The constraints of all parameters of a list, in the order of the list.
pub open spec fn outlives_constraints(params: Seq<GenericParamView>, bound: ScopeView) -> Seq<
    PredicateView,
>
    decreases params.len(),
{
    if params.len() == 0 {
        Seq::empty()
    } else {
        let front = outlives_constraints(params.drop_last(), bound);
        match outlives_constraint(params.last(), bound) {
            Some(constraint) => front.push(constraint),
            None => front,
        }
    }
}

/// Adds to the `where` clause, for each scope and type parameter, that it outlives `bound`.
fn add_outlives_constraints(generics: &mut Generics, bound: &Scope)
    ensures
        final(generics)@.params == old(generics)@.params,
        final(generics)@.predicates == old(generics)@.predicates + outlives_constraints(
            old(generics)@.params,
            bound@,
        ),
{
    let ghost params = generics@.params;
    let ghost predicates = generics@.predicates;
    let n = generics.params.len();
    let mut i: usize = 0;
    while i < n
        invariant
            i <= n,
            n == generics.params.len(),
            generics@.params == params,
            generics@.predicates == predicates + outlives_constraints(
                params.take(i as int),
                bound@,
            ),
        decreases n - i,
    {
        let ghost before = predicates_view(generics.predicates@);
        proof {
            assert(params.take(i + 1).drop_last() =~= params.take(i as int));
        }
        match &generics.params[i] {
            GenericParam::Scope { scope, .. } => {
                let constraint = Predicate::Outlives {
                    subject: Subject::Scope(scope.clone()),
                    bound: bound.clone(),
                };
                generics.predicates.push(constraint);
                assert(predicates_view(generics.predicates@) =~= before.push(constraint@));
            },
            GenericParam::Type { name, .. } => {
                let constraint = Predicate::Outlives {
                    subject: Subject::Type(name.clone()),
                    bound: bound.clone(),
                };
                generics.predicates.push(constraint);
                assert(predicates_view(generics.predicates@) =~= before.push(constraint@));
            },
            GenericParam::Const { .. } => {},
        }
        i += 1;
    }
    proof {
        assert(params.take(n as int) =~= params);
    }
}

/// The scope of the future that the rewritten function returns. `position` is the place of
/// the `async` keyword; the name is chosen against the parameters as they are once the
/// scopes elided in the inputs have been declared.
pub open spec fn future_scope(sig: SignatureView, position: Position) -> ScopeView {
    ScopeView { name: future_scope_name(unelided_signature(sig).generics.params), position }
}

/// The signature with no scope elided in its inputs, the future's scope declared in front
/// of all other parameters, and every other scope and type parameter bound to outlive it.
pub open spec fn bounded_by_future(sig: SignatureView, position: Position) -> SignatureView {
    let unelided = unelided_signature(sig);
    let future = future_scope(sig, position);
    SignatureView {
        generics: GenericsView {
            params: unelided.generics.params.insert(0, scope_param(future)),
            predicates: unelided.generics.predicates + outlives_constraints(
                unelided.generics.params,
                future,
            ),
        },
        ..unelided
    }
}

/// Prepares the signature of `fun` for returning a future: names the scopes that its inputs
/// elide, declares the future's scope and bounds the other parameters by it. Returns the
/// future's scope. This never fails.
pub fn lifetime_of_future_of_async_fn(fun: &mut Declaration, async_span: Position) -> (result:
    Result<Scope, Error>)
    ensures
        result matches Ok(fut_lt) && fut_lt@ == future_scope(old(fun)@.sig, async_span),
        final(fun)@ == (DeclarationView {
            sig: bounded_by_future(old(fun)@.sig, async_span),
            ..old(fun)@
        }),
        scopes_first(old(fun)@.sig.generics.params) ==> scopes_first(
            final(fun)@.sig.generics.params,
        ),
{
    proof {
        if scopes_first(fun@.sig.generics.params) {
            crate::guarantees::lemma_unelided_order(fun@.sig);
            crate::guarantees::lemma_order_kept_in_front(
                unelided_signature(fun@.sig).generics.params,
                future_scope(fun@.sig, async_span),
            );
        }
    }
    match unelide_input_lifetimes(&mut fun.sig) {
        Ok(_) => {},
        Err(error) => {
            return Err(error);
        },
    }
    let fut_lt = Scope { name: future_scope_name_text(&fun.sig.generics), position: async_span };
    add_outlives_constraints(&mut fun.sig.generics, &fut_lt);
    let ghost before = params_view(fun.sig.generics.params@);
    let param = GenericParam::Scope {
        attributes: String::new(),
        scope: fut_lt.clone(),
        rest: String::new(),
    };
    fun.sig.generics.params.insert(0, param);
    proof {
        assert(params_view(fun.sig.generics.params@) =~= before.insert(0, scope_param(fut_lt@)));
    }
    Ok(fut_lt)
}

/// The path `name<arguments>`.
pub open spec fn path(name: Seq<char>, arguments: Seq<TypeView>) -> TypeView {
    TypeView::Composite { form: FormView::Path(name), children: arguments }
}

/// The unit type `()`.
pub open spec fn unit_type() -> TypeView {
    TypeView::Composite { form: FormView::Tuple, children: Seq::empty() }
}

/// The return type that a signature declares, the unit type if it declares none.
pub open spec fn declared_return_type(sig: SignatureView) -> TypeView {
    match sig.output {
        Some(ty) => ty,
        None => unit_type(),
    }
}

/// `::core::pin::Pin<::std::boxed::Box<dyn 'scope + ::core::marker::Send +
/// ::core::future::Future<Output = output>>>`: an owning handle to a pinned future that can
/// be sent to another thread, lives as long as `scope` and yields an `output`.
pub open spec fn boxed_future_type(scope: ScopeView, output: TypeView) -> TypeView {
    path(
        "::core::pin::Pin"@,
        seq![
            path(
                "::std::boxed::Box"@,
                seq![
                    TypeView::Composite {
                        form: FormView::TraitObject,
                        children: seq![
                            TypeView::ScopeArgument(scope),
                            path("::core::marker::Send"@, Seq::empty()),
                            path(
                                "::core::future::Future"@,
                                seq![
                                    TypeView::Composite {
                                        form: FormView::Binding("Output"@),
                                        children: seq![output],
                                    },
                                ],
                            ),
                        ],
                    },
                ],
            ),
        ],
    )
}

fn path_type(name: &str, arguments: Vec<TypeExpr>) -> (ty: TypeExpr)
    ensures
        ty@ == path(name@, types_view(arguments@)),
{
    TypeExpr::Composite { form: Form::Path(String::from_str(name)), children: arguments }
}

fn one_type(ty: TypeExpr) -> (types: Vec<TypeExpr>)
    ensures
        types_view(types@) == seq![ty@],
{
    let mut types: Vec<TypeExpr> = Vec::new();
    types.push(ty);
    types
}

fn make_boxed_future_type(scope: Scope, output: TypeExpr) -> (ty: TypeExpr)
    ensures
        ty@ == boxed_future_type(scope@, output@),
{
    let binding = TypeExpr::Composite {
        form: Form::Binding(String::from_str("Output")),
        children: one_type(output),
    };
    let future = path_type("::core::future::Future", one_type(binding));
    let send = path_type("::core::marker::Send", Vec::new());
    assert(send@ == path("::core::marker::Send"@, Seq::empty())) by {
        assert(types_view(Seq::<TypeExpr>::empty()) =~= Seq::<TypeView>::empty());
    }
    let mut bounds: Vec<TypeExpr> = Vec::new();
    bounds.push(TypeExpr::ScopeArgument(scope));
    bounds.push(send);
    bounds.push(future);
    assert(types_view(bounds@) =~= seq![TypeView::ScopeArgument(scope@), send@, future@]);
    let object = TypeExpr::Composite { form: Form::TraitObject, children: bounds };
    let boxed = path_type("::std::boxed::Box", one_type(object));
    path_type("::core::pin::Pin", one_type(boxed))
}

/// The body that hands back the given body as a boxed future instead of running it: one
/// expression, `Box::pin(async move { .. })`, around a never-run check that the body's
/// value is a `ret`, followed by the statements of the given body as they were.
pub open spec fn boxed_body(body: BodyView, ret: TypeView) -> BodyView {
    BodyView {
        position: body.position,
        statements: seq![
            StatementView::BoxPinAsyncMove(
                seq![StatementView::ReturnTypeCheck(ret)] + body.statements,
            ),
        ],
    }
}

/// Wraps the body so that it is not run but handed back as a boxed, pinned future.
pub fn wrap_body(block: &mut Body, ret: TypeExpr)
    ensures
        final(block)@ == boxed_body(old(block)@, ret@),
{
    let mut statements: Vec<Statement> = Vec::new();
    core::mem::swap(&mut block.statements, &mut statements);
    let ghost given = statements_view(statements@);
    statements.insert(0, Statement::ReturnTypeCheck(ret));
    assert(statements_view(statements@) =~= seq![StatementView::ReturnTypeCheck(ret@)] + given);
    let ghost inner = statements_view(statements@);
    block.statements.push(Statement::BoxPinAsyncMove(statements));
    assert(statements_view(block.statements@) =~= seq![StatementView::BoxPinAsyncMove(inner)]);
}

/// The scope of the future that the rewritten form of `decl` returns.
pub open spec fn result_scope(decl: DeclarationView) -> ScopeView
    recommends
        decl.sig.asyncness is Some,
{
    future_scope(SignatureView { asyncness: None, ..decl.sig }, decl.sig.asyncness->Some_0)
}

/// The rewritten form of an `async fn`: a function that is not `async` and returns a boxed
/// future of what the given function returns.
pub open spec fn boxed(decl: DeclarationView) -> DeclarationView
    recommends
        decl.sig.asyncness is Some,
{
    let ret = declared_return_type(decl.sig);
    DeclarationView {
        prelude: decl.prelude,
        sig: SignatureView {
            output: Some(boxed_future_type(result_scope(decl), ret)),
            ..bounded_by_future(
                SignatureView { asyncness: None, ..decl.sig },
                decl.sig.asyncness->Some_0,
            )
        },
        block: boxed_body(decl.block, ret),
    }
}

/// What the attribute makes of its arguments and of what a parser made of its input: the
/// first of these that applies.
///
/// - Any argument at all is an error, at the place of the first.
/// - What did not parse is an error, as the parser reported it.
/// - A function that is not `async` is an error, at the place of its `fn`.
/// - Otherwise the function is rewritten.
pub open spec fn transformed(
    args: Seq<AttributeArgumentView>,
    input: Result<DeclarationView, ParseFailureView>,
) -> Result<DeclarationView, ErrorView> {
    if args.len() > 0 {
        Err(ErrorView::UnexpectedArguments { position: args[0].position })
    } else {
        match input {
            Err(failure) => Err(
                ErrorView::MalformedSyntax { position: failure.position, message: failure.message },
            ),
            Ok(decl) => match decl.sig.asyncness {
                None => Err(ErrorView::NotAsync { position: decl.sig.fn_position }),
                Some(_) => Ok(boxed(decl)),
            },
        }
    }
}

pub open spec fn parse_result_view(input: Result<Declaration, ParseFailure>) -> Result<
    DeclarationView,
    ParseFailureView,
> {
    match input {
        Ok(decl) => Ok(decl@),
        Err(failure) => Err(failure@),
    }
}

pub open spec fn rewrite_result_view(result: Result<Declaration, Error>) -> Result<
    DeclarationView,
    ErrorView,
> {
    match result {
        Ok(decl) => Ok(decl@),
        Err(error) => Err(error@),
    }
}

/// Rewrites an `async fn` into a function that returns its future boxed, or says why not.
pub fn async_fn_boxed_inner(
    args: Vec<AttributeArgument>,
    input: Result<Declaration, ParseFailure>,
) -> (result: Result<Declaration, Error>)
    ensures
        rewrite_result_view(result) == transformed(
            arguments_view(args@),
            parse_result_view(input),
        ),
{
    if args.len() > 0 {
        return Err(Error::UnexpectedArguments { position: args[0].position });
    }
    let mut fun = match input {
        Ok(fun) => fun,
        Err(failure) => {
            return Err(
                Error::MalformedSyntax { position: failure.position, message: failure.message },
            );
        },
    };
    // 1. extract (and remove) the `async` from `async fn`.
    let async_ = match fun.sig.asyncness.take() {
        Some(position) => position,
        None => {
            return Err(Error::NotAsync { position: fun.sig.fn_position });
        },
    };
    // 2. declare the scope of the future and bound the other parameters by it.
    let fut_lt = match lifetime_of_future_of_async_fn(&mut fun, async_) {
        Ok(fut_lt) => fut_lt,
        Err(error) => {
            return Err(error);
        },
    };
    // 3. wrap the declared return type.
    let ret = match fun.sig.output.take() {
        Some(ty) => ty,
        None => TypeExpr::Composite { form: Form::Tuple, children: Vec::new() },
    };
    proof {
        assert(types_view(Seq::<TypeExpr>::empty()) =~= Seq::<TypeView>::empty());
    }
    fun.sig.output = Some(make_boxed_future_type(fut_lt, ret.clone()));
    // 4. wrap the body.
    wrap_body(&mut fun.block, ret);
    Ok(fun)
}

/// What the attribute puts in the place of the function it was written on: the rewritten
/// function, or a diagnostic that names the attribute.
pub open spec fn expanded(
    args: Seq<AttributeArgumentView>,
    input: Result<DeclarationView, ParseFailureView>,
) -> Result<DeclarationView, DiagnosticView> {
    match transformed(args, input) {
        Ok(decl) => Ok(decl),
        Err(error) => Err(diagnostic_of(error)),
    }
}

pub open spec fn expansion_view(result: Result<Declaration, Diagnostic>) -> Result<
    DeclarationView,
    DiagnosticView,
> {
    match result {
        Ok(decl) => Ok(decl@),
        Err(diagnostic) => Err(diagnostic@),
    }
}

/// The attribute: rewrites an `async fn` into a function that returns its future boxed, and
/// reports anything else as a diagnostic under the attribute's name.
pub fn async_fn_boxed(args: Vec<AttributeArgument>, input: Result<Declaration, ParseFailure>) -> (result:
    Result<Declaration, Diagnostic>)
    ensures
        expansion_view(result) == expanded(arguments_view(args@), parse_result_view(input)),
{
    match async_fn_boxed_inner(args, input) {
        Ok(fun) => Ok(fun),
        Err(error) => Err(error.into_diagnostic()),
    }
}

} // verus!
