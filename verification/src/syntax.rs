//! The syntax tree of a function declaration, as far as the rewrite reads it.
//!
//! Every type comes with a mathematical value (its view), over which all contracts in this
//! crate are stated. Source text that the rewrite carries along without looking into it
//! (bounds, patterns, statements) is kept as plain text.

use vstd::prelude::*;

verus! {

/// A place in the source text, by the number that the front end keeps it under. It is
/// carried along for diagnostics and never interpreted.
#[derive(Clone, Copy, Debug, PartialEq, Eq, Structural)]
pub struct Position {
    pub index: usize,
}

/// A scope (what Rust calls a lifetime) as it is written: a name such as `'a`, or the
/// placeholder `'_`, with the place it was written at. The name includes the apostrophe.
#[derive(Debug, PartialEq, Eq)]
pub struct Scope {
    pub name: String,
    pub position: Position,
}

/// The mathematical value of a [`Scope`].
pub struct ScopeView {
    pub name: Seq<char>,
    pub position: Position,
}

impl View for Scope {
    type V = ScopeView;

    open spec fn view(&self) -> ScopeView {
        ScopeView { name: self.name@, position: self.position }
    }
}

impl Clone for Scope {
    fn clone(&self) -> (copy: Self)
        ensures
            copy@ == self@,
    {
        Scope { name: self.name.clone(), position: self.position }
    }
}

pub open spec fn scope_option_view(scope: Option<Scope>) -> Option<ScopeView> {
    match scope {
        Some(s) => Some(s@),
        None => None,
    }
}

/// The shape of a node that holds nothing but further nodes: the walk over a type tree passes
/// through every such node on its way to the references below it.
#[derive(Debug, PartialEq, Eq)]
pub enum Form {
    /// `name<children>`; the name may have several segments, as in `::std::vec::Vec`.
    Path(String),
    /// `<qualifier>::name<rest>`, where the qualifier is the first child.
    Member(String),
    /// `<ty as trait_path>` (two children) or `<ty>` (one child), in front of a `Member`.
    Qualified,
    /// `(children)`
    Tuple,
    /// `[child]`
    Slice,
    /// `[child; length]`, with the length as written.
    Array(String),
    /// `*const child`
    ConstPointer,
    /// `*mut child`
    MutPointer,
    /// `(child)`
    Parenthesized,
    /// `dyn children`, the children joined by `+`.
    TraitObject,
    /// `impl children`, the children joined by `+`.
    ImplTrait,
    /// A bound with a prefix such as `?` or `for<'a>` in front of its one child.
    Modified(String),
    /// `name = child`, among the arguments of a path.
    Binding(String),
    /// `name: children`, the children joined by `+`: a bound on an associated type among
    /// the arguments of a path, or a named input of a function pointer.
    Constraint(String),
    /// Anything else, as written; it has no children.
    Verbatim(String),
}

/// The mathematical value of a [`Form`].
pub enum FormView {
    Path(Seq<char>),
    Member(Seq<char>),
    Qualified,
    Tuple,
    Slice,
    Array(Seq<char>),
    ConstPointer,
    MutPointer,
    Parenthesized,
    TraitObject,
    ImplTrait,
    Modified(Seq<char>),
    Binding(Seq<char>),
    Constraint(Seq<char>),
    Verbatim(Seq<char>),
}

impl View for Form {
    type V = FormView;

    open spec fn view(&self) -> FormView {
        match self {
            Form::Path(name) => FormView::Path(name@),
            Form::Member(name) => FormView::Member(name@),
            Form::Qualified => FormView::Qualified,
            Form::Tuple => FormView::Tuple,
            Form::Slice => FormView::Slice,
            Form::Array(length) => FormView::Array(length@),
            Form::ConstPointer => FormView::ConstPointer,
            Form::MutPointer => FormView::MutPointer,
            Form::Parenthesized => FormView::Parenthesized,
            Form::TraitObject => FormView::TraitObject,
            Form::ImplTrait => FormView::ImplTrait,
            Form::Modified(prefix) => FormView::Modified(prefix@),
            Form::Binding(name) => FormView::Binding(name@),
            Form::Constraint(name) => FormView::Constraint(name@),
            Form::Verbatim(text) => FormView::Verbatim(text@),
        }
    }
}

impl Clone for Form {
    fn clone(&self) -> (copy: Self)
        ensures
            copy@ == self@,
    {
        match self {
            Form::Path(name) => Form::Path(name.clone()),
            Form::Member(name) => Form::Member(name.clone()),
            Form::Qualified => Form::Qualified,
            Form::Tuple => Form::Tuple,
            Form::Slice => Form::Slice,
            Form::Array(length) => Form::Array(length.clone()),
            Form::ConstPointer => Form::ConstPointer,
            Form::MutPointer => Form::MutPointer,
            Form::Parenthesized => Form::Parenthesized,
            Form::TraitObject => Form::TraitObject,
            Form::ImplTrait => Form::ImplTrait,
            Form::Modified(prefix) => Form::Modified(prefix.clone()),
            Form::Binding(name) => Form::Binding(name.clone()),
            Form::Constraint(name) => Form::Constraint(name.clone()),
            Form::Verbatim(text) => Form::Verbatim(text.clone()),
        }
    }
}

/// A node of a type tree.
///
/// Besides types proper, a tree holds what stands among the arguments and bounds of a type:
/// scopes, bindings, and the parenthesized arguments of a callable bound.
#[derive(Debug, PartialEq, Eq)]
pub enum TypeExpr {
    /// `&'scope mut referee`; `position` is the place of the `&`.
    Reference { position: Position, scope: Option<Scope>, mutable: bool, referee: Box<TypeExpr> },
    /// A scope standing as an argument or a bound, as in `Cow<'a, str>` or `dyn Any + 'a`.
    ScopeArgument(Scope),
    /// `qualifiers fn(inputs) -> output`. The scopes elided inside belong to each call of
    /// the function, not to the declaration around it.
    FunctionPointer { qualifiers: String, inputs: Vec<TypeExpr>, output: Option<Box<TypeExpr>> },
    /// `(inputs) -> output` behind a path, as in `Fn(&str) -> usize`. Its elided scopes are
    /// bound afresh at each call as well.
    CallableBound { inputs: Vec<TypeExpr>, output: Option<Box<TypeExpr>> },
    /// Any other node: its children are reached through it.
    Composite { form: Form, children: Vec<TypeExpr> },
}

/// The mathematical value of a [`TypeExpr`].
pub enum TypeView {
    Reference { position: Position, scope: Option<ScopeView>, mutable: bool, referee: Box<TypeView> },
    ScopeArgument(ScopeView),
    FunctionPointer { qualifiers: Seq<char>, inputs: Seq<TypeView>, output: Option<Box<TypeView>> },
    CallableBound { inputs: Seq<TypeView>, output: Option<Box<TypeView>> },
    Composite { form: FormView, children: Seq<TypeView> },
}

/// The mathematical value of a type tree.
pub open spec fn type_view(ty: TypeExpr) -> TypeView
    decreases ty,
{
    match ty {
        TypeExpr::Reference { position, scope, mutable, referee } => TypeView::Reference {
            position,
            scope: scope_option_view(scope),
            mutable,
            referee: Box::new(type_view(*referee)),
        },
        TypeExpr::ScopeArgument(scope) => TypeView::ScopeArgument(scope@),
        TypeExpr::FunctionPointer { qualifiers, inputs, output } => TypeView::FunctionPointer {
            qualifiers: qualifiers@,
            inputs: types_view(inputs@),
            output: match output {
                Some(ty) => Some(Box::new(type_view(*ty))),
                None => None,
            },
        },
        TypeExpr::CallableBound { inputs, output } => TypeView::CallableBound {
            inputs: types_view(inputs@),
            output: match output {
                Some(ty) => Some(Box::new(type_view(*ty))),
                None => None,
            },
        },
        TypeExpr::Composite { form, children } => TypeView::Composite {
            form: form@,
            children: types_view(children@),
        },
    }
}

/// The values of a sequence of type trees, one for one.
pub open spec fn types_view(types: Seq<TypeExpr>) -> Seq<TypeView>
    decreases types,
{
    Seq::new(
        types.len(),
        |i: int|
            if 0 <= i < types.len() {
                type_view(types[i])
            } else {
                arbitrary()
            },
    )
}

impl View for TypeExpr {
    type V = TypeView;

    open spec fn view(&self) -> TypeView {
        type_view(*self)
    }
}

/// Copies a sequence of type trees.
pub fn clone_types(types: &Vec<TypeExpr>) -> (copies: Vec<TypeExpr>)
    ensures
        types_view(copies@) == types_view(types@),
    decreases types,
{
    let mut copies: Vec<TypeExpr> = Vec::new();
    let mut i: usize = 0;
    while i < types.len()
        invariant
            i <= types.len(),
            copies.len() == i,
            forall|j: int| 0 <= j < i ==> type_view(#[trigger] copies[j]) == type_view(types[j]),
        decreases types.len() - i,
    {
        copies.push(types[i].clone());
        i += 1;
    }
    copies
}

impl Clone for TypeExpr {
    fn clone(&self) -> (copy: Self)
        ensures
            copy@ == self@,
        decreases self,
    {
        match self {
            TypeExpr::Reference { position, scope, mutable, referee } => TypeExpr::Reference {
                position: *position,
                scope: match scope {
                    Some(s) => Some(s.clone()),
                    None => None,
                },
                mutable: *mutable,
                referee: Box::new((&**referee).clone()),
            },
            TypeExpr::ScopeArgument(scope) => TypeExpr::ScopeArgument(scope.clone()),
            TypeExpr::FunctionPointer { qualifiers, inputs, output } => TypeExpr::FunctionPointer {
                qualifiers: qualifiers.clone(),
                inputs: clone_types(inputs),
                output: match output {
                    Some(ty) => Some(Box::new((&**ty).clone())),
                    None => None,
                },
            },
            TypeExpr::CallableBound { inputs, output } => TypeExpr::CallableBound {
                inputs: clone_types(inputs),
                output: match output {
                    Some(ty) => Some(Box::new((&**ty).clone())),
                    None => None,
                },
            },
            TypeExpr::Composite { form, children } => TypeExpr::Composite {
                form: form.clone(),
                children: clone_types(children),
            },
        }
    }
}

pub open spec fn type_option_view(ty: Option<TypeExpr>) -> Option<TypeView> {
    match ty {
        Some(t) => Some(t@),
        None => None,
    }
}

/// A parameter declared between `<` and `>`: its attributes as written, what it declares,
/// and all that follows the name (bounds, a const parameter's type, a default) as written.
#[derive(Debug, PartialEq, Eq)]
pub enum GenericParam {
    /// `'a: 'b + 'c`
    Scope { attributes: String, scope: Scope, rest: String },
    /// `T: Bound = Default`
    Type { attributes: String, name: String, rest: String },
    /// `const N: usize = 0`
    Const { attributes: String, name: String, rest: String },
}

/// The mathematical value of a [`GenericParam`].
pub enum GenericParamView {
    Scope { attributes: Seq<char>, scope: ScopeView, rest: Seq<char> },
    Type { attributes: Seq<char>, name: Seq<char>, rest: Seq<char> },
    Const { attributes: Seq<char>, name: Seq<char>, rest: Seq<char> },
}

impl View for GenericParam {
    type V = GenericParamView;

    open spec fn view(&self) -> GenericParamView {
        match self {
            GenericParam::Scope { attributes, scope, rest } => GenericParamView::Scope {
                attributes: attributes@,
                scope: scope@,
                rest: rest@,
            },
            GenericParam::Type { attributes, name, rest } => GenericParamView::Type {
                attributes: attributes@,
                name: name@,
                rest: rest@,
            },
            GenericParam::Const { attributes, name, rest } => GenericParamView::Const {
                attributes: attributes@,
                name: name@,
                rest: rest@,
            },
        }
    }
}

pub open spec fn params_view(params: Seq<GenericParam>) -> Seq<GenericParamView> {
    params.map_values(|p: GenericParam| p@)
}

/// What an outlives constraint is about: a scope parameter or a type parameter.
#[derive(Debug, PartialEq, Eq)]
pub enum Subject {
    Scope(Scope),
    Type(String),
}

/// The mathematical value of a [`Subject`].
pub enum SubjectView {
    Scope(ScopeView),
    Type(Seq<char>),
}

impl View for Subject {
    type V = SubjectView;

    open spec fn view(&self) -> SubjectView {
        match self {
            Subject::Scope(scope) => SubjectView::Scope(scope@),
            Subject::Type(name) => SubjectView::Type(name@),
        }
    }
}

/// A predicate of the `where` clause.
#[derive(Debug, PartialEq, Eq)]
pub enum Predicate {
    /// `subject: bound`: the subject stays valid at least as long as the bound.
    Outlives { subject: Subject, bound: Scope },
    /// Any other predicate, as written.
    Verbatim(String),
}

/// The mathematical value of a [`Predicate`].
pub enum PredicateView {
    Outlives { subject: SubjectView, bound: ScopeView },
    Verbatim(Seq<char>),
}

impl View for Predicate {
    type V = PredicateView;

    open spec fn view(&self) -> PredicateView {
        match self {
            Predicate::Outlives { subject, bound } => PredicateView::Outlives {
                subject: subject@,
                bound: bound@,
            },
            Predicate::Verbatim(text) => PredicateView::Verbatim(text@),
        }
    }
}

pub open spec fn predicates_view(predicates: Seq<Predicate>) -> Seq<PredicateView> {
    predicates.map_values(|p: Predicate| p@)
}

/// The generic parameters of a declaration, in the order written, and its `where` clause.
#[derive(Debug, PartialEq, Eq)]
pub struct Generics {
    pub params: Vec<GenericParam>,
    pub predicates: Vec<Predicate>,
}

/// The mathematical value of [`Generics`].
pub struct GenericsView {
    pub params: Seq<GenericParamView>,
    pub predicates: Seq<PredicateView>,
}

impl View for Generics {
    type V = GenericsView;

    open spec fn view(&self) -> GenericsView {
        GenericsView {
            params: params_view(self.params@),
            predicates: predicates_view(self.predicates@),
        }
    }
}

/// An input of the function: the pattern it binds, as written, and its type.
/// A receiver is the pattern `self` with the type it stands for.
#[derive(Debug, PartialEq, Eq)]
pub struct InputParam {
    pub pattern: String,
    pub ty: TypeExpr,
}

/// The mathematical value of an [`InputParam`].
pub struct InputParamView {
    pub pattern: Seq<char>,
    pub ty: TypeView,
}

impl View for InputParam {
    type V = InputParamView;

    open spec fn view(&self) -> InputParamView {
        InputParamView { pattern: self.pattern@, ty: self.ty@ }
    }
}

pub open spec fn inputs_view(inputs: Seq<InputParam>) -> Seq<InputParamView> {
    inputs.map_values(|p: InputParam| p@)
}

/// All of a function declaration in front of its body.
#[derive(Debug, PartialEq, Eq)]
pub struct Signature {
    /// What is written between `async` and `fn`: `unsafe`, an ABI.
    pub qualifiers: String,
    /// The place of the `async` keyword, if the function has one.
    pub asyncness: Option<Position>,
    /// The place of the `fn` keyword.
    pub fn_position: Position,
    pub name: String,
    pub generics: Generics,
    pub inputs: Vec<InputParam>,
    /// The declared return type; `None` stands for the unit type.
    pub output: Option<TypeExpr>,
}

/// The mathematical value of a [`Signature`].
pub struct SignatureView {
    pub qualifiers: Seq<char>,
    pub asyncness: Option<Position>,
    pub fn_position: Position,
    pub name: Seq<char>,
    pub generics: GenericsView,
    pub inputs: Seq<InputParamView>,
    pub output: Option<TypeView>,
}

impl View for Signature {
    type V = SignatureView;

    open spec fn view(&self) -> SignatureView {
        SignatureView {
            qualifiers: self.qualifiers@,
            asyncness: self.asyncness,
            fn_position: self.fn_position,
            name: self.name@,
            generics: self.generics@,
            inputs: inputs_view(self.inputs@),
            output: type_option_view(self.output),
        }
    }
}

/// A statement of a function body.
#[derive(Debug, PartialEq, Eq)]
pub enum Statement {
    /// A statement as written.
    Source(String),
    /// `if false { return ::core::option::Option::<ty>::None {}.unwrap(); }`: never run, but
    /// type-checked, so that a body whose value is not a `ty` is reported here.
    ReturnTypeCheck(TypeExpr),
    /// `::std::boxed::Box::pin(async move { statements })`
    BoxPinAsyncMove(Vec<Statement>),
}

/// The mathematical value of a [`Statement`].
pub enum StatementView {
    Source(Seq<char>),
    ReturnTypeCheck(TypeView),
    BoxPinAsyncMove(Seq<StatementView>),
}

pub open spec fn statement_view(statement: Statement) -> StatementView
    decreases statement,
{
    match statement {
        Statement::Source(text) => StatementView::Source(text@),
        Statement::ReturnTypeCheck(ty) => StatementView::ReturnTypeCheck(ty@),
        Statement::BoxPinAsyncMove(statements) => StatementView::BoxPinAsyncMove(
            statements_view(statements@),
        ),
    }
}

pub open spec fn statements_view(statements: Seq<Statement>) -> Seq<StatementView>
    decreases statements,
{
    Seq::new(
        statements.len(),
        |i: int|
            if 0 <= i < statements.len() {
                statement_view(statements[i])
            } else {
                arbitrary()
            },
    )
}

impl View for Statement {
    type V = StatementView;

    open spec fn view(&self) -> StatementView {
        statement_view(*self)
    }
}

/// A function body; `position` is the place of its opening brace.
#[derive(Debug, PartialEq, Eq)]
pub struct Body {
    pub position: Position,
    pub statements: Vec<Statement>,
}

/// The mathematical value of a [`Body`].
pub struct BodyView {
    pub position: Position,
    pub statements: Seq<StatementView>,
}

impl View for Body {
    type V = BodyView;

    open spec fn view(&self) -> BodyView {
        BodyView { position: self.position, statements: statements_view(self.statements@) }
    }
}

/// A function declaration.
#[derive(Debug, PartialEq, Eq)]
pub struct Declaration {
    /// All that is written in front of `async`: attributes, visibility, `const`.
    pub prelude: String,
    pub sig: Signature,
    pub block: Body,
}

/// The mathematical value of a [`Declaration`].
pub struct DeclarationView {
    pub prelude: Seq<char>,
    pub sig: SignatureView,
    pub block: BodyView,
}

impl View for Declaration {
    type V = DeclarationView;

    open spec fn view(&self) -> DeclarationView {
        DeclarationView { prelude: self.prelude@, sig: self.sig@, block: self.block@ }
    }
}

/// One token of the argument list that the attribute was written with.
#[derive(Debug, PartialEq, Eq)]
pub struct AttributeArgument {
    pub text: String,
    pub position: Position,
}

/// The mathematical value of an [`AttributeArgument`].
pub struct AttributeArgumentView {
    pub text: Seq<char>,
    pub position: Position,
}

impl View for AttributeArgument {
    type V = AttributeArgumentView;

    open spec fn view(&self) -> AttributeArgumentView {
        AttributeArgumentView { text: self.text@, position: self.position }
    }
}

pub open spec fn arguments_view(arguments: Seq<AttributeArgument>) -> Seq<AttributeArgumentView> {
    arguments.map_values(|a: AttributeArgument| a@)
}

} // verus!
