//! What can go wrong, and how it is reported.

use vstd::prelude::*;
use crate::syntax::Position;

verus! {

/// Why a declaration was not rewritten.
#[derive(Debug, PartialEq, Eq)]
pub enum Error {
    /// The attribute was given arguments; it takes none. The place is that of the first.
    UnexpectedArguments { position: Position },
    /// The function is not an `async fn`. The place is that of its `fn` keyword.
    NotAsync { position: Position },
    /// The input is no function declaration; place and message are those of the parser.
    MalformedSyntax { position: Position, message: String },
}

/// The mathematical value of an [`Error`].
pub enum ErrorView {
    UnexpectedArguments { position: Position },
    NotAsync { position: Position },
    MalformedSyntax { position: Position, message: Seq<char> },
}

impl View for Error {
    type V = ErrorView;

    open spec fn view(&self) -> ErrorView {
        match self {
            Error::UnexpectedArguments { position } => ErrorView::UnexpectedArguments {
                position: *position,
            },
            Error::NotAsync { position } => ErrorView::NotAsync { position: *position },
            Error::MalformedSyntax { position, message } => ErrorView::MalformedSyntax {
                position: *position,
                message: message@,
            },
        }
    }
}

/// The message of an error, without the name of the attribute in front.
pub open spec fn error_message(error: ErrorView) -> Seq<char> {
    match error {
        ErrorView::UnexpectedArguments { .. } => "unexpected token"@,
        ErrorView::NotAsync { .. } => "expected an `async fn`"@,
        ErrorView::MalformedSyntax { message, .. } => message,
    }
}

/// The place in the source that an error points at.
pub open spec fn error_position(error: ErrorView) -> Position {
    match error {
        ErrorView::UnexpectedArguments { position } => position,
        ErrorView::NotAsync { position } => position,
        ErrorView::MalformedSyntax { position, .. } => position,
    }
}

impl Error {
    pub fn position(&self) -> (position: Position)
        ensures
            position == error_position(self@),
    {
        match self {
            Error::UnexpectedArguments { position } => *position,
            Error::NotAsync { position } => *position,
            Error::MalformedSyntax { position, .. } => *position,
        }
    }

    pub fn message(&self) -> (message: String)
        ensures
            message@ == error_message(self@),
    {
        match self {
            Error::UnexpectedArguments { .. } => String::from_str("unexpected token"),
            Error::NotAsync { .. } => String::from_str("expected an `async fn`"),
            Error::MalformedSyntax { message, .. } => message.clone(),
        }
    }
}

/// What a parser reports when the input is no function declaration.
#[derive(Debug, PartialEq, Eq)]
pub struct ParseFailure {
    pub position: Position,
    pub message: String,
}

/// The mathematical value of a [`ParseFailure`].
pub struct ParseFailureView {
    pub position: Position,
    pub message: Seq<char>,
}

impl View for ParseFailure {
    type V = ParseFailureView;

    open spec fn view(&self) -> ParseFailureView {
        ParseFailureView { position: self.position, message: self.message@ }
    }
}

/// A message for the user, attached to a place in the source.
#[derive(Debug, PartialEq, Eq)]
pub struct Diagnostic {
    pub position: Position,
    pub message: String,
}

/// The mathematical value of a [`Diagnostic`].
pub struct DiagnosticView {
    pub position: Position,
    pub message: Seq<char>,
}

impl View for Diagnostic {
    type V = DiagnosticView;

    open spec fn view(&self) -> DiagnosticView {
        DiagnosticView { position: self.position, message: self.message@ }
    }
}

/// The diagnostic for an error: the error's message behind the name of the attribute, at
/// the error's place.
pub open spec fn diagnostic_of(error: ErrorView) -> DiagnosticView {
    DiagnosticView {
        position: error_position(error),
        message: "#[async_fn_boxed]: "@ + error_message(error),
    }
}

impl Error {
    pub fn into_diagnostic(self) -> (diagnostic: Diagnostic)
        ensures
            diagnostic@ == diagnostic_of(self@),
    {
        let mut message = String::from_str("#[async_fn_boxed]: ");
        let detail = self.message();
        message.append(detail.as_str());
        Diagnostic { position: self.position(), message }
    }
}

} // verus!
