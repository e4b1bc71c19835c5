use async_fn_boxed::async_fn_boxed;
use async_fn_boxed::async_fn_boxed_inner;
use async_fn_boxed::error::{Diagnostic, Error, ParseFailure};
use async_fn_boxed::syntax::{
    AttributeArgument, Body, Declaration, Form, Generics, InputParam, Position, Signature,
    Statement, TypeExpr,
};

fn place(line: usize, column: usize) -> Position {
    Position { index: line * 1000 + column }
}

fn function(asyncness: Option<Position>, fn_position: Position) -> Declaration {
    Declaration {
        prelude: String::new(),
        sig: Signature {
            qualifiers: String::new(),
            asyncness,
            fn_position,
            name: "foo".to_string(),
            generics: Generics { params: vec![], predicates: vec![] },
            inputs: vec![InputParam {
                pattern: "s".to_string(),
                ty: TypeExpr::Reference {
                    position: place(1, 17),
                    scope: None,
                    mutable: false,
                    referee: Box::new(TypeExpr::Composite {
                        form: Form::Path("str".to_string()),
                        children: vec![],
                    }),
                },
            }],
            output: None,
        },
        block: Body { position: place(1, 23), statements: vec![Statement::Source("42".to_string())] },
    }
}

fn literal(text: &str, position: Position) -> AttributeArgument {
    AttributeArgument { text: text.to_string(), position }
}

/// Each way in which the attribute can be misused gives its diagnostic, under the name of
/// the attribute and at the offending place, and nothing is rewritten.
#[test]
fn errors() {
    let not_async = async_fn_boxed(vec![], Ok(function(None, place(3, 1))));
    assert_eq!(
        not_async,
        Err(Diagnostic {
            position: place(3, 1),
            message: "#[async_fn_boxed]: expected an `async fn`".to_string(),
        })
    );

    let with_arguments =
        async_fn_boxed(vec![literal("42", place(1, 18))], Ok(function(Some(place(2, 1)), place(2, 7))));
    assert_eq!(
        with_arguments,
        Err(Diagnostic {
            position: place(1, 18),
            message: "#[async_fn_boxed]: unexpected token".to_string(),
        })
    );

    let malformed = async_fn_boxed(
        vec![],
        Err(ParseFailure { position: place(2, 1), message: "expected `fn`".to_string() }),
    );
    assert_eq!(
        malformed,
        Err(Diagnostic {
            position: place(2, 1),
            message: "#[async_fn_boxed]: expected `fn`".to_string(),
        })
    );
}

#[test]
fn arguments_are_refused_before_the_function_is_looked_at() {
    let arguments = || vec![literal("\"x\"", place(1, 18)), literal(",", place(1, 21))];
    let expected = Err(Error::UnexpectedArguments { position: place(1, 18) });

    assert_eq!(async_fn_boxed_inner(arguments(), Ok(function(Some(place(2, 1)), place(2, 7)))), expected);
    assert_eq!(async_fn_boxed_inner(arguments(), Ok(function(None, place(2, 1)))), expected);
    assert_eq!(
        async_fn_boxed_inner(
            arguments(),
            Err(ParseFailure { position: place(2, 1), message: "expected `fn`".to_string() })
        ),
        expected
    );
}

#[test]
fn function_that_is_not_async_is_refused_at_its_fn() {
    let plain = function(None, place(7, 5));
    assert_eq!(async_fn_boxed_inner(vec![], Ok(plain)), Err(Error::NotAsync { position: place(7, 5) }));

    let mut other = function(None, place(9, 1));
    other.sig.inputs.clear();
    other.sig.output = Some(TypeExpr::Composite { form: Form::Tuple, children: vec![] });
    other.block.statements.clear();
    assert_eq!(async_fn_boxed_inner(vec![], Ok(other)), Err(Error::NotAsync { position: place(9, 1) }));
}

#[test]
fn parse_failure_is_passed_on() {
    let failure = ParseFailure { position: place(4, 9), message: "expected identifier".to_string() };
    assert_eq!(
        async_fn_boxed_inner(vec![], Err(failure)),
        Err(Error::MalformedSyntax {
            position: place(4, 9),
            message: "expected identifier".to_string(),
        })
    );
}

#[test]
fn error_messages_and_places() {
    let unexpected = Error::UnexpectedArguments { position: place(1, 2) };
    let not_async = Error::NotAsync { position: place(3, 4) };
    let malformed = Error::MalformedSyntax { position: place(5, 6), message: "expected `{`".to_string() };

    assert_eq!(unexpected.message(), "unexpected token");
    assert_eq!(not_async.message(), "expected an `async fn`");
    assert_eq!(malformed.message(), "expected `{`");
    assert_eq!(unexpected.position(), place(1, 2));
    assert_eq!(not_async.position(), place(3, 4));
    assert_eq!(malformed.position(), place(5, 6));
    assert_eq!(
        not_async.into_diagnostic(),
        Diagnostic {
            position: place(3, 4),
            message: "#[async_fn_boxed]: expected an `async fn`".to_string(),
        }
    );
}

#[test]
fn async_function_is_expanded() {
    let expansion = async_fn_boxed(vec![], Ok(function(Some(place(1, 1)), place(1, 7))));
    let rewritten = expansion.unwrap();
    assert_eq!(rewritten.sig.asyncness, None);
    assert_eq!(rewritten.sig.generics.params.len(), 2);
    assert_eq!(rewritten.block.statements.len(), 1);
}
