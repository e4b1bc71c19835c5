//! The rewritten declaration, written out as source text, is the function that one would
//! write by hand. The text is compared token by token, as `syn` reads it.

use async_fn_boxed::async_fn_boxed_inner;
use async_fn_boxed::syntax::{
    Body, Declaration, Form, GenericParam, Generics, InputParam, Position, Predicate, Scope,
    Signature, Statement, Subject, TypeExpr,
};
use quote::ToTokens;

fn join(parts: &[TypeExpr], separator: &str) -> String {
    parts.iter().map(type_text).collect::<Vec<_>>().join(separator)
}

fn arrow(output: &Option<Box<TypeExpr>>) -> String {
    match output {
        Some(ty) => format!(" -> {}", type_text(ty)),
        None => String::new(),
    }
}

fn arguments_text(children: &[TypeExpr]) -> String {
    match children {
        [] => String::new(),
        [TypeExpr::CallableBound { .. }] => type_text(&children[0]),
        _ => format!("<{}>", join(children, ", ")),
    }
}

fn type_text(ty: &TypeExpr) -> String {
    match ty {
        TypeExpr::Reference { scope, mutable, referee, .. } => format!(
            "&{} {}{}",
            scope.as_ref().map_or("", |scope| scope.name.as_str()),
            if *mutable { "mut " } else { "" },
            type_text(referee)
        ),
        TypeExpr::ScopeArgument(scope) => scope.name.clone(),
        TypeExpr::FunctionPointer { qualifiers, inputs, output } => {
            format!("{} fn({}){}", qualifiers, join(inputs, ", "), arrow(output))
        }
        TypeExpr::CallableBound { inputs, output } => {
            format!("({}){}", join(inputs, ", "), arrow(output))
        }
        TypeExpr::Composite { form, children } => match form {
            Form::Path(name) => format!("{}{}", name, arguments_text(children)),
            Form::Member(name) => format!(
                "{}::{}{}",
                type_text(&children[0]),
                name,
                arguments_text(&children[1..])
            ),
            Form::Qualified => match children.len() {
                1 => format!("<{}>", type_text(&children[0])),
                _ => format!("<{} as {}>", type_text(&children[0]), type_text(&children[1])),
            },
            Form::Tuple => format!("({})", children.iter().map(|c| type_text(c) + ",").collect::<String>()),
            Form::Slice => format!("[{}]", join(children, "")),
            Form::Array(length) => format!("[{}; {}]", join(children, ""), length),
            Form::ConstPointer => format!("*const {}", join(children, "")),
            Form::MutPointer => format!("*mut {}", join(children, "")),
            Form::Parenthesized => format!("({})", join(children, "")),
            Form::TraitObject => format!("dyn {}", join(children, " + ")),
            Form::ImplTrait => format!("impl {}", join(children, " + ")),
            Form::Modified(prefix) => format!("{} {}", prefix, join(children, "")),
            Form::Binding(name) => format!("{} = {}", name, join(children, "")),
            Form::Constraint(name) => format!("{}: {}", name, join(children, " + ")),
            Form::Verbatim(text) => text.clone(),
        },
    }
}

fn statement_text(statement: &Statement) -> String {
    match statement {
        Statement::Source(text) => text.clone(),
        Statement::ReturnTypeCheck(ty) => format!(
            "if false {{ return ::core::option::Option::<{}>::None {{}}.unwrap(); }}",
            type_text(ty)
        ),
        Statement::BoxPinAsyncMove(statements) => format!(
            "::std::boxed::Box::pin(async move {{ {} }})",
            statements.iter().map(statement_text).collect::<Vec<_>>().join(" ")
        ),
    }
}

fn declaration_text(fun: &Declaration) -> String {
    let params: Vec<String> = fun
        .sig
        .generics
        .params
        .iter()
        .map(|param| match param {
            GenericParam::Scope { attributes, scope, rest } => {
                format!("{} {} {}", attributes, scope.name, rest)
            }
            GenericParam::Type { attributes, name, rest } => format!("{} {} {}", attributes, name, rest),
            GenericParam::Const { attributes, name, rest } => {
                format!("{} const {} {}", attributes, name, rest)
            }
        })
        .collect();
    let predicates: Vec<String> = fun
        .sig
        .generics
        .predicates
        .iter()
        .map(|predicate| match predicate {
            Predicate::Outlives { subject: Subject::Scope(scope), bound } => {
                format!("{}: {}", scope.name, bound.name)
            }
            Predicate::Outlives { subject: Subject::Type(name), bound } => {
                format!("{}: {}", name, bound.name)
            }
            Predicate::Verbatim(text) => text.clone(),
        })
        .collect();
    let inputs: Vec<String> = fun
        .sig
        .inputs
        .iter()
        .map(|input| format!("{}: {}", input.pattern, type_text(&input.ty)))
        .collect();
    format!(
        "{} {} {} fn {}<{}>({}) {} where {} {{ {} }}",
        fun.prelude,
        if fun.sig.asyncness.is_some() { "async" } else { "" },
        fun.sig.qualifiers,
        fun.sig.name,
        params.join(", "),
        inputs.join(", "),
        fun.sig.output.as_ref().map_or(String::new(), |ty| format!("-> {}", type_text(ty))),
        predicates.join(", "),
        fun.block.statements.iter().map(statement_text).collect::<Vec<_>>().join(" ")
    )
}

fn tokens_of(source: &str) -> String {
    match syn::parse_str::<syn::ItemFn>(source) {
        Ok(fun) => fun.to_token_stream().to_string(),
        Err(error) => panic!("`{}` is no function: {}", source, error),
    }
}

fn here(index: usize) -> Position {
    Position { index }
}

fn simple(name: &str) -> TypeExpr {
    TypeExpr::Composite { form: Form::Path(name.to_string()), children: vec![] }
}

fn async_function(
    name: &str,
    params: Vec<GenericParam>,
    inputs: Vec<(&str, TypeExpr)>,
    output: Option<TypeExpr>,
    statements: Vec<&str>,
) -> Declaration {
    Declaration {
        prelude: "pub".to_string(),
        sig: Signature {
            qualifiers: String::new(),
            asyncness: Some(here(0)),
            fn_position: here(1),
            name: name.to_string(),
            generics: Generics { params, predicates: vec![] },
            inputs: inputs
                .into_iter()
                .map(|(pattern, ty)| InputParam { pattern: pattern.to_string(), ty })
                .collect(),
            output,
        },
        block: Body {
            position: here(2),
            statements: statements.into_iter().map(|s| Statement::Source(s.to_string())).collect(),
        },
    }
}

#[test]
fn given_declaration_reads_as_written() {
    let given = async_function(
        "foo",
        vec![],
        vec![(
            "s",
            TypeExpr::Reference {
                position: here(3),
                scope: None,
                mutable: false,
                referee: Box::new(simple("str")),
            },
        )],
        Some(simple("i32")),
        vec!["42"],
    );
    assert_eq!(
        tokens_of(&declaration_text(&given)),
        tokens_of("pub async fn foo(s: &str) -> i32 { 42 }")
    );
}

#[test]
fn rewritten_declaration_reads_as_the_boxed_function() {
    let given = async_function(
        "foo",
        vec![],
        vec![(
            "s",
            TypeExpr::Reference {
                position: here(3),
                scope: None,
                mutable: false,
                referee: Box::new(simple("str")),
            },
        )],
        Some(simple("i32")),
        vec!["42"],
    );
    let rewritten = async_fn_boxed_inner(vec![], Ok(given)).unwrap();
    assert_eq!(
        tokens_of(&declaration_text(&rewritten)),
        tokens_of(
            "pub fn foo<'__fut, '__0>(s: &'__0 str)
                -> ::core::pin::Pin<
                    ::std::boxed::Box<
                        dyn '__fut + ::core::marker::Send + ::core::future::Future<Output = i32>
                    >
                >
            where
                '__0: '__fut
            {
                ::std::boxed::Box::pin(async move {
                    if false { return ::core::option::Option::<i32>::None {}.unwrap(); }
                    42
                })
            }"
        )
    );
}

#[test]
fn rewritten_generic_declaration_reads_as_the_boxed_function() {
    let given = async_function(
        "get",
        vec![
            GenericParam::Scope {
                attributes: String::new(),
                scope: Scope { name: "'a".to_string(), position: here(3) },
                rest: String::new(),
            },
            GenericParam::Type {
                attributes: String::new(),
                name: "T".to_string(),
                rest: ": Sync".to_string(),
            },
            GenericParam::Const {
                attributes: String::new(),
                name: "N".to_string(),
                rest: ": usize".to_string(),
            },
        ],
        vec![
            (
                "map",
                TypeExpr::Reference {
                    position: here(4),
                    scope: Some(Scope { name: "'a".to_string(), position: here(5) }),
                    mutable: true,
                    referee: Box::new(TypeExpr::Composite {
                        form: Form::Path("HashMap".to_string()),
                        children: vec![
                            TypeExpr::Reference {
                                position: here(6),
                                scope: None,
                                mutable: false,
                                referee: Box::new(simple("str")),
                            },
                            TypeExpr::Composite {
                                form: Form::Array("N".to_string()),
                                children: vec![simple("T")],
                            },
                        ],
                    }),
                },
            ),
            (
                "key",
                TypeExpr::Composite {
                    form: Form::Path("Cow".to_string()),
                    children: vec![
                        TypeExpr::ScopeArgument(Scope { name: "'_".to_string(), position: here(7) }),
                        simple("str"),
                    ],
                },
            ),
            (
                "each",
                TypeExpr::Composite {
                    form: Form::ImplTrait,
                    children: vec![
                        TypeExpr::Composite {
                            form: Form::Path("Fn".to_string()),
                            children: vec![TypeExpr::CallableBound {
                                inputs: vec![TypeExpr::Reference {
                                    position: here(8),
                                    scope: None,
                                    mutable: false,
                                    referee: Box::new(simple("T")),
                                }],
                                output: Some(Box::new(simple("bool"))),
                            }],
                        },
                        simple("Send"),
                    ],
                },
            ),
            (
                "done",
                TypeExpr::FunctionPointer {
                    qualifiers: String::new(),
                    inputs: vec![TypeExpr::Reference {
                        position: here(9),
                        scope: None,
                        mutable: false,
                        referee: Box::new(simple("str")),
                    }],
                    output: None,
                },
            ),
        ],
        None,
        vec!["let found = map.get(&*key);", "done(\"done\");"],
    );
    let rewritten = async_fn_boxed_inner(vec![], Ok(given)).unwrap();
    assert_eq!(
        tokens_of(&declaration_text(&rewritten)),
        tokens_of(
            "pub fn get<'__fut, 'a, '__0, '__1, T: Sync, const N: usize>(
                map: &'a mut HashMap<&'__0 str, [T; N]>,
                key: Cow<'__1, str>,
                each: impl Fn(&T) -> bool + Send,
                done: fn(&str)
            ) -> ::core::pin::Pin<
                ::std::boxed::Box<
                    dyn '__fut + ::core::marker::Send + ::core::future::Future<Output = ()>
                >
            >
            where
                'a: '__fut,
                '__0: '__fut,
                '__1: '__fut,
                T: '__fut
            {
                ::std::boxed::Box::pin(async move {
                    if false { return ::core::option::Option::<()>::None {}.unwrap(); }
                    let found = map.get(&*key);
                    done(\"done\");
                })
            }"
        )
    );
}
