use async_fn_boxed::naming::{
    decimal_text, declares_scope, first_free_name, numbered_name_text,
};
use async_fn_boxed::syntax::{
    Form, GenericParam, Generics, Position, Scope, TypeExpr,
};
use async_fn_boxed::syntax::clone_types;

fn scopes(names: &[&str]) -> Generics {
    Generics {
        params: names
            .iter()
            .map(|name| GenericParam::Scope {
                scope: Scope { name: name.to_string(), position: Position { index: 1 } },
                attributes: String::new(), rest: String::new(),
            })
            .collect(),
        predicates: vec![],
    }
}

#[test]
fn numbers_in_decimal() {
    assert_eq!(decimal_text(0), "0");
    assert_eq!(decimal_text(7), "7");
    assert_eq!(decimal_text(9), "9");
    assert_eq!(decimal_text(10), "10");
    assert_eq!(decimal_text(42), "42");
    assert_eq!(decimal_text(100), "100");
    assert_eq!(decimal_text(120), "120");
    assert_eq!(decimal_text(9876543210), "9876543210");
    assert_eq!(decimal_text(usize::MAX), usize::MAX.to_string());
}

#[test]
fn names_are_marker_and_number() {
    assert_eq!(numbered_name_text("'__", 0), "'__0");
    assert_eq!(numbered_name_text("'__", 13), "'__13");
    assert_eq!(numbered_name_text("'__fut", 2), "'__fut2");
    assert_eq!(numbered_name_text("", 305), "305");
}

#[test]
fn declared_scopes_are_found_by_name() {
    let mut generics = scopes(&["'a", "'__0"]);
    generics.params.push(GenericParam::Type { attributes: String::new(), name: "T".to_string(), rest: String::new() });
    generics.params.push(GenericParam::Const { attributes: String::new(), name: "N".to_string(), rest: String::new() });
    assert!(declares_scope(&generics, &"'a".to_string()));
    assert!(declares_scope(&generics, &"'__0".to_string()));
    assert!(!declares_scope(&generics, &"'b".to_string()));
    assert!(!declares_scope(&generics, &"a".to_string()));
    assert!(!declares_scope(&generics, &"T".to_string()));
    assert!(!declares_scope(&generics, &"N".to_string()));
    assert!(!declares_scope(&scopes(&[]), &"'a".to_string()));
}

#[test]
fn first_free_name_skips_the_declared_ones() {
    assert_eq!(first_free_name(&scopes(&[]), "'__", 0), (0, "'__0".to_string()));
    assert_eq!(first_free_name(&scopes(&["'__0"]), "'__", 0), (1, "'__1".to_string()));
    assert_eq!(first_free_name(&scopes(&["'__1", "'__0"]), "'__", 0), (2, "'__2".to_string()));
    assert_eq!(first_free_name(&scopes(&["'__1", "'__0"]), "'__", 1), (2, "'__2".to_string()));
    assert_eq!(first_free_name(&scopes(&["'__0", "'__2"]), "'__", 1), (1, "'__1".to_string()));
    assert_eq!(first_free_name(&scopes(&["'__0", "'__0"]), "'__", 0), (1, "'__1".to_string()));
    assert_eq!(first_free_name(&scopes(&["'__00", "'__01"]), "'__", 0), (0, "'__0".to_string()));
    assert_eq!(first_free_name(&scopes(&["'__0"]), "'__fut", 0), (0, "'__fut0".to_string()));
}

#[test]
fn copies_are_equal_to_what_was_copied() {
    let position = Position { index: 34 };
    let scope = Scope { name: "'a".to_string(), position };
    assert_eq!(scope.clone(), scope);

    let tree = TypeExpr::Reference {
        position,
        scope: Some(scope.clone()),
        mutable: true,
        referee: Box::new(TypeExpr::Composite {
            form: Form::Path("Vec".to_string()),
            children: vec![
                TypeExpr::FunctionPointer {
                    qualifiers: "unsafe".to_string(),
                    inputs: vec![TypeExpr::ScopeArgument(scope.clone())],
                    output: Some(Box::new(TypeExpr::Composite { form: Form::Tuple, children: vec![] })),
                },
                TypeExpr::CallableBound { inputs: vec![], output: None },
                TypeExpr::Composite { form: Form::Array("4".to_string()), children: vec![] },
            ],
        }),
    };
    assert_eq!(tree.clone(), tree);
    assert_eq!(clone_types(&vec![tree.clone(), tree.clone()]), vec![tree.clone(), tree]);

    let forms = vec![
        Form::Path("a".to_string()),
        Form::Member("b".to_string()),
        Form::Qualified,
        Form::Tuple,
        Form::Slice,
        Form::Array("N".to_string()),
        Form::ConstPointer,
        Form::MutPointer,
        Form::Parenthesized,
        Form::TraitObject,
        Form::ImplTrait,
        Form::Modified("?".to_string()),
        Form::Binding("Item".to_string()),
        Form::Constraint("Item".to_string()),
        Form::Verbatim("!".to_string()),
    ];
    for form in &forms {
        assert_eq!(&form.clone(), form);
    }
}
