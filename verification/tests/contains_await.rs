use pycodegen::ast::{
    Comprehension, ConversionFlag, DictItem, Expr, ExprAwait, ExprDict, ExprFString, ExprLambda,
    ExprListComp, ExprName, FString, FStringElement, FStringExpressionElement, FStringFormatSpec,
    FStringPart, FStringValue, Parameter, ParameterWithDefault, Parameters, TextRange,
};
use pycodegen::compiler::Compiler;

fn single(f: FString) -> FStringValue {
    FStringValue { parts: vec![FStringPart::FString(f)] }
}

/// Test if the compiler can correctly identify fstrings containing an `await` expression.
#[test]
fn test_fstring_contains_await() {
    let range = TextRange::default();

    // f'{x}'
    let expr_x = Expr::Name(ExprName { range, id: "x".to_string() });
    let not_present = &Expr::FString(ExprFString {
        range,
        value: single(FString {
            elements: vec![FStringElement::Expression(FStringExpressionElement {
                expression: Box::new(expr_x),
                debug_text: None,
                conversion: ConversionFlag::Plain,
                format_spec: None,
            })],
        }),
    });
    assert_eq!(Compiler::contains_await(not_present), false);

    // f'{await x}'
    let expr_await_x = Expr::Await(ExprAwait {
        range,
        value: Box::new(Expr::Name(ExprName { range, id: "x".to_string() })),
    });
    let present = &Expr::FString(ExprFString {
        range,
        value: single(FString {
            elements: vec![FStringElement::Expression(FStringExpressionElement {
                expression: Box::new(expr_await_x),
                debug_text: None,
                conversion: ConversionFlag::Plain,
                format_spec: None,
            })],
        }),
    });
    assert_eq!(Compiler::contains_await(present), true);

    // f'{x:{await y}}'
    let expr_x = Expr::Name(ExprName { range, id: "x".to_string() });
    let expr_await_y = Expr::Await(ExprAwait {
        range,
        value: Box::new(Expr::Name(ExprName { range, id: "y".to_string() })),
    });
    let present = &Expr::FString(ExprFString {
        range,
        value: single(FString {
            elements: vec![FStringElement::Expression(FStringExpressionElement {
                expression: Box::new(expr_x),
                debug_text: None,
                conversion: ConversionFlag::Plain,
                format_spec: Some(Box::new(FStringFormatSpec {
                    elements: vec![FStringElement::Expression(FStringExpressionElement {
                        expression: Box::new(expr_await_y),
                        debug_text: None,
                        conversion: ConversionFlag::Plain,
                        format_spec: None,
                    })],
                })),
            })],
        }),
    });
    assert_eq!(Compiler::contains_await(present), true);
}

fn name(id: &str) -> Expr {
    Expr::Name(ExprName { range: TextRange::default(), id: id.to_string() })
}

fn awaited(id: &str) -> Expr {
    Expr::Await(ExprAwait { range: TextRange::default(), value: Box::new(name(id)) })
}

fn generator(target: Expr, iter: Expr, ifs: Vec<Expr>) -> Expr {
    Expr::ListComp(ExprListComp {
        range: TextRange::default(),
        elt: Box::new(name("x")),
        generators: vec![Comprehension { target, iter, ifs, is_async: false }],
    })
}

#[test]
fn an_await_counts_wherever_it_stands() {
    let range = TextRange::default();
    assert!(Compiler::contains_await(&awaited("x")));
    assert!(!Compiler::contains_await(&name("x")));
    let dict = |key: Expr, value: Expr| {
        Expr::Dict(ExprDict { range, items: vec![DictItem { key: Some(key), value }] })
    };
    assert!(Compiler::contains_await(&dict(awaited("k"), name("v"))));
    assert!(Compiler::contains_await(&dict(name("k"), awaited("v"))));
    assert!(!Compiler::contains_await(&dict(name("k"), name("v"))));
    assert!(Compiler::contains_await(&generator(name("x"), awaited("y"), vec![])));
    assert!(Compiler::contains_await(&generator(name("x"), name("y"), vec![awaited("z")])));
    assert!(!Compiler::contains_await(&generator(name("x"), name("y"), vec![name("z")])));
    let lambda = |default: Expr, body: Expr| {
        Expr::Lambda(ExprLambda {
            range,
            parameters: Some(Box::new(Parameters {
                posonlyargs: vec![],
                args: vec![ParameterWithDefault {
                    parameter: Parameter { name: "a".to_string(), annotation: None },
                    default: Some(Box::new(default)),
                }],
                vararg: None,
                kwonlyargs: vec![],
                kwarg: None,
            })),
            body: Box::new(body),
        })
    };
    assert!(Compiler::contains_await(&lambda(awaited("d"), name("b"))));
    assert!(Compiler::contains_await(&lambda(name("d"), awaited("b"))));
    assert!(!Compiler::contains_await(&lambda(name("d"), name("b"))));
}
