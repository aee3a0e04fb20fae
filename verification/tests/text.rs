use pycodegen::ast::{Expr, ExprName, ExprStringLiteral, Int, Stmt, StmtExpr, TextRange};
use pycodegen::compiler::CompileOpts;
use pycodegen::doc::{clean_doc, expandtabs, split_doc};
use pycodegen::error::CodegenErrorType;
use pycodegen::integer::{integer_or_error, ruff_int_to_bigint, split_radix};
use pycodegen::symboltable::mangle_name;

fn class(name: &str) -> Option<String> {
    Some(name.to_string())
}

#[test]
fn private_names_are_mangled() {
    assert_eq!(mangle_name(&class("A"), "__x"), "_A__x");
    assert_eq!(mangle_name(&class("_A"), "__x"), "_A__x");
    assert_eq!(mangle_name(&None, "__x"), "__x");
    assert_eq!(mangle_name(&class("A"), "__init__"), "__init__");
    assert_eq!(mangle_name(&class("A"), "_x"), "_x");
    assert_eq!(mangle_name(&class("A"), "__a.b"), "__a.b");
    let once = mangle_name(&class("A"), "__x");
    assert_eq!(mangle_name(&class("A"), once.as_str()), once);
}

#[test]
fn docstrings_lose_their_indentation() {
    assert_eq!(clean_doc("one line"), "one line");
    assert_eq!(clean_doc("   one line"), "one line");
    assert_eq!(clean_doc("    first\n    second\n      third\n"), "first\nsecond\n  third\n");
    assert_eq!(clean_doc("\n    first\n\n    second"), "\nfirst\n\nsecond");
    assert_eq!(clean_doc("\n\tfirst\n        second"), "\nfirst\nsecond");
    assert_eq!(clean_doc("    first\n  second"), "first\nsecond");
    assert_eq!(clean_doc("  first\r\n  second"), "first\nsecond");
}

#[test]
fn the_least_indented_line_after_the_first_sets_the_margin() {
    assert_eq!(clean_doc("first\n    second"), "first\nsecond");
    assert_eq!(clean_doc("  first\n    second"), "first\nsecond");
    assert_eq!(clean_doc("first\n    second\n  third\n"), "first\n  second\nthird\n");
    assert_eq!(clean_doc("first\n\n    second\n  "), "first\n\nsecond\n");
    assert_eq!(clean_doc("  first\n  \n "), "first\n  \n ");
}

#[test]
fn cleaning_takes_nothing_but_indentation() {
    let docs = [
        "one",
        "\t one\n\t\ttwo\n\n\t three\n",
        "   \n      one\n    two  \n  ",
        " one\n\u{a0}\n  two",
    ];
    for doc in docs {
        let once = clean_doc(doc);
        let expanded = expandtabs(doc);
        assert_eq!(clean_doc(once.as_str()), once);
        assert!(!once.contains('\t'));
        assert!(!once.starts_with(' '));
        let lines: Vec<&str> = once.split('\n').map(|line| line.trim_start()).collect();
        let before: Vec<&str> = expanded.split('\n').map(|line| line.trim_start()).collect();
        assert_eq!(lines, before);
        assert_eq!(lines.len(), doc.split('\n').count());
    }
}

#[test]
fn blank_docstrings_stay_as_they_are() {
    assert_eq!(clean_doc(""), "");
    assert_eq!(clean_doc("  \n   "), "  \n   ");
}

#[test]
fn tabs_go_to_the_next_stop() {
    assert_eq!(expandtabs("\tx"), "        x");
    assert_eq!(expandtabs("ab\tx"), "ab      x");
    assert_eq!(expandtabs("a\n\tx"), "a\n        x");
}

#[test]
fn a_docstring_is_split_off_its_body() {
    let doc = || {
        Stmt::Expr(StmtExpr {
            range: TextRange::default(),
            value: Box::new(Expr::StringLiteral(ExprStringLiteral {
                range: TextRange::default(),
                value: " doc".to_string(),
            })),
        })
    };
    let other = || {
        Stmt::Expr(StmtExpr {
            range: TextRange::default(),
            value: Box::new(Expr::Name(ExprName {
                range: TextRange::default(),
                id: "x".to_string(),
            })),
        })
    };
    let plain = CompileOpts { optimize: 0 };
    assert_eq!(split_doc(&vec![doc(), other()], &plain), (Some("doc".to_string()), 1));
    assert_eq!(split_doc(&vec![other(), doc()], &plain), (None, 0));
    assert_eq!(split_doc(&vec![], &plain), (None, 0));
    let optimised = CompileOpts { optimize: 2 };
    assert_eq!(split_doc(&vec![doc()], &optimised), (None, 1));
}

#[test]
fn integer_literals_have_a_radix() {
    let big = |s: &str| match ruff_int_to_bigint(&Int::Big(s.to_string())) {
        Ok(value) => value.to_string(),
        Err(CodegenErrorType::SyntaxError(message)) => message,
        Err(_) => panic!("another error"),
    };
    let power = "340282366920938463463374607431768211456";
    assert_eq!(big(power), power);
    assert_eq!(big("0x100000000000000000000000000000000"), power);
    assert_eq!(big("0B101"), "5");
    assert_eq!(big("0o17"), "15");
    assert_eq!(big("0X1f"), "31");
    assert_eq!(
        big("0x"),
        "unparsed integer literal (radix 16):  (cannot parse integer from empty string)"
    );
    assert_eq!(
        big("1z"),
        "unparsed integer literal (radix 10): 1z (invalid digit found in string)"
    );
    assert_eq!(
        big("0o18"),
        "unparsed integer literal (radix 8): 18 (invalid digit found in string)"
    );
    let small = ruff_int_to_bigint(&Int::Small(u64::MAX));
    assert!(matches!(small, Ok(v) if v.to_string() == u64::MAX.to_string()));
}

#[test]
fn prefixes_are_taken_off() {
    assert_eq!(split_radix("0b11"), (2, "11".to_string()));
    assert_eq!(split_radix("0O7"), (8, "7".to_string()));
    assert_eq!(split_radix("0xF"), (16, "F".to_string()));
    assert_eq!(split_radix("12"), (10, "12".to_string()));
    assert_eq!(split_radix(""), (10, "".to_string()));
    let failed = integer_or_error(8, "9", Err("invalid digit".to_string()));
    assert!(matches!(
        failed,
        Err(CodegenErrorType::SyntaxError(s))
            if s == "unparsed integer literal (radix 8): 9 (invalid digit)"
    ));
}
