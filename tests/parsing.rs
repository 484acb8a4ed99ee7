use license_exprs::{parse_license_expr, valid_id_char, Compound, LicenseExpr, ParseError, Simple};

fn license_id<'a>(c: &'a Compound) -> (&'a str, bool) {
    match c {
        Compound::Simple { license: Simple::LicenseId { id, or_later } } => (id.as_str(), *or_later),
        other => panic!("not a license id: {:?}", other),
    }
}

fn canonical(s: &str) -> String {
    parse_license_expr(s).unwrap().to_canonical()
}

fn invalid_context(s: &str) -> String {
    match parse_license_expr(s) {
        Err(ParseError::InvalidStructure(LicenseExpr::License(t))) => t.to_string(),
        other => panic!("expected an invalid structure for {:?}, got {:?}", s, other),
    }
}

#[test]
fn with_binds_tighter_than_and() {
    let tree = parse_license_expr("A WITH E AND B").unwrap();
    match tree {
        Compound::And { left, right } => {
            match *left {
                Compound::With { license: Simple::LicenseId { id, or_later }, exception } => {
                    assert_eq!(id.as_str(), "A");
                    assert!(!or_later);
                    assert_eq!(exception.as_str(), "E");
                },
                other => panic!("left operand: {:?}", other),
            }
            assert_eq!(license_id(&right), ("B", false));
        },
        other => panic!("not an AND: {:?}", other),
    }
}

#[test]
fn and_binds_tighter_than_or() {
    let tree = parse_license_expr("A AND B OR C").unwrap();
    match tree {
        Compound::Or { left, right } => {
            match *left {
                Compound::And { left: a, right: b } => {
                    assert_eq!(license_id(&a), ("A", false));
                    assert_eq!(license_id(&b), ("B", false));
                },
                other => panic!("left operand: {:?}", other),
            }
            assert_eq!(license_id(&right), ("C", false));
        },
        other => panic!("not an OR: {:?}", other),
    }
}

#[test]
fn and_is_left_associative() {
    let tree = parse_license_expr("A AND B AND C").unwrap();
    match tree {
        Compound::And { left, right } => {
            match *left {
                Compound::And { left: a, right: b } => {
                    assert_eq!(license_id(&a), ("A", false));
                    assert_eq!(license_id(&b), ("B", false));
                },
                other => panic!("left operand: {:?}", other),
            }
            assert_eq!(license_id(&right), ("C", false));
        },
        other => panic!("not an AND: {:?}", other),
    }
}

#[test]
fn or_is_left_associative() {
    assert_eq!(canonical("A OR B OR C"), "(A OR B) OR C");
}

#[test]
fn parentheses_override_precedence() {
    let tree = parse_license_expr("A AND (B OR C)").unwrap();
    match tree {
        Compound::And { left, right } => {
            assert_eq!(license_id(&left), ("A", false));
            match *right {
                Compound::Or { left: b, right: c } => {
                    assert_eq!(license_id(&b), ("B", false));
                    assert_eq!(license_id(&c), ("C", false));
                },
                other => panic!("right operand: {:?}", other),
            }
        },
        other => panic!("not an AND: {:?}", other),
    }
}

#[test]
fn document_ref_parses() {
    let tree = parse_license_expr("DocumentRef-doc1:LicenseRef-x").unwrap();
    match tree {
        Compound::Simple { license: Simple::LicenseRef { id, document } } => {
            assert_eq!(id.as_str(), "x");
            assert_eq!(document.unwrap().as_str(), "doc1");
        },
        other => panic!("not a reference: {:?}", other),
    }
}

#[test]
fn license_ref_without_document_parses() {
    let tree = parse_license_expr("LicenseRef-my-custom-license").unwrap();
    match tree {
        Compound::Simple { license: Simple::LicenseRef { id, document } } => {
            assert_eq!(id.as_str(), "my-custom-license");
            assert!(document.is_none());
        },
        other => panic!("not a reference: {:?}", other),
    }
}

#[test]
fn plus_marks_or_later() {
    let tree = parse_license_expr("GPL-2.0+").unwrap();
    assert_eq!(license_id(&tree), ("GPL-2.0", true));
}

#[test]
fn whitespace_around_operators_and_parentheses() {
    assert_eq!(canonical("  ( MIT\tOR\nApache-2.0 )  AND  Zlib "), "(MIT OR Apache-2.0) AND Zlib");
    assert_eq!(canonical("(MIT)"), "MIT");
    assert_eq!(canonical("((MIT))AND(Zlib)"), "MIT AND Zlib");
}

#[test]
fn trailing_garbage_is_invalid() {
    assert_eq!(invalid_context("MIT extra"), "extra");
}

#[test]
fn with_after_parentheses_is_invalid() {
    assert_eq!(invalid_context("(MIT OR Apache-2.0) WITH E"), "WITH E");
}

#[test]
fn malformed_inputs_are_invalid() {
    assert_eq!(invalid_context(""), "");
    assert_eq!(invalid_context("(MIT"), "(MIT");
    assert_eq!(invalid_context("MIT AND"), "MIT AND");
    assert_eq!(invalid_context("MIT WITH"), "MIT WITH");
    assert_eq!(invalid_context("LicenseRef-"), "LicenseRef-");
    assert_eq!(invalid_context("DocumentRef-:LicenseRef-x"), "DocumentRef-:LicenseRef-x");
    assert_eq!(invalid_context("DocumentRef-d:Other"), "DocumentRef-d:Other");
}

#[test]
fn keywords_need_a_boundary() {
    assert_eq!(invalid_context("MIT ANDApache-2.0"), "ANDApache-2.0");
    assert_eq!(invalid_context("MIT WITHE"), "WITHE");
    assert_eq!(invalid_context("LicenseRef-y+"), "+");
}

#[test]
fn keyword_words_can_be_ids_in_operand_position() {
    let tree = parse_license_expr("AND AND OR").unwrap();
    match tree {
        Compound::And { left, right } => {
            assert_eq!(license_id(&left), ("AND", false));
            assert_eq!(license_id(&right), ("OR", false));
        },
        other => panic!("not an AND: {:?}", other),
    }
}

#[test]
fn canonical_text_parses_back_to_the_same_tree() {
    let inputs = [
        "MIT",
        "GPL-2.0+",
        "A WITH E AND B",
        "A AND B OR C",
        "A AND (B OR C)",
        "A AND B AND C",
        "(A OR B) AND (C OR D WITH X)",
        "DocumentRef-d:LicenseRef-x OR LicenseRef-y",
        "  ( MIT )   OR  ( Apache-2.0 AND (Zlib) ) ",
    ];
    for s in inputs.iter() {
        let first = parse_license_expr(s).unwrap();
        let text = first.to_canonical();
        let second = parse_license_expr(&text).unwrap();
        assert_eq!(first, second, "{}", s);
        assert_eq!(second.to_canonical(), text);
    }
}

#[test]
fn canonical_text_shape() {
    assert_eq!(canonical("A  WITH  E"), "A WITH E");
    assert_eq!(canonical("A AND (B AND C)"), "A AND (B AND C)");
    assert_eq!(canonical("DocumentRef-d:LicenseRef-x"), "DocumentRef-d:LicenseRef-x");
}

#[test]
fn owned_tree_equals_borrowed_tree() {
    let text = "MIT OR (Apache-2.0 WITH LLVM-exception AND DocumentRef-a:LicenseRef-b)";
    let input = String::from(text);
    let owned = parse_license_expr(&input).unwrap().into_owned();
    assert_eq!(parse_license_expr(&input).unwrap(), owned);
    drop(input);
    assert_eq!(parse_license_expr(text).unwrap(), owned);
    assert_eq!(owned.to_canonical(), text);
}

#[test]
fn id_characters() {
    for c in ['a', 'Z', '0', '9', '-', '.', 'é', 'ж', '7'].iter() {
        assert!(valid_id_char(*c), "{:?}", c);
    }
    for c in [' ', '+', '(', ')', ':', '_', '/', '\t', '\u{3000}'].iter() {
        assert!(!valid_id_char(*c), "{:?}", c);
    }
}

#[test]
fn non_ascii_letters_stay_in_one_id() {
    let tree = parse_license_expr("Lizenz-ü").unwrap();
    assert_eq!(license_id(&tree), ("Lizenz-ü", false));
}
