use license_exprs::{
    is_known_license, license_version, parse_license_expr, validate_license_expr, LicenseExpr,
    ParseError, Compound,
};

fn unknown_id(s: &str) -> String {
    match validate_license_expr(s) {
        Err(ParseError::UnknownLicenseId(id)) => id.to_string(),
        other => panic!("expected an unknown id for {:?}, got {:?}", s, other),
    }
}

#[test]
fn known_license_validates() {
    assert!(validate_license_expr("MIT").is_ok());
    assert!(validate_license_expr("MIT OR (Apache-2.0 WITH LLVM-exception)").is_ok());
}

#[test]
fn unknown_license_is_reported() {
    assert_eq!(unknown_id("NotARealLicense-1.0"), "NotARealLicense-1.0");
}

#[test]
fn first_unknown_license_is_reported() {
    assert_eq!(unknown_id("MIT AND Foo OR (Bar WITH Baz)"), "Foo");
    assert_eq!(unknown_id("(MIT OR Bar) AND Foo"), "Bar");
}

#[test]
fn license_ref_always_validates() {
    assert!(validate_license_expr("LicenseRef-my-custom-license").is_ok());
    assert!(validate_license_expr("DocumentRef-doc1:LicenseRef-x").is_ok());
}

#[test]
fn or_later_checks_the_bare_id() {
    assert!(validate_license_expr("MIT+").is_ok());
    assert_eq!(unknown_id("NotARealLicense-1.0+"), "NotARealLicense-1.0");
}

#[test]
fn exceptions_are_not_checked() {
    assert!(validate_license_expr("MIT WITH Anything-Goes").is_ok());
}

#[test]
fn lookup_is_case_sensitive() {
    assert_eq!(unknown_id("mit"), "mit");
    assert!(is_known_license("MIT"));
    assert!(!is_known_license("mit"));
    assert!(!is_known_license(""));
    assert!(is_known_license("0BSD"));
    assert!(is_known_license("ZPL-2.1"));
}

#[test]
fn structure_errors_come_before_lookup() {
    match validate_license_expr("Foo extra") {
        Err(ParseError::InvalidStructure(LicenseExpr::License(t))) => assert_eq!(t, "extra"),
        other => panic!("{:?}", other),
    }
    match validate_license_expr("(MIT OR Apache-2.0) WITH E") {
        Err(ParseError::InvalidStructure(_)) => {},
        other => panic!("{:?}", other),
    }
}

#[test]
fn validity_of_trees() {
    assert!(parse_license_expr("MIT AND Zlib").unwrap().is_valid());
    assert!(!parse_license_expr("MIT AND Foo").unwrap().is_valid());
    assert!(parse_license_expr("LicenseRef-x").unwrap().is_valid());
    match parse_license_expr("GPL-3.0-only+ WITH Foo").unwrap() {
        Compound::With { license, .. } => {
            assert!(license.is_valid());
            assert!(license.into_owned().is_valid());
        },
        other => panic!("{:?}", other),
    }
    match parse_license_expr("Foo").unwrap() {
        Compound::Simple { license } => assert!(!license.is_valid()),
        other => panic!("{:?}", other),
    }
}

#[test]
fn error_messages() {
    assert_eq!(
        ParseError::UnknownLicenseId("Foo").message(),
        "unknown license or other term: Foo"
    );
    assert_eq!(
        ParseError::InvalidStructure(LicenseExpr::And).message(),
        "invalid license expression: AND"
    );
    assert_eq!(ParseError::InvalidStructure(LicenseExpr::Or).description(), "invalid license expression");
    assert_eq!(LicenseExpr::With.as_str(), "WITH");
    assert_eq!(LicenseExpr::Exception("E").as_str(), "E");
}

#[test]
fn version_of_the_license_list() {
    assert_eq!(license_version(), "3.24");
}
