use vstd::prelude::*;

mod canonical;
mod expr;
mod parser;
mod round_trip;
mod spdx;

pub use canonical::{paren_if, print_compound, print_simple};
pub use expr::{
    lemma_or_later_checks_bare_id, lemma_reference_always_valid, lemma_valid_iff_no_unknown,
    compound_valid, first_unknown, simple_valid, Compound, CompoundModel, Id, Simple, SimpleModel,
};
pub use parser::{alphanumeric, is_id_char, parse_expression, parse_or, skip_ws, valid_id_char};
pub use round_trip::lemma_round_trip;
pub use spdx::{is_known_license, known_license};

verus! {

/// A term or operator of an expression, named as context in errors.
#[derive(Debug, Clone, Copy)]
pub enum LicenseExpr<'a> {
    License(&'a str),
    Exception(&'a str),
    And,
    Or,
    With,
}

impl<'a> LicenseExpr<'a> {
    /// The text of the term, or the keyword of the operator.
    pub open spec fn text(&self) -> Seq<char> {
        match *self {
            LicenseExpr::License(t) => t@,
            LicenseExpr::Exception(t) => t@,
            LicenseExpr::And => "AND"@,
            LicenseExpr::Or => "OR"@,
            LicenseExpr::With => "WITH"@,
        }
    }

    pub fn as_str(&self) -> (r: &'a str)
        ensures
            r@ == self.text(),
    {
        match *self {
            LicenseExpr::License(t) => t,
            LicenseExpr::Exception(t) => t,
            LicenseExpr::And => "AND",
            LicenseExpr::Or => "OR",
            LicenseExpr::With => "WITH",
        }
    }
}

/// Why an expression was refused.
#[derive(Debug, Clone, Copy)]
pub enum ParseError<'a> {
    /// The expression parses, and names this license id, which the registry lacks.
    UnknownLicenseId(&'a str),
    /// The expression does not parse in full.
    InvalidStructure(LicenseExpr<'a>),
}

impl<'a> ParseError<'a> {
    pub fn description(&self) -> (r: &'static str)
        ensures
            self is UnknownLicenseId ==> r@ == "unknown license or other term"@,
            self is InvalidStructure ==> r@ == "invalid license expression"@,
    {
        match *self {
            ParseError::UnknownLicenseId(_) => "unknown license or other term",
            ParseError::InvalidStructure(_) => "invalid license expression",
        }
    }

    /// The description followed by `": "` and the context.
    pub fn message(&self) -> (r: String)
        ensures
            match *self {
                ParseError::UnknownLicenseId(t) => r@ == "unknown license or other term"@ + ": "@
                    + t@,
                ParseError::InvalidStructure(x) => r@ == "invalid license expression"@ + ": "@
                    + x.text(),
            },
    {
        let mut m = self.description().to_owned();
        m.append(": ");
        match *self {
            ParseError::UnknownLicenseId(t) => m.append(t),
            ParseError::InvalidStructure(x) => m.append(x.as_str()),
        }
        m
    }
}

/// The text from where parsing stalled: after the longest expression that
/// parses, or the whole input where none does.
pub open spec fn stall_context(s: Seq<char>) -> Seq<char> {
    match parse_or(s, 0) {
        Some((_, q)) => s.subrange(skip_ws(s, q), s.len() as int),
        None => s,
    }
}

/// Parses a whole expression; identifiers in the tree are views into `expr`.
pub fn parse_license_expr<'a>(expr: &'a str) -> (r: Result<Compound<'a>, ParseError<'a>>)
    ensures
        match r {
            Ok(c) => parse_expression(expr@) == Some(c@) && c.is_borrowed(),
            Err(e) => parse_expression(expr@) is None && (e matches ParseError::InvalidStructure(
                LicenseExpr::License(t),
            ) && t@ == stall_context(expr@)),
        },
{
    let chars = parser::to_chars(expr);
    match parser::or_at(expr, &chars, 0) {
        Some((c, q)) => {
            let r = parser::skip_spaces(&chars, q);
            if r == chars.len() {
                Ok(c)
            } else {
                Err(
                    ParseError::InvalidStructure(
                        LicenseExpr::License(expr.substring_char(r, chars.len())),
                    ),
                )
            }
        },
        None => Err(ParseError::InvalidStructure(LicenseExpr::License(expr))),
    }
}

/// Parses `license_expr` and checks every license id of it against the registry.
pub fn validate_license_expr<'a>(license_expr: &'a str) -> (r: Result<(), ParseError<'a>>)
    ensures
        match r {
            Ok(()) => parse_expression(license_expr@) matches Some(c) && compound_valid(c),
            Err(ParseError::UnknownLicenseId(id)) => parse_expression(license_expr@) matches Some(c)
                && !compound_valid(c) && first_unknown(c) == Some(id@),
            Err(ParseError::InvalidStructure(x)) => parse_expression(license_expr@) is None
                && (x matches LicenseExpr::License(t) && t@ == stall_context(license_expr@)),
        },
{
    match parse_license_expr(license_expr) {
        Ok(tree) => {
            proof {
                expr::lemma_valid_iff_no_unknown(tree@);
            }
            match tree.first_unknown() {
                Some(id) => Err(ParseError::UnknownLicenseId(id.borrowed_text().unwrap())),
                None => Ok(()),
            }
        },
        Err(e) => Err(e),
    }
}

/// Edition of the embedded SPDX license list.
pub fn license_version() -> (r: &'static str)
    ensures
        r@ == spdx::VERSION@,
{
    spdx::VERSION
}

} // verus!
