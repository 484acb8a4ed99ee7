use vstd::prelude::*;

use crate::spdx::{is_known_license, known_license, same_text};

verus! {

#[derive(Clone, Debug)]
enum Text<'a> {
    Borrowed(&'a str),
    Owned(String),
}

/// An identifier: a view into the parsed input, or a copy that owns its text.
/// Both forms compare by their characters alone.
#[derive(Clone, Debug)]
pub struct Id<'a> {
    text: Text<'a>,
}

impl<'a> View for Id<'a> {
    type V = Seq<char>;

    closed spec fn view(&self) -> Seq<char> {
        match self.text {
            Text::Borrowed(s) => s@,
            Text::Owned(s) => s@,
        }
    }
}

impl<'a> Id<'a> {
    /// Whether the identifier is a view into the input it was read from.
    pub closed spec fn is_borrowed(&self) -> bool {
        self.text is Borrowed
    }

    pub(crate) fn new(id: &'a str) -> (r: Id<'a>)
        ensures
            r@ == id@,
            r.is_borrowed(),
    {
        Id { text: Text::Borrowed(id) }
    }

    /// A copy that no longer refers to the input.
    pub fn into_owned(self) -> (r: Id<'static>)
        ensures
            r@ == self@,
            !r.is_borrowed(),
    {
        match self.text {
            Text::Borrowed(s) => Id { text: Text::Owned(s.to_owned()) },
            Text::Owned(s) => Id { text: Text::Owned(s) },
        }
    }

    pub fn as_str(&self) -> (r: &str)
        ensures
            r@ == self@,
    {
        match &self.text {
            Text::Borrowed(s) => s,
            Text::Owned(s) => s.as_str(),
        }
    }

    /// The text as a view into the input, where the identifier is one.
    pub fn borrowed_text(&self) -> (r: Option<&'a str>)
        ensures
            r is Some <==> self.is_borrowed(),
            r matches Some(s) ==> s@ == self@,
    {
        match &self.text {
            Text::Borrowed(s) => Some(*s),
            Text::Owned(_) => None,
        }
    }
}

impl<'a> PartialEq for Id<'a> {
    fn eq(&self, other: &Id<'a>) -> (r: bool)
        ensures
            r == (self@ == other@),
    {
        same_text(self.as_str(), other.as_str())
    }
}

impl<'a> vstd::std_specs::cmp::PartialEqSpecImpl for Id<'a> {
    open spec fn obeys_eq_spec() -> bool {
        true
    }

    open spec fn eq_spec(&self, other: &Id<'a>) -> bool {
        self@ == other@
    }
}

impl<'a> Eq for Id<'a> {}

/// A single license term.
#[derive(Clone, Debug, PartialEq, Eq)]
pub enum Simple<'a> {
    LicenseId { id: Id<'a>, or_later: bool },
    LicenseRef { id: Id<'a>, document: Option<Id<'a>> },
}

/// A license expression tree.
#[derive(Debug, PartialEq, Eq)]
pub enum Compound<'a> {
    Simple { license: Simple<'a> },
    With { license: Simple<'a>, exception: Id<'a> },
    And { left: Box<Compound<'a>>, right: Box<Compound<'a>> },
    Or { left: Box<Compound<'a>>, right: Box<Compound<'a>> },
}

/// The mathematical value of a `Simple`.
pub enum SimpleModel {
    LicenseId { id: Seq<char>, or_later: bool },
    LicenseRef { id: Seq<char>, document: Option<Seq<char>> },
}

/// The mathematical value of a `Compound`.
pub enum CompoundModel {
    Simple { license: SimpleModel },
    With { license: SimpleModel, exception: Seq<char> },
    And { left: Box<CompoundModel>, right: Box<CompoundModel> },
    Or { left: Box<CompoundModel>, right: Box<CompoundModel> },
}

/// The text of an optional identifier.
pub open spec fn opt_view(d: Option<Id>) -> Option<Seq<char>> {
    match d {
        Some(d) => Some(d@),
        None => None,
    }
}

impl<'a> View for Simple<'a> {
    type V = SimpleModel;

    open spec fn view(&self) -> SimpleModel {
        match self {
            Simple::LicenseId { id, or_later } => SimpleModel::LicenseId { id: id@, or_later: *or_later },
            Simple::LicenseRef { id, document } => SimpleModel::LicenseRef {
                id: id@,
                document: opt_view(*document),
            },
        }
    }
}

/// The mathematical value of a `Compound`, node by node.
pub open spec fn compound_model(c: &Compound) -> CompoundModel
    decreases c,
{
    match c {
        Compound::Simple { license } => CompoundModel::Simple { license: license@ },
        Compound::With { license, exception } => CompoundModel::With {
            license: license@,
            exception: exception@,
        },
        Compound::And { left, right } => CompoundModel::And {
            left: Box::new(compound_model(left)),
            right: Box::new(compound_model(right)),
        },
        Compound::Or { left, right } => CompoundModel::Or {
            left: Box::new(compound_model(left)),
            right: Box::new(compound_model(right)),
        },
    }
}

impl<'a> View for Compound<'a> {
    type V = CompoundModel;

    open spec fn view(&self) -> CompoundModel {
        compound_model(self)
    }
}

/// A term is valid when it is a reference, or a license id that the registry knows
/// (the `+` suffix does not change the id that is looked up).
pub open spec fn simple_valid(s: SimpleModel) -> bool {
    match s {
        SimpleModel::LicenseId { id, .. } => known_license(id),
        SimpleModel::LicenseRef { .. } => true,
    }
}

/// A tree is valid when every one of its terms is.
pub open spec fn compound_valid(c: CompoundModel) -> bool
    decreases c,
{
    match c {
        CompoundModel::Simple { license } => simple_valid(license),
        CompoundModel::With { license, .. } => simple_valid(license),
        CompoundModel::And { left, right } => compound_valid(*left) && compound_valid(*right),
        CompoundModel::Or { left, right } => compound_valid(*left) && compound_valid(*right),
    }
}

/// The first license id, from left to right, that the registry does not know.
pub open spec fn first_unknown_simple(s: SimpleModel) -> Option<Seq<char>> {
    match s {
        SimpleModel::LicenseId { id, .. } => if known_license(id) { None } else { Some(id) },
        SimpleModel::LicenseRef { .. } => None,
    }
}

pub open spec fn first_unknown(c: CompoundModel) -> Option<Seq<char>>
    decreases c,
{
    match c {
        CompoundModel::Simple { license } => first_unknown_simple(license),
        CompoundModel::With { license, .. } => first_unknown_simple(license),
        CompoundModel::And { left, right } | CompoundModel::Or { left, right } => {
            match first_unknown(*left) {
                Some(id) => Some(id),
                None => first_unknown(*right),
            }
        },
    }
}

/// Whether an optional identifier, where present, is a view into the input.
pub open spec fn opt_borrowed(d: Option<Id>) -> bool {
    match d {
        Some(d) => d.is_borrowed(),
        None => true,
    }
}

impl<'a> Simple<'a> {
    /// Whether every identifier of the term is a view into the input.
    pub open spec fn is_borrowed(&self) -> bool {
        match self {
            Simple::LicenseId { id, .. } => id.is_borrowed(),
            Simple::LicenseRef { id, document } => id.is_borrowed() && opt_borrowed(*document),
        }
    }

    /// Whether no identifier of the term is a view into the input.
    pub open spec fn is_owned(&self) -> bool {
        match self {
            Simple::LicenseId { id, .. } => !id.is_borrowed(),
            Simple::LicenseRef { id, document } => !id.is_borrowed() && match document {
                Some(d) => !d.is_borrowed(),
                None => true,
            },
        }
    }

    pub fn is_valid(&self) -> (r: bool)
        ensures
            r == simple_valid(self@),
    {
        match self {
            Simple::LicenseId { id, .. } => is_known_license(id.as_str()),
            Simple::LicenseRef { .. } => true,
        }
    }

    pub fn into_owned(self) -> (r: Simple<'static>)
        ensures
            r@ == self@,
            r.is_owned(),
    {
        match self {
            Simple::LicenseId { id, or_later } => Simple::LicenseId { id: id.into_owned(), or_later },
            Simple::LicenseRef { id, document } => {
                let document = match document {
                    Some(d) => Some(d.into_owned()),
                    None => None,
                };
                Simple::LicenseRef { id: id.into_owned(), document }
            },
        }
    }

    /// The registry-unknown license id of this term, if there is one.
    fn first_unknown(&self) -> (r: Option<&Id<'a>>)
        ensures
            match r {
                Some(id) => first_unknown_simple(self@) == Some(id@) && (self.is_borrowed()
                    ==> id.is_borrowed()),
                None => first_unknown_simple(self@) is None,
            },
    {
        match self {
            Simple::LicenseId { id, .. } => if is_known_license(id.as_str()) {
                None
            } else {
                Some(id)
            },
            Simple::LicenseRef { .. } => None,
        }
    }
}

impl<'a> Compound<'a> {
    /// Whether every identifier of the tree is a view into the input.
    pub open spec fn is_borrowed(&self) -> bool
        decreases self,
    {
        match self {
            Compound::Simple { license } => license.is_borrowed(),
            Compound::With { license, exception } => license.is_borrowed() && exception.is_borrowed(),
            Compound::And { left, right } => left.is_borrowed() && right.is_borrowed(),
            Compound::Or { left, right } => left.is_borrowed() && right.is_borrowed(),
        }
    }

    /// Whether no identifier of the tree is a view into the input.
    pub open spec fn is_owned(&self) -> bool
        decreases self,
    {
        match self {
            Compound::Simple { license } => license.is_owned(),
            Compound::With { license, exception } => license.is_owned() && !exception.is_borrowed(),
            Compound::And { left, right } => left.is_owned() && right.is_owned(),
            Compound::Or { left, right } => left.is_owned() && right.is_owned(),
        }
    }

    pub fn is_valid(&self) -> (r: bool)
        ensures
            r == compound_valid(self@),
        decreases self,
    {
        match self {
            Compound::Simple { license } | Compound::With { license, .. } => license.is_valid(),
            Compound::And { left, right } | Compound::Or { left, right } => left.is_valid()
                && right.is_valid(),
        }
    }

    /// The same tree, holding its own copy of every identifier.
    pub fn into_owned(self) -> (r: Compound<'static>)
        ensures
            r@ == self@,
            r.is_owned(),
        decreases self,
    {
        match self {
            Compound::Simple { license } => Compound::Simple { license: license.into_owned() },
            Compound::With { license, exception } => Compound::With {
                license: license.into_owned(),
                exception: exception.into_owned(),
            },
            Compound::And { left, right } => Compound::And {
                left: Box::new(left.into_owned()),
                right: Box::new(right.into_owned()),
            },
            Compound::Or { left, right } => Compound::Or {
                left: Box::new(left.into_owned()),
                right: Box::new(right.into_owned()),
            },
        }
    }

    /// The leftmost license id of the tree that the registry does not know.
    pub fn first_unknown(&self) -> (r: Option<&Id<'a>>)
        ensures
            match r {
                Some(id) => first_unknown(self@) == Some(id@) && (self.is_borrowed()
                    ==> id.is_borrowed()),
                None => first_unknown(self@) is None,
            },
        decreases self,
    {
        match self {
            Compound::Simple { license } | Compound::With { license, .. } => license.first_unknown(),
            Compound::And { left, right } | Compound::Or { left, right } => {
                match left.first_unknown() {
                    Some(id) => Some(id),
                    None => right.first_unknown(),
                }
            },
        }
    }
}

/// A tree is valid exactly when it has no unknown license id.
pub proof fn lemma_valid_iff_no_unknown(c: CompoundModel)
    ensures
        compound_valid(c) <==> first_unknown(c) is None,
    decreases c,
{
    match c {
        CompoundModel::And { left, right } | CompoundModel::Or { left, right } => {
            lemma_valid_iff_no_unknown(*left);
            lemma_valid_iff_no_unknown(*right);
        },
        _ => {},
    }
}

/// A license reference is valid whatever the registry holds.
pub proof fn lemma_reference_always_valid(id: Seq<char>, document: Option<Seq<char>>)
    ensures
        simple_valid(SimpleModel::LicenseRef { id, document }),
        compound_valid(CompoundModel::Simple { license: SimpleModel::LicenseRef { id, document } }),
{
}

/// The `+` suffix does not change validity: `id+` is valid exactly when the
/// registry knows `id`.
pub proof fn lemma_or_later_checks_bare_id(id: Seq<char>)
    ensures
        simple_valid(SimpleModel::LicenseId { id, or_later: true }) == known_license(id),
        simple_valid(SimpleModel::LicenseId { id, or_later: true }) == simple_valid(
            SimpleModel::LicenseId { id, or_later: false },
        ),
{
}

} // verus!
