use vstd::prelude::*;

use crate::expr::{Compound, CompoundModel, Simple, SimpleModel};
use crate::parser::{doc_prefix, kw_and, kw_or, kw_with, ref_prefix};

verus! {

/// A term written back: `id`, `id+`, `LicenseRef-id` or `DocumentRef-doc:LicenseRef-id`.
pub open spec fn print_simple(l: SimpleModel) -> Seq<char> {
    match l {
        SimpleModel::LicenseId { id, or_later } => if or_later {
            id.push('+')
        } else {
            id
        },
        SimpleModel::LicenseRef { id, document } => match document {
            Some(d) => doc_prefix() + d + seq![':'] + ref_prefix() + id,
            None => ref_prefix() + id,
        },
    }
}

/// `t`, in parentheses where `c` is an `AND` or an `OR`.
pub open spec fn paren_if(c: CompoundModel, t: Seq<char>) -> Seq<char> {
    if c is And || c is Or {
        seq!['('] + t + seq![')']
    } else {
        t
    }
}

/// The canonical text of a tree: single spaces around keywords, and every
/// `AND` or `OR` operand that is itself an `AND` or an `OR` in parentheses.
pub open spec fn print_compound(c: CompoundModel) -> Seq<char>
    decreases c,
{
    match c {
        CompoundModel::Simple { license } => print_simple(license),
        CompoundModel::With { license, exception } => print_simple(license) + seq![' '] + kw_with()
            + seq![' '] + exception,
        CompoundModel::And { left, right } => paren_if(*left, print_compound(*left)) + seq![' ']
            + kw_and() + seq![' '] + paren_if(*right, print_compound(*right)),
        CompoundModel::Or { left, right } => paren_if(*left, print_compound(*left)) + seq![' ']
            + kw_or() + seq![' '] + paren_if(*right, print_compound(*right)),
    }
}

impl<'a> Simple<'a> {
    fn write_canonical(&self, out: &mut String)
        ensures
            final(out)@ == old(out)@ + print_simple(self@),
    {
        match self {
            Simple::LicenseId { id, or_later } => {
                out.append(id.as_str());
                if *or_later {
                    out.append("+");
                    proof {
                        reveal_strlit("+");
                        assert(final(out)@ =~= old(out)@ + print_simple(self@));
                    }
                }
            },
            Simple::LicenseRef { id, document } => {
                proof {
                    reveal_strlit("DocumentRef-");
                    reveal_strlit(":");
                    reveal_strlit("LicenseRef-");
                }
                match document {
                    Some(d) => {
                        out.append("DocumentRef-");
                        out.append(d.as_str());
                        out.append(":");
                    },
                    None => {},
                }
                out.append("LicenseRef-");
                out.append(id.as_str());
                proof {
                    assert(final(out)@ =~= old(out)@ + print_simple(self@));
                }
            },
        }
    }
}

impl<'a> Compound<'a> {
    fn write_operand(&self, out: &mut String)
        ensures
            final(out)@ == old(out)@ + paren_if(self@, print_compound(self@)),
        decreases self, 2int,
    {
        proof {
            reveal_strlit("(");
            reveal_strlit(")");
        }
        match self {
            Compound::And { .. } | Compound::Or { .. } => {
                out.append("(");
                self.write_canonical(out);
                out.append(")");
                proof {
                    assert(final(out)@ =~= old(out)@ + paren_if(self@, print_compound(self@)));
                }
            },
            _ => self.write_canonical(out),
        }
    }

    fn write_canonical(&self, out: &mut String)
        ensures
            final(out)@ == old(out)@ + print_compound(self@),
        decreases self, 0int,
    {
        proof {
            reveal_strlit(" WITH ");
            reveal_strlit(" AND ");
            reveal_strlit(" OR ");
        }
        match self {
            Compound::Simple { license } => license.write_canonical(out),
            Compound::With { license, exception } => {
                license.write_canonical(out);
                out.append(" WITH ");
                out.append(exception.as_str());
            },
            Compound::And { left, right } => {
                left.write_operand(out);
                out.append(" AND ");
                right.write_operand(out);
            },
            Compound::Or { left, right } => {
                left.write_operand(out);
                out.append(" OR ");
                right.write_operand(out);
            },
        }
        proof {
            assert(final(out)@ =~= old(out)@ + print_compound(self@));
        }
    }

    /// The canonical text of the tree, which parses back to the same tree.
    pub fn to_canonical(&self) -> (r: String)
        ensures
            r@ == print_compound(self@),
    {
        let mut out = String::new();
        self.write_canonical(&mut out);
        proof {
            assert(out@ =~= print_compound(self@));
        }
        out
    }
}

} // verus!
