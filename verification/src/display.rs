use vstd::prelude::*;
use crate::expr::{lemma_size_seq_elem, lemma_view_members, size_v, view_members, Expr, ExprV, Op};
use crate::literal::{cpx_str_v, rat_str_v};

verus! {

// ---------------------------------------------------------------------------
// The formatter: canonical, precedence-minimal rendering of a tree.
// ---------------------------------------------------------------------------

/// A string wrapped in parentheses.
pub open spec fn paren_v(s: Seq<char>) -> Seq<char> {
    seq!['('] + s + seq![')']
}

/// The separator that joins a group's members.
pub open spec fn sep_v(op: Op) -> Seq<char> {
    match op {
        Op::Add => seq![' ', '+', ' '],
        Op::Mul => seq![' ', '.', ' '],
    }
}

/// The canonical rendering of an expression. The base of a power is
/// parenthesized whenever it is itself compound; a group member is
/// parenthesized exactly when it is a group of the other operator.
pub open spec fn format_v(e: ExprV) -> Seq<char>
    decreases e, 0nat,
{
    match e {
        ExprV::Var(c) => seq![c],
        ExprV::Lit(v) => cpx_str_v(v),
        ExprV::Pow(q, b) => {
            let base = if (*b) is Pow || (*b) is Group {
                paren_v(format_v(*b))
            } else {
                format_v(*b)
            };
            base + seq!['^'] + rat_str_v(q)
        },
        ExprV::Group(op, ms) => format_members_v(op, ms),
    }
}

/// One member's rendering within a group of operator `op`.
pub open spec fn member_str_v(op: Op, m: ExprV) -> Seq<char>
    decreases m, 1nat,
{
    match m {
        ExprV::Group(op2, _) => if op2 != op {
            paren_v(format_v(m))
        } else {
            format_v(m)
        },
        _ => format_v(m),
    }
}

/// The members of a group joined by the operator's separator, in order.
pub open spec fn format_members_v(op: Op, ms: Seq<ExprV>) -> Seq<char>
    decreases ms, 2nat,
{
    if ms.len() == 0 {
        Seq::empty()
    } else if ms.len() == 1 {
        member_str_v(op, ms[0])
    } else {
        format_members_v(op, ms.drop_last()) + sep_v(op) + member_str_v(op, ms.last())
    }
}

/// A single character as a string.
///
/// Relies on `String::push`, which appends exactly one character.
#[verifier::external_body]
fn char_to_string(c: char) -> (r: String)
    ensures
        r@ == seq![c],
{
    let mut s = String::new();
    s.push(c);
    s
}

impl Expr {
    /// Renders the tree to its canonical string.
    #[verifier::loop_isolation(false)]
    pub fn render(&self) -> (r: String)
        ensures
            r@ == format_v(self@),
        decreases size_v(self@),
    {
        match self {
            Expr::Var(c) => char_to_string(*c),
            Expr::Lit(v) => v.render(),
            Expr::Pow(p) => {
                let inner = p.expr.render();
                let wrap = match &*p.expr {
                    Expr::Pow(_) => true,
                    Expr::Group(_) => true,
                    _ => false,
                };
                let mut s = if wrap {
                    let mut w = <String as vstd::string::StringExecFns>::from_str("(");
                    w.append(inner.as_str());
                    w.append(")");
                    proof {
                        reveal_strlit("(");
                        reveal_strlit(")");
                    }
                    w
                } else {
                    inner
                };
                s.append("^");
                s.append(p.n.render().as_str());
                proof {
                    reveal_strlit("^");
                }
                s
            },
            Expr::Group(g) => {
                let ghost msv = view_members(g.members@);
                proof {
                    lemma_view_members(g.members@);
                }
                let mut s = String::new();
                let mut i: usize = 0;
                proof {
                    assert(msv.take(0) =~= Seq::<ExprV>::empty());
                }
                while i < g.members.len()
                    invariant
                        0 <= i <= g.members@.len(),
                        s@ == format_members_v(g.op, msv.take(i as int)),
                    decreases g.members@.len() - i,
                {
                    proof {
                        lemma_size_seq_elem(msv, i as int);
                    }
                    let m = &g.members[i];
                    let inner = m.render();
                    let piece = match m {
                        Expr::Group(g2) => {
                            if g2.op != g.op {
                                let mut w = <String as vstd::string::StringExecFns>::from_str(
                                    "(");
                                w.append(inner.as_str());
                                w.append(")");
                                proof {
                                    reveal_strlit("(");
                                    reveal_strlit(")");
                                }
                                w
                            } else {
                                inner
                            }
                        },
                        _ => inner,
                    };
                    if i > 0 {
                        match g.op {
                            Op::Add => s.append(" + "),
                            Op::Mul => s.append(" . "),
                        }
                        proof {
                            reveal_strlit(" + ");
                            reveal_strlit(" . ");
                        }
                    }
                    s.append(piece.as_str());
                    proof {
                        assert(msv.take(i + 1).drop_last() =~= msv.take(i as int));
                        assert(msv.take(i + 1).last() == msv[i as int]);
                        assert(piece@ == member_str_v(g.op, msv[i as int]));
                        if i == 0 {
                            assert(s@ == format_members_v(g.op, msv.take(1)));
                        } else {
                            assert(s@ == format_members_v(g.op, msv.take(i + 1)));
                        }
                    }
                    i = i + 1;
                }
                proof {
                    assert(msv.take(g.members@.len() as int) =~= msv);
                }
                s
            },
        }
    }
}

} // verus!
