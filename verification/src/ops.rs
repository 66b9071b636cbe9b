use vstd::prelude::*;
use crate::expr::{
    dup_members, lemma_view_members, lemma_view_members_push, lemma_zero_canonical_seq_all,
    lemma_zero_canonical_seq_concat, lemma_zero_canonical_seq_index, lemma_zero_canonical_seq_pair,
    lemma_zero_canonical_seq_push, view_members, zero_canonical_lits, zero_canonical_seq, Expr,
    ExprV, Group, Op, Power,
};
use crate::literal::lemma_cpx_mul_zero_canonical;
use crate::literal::{cpx_add_v, cpx_is_one_v, cpx_is_zero_v, cpx_mul_v, new_integer, CpxV, Num};

verus! {

// ---------------------------------------------------------------------------
// The algebraic combinators: merging two expressions into a sum or product,
// flattening nested same-operator groups and distributing multiplication
// over addition.
// ---------------------------------------------------------------------------

/// Whether `e` is the literal identity of `op`: zero for sums, one for
/// products.
pub open spec fn is_identity_lit_v(op: Op, e: ExprV) -> bool {
    match e {
        ExprV::Lit(v) => match op {
            Op::Add => cpx_is_zero_v(v),
            Op::Mul => cpx_is_one_v(v),
        },
        _ => false,
    }
}

/// Merging two literals under an operator: exact sum or product.
pub open spec fn lit_merge_v(op: Op, x: CpxV, y: CpxV) -> CpxV {
    match op {
        Op::Add => cpx_add_v(x, y),
        Op::Mul => cpx_mul_v(x, y),
    }
}

/// Whether `e` is a sum group.
pub open spec fn is_add_group_v(e: ExprV) -> bool {
    match e {
        ExprV::Group(op, _) => op == Op::Add,
        _ => false,
    }
}

/// Whether `e` is a group of either operator.
pub open spec fn is_group_v(e: ExprV) -> bool {
    e is Group
}

/// The factor list of `e` when used in a product: a product group
/// contributes its members, anything else itself.
pub open spec fn mul_factors_v(e: ExprV) -> Seq<ExprV> {
    match e {
        ExprV::Group(op, ms) => if op == Op::Mul {
            ms
        } else {
            seq![e]
        },
        _ => seq![e],
    }
}

/// The flattening policy for two operands under an ambient operator:
/// literals merge, a group of the same operator absorbs or concatenates,
/// anything else becomes a fresh two-member group.
pub open spec fn flatten_v(op: Op, a: ExprV, b: ExprV) -> ExprV {
    match (a, b) {
        (ExprV::Lit(x), ExprV::Lit(y)) => ExprV::Lit(lit_merge_v(op, x, y)),
        (ExprV::Group(oa, ms1), ExprV::Group(ob, ms2)) => if oa == op && ob == op {
            ExprV::Group(op, ms1 + ms2)
        } else if oa == op {
            ExprV::Group(op, ms1.push(ExprV::Group(ob, ms2)))
        } else if ob == op {
            ExprV::Group(op, seq![ExprV::Group(oa, ms1)] + ms2)
        } else {
            ExprV::Group(op, seq![ExprV::Group(oa, ms1), ExprV::Group(ob, ms2)])
        },
        (ExprV::Group(oa, ms1), bb) => if oa == op {
            ExprV::Group(op, ms1.push(bb))
        } else {
            ExprV::Group(op, seq![ExprV::Group(oa, ms1), bb])
        },
        (aa, ExprV::Group(ob, ms2)) => if ob == op {
            ExprV::Group(op, seq![aa] + ms2)
        } else {
            ExprV::Group(op, seq![aa, ExprV::Group(ob, ms2)])
        },
        (aa, bb) => ExprV::Group(op, seq![aa, bb]),
    }
}

/// The full cross product of two member lists, left-member-major, each pair
/// as a product group of exactly the two factors.
pub open spec fn cross_v(ls: Seq<ExprV>, rs: Seq<ExprV>) -> Seq<ExprV> {
    Seq::new(
        ls.len() * rs.len(),
        |k: int| ExprV::Group(Op::Mul, seq![ls[k / rs.len() as int], rs[k % rs.len() as int]]),
    )
}

/// Distributing a single left factor over a sum on the right: the left
/// operand's factor list is extended by each member.
pub open spec fn dist_right_v(a: ExprV, rs: Seq<ExprV>) -> Seq<ExprV> {
    Seq::new(rs.len(), |j: int| ExprV::Group(Op::Mul, mul_factors_v(a).push(rs[j])))
}

/// Distribution of multiplication over addition, applied when the left
/// operand is a group and the right is a sum group: two sums expand to the
/// full cross product, a product against a sum extends its factor list by
/// each member. A sum standing against a plain term is not distributed: it
/// stays one opaque member of the product.
pub open spec fn distribute_v(a: ExprV, b: ExprV) -> ExprV {
    match (a, b) {
        (ExprV::Group(oa, ls), ExprV::Group(ob, rs)) => if ob == Op::Add {
            if oa == Op::Add {
                ExprV::Group(Op::Add, cross_v(ls, rs))
            } else {
                ExprV::Group(Op::Add, dist_right_v(a, rs))
            }
        } else {
            flatten_v(Op::Mul, a, b)
        },
        _ => flatten_v(Op::Mul, a, b),
    }
}

/// Merging two expressions under an operator: identity literals are
/// absorbed, multiplication distributes over sums, everything else follows
/// the flattening policy.
pub open spec fn combine_v(op: Op, a: ExprV, b: ExprV) -> ExprV {
    if is_identity_lit_v(op, a) {
        b
    } else if is_identity_lit_v(op, b) {
        a
    } else if op == Op::Mul && is_group_v(a) && is_add_group_v(b) {
        distribute_v(a, b)
    } else {
        flatten_v(op, a, b)
    }
}

// ---------------------------------------------------------------------------
// Helper lemmas about member views.
// ---------------------------------------------------------------------------

pub proof fn lemma_view_members_singleton(e: Expr)
    ensures
        view_members(seq![e]) =~= seq![e@],
{
    lemma_view_members(seq![e]);
    assert(view_members(seq![e])[0] == seq![e][0]@);
}

pub proof fn lemma_view_members_concat(s1: Seq<Expr>, s2: Seq<Expr>)
    ensures
        view_members(s1 + s2) =~= view_members(s1) + view_members(s2),
    decreases s2.len(),
{
    lemma_view_members(s1);
    lemma_view_members(s2);
    lemma_view_members(s1 + s2);
    assert forall|i: int| 0 <= i < s1.len() + s2.len() implies #[trigger] view_members(s1 + s2)[i]
        == (view_members(s1) + view_members(s2))[i] by {
        assert(view_members(s1 + s2)[i] == (s1 + s2)[i]@);
        if i < s1.len() {
            assert((s1 + s2)[i] == s1[i]);
            assert(view_members(s1)[i] == s1[i]@);
        } else {
            assert((s1 + s2)[i] == s2[i - s1.len()]);
            assert(view_members(s2)[i - s1.len()] == s2[i - s1.len()]@);
        }
    }
}

// ---------------------------------------------------------------------------
// Executable combinators.
// ---------------------------------------------------------------------------

/// Whether an expression is the literal identity of `op`.
fn is_identity_lit(op: Op, e: &Expr) -> (r: bool)
    ensures
        r == is_identity_lit_v(op, e@),
{
    match e {
        Expr::Lit(v) => match op {
            Op::Add => v.is_zero(),
            Op::Mul => v.is_one(),
        },
        _ => false,
    }
}

/// Whether an expression is a sum group.
fn is_add_group(e: &Expr) -> (r: bool)
    ensures
        r == is_add_group_v(e@),
{
    match e {
        Expr::Group(g) => matches!(g.op, Op::Add),
        _ => false,
    }
}

/// Whether an expression is a group of either operator.
fn is_group(e: &Expr) -> (r: bool)
    ensures
        r == is_group_v(e@),
{
    match e {
        Expr::Group(_) => true,
        _ => false,
    }
}

/// The factor list of an expression used in a product.
#[verifier::loop_isolation(false)]
fn mul_factors(e: &Expr) -> (r: Vec<Expr>)
    ensures
        view_members(r@) == mul_factors_v(e@),
        r@.len() == mul_factors_v(e@).len(),
{
    match e {
        Expr::Group(g) => match g.op {
            Op::Mul => {
                let r = dup_members(&g.members);
                proof {
                    lemma_view_members(g.members@);
                }
                r
            },
            Op::Add => {
                let mut out: Vec<Expr> = Vec::new();
                out.push(e.dup());
                proof {
                    lemma_view_members_singleton(out@[0]);
                    assert(out@ =~= seq![out@[0]]);
                }
                out
            },
        },
        _ => {
            let mut out: Vec<Expr> = Vec::new();
            out.push(e.dup());
            proof {
                lemma_view_members_singleton(out@[0]);
                assert(out@ =~= seq![out@[0]]);
            }
            out
        },
    }
}

/// A fresh two-member group.
fn pair_group(op: Op, a: Expr, b: Expr) -> (r: Expr)
    ensures
        r@ == ExprV::Group(op, seq![a@, b@]),
{
    match op {
        Op::Add => Expr::Group(Group::add(a, b)),
        Op::Mul => Expr::Group(Group::multiply(a, b)),
    }
}

/// The flattening policy, executed.
fn flatten(op: Op, a: Expr, b: Expr) -> (r: Expr)
    ensures
        r@ == flatten_v(op, a@, b@),
{
    match (a, b) {
        (Expr::Lit(x), Expr::Lit(y)) => {
            let merged = match op {
                Op::Add => x.plus(&y),
                Op::Mul => x.times(&y),
            };
            Expr::Lit(merged)
        },
        (Expr::Group(ga), Expr::Group(gb)) => {
            if ga.op == op && gb.op == op {
                let ghost m1 = ga.members@;
                let ghost m2 = gb.members@;
                let mut members = ga.members;
                let mut members2 = gb.members;
                members.append(&mut members2);
                proof {
                    lemma_view_members_concat(m1, m2);
                }
                Expr::Group(Group { op, members })
            } else if ga.op == op {
                let ghost m1 = ga.members@;
                let b2 = Expr::Group(gb);
                let ghost bv = b2@;
                let mut members = ga.members;
                members.push(b2);
                proof {
                    lemma_view_members_push(m1, members@.last());
                    assert(members@ =~= m1.push(members@.last()));
                }
                Expr::Group(Group { op, members })
            } else if gb.op == op {
                let a2 = Expr::Group(ga);
                let ghost av = a2@;
                let ghost m2 = gb.members@;
                let mut members: Vec<Expr> = Vec::new();
                members.push(a2);
                let mut members2 = gb.members;
                members.append(&mut members2);
                proof {
                    assert(members@ =~= seq![members@[0]] + m2);
                    lemma_view_members_singleton(members@[0]);
                    lemma_view_members_concat(seq![members@[0]], m2);
                }
                Expr::Group(Group { op, members })
            } else {
                pair_group(op, Expr::Group(ga), Expr::Group(gb))
            }
        },
        (Expr::Group(ga), bb) => {
            if ga.op == op {
                let ghost m1 = ga.members@;
                let mut members = ga.members;
                members.push(bb);
                proof {
                    lemma_view_members_push(m1, members@.last());
                    assert(members@ =~= m1.push(members@.last()));
                }
                Expr::Group(Group { op, members })
            } else {
                pair_group(op, Expr::Group(ga), bb)
            }
        },
        (aa, Expr::Group(gb)) => {
            if gb.op == op {
                let ghost m2 = gb.members@;
                let mut members: Vec<Expr> = Vec::new();
                members.push(aa);
                let mut members2 = gb.members;
                members.append(&mut members2);
                proof {
                    assert(members@ =~= seq![members@[0]] + m2);
                    lemma_view_members_singleton(members@[0]);
                    lemma_view_members_concat(seq![members@[0]], m2);
                }
                Expr::Group(Group { op, members })
            } else {
                pair_group(op, aa, Expr::Group(gb))
            }
        },
        (aa, bb) => pair_group(op, aa, bb),
    }
}

/// The cross product of two sum groups' members, left-member-major.
#[verifier::loop_isolation(false)]
fn cross_members(ls: &Vec<Expr>, rs: &Vec<Expr>) -> (r: Vec<Expr>)
    ensures
        view_members(r@) == cross_v(view_members(ls@), view_members(rs@)),
    {
    let ghost lv = view_members(ls@);
    let ghost rv = view_members(rs@);
    proof {
        lemma_view_members(ls@);
        lemma_view_members(rs@);
    }
    let mut out: Vec<Expr> = Vec::new();
    let mut i: usize = 0;
    while i < ls.len()
        invariant
            0 <= i <= ls@.len(),
            out@.len() == i * rs@.len(),
            view_members(out@) =~= cross_v(lv, rv).take((i * rs@.len()) as int),
        decreases ls@.len() - i,
    {
        let mut j: usize = 0;
        while j < rs.len()
            invariant
                0 <= i < ls@.len(),
                0 <= j <= rs@.len(),
                out@.len() == i * rs@.len() + j,
                view_members(out@) =~= cross_v(lv, rv).take((i * rs@.len() + j) as int),
            decreases rs@.len() - j,
        {
            let l = ls[i].dup();
            let rr = rs[j].dup();
            let p = Expr::Group(Group::multiply(l, rr));
            let ghost prev = out@;
            out.push(p);
            proof {
                lemma_view_members_push(prev, p);
                let k = (i * rs@.len() + j) as int;
                assert(0 <= k < lv.len() * rv.len()) by (nonlinear_arith)
                    requires
                        0 <= i < lv.len(),
                        0 <= j < rv.len(),
                        k == i * rv.len() + j,
                        lv.len() == ls@.len(),
                        rv.len() == rs@.len(),
                ;
                assert(k / rv.len() as int == i && k % rv.len() as int == j)
                    by (nonlinear_arith)
                    requires
                        0 <= i,
                        0 <= j < rv.len(),
                        k == i * rv.len() + j,
                ;
                assert(cross_v(lv, rv)[k] == p@);
                assert(cross_v(lv, rv).take(k + 1) =~= cross_v(lv, rv).take(k).push(
                    cross_v(lv, rv)[k]));
                assert(view_members(out@) =~= cross_v(lv, rv).take(k + 1));
            }
            j = j + 1;
        }
        i = i + 1;
        proof {
            assert((i - 1) * rv.len() + rv.len() == i * rv.len()) by (nonlinear_arith);
        }
    }
    proof {
        assert(i * rv.len() == lv.len() * rv.len());
        assert(cross_v(lv, rv).take((lv.len() * rv.len()) as int) =~= cross_v(lv, rv));
    }
    out
}

/// Distribution of a product over a sum, executed.
fn distribute(a: Expr, b: Expr) -> (r: Expr)
    ensures
        r@ == distribute_v(a@, b@),
{
    match (a, b) {
        (Expr::Group(ga), Expr::Group(gb)) => {
            if matches!(gb.op, Op::Add) {
                if matches!(ga.op, Op::Add) {
                    let members = cross_members(&ga.members, &gb.members);
                    Expr::Group(Group { op: Op::Add, members })
                } else {
                    dist_right(Expr::Group(ga), gb.members)
                }
            } else {
                flatten(Op::Mul, Expr::Group(ga), Expr::Group(gb))
            }
        },
        (aa, bb) => flatten(Op::Mul, aa, bb),
    }
}

/// One left factor distributed over the members of a sum on the right.
#[verifier::loop_isolation(false)]
fn dist_right(a: Expr, rs: Vec<Expr>) -> (r: Expr)
    ensures
        r@ == ExprV::Group(Op::Add, dist_right_v(a@, view_members(rs@))),
{
    let ghost rv = view_members(rs@);
    proof {
        lemma_view_members(rs@);
    }
    let mut out: Vec<Expr> = Vec::new();
    let mut j: usize = 0;
    while j < rs.len()
        invariant
            0 <= j <= rs@.len(),
            out@.len() == j,
            view_members(out@) =~= dist_right_v(a@, rv).take(j as int),
        decreases rs@.len() - j,
    {
        let mut fac = mul_factors(&a);
        let ghost fv = fac@;
        let rdup = rs[j].dup();
        fac.push(rdup);
        let p = Expr::Group(Group { op: Op::Mul, members: fac });
        let ghost prev = out@;
        out.push(p);
        proof {
            lemma_view_members_push(fv, rdup);
            lemma_view_members_push(prev, p);
            assert(p@ == dist_right_v(a@, rv)[j as int]);
            assert(dist_right_v(a@, rv).take(j + 1) =~= dist_right_v(a@, rv).take(j as int).push(
                dist_right_v(a@, rv)[j as int]));
            assert(view_members(out@) =~= dist_right_v(a@, rv).take(j + 1));
        }
        j = j + 1;
    }
    proof {
        assert(dist_right_v(a@, rv).take(rv.len() as int) =~= dist_right_v(a@, rv));
    }
    Expr::Group(Group { op: Op::Add, members: out })
}

/// Merging two expressions under an operator, executed.
pub fn combine(op: Op, a: Expr, b: Expr) -> (r: Expr)
    ensures
        r@ == combine_v(op, a@, b@),
{
    if is_identity_lit(op, &a) {
        return b;
    }
    if is_identity_lit(op, &b) {
        return a;
    }
    if matches!(op, Op::Mul) && is_group(&a) && is_add_group(&b) {
        distribute(a, b)
    } else {
        flatten(op, a, b)
    }
}

impl Expr {
    /// The sum combinator: merges two expressions into a sum.
    pub fn add(self, other: Expr) -> (r: Expr)
        ensures
            r@ == combine_v(Op::Add, self@, other@),
    {
        combine(Op::Add, self, other)
    }

    /// The product combinator: merges two expressions into a product,
    /// distributing over sums.
    pub fn multiply(self, other: Expr) -> (r: Expr)
        ensures
            r@ == combine_v(Op::Mul, self@, other@),
    {
        combine(Op::Mul, self, other)
    }

    /// The quotient combinator: multiplication by the reciprocal power.
    pub fn divide(self, other: Expr) -> (r: Expr)
        ensures
            r@ == combine_v(
                Op::Mul,
                self@,
                ExprV::Pow(crate::literal::RatV { n: -1, d: 1 }, Box::new(other@)),
            ),
    {
        let p = Expr::Pow(Power::new(other, new_integer(-1)));
        combine(Op::Mul, self, p)
    }

    /// The power combinator: wraps the expression under a rational exponent,
    /// never evaluating eagerly.
    pub fn power(self, n: Num) -> (r: Expr)
        ensures
            r@ == ExprV::Pow(n@, Box::new(self@)),
    {
        Expr::Pow(Power::new(self, n))
    }
}

// ---------------------------------------------------------------------------
// Laws of the combinators.
// ---------------------------------------------------------------------------

/// Law of distribution: multiplying two sum groups yields a sum group whose
/// members are the full cross product of the operands' members, in
/// left-member-major order, each pair a product group of exactly the two
/// factors.
pub proof fn lemma_distribution(ls: Seq<ExprV>, rs: Seq<ExprV>)
    ensures
        combine_v(Op::Mul, ExprV::Group(Op::Add, ls), ExprV::Group(Op::Add, rs)) == ExprV::Group(
            Op::Add,
            cross_v(ls, rs),
        ),
        cross_v(ls, rs).len() == ls.len() * rs.len(),
        forall|i: int, j: int|
            0 <= i < ls.len() && 0 <= j < rs.len() ==> cross_v(ls, rs)[i * rs.len() + j]
                == ExprV::Group(Op::Mul, seq![ls[i], rs[j]]),
{
    assert forall|i: int, j: int|
        0 <= i < ls.len() && 0 <= j < rs.len() implies cross_v(ls, rs)[i * rs.len() + j]
        == ExprV::Group(Op::Mul, seq![ls[i], rs[j]]) by {
        let k = i * rs.len() + j;
        assert(0 <= k < ls.len() * rs.len()) by (nonlinear_arith)
            requires
                0 <= i < ls.len(),
                0 <= j < rs.len(),
                k == i * rs.len() + j,
        ;
        assert(k / rs.len() as int == i && k % rs.len() as int == j) by (nonlinear_arith)
            requires
                0 <= i,
                0 <= j < rs.len(),
                k == i * rs.len() + j,
        ;
    }
}

/// Flattening two trees with canonical zero literals keeps them canonical.
proof fn lemma_flatten_zero_canonical(op: Op, a: ExprV, b: ExprV)
    requires
        zero_canonical_lits(a),
        zero_canonical_lits(b),
    ensures
        zero_canonical_lits(flatten_v(op, a, b)),
{
    match (a, b) {
        (ExprV::Lit(x), ExprV::Lit(y)) => {
            lemma_cpx_mul_zero_canonical(x, y);
        },
        (ExprV::Group(oa, ms1), ExprV::Group(ob, ms2)) => {
            if oa == op && ob == op {
                lemma_zero_canonical_seq_concat(ms1, ms2);
            } else if oa == op {
                lemma_zero_canonical_seq_push(ms1, ExprV::Group(ob, ms2));
            } else if ob == op {
                lemma_zero_canonical_seq_pair(ExprV::Group(oa, ms1), ExprV::Group(oa, ms1));
                lemma_zero_canonical_seq_concat(seq![ExprV::Group(oa, ms1)], ms2);
            } else {
                lemma_zero_canonical_seq_pair(ExprV::Group(oa, ms1), ExprV::Group(ob, ms2));
            }
        },
        (ExprV::Group(oa, ms1), bb) => {
            if oa == op {
                lemma_zero_canonical_seq_push(ms1, bb);
            } else {
                lemma_zero_canonical_seq_pair(ExprV::Group(oa, ms1), bb);
            }
        },
        (aa, ExprV::Group(ob, ms2)) => {
            if ob == op {
                lemma_zero_canonical_seq_pair(aa, aa);
                lemma_zero_canonical_seq_concat(seq![aa], ms2);
            } else {
                lemma_zero_canonical_seq_pair(aa, ExprV::Group(ob, ms2));
            }
        },
        (aa, bb) => {
            lemma_zero_canonical_seq_pair(aa, bb);
        },
    }
}

/// Merging two trees with canonical zero literals keeps them canonical.
pub proof fn lemma_combine_zero_canonical(op: Op, a: ExprV, b: ExprV)
    requires
        zero_canonical_lits(a),
        zero_canonical_lits(b),
    ensures
        zero_canonical_lits(combine_v(op, a, b)),
{
    if is_identity_lit_v(op, a) || is_identity_lit_v(op, b) {
    } else if op == Op::Mul && is_group_v(a) && is_add_group_v(b) {
        match (a, b) {
            (ExprV::Group(oa, ls), ExprV::Group(ob, rs)) => {
                if ob == Op::Add {
                    if oa == Op::Add {
                        let cr = cross_v(ls, rs);
                        let m = rs.len() as int;
                        assert forall|k: int| 0 <= k < cr.len() implies zero_canonical_lits(
                            #[trigger] cr[k]) by {
                            assert(0 <= k / m < ls.len() && 0 <= k % m < rs.len())
                                by (nonlinear_arith)
                                requires
                                    0 <= k < ls.len() * rs.len(),
                                    m == rs.len(),
                                    m > 0,
                            ;
                            lemma_zero_canonical_seq_index(ls, k / m);
                            lemma_zero_canonical_seq_index(rs, k % m);
                            lemma_zero_canonical_seq_pair(ls[k / m], rs[k % m]);
                        }
                        lemma_zero_canonical_seq_all(cr);
                    } else {
                        let dr = dist_right_v(a, rs);
                        assert forall|j: int| 0 <= j < dr.len() implies zero_canonical_lits(
                            #[trigger] dr[j]) by {
                            lemma_zero_canonical_seq_index(rs, j);
                            lemma_zero_canonical_seq_push(ls, rs[j]);
                        }
                        lemma_zero_canonical_seq_all(dr);
                    }
                } else {
                    lemma_flatten_zero_canonical(Op::Mul, a, b);
                }
            },
            _ => {
                lemma_flatten_zero_canonical(Op::Mul, a, b);
            },
        }
    } else {
        lemma_flatten_zero_canonical(op, a, b);
    }
}

} // verus!
