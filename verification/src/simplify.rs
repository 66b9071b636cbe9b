use vstd::prelude::*;
use crate::expr::{
    lemma_size_seq_elem, lemma_view_members, lemma_view_members_push,
    lemma_zero_canonical_seq_index, op_identity_v, size_seq, size_v, view_members,
    zero_canonical_lits, zero_canonical_seq, Expr, ExprV, Group, Op, Power,
};
use crate::literal::{lemma_cpx_pow_zero_canonical, lemma_cpx_recip_zero_canonical};
use crate::ops::{combine_v, is_identity_lit_v, lemma_combine_zero_canonical};
use crate::literal::{
    cpx_one_v, cpx_pow_v, cpx_recip_v, rat_abs_v, rat_mul_v, rat_zero_v, Complex, CpxV, Num, RatV,
};
use crate::{Error, ErrorKind};

verus! {

// ---------------------------------------------------------------------------
// The simplifier: a single recursive rewrite pass applying power laws,
// literal evaluation and identity elimination, or failing with the one
// error this library knows.
// ---------------------------------------------------------------------------

/// The message carried by the sole error.
pub open spec fn err_msg_v() -> Seq<char> {
    "Exponent too large to apply"@
}

/// The identity literal that an empty group of `op` simplifies to, and that
/// seeds the fold of a larger group.
pub open spec fn identity_lit_v(op: Op) -> CpxV {
    CpxV { re: op_identity_v(op), im: rat_zero_v() }
}

/// Simplifying a literal raised to a rational power: a negative exponent
/// inverts the base, the (then non-negative) numerator must fit a machine
/// word to drive repeated multiplication, and a remaining fractional part
/// leaves a root: a power with a unit-fraction exponent.
pub open spec fn pow_lit_v(v: CpxV, q: RatV) -> Result<ExprV, ()> {
    let v2 = if q.n < 0 {
        cpx_recip_v(v)
    } else {
        v
    };
    let q2 = if q.n < 0 {
        rat_abs_v(q)
    } else {
        q
    };
    if !(q2.n <= usize::MAX) {
        Err(())
    } else {
        let res = cpx_pow_v(v2, q2.n as nat);
        if q2.d == 1 {
            Ok(ExprV::Lit(res))
        } else {
            Ok(ExprV::Pow(RatV { n: 1, d: q2.d }, Box::new(ExprV::Lit(res))))
        }
    }
}

/// Folding simplified members through the combinator, left to right.
pub open spec fn fold_members_v(op: Op, acc: ExprV, ms: Seq<ExprV>) -> ExprV
    decreases ms.len(),
{
    if ms.len() == 0 {
        acc
    } else {
        fold_members_v(op, combine_v(op, acc, ms[0]), ms.drop_first())
    }
}

/// Simplifying each member of a group in order; the first failure aborts.
pub open spec fn simplify_members_v(ms: Seq<ExprV>) -> Result<Seq<ExprV>, ()>
    decreases ms,
{
    if ms.len() == 0 {
        Ok(Seq::empty())
    } else {
        match simplify_v(ms[0]) {
            Err(er) => Err(er),
            Ok(h) => match simplify_members_v(ms.drop_first()) {
                Err(er) => Err(er),
                Ok(t) => Ok(seq![h] + t),
            },
        }
    }
}

/// The simplifier's result on a tree, as a mathematical function.
pub open spec fn simplify_v(e: ExprV) -> Result<ExprV, ()>
    decreases e,
{
    match e {
        ExprV::Var(_) => Ok(e),
        ExprV::Lit(_) => Ok(e),
        ExprV::Pow(q, b) => if q.n == 0 {
            Ok(ExprV::Lit(cpx_one_v()))
        } else {
            match simplify_v(*b) {
                Err(er) => Err(er),
                Ok(ib) => if q.n == q.d {
                    Ok(ib)
                } else {
                    match ib {
                        ExprV::Lit(v) => pow_lit_v(v, q),
                        ExprV::Pow(m, inner) => Ok(ExprV::Pow(rat_mul_v(q, m), inner)),
                        _ => Ok(ExprV::Pow(q, Box::new(ib))),
                    }
                },
            }
        },
        ExprV::Group(op, ms) => if ms.len() == 0 {
            Ok(ExprV::Lit(identity_lit_v(op)))
        } else if ms.len() == 1 {
            simplify_v(ms[0])
        } else {
            match simplify_members_v(ms) {
                Err(er) => Err(er),
                Ok(sms) => Ok(fold_members_v(op, ExprV::Lit(identity_lit_v(op)), sms)),
            }
        },
    }
}

/// How an executable outcome realises the model's outcome: the same tree on
/// success, the one error kind with its fixed message on failure.
pub open spec fn simp_matches(sv: Result<ExprV, ()>, r: Result<Expr, Error>) -> bool {
    match sv {
        Ok(v) => r matches Ok(e) && e@ == v,
        Err(_) => r matches Err(er) && er.kind is TooBig && er.msg@ == err_msg_v(),
    }
}

/// The sole error, built fresh.
fn too_big_error() -> (r: Error)
    ensures
        r.kind is TooBig,
        r.msg@ == err_msg_v(),
{
    Error {
        kind: ErrorKind::TooBig,
        msg: <String as vstd::string::StringExecFns>::from_str("Exponent too large to apply"),
    }
}

/// A literal raised to a rational power, executed.
fn pow_lit(v: Complex, q: &Num) -> (r: Result<Expr, Error>)
    ensures
        simp_matches(pow_lit_v(v@, q@), r),
{
    let ghost vv = v@;
    let ghost qv = q@;
    let neg = q.is_negative();
    let v2 = if neg {
        v.recip()
    } else {
        v
    };
    let q2 = if neg {
        q.abs_val()
    } else {
        q.dup()
    };
    proof {
        assert(v2@ == (if qv.n < 0 {
            cpx_recip_v(vv)
        } else {
            vv
        }));
        assert(q2@ == (if qv.n < 0 {
            rat_abs_v(qv)
        } else {
            qv
        }));
        assert(q2@.n >= 0);
    }
    match q2.numer_to_usize() {
        None => Err(too_big_error()),
        Some(k) => {
            let res = v2.int_pow(k);
            proof {
                assert(res@ == cpx_pow_v(v2@, q2@.n as nat));
            }
            if q2.is_integer() {
                proof {
                    assert(pow_lit_v(vv, qv) == Ok::<ExprV, ()>(ExprV::Lit(res@)));
                }
                Ok(Expr::Lit(res))
            } else {
                let uf = q2.denom_unit_fraction();
                let ghost resv = res@;
                let child = Expr::Lit(res);
                proof {
                    assert(child@ == ExprV::Lit(resv));
                }
                Ok(Expr::Pow(Power { n: uf, expr: Box::new(child) }))
            }
        },
    }
}

/// The recursive simplification pass.
#[verifier::loop_isolation(false)]
#[verifier::rlimit(100)]
pub fn simplify_expr(e: &Expr) -> (r: Result<Expr, Error>)
    ensures
        simp_matches(simplify_v(e@), r),
    decreases size_v(e@),
{
    match e {
        Expr::Var(c) => Ok(Expr::Var(*c)),
        Expr::Lit(v) => Ok(Expr::Lit(v.dup())),
        Expr::Pow(p) => {
            if p.n.is_zero() {
                return Ok(Expr::Lit(Complex::one()));
            }
            match simplify_expr(&p.expr) {
                Err(er) => Err(er),
                Ok(ib) => {
                    if p.n.is_one() {
                        return Ok(ib);
                    }
                    match ib {
                        Expr::Lit(v) => pow_lit(v, &p.n),
                        Expr::Pow(p2) => Ok(
                            Expr::Pow(Power { n: p.n.times(&p2.n), expr: p2.expr }),
                        ),
                        other => Ok(Expr::Pow(Power { n: p.n.dup(), expr: Box::new(other) })),
                    }
                },
            }
        },
        Expr::Group(g) => {
            let ghost msv = view_members(g.members@);
            proof {
                lemma_view_members(g.members@);
            }
            if g.members.len() == 0 {
                return Ok(Expr::Lit(Complex::from_real(g.op.identity())));
            }
            if g.members.len() == 1 {
                proof {
                    lemma_size_seq_elem(msv, 0);
                }
                return simplify_expr(&g.members[0]);
            }
            // Simplify every member in order; the first failure aborts.
            let mut sms: Vec<Expr> = Vec::new();
            let mut i: usize = 0;
            proof {
                assert(msv.skip(0) =~= msv);
                match simplify_members_v(msv) {
                    Ok(t0) => {
                        assert(view_members(sms@) + t0 =~= t0);
                    },
                    Err(_) => {},
                }
            }
            while i < g.members.len()
                invariant
                    0 <= i <= g.members@.len(),
                    sms@.len() == i,
                    simplify_members_v(msv) == (match simplify_members_v(msv.skip(i as int)) {
                        Err(er) => Err::<Seq<ExprV>, ()>(er),
                        Ok(t) => Ok(view_members(sms@) + t),
                    }),
                decreases g.members@.len() - i,
            {
                proof {
                    lemma_size_seq_elem(msv, i as int);
                }
                match simplify_expr(&g.members[i]) {
                    Err(er) => {
                        proof {
                            assert(msv.skip(i as int)[0] == msv[i as int]);
                            assert(simplify_members_v(msv.skip(i as int)) is Err);
                        }
                        return Err(er);
                    },
                    Ok(s) => {
                        let ghost prev = sms@;
                        sms.push(s);
                        proof {
                            lemma_view_members_push(prev, s);
                            assert(msv.skip(i as int)[0] == msv[i as int]);
                            assert(msv.skip(i as int).drop_first() =~= msv.skip(i + 1));
                            assert(view_members(sms@) =~= view_members(prev).push(s@));
                            match simplify_members_v(msv.skip(i + 1)) {
                                Ok(t) => {
                                    assert(view_members(prev) + (seq![s@] + t) =~= (view_members(
                                        prev).push(s@)) + t);
                                },
                                Err(_) => {},
                            }
                        }
                        i = i + 1;
                    },
                }
            }
            proof {
                assert(msv.skip(i as int) =~= Seq::<ExprV>::empty());
                assert(view_members(sms@) + Seq::<ExprV>::empty() =~= view_members(sms@));
            }
            let ghost smsv = view_members(sms@);
            // Fold the simplified members from the operator's identity.
            let mut acc = Expr::Lit(Complex::from_real(g.op.identity()));
            let ghost init_v = acc@;
            let mut j: usize = 0;
            proof {
                lemma_view_members(sms@);
                assert(smsv.skip(0) =~= smsv);
            }
            while j < sms.len()
                invariant
                    0 <= j <= sms@.len(),
                    sms@.len() == g.members@.len(),
                    fold_members_v(g.op, init_v, smsv) == fold_members_v(
                        g.op,
                        acc@,
                        smsv.skip(j as int),
                    ),
                decreases sms@.len() - j,
            {
                proof {
                    lemma_view_members(sms@);
                    assert(smsv.skip(j as int)[0] == smsv[j as int]);
                    assert(smsv.skip(j as int).drop_first() =~= smsv.skip(j + 1));
                }
                let m = sms[j].dup();
                acc = crate::ops::combine(g.op, acc, m);
                j = j + 1;
            }
            proof {
                lemma_view_members(sms@);
                assert(smsv.skip(j as int) =~= Seq::<ExprV>::empty());
            }
            Ok(acc)
        },
    }
}

/// Simplifies an expression tree into its normal form, or fails when an
/// exponent's magnitude cannot drive repeated multiplication.
pub fn simplify(e: Expr) -> (r: Result<Expr, Error>)
    ensures
        simp_matches(simplify_v(e@), r),
{
    simplify_expr(&e)
}

/// The simplification pass, available on expressions and on bare power and
/// group nodes alike.
pub trait Simplify: View<V = ExprV> + Sized {
    fn simplify(self) -> (r: Result<Expr, Error>)
        ensures
            simp_matches(simplify_v(self@), r),
    ;
}

impl Simplify for Expr {
    fn simplify(self) -> (r: Result<Expr, Error>) {
        simplify_expr(&self)
    }
}

impl Simplify for Power {
    fn simplify(self) -> (r: Result<Expr, Error>) {
        let e = Expr::Pow(self);
        simplify_expr(&e)
    }
}

impl Simplify for Group {
    fn simplify(self) -> (r: Result<Expr, Error>) {
        let e = Expr::Group(self);
        simplify_expr(&e)
    }
}

// ---------------------------------------------------------------------------
// Laws of the simplifier.
// ---------------------------------------------------------------------------

/// Law: raising any expression to a zero exponent simplifies to the literal
/// one, without the base being examined.
pub proof fn lemma_power_zero(e: ExprV, q: RatV)
    requires
        q.n == 0,
    ensures
        simplify_v(ExprV::Pow(q, Box::new(e))) == Ok::<ExprV, ()>(ExprV::Lit(cpx_one_v())),
{
}

/// Law: raising any expression to a one exponent simplifies to the
/// expression's own simplification.
pub proof fn lemma_power_one(e: ExprV, q: RatV)
    requires
        q.n == q.d,
        q.n != 0,
    ensures
        simplify_v(ExprV::Pow(q, Box::new(e))) == simplify_v(e),
{
}

/// Law: a literal raised to an exponent whose numerator's magnitude exceeds
/// the machine range fails, with no other outcome possible.
pub proof fn lemma_exponent_too_large(v: CpxV, q: RatV)
    requires
        crate::literal::iabs(q.n) > usize::MAX,
        q.n != q.d,
    ensures
        simplify_v(ExprV::Pow(q, Box::new(ExprV::Lit(v)))) is Err,
{
    assert(q.n != 0);
    let b = ExprV::Lit(v);
    assert(simplify_v(b) == Ok::<ExprV, ()>(b));
    let q2 = if q.n < 0 {
        rat_abs_v(q)
    } else {
        q
    };
    assert(q2.n > usize::MAX);
    assert(pow_lit_v(v, q) is Err);
}

// ---------------------------------------------------------------------------
// Idempotence: simplified forms without power residues are fixpoints.
// ---------------------------------------------------------------------------

/// A tree in settled form: no zero or one exponents, no power directly on a
/// power, a literal base only under a positive unit-fraction exponent, and
/// every group a flattened form that refolding reproduces.
pub open spec fn settled(e: ExprV) -> bool
    decreases e,
{
    match e {
        ExprV::Var(_) => true,
        ExprV::Lit(_) => true,
        ExprV::Pow(q, b) => settled(*b) && q.n != 0 && q.n != q.d && !((*b) is Pow) && ((*b)
            is Lit ==> q.n == 1 && q.d != 1),
        ExprV::Group(op, ms) => ms.len() >= 2 && settled_seq(ms) && fold_members_v(
            op,
            ExprV::Lit(identity_lit_v(op)),
            ms,
        ) == ExprV::Group(op, ms),
    }
}

/// Every member of the sequence is settled.
pub open spec fn settled_seq(ms: Seq<ExprV>) -> bool
    decreases ms,
{
    if ms.len() == 0 {
        true
    } else {
        settled(ms[0]) && settled_seq(ms.drop_first())
    }
}

/// Every tree has at least one node.
pub proof fn lemma_size_pos(e: ExprV)
    ensures
        size_v(e) >= 1,
{
    match e {
        ExprV::Var(_) => {
        },
        ExprV::Lit(_) => {
        },
        ExprV::Pow(_, _) => {
        },
        ExprV::Group(_, _) => {
        },
    }
}

proof fn lemma_settled_members_fixpoint(ms: Seq<ExprV>)
    requires
        settled_seq(ms),
    ensures
        simplify_members_v(ms) == Ok::<Seq<ExprV>, ()>(ms),
    decreases size_seq(ms), 1nat,
{
    if ms.len() == 0 {
        assert(simplify_members_v(ms) == Ok::<Seq<ExprV>, ()>(Seq::empty()));
        assert(ms =~= Seq::<ExprV>::empty());
    } else {
        lemma_size_pos(ms[0]);
        lemma_simplify_fixpoint(ms[0]);
        lemma_settled_members_fixpoint(ms.drop_first());
        assert(seq![ms[0]] + ms.drop_first() =~= ms);
    }
}

/// Law (fixpoint form): simplifying a settled tree returns it unchanged.
pub proof fn lemma_simplify_fixpoint(s: ExprV)
    requires
        settled(s),
    ensures
        simplify_v(s) == Ok::<ExprV, ()>(s),
    decreases size_v(s), 0nat,
{
    match s {
        ExprV::Var(_) => {
        },
        ExprV::Lit(_) => {
        },
        ExprV::Pow(q, b) => {
            lemma_simplify_fixpoint(*b);
            if (*b) is Lit {
                let v = (*b)->Lit_0;
                assert(pow_lit_v(v, q) == Ok::<ExprV, ()>(s)) by {
                    assert(cpx_pow_v(v, 1) == v);
                }
            }
        },
        ExprV::Group(op, ms) => {
            lemma_settled_members_fixpoint(ms);
        },
    }
}

/// Law of idempotence: a simplification whose result carries no power
/// residue is a fixpoint, so simplifying twice equals simplifying once.
pub proof fn lemma_simplify_idempotent(e: ExprV, s: ExprV)
    requires
        simplify_v(e) == Ok::<ExprV, ()>(s),
        settled(s),
    ensures
        simplify_v(s) == simplify_v(e),
{
    lemma_simplify_fixpoint(s);
}

// ---------------------------------------------------------------------------
// Preservation of canonical zero literals, and the flattening law.
// ---------------------------------------------------------------------------

proof fn lemma_fold_zero_canonical(op: Op, acc: ExprV, ms: Seq<ExprV>)
    requires
        zero_canonical_lits(acc),
        zero_canonical_seq(ms),
    ensures
        zero_canonical_lits(fold_members_v(op, acc, ms)),
    decreases ms.len(),
{
    if ms.len() > 0 {
        lemma_combine_zero_canonical(op, acc, ms[0]);
        lemma_fold_zero_canonical(op, combine_v(op, acc, ms[0]), ms.drop_first());
    }
}

proof fn lemma_members_zero_canonical(ms: Seq<ExprV>)
    requires
        zero_canonical_seq(ms),
        simplify_members_v(ms) is Ok,
    ensures
        zero_canonical_seq(simplify_members_v(ms)->Ok_0),
    decreases size_seq(ms), 1nat,
{
    if ms.len() > 0 {
        lemma_size_pos(ms[0]);
        lemma_simplify_zero_canonical(ms[0]);
        lemma_members_zero_canonical(ms.drop_first());
        let h = simplify_v(ms[0])->Ok_0;
        let t = simplify_members_v(ms.drop_first())->Ok_0;
        crate::expr::lemma_zero_canonical_seq_pair(h, h);
        crate::expr::lemma_zero_canonical_seq_concat(seq![h], t);
    }
}

/// The simplifier keeps every literal's zero components canonical.
pub proof fn lemma_simplify_zero_canonical(e: ExprV)
    requires
        zero_canonical_lits(e),
        simplify_v(e) is Ok,
    ensures
        zero_canonical_lits(simplify_v(e)->Ok_0),
    decreases size_v(e), 0nat,
{
    match e {
        ExprV::Var(_) => {
        },
        ExprV::Lit(_) => {
        },
        ExprV::Pow(q, b) => {
            if q.n != 0 {
                lemma_simplify_zero_canonical(*b);
                let ib = simplify_v(*b)->Ok_0;
                if q.n != q.d {
                    match ib {
                        ExprV::Lit(v) => {
                            let v2 = if q.n < 0 {
                                cpx_recip_v(v)
                            } else {
                                v
                            };
                            lemma_cpx_recip_zero_canonical(v);
                            let q2 = if q.n < 0 {
                                rat_abs_v(q)
                            } else {
                                q
                            };
                            if q2.n <= usize::MAX {
                                lemma_cpx_pow_zero_canonical(v2, q2.n as nat);
                                let res = cpx_pow_v(v2, q2.n as nat);
                                assert(zero_canonical_lits(ExprV::Lit(res)));
                                assert(zero_canonical_lits(ExprV::Pow(
                                    RatV { n: 1, d: q2.d },
                                    Box::new(ExprV::Lit(res)),
                                )));
                            }
                        },
                        ExprV::Pow(m, inner) => {
                            assert(zero_canonical_lits(ExprV::Pow(rat_mul_v(q, m), inner)));
                        },
                        _ => {
                            assert(zero_canonical_lits(ExprV::Pow(q, Box::new(ib))));
                        },
                    }
                } else {
                    assert(zero_canonical_lits(ib));
                }
            }
        },
        ExprV::Group(op, ms) => {
            if ms.len() == 1 {
                lemma_zero_canonical_seq_index(ms, 0);
                lemma_size_seq_elem(ms, 0);
                lemma_simplify_zero_canonical(ms[0]);
            } else if ms.len() > 1 {
                lemma_members_zero_canonical(ms);
                lemma_fold_zero_canonical(
                    op,
                    ExprV::Lit(identity_lit_v(op)),
                    simplify_members_v(ms)->Ok_0,
                );
            }
        },
    }
}

/// An identity-valued literal with canonical zero components is the
/// identity literal itself.
proof fn lemma_identity_is_canonical(x: ExprV)
    requires
        is_identity_lit_v(Op::Add, x),
        zero_canonical_lits(x),
    ensures
        x == ExprV::Lit(identity_lit_v(Op::Add)),
{
}

proof fn lemma_fold2_unfold(op: Op, x: ExprV, y: ExprV)
    ensures
        fold_members_v(op, ExprV::Lit(identity_lit_v(op)), seq![x, y]) == combine_v(
            op,
            combine_v(op, ExprV::Lit(identity_lit_v(op)), x),
            y,
        ),
{
    reveal_with_fuel(fold_members_v, 4);
    let s = seq![x, y];
    assert(s.drop_first() =~= seq![y]);
    assert(seq![y].drop_first() =~= Seq::<ExprV>::empty());
}

proof fn lemma_fold3_unfold(op: Op, x: ExprV, y: ExprV, z: ExprV)
    ensures
        fold_members_v(op, ExprV::Lit(identity_lit_v(op)), seq![x, y, z]) == combine_v(
            op,
            combine_v(op, combine_v(op, ExprV::Lit(identity_lit_v(op)), x), y),
            z,
        ),
{
    reveal_with_fuel(fold_members_v, 5);
    let s = seq![x, y, z];
    assert(s.drop_first() =~= seq![y, z]);
    assert(seq![y, z].drop_first() =~= seq![z]);
    assert(seq![z].drop_first() =~= Seq::<ExprV>::empty());
}

proof fn lemma_members2_unfold(b: ExprV, c: ExprV)
    ensures
        simplify_members_v(seq![b, c]) == (match (simplify_v(b), simplify_v(c)) {
            (Ok(y), Ok(z)) => Ok::<Seq<ExprV>, ()>(seq![y, z]),
            _ => Err(()),
        }),
{
    reveal_with_fuel(simplify_members_v, 4);
    let s = seq![b, c];
    assert(s.drop_first() =~= seq![c]);
    assert(seq![c].drop_first() =~= Seq::<ExprV>::empty());
    match (simplify_v(b), simplify_v(c)) {
        (Ok(y), Ok(z)) => {
            assert(seq![z] + Seq::<ExprV>::empty() =~= seq![z]);
            assert(seq![y] + seq![z] =~= seq![y, z]);
        },
        _ => {
        },
    }
}

#[verifier::rlimit(100)]
proof fn lemma_members3_unfold(a: ExprV, b: ExprV, c: ExprV)
    ensures
        simplify_members_v(seq![a, b, c]) == (match (
            simplify_v(a),
            simplify_v(b),
            simplify_v(c),
        ) {
            (Ok(x), Ok(y), Ok(z)) => Ok::<Seq<ExprV>, ()>(seq![x, y, z]),
            _ => Err(()),
        }),
{
    reveal_with_fuel(simplify_members_v, 2);
    let s = seq![a, b, c];
    assert(s.drop_first() =~= seq![b, c]);
    lemma_members2_unfold(b, c);
    match (simplify_v(a), simplify_v(b), simplify_v(c)) {
        (Ok(x), Ok(y), Ok(z)) => {
            assert(seq![x] + seq![y, z] =~= seq![x, y, z]);
        },
        _ => {
        },
    }
}

/// Law of flattening: adding three non-group terms pairwise yields the same
/// normal form as one three-member sum group. The terms' literals carry
/// canonical zero components, as every value this library builds does.
pub proof fn lemma_flatten_law(a: ExprV, b: ExprV, c: ExprV)
    requires
        !(a is Group),
        !(b is Group),
        !(c is Group),
        zero_canonical_lits(a),
        zero_canonical_lits(b),
        zero_canonical_lits(c),
    ensures
        simplify_v(combine_v(Op::Add, combine_v(Op::Add, a, b), c)) == simplify_v(
            ExprV::Group(Op::Add, seq![a, b, c]),
        ),
{
    let op = Op::Add;
    let idl = ExprV::Lit(identity_lit_v(op));
    let s3 = seq![a, b, c];
    assert(s3.len() == 3);
    lemma_members3_unfold(a, b, c);
    let t1 = combine_v(op, a, b);
    let t2 = combine_v(op, t1, c);
    match (simplify_v(a), simplify_v(b), simplify_v(c)) {
        (Ok(x), Ok(y), Ok(z)) => {
            lemma_fold3_unfold(op, x, y, z);
            lemma_simplify_zero_canonical(a);
            lemma_simplify_zero_canonical(b);
            lemma_simplify_zero_canonical(c);
            let rhs_val = combine_v(op, combine_v(op, combine_v(op, idl, x), y), z);
            assert(simplify_v(ExprV::Group(op, s3)) == Ok::<ExprV, ()>(rhs_val));
            if is_identity_lit_v(op, a) {
                lemma_identity_is_canonical(a);
                if is_identity_lit_v(op, b) {
                    lemma_identity_is_canonical(b);
                } else {
                    if is_identity_lit_v(op, c) {
                        lemma_identity_is_canonical(c);
                        if is_identity_lit_v(op, y) {
                            lemma_identity_is_canonical(y);
                        }
                    } else {
                        if t2 is Group {
                            lemma_members2_unfold(b, c);
                            lemma_fold2_unfold(op, y, z);
                        }
                    }
                }
            } else {
                if is_identity_lit_v(op, b) {
                    lemma_identity_is_canonical(b);
                    if is_identity_lit_v(op, c) {
                        lemma_identity_is_canonical(c);
                        if is_identity_lit_v(op, x) {
                            lemma_identity_is_canonical(x);
                        }
                    } else {
                        if t2 is Group {
                            lemma_members2_unfold(a, c);
                            lemma_fold2_unfold(op, x, z);
                        }
                    }
                } else {
                    if a is Lit && b is Lit {
                        if is_identity_lit_v(op, c) {
                            lemma_identity_is_canonical(c);
                            if is_identity_lit_v(op, t1) {
                                lemma_identity_is_canonical(t1);
                            }
                        } else {
                            if t2 is Group {
                                lemma_members2_unfold(t1, c);
                                lemma_fold2_unfold(op, t1, z);
                                assert(simplify_v(t1) == Ok::<ExprV, ()>(t1));
                            }
                        }
                    } else {
                        if is_identity_lit_v(op, c) {
                            lemma_identity_is_canonical(c);
                            lemma_members2_unfold(a, b);
                            lemma_fold2_unfold(op, x, y);
                            let w = combine_v(op, combine_v(op, idl, x), y);
                            lemma_combine_zero_canonical(op, combine_v(op, idl, x), y);
                            lemma_combine_zero_canonical(op, idl, x);
                            if is_identity_lit_v(op, w) {
                                lemma_identity_is_canonical(w);
                            }
                        } else {
                            assert(t2 == ExprV::Group(op, s3)) by {
                                assert(t1 == ExprV::Group(op, seq![a, b]));
                                assert(seq![a, b].push(c) =~= s3);
                            }
                        }
                    }
                }
            }
        },
        _ => {
            if simplify_v(a) is Err {
            } else if simplify_v(b) is Err {
            } else {
            }
            if is_identity_lit_v(op, a) {
                lemma_identity_is_canonical(a);
                if !(is_identity_lit_v(op, b)) && !(is_identity_lit_v(op, c)) && !(b is Lit
                    && c is Lit) {
                    lemma_members2_unfold(b, c);
                }
            } else if is_identity_lit_v(op, b) {
                lemma_identity_is_canonical(b);
                if !(is_identity_lit_v(op, c)) && !(a is Lit && c is Lit) {
                    lemma_members2_unfold(a, c);
                }
            } else if a is Lit && b is Lit {
                lemma_members2_unfold(t1, c);
            } else {
                lemma_members2_unfold(a, b);
                if !(is_identity_lit_v(op, c)) {
                    assert(t2 == ExprV::Group(op, s3)) by {
                        assert(t1 == ExprV::Group(op, seq![a, b]));
                        assert(seq![a, b].push(c) =~= s3);
                    }
                }
            }
        },
    }
}

} // verus!
