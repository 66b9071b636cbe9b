use vstd::prelude::*;
use crate::literal::{Complex, CpxV, Num, RatV, rat_one_v, rat_zero_v};

verus! {

/// The operator of an associative group: sum or product.
#[derive(Clone, Copy, PartialEq, Eq, Structural, Debug)]
pub enum Op {
    Add,
    Mul,
}

// ---------------------------------------------------------------------------
// Mathematical model of expression trees.
// ---------------------------------------------------------------------------

/// Model of one expression node.
#[verifier::ext_equal]
pub ghost enum ExprV {
    /// A single-character identifier.
    Var(char),
    /// An exact complex literal.
    Lit(CpxV),
    /// A base raised to an exact rational exponent.
    Pow(RatV, Box<ExprV>),
    /// An associative n-ary sum or product.
    Group(Op, Seq<ExprV>),
}

// ---------------------------------------------------------------------------
// The expression tree.
// ---------------------------------------------------------------------------

/// An algebraic expression: variable, literal, power, or group.
#[derive(Debug)]
pub enum Expr {
    Var(char),
    Lit(Complex),
    Pow(Power),
    Group(Group),
}

/// A base expression raised to an exact rational exponent.
#[derive(Debug)]
pub struct Power {
    pub n: Num,
    pub expr: Box<Expr>,
}

/// An associative n-ary group of members under one operator.
#[derive(Debug)]
pub struct Group {
    pub op: Op,
    pub members: Vec<Expr>,
}

/// An equality between two expressions; a shape kept for clients, not
/// exercised by the simplifier.
pub struct Statement {
    pub kind: StatementKind,
    pub left: Box<Expr>,
    pub right: Box<Expr>,
}

pub enum StatementKind {
    Equality,
}

impl View for Expr {
    type V = ExprV;

    open spec fn view(&self) -> ExprV
        decreases self,
    {
        match self {
            Expr::Var(c) => ExprV::Var(*c),
            Expr::Lit(v) => ExprV::Lit(v@),
            Expr::Pow(p) => ExprV::Pow(p.n@, Box::new((*p.expr).view())),
            Expr::Group(g) => ExprV::Group(g.op, view_members(g.members@)),
        }
    }
}

/// The members of a group, viewed elementwise.
pub open spec fn view_members(s: Seq<Expr>) -> Seq<ExprV>
    decreases s,
{
    if s.len() == 0 {
        Seq::empty()
    } else {
        view_members(s.drop_last()).push(s.last()@)
    }
}

pub proof fn lemma_view_members(s: Seq<Expr>)
    ensures
        view_members(s).len() == s.len(),
        forall|i: int| 0 <= i < s.len() ==> #[trigger] view_members(s)[i] == s[i]@,
    decreases s.len(),
{
    if s.len() > 0 {
        lemma_view_members(s.drop_last());
        assert(view_members(s) == view_members(s.drop_last()).push(s.last()@));
        assert(view_members(s).len() == s.len());
        assert forall|i: int| 0 <= i < s.len() implies #[trigger] view_members(s)[i] == s[i]@ by {
            if i < s.len() - 1 {
                assert(view_members(s.drop_last())[i] == s.drop_last()[i]@);
                assert(s.drop_last()[i] == s[i]);
                assert(view_members(s)[i] == view_members(s.drop_last())[i]);
            } else {
                assert(view_members(s)[i] == s.last()@);
            }
        }
    }
}

pub proof fn lemma_view_members_push(s: Seq<Expr>, e: Expr)
    ensures
        view_members(s.push(e)) =~= view_members(s).push(e@),
{
    assert(s.push(e).drop_last() =~= s);
}

/// The number of nodes in an expression, the measure for recursive walks.
pub open spec fn size_v(e: ExprV) -> nat
    decreases e,
{
    match e {
        ExprV::Var(_) => 1,
        ExprV::Lit(_) => 1,
        ExprV::Pow(_, b) => 1 + size_v(*b),
        ExprV::Group(_, ms) => 1 + size_seq(ms),
    }
}

/// The total number of nodes in a sequence of expressions.
pub open spec fn size_seq(ms: Seq<ExprV>) -> nat
    decreases ms,
{
    if ms.len() == 0 {
        0
    } else {
        size_v(ms[0]) + size_seq(ms.drop_first())
    }
}

/// Every element of a sequence counts toward the sequence's total size.
pub proof fn lemma_size_seq_elem(ms: Seq<ExprV>, i: int)
    requires
        0 <= i < ms.len(),
    ensures
        size_v(ms[i]) <= size_seq(ms),
    decreases ms.len(),
{
    if i > 0 {
        lemma_size_seq_elem(ms.drop_first(), i - 1);
    }
}

/// Every literal in the tree carries only canonical zero components; this
/// holds of every tree the library builds, and the simplifier and the
/// combinators preserve it.
pub open spec fn zero_canonical_lits(e: ExprV) -> bool
    decreases e,
{
    match e {
        ExprV::Var(_) => true,
        ExprV::Lit(v) => crate::literal::zero_canonical_cpx(v),
        ExprV::Pow(_, b) => zero_canonical_lits(*b),
        ExprV::Group(_, ms) => zero_canonical_seq(ms),
    }
}

/// Every member of the sequence has canonical zero literals.
pub open spec fn zero_canonical_seq(ms: Seq<ExprV>) -> bool
    decreases ms,
{
    if ms.len() == 0 {
        true
    } else {
        zero_canonical_lits(ms[0]) && zero_canonical_seq(ms.drop_first())
    }
}

pub proof fn lemma_zero_canonical_seq_index(ms: Seq<ExprV>, i: int)
    requires
        zero_canonical_seq(ms),
        0 <= i < ms.len(),
    ensures
        zero_canonical_lits(ms[i]),
    decreases ms.len(),
{
    if i > 0 {
        lemma_zero_canonical_seq_index(ms.drop_first(), i - 1);
    }
}

pub proof fn lemma_zero_canonical_seq_all(ms: Seq<ExprV>)
    requires
        forall|i: int| 0 <= i < ms.len() ==> zero_canonical_lits(#[trigger] ms[i]),
    ensures
        zero_canonical_seq(ms),
    decreases ms.len(),
{
    if ms.len() > 0 {
        assert forall|i: int|
            0 <= i < ms.drop_first().len() implies zero_canonical_lits(
            #[trigger] ms.drop_first()[i]) by {
            assert(ms.drop_first()[i] == ms[i + 1]);
        }
        lemma_zero_canonical_seq_all(ms.drop_first());
    }
}

pub proof fn lemma_zero_canonical_seq_concat(s1: Seq<ExprV>, s2: Seq<ExprV>)
    requires
        zero_canonical_seq(s1),
        zero_canonical_seq(s2),
    ensures
        zero_canonical_seq(s1 + s2),
{
    assert forall|i: int| 0 <= i < (s1 + s2).len() implies zero_canonical_lits(
        #[trigger] (s1 + s2)[i]) by {
        if i < s1.len() {
            lemma_zero_canonical_seq_index(s1, i);
        } else {
            lemma_zero_canonical_seq_index(s2, i - s1.len());
        }
    }
    lemma_zero_canonical_seq_all(s1 + s2);
}

pub proof fn lemma_zero_canonical_seq_push(s: Seq<ExprV>, e: ExprV)
    requires
        zero_canonical_seq(s),
        zero_canonical_lits(e),
    ensures
        zero_canonical_seq(s.push(e)),
{
    assert forall|i: int| 0 <= i < s.push(e).len() implies zero_canonical_lits(
        #[trigger] s.push(e)[i]) by {
        if i < s.len() {
            lemma_zero_canonical_seq_index(s, i);
        }
    }
    lemma_zero_canonical_seq_all(s.push(e));
}

pub proof fn lemma_zero_canonical_seq_pair(a: ExprV, b: ExprV)
    requires
        zero_canonical_lits(a),
        zero_canonical_lits(b),
    ensures
        zero_canonical_seq(seq![a, b]),
        zero_canonical_seq(seq![a]),
{
    let pair = seq![a, b];
    assert forall|i: int| 0 <= i < pair.len() implies zero_canonical_lits(
        #[trigger] pair[i]) by {
        if i == 0 {
            assert(pair[i] == a);
        } else {
            assert(pair[i] == b);
        }
    }
    lemma_zero_canonical_seq_all(pair);
    let single = seq![a];
    assert(single[0] == a);
    lemma_zero_canonical_seq_all(single);
}

impl View for Power {
    type V = ExprV;

    open spec fn view(&self) -> ExprV {
        ExprV::Pow(self.n@, Box::new((*self.expr).view()))
    }
}

impl View for Group {
    type V = ExprV;

    open spec fn view(&self) -> ExprV {
        ExprV::Group(self.op, view_members(self.members@))
    }
}

/// Builds the expression consisting of the single variable `c`.
pub fn variable(c: char) -> (r: Expr)
    ensures
        r@ == ExprV::Var(c),
{
    Expr::Var(c)
}

/// Builds the expression consisting of the single literal `v`.
pub fn literal(v: Complex) -> (r: Expr)
    ensures
        r@ == ExprV::Lit(v@),
{
    Expr::Lit(v)
}

impl Op {
    /// The operator's identity element: zero for sums, one for products.
    pub fn identity(&self) -> (r: Num)
        ensures
            r@ == (match self {
                Op::Add => rat_zero_v(),
                Op::Mul => rat_one_v(),
            }),
    {
        match self {
            Op::Add => Num::zero(),
            Op::Mul => Num::one(),
        }
    }
}

impl Power {
    pub fn new(expr: Expr, n: Num) -> (r: Power)
        ensures
            r@ == ExprV::Pow(n@, Box::new(expr@)),
    {
        Power { n, expr: Box::new(expr) }
    }
}

/// The identity element of an operator, at the model level.
pub open spec fn op_identity_v(op: Op) -> RatV {
    match op {
        Op::Add => rat_zero_v(),
        Op::Mul => rat_one_v(),
    }
}

impl Group {
    /// A two-member group of `left` and `right`, without flattening.
    fn pair(op: Op, left: Expr, right: Expr) -> (r: Group)
        ensures
            r@ == ExprV::Group(op, seq![left@, right@]),
    {
        let ghost lv = left@;
        let ghost rv = right@;
        let mut members: Vec<Expr> = Vec::new();
        members.push(left);
        members.push(right);
        proof {
            lemma_view_members(members@);
            assert(view_members(members@)[0] == members@[0]@);
            assert(view_members(members@)[1] == members@[1]@);
            assert(view_members(members@) =~= seq![lv, rv]);
        }
        Group { op, members }
    }

    /// A two-member sum group, without flattening.
    pub fn add(left: Expr, right: Expr) -> (r: Group)
        ensures
            r@ == ExprV::Group(Op::Add, seq![left@, right@]),
    {
        Group::pair(Op::Add, left, right)
    }

    /// A two-member product group, without flattening.
    pub fn multiply(left: Expr, right: Expr) -> (r: Group)
        ensures
            r@ == ExprV::Group(Op::Mul, seq![left@, right@]),
    {
        Group::pair(Op::Mul, left, right)
    }

    /// A group holding the operator's identity literal twice, mirroring the
    /// two-member shape of `add` and `multiply`.
    pub fn identity(op: &Op) -> (r: Group)
        ensures
            r@ == ExprV::Group(*op, seq![
                ExprV::Lit(CpxV { re: op_identity_v(*op), im: rat_zero_v() }),
                ExprV::Lit(CpxV { re: op_identity_v(*op), im: rat_zero_v() }),
            ]),
    {
        let a = Expr::Lit(Complex::from_real(op.identity()));
        let b = Expr::Lit(Complex::from_real(op.identity()));
        match op {
            Op::Add => Group::add(a, b),
            Op::Mul => Group::multiply(a, b),
        }
    }
}

impl Expr {
    /// A structurally identical copy.
    #[verifier::loop_isolation(false)]
    pub fn dup(&self) -> (r: Expr)
        ensures
            r@ == self@,
        decreases size_v(self@),
    {
        match self {
            Expr::Var(c) => Expr::Var(*c),
            Expr::Lit(v) => Expr::Lit(v.dup()),
            Expr::Pow(p) => Expr::Pow(Power { n: p.n.dup(), expr: Box::new(p.expr.dup()) }),
            Expr::Group(g) => {
                let mut out: Vec<Expr> = Vec::new();
                let mut i: usize = 0;
                proof {
                    assert(view_members(out@) =~= view_members(g.members@.take(0)));
                }
                while i < g.members.len()
                    invariant
                        0 <= i <= g.members.len(),
                        view_members(out@) == view_members(g.members@.take(i as int)),
                        out@.len() == i,
                    decreases g.members.len() - i,
                {
                    proof {
                        lemma_view_members(g.members@);
                        lemma_size_seq_elem(view_members(g.members@), i as int);
                    }
                    let d = g.members[i].dup();
                    let ghost prev = out@;
                    out.push(d);
                    proof {
                        lemma_view_members_push(prev, d);
                        assert(g.members@.take(i + 1) =~= g.members@.take(i as int).push(
                            g.members@[i as int]));
                        lemma_view_members_push(g.members@.take(i as int), g.members@[i as int]);
                        assert(view_members(out@) =~= view_members(g.members@.take(i + 1)));
                    }
                    i = i + 1;
                }
                proof {
                    assert(g.members@.take(g.members@.len() as int) =~= g.members@);
                }
                Expr::Group(Group { op: g.op, members: out })
            },
        }
    }
}

/// An elementwise copy of a member vector.
#[verifier::loop_isolation(false)]
pub fn dup_members(v: &Vec<Expr>) -> (r: Vec<Expr>)
    ensures
        view_members(r@) == view_members(v@),
        r@.len() == v@.len(),
{
    let mut out: Vec<Expr> = Vec::new();
    let mut i: usize = 0;
    proof {
        assert(view_members(out@) =~= view_members(v@.take(0)));
    }
    while i < v.len()
        invariant
            0 <= i <= v.len(),
            view_members(out@) == view_members(v@.take(i as int)),
            out@.len() == i,
        decreases v.len() - i,
    {
        let d = v[i].dup();
        let ghost prev = out@;
        out.push(d);
        proof {
            lemma_view_members_push(prev, d);
            assert(v@.take(i + 1) =~= v@.take(i as int).push(v@[i as int]));
            lemma_view_members_push(v@.take(i as int), v@[i as int]);
            assert(view_members(out@) =~= view_members(v@.take(i + 1)));
        }
        i = i + 1;
    }
    proof {
        assert(v@.take(v@.len() as int) =~= v@);
        lemma_view_members(v@);
        lemma_view_members(out@);
    }
    out
}

/// Structural equality of two expressions, at the model level.
#[verifier::loop_isolation(false)]
pub fn eq_expr(a: &Expr, b: &Expr) -> (r: bool)
    ensures
        r == (a@ == b@),
    decreases size_v(a@),
{
    match (a, b) {
        (Expr::Var(c1), Expr::Var(c2)) => *c1 == *c2,
        (Expr::Lit(v1), Expr::Lit(v2)) => v1 == v2,
        (Expr::Pow(p1), Expr::Pow(p2)) => {
            let same = p1.n == p2.n && eq_expr(&p1.expr, &p2.expr);
            proof {
                if same {
                    assert(a@ =~= b@);
                }
            }
            same
        },
        (Expr::Group(g1), Expr::Group(g2)) => {
            if g1.op != g2.op {
                return false;
            }
            if g1.members.len() != g2.members.len() {
                proof {
                    lemma_view_members(g1.members@);
                    lemma_view_members(g2.members@);
                }
                return false;
            }
            let mut i: usize = 0;
            while i < g1.members.len()
                invariant
                    0 <= i <= g1.members.len(),
                    g1.members@.len() == g2.members@.len(),
                    a@ == ExprV::Group(g1.op, view_members(g1.members@)),
                    b@ == ExprV::Group(g2.op, view_members(g2.members@)),
                    g1.op == g2.op,
                    forall|j: int| 0 <= j < i ==> g1.members@[j]@ == #[trigger] g2.members@[j]@,
                decreases g1.members.len() - i,
            {
                proof {
                    lemma_view_members(g1.members@);
                    lemma_size_seq_elem(view_members(g1.members@), i as int);
                }
                if !eq_expr(&g1.members[i], &g2.members[i]) {
                    proof {
                        lemma_view_members(g1.members@);
                        lemma_view_members(g2.members@);
                    }
                    return false;
                }
                i = i + 1;
            }
            proof {
                lemma_view_members(g1.members@);
                lemma_view_members(g2.members@);
                assert forall|j: int|
                    0 <= j < g1.members@.len() implies #[trigger] view_members(g1.members@)[j]
                    == view_members(g2.members@)[j] by {
                    assert(g1.members@[j]@ == g2.members@[j]@);
                }
                assert(view_members(g1.members@) =~= view_members(g2.members@));
                assert(a@ =~= b@);
            }
            true
        },
        _ => {
            proof {
                assert(a@ != b@);
            }
            false
        },
    }
}

impl PartialEq for Expr {
    fn eq(&self, other: &Expr) -> bool {
        eq_expr(self, other)
    }
}

impl vstd::std_specs::cmp::PartialEqSpecImpl for Expr {
    open spec fn obeys_eq_spec() -> bool {
        true
    }

    open spec fn eq_spec(&self, other: &Expr) -> bool {
        self@ == other@
    }
}

impl From<char> for Expr {
    fn from(c: char) -> Expr {
        Expr::Var(c)
    }
}

impl vstd::std_specs::convert::FromSpecImpl<char> for Expr {
    open spec fn obeys_from_spec() -> bool {
        true
    }

    open spec fn from_spec(c: char) -> Expr {
        Expr::Var(c)
    }
}

impl From<Complex> for Expr {
    fn from(v: Complex) -> Expr {
        Expr::Lit(v)
    }
}

impl vstd::std_specs::convert::FromSpecImpl<Complex> for Expr {
    open spec fn obeys_from_spec() -> bool {
        true
    }

    open spec fn from_spec(v: Complex) -> Expr {
        Expr::Lit(v)
    }
}

impl From<Group> for Expr {
    fn from(g: Group) -> Expr {
        Expr::Group(g)
    }
}

impl vstd::std_specs::convert::FromSpecImpl<Group> for Expr {
    open spec fn obeys_from_spec() -> bool {
        true
    }

    open spec fn from_spec(g: Group) -> Expr {
        Expr::Group(g)
    }
}

impl From<Power> for Expr {
    fn from(p: Power) -> Expr {
        Expr::Pow(p)
    }
}

impl vstd::std_specs::convert::FromSpecImpl<Power> for Expr {
    open spec fn obeys_from_spec() -> bool {
        true
    }

    open spec fn from_spec(p: Power) -> Expr {
        Expr::Pow(p)
    }
}

} // verus!
