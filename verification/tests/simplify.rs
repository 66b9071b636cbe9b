use algebra::expr::{Expr, Group, Op, Power, Statement, StatementKind};
use algebra::literal::{new_integer, new_number, Complex, Num};
use algebra::simplify::Simplify;

fn lit(n: isize) -> Expr {
    Expr::Lit(Complex::from_real(new_integer(n)))
}

#[test]
fn literal_power() {
    assert_eq!(
        lit(8),
        Power::new(lit(2), new_integer(3)).simplify().unwrap()
    );
}

#[test]
fn negative_power() {
    assert_eq!(
        Expr::Lit(Complex::from_real(new_number(1, 8))),
        Power::new(lit(2), new_integer(-3)).simplify().unwrap()
    );
}

#[test]
fn simplify_fractional_power() {
    assert_eq!(
        Expr::Pow(Power::new(lit(8), new_number(1, 2))),
        Power::new(lit(2), new_number(3, 2)).simplify().unwrap()
    );
}

#[test]
fn power_of_one() {
    assert_eq!(
        Expr::Var('x'),
        Power::new(Expr::Var('x'), new_integer(1)).simplify().unwrap()
    );
}

#[test]
fn power_of_zero() {
    assert_eq!(
        Expr::Lit(Complex::one()),
        Power::new(Expr::Var('x'), new_integer(0)).simplify().unwrap()
    );
}

#[test]
fn nested_powers() {
    assert_eq!(
        Expr::Pow(Power::new(Expr::Var('x'), new_number(-1, 4))),
        Expr::Pow(Power::new(
            Expr::Pow(Power::new(Expr::Var('x'), new_number(2, 3))),
            new_number(3, -8),
        ))
        .simplify()
        .unwrap()
    );
}

#[test]
fn complex_literal_square() {
    let base = Expr::Lit(Complex::new(new_integer(1), new_integer(2)));
    let expected = Expr::Lit(Complex::new(new_integer(-3), new_integer(4)));
    assert_eq!(expected, Power::new(base, new_integer(2)).simplify().unwrap());
}

#[test]
fn exponent_too_large() {
    let huge = new_integer(1isize << 32).times(&new_integer(1isize << 32));
    let r = Power::new(lit(2), huge).simplify();
    assert!(r.is_err());
}

#[test]
fn negative_exponent_too_large() {
    let huge = new_integer(-(1isize << 32)).times(&new_integer(1isize << 32));
    let r = Power::new(lit(2), huge).simplify();
    assert!(r.is_err());
}

#[test]
fn simplify_is_idempotent() {
    let e = Expr::Var('x')
        .power(new_integer(2))
        .add(Expr::Var('x'))
        .add(lit(3));
    let once = e.simplify().unwrap();
    let twice = once.dup().simplify().unwrap();
    assert_eq!(once, twice);
}

#[test]
fn empty_groups_yield_identities() {
    let empty_sum = Expr::Group(Group { op: Op::Add, members: vec![] });
    assert_eq!(lit(0), empty_sum.simplify().unwrap());
    let empty_product = Expr::Group(Group { op: Op::Mul, members: vec![] });
    assert_eq!(lit(1), empty_product.simplify().unwrap());
}

#[test]
fn singleton_group_yields_member() {
    let g = Expr::Group(Group { op: Op::Mul, members: vec![Expr::Var('x')] });
    assert_eq!(Expr::Var('x'), g.simplify().unwrap());
}

#[test]
fn identity_group_collapses() {
    assert_eq!(lit(0), Group::identity(&Op::Add).simplify().unwrap());
    assert_eq!(lit(1), Group::identity(&Op::Mul).simplify().unwrap());
}

#[test]
fn group_fold_redistributes() {
    let g = Expr::Group(Group {
        op: Op::Mul,
        members: vec![Expr::Var('x').add(Expr::Var('y')), Expr::Var('z').add(Expr::Var('w'))],
    });
    let expected = Expr::Group(Group {
        op: Op::Add,
        members: vec![
            Expr::Group(Group::multiply(Expr::Var('x'), Expr::Var('z'))),
            Expr::Group(Group::multiply(Expr::Var('x'), Expr::Var('w'))),
            Expr::Group(Group::multiply(Expr::Var('y'), Expr::Var('z'))),
            Expr::Group(Group::multiply(Expr::Var('y'), Expr::Var('w'))),
        ],
    });
    assert_eq!(expected, g.simplify().unwrap());
}

#[test]
fn no_term_collection() {
    let e = Expr::Var('x').add(Expr::Var('x'));
    let expected = Expr::Group(Group::add(Expr::Var('x'), Expr::Var('x')));
    assert_eq!(expected, e.simplify().unwrap());
}

#[test]
fn rationals_are_canonical() {
    assert_eq!(new_number(1, 2), new_number(2, 4));
    assert_eq!(new_integer(-1), new_number(3, -3));
    assert_eq!(Num::zero(), new_number(0, 7));
    assert_ne!(new_number(1, 2), new_number(1, 3));
}

#[test]
fn statement_shape() {
    let st = Statement {
        kind: StatementKind::Equality,
        left: Box::new(Expr::Var('x')),
        right: Box::new(lit(1)),
    };
    assert!(matches!(st.kind, StatementKind::Equality));
}
