use algebra::expr::{Expr, Group, Power};
use algebra::literal::{new_integer, Complex};
use algebra::simplify::Simplify;

fn lit(n: isize) -> Expr {
    Expr::Lit(Complex::from_real(new_integer(n)))
}

fn var(c: char) -> Expr {
    Expr::Var(c)
}

fn mul2(a: Expr, b: Expr) -> Expr {
    Expr::Group(Group::multiply(a, b))
}

#[test]
fn simple_multiply() {
    assert_eq!(
        "x . y . z".to_string(),
        var('x').multiply(var('y')).multiply(var('z')).render()
    );
}

#[test]
fn distribution() {
    let product = var('x').add(var('y')).multiply(var('x').add(var('z')));
    let expected = Expr::Group(Group {
        op: algebra::expr::Op::Add,
        members: vec![
            mul2(var('x'), var('x')),
            mul2(var('x'), var('z')),
            mul2(var('y'), var('x')),
            mul2(var('y'), var('z')),
        ],
    });
    assert_eq!(expected, product);
}

#[test]
fn flatten_law() {
    let lhs = var('x').add(var('y')).add(lit(3));
    let rhs = Expr::Group(Group {
        op: algebra::expr::Op::Add,
        members: vec![var('x'), var('y'), lit(3)],
    });
    assert_eq!(rhs.simplify().unwrap(), lhs.simplify().unwrap());
}

#[test]
fn flatten_law_with_literals() {
    let lhs = lit(2).add(lit(3)).add(var('x'));
    let rhs = Expr::Group(Group {
        op: algebra::expr::Op::Add,
        members: vec![lit(2), lit(3), var('x')],
    });
    assert_eq!(rhs.simplify().unwrap(), lhs.simplify().unwrap());
}

#[test]
fn divide_builds_reciprocal_power() {
    let q = var('x').divide(var('y'));
    let expected = mul2(var('x'), Expr::Pow(Power::new(var('y'), new_integer(-1))));
    assert_eq!(expected, q);
}

#[test]
fn literal_operands_merge() {
    assert_eq!(lit(5), lit(2).add(lit(3)));
    assert_eq!(lit(6), lit(2).multiply(lit(3)));
}

#[test]
fn identity_operands_are_absorbed() {
    assert_eq!(var('x'), lit(0).add(var('x')));
    assert_eq!(var('x'), var('x').multiply(lit(1)));
}

#[test]
fn product_distributes_over_right_sum() {
    let product = var('a').multiply(var('b')).multiply(var('x').add(var('y')));
    let expected = Expr::Group(Group {
        op: algebra::expr::Op::Add,
        members: vec![
            Expr::Group(Group {
                op: algebra::expr::Op::Mul,
                members: vec![var('a'), var('b'), var('x')],
            }),
            Expr::Group(Group {
                op: algebra::expr::Op::Mul,
                members: vec![var('a'), var('b'), var('y')],
            }),
        ],
    });
    assert_eq!(expected, product);
}
