use algebra::expr::{Expr, Group, Op};
use algebra::literal::{new_integer, new_number, Complex};
use algebra::simplify::Simplify;

fn lit(n: isize) -> Expr {
    Expr::Lit(Complex::from_real(new_integer(n)))
}

#[test]
fn power() {
    assert_eq!("x^2", Expr::Var('x').power(new_integer(2)).render());
}

#[test]
fn display_fractional_power() {
    assert_eq!("x^1/2", Expr::Var('x').power(new_number(1, 2)).render());
}

#[test]
fn polynomial() {
    assert_eq!(
        "x^2 + x + 3",
        Expr::Var('x')
            .power(new_integer(2))
            .add(Expr::Var('x'))
            .add(lit(3))
            .render()
    );
}

#[test]
fn simple_multiplication() {
    assert_eq!("3 . x . y", lit(3).multiply(Expr::Var('x')).multiply(Expr::Var('y')).render());
}

#[test]
fn format_simplified_polynomial() {
    let e = Expr::Var('x')
        .power(new_integer(2))
        .add(Expr::Var('x'))
        .add(lit(3));
    assert_eq!("x^2 + x + 3", e.simplify().unwrap().render());
}

#[test]
fn format_product_of_sum() {
    let e = Expr::Var('x').add(Expr::Var('y')).multiply(Expr::Var('z'));
    assert_eq!("(x + y) . z", e.render());
}

#[test]
fn format_negative_exponent() {
    let e = Expr::Var('x')
        .power(new_number(2, 3))
        .power(new_number(3, -8));
    assert_eq!("x^-1/4", e.simplify().unwrap().render());
}

#[test]
fn format_complex_literal() {
    let e = Expr::Lit(Complex::new(new_integer(1), new_integer(2)));
    assert_eq!("1+2i", e.render());
}

#[test]
fn format_parenthesized_power_base() {
    let base = Expr::Var('x').add(Expr::Var('y'));
    assert_eq!("(x + y)^2", base.power(new_integer(2)).render());
}

#[test]
fn format_empty_group() {
    let e = Expr::Group(Group { op: Op::Add, members: vec![] });
    assert_eq!("", e.render());
}
