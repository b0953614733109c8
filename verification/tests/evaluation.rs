use bigdecimal::num_bigint::BigInt;
use bigdecimal::BigDecimal;
use std::str::FromStr;
use unitcalc::decimal::Decimal;
use unitcalc::decimal::SCALE_LIMIT;
use unitcalc::error::EvalError;
use unitcalc::error::Feature;
use unitcalc::error::UnitError;
use unitcalc::runtime::apply_infix;
use unitcalc::runtime::apply_prefix;
use unitcalc::runtime::apply_sign;
use unitcalc::runtime::infix_unit;
use unitcalc::runtime::Runtime;
use unitcalc::syntax::Expression;
use unitcalc::syntax::Identifier;
use unitcalc::syntax::InfixOp;
use unitcalc::syntax::PrefixOp;
use unitcalc::syntax::SiPrefix;
use unitcalc::syntax::FC;
use unitcalc::unit::Unit;
use unitcalc::value::Value;
use unitcalc::value::ValueKind;

fn dec(text: &str) -> Decimal {
    let (digits, scale) = BigDecimal::from_str(text).unwrap().into_bigint_and_exponent();
    Decimal::new(digits.to_signed_bytes_le(), scale)
}

fn big(d: &Decimal) -> BigDecimal {
    BigDecimal::new(BigInt::from_signed_bytes_le(d.unscaled_bytes()), d.decimal_places())
}

fn lit(text: &str) -> BigDecimal {
    BigDecimal::from_str(text).unwrap()
}

fn name(text: &str) -> String {
    String::from(text)
}

fn at(line: u32, column: u32) -> FC {
    FC { line, column }
}

fn whole(text: &str) -> Expression {
    Expression::IntegerLit { fc: at(1, 1), val: dec(text) }
}

fn var(text: &str) -> Expression {
    Expression::Variable(Identifier { fc: at(1, 2), name: name(text) })
}

fn infix(op: InfixOp, lhs: Expression, rhs: Expression) -> Expression {
    Expression::InfixOp { fc: at(1, 3), op, lhs: Box::new(lhs), rhs: Box::new(rhs) }
}

fn number(text: &str, unit: Unit) -> Value {
    Value { kind: ValueKind::Number(dec(text)), unit }
}

fn function(text: &str) -> Value {
    Value { kind: ValueKind::FunctionRef(name(text)), unit: Unit::new() }
}

fn magnitude(value: &Value) -> BigDecimal {
    match &value.kind {
        ValueKind::Number(d) => big(d),
        ValueKind::FunctionRef(f) => panic!("no number: {}", f),
    }
}

fn session() -> Runtime {
    let mut rt = Runtime::new();
    rt.declare_unit(name("meter")).unwrap();
    rt.declare_unit(name("second")).unwrap();
    rt.declare_variable(name("x"), number("5", Unit::new())).unwrap();
    rt.declare_function(name("f"), vec![name("a")], whole("1")).unwrap();
    rt
}

#[test]
fn literals_are_dimensionless_numbers() {
    let rt = Runtime::new();
    let whole = rt.eval_expr(&whole("42")).unwrap();
    assert_eq!(magnitude(&whole), lit("42"));
    assert!(whole.unit.is_dimensionless());
    let fraction =
        rt.eval_expr(&Expression::DecimalLit { fc: at(1, 1), val: dec("0.125") }).unwrap();
    assert_eq!(magnitude(&fraction), lit("0.125"));
    assert!(fraction.unit.is_dimensionless());
}

#[test]
fn variable_reference_gives_the_bound_value() {
    let rt = session();
    let value = rt.eval_expr(&var("x")).unwrap();
    assert_eq!(magnitude(&value), lit("5"));
    let unit = rt.eval_expr(&var("meter")).unwrap();
    assert_eq!(magnitude(&unit), lit("1"));
    assert_eq!(unit.unit.exponent(&name("meter")), 1);
}

#[test]
fn undefined_name_is_an_error() {
    let rt = session();
    match rt.eval_expr(&var("y")) {
        Err(EvalError::UndefinedName(fc, text)) => {
            assert_eq!(fc, at(1, 2));
            assert_eq!(text, "y");
        }
        other => panic!("unexpected: {:?}", other),
    }
}

#[test]
fn adding_values_of_different_units_is_refused() {
    let rt = session();
    let lhs = infix(InfixOp::Mul, whole("1"), var("meter"));
    let rhs = infix(InfixOp::Mul, whole("1"), var("second"));
    match rt.eval_expr(&infix(InfixOp::Add, lhs, rhs)) {
        Err(EvalError::UnitError(UnitError::IncompatibleUnits(fc, op, a, b))) => {
            assert_eq!(fc, at(1, 3));
            assert_eq!(op, InfixOp::Add);
            assert!(a.same_as(&Unit::new_named(name("meter"))));
            assert!(b.same_as(&Unit::new_named(name("second"))));
        }
        other => panic!("unexpected: {:?}", other),
    }
}

#[test]
fn multiplying_values_of_different_units_combines_the_units() {
    let rt = session();
    let lhs = infix(InfixOp::Mul, whole("1"), var("meter"));
    let rhs = infix(InfixOp::Mul, whole("1"), var("second"));
    let value = rt.eval_expr(&infix(InfixOp::Mul, lhs, rhs)).unwrap();
    assert_eq!(magnitude(&value), lit("1"));
    assert_eq!(value.unit.exponent(&name("meter")), 1);
    assert_eq!(value.unit.exponent(&name("second")), 1);
    assert_eq!(value.unit.exponent(&name("kilogram")), 0);
}

#[test]
fn sum_difference_and_remainder_keep_the_shared_unit() {
    let meter = Unit::new_named(name("meter"));
    let sum = apply_infix(
        at(2, 1),
        InfixOp::Add,
        number("1.5", meter.clone()),
        number("2.25", meter.clone()),
    )
    .unwrap();
    assert_eq!(magnitude(&sum), lit("3.75"));
    assert!(sum.unit.same_as(&meter));
    let difference = apply_infix(
        at(2, 1),
        InfixOp::Sub,
        number("1.5", meter.clone()),
        number("2.25", meter.clone()),
    )
    .unwrap();
    assert_eq!(magnitude(&difference), lit("-0.75"));
    assert!(difference.unit.same_as(&meter));
    let remainder = apply_infix(
        at(2, 1),
        InfixOp::Mod,
        number("-7", meter.clone()),
        number("3", meter.clone()),
    )
    .unwrap();
    assert_eq!(magnitude(&remainder), lit("-1"));
    assert!(remainder.unit.same_as(&meter));
}

#[test]
fn quotient_divides_magnitudes_and_units() {
    let meter = Unit::new_named(name("meter"));
    let second = Unit::new_named(name("second"));
    let speed =
        apply_infix(at(2, 1), InfixOp::Div, number("10", meter), number("4", second)).unwrap();
    assert_eq!(magnitude(&speed), lit("2.5"));
    assert_eq!(speed.unit.exponent(&name("meter")), 1);
    assert_eq!(speed.unit.exponent(&name("second")), -1);
}

#[test]
fn exact_name_wins_over_prefixed_reading() {
    let mut rt = Runtime::new();
    rt.declare_unit(name("m")).unwrap();
    rt.declare_unit(name("s")).unwrap();
    rt.declare_unit(name("ms")).unwrap();
    let expr = Expression::MaybeUnitPrefix {
        fc: at(3, 1),
        name: name("s"),
        full_name: name("ms"),
        prefix: SiPrefix::Milli,
    };
    let value = rt.eval_expr(&expr).unwrap();
    assert_eq!(magnitude(&value), lit("1"));
    assert_eq!(value.unit.exponent(&name("ms")), 1);
    assert_eq!(value.unit.exponent(&name("s")), 0);
}

#[test]
fn prefixed_reading_scales_the_base_name() {
    let mut rt = Runtime::new();
    rt.declare_unit(name("s")).unwrap();
    let expr = Expression::MaybeUnitPrefix {
        fc: at(3, 1),
        name: name("s"),
        full_name: name("ms"),
        prefix: SiPrefix::Milli,
    };
    let value = rt.eval_expr(&expr).unwrap();
    assert_eq!(magnitude(&value), lit("0.001"));
    assert_eq!(value.unit.exponent(&name("s")), 1);
    assert_eq!(value.unit.exponent(&name("ms")), 0);
}

#[test]
fn prefixed_name_without_declaration_is_undefined_under_its_full_name() {
    let rt = Runtime::new();
    let expr = Expression::MaybeUnitPrefix {
        fc: at(3, 1),
        name: name("s"),
        full_name: name("ms"),
        prefix: SiPrefix::Milli,
    };
    match rt.eval_expr(&expr) {
        Err(EvalError::UndefinedName(fc, text)) => {
            assert_eq!(fc, at(3, 1));
            assert_eq!(text, "ms");
        }
        other => panic!("unexpected: {:?}", other),
    }
}

#[test]
fn every_si_prefix_scales_by_its_power_of_ten() {
    let cases = [
        (SiPrefix::Femto, "0.000000000000003"),
        (SiPrefix::Pico, "0.000000000003"),
        (SiPrefix::Nano, "0.000000003"),
        (SiPrefix::Micro, "0.000003"),
        (SiPrefix::Milli, "0.003"),
        (SiPrefix::Centi, "0.03"),
        (SiPrefix::Deci, "0.3"),
        (SiPrefix::Deca, "30"),
        (SiPrefix::Hecto, "300"),
        (SiPrefix::Kilo, "3000"),
        (SiPrefix::Mega, "3000000"),
        (SiPrefix::Giga, "3000000000"),
        (SiPrefix::Tera, "3000000000000"),
        (SiPrefix::Peta, "3000000000000000"),
    ];
    for (prefix, expected) in cases {
        let value =
            apply_prefix(at(4, 1), prefix, number("3", Unit::new_named(name("gram")))).unwrap();
        assert_eq!(magnitude(&value), lit(expected));
        assert_eq!(value.unit.exponent(&name("gram")), 1);
    }
}

#[test]
fn si_prefix_on_a_function_is_refused() {
    match apply_prefix(at(4, 1), SiPrefix::Kilo, function("f")) {
        Err(EvalError::InvalidSiPrefix(fc, prefix, value)) => {
            assert_eq!(fc, at(4, 1));
            assert_eq!(prefix, SiPrefix::Kilo);
            assert!(matches!(value.kind, ValueKind::FunctionRef(ref f) if f == "f"));
        }
        other => panic!("unexpected: {:?}", other),
    }
}

#[test]
fn two_to_the_tenth_is_exactly_1024() {
    let rt = Runtime::new();
    let value = rt.eval_expr(&infix(InfixOp::Pow, whole("2"), whole("10"))).unwrap();
    assert_eq!(magnitude(&value), lit("1024"));
    assert!(value.unit.is_dimensionless());
}

#[test]
fn two_to_the_minus_one_is_exactly_one_half() {
    let rt = Runtime::new();
    let value = rt.eval_expr(&infix(InfixOp::Pow, whole("2"), whole("-1"))).unwrap();
    assert_eq!(magnitude(&value), lit("0.5"));
    assert!(value.unit.is_dimensionless());
}

#[test]
fn power_raises_the_unit_too() {
    let meter = Unit::new_named(name("meter"));
    let square =
        apply_infix(at(5, 1), InfixOp::Pow, number("3", meter.clone()), number("2", Unit::new()))
            .unwrap();
    assert_eq!(magnitude(&square), lit("9"));
    assert_eq!(square.unit.exponent(&name("meter")), 2);
    let flat =
        apply_infix(at(5, 1), InfixOp::Pow, number("3", meter), number("0", Unit::new())).unwrap();
    assert_eq!(magnitude(&flat), lit("1"));
    assert!(flat.unit.is_dimensionless());
}

#[test]
fn power_asks_for_a_dimensionless_exponent() {
    let meter = Unit::new_named(name("meter"));
    match apply_infix(at(5, 1), InfixOp::Pow, number("3", Unit::new()), number("2", meter)) {
        Err(EvalError::UnitError(UnitError::IncompatibleUnits(fc, op, a, b))) => {
            assert_eq!(fc, at(5, 1));
            assert_eq!(op, InfixOp::Pow);
            assert!(a.is_dimensionless());
            assert_eq!(b.exponent(&name("meter")), 1);
        }
        other => panic!("unexpected: {:?}", other),
    }
}

#[test]
fn power_asks_for_an_integer_exponent() {
    let meter = Unit::new_named(name("meter"));
    match apply_infix(at(5, 1), InfixOp::Pow, number("3", meter), number("0.5", Unit::new())) {
        Err(EvalError::UnitError(UnitError::InvalidPowerValue(fc, unit, kind))) => {
            assert_eq!(fc, at(5, 1));
            assert_eq!(unit.exponent(&name("meter")), 1);
            assert!(matches!(kind, ValueKind::Number(ref d) if big(d) == lit("0.5")));
        }
        other => panic!("unexpected: {:?}", other),
    }
    let too_large = number("9223372036854775808", Unit::new());
    assert!(matches!(
        apply_infix(at(5, 1), InfixOp::Pow, number("3", Unit::new()), too_large),
        Err(EvalError::UnitError(UnitError::InvalidPowerValue(_, _, _)))
    ));
    assert!(matches!(
        apply_infix(at(5, 1), InfixOp::Pow, number("3", Unit::new()), function("f")),
        Err(EvalError::UnitError(UnitError::InvalidPowerValue(_, _, _)))
    ));
}

#[test]
fn division_by_zero_is_an_error() {
    let rt = Runtime::new();
    match rt.eval_expr(&infix(InfixOp::Div, whole("1"), whole("0"))) {
        Err(EvalError::DivisionByZero(fc, op, lhs, rhs)) => {
            assert_eq!(fc, at(1, 3));
            assert_eq!(op, InfixOp::Div);
            assert_eq!(magnitude(&lhs), lit("1"));
            assert_eq!(magnitude(&rhs), lit("0"));
        }
        other => panic!("unexpected: {:?}", other),
    }
    assert!(matches!(
        rt.eval_expr(&infix(InfixOp::Mod, whole("5"), whole("0"))),
        Err(EvalError::DivisionByZero(_, InfixOp::Mod, _, _))
    ));
}

#[test]
fn prefix_operators_apply_to_numbers() {
    let meter = Unit::new_named(name("meter"));
    let same = apply_sign(at(6, 1), PrefixOp::Pos, number("2.5", meter.clone())).unwrap();
    assert_eq!(magnitude(&same), lit("2.5"));
    assert!(same.unit.same_as(&meter));
    let negated = apply_sign(at(6, 1), PrefixOp::Neg, number("2.5", meter.clone())).unwrap();
    assert_eq!(magnitude(&negated), lit("-2.5"));
    assert!(negated.unit.same_as(&meter));
    let rt = session();
    let expr = Expression::PrefixOp { fc: at(6, 1), op: PrefixOp::Neg, expr: Box::new(var("x")) };
    assert_eq!(magnitude(&rt.eval_expr(&expr).unwrap()), lit("-5"));
}

#[test]
fn prefix_operators_refuse_functions() {
    let rt = session();
    for op in [PrefixOp::Pos, PrefixOp::Neg] {
        let expr = Expression::PrefixOp { fc: at(6, 1), op, expr: Box::new(var("f")) };
        match rt.eval_expr(&expr) {
            Err(EvalError::InvalidPrefixOperator(fc, found, value)) => {
                assert_eq!(fc, at(6, 1));
                assert_eq!(found, op);
                assert!(matches!(value.kind, ValueKind::FunctionRef(ref f) if f == "f"));
            }
            other => panic!("unexpected: {:?}", other),
        }
    }
}

#[test]
fn infix_operators_refuse_functions() {
    let rt = session();
    match rt.eval_expr(&infix(InfixOp::Add, var("f"), whole("1"))) {
        Err(EvalError::InvalidInfixOperator(fc, op, lhs, rhs)) => {
            assert_eq!(fc, at(1, 3));
            assert_eq!(op, InfixOp::Add);
            assert!(matches!(lhs.kind, ValueKind::FunctionRef(ref f) if f == "f"));
            assert_eq!(magnitude(&rhs), lit("1"));
        }
        other => panic!("unexpected: {:?}", other),
    }
    assert!(matches!(
        rt.eval_expr(&infix(InfixOp::Mul, whole("1"), var("f"))),
        Err(EvalError::InvalidInfixOperator(_, InfixOp::Mul, _, _))
    ));
    assert!(matches!(
        rt.eval_expr(&infix(InfixOp::Add, var("f"), var("meter"))),
        Err(EvalError::UnitError(UnitError::IncompatibleUnits(_, InfixOp::Add, _, _)))
    ));
}

#[test]
fn both_operands_are_evaluated_left_first() {
    let rt = session();
    match rt.eval_expr(&infix(InfixOp::Add, var("left"), var("right"))) {
        Err(EvalError::UndefinedName(_, text)) => assert_eq!(text, "left"),
        other => panic!("unexpected: {:?}", other),
    }
    match rt.eval_expr(&infix(InfixOp::Add, var("f"), var("right"))) {
        Err(EvalError::UndefinedName(_, text)) => assert_eq!(text, "right"),
        other => panic!("unexpected: {:?}", other),
    }
}

#[test]
fn comparisons_are_not_supported() {
    let rt = session();
    for op in [InfixOp::Eq, InfixOp::Neq, InfixOp::Gt] {
        match rt.eval_expr(&infix(op, var("x"), whole("5"))) {
            Err(EvalError::Unsupported(fc, feature)) => {
                assert_eq!(fc, at(1, 3));
                assert_eq!(feature, Feature::Comparison(op));
            }
            other => panic!("unexpected: {:?}", other),
        }
    }
    assert!(matches!(
        rt.eval_expr(&infix(InfixOp::Eq, var("nothing"), whole("5"))),
        Err(EvalError::UndefinedName(_, _))
    ));
}

#[test]
fn calls_are_not_supported() {
    let rt = session();
    let call = Expression::Call { fc: at(7, 1), base: Box::new(var("f")), args: vec![whole("1")] };
    match rt.eval_expr(&call) {
        Err(EvalError::Unsupported(fc, feature)) => {
            assert_eq!(fc, at(7, 1));
            assert_eq!(feature, Feature::FunctionCall);
        }
        other => panic!("unexpected: {:?}", other),
    }
}

#[test]
fn unit_of_keeps_the_unit_and_drops_the_magnitude() {
    let rt = session();
    let speed = infix(
        InfixOp::Div,
        infix(InfixOp::Mul, whole("12"), var("meter")),
        infix(InfixOp::Mul, whole("4"), var("second")),
    );
    let value = rt.eval_expr(&Expression::UnitOf(at(8, 1), Box::new(speed))).unwrap();
    assert_eq!(magnitude(&value), lit("1"));
    assert_eq!(value.unit.exponent(&name("meter")), 1);
    assert_eq!(value.unit.exponent(&name("second")), -1);
    let of_function = rt.eval_expr(&Expression::UnitOf(at(8, 1), Box::new(var("f")))).unwrap();
    assert_eq!(magnitude(&of_function), lit("1"));
    assert!(of_function.unit.is_dimensionless());
}

#[test]
fn parentheses_change_nothing() {
    let rt = session();
    let inner = infix(InfixOp::Add, whole("1"), whole("2"));
    let value = rt.eval_expr(&Expression::Parenthesised(at(9, 1), Box::new(inner))).unwrap();
    assert_eq!(magnitude(&value), lit("3"));
}

#[test]
fn infix_unit_follows_the_operator() {
    let meter = Unit::new_named(name("meter"));
    let second = Unit::new_named(name("second"));
    let a = number("2", meter.clone());
    let b = number("3", second.clone());
    let product = infix_unit(at(1, 1), InfixOp::Mul, &a, &b).unwrap();
    assert!(product.same_as(&meter.multiply(&second)));
    let quotient = infix_unit(at(1, 1), InfixOp::Div, &a, &b).unwrap();
    assert!(quotient.same_as(&meter.divide(&second)));
    let same = infix_unit(at(1, 1), InfixOp::Sub, &a, &number("3", meter.clone())).unwrap();
    assert!(same.same_as(&meter));
    assert!(matches!(
        infix_unit(at(1, 1), InfixOp::Mod, &a, &b),
        Err(UnitError::IncompatibleUnits(_, InfixOp::Mod, _, _))
    ));
    let cube = infix_unit(at(1, 1), InfixOp::Pow, &a, &number("3", Unit::new())).unwrap();
    assert!(cube.same_as(&meter.pow(3)));
}

#[test]
fn exponents_that_cannot_be_held_are_an_error() {
    let huge = Unit::new_named(name("meter")).checked_pow(i64::MAX).unwrap();
    let meter = Unit::new_named(name("meter"));
    match apply_infix(at(1, 1), InfixOp::Mul, number("1", huge.clone()), number("1", meter)) {
        Err(EvalError::UnitError(UnitError::ExponentOverflow(fc, op, a, b))) => {
            assert_eq!(fc, at(1, 1));
            assert_eq!(op, InfixOp::Mul);
            assert_eq!(a.exponent(&name("meter")), i64::MAX);
            assert_eq!(b.exponent(&name("meter")), 1);
        }
        other => panic!("unexpected: {:?}", other),
    }
    assert!(matches!(
        infix_unit(at(1, 1), InfixOp::Pow, &number("1", huge), &number("2", Unit::new())),
        Err(UnitError::ExponentOverflow(_, InfixOp::Pow, _, _))
    ));
}

#[test]
fn magnitudes_out_of_range_are_an_error() {
    let far = Value {
        kind: ValueKind::Number(Decimal::new(vec![1], SCALE_LIMIT + 1)),
        unit: Unit::new(),
    };
    match apply_infix(at(2, 7), InfixOp::Add, far.clone(), number("1", Unit::new())) {
        Err(EvalError::OutOfRange(fc)) => assert_eq!(fc, at(2, 7)),
        other => panic!("unexpected: {:?}", other),
    }
    assert!(matches!(
        apply_infix(at(2, 7), InfixOp::Div, number("1", Unit::new()), far.clone()),
        Err(EvalError::OutOfRange(_))
    ));
    assert!(matches!(
        apply_prefix(at(2, 7), SiPrefix::Kilo, far.clone()),
        Err(EvalError::OutOfRange(_))
    ));
    assert!(matches!(
        apply_prefix(at(2, 7), SiPrefix::Milli, far),
        Err(EvalError::OutOfRange(_))
    ));
}
