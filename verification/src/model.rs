//! What evaluation computes, stated over the mathematical views of state and values.

use crate::decimal::difference_model;
use crate::decimal::integer_model;
use crate::decimal::negation;
use crate::decimal::power_model;
use crate::decimal::product_model;
use crate::decimal::quotient_model;
use crate::decimal::remainder_model;
use crate::decimal::sum_model;
use crate::decimal::whole;
use crate::decimal::ArithmeticError;
use crate::decimal::DecimalView;
use crate::error::EvalErrorView;
use crate::error::EvalResultView;
use crate::error::Feature;
use crate::error::ItemErrorView;
use crate::error::UnitErrorView;
use crate::syntax::declaration_item;
use crate::syntax::identifier_texts;
use crate::syntax::Expression;
use crate::syntax::InfixOp;
use crate::syntax::Item;
use crate::syntax::LineItem;
use crate::syntax::PrefixOp;
use crate::syntax::SiPrefix;
use crate::syntax::FC;
use crate::unit::base_unit;
use crate::unit::dimensionless;
use crate::unit::merged_fits;
use crate::unit::power_fits;
use crate::unit::unit_power;
use crate::unit::unit_product;
use crate::unit::unit_quotient;
use crate::value::ValueKindView;
use crate::value::ValueView;
use vstd::prelude::*;

verus! {

/// A declared function as mathematics sees it: the names of its parameters, and its body
/// as it was written.
pub struct FunctionView {
    pub params: Seq<Seq<char>>,
    pub body: Expression,
}

/// The evaluation state as mathematics sees it.
pub struct RuntimeView {
    /// The names of the declared units.
    pub units: Set<Seq<char>>,
    /// The bound variables with their values.
    pub variables: Map<Seq<char>, ValueView>,
    /// The declared functions.
    pub functions: Map<Seq<char>, FunctionView>,
}

/// The state in which nothing is declared.
pub open spec fn empty_runtime() -> RuntimeView {
    RuntimeView { units: Set::empty(), variables: Map::empty(), functions: Map::empty() }
}

/// The magnitude `d` with the unit `unit`.
pub open spec fn number_value(d: DecimalView, unit: Map<Seq<char>, int>) -> ValueView {
    ValueView { kind: ValueKindView::Number(d), unit }
}

/// Whether `name` is declared in any of the three namespaces.
pub open spec fn known(rt: RuntimeView, name: Seq<char>) -> bool {
    rt.units.contains(name) || rt.variables.dom().contains(name) || rt.functions.dom().contains(
        name,
    )
}

/// The value of a name: that of the variable; else the unit itself, once; else a
/// reference to the function.
pub open spec fn lookup_model(rt: RuntimeView, name: Seq<char>) -> Option<ValueView> {
    if rt.variables.dom().contains(name) {
        Some(rt.variables[name])
    } else if rt.units.contains(name) {
        Some(number_value(whole(1), base_unit(name)))
    } else if rt.functions.dom().contains(name) {
        Some(ValueView { kind: ValueKindView::FunctionRef(name), unit: dimensionless() })
    } else {
        None
    }
}

/// The magnitude `x` scaled by an SI prefix: divided by the prefix's factor or multiplied
/// by it. `None` where `x` is out of the arithmetic's range.
pub open spec fn scaled_model(x: DecimalView, prefix: SiPrefix) -> Option<DecimalView> {
    if prefix.divides() {
        match quotient_model(x, whole(prefix.factor())) {
            Ok(q) => Some(q),
            Err(_) => None,
        }
    } else {
        product_model(x, whole(prefix.factor()))
    }
}

/// A value under an SI prefix: only the magnitude of a number is scaled.
pub open spec fn prefix_model(fc: FC, prefix: SiPrefix, v: ValueView) -> Result<
    ValueView,
    EvalErrorView,
> {
    match v.kind {
        ValueKindView::Number(x) => match scaled_model(x, prefix) {
            Some(y) => Ok(number_value(y, v.unit)),
            None => Err(EvalErrorView::OutOfRange(fc)),
        },
        ValueKindView::FunctionRef(_) => Err(EvalErrorView::InvalidSiPrefix(fc, prefix, v)),
    }
}

/// A value under a prefix operator: `+` leaves a number as it is, `-` negates it.
pub open spec fn sign_model(fc: FC, op: PrefixOp, v: ValueView) -> Result<ValueView, EvalErrorView> {
    match v.kind {
        ValueKindView::Number(x) => match op {
            PrefixOp::Pos => Ok(v),
            PrefixOp::Neg => Ok(number_value(negation(x), v.unit)),
        },
        ValueKindView::FunctionRef(_) => Err(EvalErrorView::InvalidPrefixOperator(fc, op, v)),
    }
}

/// The unit of the result of an arithmetic operator.
///
/// Sum, difference and remainder ask for equal units. Product and quotient combine them.
/// A power asks for a dimensionless exponent that is an integer, and multiplies the
/// exponents of the base's unit by it.
pub open spec fn infix_unit_model(fc: FC, op: InfixOp, l: ValueView, r: ValueView) -> Result<
    Map<Seq<char>, int>,
    UnitErrorView,
> {
    match op {
        InfixOp::Mul => if merged_fits(l.unit, r.unit, false) {
            Ok(unit_product(l.unit, r.unit))
        } else {
            Err(UnitErrorView::ExponentOverflow(fc, op, l.unit, r.unit))
        },
        InfixOp::Div => if merged_fits(l.unit, r.unit, true) {
            Ok(unit_quotient(l.unit, r.unit))
        } else {
            Err(UnitErrorView::ExponentOverflow(fc, op, l.unit, r.unit))
        },
        InfixOp::Pow => if r.unit != dimensionless() {
            Err(UnitErrorView::IncompatibleUnits(fc, op, l.unit, r.unit))
        } else {
            match power_exponent(r.kind) {
                Some(n) => if power_fits(l.unit, n as int) {
                    Ok(unit_power(l.unit, n as int))
                } else {
                    Err(UnitErrorView::ExponentOverflow(fc, op, l.unit, r.unit))
                },
                None => Err(UnitErrorView::InvalidPowerValue(fc, l.unit, r.kind)),
            }
        },
        _ => if l.unit == r.unit {
            Ok(l.unit)
        } else {
            Err(UnitErrorView::IncompatibleUnits(fc, op, l.unit, r.unit))
        },
    }
}

/// The exponent that a value gives to a power: the value of a number that is an integer.
pub open spec fn power_exponent(kind: ValueKindView) -> Option<i64> {
    match kind {
        ValueKindView::Number(n) => integer_model(n),
        ValueKindView::FunctionRef(_) => None,
    }
}

/// A number that may be missing because an operand was out of range.
pub open spec fn in_range_or_error(r: Option<DecimalView>) -> Result<DecimalView, ArithmeticError> {
    match r {
        Some(d) => Ok(d),
        None => Err(ArithmeticError::OutOfRange),
    }
}

/// The magnitude of the result of an arithmetic operator.
pub open spec fn arithmetic_model(op: InfixOp, a: DecimalView, b: DecimalView) -> Result<
    DecimalView,
    ArithmeticError,
>
    recommends
        !op.compares(),
{
    match op {
        InfixOp::Add => in_range_or_error(sum_model(a, b)),
        InfixOp::Sub => in_range_or_error(difference_model(a, b)),
        InfixOp::Mul => in_range_or_error(product_model(a, b)),
        InfixOp::Div => quotient_model(a, b),
        InfixOp::Mod => remainder_model(a, b),
        _ => match integer_model(b) {
            Some(n) => in_range_or_error(power_model(a, n as int)),
            None => Err(ArithmeticError::OutOfRange),
        },
    }
}

/// Two values under an infix operator.
///
/// A comparison is not evaluated. For the others the units are settled first, then the
/// kinds: both operands have to be numbers. Then the magnitudes are computed.
pub open spec fn infix_model(fc: FC, op: InfixOp, l: ValueView, r: ValueView) -> Result<
    ValueView,
    EvalErrorView,
> {
    if op.compares() {
        Err(EvalErrorView::Unsupported(fc, Feature::Comparison(op)))
    } else {
        match infix_unit_model(fc, op, l, r) {
            Err(e) => Err(EvalErrorView::UnitError(e)),
            Ok(unit) => match (l.kind, r.kind) {
                (ValueKindView::Number(a), ValueKindView::Number(b)) => match arithmetic_model(
                    op,
                    a,
                    b,
                ) {
                    Ok(d) => Ok(number_value(d, unit)),
                    Err(ArithmeticError::DivisionByZero) => Err(
                        EvalErrorView::DivisionByZero(fc, op, l, r),
                    ),
                    Err(ArithmeticError::OutOfRange) => Err(EvalErrorView::OutOfRange(fc)),
                },
                _ => Err(EvalErrorView::InvalidInfixOperator(fc, op, l, r)),
            },
        }
    }
}

/// The value of an expression in a state.
pub open spec fn eval_model(rt: RuntimeView, e: Expression) -> Result<ValueView, EvalErrorView>
    decreases e,
{
    match e {
        Expression::IntegerLit { fc, val } => Ok(number_value(val@, dimensionless())),
        Expression::DecimalLit { fc, val } => Ok(number_value(val@, dimensionless())),
        Expression::MaybeUnitPrefix { fc, name, full_name, prefix } => match lookup_model(
            rt,
            full_name@,
        ) {
            Some(v) => Ok(v),
            None => match lookup_model(rt, name@) {
                Some(v) => prefix_model(fc, prefix, v),
                None => Err(EvalErrorView::UndefinedName(fc, full_name@)),
            },
        },
        Expression::Variable(id) => match lookup_model(rt, id.name@) {
            Some(v) => Ok(v),
            None => Err(EvalErrorView::UndefinedName(id.fc, id.name@)),
        },
        Expression::Call { fc, base, args } => Err(
            EvalErrorView::Unsupported(fc, Feature::FunctionCall),
        ),
        Expression::PrefixOp { fc, op, expr } => match eval_model(rt, *expr) {
            Ok(v) => sign_model(fc, op, v),
            Err(e) => Err(e),
        },
        Expression::InfixOp { fc, op, lhs, rhs } => match eval_model(rt, *lhs) {
            Ok(l) => match eval_model(rt, *rhs) {
                Ok(r) => infix_model(fc, op, l, r),
                Err(e) => Err(e),
            },
            Err(e) => Err(e),
        },
        Expression::UnitOf(fc, expr) => match eval_model(rt, *expr) {
            Ok(v) => Ok(number_value(whole(1), v.unit)),
            Err(e) => Err(e),
        },
        Expression::Parenthesised(fc, expr) => eval_model(rt, *expr),
    }
}

/// The declaration of a unit: refused where the name is a unit already.
pub open spec fn declare_unit_model(rt: RuntimeView, name: Seq<char>) -> (
    RuntimeView,
    Result<(), ItemErrorView>,
) {
    if rt.units.contains(name) {
        (rt, Err(ItemErrorView::UnitRedeclared(name)))
    } else {
        (RuntimeView { units: rt.units.insert(name), ..rt }, Ok(()))
    }
}

/// The declaration of a variable: refused where the name is a variable already; else the
/// value is bound, and given back.
pub open spec fn declare_variable_model(rt: RuntimeView, name: Seq<char>, value: ValueView) -> (
    RuntimeView,
    Result<ValueView, ItemErrorView>,
) {
    if rt.variables.dom().contains(name) {
        (rt, Err(ItemErrorView::VariableRedefined(name)))
    } else {
        (RuntimeView { variables: rt.variables.insert(name, value), ..rt }, Ok(value))
    }
}

/// The declaration of a function: refused where the name is a function already.
pub open spec fn declare_function_model(
    rt: RuntimeView,
    name: Seq<char>,
    params: Seq<Seq<char>>,
    body: Expression,
) -> (RuntimeView, Result<(), ItemErrorView>) {
    if rt.functions.dom().contains(name) {
        (rt, Err(ItemErrorView::FunctionRedefined(name)))
    } else {
        (
            RuntimeView { functions: rt.functions.insert(name, FunctionView { params, body }), ..rt },
            Ok(()),
        )
    }
}

/// The state after a statement, and what the statement gives.
///
/// A failed statement leaves the state as it was. The right-hand side of a variable is
/// evaluated before the name is looked at; the body of a function is stored unevaluated.
pub open spec fn item_model(rt: RuntimeView, item: Item) -> (
    RuntimeView,
    Result<EvalResultView, ItemErrorView>,
) {
    match item {
        Item::UnitDeclaration(fc, name) => {
            let (after, r) = declare_unit_model(rt, name.name@);
            match r {
                Ok(_) => (after, Ok(EvalResultView::Empty)),
                Err(e) => (after, Err(e)),
            }
        },
        Item::VariableDeclaration { fc, name, rhs } => match eval_model(rt, rhs) {
            Ok(v) => {
                let (after, r) = declare_variable_model(rt, name.name@, v);
                match r {
                    Ok(bound) => (after, Ok(EvalResultView::Value(bound))),
                    Err(e) => (after, Err(e)),
                }
            },
            Err(e) => (rt, Err(ItemErrorView::EvalError(e))),
        },
        Item::FunctionDeclaration { fc, name, arg_names, rhs } => {
            let (after, r) = declare_function_model(
                rt,
                name.name@,
                identifier_texts(arg_names@),
                rhs,
            );
            match r {
                Ok(_) => (after, Ok(EvalResultView::Empty)),
                Err(e) => (after, Err(e)),
            }
        },
        Item::PrintedExpression(fc, e) => match eval_model(rt, e) {
            Ok(v) => (rt, Ok(EvalResultView::PrintValue(e, v))),
            Err(err) => (rt, Err(ItemErrorView::EvalError(err))),
        },
        Item::SilentExpression(e) => match eval_model(rt, e) {
            Ok(v) => (rt, Ok(EvalResultView::Value(v))),
            Err(err) => (rt, Err(ItemErrorView::EvalError(err))),
        },
    }
}

/// What the comparison `name == rhs` gives for a name that is known: the error of the
/// right-hand side where it has one, and else that comparisons are not evaluated. With a
/// parameter list the left-hand side is a call, which is not evaluated either.
pub open spec fn equality_model(
    rt: RuntimeView,
    fc: FC,
    name_fc: FC,
    is_call: bool,
    rhs: Expression,
) -> Result<EvalResultView, ItemErrorView> {
    if is_call {
        Err(ItemErrorView::EvalError(EvalErrorView::Unsupported(name_fc, Feature::FunctionCall)))
    } else {
        match eval_model(rt, rhs) {
            Ok(_) => Err(
                ItemErrorView::EvalError(
                    EvalErrorView::Unsupported(fc, Feature::Comparison(InfixOp::Eq)),
                ),
            ),
            Err(e) => Err(ItemErrorView::EvalError(e)),
        }
    }
}

/// The state after a line, and what the line gives.
///
/// An empty line gives nothing. A line `name = rhs` declares `name` where it is not known
/// yet, and else is the comparison of `name` with `rhs`.
pub open spec fn line_model(rt: RuntimeView, line: LineItem) -> (
    RuntimeView,
    Result<EvalResultView, ItemErrorView>,
) {
    match line {
        LineItem::Empty => (rt, Ok(EvalResultView::Empty)),
        LineItem::UnitDeclaration(fc, name) => item_model(rt, Item::UnitDeclaration(fc, name)),
        LineItem::MaybeDeclarationOrEqualityExpression(decl) => if known(rt, decl.name.name@) {
            (rt, equality_model(rt, decl.fc, decl.name.fc, decl.arg_names is Some, decl.rhs))
        } else {
            item_model(rt, declaration_item(decl))
        },
        LineItem::PrintedExpression(fc, e) => item_model(rt, Item::PrintedExpression(fc, e)),
        LineItem::SilentExpression(e) => item_model(rt, Item::SilentExpression(e)),
    }
}

} // verus!
