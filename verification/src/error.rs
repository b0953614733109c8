//! What evaluation gives back: results and errors.

use crate::syntax::Expression;
use crate::syntax::InfixOp;
use crate::syntax::PrefixOp;
use crate::syntax::SiPrefix;
use crate::syntax::FC;
use crate::unit::Name;
use crate::unit::Unit;
use crate::value::Value;
use crate::value::ValueKind;
use crate::value::ValueKindView;
use crate::value::ValueView;
use vstd::prelude::*;

verus! {

/// A part of the language that is read but not evaluated yet.
#[derive(Clone, Copy, Debug, PartialEq, Eq, Structural)]
pub enum Feature {
    /// The call of a function.
    FunctionCall,
    /// A comparison, with its operator.
    Comparison(InfixOp),
}

/// An error of the unit algebra.
#[derive(Debug)]
pub enum UnitError {
    /// The operator does not take operands of these two units.
    IncompatibleUnits(FC, InfixOp, Unit, Unit),
    /// The exponent of a power is no integer that an exponent can be multiplied by; with
    /// the unit of the base.
    InvalidPowerValue(FC, Unit, ValueKind),
    /// An exponent of the result's unit cannot be held; with the units of the operands.
    ExponentOverflow(FC, InfixOp, Unit, Unit),
}

/// A [`UnitError`] as mathematics sees it.
pub enum UnitErrorView {
    IncompatibleUnits(FC, InfixOp, Map<Seq<char>, int>, Map<Seq<char>, int>),
    InvalidPowerValue(FC, Map<Seq<char>, int>, ValueKindView),
    ExponentOverflow(FC, InfixOp, Map<Seq<char>, int>, Map<Seq<char>, int>),
}

impl View for UnitError {
    type V = UnitErrorView;

    open spec fn view(&self) -> UnitErrorView {
        match self {
            UnitError::IncompatibleUnits(fc, op, a, b) => UnitErrorView::IncompatibleUnits(
                *fc,
                *op,
                a@,
                b@,
            ),
            UnitError::InvalidPowerValue(fc, a, kind) => UnitErrorView::InvalidPowerValue(
                *fc,
                a@,
                kind@,
            ),
            UnitError::ExponentOverflow(fc, op, a, b) => UnitErrorView::ExponentOverflow(
                *fc,
                *op,
                a@,
                b@,
            ),
        }
    }
}

/// An error of the evaluation of an expression.
#[derive(Debug)]
pub enum EvalError {
    /// The name is neither a variable, nor a unit, nor a function.
    UndefinedName(FC, Name),
    /// The prefix operator does not take this value.
    InvalidPrefixOperator(FC, PrefixOp, Value),
    /// The infix operator does not take these two values.
    InvalidInfixOperator(FC, InfixOp, Value, Value),
    /// The SI prefix does not scale this value.
    InvalidSiPrefix(FC, SiPrefix, Value),
    /// An error of the unit algebra.
    UnitError(UnitError),
    /// A division, or a remainder, by a zero magnitude; with the operands.
    DivisionByZero(FC, InfixOp, Value, Value),
    /// A magnitude has too many decimal places, or too many zeros before the point, for
    /// the arithmetic to take it.
    OutOfRange(FC),
    /// The expression asks for what is not evaluated yet.
    Unsupported(FC, Feature),
}

/// An [`EvalError`] as mathematics sees it.
pub enum EvalErrorView {
    UndefinedName(FC, Seq<char>),
    InvalidPrefixOperator(FC, PrefixOp, ValueView),
    InvalidInfixOperator(FC, InfixOp, ValueView, ValueView),
    InvalidSiPrefix(FC, SiPrefix, ValueView),
    UnitError(UnitErrorView),
    DivisionByZero(FC, InfixOp, ValueView, ValueView),
    OutOfRange(FC),
    Unsupported(FC, Feature),
}

impl View for EvalError {
    type V = EvalErrorView;

    open spec fn view(&self) -> EvalErrorView {
        match self {
            EvalError::UndefinedName(fc, name) => EvalErrorView::UndefinedName(*fc, name@),
            EvalError::InvalidPrefixOperator(fc, op, v) => EvalErrorView::InvalidPrefixOperator(
                *fc,
                *op,
                v@,
            ),
            EvalError::InvalidInfixOperator(fc, op, l, r) => EvalErrorView::InvalidInfixOperator(
                *fc,
                *op,
                l@,
                r@,
            ),
            EvalError::InvalidSiPrefix(fc, prefix, v) => EvalErrorView::InvalidSiPrefix(
                *fc,
                *prefix,
                v@,
            ),
            EvalError::UnitError(e) => EvalErrorView::UnitError(e@),
            EvalError::DivisionByZero(fc, op, l, r) => EvalErrorView::DivisionByZero(
                *fc,
                *op,
                l@,
                r@,
            ),
            EvalError::OutOfRange(fc) => EvalErrorView::OutOfRange(*fc),
            EvalError::Unsupported(fc, feature) => EvalErrorView::Unsupported(*fc, *feature),
        }
    }
}

/// An error of the evaluation of a statement.
#[derive(Debug)]
pub enum ItemError {
    /// The unit is declared already.
    UnitRedeclared(Name),
    /// The variable is bound already.
    VariableRedefined(Name),
    /// The function is declared already.
    FunctionRedefined(Name),
    /// The right-hand side, or the expression, did not evaluate.
    EvalError(EvalError),
}

/// An [`ItemError`] as mathematics sees it.
pub enum ItemErrorView {
    UnitRedeclared(Seq<char>),
    VariableRedefined(Seq<char>),
    FunctionRedefined(Seq<char>),
    EvalError(EvalErrorView),
}

impl View for ItemError {
    type V = ItemErrorView;

    open spec fn view(&self) -> ItemErrorView {
        match self {
            ItemError::UnitRedeclared(name) => ItemErrorView::UnitRedeclared(name@),
            ItemError::VariableRedefined(name) => ItemErrorView::VariableRedefined(name@),
            ItemError::FunctionRedefined(name) => ItemErrorView::FunctionRedefined(name@),
            ItemError::EvalError(e) => ItemErrorView::EvalError(e@),
        }
    }
}

/// What the evaluation of a statement gives.
#[derive(Debug)]
pub enum EvalResult {
    /// Nothing to show.
    Empty,
    /// A value that was computed, not to be shown.
    Value(Value),
    /// A value to be shown, with the expression that it is the value of.
    PrintValue(Expression, Value),
}

/// An [`EvalResult`] as mathematics sees it.
pub enum EvalResultView {
    Empty,
    Value(ValueView),
    PrintValue(Expression, ValueView),
}

impl View for EvalResult {
    type V = EvalResultView;

    open spec fn view(&self) -> EvalResultView {
        match self {
            EvalResult::Empty => EvalResultView::Empty,
            EvalResult::Value(v) => EvalResultView::Value(v@),
            EvalResult::PrintValue(e, v) => EvalResultView::PrintValue(*e, v@),
        }
    }
}

/// The view of the outcome of the evaluation of an expression.
pub open spec fn eval_view(r: Result<Value, EvalError>) -> Result<ValueView, EvalErrorView> {
    match r {
        Ok(v) => Ok(v@),
        Err(e) => Err(e@),
    }
}

/// The view of the outcome of a computation on units.
pub open spec fn unit_view(r: Result<Unit, UnitError>) -> Result<Map<Seq<char>, int>, UnitErrorView> {
    match r {
        Ok(u) => Ok(u@),
        Err(e) => Err(e@),
    }
}

/// The view of the outcome of the evaluation of a statement.
pub open spec fn item_view(r: Result<EvalResult, ItemError>) -> Result<
    EvalResultView,
    ItemErrorView,
> {
    match r {
        Ok(v) => Ok(v@),
        Err(e) => Err(e@),
    }
}

/// The view of the outcome of a declaration that gives nothing back.
pub open spec fn unit_outcome_view(r: Result<(), ItemError>) -> Result<(), ItemErrorView> {
    match r {
        Ok(_) => Ok(()),
        Err(e) => Err(e@),
    }
}

/// The view of the outcome of the declaration of a variable.
pub open spec fn bound_view(r: Result<Value, ItemError>) -> Result<ValueView, ItemErrorView> {
    match r {
        Ok(v) => Ok(v@),
        Err(e) => Err(e@),
    }
}

} // verus!
