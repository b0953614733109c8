//! Values: a magnitude or a function reference, paired with a unit.

use crate::decimal::Decimal;
use crate::decimal::DecimalView;
use crate::unit::Name;
use crate::unit::Unit;
use vstd::prelude::*;

verus! {

/// What a value is.
#[derive(Debug)]
pub enum ValueKind {
    /// An exact decimal magnitude.
    Number(Decimal),
    /// A reference to a declared function, by its name.
    FunctionRef(Name),
}

/// A [`ValueKind`] as mathematics sees it.
pub enum ValueKindView {
    Number(DecimalView),
    FunctionRef(Seq<char>),
}

impl View for ValueKind {
    type V = ValueKindView;

    open spec fn view(&self) -> ValueKindView {
        match self {
            ValueKind::Number(d) => ValueKindView::Number(d@),
            ValueKind::FunctionRef(name) => ValueKindView::FunctionRef(name@),
        }
    }
}

impl Clone for ValueKind {
    fn clone(&self) -> (kind: ValueKind)
        ensures
            kind@ == self@,
    {
        match self {
            ValueKind::Number(d) => ValueKind::Number(d.clone()),
            ValueKind::FunctionRef(name) => ValueKind::FunctionRef(name.clone()),
        }
    }
}

/// A value of the calculator: what it is, and its unit.
#[derive(Debug)]
pub struct Value {
    pub kind: ValueKind,
    pub unit: Unit,
}

/// A [`Value`] as mathematics sees it.
pub struct ValueView {
    pub kind: ValueKindView,
    pub unit: Map<Seq<char>, int>,
}

impl View for Value {
    type V = ValueView;

    open spec fn view(&self) -> ValueView {
        ValueView { kind: self.kind@, unit: self.unit@ }
    }
}

impl Clone for Value {
    fn clone(&self) -> (value: Value)
        ensures
            value@ == self@,
    {
        Value { kind: self.kind.clone(), unit: self.unit.clone() }
    }
}

/// The view of a value that may be missing.
pub open spec fn value_option_view(r: Option<Value>) -> Option<ValueView> {
    match r {
        Some(v) => Some(v@),
        None => None,
    }
}

} // verus!
