//! The evaluation state, the classifier of lines and the evaluator.

use crate::decimal::ArithmeticError;
use crate::decimal::Decimal;
use crate::decimal::decimal_result_view;
use crate::error::bound_view;
use crate::error::eval_view;
use crate::error::item_view;
use crate::error::unit_outcome_view;
use crate::error::unit_view;
use crate::error::EvalError;
use crate::error::EvalResult;
use crate::error::Feature;
use crate::error::ItemError;
use crate::error::UnitError;
use crate::model::arithmetic_model;
use crate::model::declare_function_model;
use crate::model::declare_unit_model;
use crate::model::declare_variable_model;
use crate::model::empty_runtime;
use crate::model::eval_model;
use crate::model::infix_model;
use crate::model::infix_unit_model;
use crate::model::item_model;
use crate::model::known;
use crate::model::line_model;
use crate::model::lookup_model;
use crate::model::prefix_model;
use crate::model::sign_model;
use crate::model::FunctionView;
use crate::model::RuntimeView;
use crate::syntax::declaration_item;
use crate::syntax::identifier_texts;
use crate::syntax::is_equality_item;
use crate::syntax::Expression;
use crate::syntax::Identifier;
use crate::syntax::InfixOp;
use crate::syntax::Item;
use crate::syntax::LineItem;
use crate::syntax::PrefixOp;
use crate::syntax::SiPrefix;
use crate::syntax::FC;
use crate::unit::Name;
use crate::unit::Unit;
use crate::value::value_option_view;
use crate::value::Value;
use crate::value::ValueKind;
use vstd::prelude::*;

verus! {

/// Whether entry `i` of `names` is the name with the text `text`.
pub open spec fn holds_name(names: Seq<Name>, i: int, text: Seq<char>) -> bool {
    0 <= i < names.len() && names[i]@ == text
}

/// Whether `names` holds the name with the text `text`.
pub open spec fn has_name(names: Seq<Name>, text: Seq<char>) -> bool {
    exists|i: int| #[trigger] holds_name(names, i, text)
}

/// An index at which `names` holds `text`.
pub open spec fn position_of(names: Seq<Name>, text: Seq<char>) -> int {
    choose|i: int| #[trigger] holds_name(names, i, text)
}

/// Whether no text occurs twice in `names`.
pub open spec fn distinct_names(names: Seq<Name>) -> bool {
    forall|i: int, j: int| 0 <= i < j < names.len() ==> (#[trigger] names[i])@ != (#[trigger] names[j])@
}

/// The texts of a list of names, in order.
pub open spec fn name_texts(names: Seq<Name>) -> Seq<Seq<char>> {
    Seq::new(names.len(), |i: int| names[i]@)
}

proof fn lemma_position(names: Seq<Name>, i: int)
    requires
        distinct_names(names),
        0 <= i < names.len(),
    ensures
        has_name(names, names[i]@),
        position_of(names, names[i]@) == i,
{
    let text = names[i]@;
    assert(holds_name(names, i, text));
    let c = position_of(names, text);
    assert(holds_name(names, c, text));
    if c < i {
        assert(names[c]@ != names[i]@);
    } else if i < c {
        assert(names[i]@ != names[c]@);
    }
}

proof fn lemma_pushed_name(names: Seq<Name>, name: Name)
    requires
        distinct_names(names),
        !has_name(names, name@),
    ensures
        distinct_names(names.push(name)),
        forall|text: Seq<char>|
            #[trigger] has_name(names.push(name), text) <==> (has_name(names, text) || text
                == name@),
        forall|text: Seq<char>|
            has_name(names, text) ==> #[trigger] position_of(names.push(name), text)
                == position_of(names, text),
        position_of(names.push(name), name@) == names.len(),
{
    let longer = names.push(name);
    assert(distinct_names(longer)) by {
        assert forall|i: int, j: int| 0 <= i < j < longer.len() implies (#[trigger] longer[i])@ != (
        #[trigger] longer[j])@ by {
            if j < names.len() {
                assert(names[i]@ != names[j]@);
            } else {
                assert(!holds_name(names, i, name@));
            }
        }
    }
    assert forall|text: Seq<char>| #[trigger]
        has_name(longer, text) <==> (has_name(names, text) || text == name@) by {
        if has_name(longer, text) {
            let i = position_of(longer, text);
            assert(holds_name(longer, i, text));
            if i < names.len() {
                assert(holds_name(names, i, text));
            }
        }
        if has_name(names, text) {
            let i = position_of(names, text);
            assert(holds_name(names, i, text));
            assert(holds_name(longer, i, text));
        }
        if text == name@ {
            assert(holds_name(longer, names.len() as int, text));
        }
    }
    assert forall|text: Seq<char>| has_name(names, text) implies #[trigger] position_of(
        longer,
        text,
    ) == position_of(names, text) by {
        let i = position_of(names, text);
        assert(holds_name(names, i, text));
        assert(longer[i] == names[i]);
        lemma_position(longer, i);
    }
    assert(longer[names.len() as int] == name);
    lemma_position(longer, names.len() as int);
}

/// The index of `name` in `names`, where it is there.
fn find_name(names: &Vec<Name>, name: &Name) -> (r: Option<usize>)
    ensures
        match r {
            Some(i) => holds_name(names@, i as int, name@),
            None => !has_name(names@, name@),
        },
{
    let mut i: usize = 0;
    while i < names.len()
        invariant
            i <= names.len(),
            forall|k: int| k < i ==> !#[trigger] holds_name(names@, k, name@),
        decreases names.len() - i,
    {
        if names[i] == *name {
            return Some(i);
        }
        i += 1;
    }
    None
}

/// The names of a list of identifiers, in order.
fn identifier_names(ids: &Vec<Identifier>) -> (names: Vec<Name>)
    ensures
        name_texts(names@) == identifier_texts(ids@),
{
    let mut names: Vec<Name> = Vec::new();
    let mut i: usize = 0;
    while i < ids.len()
        invariant
            i <= ids.len(),
            names@.len() == i,
            forall|k: int| 0 <= k < i ==> (#[trigger] names@[k])@ == ids@[k].name@,
        decreases ids.len() - i,
    {
        names.push(ids[i].name_ref().clone());
        i += 1;
    }
    assert(name_texts(names@) =~= identifier_texts(ids@));
    names
}

/// A declared function: its parameters and its body, unevaluated.
#[derive(Debug)]
pub struct FunctionDef {
    pub params: Vec<Name>,
    pub body: Expression,
}

impl View for FunctionDef {
    type V = FunctionView;

    open spec fn view(&self) -> FunctionView {
        FunctionView { params: name_texts(self.params@), body: self.body }
    }
}

/// The state of a session: the declared units, the bound variables and the declared
/// functions. It only grows; nothing is removed or overwritten.
#[derive(Debug)]
pub struct Runtime {
    unit_names: Vec<Name>,
    variable_names: Vec<Name>,
    variable_values: Vec<Value>,
    function_names: Vec<Name>,
    function_defs: Vec<FunctionDef>,
}

impl View for Runtime {
    type V = RuntimeView;

    closed spec fn view(&self) -> RuntimeView {
        RuntimeView {
            units: Set::new(|text: Seq<char>| has_name(self.unit_names@, text)),
            variables: Map::new(
                |text: Seq<char>| has_name(self.variable_names@, text),
                |text: Seq<char>| self.variable_values@[position_of(self.variable_names@, text)]@,
            ),
            functions: Map::new(
                |text: Seq<char>| has_name(self.function_names@, text),
                |text: Seq<char>| self.function_defs@[position_of(self.function_names@, text)]@,
            ),
        }
    }
}

impl Default for Runtime {
    fn default() -> (rt: Runtime)
        ensures
            rt@ == empty_runtime(),
    {
        Runtime::new()
    }
}

impl Runtime {
    /// Each namespace lists a name once, and every variable and function has its entry.
    #[verifier::type_invariant]
    closed spec fn wf(self) -> bool {
        &&& distinct_names(self.unit_names@)
        &&& distinct_names(self.variable_names@)
        &&& distinct_names(self.function_names@)
        &&& self.variable_names@.len() == self.variable_values@.len()
        &&& self.function_names@.len() == self.function_defs@.len()
    }

    /// The state of a new session: nothing is declared.
    pub fn new() -> (rt: Runtime)
        ensures
            rt@ == empty_runtime(),
    {
        let rt = Runtime {
            unit_names: Vec::new(),
            variable_names: Vec::new(),
            variable_values: Vec::new(),
            function_names: Vec::new(),
            function_defs: Vec::new(),
        };
        proof {
            assert forall|text: Seq<char>| !has_name(rt.unit_names@, text) by {
                if has_name(rt.unit_names@, text) {
                    assert(holds_name(rt.unit_names@, position_of(rt.unit_names@, text), text));
                }
            }
            assert forall|text: Seq<char>| !has_name(rt.variable_names@, text) by {
                if has_name(rt.variable_names@, text) {
                    assert(holds_name(
                        rt.variable_names@,
                        position_of(rt.variable_names@, text),
                        text,
                    ));
                }
            }
            assert forall|text: Seq<char>| !has_name(rt.function_names@, text) by {
                if has_name(rt.function_names@, text) {
                    assert(holds_name(
                        rt.function_names@,
                        position_of(rt.function_names@, text),
                        text,
                    ));
                }
            }
            assert(rt@.units =~= Set::<Seq<char>>::empty());
            assert(rt@.variables =~= Map::empty());
            assert(rt@.functions =~= Map::empty());
        }
        rt
    }

    /// Declares the unit `name`, unless it is a unit already.
    pub fn declare_unit(&mut self, name: Name) -> (r: Result<(), ItemError>)
        ensures
            (final(self)@, unit_outcome_view(r)) == declare_unit_model(old(self)@, name@),
    {
        proof {
            use_type_invariant(&*self);
        }
        match find_name(&self.unit_names, &name) {
            Some(i) => {
                assert(holds_name(self.unit_names@, i as int, name@));
                Err(ItemError::UnitRedeclared(name))
            },
            None => {
                let mut taken = Runtime::new();
                std::mem::swap(self, &mut taken);
                let Runtime {
                    mut unit_names,
                    variable_names,
                    variable_values,
                    function_names,
                    function_defs,
                } = taken;
                proof {
                    lemma_pushed_name(unit_names@, name);
                }
                unit_names.push(name);
                *self =
                Runtime {
                    unit_names,
                    variable_names,
                    variable_values,
                    function_names,
                    function_defs,
                };
                assert(self@.units =~= old(self)@.units.insert(name@));
                Ok(())
            },
        }
    }

    /// Binds the variable `name` to `value`, unless it is bound already, and gives back
    /// the value that was stored. Units and functions of the same name are no obstacle.
    pub fn declare_variable(&mut self, name: Name, value: Value) -> (r: Result<Value, ItemError>)
        ensures
            (final(self)@, bound_view(r)) == declare_variable_model(old(self)@, name@, value@),
    {
        proof {
            use_type_invariant(&*self);
        }
        match find_name(&self.variable_names, &name) {
            Some(i) => {
                assert(holds_name(self.variable_names@, i as int, name@));
                Err(ItemError::VariableRedefined(name))
            },
            None => {
                let stored = value.clone();
                let mut taken = Runtime::new();
                std::mem::swap(self, &mut taken);
                let Runtime {
                    unit_names,
                    mut variable_names,
                    mut variable_values,
                    function_names,
                    function_defs,
                } = taken;
                proof {
                    lemma_pushed_name(variable_names@, name);
                }
                variable_names.push(name);
                variable_values.push(value);
                *self =
                Runtime {
                    unit_names,
                    variable_names,
                    variable_values,
                    function_names,
                    function_defs,
                };
                assert(self@.variables =~= old(self)@.variables.insert(name@, value@));
                Ok(stored)
            },
        }
    }

    /// Declares the function `name` with its parameters and its body, unless it is a
    /// function already. The body is stored as it is.
    pub fn declare_function(&mut self, name: Name, params: Vec<Name>, body: Expression) -> (r:
        Result<(), ItemError>)
        ensures
            (final(self)@, unit_outcome_view(r)) == declare_function_model(
                old(self)@,
                name@,
                name_texts(params@),
                body,
            ),
    {
        proof {
            use_type_invariant(&*self);
        }
        match find_name(&self.function_names, &name) {
            Some(i) => {
                assert(holds_name(self.function_names@, i as int, name@));
                Err(ItemError::FunctionRedefined(name))
            },
            None => {
                let def = FunctionDef { params, body };
                let mut taken = Runtime::new();
                std::mem::swap(self, &mut taken);
                let Runtime {
                    unit_names,
                    variable_names,
                    variable_values,
                    mut function_names,
                    mut function_defs,
                } = taken;
                proof {
                    lemma_pushed_name(function_names@, name);
                }
                function_names.push(name);
                function_defs.push(def);
                *self =
                Runtime {
                    unit_names,
                    variable_names,
                    variable_values,
                    function_names,
                    function_defs,
                };
                assert(self@.functions =~= old(self)@.functions.insert(name@, def@));
                Ok(())
            },
        }
    }

    /// The value of a name: that of the variable of this name; else, for a unit, the
    /// magnitude 1 of that unit; else, for a function, a reference to it.
    pub fn lookup(&self, name: &Name) -> (r: Option<Value>)
        ensures
            value_option_view(r) == lookup_model(self@, name@),
    {
        proof {
            use_type_invariant(self);
        }
        if let Some(i) = find_name(&self.variable_names, name) {
            proof {
                lemma_position(self.variable_names@, i as int);
            }
            Some(self.variable_values[i].clone())
        } else if let Some(i) = find_name(&self.unit_names, name) {
            assert(holds_name(self.unit_names@, i as int, name@));
            Some(
                Value {
                    kind: ValueKind::Number(Decimal::from_u64(1)),
                    unit: Unit::new_named(name.clone()),
                },
            )
        } else if let Some(i) = find_name(&self.function_names, name) {
            assert(holds_name(self.function_names@, i as int, name@));
            Some(Value { kind: ValueKind::FunctionRef(name.clone()), unit: Unit::new() })
        } else {
            None
        }
    }

    /// Whether `name` is a unit, a variable or a function.
    pub fn is_defined(&self, name: &Name) -> (b: bool)
        ensures
            b == known(self@, name@),
    {
        let unit = find_name(&self.unit_names, name);
        let variable = find_name(&self.variable_names, name);
        let function = find_name(&self.function_names, name);
        proof {
            if let Some(i) = unit {
                assert(holds_name(self.unit_names@, i as int, name@));
            }
            if let Some(i) = variable {
                assert(holds_name(self.variable_names@, i as int, name@));
            }
            if let Some(i) = function {
                assert(holds_name(self.function_names@, i as int, name@));
            }
        }
        unit.is_some() || variable.is_some() || function.is_some()
    }
}

/// The number of operator and parenthesis levels of an expression.
pub open spec fn depth(e: Expression) -> nat
    decreases e,
{
    match e {
        Expression::PrefixOp { fc, op, expr } => depth(*expr) + 1,
        Expression::InfixOp { fc, op, lhs, rhs } => depth(*lhs) + depth(*rhs) + 2,
        Expression::UnitOf(fc, expr) => depth(*expr) + 1,
        Expression::Parenthesised(fc, expr) => depth(*expr) + 1,
        _ => 0,
    }
}

/// Scales the magnitude of a number by an SI prefix; the unit stays. A function
/// reference takes no prefix.
pub fn apply_prefix(fc: FC, prefix: SiPrefix, val: Value) -> (r: Result<Value, EvalError>)
    ensures
        eval_view(r) == prefix_model(fc, prefix, val@),
{
    let Value { kind, unit } = val;
    match kind {
        ValueKind::Number(x) => {
            let factor = Decimal::from_u64(prefix.multiplier());
            let scaled = if prefix.is_fraction() {
                match x.checked_div(&factor) {
                    Ok(q) => Some(q),
                    Err(_) => None,
                }
            } else {
                x.checked_mul(&factor)
            };
            match scaled {
                Some(y) => Ok(Value { kind: ValueKind::Number(y), unit }),
                None => Err(EvalError::OutOfRange(fc)),
            }
        },
        ValueKind::FunctionRef(name) => Err(
            EvalError::InvalidSiPrefix(fc, prefix, Value { kind: ValueKind::FunctionRef(name), unit }),
        ),
    }
}

/// Applies a prefix operator: `+` gives a number back as it is, `-` negates it. A
/// function reference takes neither.
pub fn apply_sign(fc: FC, op: PrefixOp, val: Value) -> (r: Result<Value, EvalError>)
    ensures
        eval_view(r) == sign_model(fc, op, val@),
{
    let Value { kind, unit } = val;
    match kind {
        ValueKind::Number(x) => match op {
            PrefixOp::Pos => Ok(Value { kind: ValueKind::Number(x), unit }),
            PrefixOp::Neg => Ok(Value { kind: ValueKind::Number(x.negated()), unit }),
        },
        ValueKind::FunctionRef(name) => Err(
            EvalError::InvalidPrefixOperator(
                fc,
                op,
                Value { kind: ValueKind::FunctionRef(name), unit },
            ),
        ),
    }
}

/// The unit of the result of an arithmetic operator on two values. A comparison has no
/// unit of its own: the caller settles it before.
pub fn infix_unit(fc: FC, op: InfixOp, lhs: &Value, rhs: &Value) -> (r: Result<Unit, UnitError>)
    requires
        !op.compares(),
    ensures
        unit_view(r) == infix_unit_model(fc, op, lhs@, rhs@),
{
    match op {
        InfixOp::Mul => match lhs.unit.checked_multiply(&rhs.unit) {
            Some(unit) => Ok(unit),
            None => Err(UnitError::ExponentOverflow(fc, op, lhs.unit.clone(), rhs.unit.clone())),
        },
        InfixOp::Div => match lhs.unit.checked_divide(&rhs.unit) {
            Some(unit) => Ok(unit),
            None => Err(UnitError::ExponentOverflow(fc, op, lhs.unit.clone(), rhs.unit.clone())),
        },
        InfixOp::Pow => {
            if !rhs.unit.is_dimensionless() {
                return Err(
                    UnitError::IncompatibleUnits(fc, op, lhs.unit.clone(), rhs.unit.clone()),
                );
            }
            let exponent = match &rhs.kind {
                ValueKind::Number(n) => n.to_integer(),
                ValueKind::FunctionRef(_) => None,
            };
            match exponent {
                Some(n) => match lhs.unit.checked_pow(n) {
                    Some(unit) => Ok(unit),
                    None => Err(
                        UnitError::ExponentOverflow(fc, op, lhs.unit.clone(), rhs.unit.clone()),
                    ),
                },
                None => Err(UnitError::InvalidPowerValue(fc, lhs.unit.clone(), rhs.kind.clone())),
            }
        },
        _ => {
            if lhs.unit.same_as(&rhs.unit) {
                Ok(lhs.unit.clone())
            } else {
                Err(UnitError::IncompatibleUnits(fc, op, lhs.unit.clone(), rhs.unit.clone()))
            }
        },
    }
}

/// The magnitude of the result of an arithmetic operator on two magnitudes.
fn arithmetic(op: InfixOp, a: &Decimal, b: &Decimal) -> (r: Result<Decimal, ArithmeticError>)
    requires
        !op.compares(),
    ensures
        decimal_result_view(r) == arithmetic_model(op, a@, b@),
{
    let exact = match op {
        InfixOp::Add => a.checked_add(b),
        InfixOp::Sub => a.checked_sub(b),
        InfixOp::Mul => a.checked_mul(b),
        InfixOp::Div => {
            return a.checked_div(b);
        },
        InfixOp::Mod => {
            return a.checked_rem(b);
        },
        _ => match b.to_integer() {
            Some(n) => a.checked_pow(n),
            None => None,
        },
    };
    match exact {
        Some(d) => Ok(d),
        None => Err(ArithmeticError::OutOfRange),
    }
}

/// Applies an infix operator to two values.
///
/// A comparison is refused as not evaluated yet. Else the unit of the result is settled,
/// then both operands have to be numbers, then the magnitude is computed.
pub fn apply_infix(fc: FC, op: InfixOp, lhs: Value, rhs: Value) -> (r: Result<Value, EvalError>)
    ensures
        eval_view(r) == infix_model(fc, op, lhs@, rhs@),
{
    if op.is_comparison() {
        return Err(EvalError::Unsupported(fc, Feature::Comparison(op)));
    }
    let unit = match infix_unit(fc, op, &lhs, &rhs) {
        Ok(unit) => unit,
        Err(e) => {
            return Err(EvalError::UnitError(e));
        },
    };
    let computed = match &lhs.kind {
        ValueKind::Number(a) => match &rhs.kind {
            ValueKind::Number(b) => Some(arithmetic(op, a, b)),
            ValueKind::FunctionRef(_) => None,
        },
        ValueKind::FunctionRef(_) => None,
    };
    match computed {
        Some(Ok(d)) => Ok(Value { kind: ValueKind::Number(d), unit }),
        Some(Err(ArithmeticError::DivisionByZero)) => Err(
            EvalError::DivisionByZero(fc, op, lhs, rhs),
        ),
        Some(Err(ArithmeticError::OutOfRange)) => Err(EvalError::OutOfRange(fc)),
        None => Err(EvalError::InvalidInfixOperator(fc, op, lhs, rhs)),
    }
}

impl Runtime {
    /// The value of an expression. The state is read, never changed.
    pub fn eval_expr(&self, expr: &Expression) -> (r: Result<Value, EvalError>)
        ensures
            eval_view(r) == eval_model(self@, *expr),
        decreases depth(*expr), 1nat,
    {
        match expr {
            Expression::IntegerLit { fc: _, val } => Ok(
                Value { kind: ValueKind::Number(val.clone()), unit: Unit::new() },
            ),
            Expression::DecimalLit { fc: _, val } => Ok(
                Value { kind: ValueKind::Number(val.clone()), unit: Unit::new() },
            ),
            Expression::MaybeUnitPrefix { fc, name, full_name, prefix } => {
                match self.lookup(full_name) {
                    Some(val) => Ok(val),
                    None => match self.lookup(name) {
                        Some(val) => apply_prefix(*fc, *prefix, val),
                        None => Err(EvalError::UndefinedName(*fc, full_name.clone())),
                    },
                }
            },
            Expression::Variable(id) => match self.lookup(id.name_ref()) {
                Some(val) => Ok(val),
                None => Err(EvalError::UndefinedName(id.fc(), id.name_ref().clone())),
            },
            Expression::Call { fc, base: _, args: _ } => Err(
                EvalError::Unsupported(*fc, Feature::FunctionCall),
            ),
            Expression::PrefixOp { fc, op, expr: inner } => match self.eval_expr(inner) {
                Ok(val) => apply_sign(*fc, *op, val),
                Err(e) => Err(e),
            },
            Expression::InfixOp { fc, op, lhs, rhs } => self.eval_infix_op(*fc, *op, lhs, rhs),
            Expression::UnitOf(_, inner) => match self.eval_expr(inner) {
                Ok(val) => Ok(
                    Value { kind: ValueKind::Number(Decimal::from_u64(1)), unit: val.unit },
                ),
                Err(e) => Err(e),
            },
            Expression::Parenthesised(_, inner) => self.eval_expr(inner),
        }
    }

    /// The value of an infix operation: both operands are evaluated, the left one first,
    /// then the operator is applied to their values.
    pub fn eval_infix_op(&self, fc: FC, op: InfixOp, lhs: &Expression, rhs: &Expression) -> (r:
        Result<Value, EvalError>)
        ensures
            eval_view(r) == match eval_model(self@, *lhs) {
                Ok(l) => match eval_model(self@, *rhs) {
                    Ok(r) => infix_model(fc, op, l, r),
                    Err(e) => Err(e),
                },
                Err(e) => Err(e),
            },
        decreases depth(*lhs) + depth(*rhs) + 1, 0nat,
    {
        let l = match self.eval_expr(lhs) {
            Ok(l) => l,
            Err(e) => {
                return Err(e);
            },
        };
        let r = match self.eval_expr(rhs) {
            Ok(r) => r,
            Err(e) => {
                return Err(e);
            },
        };
        apply_infix(fc, op, l, r)
    }

    /// Applies a statement to the state: a declaration is registered, an expression is
    /// evaluated. A statement that fails leaves the state as it was.
    pub fn eval_item(&mut self, item: Item) -> (r: Result<EvalResult, ItemError>)
        ensures
            (final(self)@, item_view(r)) == item_model(old(self)@, item),
    {
        match item {
            Item::UnitDeclaration(_, name) => match self.declare_unit(name.name()) {
                Ok(_) => Ok(EvalResult::Empty),
                Err(e) => Err(e),
            },
            Item::VariableDeclaration { fc: _, name, rhs } => {
                let value = match self.eval_expr(&rhs) {
                    Ok(value) => value,
                    Err(e) => {
                        return Err(ItemError::EvalError(e));
                    },
                };
                match self.declare_variable(name.name(), value) {
                    Ok(bound) => Ok(EvalResult::Value(bound)),
                    Err(e) => Err(e),
                }
            },
            Item::FunctionDeclaration { fc: _, name, arg_names, rhs } => {
                let params = identifier_names(&arg_names);
                match self.declare_function(name.name(), params, rhs) {
                    Ok(_) => Ok(EvalResult::Empty),
                    Err(e) => Err(e),
                }
            },
            Item::PrintedExpression(_, e) => match self.eval_expr(&e) {
                Ok(val) => Ok(EvalResult::PrintValue(e, val)),
                Err(err) => Err(ItemError::EvalError(err)),
            },
            Item::SilentExpression(e) => match self.eval_expr(&e) {
                Ok(val) => Ok(EvalResult::Value(val)),
                Err(err) => Err(ItemError::EvalError(err)),
            },
        }
    }

    /// Settles the role of a line against the names that are declared now: `name = rhs`
    /// declares `name` where it is not known as a unit, a variable or a function, and is
    /// the comparison of `name` with `rhs` where it is. An empty line gives no statement.
    /// The state is not changed.
    pub fn line_item_to_item(&mut self, item: LineItem) -> (r: Option<Item>)
        ensures
            final(self)@ == old(self)@,
            match item {
                LineItem::Empty => r is None,
                LineItem::UnitDeclaration(fc, name) => r == Some(Item::UnitDeclaration(fc, name)),
                LineItem::MaybeDeclarationOrEqualityExpression(decl) => {
                    &&& r is Some
                    &&& if known(old(self)@, decl.name.name@) {
                        is_equality_item(r->0, decl)
                    } else {
                        r->0 == declaration_item(decl)
                    }
                },
                LineItem::PrintedExpression(fc, e) => r == Some(Item::PrintedExpression(fc, e)),
                LineItem::SilentExpression(e) => r == Some(Item::SilentExpression(e)),
            },
    {
        match item {
            LineItem::Empty => None,
            LineItem::UnitDeclaration(fc, name) => Some(Item::UnitDeclaration(fc, name)),
            LineItem::MaybeDeclarationOrEqualityExpression(decl) => {
                if self.is_defined(decl.declaration_name()) {
                    Some(decl.into_expression())
                } else {
                    Some(decl.into_declaration())
                }
            },
            LineItem::PrintedExpression(fc, e) => Some(Item::PrintedExpression(fc, e)),
            LineItem::SilentExpression(e) => Some(Item::SilentExpression(e)),
        }
    }

    /// Evaluates a line: its role is settled against the state, then the statement is
    /// applied. An empty line gives an empty result.
    pub fn eval_line_item(&mut self, item: LineItem) -> (r: Result<EvalResult, ItemError>)
        ensures
            (final(self)@, item_view(r)) == line_model(old(self)@, item),
    {
        let ghost before = self@;
        let ghost line = item;
        match self.line_item_to_item(item) {
            Some(it) => {
                proof {
                    if let LineItem::MaybeDeclarationOrEqualityExpression(decl) = line {
                        if known(before, decl.name.name@) {
                            lemma_equality_item(before, it, decl);
                        }
                    }
                }
                self.eval_item(it)
            },
            None => Ok(EvalResult::Empty),
        }
    }
}

/// What the comparison that a line with a known name stands for gives, and that it leaves
/// the state as it is.
proof fn lemma_equality_item(rt: RuntimeView, item: Item, decl: crate::syntax::Declaration)
    requires
        is_equality_item(item, decl),
        known(rt, decl.name.name@),
    ensures
        item_model(rt, item) == (
            rt,
            crate::model::equality_model(rt, decl.fc, decl.name.fc, decl.arg_names is Some, decl.rhs),
        ),
{
    reveal_with_fuel(eval_model, 2);
    if let Item::PrintedExpression(item_fc, expr) = item {
        if let Expression::InfixOp { fc, op, lhs, rhs } = expr {
            assert(lookup_model(rt, decl.name.name@) is Some);
            assert(op.compares());
            match decl.arg_names {
                None => {
                    assert(*lhs == Expression::Variable(decl.name));
                    assert(eval_model(rt, *lhs) is Ok);
                },
                Some(arg_names) => {
                    assert(eval_model(rt, *lhs) == Err::<crate::value::ValueView, _>(
                        crate::error::EvalErrorView::Unsupported(
                            decl.name.fc,
                            Feature::FunctionCall,
                        ),
                    ));
                },
            }
        }
    }
}

} // verus!
