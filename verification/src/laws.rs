//! Laws of the evaluator, proved of its mathematical model.

use crate::decimal::exact_product;
use crate::decimal::whole;
use crate::error::EvalErrorView;
use crate::error::EvalResultView;
use crate::error::Feature;
use crate::error::ItemErrorView;
use crate::error::UnitErrorView;
use crate::model::declare_variable_model;
use crate::model::eval_model;
use crate::model::infix_model;
use crate::model::infix_unit_model;
use crate::model::item_model;
use crate::model::known;
use crate::model::line_model;
use crate::model::lookup_model;
use crate::model::number_value;
use crate::model::RuntimeView;
use crate::syntax::Declaration;
use crate::syntax::Expression;
use crate::syntax::InfixOp;
use crate::syntax::Item;
use crate::syntax::LineItem;
use crate::syntax::FC;
use crate::unit::base_unit;
use crate::unit::exponent_of;
use crate::unit::merged_exponent;
use crate::unit::merged_fits;
use crate::unit::unit_product;
use crate::value::ValueView;
use vstd::prelude::*;

verus! {

/// The name of a declared unit that is not bound as a variable has the value 1 of that
/// unit: the exponent 1 for the name itself and 0 for every other name.
pub proof fn law_declared_unit_lookup(rt: RuntimeView, name: Seq<char>)
    requires
        rt.units.contains(name),
        !rt.variables.dom().contains(name),
    ensures
        lookup_model(rt, name) == Some(number_value(whole(1), base_unit(name))),
        exponent_of(base_unit(name), name) == 1,
        forall|other: Seq<char>| other != name ==> exponent_of(base_unit(name), other) == 0,
{
}

/// The product of two different base units holds each of them to the first power and
/// nothing else.
pub proof fn law_product_of_base_units(first: Seq<char>, second: Seq<char>)
    requires
        first != second,
    ensures
        merged_fits(base_unit(first), base_unit(second), false),
        forall|name: Seq<char>|
            exponent_of(#[trigger] unit_product(base_unit(first), base_unit(second)), name) == if name
                == first || name == second {
                1int
            } else {
                0int
            },
{
    let product = unit_product(base_unit(first), base_unit(second));
    assert forall|name: Seq<char>| exponent_of(product, name) == if name == first || name
        == second {
        1int
    } else {
        0int
    } by {
        assert(exponent_of(product, name) == merged_exponent(
            base_unit(first),
            base_unit(second),
            false,
            name,
        ));
    }
}

/// The second declaration of a variable is refused as a redefinition, whatever became of
/// the first, and changes nothing: where the first one bound the name, the name still has
/// the value that the first one gave it.
pub proof fn law_redefinition_rejected(
    rt: RuntimeView,
    name: Seq<char>,
    first: ValueView,
    second: ValueView,
)
    ensures
        ({
            let (once, bound) = declare_variable_model(rt, name, first);
            let (twice, again) = declare_variable_model(once, name, second);
            &&& again == Err::<ValueView, _>(ItemErrorView::VariableRedefined(name))
            &&& twice == once
            &&& bound is Ok ==> lookup_model(twice, name) == Some(first)
        }),
{
}

/// A line `name = rhs` with a name that is not known declares the variable. Once that has
/// succeeded, a line of the same shape with this name is no declaration any more: it
/// leaves the state as it is and gives an error, that of its right-hand side or else that
/// comparisons are not evaluated.
pub proof fn law_declaration_then_comparison(rt: RuntimeView, first: Declaration, second: Declaration)
    requires
        first.arg_names is None,
        second.arg_names is None,
        second.name.name@ == first.name.name@,
        !known(rt, first.name.name@),
        eval_model(rt, first.rhs) is Ok,
    ensures
        ({
            let (once, bound) = line_model(
                rt,
                LineItem::MaybeDeclarationOrEqualityExpression(first),
            );
            let (twice, again) = line_model(
                once,
                LineItem::MaybeDeclarationOrEqualityExpression(second),
            );
            &&& bound == Ok::<_, ItemErrorView>(EvalResultView::Value(eval_model(rt, first.rhs)->Ok_0))
            &&& once.variables == rt.variables.insert(
                first.name.name@,
                eval_model(rt, first.rhs)->Ok_0,
            )
            &&& known(once, first.name.name@)
            &&& twice == once
            &&& again == match eval_model(once, second.rhs) {
                Ok(_) => Err::<EvalResultView, _>(
                    ItemErrorView::EvalError(
                        EvalErrorView::Unsupported(second.fc, Feature::Comparison(InfixOp::Eq)),
                    ),
                ),
                Err(e) => Err(ItemErrorView::EvalError(e)),
            }
        }),
{
}

/// Sum, difference and remainder of two values with different units are refused, with the
/// operator and both units.
pub proof fn law_unit_mismatch_rejected(fc: FC, op: InfixOp, lhs: ValueView, rhs: ValueView)
    requires
        op == InfixOp::Add || op == InfixOp::Sub || op == InfixOp::Mod,
        lhs.unit != rhs.unit,
    ensures
        infix_model(fc, op, lhs, rhs) == Err::<ValueView, _>(
            EvalErrorView::UnitError(UnitErrorView::IncompatibleUnits(fc, op, lhs.unit, rhs.unit)),
        ),
{
}

/// The product of two numbers in range whose units combine is the product of the
/// magnitudes with the product of the units.
pub proof fn law_product_of_numbers(fc: FC, lhs: ValueView, rhs: ValueView)
    requires
        lhs.kind is Number,
        rhs.kind is Number,
        lhs.kind->Number_0.in_range(),
        rhs.kind->Number_0.in_range(),
        merged_fits(lhs.unit, rhs.unit, false),
    ensures
        infix_model(fc, InfixOp::Mul, lhs, rhs) == Ok::<_, EvalErrorView>(
            number_value(
                exact_product(lhs.kind->Number_0, rhs.kind->Number_0),
                unit_product(lhs.unit, rhs.unit),
            ),
        ),
{
}

/// A name that is declared as it is written has its own value, whatever a reading of it as
/// a prefix before a shorter name would give.
pub proof fn law_exact_name_wins(rt: RuntimeView, e: Expression)
    requires
        e is MaybeUnitPrefix,
        lookup_model(rt, e->full_name@) is Some,
    ensures
        eval_model(rt, e) == Ok::<_, EvalErrorView>(lookup_model(rt, e->full_name@)->0),
{
}

/// A division or a remainder by a zero magnitude gives an error, never a value. Where both
/// operands are numbers in range whose units the operator takes, it is the error of a
/// division by zero, with the operands.
pub proof fn law_division_by_zero(fc: FC, op: InfixOp, lhs: ValueView, rhs: ValueView)
    requires
        op == InfixOp::Div || op == InfixOp::Mod,
        rhs.kind is Number,
        rhs.kind->Number_0.unscaled == 0,
    ensures
        infix_model(fc, op, lhs, rhs) is Err,
        lhs.kind is Number && lhs.kind->Number_0.in_range() && rhs.kind->Number_0.in_range()
            && infix_unit_model(fc, op, lhs, rhs) is Ok ==> infix_model(fc, op, lhs, rhs) == Err::<
            ValueView,
            _,
        >(EvalErrorView::DivisionByZero(fc, op, lhs, rhs)),
{
}

/// A statement only adds to the state: every unit stays declared, and every variable and
/// function stays what it was.
pub proof fn law_statement_only_adds(rt: RuntimeView, item: Item)
    ensures
        rt.units.subset_of(item_model(rt, item).0.units),
        rt.variables.submap_of(item_model(rt, item).0.variables),
        rt.functions.submap_of(item_model(rt, item).0.functions),
{
}

/// A statement that fails leaves the state as it was.
pub proof fn law_failed_statement_changes_nothing(rt: RuntimeView, item: Item)
    requires
        item_model(rt, item).1 is Err,
    ensures
        item_model(rt, item).0 == rt,
{
}

/// A line only adds to the state, and a line that fails leaves it as it was.
pub proof fn law_line_only_adds(rt: RuntimeView, line: LineItem)
    ensures
        rt.units.subset_of(line_model(rt, line).0.units),
        rt.variables.submap_of(line_model(rt, line).0.variables),
        rt.functions.submap_of(line_model(rt, line).0.functions),
        line_model(rt, line).1 is Err ==> line_model(rt, line).0 == rt,
{
    match line {
        LineItem::Empty => {},
        LineItem::UnitDeclaration(fc, name) => {
            law_statement_only_adds(rt, Item::UnitDeclaration(fc, name));
        },
        LineItem::MaybeDeclarationOrEqualityExpression(decl) => {
            if !known(rt, decl.name.name@) {
                law_statement_only_adds(rt, crate::syntax::declaration_item(decl));
            }
        },
        LineItem::PrintedExpression(fc, e) => {
            law_statement_only_adds(rt, Item::PrintedExpression(fc, e));
        },
        LineItem::SilentExpression(e) => {
            law_statement_only_adds(rt, Item::SilentExpression(e));
        },
    }
}

} // verus!
