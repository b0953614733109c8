//! The parsed form of a line: statements and expression trees.

use crate::decimal::Decimal;
use crate::unit::Name;
use vstd::prelude::*;

verus! {

/// A position in the source text. The evaluator hands it through to its errors unread.
#[derive(Clone, Copy, Debug, PartialEq, Eq, Structural)]
pub struct FC {
    pub line: u32,
    pub column: u32,
}

/// A name with the position where it was written.
#[derive(Debug)]
pub struct Identifier {
    pub fc: FC,
    pub name: Name,
}

impl Identifier {
    /// The name, by value.
    pub fn name(self) -> (name: Name)
        ensures
            name == self.name,
    {
        self.name
    }

    /// The name, by reference.
    pub fn name_ref(&self) -> (name: &Name)
        ensures
            *name == self.name,
    {
        &self.name
    }

    /// The position where the name was written.
    pub fn fc(&self) -> (fc: FC)
        ensures
            fc == self.fc,
    {
        self.fc
    }
}

/// A prefix operator.
#[derive(Clone, Copy, Debug, PartialEq, Eq, Structural)]
pub enum PrefixOp {
    Pos,
    Neg,
}

/// An infix operator.
#[derive(Clone, Copy, Debug, PartialEq, Eq, Structural)]
pub enum InfixOp {
    Add,
    Sub,
    Mul,
    Div,
    Mod,
    Pow,
    Eq,
    Neq,
    Gt,
}

impl InfixOp {
    /// Whether the operator compares its operands.
    pub open spec fn compares(self) -> bool {
        self == InfixOp::Eq || self == InfixOp::Neq || self == InfixOp::Gt
    }

    /// Whether the operator compares its operands.
    pub fn is_comparison(self) -> (b: bool)
        ensures
            b == self.compares(),
    {
        match self {
            InfixOp::Eq | InfixOp::Neq | InfixOp::Gt => true,
            _ => false,
        }
    }
}

/// An SI prefix: a power of ten by which a magnitude is scaled.
#[derive(Clone, Copy, Debug, PartialEq, Eq, Structural)]
pub enum SiPrefix {
    Femto,
    Pico,
    Nano,
    Micro,
    Milli,
    Centi,
    Deci,
    Deca,
    Hecto,
    Kilo,
    Mega,
    Giga,
    Tera,
    Peta,
}

impl SiPrefix {
    /// Whether the prefix makes a magnitude smaller: whether it divides by its factor.
    pub open spec fn divides(self) -> bool {
        match self {
            SiPrefix::Femto
            | SiPrefix::Pico
            | SiPrefix::Nano
            | SiPrefix::Micro
            | SiPrefix::Milli
            | SiPrefix::Centi
            | SiPrefix::Deci => true,
            _ => false,
        }
    }

    /// The power of ten of the prefix, as a positive factor.
    pub open spec fn factor(self) -> int {
        match self {
            SiPrefix::Femto | SiPrefix::Peta => 1_000_000_000_000_000,
            SiPrefix::Pico | SiPrefix::Tera => 1_000_000_000_000,
            SiPrefix::Nano | SiPrefix::Giga => 1_000_000_000,
            SiPrefix::Micro | SiPrefix::Mega => 1_000_000,
            SiPrefix::Milli | SiPrefix::Kilo => 1_000,
            SiPrefix::Centi | SiPrefix::Hecto => 100,
            SiPrefix::Deci | SiPrefix::Deca => 10,
        }
    }

    /// Whether the prefix divides by its factor.
    pub fn is_fraction(self) -> (b: bool)
        ensures
            b == self.divides(),
    {
        match self {
            SiPrefix::Femto
            | SiPrefix::Pico
            | SiPrefix::Nano
            | SiPrefix::Micro
            | SiPrefix::Milli
            | SiPrefix::Centi
            | SiPrefix::Deci => true,
            _ => false,
        }
    }

    /// The factor of the prefix.
    pub fn multiplier(self) -> (f: u64)
        ensures
            f == self.factor(),
            f != 0,
    {
        match self {
            SiPrefix::Femto | SiPrefix::Peta => 1_000_000_000_000_000u64,
            SiPrefix::Pico | SiPrefix::Tera => 1_000_000_000_000u64,
            SiPrefix::Nano | SiPrefix::Giga => 1_000_000_000u64,
            SiPrefix::Micro | SiPrefix::Mega => 1_000_000u64,
            SiPrefix::Milli | SiPrefix::Kilo => 1_000u64,
            SiPrefix::Centi | SiPrefix::Hecto => 100u64,
            SiPrefix::Deci | SiPrefix::Deca => 10u64,
        }
    }
}

/// An expression tree.
#[derive(Debug)]
#[allow(inconsistent_fields)]
pub enum Expression {
    /// An integer literal.
    IntegerLit { fc: FC, val: Decimal },
    /// A literal with a decimal point.
    DecimalLit { fc: FC, val: Decimal },
    /// A bare name `full_name` that can also be read as `prefix` before the name `name`.
    MaybeUnitPrefix { fc: FC, name: Name, full_name: Name, prefix: SiPrefix },
    /// A reference to a name.
    Variable(Identifier),
    /// A call of `base` with arguments.
    Call { fc: FC, base: Box<Expression>, args: Vec<Expression> },
    /// A prefix operator applied to an expression.
    PrefixOp { fc: FC, op: PrefixOp, expr: Box<Expression> },
    /// An infix operator applied to two expressions.
    InfixOp { fc: FC, op: InfixOp, lhs: Box<Expression>, rhs: Box<Expression> },
    /// The unit of an expression.
    UnitOf(FC, Box<Expression>),
    /// An expression in parentheses.
    Parenthesised(FC, Box<Expression>),
}

/// A statement: a line whose role is settled.
#[derive(Debug)]
pub enum Item {
    UnitDeclaration(FC, Identifier),
    VariableDeclaration { fc: FC, name: Identifier, rhs: Expression },
    FunctionDeclaration { fc: FC, name: Identifier, arg_names: Vec<Identifier>, rhs: Expression },
    PrintedExpression(FC, Expression),
    SilentExpression(Expression),
}

/// A line of the form `name = rhs` or `name(arg_names) = rhs`: a declaration of `name`
/// where the name is new, and else a comparison of `name` with `rhs`.
#[derive(Debug)]
pub struct Declaration {
    pub fc: FC,
    pub name: Identifier,
    pub arg_names: Option<Vec<Identifier>>,
    pub rhs: Expression,
}

/// A parsed line, before names are resolved.
#[derive(Debug)]
pub enum LineItem {
    Empty,
    UnitDeclaration(FC, Identifier),
    MaybeDeclarationOrEqualityExpression(Declaration),
    PrintedExpression(FC, Expression),
    SilentExpression(Expression),
}

/// The texts of a list of identifiers, in order.
pub open spec fn identifier_texts(ids: Seq<Identifier>) -> Seq<Seq<char>> {
    Seq::new(ids.len(), |i: int| ids[i].name@)
}

/// The declaration that `decl` stands for where its name is new: of a function where it
/// has a parameter list, and else of a variable.
pub open spec fn declaration_item(decl: Declaration) -> Item {
    match decl.arg_names {
        Some(arg_names) => Item::FunctionDeclaration {
            fc: decl.fc,
            name: decl.name,
            arg_names,
            rhs: decl.rhs,
        },
        None => Item::VariableDeclaration { fc: decl.fc, name: decl.name, rhs: decl.rhs },
    }
}

/// Whether `lhs` is the left-hand side of `decl` read as an expression: the name itself,
/// or the call of it with its parameters as arguments.
pub open spec fn is_left_side(lhs: Expression, decl: Declaration) -> bool {
    match decl.arg_names {
        None => lhs == Expression::Variable(decl.name),
        Some(arg_names) => {
            &&& lhs matches Expression::Call { fc, base, args }
            &&& fc == decl.name.fc
            &&& *base == Expression::Variable(decl.name)
            &&& args@.len() == arg_names@.len()
            &&& forall|i: int|
                0 <= i < args@.len() ==> #[trigger] args@[i] == Expression::Variable(arg_names@[i])
        },
    }
}

/// Whether `item` is the comparison that `decl` stands for where its name is known: the
/// printed expression `name == rhs`.
pub open spec fn is_equality_item(item: Item, decl: Declaration) -> bool {
    &&& item matches Item::PrintedExpression(item_fc, expr)
    &&& item_fc == decl.fc
    &&& expr matches Expression::InfixOp { fc, op, lhs, rhs }
    &&& fc == decl.fc
    &&& op == InfixOp::Eq
    &&& is_left_side(*lhs, decl)
    &&& *rhs == decl.rhs
}

impl Declaration {
    /// The name on the left-hand side.
    pub fn declaration_name(&self) -> (name: &Name)
        ensures
            *name == self.name.name,
    {
        &self.name.name
    }

    /// The line read as a declaration.
    pub fn into_declaration(self) -> (item: Item)
        ensures
            item == declaration_item(self),
    {
        match self.arg_names {
            Some(arg_names) => Item::FunctionDeclaration {
                fc: self.fc,
                name: self.name,
                arg_names,
                rhs: self.rhs,
            },
            None => Item::VariableDeclaration { fc: self.fc, name: self.name, rhs: self.rhs },
        }
    }

    /// The line read as the comparison of its two sides.
    pub fn into_expression(self) -> (item: Item)
        ensures
            is_equality_item(item, self),
    {
        let ghost decl = self;
        let Declaration { fc, name, arg_names, rhs } = self;
        let lhs = match arg_names {
            None => Expression::Variable(name),
            Some(ids) => {
                let call_fc = name.fc;
                let ghost listed = ids@;
                let mut args: Vec<Expression> = Vec::new();
                let mut rest = ids;
                while rest.len() > 0
                    invariant
                        args@.len() + rest@.len() == listed.len(),
                        forall|i: int|
                            0 <= i < args@.len() ==> #[trigger] args@[i] == Expression::Variable(
                                listed[i],
                            ),
                        forall|i: int|
                            0 <= i < rest@.len() ==> #[trigger] rest@[i] == listed[args@.len() + i],
                    decreases rest@.len(),
                {
                    let id = rest.remove(0);
                    args.push(Expression::Variable(id));
                }
                Expression::Call { fc: call_fc, base: Box::new(Expression::Variable(name)), args }
            },
        };
        Item::PrintedExpression(
            fc,
            Expression::InfixOp { fc, op: InfixOp::Eq, lhs: Box::new(lhs), rhs: Box::new(rhs) },
        )
    }
}

} // verus!
