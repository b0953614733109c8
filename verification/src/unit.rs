//! Physical units as exponent vectors over named base units.

use vstd::prelude::*;

verus! {

/// An identifier; two names are the same when their text is.
pub type Name = String;

/// The exponent that `unit` gives to the base unit `name`; 0 where it has no entry.
pub open spec fn exponent_of(unit: Map<Seq<char>, int>, name: Seq<char>) -> int {
    if unit.dom().contains(name) {
        unit[name]
    } else {
        0
    }
}

/// A unit's mapping is normal when it holds no entry with exponent 0.
pub open spec fn normal(unit: Map<Seq<char>, int>) -> bool {
    forall|name: Seq<char>| unit.dom().contains(name) ==> #[trigger] unit[name] != 0
}

/// The unit of a plain number.
pub open spec fn dimensionless() -> Map<Seq<char>, int> {
    Map::empty()
}

/// The base unit `name` to the first power.
pub open spec fn base_unit(name: Seq<char>) -> Map<Seq<char>, int> {
    Map::empty().insert(name, 1int)
}

/// `e`, or its negation when `negate` is set.
pub open spec fn signed(e: int, negate: bool) -> int {
    if negate {
        -e
    } else {
        e
    }
}

/// The exponent of `name` in the product of `a` and `b`, or in their quotient when `negate` is set.
pub open spec fn merged_exponent(
    a: Map<Seq<char>, int>,
    b: Map<Seq<char>, int>,
    negate: bool,
    name: Seq<char>,
) -> int {
    exponent_of(a, name) + signed(exponent_of(b, name), negate)
}

/// Exponent-wise sum (difference when `negate` is set), without the entries that come to 0.
pub open spec fn merged(a: Map<Seq<char>, int>, b: Map<Seq<char>, int>, negate: bool) -> Map<
    Seq<char>,
    int,
> {
    Map::new(
        |name: Seq<char>| merged_exponent(a, b, negate, name) != 0,
        |name: Seq<char>| merged_exponent(a, b, negate, name),
    )
}

/// Product of two units: exponents add.
pub open spec fn unit_product(a: Map<Seq<char>, int>, b: Map<Seq<char>, int>) -> Map<
    Seq<char>,
    int,
> {
    merged(a, b, false)
}

/// Quotient of two units: exponents subtract.
pub open spec fn unit_quotient(a: Map<Seq<char>, int>, b: Map<Seq<char>, int>) -> Map<
    Seq<char>,
    int,
> {
    merged(a, b, true)
}

/// A unit raised to the integer power `n`: every exponent is multiplied by `n`.
pub open spec fn unit_power(a: Map<Seq<char>, int>, n: int) -> Map<Seq<char>, int> {
    Map::new(
        |name: Seq<char>| exponent_of(a, name) * n != 0,
        |name: Seq<char>| exponent_of(a, name) * n,
    )
}

/// Whether `e` can be held in an exponent field.
pub open spec fn exponent_fits(e: int) -> bool {
    i64::MIN <= e <= i64::MAX
}

/// Whether every exponent of the product (quotient when `negate` is set) can be held.
pub open spec fn merged_fits(a: Map<Seq<char>, int>, b: Map<Seq<char>, int>, negate: bool) -> bool {
    forall|name: Seq<char>| exponent_fits(#[trigger] merged_exponent(a, b, negate, name))
}

/// Whether every exponent of `a` to the power `n` can be held.
pub open spec fn power_fits(a: Map<Seq<char>, int>, n: int) -> bool {
    forall|name: Seq<char>| exponent_fits(#[trigger] exponent_of(a, name) * n)
}

/// Whether entry `i` of `factors` is the one for `name`.
pub open spec fn names_entry(factors: Seq<(Name, i64)>, i: int, name: Seq<char>) -> bool {
    0 <= i < factors.len() && factors[i].0@ == name
}

/// Whether one of the first `k` entries of `factors` is the one for `name`.
pub open spec fn listed(factors: Seq<(Name, i64)>, k: int, name: Seq<char>) -> bool {
    exists|i: int| i < k && #[trigger] names_entry(factors, i, name)
}

/// The exponent that a factor list gives to `name`; 0 where it does not list it.
pub open spec fn exponent_in(factors: Seq<(Name, i64)>, name: Seq<char>) -> int {
    if exists|i: int| #[trigger] names_entry(factors, i, name) {
        factors[choose|i: int| #[trigger] names_entry(factors, i, name)].1 as int
    } else {
        0
    }
}

/// A factor list names each base unit at most once and holds no exponent 0.
pub open spec fn well_formed(factors: Seq<(Name, i64)>) -> bool {
    &&& forall|i: int, j: int|
        0 <= i < j < factors.len() ==> (#[trigger] factors[i]).0@ != (#[trigger] factors[j]).0@
    &&& forall|i: int| 0 <= i < factors.len() ==> (#[trigger] factors[i]).1 != 0
}

/// The mapping that a factor list stands for.
pub open spec fn factors_unit(factors: Seq<(Name, i64)>) -> Map<Seq<char>, int> {
    Map::new(
        |name: Seq<char>| exponent_in(factors, name) != 0,
        |name: Seq<char>| exponent_in(factors, name),
    )
}

proof fn lemma_entry_exponent(factors: Seq<(Name, i64)>, i: int)
    requires
        well_formed(factors),
        0 <= i < factors.len(),
    ensures
        exponent_in(factors, factors[i].0@) == factors[i].1,
        exponent_in(factors, factors[i].0@) != 0,
{
    let name = factors[i].0@;
    assert(names_entry(factors, i, name));
    let c = choose|c: int| #[trigger] names_entry(factors, c, name);
    assert(names_entry(factors, c, name));
    if c < i {
        assert(factors[c].0@ != factors[i].0@);
    } else if i < c {
        assert(factors[i].0@ != factors[c].0@);
    }
}

proof fn lemma_unlisted(factors: Seq<(Name, i64)>, name: Seq<char>)
    requires
        well_formed(factors),
        exponent_in(factors, name) == 0,
    ensures
        forall|i: int| 0 <= i < factors.len() ==> (#[trigger] factors[i]).0@ != name,
{
    assert forall|i: int| 0 <= i < factors.len() implies (#[trigger] factors[i]).0@ != name by {
        if factors[i].0@ == name {
            lemma_entry_exponent(factors, i);
        }
    }
}

proof fn lemma_push(factors: Seq<(Name, i64)>, entry: (Name, i64))
    requires
        well_formed(factors),
        exponent_in(factors, entry.0@) == 0,
        entry.1 != 0,
    ensures
        well_formed(factors.push(entry)),
        forall|name: Seq<char>|
            #[trigger] exponent_in(factors.push(entry), name) == if name == entry.0@ {
                entry.1 as int
            } else {
                exponent_in(factors, name)
            },
{
    let longer = factors.push(entry);
    lemma_unlisted(factors, entry.0@);
    assert(well_formed(longer)) by {
        assert forall|i: int, j: int| 0 <= i < j < longer.len() implies (#[trigger] longer[i]).0@
            != (#[trigger] longer[j]).0@ by {
            if j < factors.len() {
                assert(factors[i].0@ != factors[j].0@);
            } else {
                assert(factors[i].0@ != entry.0@);
            }
        }
        assert forall|i: int| 0 <= i < longer.len() implies (#[trigger] longer[i]).1 != 0 by {
            if i < factors.len() {
                assert(factors[i].1 != 0);
            }
        }
    }
    assert forall|name: Seq<char>|
        #[trigger] exponent_in(longer, name) == if name == entry.0@ {
            entry.1 as int
        } else {
            exponent_in(factors, name)
        } by {
        if name == entry.0@ {
            assert(longer[factors.len() as int] == entry);
            lemma_entry_exponent(longer, factors.len() as int);
        } else if exists|i: int| #[trigger] names_entry(factors, i, name) {
            let i = choose|i: int| #[trigger] names_entry(factors, i, name);
            assert(names_entry(factors, i, name));
            assert(longer[i] == factors[i]);
            lemma_entry_exponent(longer, i);
            lemma_entry_exponent(factors, i);
        } else {
            if exists|i: int| #[trigger] names_entry(longer, i, name) {
                let i = choose|i: int| #[trigger] names_entry(longer, i, name);
                assert(names_entry(longer, i, name));
                if i < factors.len() {
                    assert(longer[i] == factors[i]);
                    assert(names_entry(factors, i, name));
                }
            }
        }
    }
}

proof fn lemma_listed_exponent(factors: Seq<(Name, i64)>, name: Seq<char>)
    requires
        well_formed(factors),
    ensures
        listed(factors, factors.len() as int, name) <==> exponent_in(factors, name) != 0,
{
    if listed(factors, factors.len() as int, name) {
        let i = choose|i: int| i < factors.len() && #[trigger] names_entry(factors, i, name);
        lemma_entry_exponent(factors, i);
    }
    if exponent_in(factors, name) != 0 {
        let i = choose|i: int| #[trigger] names_entry(factors, i, name);
        assert(names_entry(factors, i, name));
    }
}

/// A physical unit: a product of named base units, each to a non-zero integer power.
#[derive(Debug)]
pub struct Unit {
    factors: Vec<(Name, i64)>,
}

impl View for Unit {
    type V = Map<Seq<char>, int>;

    closed spec fn view(&self) -> Map<Seq<char>, int> {
        factors_unit(self.factors@)
    }
}

impl Unit {
    /// The invariant of the representation: each base unit is listed once, with a non-zero
    /// exponent.
    #[verifier::type_invariant]
    pub closed spec fn wf(self) -> bool {
        well_formed(self.factors@)
    }

    /// A well-formed unit's mapping holds no entry with exponent 0.
    pub proof fn lemma_view_normal(self)
        ensures
            normal(self@),
    {
    }

    /// The dimensionless unit.
    pub fn new() -> (unit: Unit)
        ensures
            unit@ == dimensionless(),
            unit.wf(),
    {
        let unit = Unit { factors: Vec::new() };
        assert(unit@ =~= dimensionless());
        unit
    }

    /// The base unit `name`, to the first power.
    pub fn new_named(name: Name) -> (unit: Unit)
        ensures
            unit@ == base_unit(name@),
            unit.wf(),
    {
        let ghost text = name@;
        let mut factors: Vec<(Name, i64)> = Vec::new();
        proof {
            lemma_push(factors@, (name, 1i64));
        }
        factors.push((name, 1i64));
        let unit = Unit { factors };
        assert(unit@ =~= base_unit(text));
        unit
    }

    /// The exponent of the base unit `name`; 0 where the unit does not hold it.
    pub fn exponent(&self, name: &Name) -> (e: i64)
        ensures
            e == exponent_of(self@, name@),
    {
        proof {
            use_type_invariant(self);
        }
        let mut i: usize = 0;
        while i < self.factors.len()
            invariant
                i <= self.factors.len(),
                well_formed(self.factors@),
                !listed(self.factors@, i as int, name@),
            decreases self.factors.len() - i,
        {
            if self.factors[i].0 == *name {
                proof {
                    lemma_entry_exponent(self.factors@, i as int);
                }
                return self.factors[i].1;
            }
            assert forall|k: int| k < i + 1 implies !#[trigger] names_entry(
                self.factors@,
                k,
                name@,
            ) by {
                if k < i {
                    assert(!listed(self.factors@, i as int, name@));
                }
            }
            i += 1;
        }
        proof {
            lemma_listed_exponent(self.factors@, name@);
        }
        0
    }

    /// Whether the unit is the dimensionless one.
    pub fn is_dimensionless(&self) -> (b: bool)
        ensures
            b == (self@ == dimensionless()),
    {
        proof {
            use_type_invariant(self);
            if self.factors@.len() > 0 {
                lemma_entry_exponent(self.factors@, 0);
                assert(self@.dom().contains(self.factors@[0].0@));
            } else {
                assert(self@ =~= dimensionless());
            }
        }
        self.factors.len() == 0
    }

    /// Exponent-wise sum of two units, or difference when `negate` is set. `None` when an
    /// exponent of the result cannot be held.
    fn combine(&self, other: &Unit, negate: bool) -> (r: Option<Unit>)
        ensures
            r is Some <==> merged_fits(self@, other@, negate),
            r matches Some(unit) ==> unit@ == merged(self@, other@, negate) && unit.wf(),
    {
        proof {
            use_type_invariant(self);
            use_type_invariant(other);
        }
        let ghost a = self.factors@;
        let ghost b = other.factors@;
        let mut out: Vec<(Name, i64)> = Vec::new();
        let mut i: usize = 0;
        while i < self.factors.len()
            invariant
                i <= self.factors.len(),
                a == self.factors@,
                b == other.factors@,
                well_formed(a),
                well_formed(b),
                well_formed(out@),
                forall|name: Seq<char>|
                    #[trigger] exponent_in(out@, name) == if listed(a, i as int, name) {
                        merged_exponent(self@, other@, negate, name)
                    } else {
                        0
                    },
                forall|name: Seq<char>|
                    listed(a, i as int, name) ==> exponent_fits(
                        #[trigger] merged_exponent(self@, other@, negate, name),
                    ),
            decreases self.factors.len() - i,
        {
            let ghost before = out@;
            let ghost text = a[i as int].0@;
            let e = self.factors[i].1;
            let f = other.exponent(&self.factors[i].0);
            proof {
                lemma_entry_exponent(a, i as int);
                assert(merged_exponent(self@, other@, negate, text) == e + signed(f as int, negate));
                assert(!listed(a, i as int, text)) by {
                    if listed(a, i as int, text) {
                        let k = choose|k: int| k < i && #[trigger] names_entry(a, k, text);
                        assert(a[k].0@ != a[i as int].0@);
                    }
                }
                assert(exponent_in(before, text) == 0);
            }
            let total = if negate {
                e.checked_sub(f)
            } else {
                e.checked_add(f)
            };
            match total {
                None => {
                    assert(!exponent_fits(merged_exponent(self@, other@, negate, text)));
                    return None;
                },
                Some(t) => {
                    if t != 0 {
                        let entry = (self.factors[i].0.clone(), t);
                        proof {
                            lemma_push(before, entry);
                        }
                        out.push(entry);
                    }
                },
            }
            proof {
                assert forall|name: Seq<char>| listed(a, i + 1, name) <==> (listed(a, i as int, name)
                    || name == text) by {
                    if listed(a, i + 1, name) {
                        let k = choose|k: int| k < i + 1 && #[trigger] names_entry(a, k, name);
                        if k < i {
                            assert(listed(a, i as int, name));
                        }
                    }
                    if listed(a, i as int, name) {
                        let k = choose|k: int| k < i && #[trigger] names_entry(a, k, name);
                        assert(k < i + 1 && names_entry(a, k, name));
                    }
                    if name == text {
                        assert(names_entry(a, i as int, name));
                    }
                }
            }
            i += 1;
        }
        let mut j: usize = 0;
        while j < other.factors.len()
            invariant
                j <= other.factors.len(),
                i == self.factors.len(),
                a == self.factors@,
                b == other.factors@,
                well_formed(a),
                well_formed(b),
                well_formed(out@),
                forall|name: Seq<char>|
                    #[trigger] exponent_in(out@, name) == if listed(a, a.len() as int, name)
                        || listed(b, j as int, name) {
                        merged_exponent(self@, other@, negate, name)
                    } else {
                        0
                    },
                forall|name: Seq<char>|
                    listed(a, a.len() as int, name) || listed(b, j as int, name) ==> exponent_fits(
                        #[trigger] merged_exponent(self@, other@, negate, name),
                    ),
            decreases other.factors.len() - j,
        {
            let ghost before = out@;
            let ghost text = b[j as int].0@;
            let f = other.factors[j].1;
            let e = self.exponent(&other.factors[j].0);
            proof {
                lemma_entry_exponent(b, j as int);
                lemma_listed_exponent(a, text);
                assert(merged_exponent(self@, other@, negate, text) == e + signed(f as int, negate));
                assert(!listed(b, j as int, text)) by {
                    if listed(b, j as int, text) {
                        let k = choose|k: int| k < j && #[trigger] names_entry(b, k, text);
                        assert(b[k].0@ != b[j as int].0@);
                    }
                }
            }
            if e == 0 {
                let total = if !negate {
                    Some(f)
                } else if f == i64::MIN {
                    None
                } else {
                    Some(-f)
                };
                match total {
                    None => {
                        assert(!exponent_fits(merged_exponent(self@, other@, negate, text)));
                        return None;
                    },
                    Some(t) => {
                        let entry = (other.factors[j].0.clone(), t);
                        proof {
                            lemma_push(before, entry);
                        }
                        out.push(entry);
                    },
                }
            }
            proof {
                assert forall|name: Seq<char>| listed(b, j + 1, name) <==> (listed(b, j as int, name)
                    || name == text) by {
                    if listed(b, j + 1, name) {
                        let k = choose|k: int| k < j + 1 && #[trigger] names_entry(b, k, name);
                        if k < j {
                            assert(listed(b, j as int, name));
                        }
                    }
                    if listed(b, j as int, name) {
                        let k = choose|k: int| k < j && #[trigger] names_entry(b, k, name);
                        assert(k < j + 1 && names_entry(b, k, name));
                    }
                    if name == text {
                        assert(names_entry(b, j as int, name));
                    }
                }
            }
            j += 1;
        }
        let unit = Unit { factors: out };
        proof {
            assert forall|name: Seq<char>| #[trigger] exponent_in(out@, name) == merged_exponent(
                self@,
                other@,
                negate,
                name,
            ) && exponent_fits(merged_exponent(self@, other@, negate, name)) by {
                lemma_listed_exponent(a, name);
                lemma_listed_exponent(b, name);
            }
            assert(unit@ =~= merged(self@, other@, negate));
        }
        Some(unit)
    }

    /// The product of two units, where every exponent of it can be held.
    pub fn checked_multiply(&self, other: &Unit) -> (r: Option<Unit>)
        ensures
            r is Some <==> merged_fits(self@, other@, false),
            r matches Some(unit) ==> unit@ == unit_product(self@, other@) && unit.wf(),
    {
        self.combine(other, false)
    }

    /// The quotient of two units, where every exponent of it can be held.
    pub fn checked_divide(&self, other: &Unit) -> (r: Option<Unit>)
        ensures
            r is Some <==> merged_fits(self@, other@, true),
            r matches Some(unit) ==> unit@ == unit_quotient(self@, other@) && unit.wf(),
    {
        self.combine(other, true)
    }

    /// The unit to the integer power `n`, where every exponent of it can be held.
    pub fn checked_pow(&self, n: i64) -> (r: Option<Unit>)
        ensures
            r is Some <==> power_fits(self@, n as int),
            r matches Some(unit) ==> unit@ == unit_power(self@, n as int) && unit.wf(),
    {
        proof {
            use_type_invariant(self);
        }
        let ghost a = self.factors@;
        let mut out: Vec<(Name, i64)> = Vec::new();
        if n == 0 {
            let unit = Unit { factors: out };
            proof {
                assert forall|name: Seq<char>| exponent_fits(
                    #[trigger] exponent_of(self@, name) * (n as int),
                ) by {
                    assert(exponent_of(self@, name) * 0 == 0);
                }
                assert(unit@ =~= unit_power(self@, n as int));
            }
            return Some(unit);
        }
        let mut i: usize = 0;
        while i < self.factors.len()
            invariant
                i <= self.factors.len(),
                n != 0,
                a == self.factors@,
                well_formed(a),
                well_formed(out@),
                forall|name: Seq<char>|
                    #[trigger] exponent_in(out@, name) == if listed(a, i as int, name) {
                        exponent_in(a, name) * n
                    } else {
                        0
                    },
                forall|name: Seq<char>|
                    listed(a, i as int, name) ==> exponent_fits(
                        #[trigger] exponent_of(self@, name) * (n as int),
                    ),
            decreases self.factors.len() - i,
        {
            let ghost before = out@;
            let ghost text = a[i as int].0@;
            let e = self.factors[i].1;
            proof {
                lemma_entry_exponent(a, i as int);
                assert(!listed(a, i as int, text)) by {
                    if listed(a, i as int, text) {
                        let k = choose|k: int| k < i && #[trigger] names_entry(a, k, text);
                        assert(a[k].0@ != a[i as int].0@);
                    }
                }
                assert(exponent_in(before, text) == 0);
            }
            match e.checked_mul(n) {
                None => {
                    assert(!exponent_fits(exponent_of(self@, text) * (n as int)));
                    return None;
                },
                Some(t) => {
                    assert(t != 0) by (nonlinear_arith)
                        requires
                            t == e * n,
                            e != 0,
                            n != 0,
                    ;
                    let entry = (self.factors[i].0.clone(), t);
                    proof {
                        lemma_push(before, entry);
                    }
                    out.push(entry);
                },
            }
            proof {
                assert forall|name: Seq<char>| listed(a, i + 1, name) <==> (listed(a, i as int, name)
                    || name == text) by {
                    if listed(a, i + 1, name) {
                        let k = choose|k: int| k < i + 1 && #[trigger] names_entry(a, k, name);
                        if k < i {
                            assert(listed(a, i as int, name));
                        }
                    }
                    if listed(a, i as int, name) {
                        let k = choose|k: int| k < i && #[trigger] names_entry(a, k, name);
                        assert(k < i + 1 && names_entry(a, k, name));
                    }
                    if name == text {
                        assert(names_entry(a, i as int, name));
                    }
                }
            }
            i += 1;
        }
        let unit = Unit { factors: out };
        proof {
            assert forall|name: Seq<char>| #[trigger] exponent_in(out@, name) == exponent_of(
                self@,
                name,
            ) * (n as int) && exponent_fits(exponent_of(self@, name) * (n as int)) by {
                lemma_listed_exponent(a, name);
                if !listed(a, a.len() as int, name) {
                    assert(exponent_of(self@, name) * (n as int) == 0) by (nonlinear_arith)
                        requires
                            exponent_of(self@, name) == 0,
                    ;
                }
            }
            assert(unit@ =~= unit_power(self@, n as int));
        }
        Some(unit)
    }

    /// The product of two units.
    pub fn multiply(&self, other: &Unit) -> (unit: Unit)
        requires
            merged_fits(self@, other@, false),
        ensures
            unit@ == unit_product(self@, other@),
            unit.wf(),
    {
        match self.checked_multiply(other) {
            Some(unit) => unit,
            None => vstd::pervasive::unreached(),
        }
    }

    /// The quotient of two units.
    pub fn divide(&self, other: &Unit) -> (unit: Unit)
        requires
            merged_fits(self@, other@, true),
        ensures
            unit@ == unit_quotient(self@, other@),
            unit.wf(),
    {
        match self.checked_divide(other) {
            Some(unit) => unit,
            None => vstd::pervasive::unreached(),
        }
    }

    /// The unit to the integer power `n`; the power 0 of any unit is dimensionless.
    pub fn pow(&self, n: i64) -> (unit: Unit)
        requires
            power_fits(self@, n as int),
        ensures
            unit@ == unit_power(self@, n as int),
            unit.wf(),
    {
        match self.checked_pow(n) {
            Some(unit) => unit,
            None => vstd::pervasive::unreached(),
        }
    }

    /// Whether every factor of `self` has the same exponent in `other`.
    fn within(&self, other: &Unit) -> (b: bool)
        ensures
            b == (forall|name: Seq<char>|
                self@.dom().contains(name) ==> #[trigger] exponent_of(other@, name) == self@[name]),
    {
        proof {
            use_type_invariant(self);
            use_type_invariant(other);
        }
        let ghost a = self.factors@;
        let mut i: usize = 0;
        while i < self.factors.len()
            invariant
                i <= self.factors.len(),
                a == self.factors@,
                well_formed(a),
                forall|name: Seq<char>|
                    listed(a, i as int, name) ==> #[trigger] exponent_of(other@, name)
                        == exponent_in(a, name),
            decreases self.factors.len() - i,
        {
            let ghost text = a[i as int].0@;
            let f = other.exponent(&self.factors[i].0);
            proof {
                lemma_entry_exponent(a, i as int);
            }
            if f != self.factors[i].1 {
                assert(self@.dom().contains(text));
                return false;
            }
            proof {
                assert forall|name: Seq<char>| listed(a, i + 1, name) implies #[trigger] exponent_of(
                    other@,
                    name,
                ) == exponent_in(a, name) by {
                    let k = choose|k: int| k < i + 1 && #[trigger] names_entry(a, k, name);
                    if k < i {
                        assert(listed(a, i as int, name));
                    }
                }
            }
            i += 1;
        }
        proof {
            assert forall|name: Seq<char>| self@.dom().contains(name) implies #[trigger] exponent_of(
                other@,
                name,
            ) == self@[name] by {
                lemma_listed_exponent(a, name);
            }
        }
        true
    }

    /// Whether two units are the same: whether they give every base unit the same exponent.
    pub fn same_as(&self, other: &Unit) -> (b: bool)
        ensures
            b == (self@ == other@),
    {
        let forth = self.within(other);
        let back = other.within(self);
        proof {
            use_type_invariant(self);
            use_type_invariant(other);
            if forth && back {
                assert forall|name: Seq<char>| self@.dom().contains(name) == other@.dom().contains(
                    name,
                ) by {
                    if self@.dom().contains(name) {
                        assert(exponent_of(other@, name) == self@[name]);
                    }
                    if other@.dom().contains(name) {
                        assert(exponent_of(self@, name) == other@[name]);
                    }
                }
                assert forall|name: Seq<char>| self@.dom().contains(name) implies self@[name]
                    == other@[name] by {
                    assert(exponent_of(other@, name) == self@[name]);
                }
                assert(self@ =~= other@);
            }
        }
        forth && back
    }
}

impl Unit {
    /// The base units of the unit with their exponents, each listed once, none with the
    /// exponent 0.
    pub fn factors(&self) -> (list: Vec<(Name, i64)>)
        ensures
            well_formed(list@),
            factors_unit(list@) == self@,
    {
        proof {
            use_type_invariant(self);
        }
        let mut out: Vec<(Name, i64)> = Vec::new();
        let mut i: usize = 0;
        while i < self.factors.len()
            invariant
                i <= self.factors.len(),
                out@.len() == i,
                forall|k: int| 0 <= k < i ==> (#[trigger] out@[k]).0@ == self.factors@[k].0@,
                forall|k: int| 0 <= k < i ==> (#[trigger] out@[k]).1 == self.factors@[k].1,
            decreases self.factors.len() - i,
        {
            out.push((self.factors[i].0.clone(), self.factors[i].1));
            i += 1;
        }
        proof {
            lemma_same_factors(self.factors@, out@);
        }
        out
    }
}

impl Clone for Unit {
    fn clone(&self) -> (unit: Unit)
        ensures
            unit@ == self@,
            unit.wf(),
    {
        Unit { factors: self.factors() }
    }
}

proof fn lemma_same_factors(a: Seq<(Name, i64)>, b: Seq<(Name, i64)>)
    requires
        well_formed(a),
        a.len() == b.len(),
        forall|k: int| 0 <= k < a.len() ==> (#[trigger] b[k]).0@ == a[k].0@,
        forall|k: int| 0 <= k < a.len() ==> (#[trigger] b[k]).1 == a[k].1,
    ensures
        well_formed(b),
        factors_unit(b) == factors_unit(a),
{
    assert(well_formed(b)) by {
        assert forall|i: int, j: int| 0 <= i < j < b.len() implies (#[trigger] b[i]).0@ != (
        #[trigger] b[j]).0@ by {
            assert(a[i].0@ != a[j].0@);
        }
        assert forall|i: int| 0 <= i < b.len() implies (#[trigger] b[i]).1 != 0 by {
            assert(a[i].1 != 0);
        }
    }
    assert forall|name: Seq<char>| exponent_in(a, name) == exponent_in(b, name) by {
        if exists|i: int| #[trigger] names_entry(a, i, name) {
            let i = choose|i: int| #[trigger] names_entry(a, i, name);
            assert(names_entry(a, i, name));
            assert(b[i].0@ == a[i].0@);
            assert(names_entry(b, i, name));
            lemma_entry_exponent(a, i);
            lemma_entry_exponent(b, i);
        } else if exists|i: int| #[trigger] names_entry(b, i, name) {
            let i = choose|i: int| #[trigger] names_entry(b, i, name);
            assert(names_entry(b, i, name));
            assert(b[i].0@ == a[i].0@);
            assert(names_entry(a, i, name));
        }
    }
    assert(factors_unit(b) =~= factors_unit(a));
}

/// Dividing a product by one of its factors gives back the other factor.
pub proof fn law_divide_undoes_multiply(a: Map<Seq<char>, int>, b: Map<Seq<char>, int>)
    requires
        normal(a),
    ensures
        unit_quotient(unit_product(a, b), b) == a,
{
    let p = unit_product(a, b);
    let q = unit_quotient(p, b);
    assert forall|name: Seq<char>| #[trigger] merged_exponent(p, b, true, name) == exponent_of(
        a,
        name,
    ) by {
        assert(exponent_of(p, name) == merged_exponent(a, b, false, name));
    }
    assert forall|name: Seq<char>| q.dom().contains(name) == a.dom().contains(name) by {
        assert(merged_exponent(p, b, true, name) == exponent_of(a, name));
        if a.dom().contains(name) {
            assert(a[name] != 0);
        }
    }
    assert forall|name: Seq<char>| q.dom().contains(name) implies q[name] == a[name] by {
        assert(merged_exponent(p, b, true, name) == exponent_of(a, name));
    }
    assert(q =~= a);
}

/// Of units as they are held: dividing a product by one of its factors gives back the
/// other factor.
pub proof fn law_units_divide_undoes_multiply(a: Unit, b: Unit)
    ensures
        unit_quotient(unit_product(a@, b@), b@) == a@,
{
    a.lemma_view_normal();
    law_divide_undoes_multiply(a@, b@);
}

/// Multiplying a unit by the quotient of a second unit and itself need not give the second
/// unit in this order of arguments: `a * (a / b)` is `a` squared over `b`. Where `a` is
/// dimensionless it is the inverse of `b`, which differs from `b` unless `b` is dimensionless too.
pub proof fn law_multiply_by_quotient(a: Map<Seq<char>, int>, b: Map<Seq<char>, int>)
    requires
        normal(b),
    ensures
        forall|name: Seq<char>|
            exponent_of(#[trigger] unit_product(a, unit_quotient(a, b)), name) == 2 * exponent_of(
                a,
                name,
            ) - exponent_of(b, name),
        a == dimensionless() && b != dimensionless() ==> unit_product(a, unit_quotient(a, b)) != b,
{
    let q = unit_quotient(a, b);
    let p = unit_product(a, q);
    assert forall|name: Seq<char>| exponent_of(p, name) == 2 * exponent_of(a, name) - exponent_of(
        b,
        name,
    ) by {
        assert(exponent_of(q, name) == merged_exponent(a, b, true, name));
        assert(exponent_of(p, name) == merged_exponent(a, q, false, name));
    }
    if a == dimensionless() && b != dimensionless() {
        if b.dom() =~= Set::<Seq<char>>::empty() {
            assert(b =~= dimensionless());
        }
        let name = choose|name: Seq<char>| b.dom().contains(name);
        assert(b[name] != 0);
        assert(exponent_of(p, name) == -exponent_of(b, name));
    }
}

/// Any unit to the power 0 is dimensionless.
pub proof fn law_power_zero(a: Map<Seq<char>, int>)
    ensures
        unit_power(a, 0) == dimensionless(),
{
    assert forall|name: Seq<char>| !unit_power(a, 0).dom().contains(name) by {
        assert(exponent_of(a, name) * 0 == 0);
    }
    assert(unit_power(a, 0) =~= dimensionless());
}

} // verus!
