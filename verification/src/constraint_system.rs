//! The registry of columns and selectors, and the gates declared over them.

use vstd::prelude::*;
use crate::columns::{Column, ColumnKind, Rotation, Selector};
use crate::error::Error;
use crate::expression::{Expr, SelectorUse};
use crate::field::Field;

verus! {

/// Whether one of the polynomials queries `selector`.
pub open spec fn polys_mention<F: Field>(polys: Seq<Expr<F>>, selector: Selector) -> bool {
    exists|i: int| 0 <= i < polys.len() && #[trigger] polys[i].mentions(selector)
}

/// Whether the polynomials query `selector` and no other selector.
pub open spec fn guarded_by<F: Field>(polys: Seq<Expr<F>>, selector: Selector) -> bool {
    &&& polys_mention(polys, selector)
    &&& forall|other: Selector| #[trigger] polys_mention(polys, other) ==> other == selector
}

/// Whether every polynomial queries only columns and selectors within the
/// given counts.
pub open spec fn polys_within<F: Field>(
    polys: Seq<Expr<F>>,
    advice_columns: nat,
    selectors: nat,
) -> bool {
    forall|i: int| 0 <= i < polys.len() ==> (#[trigger] polys[i]).within(advice_columns, selectors)
}

/// A gate, as mathematics.
pub struct GateView<F: Field> {
    /// Its name.
    pub name: Seq<char>,
    /// The selector that switches it on.
    pub selector: Selector,
    /// The polynomials that must vanish where it is on.
    pub polys: Seq<Expr<F>>,
}

impl<F: Field> GateView<F> {
    /// A gate of the given name and polynomials, switched by the one
    /// selector that they query.
    pub open spec fn of(name: Seq<char>, polys: Seq<Expr<F>>) -> GateView<F> {
        GateView { name, selector: choose|s: Selector| guarded_by(polys, s), polys }
    }

    /// This gate queries its own selector and no other, and only columns and
    /// selectors within the given counts.
    pub open spec fn well_formed(self, advice_columns: nat, selectors: nat) -> bool {
        &&& guarded_by(self.polys, self.selector)
        &&& polys_within(self.polys, advice_columns, selectors)
    }
}

/// A gate has one guard at most: two selectors that each guard it are the
/// same.
pub proof fn lemma_guard_is_unique<F: Field>(polys: Seq<Expr<F>>, a: Selector, b: Selector)
    requires
        guarded_by(polys, a),
        guarded_by(polys, b),
    ensures
        a == b,
{
}

/// A named set of polynomials that must all evaluate to zero at every row
/// where its selector is on.
#[derive(Debug)]
pub struct Gate<F: Field> {
    name: &'static str,
    selector: Selector,
    polys: Vec<Expr<F>>,
}

impl<F: Field> View for Gate<F> {
    type V = GateView<F>;

    closed spec fn view(&self) -> GateView<F> {
        GateView { name: self.name@, selector: self.selector, polys: self.polys@ }
    }
}

impl<F: Field> Gate<F> {
    /// Its name.
    pub fn name(&self) -> (r: &'static str)
        ensures
            r@ == self@.name,
    {
        self.name
    }

    /// The selector that switches it on.
    pub fn selector(&self) -> (r: Selector)
        ensures
            r == self@.selector,
    {
        self.selector
    }

    /// Its polynomials.
    pub fn polys(&self) -> (r: &Vec<Expr<F>>)
        ensures
            r@ == self@.polys,
    {
        &self.polys
    }
}

/// What a [`ConstraintSystem`] holds, as mathematics.
pub struct SystemView<F: Field> {
    /// How many advice columns were handed out.
    pub advice_columns: nat,
    /// How many selectors were handed out.
    pub selectors: nat,
    /// The gates, in the order in which they were declared.
    pub gates: Seq<GateView<F>>,
}

impl<F: Field> SystemView<F> {
    /// A system with no column, no selector and no gate.
    pub open spec fn empty() -> Self {
        SystemView { advice_columns: 0, selectors: 0, gates: Seq::empty() }
    }

    /// Every gate is well formed over the system's columns and selectors.
    pub open spec fn well_formed(self) -> bool {
        forall|g: int|
            0 <= g < self.gates.len() ==> (#[trigger] self.gates[g]).well_formed(
                self.advice_columns,
                self.selectors,
            )
    }

    /// The advice column that the next allocation hands out.
    pub open spec fn next_advice_column(self) -> Column {
        Column { index: self.advice_columns as usize, kind: ColumnKind::Advice }
    }

    /// The selector that the next allocation hands out.
    pub open spec fn next_selector(self) -> Selector {
        Selector { index: self.selectors as usize }
    }

    /// The system after one more advice column was handed out.
    pub open spec fn with_advice_column(self) -> Self {
        SystemView { advice_columns: self.advice_columns + 1, ..self }
    }

    /// The system after one more selector was handed out.
    pub open spec fn with_selector(self) -> Self {
        SystemView { selectors: self.selectors + 1, ..self }
    }

    /// The system after one more gate was declared.
    pub open spec fn with_gate(self, gate: GateView<F>) -> Self {
        SystemView { gates: self.gates.push(gate), ..self }
    }
}

/// A system stays well formed when a column or a selector is handed out, and
/// when a gate is declared whose polynomials query one selector and stay
/// within the system's columns and selectors.
pub proof fn lemma_well_formed_is_kept<F: Field>(
    system: SystemView<F>,
    name: Seq<char>,
    polys: Seq<Expr<F>>,
)
    requires
        system.well_formed(),
    ensures
        system.with_advice_column().well_formed(),
        system.with_selector().well_formed(),
        (exists|s: Selector| guarded_by(polys, s)) && polys_within(
            polys,
            system.advice_columns,
            system.selectors,
        ) ==> system.with_gate(GateView::of(name, polys)).well_formed(),
{
    assert forall|g: int, i: int|
        0 <= g < system.gates.len() && 0 <= i < system.gates[g].polys.len() implies {
            let poly = #[trigger] system.gates[g].polys[i];
            &&& poly.within(system.advice_columns + 1, system.selectors)
            &&& poly.within(system.advice_columns, system.selectors + 1)
        } by {
        let gate = system.gates[g];
        assert(gate.well_formed(system.advice_columns, system.selectors));
        gate.polys[i].lemma_within_grows(
            system.advice_columns,
            system.selectors,
            system.advice_columns + 1,
            system.selectors,
        );
        gate.polys[i].lemma_within_grows(
            system.advice_columns,
            system.selectors,
            system.advice_columns,
            system.selectors + 1,
        );
    }
    let wider = system.with_advice_column();
    assert forall|g: int| 0 <= g < wider.gates.len() implies (#[trigger] wider.gates[g]).well_formed(
        wider.advice_columns,
        wider.selectors,
    ) by {
        assert(system.gates[g].well_formed(system.advice_columns, system.selectors));
    }
    let richer = system.with_selector();
    assert forall|g: int| 0 <= g < richer.gates.len() implies (#[trigger] richer.gates[g]).well_formed(
        richer.advice_columns,
        richer.selectors,
    ) by {
        assert(system.gates[g].well_formed(system.advice_columns, system.selectors));
    }
    if (exists|s: Selector| guarded_by(polys, s)) && polys_within(
        polys,
        system.advice_columns,
        system.selectors,
    ) {
        let more = system.with_gate(GateView::of(name, polys));
        assert forall|g: int| 0 <= g < more.gates.len() implies (#[trigger] more.gates[g]).well_formed(
            more.advice_columns,
            more.selectors,
        ) by {
            if g < system.gates.len() {
                assert(more.gates[g] == system.gates[g]);
                assert(system.gates[g].well_formed(system.advice_columns, system.selectors));
            }
        }
    }
}

/// Handles are fresh: a column handed out later differs from every column
/// handed out before, and so does a selector.
pub proof fn lemma_handles_are_fresh<F: Field>(earlier: SystemView<F>, later: SystemView<F>)
    requires
        later.advice_columns <= usize::MAX,
        later.selectors <= usize::MAX,
    ensures
        earlier.advice_columns < later.advice_columns ==> earlier.next_advice_column()
            != later.next_advice_column(),
        earlier.selectors < later.selectors ==> earlier.next_selector() != later.next_selector(),
{
}

/// Finds the one selector that the polynomials of a gate query, if they
/// query exactly one.
pub fn guarding_selector<F: Field>(polys: &Vec<Expr<F>>) -> (r: Option<Selector>)
    ensures
        match r {
            Some(s) => guarded_by(polys@, s),
            None => forall|s: Selector| !guarded_by(polys@, s),
        },
{
    let mut found = SelectorUse::Absent;
    let mut i: usize = 0;
    while i < polys.len()
        invariant
            i <= polys.len(),
            found.describes(|s: Selector| polys_mention(polys@.take(i as int), s)),
        decreases polys.len() - i,
    {
        let here = polys[i].selector_use();
        proof {
            let before = polys@.take(i as int);
            let after = polys@.take(i + 1);
            let whole = |s: Selector| polys_mention(after, s);
            let left = |s: Selector| polys_mention(before, s);
            let right = |s: Selector| polys@[i as int].mentions(s);
            assert forall|s: Selector| #[trigger] whole(s) == (left(s) || right(s)) by {
                if polys_mention(after, s) {
                    let j = choose|j: int| 0 <= j < after.len() && #[trigger] after[j].mentions(s);
                    if j < i {
                        assert(before[j].mentions(s));
                    }
                }
                if polys_mention(before, s) {
                    let j = choose|j: int|
                        0 <= j < before.len() && #[trigger] before[j].mentions(s);
                    assert(after[j].mentions(s));
                }
                if polys@[i as int].mentions(s) {
                    assert(after[i as int].mentions(s));
                }
            }
            SelectorUse::lemma_merged(whole, left, right, found, here);
        }
        found = found.merge(here);
        i += 1;
    }
    proof {
        assert(polys@.take(i as int) =~= polys@);
        let mentioned = |s: Selector| polys_mention(polys@, s);
        assert(found.describes(mentioned));
        match found {
            SelectorUse::Single(s) => {
                assert(mentioned(s));
                assert forall|t: Selector| #[trigger] polys_mention(polys@, t) implies t == s by {
                    assert(mentioned(t));
                }
            },
            SelectorUse::Absent => {
                assert forall|s: Selector| !guarded_by(polys@, s) by {
                    assert(!mentioned(s));
                }
            },
            SelectorUse::Mixed => {
                let (a, b) = choose|a: Selector, b: Selector|
                    a != b && #[trigger] mentioned(a) && #[trigger] mentioned(b);
                assert(polys_mention(polys@, a) && polys_mention(polys@, b));
            },
        }
    }
    match found {
        SelectorUse::Single(s) => Some(s),
        _ => None,
    }
}

/// Whether every polynomial queries only columns and selectors within the
/// given counts.
pub fn all_within<F: Field>(polys: &Vec<Expr<F>>, advice_columns: usize, selectors: usize) -> (r:
    bool)
    ensures
        r == polys_within(polys@, advice_columns as nat, selectors as nat),
{
    let mut i: usize = 0;
    while i < polys.len()
        invariant
            i <= polys.len(),
            forall|j: int|
                0 <= j < i ==> (#[trigger] polys@[j]).within(
                    advice_columns as nat,
                    selectors as nat,
                ),
        decreases polys.len() - i,
    {
        if !polys[i].is_within(advice_columns, selectors) {
            return false;
        }
        i += 1;
    }
    true
}

/// The columns and selectors of a circuit, and the gates over them.
///
/// Columns, selectors and gates are added while the circuit is configured;
/// synthesis and checking only read the system.
#[derive(Debug)]
pub struct ConstraintSystem<F: Field> {
    advice_columns: usize,
    selectors: usize,
    gates: Vec<Gate<F>>,
}

impl<F: Field> View for ConstraintSystem<F> {
    type V = SystemView<F>;

    closed spec fn view(&self) -> SystemView<F> {
        SystemView {
            advice_columns: self.advice_columns as nat,
            selectors: self.selectors as nat,
            gates: Seq::new(self.gates@.len(), |g: int| self.gates@[g]@),
        }
    }
}

impl<F: Field> ConstraintSystem<F> {
    /// A system with no column, no selector and no gate.
    pub fn new() -> (r: Self)
        ensures
            r@ == SystemView::<F>::empty(),
            r@.well_formed(),
    {
        let r = ConstraintSystem { advice_columns: 0, selectors: 0, gates: Vec::new() };
        proof {
            assert(r@.gates =~= SystemView::<F>::empty().gates);
        }
        r
    }

    /// Hands out a fresh advice column: the next in order, which no earlier
    /// call returned.
    pub fn allocate_advice_column(&mut self) -> (r: Column)
        requires
            old(self)@.advice_columns < usize::MAX,
        ensures
            r == old(self)@.next_advice_column(),
            final(self)@ == old(self)@.with_advice_column(),
            old(self)@.well_formed() ==> final(self)@.well_formed(),
    {
        let index = self.advice_columns;
        self.advice_columns = index + 1;
        proof {
            assert(self@.gates =~= old(self)@.gates);
            if old(self)@.well_formed() {
                lemma_well_formed_is_kept(old(self)@, Seq::empty(), Seq::empty());
            }
        }
        Column { index, kind: ColumnKind::Advice }
    }

    /// Hands out a fresh selector: the next in order, which no earlier call
    /// returned.
    pub fn allocate_selector(&mut self) -> (r: Selector)
        requires
            old(self)@.selectors < usize::MAX,
        ensures
            r == old(self)@.next_selector(),
            final(self)@ == old(self)@.with_selector(),
            old(self)@.well_formed() ==> final(self)@.well_formed(),
    {
        let index = self.selectors;
        self.selectors = index + 1;
        proof {
            assert(self@.gates =~= old(self)@.gates);
            if old(self)@.well_formed() {
                lemma_well_formed_is_kept(old(self)@, Seq::empty(), Seq::empty());
            }
        }
        Selector { index }
    }

    /// The expression that reads `column`, `rotation` rows from the row at
    /// which a gate is evaluated.
    pub fn query_advice(&self, column: Column, rotation: Rotation) -> (r: Expr<F>)
        ensures
            r == (Expr::<F>::AdviceQuery { column, rotation }),
    {
        Expr::AdviceQuery { column, rotation }
    }

    /// The expression that is one where `selector` is on and zero where it
    /// is off.
    pub fn query_selector(&self, selector: Selector) -> (r: Expr<F>)
        ensures
            r == (Expr::<F>::SelectorQuery { selector }),
    {
        Expr::SelectorQuery { selector }
    }

    /// Declares a gate: polynomials that must all be zero at each row where
    /// the one selector that they query is on.
    ///
    /// Fails with `ColumnNotFound`, and leaves the system as it was, where a
    /// polynomial queries a column or selector that this system did not hand
    /// out.
    pub fn create_gate(&mut self, name: &'static str, polys: Vec<Expr<F>>) -> (r: Result<
        (),
        Error,
    >)
        requires
            exists|s: Selector| guarded_by(polys@, s),
        ensures
            old(self)@.well_formed() ==> final(self)@.well_formed(),
            match r {
                Ok(()) => polys_within(
                    polys@,
                    old(self)@.advice_columns,
                    old(self)@.selectors,
                ) && final(self)@ == old(self)@.with_gate(GateView::of(name@, polys@)),
                Err(e) => e == Error::ColumnNotFound && !polys_within(
                    polys@,
                    old(self)@.advice_columns,
                    old(self)@.selectors,
                ) && *final(self) == *old(self),
            },
    {
        if !all_within(&polys, self.advice_columns, self.selectors) {
            return Err(Error::ColumnNotFound);
        }
        let guard = guarding_selector(&polys);
        assert(guard is Some);
        let selector = guard.unwrap();
        proof {
            lemma_guard_is_unique(polys@, selector, GateView::of(name@, polys@).selector);
        }
        self.gates.push(Gate { name, selector, polys });
        proof {
            assert(self@.gates =~= old(self)@.with_gate(GateView::of(name@, polys@)).gates);
            if old(self)@.well_formed() {
                lemma_well_formed_is_kept(old(self)@, name@, polys@);
            }
        }
        Ok(())
    }

    /// The number of advice columns handed out.
    pub fn num_advice_columns(&self) -> (r: usize)
        ensures
            r == self@.advice_columns,
    {
        self.advice_columns
    }

    /// The number of selectors handed out.
    pub fn num_selectors(&self) -> (r: usize)
        ensures
            r == self@.selectors,
    {
        self.selectors
    }

    /// The number of gates declared.
    pub fn num_gates(&self) -> (r: usize)
        ensures
            r == self@.gates.len(),
    {
        self.gates.len()
    }

    /// The `g`-th gate, if there are that many.
    pub fn gate(&self, g: usize) -> (r: Option<&Gate<F>>)
        ensures
            match r {
                Some(gate) => g < self@.gates.len() && gate@ == self@.gates[g as int],
                None => g >= self@.gates.len(),
            },
    {
        if g < self.gates.len() {
            Some(&self.gates[g])
        } else {
            None
        }
    }
}

} // verus!
