//! The addition circuit: one gate, `sel_add * (input_a + input_b - result)`.

use vstd::prelude::*;
use vstd::arithmetic::div_mod::{lemma_fundamental_div_mod_converse, lemma_small_mod};
use vstd::arithmetic::power2::{lemma_pow2_pos, pow2};
use crate::assignment::{Grid, RegionSpan};
use crate::checker::{
    lemma_constraint_fails_once,
    lemma_constraint_passes,
    lemma_single_constraint,
    verdict,
    violations,
    Violation,
};
use crate::columns::{Column, ColumnKind, Rotation, Selector};
use crate::constraint_system::{
    guarded_by,
    lemma_guard_is_unique,
    polys_mention,
    polys_within,
    ConstraintSystem,
    GateView,
    SystemView,
};
use crate::error::Error;
use crate::expression::Expr;
use crate::field::{add_mod, mul_mod, sub_mod, Field};
use crate::layouter::Layouter;
use crate::value::{add_known, Value};

verus! {

/// The two private inputs of an addition.
pub struct CalculatorCircuit<F: Field> {
    pub a: Value<F>,
    pub b: Value<F>,
}

/// The columns and the selector of the addition gate.
#[derive(Clone, Copy, Debug)]
pub struct AddConfig {
    /// Advice column for the first input.
    pub input_a: Column,
    /// Advice column for the second input.
    pub input_b: Column,
    /// Advice column for the sum.
    pub result: Column,
    /// The selector of the addition gate.
    pub sel_add: Selector,
}

impl AddConfig {
    /// The configuration that [`CalculatorCircuit::configure`] returns on a
    /// system: the next three advice columns and the next selector.
    pub open spec fn after<F: Field>(system: SystemView<F>) -> AddConfig {
        AddConfig {
            input_a: Column { index: system.advice_columns as usize, kind: ColumnKind::Advice },
            input_b: Column {
                index: (system.advice_columns + 1) as usize,
                kind: ColumnKind::Advice,
            },
            result: Column {
                index: (system.advice_columns + 2) as usize,
                kind: ColumnKind::Advice,
            },
            sel_add: Selector { index: system.selectors as usize },
        }
    }

    /// The polynomial of the addition gate:
    /// `sel_add * (input_a + input_b - result)`, all on one row.
    pub open spec fn poly<F: Field>(self) -> Expr<F> {
        Expr::Mul(
            Box::new(Expr::SelectorQuery { selector: self.sel_add }),
            Box::new(
                Expr::Sub(
                    Box::new(
                        Expr::Add(
                            Box::new(
                                Expr::AdviceQuery { column: self.input_a, rotation: Rotation(0) },
                            ),
                            Box::new(
                                Expr::AdviceQuery { column: self.input_b, rotation: Rotation(0) },
                            ),
                        ),
                    ),
                    Box::new(Expr::AdviceQuery { column: self.result, rotation: Rotation(0) }),
                ),
            ),
        )
    }

    /// The addition gate.
    pub open spec fn gate<F: Field>(self) -> GateView<F> {
        GateView { name: "addition"@, selector: self.sel_add, polys: seq![self.poly()] }
    }

    /// Whether a grid has the three columns and the selector.
    pub open spec fn fits(self, grid: Grid) -> bool {
        &&& grid.has_selector(self.sel_add)
        &&& grid.has_column(self.input_a)
        &&& grid.has_column(self.input_b)
        &&& grid.has_column(self.result)
    }

    /// The grid after one addition was laid out on row `row`: the selector
    /// on, the two inputs and their sum in their cells, and a region of that
    /// one row recorded.
    pub open spec fn synthesized(
        self,
        grid: Grid,
        row: int,
        a: Option<nat>,
        b: Option<nat>,
        modulus: nat,
    ) -> Grid {
        grid.with_selector(self.sel_add, row, true).with_cell(self.input_a, row, a).with_cell(
            self.input_b,
            row,
            b,
        ).with_cell(self.result, row, add_known(a, b, modulus)).with_region(
            RegionSpan { name: "addition", start: row as usize, rows: 1 },
        )
    }
}

/// The system after the addition circuit was configured on it: three more
/// advice columns, one more selector, and the addition gate over them.
pub open spec fn configured<F: Field>(system: SystemView<F>) -> SystemView<F> {
    system.with_advice_column().with_advice_column().with_advice_column().with_selector().with_gate(
        AddConfig::after(system).gate(),
    )
}

/// The addition gate queries its own selector and no other.
pub proof fn lemma_gate_is_guarded<F: Field>(config: AddConfig)
    ensures
        guarded_by(seq![config.poly::<F>()], config.sel_add),
{
    reveal_with_fuel(Expr::mentions, 4);
    let polys = seq![config.poly::<F>()];
    assert(polys[0].mentions(config.sel_add));
    assert forall|other: Selector| #[trigger] polys_mention(polys, other) implies other
        == config.sel_add by {
        let i = choose|i: int| 0 <= i < polys.len() && #[trigger] polys[i].mentions(other);
        assert(polys[i] == config.poly::<F>());
    }
}

/// What the polynomial of the addition gate evaluates to at a row of a
/// grid: the selector's switch times `input_a + input_b - result`, where all
/// three cells of the row are assigned.
pub proof fn lemma_poly_eval<F: Field>(config: AddConfig, grid: Grid, row: int)
    requires
        0 <= row < grid.rows,
    ensures
        config.poly::<F>().eval(grid, row) == match (
            grid.cell(config.input_a, row),
            grid.cell(config.input_b, row),
            grid.cell(config.result, row),
        ) {
            (Some(a), Some(b), Some(sum)) => Some(
                mul_mod(
                    if grid.enabled.contains((config.sel_add, row)) {
                        1
                    } else {
                        0
                    },
                    sub_mod(add_mod(a, b, F::modulus()), sum, F::modulus()),
                    F::modulus(),
                ),
            ),
            _ => None,
        },
{
    reveal_with_fuel(Expr::eval, 4);
    lemma_small_mod(row as nat, grid.rows);
}

/// A sum less itself is zero in the field.
proof fn lemma_right_sum_vanishes(sum: nat, m: nat)
    requires
        m > 1,
    ensures
        mul_mod(1, sub_mod(sum, sum, m), m) == 0,
{
    lemma_small_mod(0, m);
}

/// A sum less another residue is not zero in the field.
proof fn lemma_wrong_sum_survives(sum: nat, wrong: nat, m: nat)
    requires
        sum < m,
        wrong < m,
        sum != wrong,
    ensures
        mul_mod(1, sub_mod(sum, wrong, m), m) != 0,
{
    let d = sum - wrong;
    if d > 0 {
        lemma_small_mod(d as nat, m);
    } else {
        lemma_fundamental_div_mod_converse(d, m as int, -1, d + m);
        lemma_small_mod((d + m) as nat, m);
    }
}

/// The addition circuit accepts its own synthesis. On a system without
/// gates and a grid where `sel_add` is off, laying the addition of
/// two known inputs out on any row leaves nothing for the check to report,
/// and the cell of `result` holds the sum of the inputs in the field.
pub proof fn lemma_synthesis_passes<F: Field>(
    base: SystemView<F>,
    grid: Grid,
    row: int,
    a: F,
    b: F,
)
    requires
        base.gates.len() == 0,
        base.advice_columns + 3 <= usize::MAX,
        base.selectors + 1 <= usize::MAX,
        0 <= row < grid.rows,
        forall|r: int| !grid.enabled.contains((AddConfig::after(base).sel_add, r)),
    ensures
        ({
            let config = AddConfig::after(base);
            let done = config.synthesized(
                grid,
                row,
                Some(a.residue()),
                Some(b.residue()),
                F::modulus(),
            );
            &&& violations(configured(base), done) == Seq::<Violation>::empty()
            &&& done.cell(config.result, row) == Some(
                add_mod(a.residue(), b.residue(), F::modulus()),
            )
        }),
{
    let config = AddConfig::after(base);
    let system = configured(base);
    let m = F::modulus();
    let sum = add_mod(a.residue(), b.residue(), m);
    let done = config.synthesized(grid, row, Some(a.residue()), Some(b.residue()), m);
    F::modulus_exceeds_one();
    assert(done.cell(config.input_a, row) == Some(a.residue()));
    assert(done.cell(config.input_b, row) == Some(b.residue()));
    assert(done.cell(config.result, row) == Some(sum));
    lemma_poly_eval::<F>(config, done, row);
    lemma_right_sum_vanishes(sum, m);
    assert(system.gates[0] == config.gate::<F>());
    assert(verdict(system.gates[0], 0, done, row) is None);
    assert forall|r: int| 0 <= r < done.rows implies (#[trigger] verdict(
        system.gates[0],
        0,
        done,
        r,
    )) is None by {
        if r != row {
            assert(!done.enabled.contains((config.sel_add, r)));
        }
    }
    lemma_constraint_passes(system, done, 0, 0, done.rows as int);
    lemma_single_constraint(system, done);
}

/// For all field elements `a` and `b` and every grid height: the addition
/// circuit, configured on an empty system and laid out on the first row of
/// a blank grid of `2^k` rows, passes the check, and its `result` cell holds
/// `a + b` in the field.
pub proof fn lemma_addition_is_satisfied<F: Field>(a: F, b: F, k: nat)
    ensures
        ({
            let config = AddConfig::after(SystemView::<F>::empty());
            let done = config.synthesized(
                Grid::blank(3, 1, pow2(k)),
                0,
                Some(a.residue()),
                Some(b.residue()),
                F::modulus(),
            );
            &&& violations(configured(SystemView::<F>::empty()), done) == Seq::<Violation>::empty()
            &&& done.cell(config.result, 0) == Some(
                add_mod(a.residue(), b.residue(), F::modulus()),
            )
        }),
{
    lemma_pow2_pos(k);
    lemma_synthesis_passes(SystemView::<F>::empty(), Grid::blank(3, 1, pow2(k)), 0, a, b);
}

/// A wrong sum is caught, once. Where the `result` cell of a synthesized
/// addition is overwritten with any element other than `a + b`, the check
/// reports exactly one violation: `ConstraintViolated`, for the addition
/// gate, at the row of the addition.
pub proof fn lemma_wrong_sum_is_reported<F: Field>(a: F, b: F, wrong: F, k: nat)
    requires
        wrong.residue() != add_mod(a.residue(), b.residue(), F::modulus()),
    ensures
        ({
            let config = AddConfig::after(SystemView::<F>::empty());
            let done = config.synthesized(
                Grid::blank(3, 1, pow2(k)),
                0,
                Some(a.residue()),
                Some(b.residue()),
                F::modulus(),
            );
            violations(
                configured(SystemView::<F>::empty()),
                done.with_cell(config.result, 0, Some(wrong.residue())),
            ) == seq![
                Violation { kind: Error::ConstraintViolated, gate: 0, constraint: 0, row: 0 },
            ]
        }),
{
    let base = SystemView::<F>::empty();
    let config = AddConfig::after(base);
    let system = configured(base);
    let m = F::modulus();
    let sum = add_mod(a.residue(), b.residue(), m);
    let done = config.synthesized(
        Grid::blank(3, 1, pow2(k)),
        0,
        Some(a.residue()),
        Some(b.residue()),
        m,
    );
    let spoilt = done.with_cell(config.result, 0, Some(wrong.residue()));
    lemma_pow2_pos(k);
    F::modulus_exceeds_one();
    F::residue_in_range(wrong);
    assert(sum < m) by {
        vstd::arithmetic::div_mod::lemma_mod_bound((a.residue() + b.residue()) as int, m as int);
    }
    assert(spoilt.cell(config.input_a, 0) == Some(a.residue()));
    assert(spoilt.cell(config.input_b, 0) == Some(b.residue()));
    assert(spoilt.cell(config.result, 0) == Some(wrong.residue()));
    lemma_poly_eval::<F>(config, spoilt, 0);
    lemma_wrong_sum_survives(sum, wrong.residue(), m);
    assert(system.gates[0] == config.gate::<F>());
    assert(verdict(system.gates[0], 0, spoilt, 0) == Some(Error::ConstraintViolated));
    assert forall|r: int| 0 <= r < spoilt.rows && r != 0 implies (#[trigger] verdict(
        system.gates[0],
        0,
        spoilt,
        r,
    )) is None by {
        assert(!spoilt.enabled.contains((config.sel_add, r)));
    }
    lemma_constraint_fails_once(
        system,
        spoilt,
        0,
        0,
        spoilt.rows as int,
        0,
        Error::ConstraintViolated,
    );
    lemma_single_constraint(system, spoilt);
}

/// With its selector off everywhere the addition gate asks nothing: a grid
/// passes the check whatever `input_a`, `input_b` and `result` hold.
pub proof fn lemma_unselected_rows_pass<F: Field>(base: SystemView<F>, grid: Grid)
    requires
        base.gates.len() == 0,
        forall|r: int| !grid.enabled.contains((AddConfig::after(base).sel_add, r)),
    ensures
        violations(configured(base), grid) == Seq::<Violation>::empty(),
{
    let system = configured(base);
    assert(system.gates[0] == AddConfig::after(base).gate::<F>());
    lemma_constraint_passes(system, grid, 0, 0, grid.rows as int);
    lemma_single_constraint(system, grid);
}

/// The sum of the two elements of a pair.
pub fn sum_of_pair<F: Field>(pair: (F, F)) -> (sum: F)
    ensures
        sum.residue() == add_mod(pair.0.residue(), pair.1.residue(), F::modulus()),
{
    pair.0.add(&pair.1)
}

impl<F: Field> CalculatorCircuit<F> {
    /// Declares the circuit on `meta`: allocates the advice columns
    /// `input_a`, `input_b` and `result` and the selector `sel_add`, and
    /// registers one gate, `sel_add * (input_a + input_b - result)`.
    pub fn configure(meta: &mut ConstraintSystem<F>) -> (config: AddConfig)
        requires
            old(meta)@.advice_columns + 3 <= usize::MAX,
            old(meta)@.selectors + 1 <= usize::MAX,
        ensures
            config == AddConfig::after(old(meta)@),
            final(meta)@ == configured(old(meta)@),
            old(meta)@.well_formed() ==> final(meta)@.well_formed(),
    {
        let input_a = meta.allocate_advice_column();
        let input_b = meta.allocate_advice_column();
        let result = meta.allocate_advice_column();
        let sel_add = meta.allocate_selector();
        let config = AddConfig { input_a, input_b, result, sel_add };

        let a = meta.query_advice(input_a, Rotation::cur());
        let b = meta.query_advice(input_b, Rotation::cur());
        let res = meta.query_advice(result, Rotation::cur());
        let sel = meta.query_selector(sel_add);
        let mut polys: Vec<Expr<F>> = Vec::new();
        polys.push(sel.mul(a.add(b).sub(res)));
        proof {
            reveal_with_fuel(Expr::within, 4);
            assert(polys@ =~= seq![config.poly::<F>()]);
            lemma_gate_is_guarded::<F>(config);
            lemma_guard_is_unique(polys@, sel_add, GateView::of("addition"@, polys@).selector);
            assert(polys_within(polys@, meta@.advice_columns, meta@.selectors));
        }
        let declared = meta.create_gate("addition", polys);
        assert(declared is Ok);
        config
    }

    /// Lays the addition out in one region named "addition": on its row 0
    /// the selector is switched on, `a` and `b` are written to `input_a` and
    /// `input_b`, and their sum to `result`. An input that is unknown leaves
    /// its cell unassigned, and the sum's cell with it.
    ///
    /// Fails, and hands no layout back, where the layout has not all of the
    /// configuration's columns and its selector (`ColumnNotFound`) or has no
    /// free row left (`GridOverflow`).
    pub fn synthesize(&self, config: AddConfig, layouter: Layouter<F>) -> (r: Result<
        Layouter<F>,
        Error,
    >)
        requires
            layouter.wf(),
        ensures
            match r {
                Ok(done) => {
                    &&& config.fits(layouter.grid())
                    &&& layouter.next_row() < layouter.grid().rows
                    &&& done.wf()
                    &&& done.next_row() == layouter.next_row() + 1
                    &&& done.grid() == config.synthesized(
                        layouter.grid(),
                        layouter.next_row() as int,
                        self.a.residue(),
                        self.b.residue(),
                        F::modulus(),
                    )
                },
                Err(e) => {
                    &&& !(config.fits(layouter.grid()) && layouter.next_row()
                        < layouter.grid().rows)
                    &&& e == if !layouter.grid().has_selector(config.sel_add) {
                        Error::ColumnNotFound
                    } else if layouter.next_row() >= layouter.grid().rows {
                        Error::GridOverflow
                    } else {
                        Error::ColumnNotFound
                    }
                },
            },
    {
        let mut region = layouter.assign_region("addition");
        region.enable_selector(config.sel_add, 0)?;
        region.assign_advice(config.input_a, 0, self.a)?;
        region.assign_advice(config.input_b, 0, self.b)?;
        let sum = self.a.zip(self.b).map(sum_of_pair::<F>);
        region.assign_advice(config.result, 0, sum)?;
        Ok(region.finish())
    }

    /// The same circuit with both inputs unknown: its shape without a
    /// witness.
    pub fn without_witnesses(&self) -> (r: Self)
        ensures
            r.a@ is None,
            r.b@ is None,
    {
        CalculatorCircuit { a: Value::unknown(), b: Value::unknown() }
    }
}

} // verus!
