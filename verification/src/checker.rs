//! The satisfiability check: every gate, re-evaluated at every row.

use vstd::prelude::*;
use crate::assignment::{Assignment, Grid};
use crate::constraint_system::{ConstraintSystem, Gate, GateView, SystemView};
use crate::error::Error;
use crate::field::Field;

verus! {

/// One constraint that an assignment fails at one row.
#[derive(Clone, Copy, Debug, PartialEq, Eq, Structural)]
pub struct Violation {
    /// `CellNotAssigned` or `ConstraintViolated`.
    pub kind: Error,
    /// Which of the system's gates, by position.
    pub gate: usize,
    /// Which of that gate's polynomials, by position.
    pub constraint: usize,
    /// The row at which the polynomial was evaluated.
    pub row: usize,
}

/// What is wrong with one polynomial of a gate at one row, if anything.
///
/// Where its gate's selector is off, nothing: the row is unconstrained.
/// Where it is on, the polynomial must read assigned cells only and
/// evaluate to zero.
pub open spec fn verdict<F: Field>(gate: GateView<F>, constraint: int, grid: Grid, row: int)
    -> Option<Error> {
    if !grid.enabled.contains((gate.selector, row)) {
        None
    } else {
        match gate.polys[constraint].eval(grid, row) {
            None => Some(Error::CellNotAssigned),
            Some(residue) => if residue == 0 {
                None
            } else {
                Some(Error::ConstraintViolated)
            },
        }
    }
}

/// The violation of polynomial `constraint` of gate `gate` at `row`, if
/// there is one.
pub open spec fn finding<F: Field>(
    system: SystemView<F>,
    grid: Grid,
    gate: int,
    constraint: int,
    row: int,
) -> Seq<Violation> {
    match verdict(system.gates[gate], constraint, grid, row) {
        Some(kind) => seq![
            Violation { kind, gate: gate as usize, constraint: constraint as usize, row: row as usize },
        ],
        None => Seq::empty(),
    }
}

/// The violations of one polynomial on the first `rows` rows, by row.
pub open spec fn constraint_findings<F: Field>(
    system: SystemView<F>,
    grid: Grid,
    gate: int,
    constraint: int,
    rows: int,
) -> Seq<Violation>
    decreases rows,
{
    if rows <= 0 {
        Seq::empty()
    } else {
        constraint_findings(system, grid, gate, constraint, rows - 1) + finding(
            system,
            grid,
            gate,
            constraint,
            rows - 1,
        )
    }
}

/// The violations of the first `constraints` polynomials of one gate on all
/// rows, by polynomial and then by row.
pub open spec fn gate_findings<F: Field>(
    system: SystemView<F>,
    grid: Grid,
    gate: int,
    constraints: int,
) -> Seq<Violation>
    decreases constraints,
{
    if constraints <= 0 {
        Seq::empty()
    } else {
        gate_findings(system, grid, gate, constraints - 1) + constraint_findings(
            system,
            grid,
            gate,
            constraints - 1,
            grid.rows as int,
        )
    }
}

/// The violations of the first `gates` gates, by gate, polynomial and row.
pub open spec fn system_findings<F: Field>(system: SystemView<F>, grid: Grid, gates: int) -> Seq<
    Violation,
>
    decreases gates,
{
    if gates <= 0 {
        Seq::empty()
    } else {
        system_findings(system, grid, gates - 1) + gate_findings(
            system,
            grid,
            gates - 1,
            system.gates[gates - 1].polys.len() as int,
        )
    }
}

/// Every violation of a system on a grid: for each gate in turn, for each of
/// its polynomials in turn, the rows at which it fails, in ascending order.
pub open spec fn violations<F: Field>(system: SystemView<F>, grid: Grid) -> Seq<Violation> {
    system_findings(system, grid, system.gates.len() as int)
}

/// Whether `v` names a polynomial of a gate and a row of the grid at which
/// that polynomial fails in the way `v` says.
pub open spec fn is_failure<F: Field>(system: SystemView<F>, grid: Grid, v: Violation) -> bool {
    &&& v.gate < system.gates.len()
    &&& v.constraint < system.gates[v.gate as int].polys.len()
    &&& v.row < grid.rows
    &&& verdict(system.gates[v.gate as int], v.constraint as int, grid, v.row as int) == Some(
        v.kind,
    )
}

/// Whether a `usize` can count the gates, the polynomials of each gate and
/// the rows, as it can for every system and grid that a program holds.
pub open spec fn countable<F: Field>(system: SystemView<F>, grid: Grid) -> bool {
    &&& system.gates.len() <= usize::MAX
    &&& grid.rows <= usize::MAX
    &&& forall|g: int|
        0 <= g < system.gates.len() ==> (#[trigger] system.gates[g]).polys.len() <= usize::MAX
}

/// An element of two sequences joined is an element of one of them.
proof fn lemma_joined_contains(a: Seq<Violation>, b: Seq<Violation>, v: Violation)
    ensures
        (a + b).contains(v) <==> a.contains(v) || b.contains(v),
{
    let joined = a + b;
    if joined.contains(v) {
        let i = choose|i: int| 0 <= i < joined.len() && joined[i] == v;
        if i < a.len() {
            assert(a[i] == v);
        } else {
            assert(b[i - a.len()] == v);
        }
    }
    if a.contains(v) {
        let i = choose|i: int| 0 <= i < a.len() && a[i] == v;
        assert(joined[i] == v);
    }
    if b.contains(v) {
        let i = choose|i: int| 0 <= i < b.len() && b[i] == v;
        assert(joined[a.len() + i] == v);
    }
}

/// The findings of one polynomial on the first `rows` rows are its failures
/// on those rows.
proof fn lemma_constraint_findings_are_failures<F: Field>(
    system: SystemView<F>,
    grid: Grid,
    gate: int,
    constraint: int,
    rows: int,
    v: Violation,
)
    requires
        countable(system, grid),
        0 <= gate < system.gates.len(),
        0 <= constraint < system.gates[gate].polys.len(),
        0 <= rows <= grid.rows,
    ensures
        constraint_findings(system, grid, gate, constraint, rows).contains(v) <==> is_failure(
            system,
            grid,
            v,
        ) && v.gate == gate && v.constraint == constraint && v.row < rows,
    decreases rows,
{
    if rows > 0 {
        let before = constraint_findings(system, grid, gate, constraint, rows - 1);
        let here = finding(system, grid, gate, constraint, rows - 1);
        lemma_constraint_findings_are_failures(system, grid, gate, constraint, rows - 1, v);
        lemma_joined_contains(before, here, v);
        if here.contains(v) {
            let i = choose|i: int| 0 <= i < here.len() && here[i] == v;
            assert(here[0] == v);
        }
        if is_failure(system, grid, v) && v.gate == gate && v.constraint == constraint && v.row
            == rows - 1 {
            assert(here[0] == v);
        }
    }
}

/// The findings of the first `constraints` polynomials of a gate are their
/// failures.
proof fn lemma_gate_findings_are_failures<F: Field>(
    system: SystemView<F>,
    grid: Grid,
    gate: int,
    constraints: int,
    v: Violation,
)
    requires
        countable(system, grid),
        0 <= gate < system.gates.len(),
        0 <= constraints <= system.gates[gate].polys.len(),
    ensures
        gate_findings(system, grid, gate, constraints).contains(v) <==> is_failure(
            system,
            grid,
            v,
        ) && v.gate == gate && v.constraint < constraints,
    decreases constraints,
{
    if constraints > 0 {
        let before = gate_findings(system, grid, gate, constraints - 1);
        let here = constraint_findings(system, grid, gate, constraints - 1, grid.rows as int);
        lemma_gate_findings_are_failures(system, grid, gate, constraints - 1, v);
        lemma_constraint_findings_are_failures(
            system,
            grid,
            gate,
            constraints - 1,
            grid.rows as int,
            v,
        );
        lemma_joined_contains(before, here, v);
    }
}

/// The findings of the first `gates` gates are their failures.
proof fn lemma_system_findings_are_failures<F: Field>(
    system: SystemView<F>,
    grid: Grid,
    gates: int,
    v: Violation,
)
    requires
        countable(system, grid),
        0 <= gates <= system.gates.len(),
    ensures
        system_findings(system, grid, gates).contains(v) <==> is_failure(system, grid, v) && v.gate
            < gates,
    decreases gates,
{
    if gates > 0 {
        let before = system_findings(system, grid, gates - 1);
        let here = gate_findings(
            system,
            grid,
            gates - 1,
            system.gates[gates - 1].polys.len() as int,
        );
        lemma_system_findings_are_failures(system, grid, gates - 1, v);
        lemma_gate_findings_are_failures(
            system,
            grid,
            gates - 1,
            system.gates[gates - 1].polys.len() as int,
            v,
        );
        lemma_joined_contains(before, here, v);
    }
}

/// The check reports every failure and nothing else: a violation is in the
/// list exactly when its polynomial fails at its row in the way it says.
pub proof fn lemma_violations_are_failures<F: Field>(
    system: SystemView<F>,
    grid: Grid,
    v: Violation,
)
    requires
        countable(system, grid),
    ensures
        violations(system, grid).contains(v) <==> is_failure(system, grid, v),
{
    lemma_system_findings_are_failures(system, grid, system.gates.len() as int, v);
}

/// A row at which a gate's selector is off is unconstrained: whatever its
/// cells hold, no violation of that gate is reported there.
pub proof fn lemma_selector_off_is_unconstrained<F: Field>(
    system: SystemView<F>,
    grid: Grid,
    v: Violation,
)
    requires
        countable(system, grid),
        violations(system, grid).contains(v),
    ensures
        v.gate < system.gates.len(),
        grid.enabled.contains((system.gates[v.gate as int].selector, v.row as int)),
{
    lemma_violations_are_failures(system, grid, v);
}

/// A grid passes the check where every polynomial of every gate passes at
/// every row.
pub proof fn lemma_passes_where_no_verdict<F: Field>(system: SystemView<F>, grid: Grid)
    requires
        countable(system, grid),
        forall|g: int, c: int, row: int|
            0 <= g < system.gates.len() && 0 <= c < system.gates[g].polys.len() && 0 <= row
                < grid.rows ==> (#[trigger] verdict(system.gates[g], c, grid, row)) is None,
    ensures
        violations(system, grid) == Seq::<Violation>::empty(),
{
    let all = violations(system, grid);
    if all.len() > 0 {
        let v = all[0];
        assert(all.contains(v));
        lemma_violations_are_failures(system, grid, v);
        assert(verdict(system.gates[v.gate as int], v.constraint as int, grid, v.row as int)
            is None);
    }
    assert(all =~= Seq::<Violation>::empty());
}

/// Switching a gate's selector off at a row makes the row pass that gate,
/// whatever the cells of the row hold.
pub proof fn lemma_disabled_row_passes<F: Field>(
    system: SystemView<F>,
    grid: Grid,
    gate: int,
    row: int,
    v: Violation,
)
    requires
        countable(system, grid),
        0 <= gate < system.gates.len(),
        violations(system, grid.with_selector(system.gates[gate].selector, row, false)).contains(
            v,
        ),
        v.gate == gate,
    ensures
        v.row != row,
{
    let off = grid.with_selector(system.gates[gate].selector, row, false);
    lemma_violations_are_failures(system, off, v);
}

/// A polynomial that passes at each of the first `rows` rows has no finding
/// there.
pub proof fn lemma_constraint_passes<F: Field>(
    system: SystemView<F>,
    grid: Grid,
    gate: int,
    constraint: int,
    rows: int,
)
    requires
        forall|row: int|
            0 <= row < rows ==> (#[trigger] verdict(system.gates[gate], constraint, grid, row))
                is None,
    ensures
        constraint_findings(system, grid, gate, constraint, rows) == Seq::<Violation>::empty(),
    decreases rows,
{
    if rows > 0 {
        lemma_constraint_passes(system, grid, gate, constraint, rows - 1);
        assert(verdict(system.gates[gate], constraint, grid, rows - 1) is None);
        assert(constraint_findings(system, grid, gate, constraint, rows)
            =~= Seq::<Violation>::empty());
    }
}

/// A polynomial that fails at row `at` and passes at each other of the first
/// `rows` rows has that one finding.
pub proof fn lemma_constraint_fails_once<F: Field>(
    system: SystemView<F>,
    grid: Grid,
    gate: int,
    constraint: int,
    rows: int,
    at: int,
    kind: Error,
)
    requires
        0 <= at < rows,
        verdict(system.gates[gate], constraint, grid, at) == Some(kind),
        forall|row: int|
            0 <= row < rows && row != at ==> (#[trigger] verdict(
                system.gates[gate],
                constraint,
                grid,
                row,
            )) is None,
    ensures
        constraint_findings(system, grid, gate, constraint, rows) == seq![
            Violation { kind, gate: gate as usize, constraint: constraint as usize, row: at as usize },
        ],
    decreases rows,
{
    let one = seq![
        Violation { kind, gate: gate as usize, constraint: constraint as usize, row: at as usize },
    ];
    if at == rows - 1 {
        lemma_constraint_passes(system, grid, gate, constraint, rows - 1);
        assert(constraint_findings(system, grid, gate, constraint, rows) =~= one);
    } else {
        lemma_constraint_fails_once(system, grid, gate, constraint, rows - 1, at, kind);
        assert(verdict(system.gates[gate], constraint, grid, rows - 1) is None);
        assert(constraint_findings(system, grid, gate, constraint, rows) =~= one);
    }
}

/// The violations of a system of one gate with one polynomial are the
/// findings of that polynomial.
pub proof fn lemma_single_constraint<F: Field>(system: SystemView<F>, grid: Grid)
    requires
        system.gates.len() == 1,
        system.gates[0].polys.len() == 1,
    ensures
        violations(system, grid) == constraint_findings(system, grid, 0, 0, grid.rows as int),
{
    reveal_with_fuel(system_findings, 2);
    reveal_with_fuel(gate_findings, 2);
    assert(violations(system, grid) =~= constraint_findings(system, grid, 0, 0, grid.rows as int));
}

/// Computes [`verdict`].
pub fn judge<F: Field>(gate: &Gate<F>, constraint: usize, assignment: &Assignment<F>, row: usize)
    -> (r: Option<Error>)
    requires
        assignment.wf(),
        constraint < gate@.polys.len(),
    ensures
        r == verdict(gate@, constraint as int, assignment@, row as int),
{
    if !assignment.selector_enabled(gate.selector(), row) {
        return None;
    }
    let polys = gate.polys();
    match polys[constraint].evaluate(assignment, row).into_option() {
        None => Some(Error::CellNotAssigned),
        Some(value) => if value.is_zero() {
            None
        } else {
            Some(Error::ConstraintViolated)
        },
    }
}

/// Checks an assignment against a constraint system.
///
/// Every polynomial of every gate is evaluated at every row of the grid.
/// The check does not stop at the first failure: it returns all of them, in
/// the order of [`violations`], and succeeds exactly when there is none.
pub fn check<F: Field>(system: &ConstraintSystem<F>, assignment: &Assignment<F>) -> (r: Result<
    (),
    Vec<Violation>,
>)
    requires
        assignment.wf(),
    ensures
        match r {
            Ok(()) => violations(system@, assignment@).len() == 0,
            Err(found) => found@.len() > 0 && found@ == violations(system@, assignment@),
        },
{
    let mut found: Vec<Violation> = Vec::new();
    let rows = assignment.rows();
    let gates = system.num_gates();
    let mut g: usize = 0;
    while g < gates
        invariant
            assignment.wf(),
            rows == assignment@.rows,
            gates == system@.gates.len(),
            g <= gates,
            found@ == system_findings(system@, assignment@, g as int),
        decreases gates - g,
    {
        let gate = system.gate(g).unwrap();
        let constraints = gate.polys().len();
        let ghost before_gate = found@;
        let mut c: usize = 0;
        while c < constraints
            invariant
                assignment.wf(),
                rows == assignment@.rows,
                g < system@.gates.len(),
                gate@ == system@.gates[g as int],
                constraints == gate@.polys.len(),
                c <= constraints,
                found@ == before_gate + gate_findings(system@, assignment@, g as int, c as int),
            decreases constraints - c,
        {
            let ghost before_constraint = found@;
            let mut row: usize = 0;
            while row < rows
                invariant
                    assignment.wf(),
                    rows == assignment@.rows,
                    g < system@.gates.len(),
                    gate@ == system@.gates[g as int],
                    c < gate@.polys.len(),
                    row <= rows,
                    found@ == before_constraint + constraint_findings(
                        system@,
                        assignment@,
                        g as int,
                        c as int,
                        row as int,
                    ),
                decreases rows - row,
            {
                let ghost so_far = constraint_findings(
                    system@,
                    assignment@,
                    g as int,
                    c as int,
                    row as int,
                );
                match judge(gate, c, assignment, row) {
                    Some(kind) => {
                        found.push(Violation { kind, gate: g, constraint: c, row });
                    },
                    None => {},
                }
                proof {
                    let here = finding(system@, assignment@, g as int, c as int, row as int);
                    assert(found@ =~= before_constraint + (so_far + here));
                }
                row += 1;
            }
            proof {
                let so_far = gate_findings(system@, assignment@, g as int, c as int);
                let here = constraint_findings(
                    system@,
                    assignment@,
                    g as int,
                    c as int,
                    rows as int,
                );
                assert(found@ =~= before_gate + (so_far + here));
            }
            c += 1;
        }
        g += 1;
    }
    if found.len() == 0 {
        Ok(())
    } else {
        Err(found)
    }
}

} // verus!
