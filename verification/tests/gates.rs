use calculator_circuit::assignment::Assignment;
use calculator_circuit::checker::{check, judge, Violation};
use calculator_circuit::columns::{Column, ColumnKind, Rotation, Selector};
use calculator_circuit::constraint_system::{all_within, guarding_selector, ConstraintSystem};
use calculator_circuit::error::Error;
use calculator_circuit::expression::{Expr, SelectorUse};
use calculator_circuit::field::Field;
use calculator_circuit::pallas::Fp;
use calculator_circuit::value::Value;

fn advice(index: usize) -> Column {
    Column { index, kind: ColumnKind::Advice }
}

fn sel(index: usize) -> Selector {
    Selector { index }
}

fn cell(index: usize, rotation: i32) -> Expr<Fp> {
    Expr::AdviceQuery { column: advice(index), rotation: Rotation(rotation) }
}

fn switch(index: usize) -> Expr<Fp> {
    Expr::SelectorQuery { selector: sel(index) }
}

fn number(value: u64) -> Expr<Fp> {
    Expr::constant(Fp::from_u64(value))
}

fn known(value: u64) -> Value<Fp> {
    Value::known(Fp::from_u64(value))
}

fn grid(columns: usize, selectors: usize, k: u32) -> Assignment<Fp> {
    Assignment::new(columns, selectors, k).unwrap()
}

fn failure(kind: Error, gate: usize, constraint: usize, row: usize) -> Violation {
    Violation { kind, gate, constraint, row }
}

#[test]
fn expressions_evaluate_in_the_field() {
    let mut g = grid(2, 1, 2);
    g.assign(advice(0), 1, known(10)).unwrap();
    g.assign(advice(1), 1, known(4)).unwrap();
    g.set_selector(sel(0), 1, true).unwrap();

    assert_eq!(number(7).evaluate(&g, 0).into_option(), Some(Fp::from_u64(7)));
    assert_eq!(cell(0, 0).evaluate(&g, 1).into_option(), Some(Fp::from_u64(10)));
    assert_eq!(cell(0, 0).evaluate(&g, 0).into_option(), None);
    assert_eq!(switch(0).evaluate(&g, 1).into_option(), Some(Fp::one()));
    assert_eq!(switch(0).evaluate(&g, 0).into_option(), Some(Fp::zero()));
    assert_eq!(cell(0, 0).add(cell(1, 0)).evaluate(&g, 1).into_option(), Some(Fp::from_u64(14)));
    assert_eq!(cell(0, 0).sub(cell(1, 0)).evaluate(&g, 1).into_option(), Some(Fp::from_u64(6)));
    assert_eq!(cell(0, 0).mul(cell(1, 0)).evaluate(&g, 1).into_option(), Some(Fp::from_u64(40)));
    assert_eq!(
        cell(1, 0).sub(cell(0, 0)).evaluate(&g, 1).into_option(),
        Some(Fp::zero().sub(&Fp::from_u64(6)))
    );
    assert_eq!(
        switch(0).mul(cell(0, 0).add(number(1)).sub(cell(1, 0))).evaluate(&g, 1).into_option(),
        Some(Fp::from_u64(7))
    );
}

#[test]
fn an_unassigned_cell_makes_the_whole_expression_unknown() {
    let mut g = grid(2, 1, 2);
    g.assign(advice(0), 1, known(10)).unwrap();
    assert_eq!(cell(0, 0).add(cell(1, 0)).evaluate(&g, 1).into_option(), None);
    assert_eq!(cell(1, 0).sub(cell(0, 0)).evaluate(&g, 1).into_option(), None);
    assert_eq!(number(0).mul(cell(1, 0)).evaluate(&g, 1).into_option(), None);
    assert_eq!(switch(0).mul(cell(1, 0)).evaluate(&g, 1).into_option(), None);
    assert_eq!(cell(5, 0).evaluate(&g, 1).into_option(), None);
}

#[test]
fn rotations_read_neighbouring_rows_around_the_ring() {
    let mut g = grid(1, 0, 2);
    g.assign(advice(0), 0, known(100)).unwrap();
    g.assign(advice(0), 1, known(101)).unwrap();
    g.assign(advice(0), 3, known(103)).unwrap();
    assert_eq!(cell(0, 1).evaluate(&g, 0).into_option(), Some(Fp::from_u64(101)));
    assert_eq!(cell(0, -1).evaluate(&g, 1).into_option(), Some(Fp::from_u64(100)));
    assert_eq!(cell(0, -1).evaluate(&g, 0).into_option(), Some(Fp::from_u64(103)));
    assert_eq!(cell(0, 1).evaluate(&g, 3).into_option(), Some(Fp::from_u64(100)));
    assert_eq!(cell(0, 1).evaluate(&g, 1).into_option(), None);
    assert_eq!(cell(0, 7).evaluate(&g, 2).into_option(), Some(Fp::from_u64(101)));
}

#[test]
fn selector_use_counts_the_selectors() {
    assert_eq!(number(1).selector_use(), SelectorUse::Absent);
    assert_eq!(cell(0, 0).add(cell(1, 0)).selector_use(), SelectorUse::Absent);
    assert_eq!(switch(3).selector_use(), SelectorUse::Single(sel(3)));
    assert_eq!(switch(3).mul(cell(0, 0).sub(switch(3))).selector_use(), SelectorUse::Single(sel(3)));
    assert_eq!(cell(0, 0).add(switch(2)).selector_use(), SelectorUse::Single(sel(2)));
    assert_eq!(switch(1).mul(switch(2)).selector_use(), SelectorUse::Mixed);
    assert_eq!(switch(1).mul(switch(2)).add(switch(1)).selector_use(), SelectorUse::Mixed);
}

#[test]
fn merge_joins_two_findings() {
    let (a, b) = (SelectorUse::Single(sel(0)), SelectorUse::Single(sel(1)));
    assert_eq!(SelectorUse::Absent.merge(SelectorUse::Absent), SelectorUse::Absent);
    assert_eq!(SelectorUse::Absent.merge(a), a);
    assert_eq!(a.merge(SelectorUse::Absent), a);
    assert_eq!(a.merge(a), a);
    assert_eq!(a.merge(b), SelectorUse::Mixed);
    assert_eq!(SelectorUse::Mixed.merge(a), SelectorUse::Mixed);
    assert_eq!(a.merge(SelectorUse::Mixed), SelectorUse::Mixed);
    assert_eq!(SelectorUse::Mixed.merge(SelectorUse::Absent), SelectorUse::Mixed);
    assert_eq!(SelectorUse::Absent.merge(SelectorUse::Mixed), SelectorUse::Mixed);
}

#[test]
fn guarding_selector_wants_exactly_one() {
    assert_eq!(guarding_selector::<Fp>(&vec![]), None);
    assert_eq!(guarding_selector(&vec![cell(0, 0), number(1)]), None);
    assert_eq!(guarding_selector(&vec![switch(4).mul(cell(0, 0))]), Some(sel(4)));
    assert_eq!(guarding_selector(&vec![cell(0, 0), switch(4).mul(cell(0, 0))]), Some(sel(4)));
    assert_eq!(guarding_selector(&vec![switch(4), switch(4).mul(cell(0, 0))]), Some(sel(4)));
    assert_eq!(guarding_selector(&vec![switch(4), switch(5)]), None);
    assert_eq!(guarding_selector(&vec![switch(4).mul(switch(5))]), None);
}

#[test]
fn is_within_looks_at_every_query() {
    assert!(number(1).is_within(0, 0));
    assert!(cell(1, 0).is_within(2, 0));
    assert!(!cell(2, 0).is_within(2, 5));
    assert!(switch(0).is_within(0, 1));
    assert!(!switch(1).is_within(5, 1));
    assert!(switch(0).mul(cell(0, 0).add(cell(1, 0)).sub(cell(2, 0))).is_within(3, 1));
    assert!(!switch(0).mul(cell(0, 0).add(cell(1, 0)).sub(cell(3, 0))).is_within(3, 1));
    assert!(all_within::<Fp>(&vec![], 0, 0));
    assert!(all_within(&vec![switch(0), cell(1, 0)], 2, 1));
    assert!(!all_within(&vec![switch(0), cell(2, 0)], 2, 1));
}

#[test]
fn create_gate_registers_the_gate() {
    let mut meta = ConstraintSystem::<Fp>::new();
    let a = meta.allocate_advice_column();
    let s = meta.allocate_selector();
    let t = meta.allocate_selector();
    let first = vec![meta.query_selector(t).mul(meta.query_advice(a, Rotation::cur()))];
    assert_eq!(meta.create_gate("zero", first), Ok(()));
    let second = vec![
        meta.query_selector(s).mul(meta.query_advice(a, Rotation::next())),
        meta.query_advice(a, Rotation::cur()).sub(Expr::constant(Fp::one())),
    ];
    assert_eq!(meta.create_gate("pair", second), Ok(()));
    assert_eq!(meta.num_gates(), 2);
    assert_eq!(meta.gate(0).unwrap().name(), "zero");
    assert_eq!(meta.gate(0).unwrap().selector(), t);
    assert_eq!(meta.gate(0).unwrap().polys().len(), 1);
    assert_eq!(meta.gate(1).unwrap().name(), "pair");
    assert_eq!(meta.gate(1).unwrap().selector(), s);
    assert_eq!(meta.gate(1).unwrap().polys().len(), 2);
}

#[test]
fn create_gate_refuses_foreign_handles() {
    let mut other = ConstraintSystem::<Fp>::new();
    other.allocate_advice_column();
    let foreign_column = other.allocate_advice_column();
    other.allocate_selector();
    let foreign_selector = other.allocate_selector();

    let mut meta = ConstraintSystem::<Fp>::new();
    let a = meta.allocate_advice_column();
    let s = meta.allocate_selector();
    let polys = vec![meta.query_selector(s).mul(meta.query_advice(foreign_column, Rotation::cur()))];
    assert_eq!(meta.create_gate("bad column", polys), Err(Error::ColumnNotFound));
    let polys = vec![meta.query_selector(foreign_selector).mul(meta.query_advice(a, Rotation::cur()))];
    assert_eq!(meta.create_gate("bad selector", polys), Err(Error::ColumnNotFound));
    assert_eq!(meta.num_gates(), 0);
    assert_eq!(meta.num_advice_columns(), 1);
    assert_eq!(meta.num_selectors(), 1);
}

#[test]
fn judge_gives_the_verdict_for_one_row() {
    let mut meta = ConstraintSystem::<Fp>::new();
    let a = meta.allocate_advice_column();
    let s = meta.allocate_selector();
    let polys = vec![
        meta.query_selector(s).mul(meta.query_advice(a, Rotation::cur())),
        meta.query_advice(a, Rotation::cur()).sub(Expr::constant(Fp::from_u64(2))),
    ];
    meta.create_gate("g", polys).unwrap();
    let gate = meta.gate(0).unwrap();

    let mut g = grid(1, 1, 1);
    assert_eq!(judge(gate, 0, &g, 0), None);
    assert_eq!(judge(gate, 1, &g, 0), None);
    g.set_selector(s, 0, true).unwrap();
    assert_eq!(judge(gate, 0, &g, 0), Some(Error::CellNotAssigned));
    assert_eq!(judge(gate, 1, &g, 0), Some(Error::CellNotAssigned));
    assert_eq!(judge(gate, 0, &g, 1), None);
    g.assign(a, 0, known(2)).unwrap();
    assert_eq!(judge(gate, 0, &g, 0), Some(Error::ConstraintViolated));
    assert_eq!(judge(gate, 1, &g, 0), None);
    g.assign(a, 0, known(0)).unwrap();
    assert_eq!(judge(gate, 0, &g, 0), None);
    assert_eq!(judge(gate, 1, &g, 0), Some(Error::ConstraintViolated));
}

#[test]
fn check_passes_a_system_without_gates() {
    let meta = ConstraintSystem::<Fp>::new();
    assert_eq!(check(&meta, &grid(0, 0, 3)), Ok(()));
    assert_eq!(check(&meta, &grid(2, 2, 0)), Ok(()));
}

#[test]
fn check_reports_every_violation_in_order() {
    let mut meta = ConstraintSystem::<Fp>::new();
    let a = meta.allocate_advice_column();
    let b = meta.allocate_advice_column();
    let s = meta.allocate_selector();
    let t = meta.allocate_selector();
    let equal = vec![
        meta.query_selector(s).mul(meta.query_advice(a, Rotation::cur()).sub(meta.query_advice(b, Rotation::cur()))),
        meta.query_selector(s).mul(meta.query_advice(b, Rotation::cur()).sub(Expr::constant(Fp::from_u64(5)))),
    ];
    meta.create_gate("equal five", equal).unwrap();
    let step = vec![
        meta.query_selector(t).mul(
            meta.query_advice(a, Rotation::next()).sub(meta.query_advice(a, Rotation::cur())).sub(Expr::constant(Fp::one())),
        ),
    ];
    meta.create_gate("step", step).unwrap();

    let mut g = grid(2, 2, 2);
    for (row, x, y) in [(0usize, 5u64, 5u64), (1, 6, 5), (2, 7, 7)] {
        g.assign(a, row, known(x)).unwrap();
        g.assign(b, row, known(y)).unwrap();
    }
    for row in 0..4 {
        g.set_selector(s, row, true).unwrap();
    }
    for row in 0..3 {
        g.set_selector(t, row, true).unwrap();
    }
    assert_eq!(
        check(&meta, &g),
        Err(vec![
            failure(Error::ConstraintViolated, 0, 0, 1),
            failure(Error::CellNotAssigned, 0, 0, 3),
            failure(Error::ConstraintViolated, 0, 1, 2),
            failure(Error::CellNotAssigned, 0, 1, 3),
            failure(Error::CellNotAssigned, 1, 0, 2),
        ])
    );

    g.set_selector(s, 3, false).unwrap();
    g.set_selector(s, 2, false).unwrap();
    g.set_selector(s, 1, false).unwrap();
    g.set_selector(t, 2, false).unwrap();
    assert_eq!(check(&meta, &g), Ok(()));

    g.set_selector(t, 3, true).unwrap();
    g.assign(a, 3, known(4)).unwrap();
    assert_eq!(check(&meta, &g), Ok(()));
    g.assign(a, 3, known(8)).unwrap();
    assert_eq!(check(&meta, &g), Err(vec![failure(Error::ConstraintViolated, 1, 0, 3)]));
}

#[test]
fn check_treats_a_missing_column_as_unassigned() {
    let mut meta = ConstraintSystem::<Fp>::new();
    let a = meta.allocate_advice_column();
    let b = meta.allocate_advice_column();
    let s = meta.allocate_selector();
    let polys = vec![meta.query_selector(s).mul(meta.query_advice(a, Rotation::cur()).sub(meta.query_advice(b, Rotation::cur())))];
    meta.create_gate("equal", polys).unwrap();
    let mut narrow = grid(1, 1, 1);
    narrow.assign(a, 0, known(1)).unwrap();
    assert_eq!(check(&meta, &narrow), Ok(()));
    narrow.set_selector(s, 0, true).unwrap();
    assert_eq!(check(&meta, &narrow), Err(vec![failure(Error::CellNotAssigned, 0, 0, 0)]));
    assert_eq!(check(&meta, &grid(2, 0, 1)), Ok(()));
}
