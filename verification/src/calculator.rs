//! A circuit that adds two field elements, and a run of it.

use vstd::prelude::*;
use vstd::arithmetic::power2::{lemma2_to64, pow2};
use crate::assignment::Grid;
use crate::checker::{check, violations};
use crate::constraint_system::{ConstraintSystem, SystemView};
use crate::field::Field;
use crate::layouter::Layouter;
use crate::pallas::Fp;
use crate::value::Value;
use self::add::{configured, lemma_addition_is_satisfied, AddConfig, CalculatorCircuit};

pub mod add;

verus! {

/// The constraint system of [`run`]: the addition circuit, configured on an
/// empty system.
pub open spec fn run_system() -> SystemView<Fp> {
    configured(SystemView::<Fp>::empty())
}

/// The grid that [`run`] checks: a blank grid of `2^4` rows with the
/// addition of 3 and 5 laid out on its first row.
pub open spec fn run_grid() -> Grid {
    AddConfig::after(SystemView::<Fp>::empty()).synthesized(
        Grid::blank(3, 1, pow2(4)),
        0,
        Some(3nat),
        Some(5nat),
        Fp::modulus(),
    )
}

/// Adds 3 and 5 in the Pallas base field on a grid of `2^4` rows: configures
/// the addition circuit, lays it out and checks the assignment.
///
/// The result is the verdict of the check on that grid: whether it found no
/// violation. It always is a pass, since neither the layout nor the check
/// can fail on this circuit.
pub fn run() -> (passed: bool)
    ensures
        passed == (violations(run_system(), run_grid()).len() == 0),
        passed,
{
    let a = Fp::from_u64(3);
    let b = Fp::from_u64(5);
    let circuit = CalculatorCircuit { a: Value::known(a), b: Value::known(b) };

    let k: u32 = 4;
    let mut meta = ConstraintSystem::<Fp>::new();
    let config = CalculatorCircuit::configure(&mut meta);
    proof {
        lemma2_to64();
        lemma_addition_is_satisfied(a, b, 4);
    }
    let layouter = match Layouter::new(&meta, k) {
        Ok(layouter) => layouter,
        Err(_) => {
            return false;
        },
    };
    let done = match circuit.synthesize(config, layouter) {
        Ok(done) => done,
        Err(_) => {
            return false;
        },
    };
    let assignment = done.into_assignment();
    match check(&meta, &assignment) {
        Ok(()) => true,
        Err(_) => false,
    }
}

} // verus!
