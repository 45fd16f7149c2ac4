//! A minimal arithmetic-circuit constraint system over a prime field.
//!
//! A circuit declares advice columns, selectors and gates in a
//! [`constraint_system::ConstraintSystem`], lays witness values out region by
//! region through a [`layouter::Layouter`], and hands the finished
//! [`assignment::Assignment`] to [`checker::check`], which re-evaluates every
//! gate at every row and reports each violated constraint.
//!
//! Field arithmetic is not implemented here: [`pallas::Fp`] forwards it to the
//! Pallas base field of `halo2_proofs`.

pub mod assignment;
pub mod calculator;
pub mod checker;
pub mod columns;
pub mod constraint_system;
pub mod error;
pub mod expression;
pub mod field;
pub mod layouter;
pub mod pallas;
pub mod value;
