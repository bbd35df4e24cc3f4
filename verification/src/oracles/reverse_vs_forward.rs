//! Reverse mode against forward mode.

use super::{judge, spec_judge, Deviation, EngineResults, GroundTruth, Oracle, OracleError,
    OracleFault, OracleKind, ABS_TOLERANCE};
use vstd::prelude::*;

verus! {

/// Compares the Jacobian of reverse mode with that of forward mode, which is
/// the reference. A NaN on one side only is a failure even where the forward
/// value is itself not finite.
#[derive(Debug, Clone, Copy)]
pub struct ReverseVsForwardCheck;

impl Oracle for ReverseVsForwardCheck {
    open spec fn verdict(
        &self,
        engine: &EngineResults,
        ground_truth: Option<&GroundTruth>,
        index: usize,
        arith: &Deviation,
    ) -> Result<(), OracleFault> {
        if index >= engine.reverse@.len() || index >= engine.forward@.len() {
            Err(OracleFault::DimensionMismatch)
        } else {
            spec_judge(
                OracleKind::ReverseVsForward,
                "Reverse AD"@,
                "Forward AD"@,
                index,
                engine.inputs@,
                engine.reverse@[index as int],
                engine.forward@[index as int],
                *arith,
                ABS_TOLERANCE,
            )
        }
    }

    fn check(
        &self,
        engine: &EngineResults,
        ground_truth: Option<&GroundTruth>,
        index: usize,
        arith: &Deviation,
    ) -> (r: Result<(), OracleError>) {
        if index >= engine.reverse.len() || index >= engine.forward.len() {
            return Err(OracleError::DimensionMismatch);
        }
        judge(
            OracleKind::ReverseVsForward,
            "Reverse AD",
            "Forward AD",
            index,
            &engine.inputs,
            engine.reverse[index],
            engine.forward[index],
            arith,
            ABS_TOLERANCE,
        )
    }
}

} // verus!
