//! One mode of the engine against a ground truth.

use super::{judge, spec_judge, Deviation, EngineResults, GroundTruth, Oracle, OracleError,
    OracleFault, OracleKind, ABS_TOLERANCE};
use vstd::prelude::*;

verus! {

/// The mode whose Jacobian is compared with the ground truth.
#[derive(Debug, Clone, Copy, PartialEq, Eq, Structural)]
pub enum ADType {
    Reverse,
    Forward,
}

/// Compares the Jacobian of one mode with a ground truth, which is the
/// reference. An entry of the ground truth that is not finite is not judged.
#[derive(Debug, Clone, Copy)]
pub struct ADVsGroundTruthCheck {
    pub ad_type: ADType,
}

impl ADVsGroundTruthCheck {
    /// The Jacobian of the mode that this check speaks of.
    pub open spec fn jacobian(self, engine: &EngineResults) -> Seq<u64> {
        match self.ad_type {
            ADType::Reverse => engine.reverse@,
            ADType::Forward => engine.forward@,
        }
    }

    /// The kind of this oracle.
    pub open spec fn kind(self) -> OracleKind {
        match self.ad_type {
            ADType::Reverse => OracleKind::ReverseVsTruth,
            ADType::Forward => OracleKind::ForwardVsTruth,
        }
    }

    /// The name of that mode in reports.
    pub open spec fn mode_name(self) -> Seq<char> {
        match self.ad_type {
            ADType::Reverse => "Reverse AD"@,
            ADType::Forward => "Forward AD"@,
        }
    }
}

impl Oracle for ADVsGroundTruthCheck {
    open spec fn verdict(
        &self,
        engine: &EngineResults,
        ground_truth: Option<&GroundTruth>,
        index: usize,
        arith: &Deviation,
    ) -> Result<(), OracleFault> {
        match ground_truth {
            None => Err(OracleFault::MissingGroundTruth),
            Some(gt) => if index >= self.jacobian(engine).len() || index >= gt.jacobian@.len() {
                Err(OracleFault::DimensionMismatch)
            } else {
                spec_judge(
                    self.kind(),
                    self.mode_name(),
                    gt.name@,
                    index,
                    engine.inputs@,
                    self.jacobian(engine)[index as int],
                    gt.jacobian@[index as int],
                    *arith,
                    ABS_TOLERANCE,
                )
            },
        }
    }

    fn check(
        &self,
        engine: &EngineResults,
        ground_truth: Option<&GroundTruth>,
        index: usize,
        arith: &Deviation,
    ) -> (r: Result<(), OracleError>) {
        let gt = match ground_truth {
            None => {
                return Err(OracleError::MissingGroundTruth);
            },
            Some(gt) => gt,
        };
        let (jacobian, name, kind) = match self.ad_type {
            ADType::Reverse => (&engine.reverse, "Reverse AD", OracleKind::ReverseVsTruth),
            ADType::Forward => (&engine.forward, "Forward AD", OracleKind::ForwardVsTruth),
        };
        if index >= jacobian.len() || index >= gt.jacobian.len() {
            return Err(OracleError::DimensionMismatch);
        }
        judge(
            kind,
            name,
            gt.name.as_str(),
            index,
            &engine.inputs,
            jacobian[index],
            gt.jacobian[index],
            arith,
            ABS_TOLERANCE,
        )
    }
}

} // verus!
