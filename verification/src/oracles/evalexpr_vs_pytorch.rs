//! The symbolic evaluator against a ground truth.

use super::{judge, reports, spec_judge, Bounds, Deviation, GroundTruth, OracleError, OracleFault,
    OracleKind, ABS_TOLERANCE, REL_TOLERANCE};
use vstd::prelude::*;

verus! {

/// Compares the derivatives of the symbolic evaluator with ground truths, which
/// are the reference. An entry of a ground truth that is not finite is not
/// judged.
#[derive(Debug, Clone, Copy)]
pub struct EvalexprVsPyTorchCheck {
    abs_tolerance: u64,
    rel_tolerance: u64,
}

impl EvalexprVsPyTorchCheck {
    /// The two bounds of this check.
    pub closed spec fn spec_bounds(&self) -> Bounds {
        Bounds { abs_tolerance: self.abs_tolerance, rel_tolerance: self.rel_tolerance }
    }

    /// The check with the bounds `1e-12` and `1e-9`.
    pub fn new() -> (c: Self)
        ensures
            c.spec_bounds() == (Bounds {
                abs_tolerance: ABS_TOLERANCE,
                rel_tolerance: REL_TOLERANCE,
            }),
    {
        EvalexprVsPyTorchCheck { abs_tolerance: ABS_TOLERANCE, rel_tolerance: REL_TOLERANCE }
    }

    /// The two bounds of this check.
    pub fn bounds(&self) -> (b: Bounds)
        ensures
            b == self.spec_bounds(),
    {
        Bounds { abs_tolerance: self.abs_tolerance, rel_tolerance: self.rel_tolerance }
    }

    /// What `check_derivative` decides.
    pub open spec fn verdict(
        &self,
        derivative: u64,
        inputs: Seq<u64>,
        gt: &GroundTruth,
        var_index: usize,
        arith: &Deviation,
    ) -> Result<(), OracleFault> {
        if var_index >= gt.jacobian@.len() {
            Err(OracleFault::DimensionMismatch)
        } else {
            spec_judge(
                OracleKind::Symbolic,
                "evalexpr-jit"@,
                gt.name@,
                var_index,
                inputs,
                derivative,
                gt.jacobian@[var_index as int],
                *arith,
                self.spec_bounds().abs_tolerance,
            )
        }
    }

    /// Compares the derivative with respect to variable `var_index`, as the
    /// symbolic evaluator gave it, with the same entry of the ground truth.
    pub fn check_derivative(
        &self,
        derivative: u64,
        inputs: &Vec<u64>,
        gt: &GroundTruth,
        var_index: usize,
        arith: &Deviation,
    ) -> (r: Result<(), OracleError>)
        ensures
            reports(r, self.verdict(derivative, inputs@, gt, var_index, arith)),
    {
        if var_index >= gt.jacobian.len() {
            return Err(OracleError::DimensionMismatch);
        }
        judge(
            OracleKind::Symbolic,
            "evalexpr-jit",
            gt.name.as_str(),
            var_index,
            inputs,
            derivative,
            gt.jacobian[var_index],
            arith,
            self.abs_tolerance,
        )
    }

    /// Whether every ground truth has an entry for each derivative, and every
    /// row of arithmetic one entry for each.
    pub open spec fn well_shaped(
        derivatives: Seq<u64>,
        truths: Seq<GroundTruth>,
        arith: Seq<Vec<Deviation>>,
    ) -> bool {
        &&& arith.len() == truths.len()
        &&& forall|g: int| 0 <= g < truths.len() ==> Self::row_fits(derivatives, truths, arith, g)
    }

    /// Whether ground truth `g` has an entry for each derivative, and its row of
    /// arithmetic one entry for each.
    pub open spec fn row_fits(
        derivatives: Seq<u64>,
        truths: Seq<GroundTruth>,
        arith: Seq<Vec<Deviation>>,
        g: int,
    ) -> bool {
        truths[g].jacobian@.len() >= derivatives.len() && arith[g]@.len() == derivatives.len()
    }

    /// The first `n` derivatives against ground truth `g`, in order.
    pub open spec fn row(
        &self,
        derivatives: Seq<u64>,
        inputs: Seq<u64>,
        truths: Seq<GroundTruth>,
        arith: Seq<Vec<Deviation>>,
        g: int,
        n: nat,
    ) -> Result<(), OracleFault>
        decreases n,
    {
        if n == 0 || n > derivatives.len() {
            Ok(())
        } else {
            match self.row(derivatives, inputs, truths, arith, g, (n - 1) as nat) {
                Err(e) => Err(e),
                Ok(_) => self.verdict(
                    derivatives[n - 1],
                    inputs,
                    &truths[g],
                    (n - 1) as usize,
                    &arith[g]@[n - 1],
                ),
            }
        }
    }

    /// All derivatives against the first `g` ground truths, one ground truth
    /// after the other.
    pub open spec fn rows(
        &self,
        derivatives: Seq<u64>,
        inputs: Seq<u64>,
        truths: Seq<GroundTruth>,
        arith: Seq<Vec<Deviation>>,
        g: nat,
    ) -> Result<(), OracleFault>
        decreases g,
    {
        if g == 0 || g > truths.len() {
            Ok(())
        } else {
            match self.rows(derivatives, inputs, truths, arith, (g - 1) as nat) {
                Err(e) => Err(e),
                Ok(_) => self.row(derivatives, inputs, truths, arith, g - 1, derivatives.len()),
            }
        }
    }

    /// What `check_all` decides.
    pub open spec fn spec_check_all(
        &self,
        derivatives: Seq<u64>,
        inputs: Seq<u64>,
        truths: Seq<GroundTruth>,
        arith: Seq<Vec<Deviation>>,
    ) -> Result<(), OracleFault> {
        if !Self::well_shaped(derivatives, truths, arith) {
            Err(OracleFault::DimensionMismatch)
        } else {
            self.rows(derivatives, inputs, truths, arith, truths.len())
        }
    }

    /// Once a prefix of a row fails, every longer prefix fails in the same way.
    pub proof fn row_fails(
        &self,
        derivatives: Seq<u64>,
        inputs: Seq<u64>,
        truths: Seq<GroundTruth>,
        arith: Seq<Vec<Deviation>>,
        g: int,
        n: nat,
        m: nat,
    )
        requires
            n <= m <= derivatives.len(),
            self.row(derivatives, inputs, truths, arith, g, n) is Err,
        ensures
            self.row(derivatives, inputs, truths, arith, g, m) == self.row(
                derivatives,
                inputs,
                truths,
                arith,
                g,
                n,
            ),
        decreases m,
    {
        if n < m {
            self.row_fails(derivatives, inputs, truths, arith, g, n, (m - 1) as nat);
        }
    }

    /// Once a prefix of the rows fails, every longer prefix fails in the same
    /// way.
    pub proof fn rows_fail(
        &self,
        derivatives: Seq<u64>,
        inputs: Seq<u64>,
        truths: Seq<GroundTruth>,
        arith: Seq<Vec<Deviation>>,
        g: nat,
        h: nat,
    )
        requires
            g <= h <= truths.len(),
            self.rows(derivatives, inputs, truths, arith, g) is Err,
        ensures
            self.rows(derivatives, inputs, truths, arith, h) == self.rows(
                derivatives,
                inputs,
                truths,
                arith,
                g,
            ),
        decreases h,
    {
        if g < h {
            self.rows_fail(derivatives, inputs, truths, arith, g, (h - 1) as nat);
        }
    }

    fn shapes_agree(
        derivatives: &Vec<u64>,
        ground_truths: &[GroundTruth],
        arith: &Vec<Vec<Deviation>>,
    ) -> (b: bool)
        ensures
            b == Self::well_shaped(derivatives@, ground_truths@, arith@),
    {
        if arith.len() != ground_truths.len() {
            return false;
        }
        let mut g: usize = 0;
        while g < ground_truths.len()
            invariant
                g <= ground_truths@.len(),
                arith@.len() == ground_truths@.len(),
                forall|h: int|
                    0 <= h < g ==> Self::row_fits(derivatives@, ground_truths@, arith@, h),
            decreases ground_truths@.len() - g,
        {
            if ground_truths[g].jacobian.len() < derivatives.len() || arith[g].len()
                != derivatives.len() {
                assert(!Self::row_fits(derivatives@, ground_truths@, arith@, g as int));
                return false;
            }
            assert(Self::row_fits(derivatives@, ground_truths@, arith@, g as int));
            g = g + 1;
        }
        true
    }

    /// Compares every derivative with every ground truth, one ground truth
    /// after the other, and returns the first failure.
    ///
    /// `derivatives` holds one derivative for each input variable, and `arith`
    /// what arithmetic says of each against each ground truth.
    pub fn check_all(
        &self,
        derivatives: &Vec<u64>,
        inputs: &Vec<u64>,
        ground_truths: &[GroundTruth],
        arith: &Vec<Vec<Deviation>>,
    ) -> (r: Result<(), OracleError>)
        ensures
            reports(r, self.spec_check_all(derivatives@, inputs@, ground_truths@, arith@)),
    {
        if !Self::shapes_agree(derivatives, ground_truths, arith) {
            return Err(OracleError::DimensionMismatch);
        }
        let ghost truths = ground_truths@;
        let mut g: usize = 0;
        while g < ground_truths.len()
            invariant
                g <= truths.len(),
                truths == ground_truths@,
                Self::well_shaped(derivatives@, truths, arith@),
                self.rows(derivatives@, inputs@, truths, arith@, g as nat) is Ok,
            decreases truths.len() - g,
        {
            assert(Self::row_fits(derivatives@, truths, arith@, g as int));
            let mut i: usize = 0;
            while i < derivatives.len()
                invariant
                    i <= derivatives@.len(),
                    g < truths.len(),
                    truths == ground_truths@,
                    Self::well_shaped(derivatives@, truths, arith@),
                    Self::row_fits(derivatives@, truths, arith@, g as int),
                    self.rows(derivatives@, inputs@, truths, arith@, g as nat) is Ok,
                    self.row(derivatives@, inputs@, truths, arith@, g as int, i as nat) is Ok,
                decreases derivatives@.len() - i,
            {
                match self.check_derivative(
                    derivatives[i],
                    inputs,
                    &ground_truths[g],
                    i,
                    &arith[g][i],
                ) {
                    Err(e) => {
                        proof {
                            self.row_fails(
                                derivatives@,
                                inputs@,
                                truths,
                                arith@,
                                g as int,
                                (i + 1) as nat,
                                derivatives@.len(),
                            );
                            self.rows_fail(
                                derivatives@,
                                inputs@,
                                truths,
                                arith@,
                                (g + 1) as nat,
                                truths.len(),
                            );
                        }
                        return Err(e);
                    },
                    Ok(_) => {},
                }
                i = i + 1;
            }
            g = g + 1;
        }
        Ok(())
    }
}

impl Default for EvalexprVsPyTorchCheck {
    fn default() -> (c: Self)
        ensures
            c.spec_bounds() == (Bounds {
                abs_tolerance: ABS_TOLERANCE,
                rel_tolerance: REL_TOLERANCE,
            }),
    {
        Self::new()
    }
}

} // verus!
