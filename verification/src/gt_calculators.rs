//! Ground truth from an autograd library.
//!
//! The tensors and the backward pass belong to the library that is driven; what
//! is decided between its calls stands here. After the forward pass the driver
//! reports what came out and is told how to go on; after the backward pass it
//! reports the gradients that were stored and gets the Jacobian.

use crate::double;
use vstd::prelude::*;

verus! {

/// What the forward pass produced.
#[derive(Debug, Clone, Copy)]
pub struct OutputSummary {
    /// The number of output tensors.
    pub count: usize,
    /// The number of elements of the first output tensor.
    pub elements: usize,
    /// Whether the first output tensor depends on an input that tracks
    /// gradients.
    pub requires_grad: bool,
}

/// Why no ground truth was computed.
#[derive(Debug, Clone, Copy, PartialEq, Eq, Structural)]
pub enum GroundTruthError {
    /// The function returned no output.
    NoOutput,
    /// The output is not a scalar.
    NotScalar,
}

/// How to go on after the forward pass.
#[derive(Debug)]
pub enum GradientStep {
    /// There is no ground truth for this point.
    Reject(GroundTruthError),
    /// The output does not depend on the inputs: this is the Jacobian.
    Constant(Vec<u64>),
    /// Run the backward pass and collect the gradients.
    Backward,
}

/// The model of a `GradientStep`.
pub enum GradientPlan {
    Reject(GroundTruthError),
    Constant(Seq<u64>),
    Backward,
}

impl View for GradientStep {
    type V = GradientPlan;

    open spec fn view(&self) -> GradientPlan {
        match self {
            GradientStep::Reject(e) => GradientPlan::Reject(*e),
            GradientStep::Constant(j) => GradientPlan::Constant(j@),
            GradientStep::Backward => GradientPlan::Backward,
        }
    }
}

/// What follows the forward pass of a function of `n` inputs: no ground truth
/// where there is no output or the output is not a scalar, a Jacobian of zeros
/// where the output does not depend on the inputs, else the backward pass.
pub open spec fn planned_step(summary: OutputSummary, n: nat) -> GradientPlan {
    if summary.count == 0 {
        GradientPlan::Reject(GroundTruthError::NoOutput)
    } else if summary.elements != 1 {
        GradientPlan::Reject(GroundTruthError::NotScalar)
    } else if !summary.requires_grad {
        GradientPlan::Constant(zeros(n))
    } else {
        GradientPlan::Backward
    }
}

/// The Jacobian of a function that does not depend on its inputs.
pub open spec fn zeros(n: nat) -> Seq<u64> {
    Seq::new(n, |i: int| double::ZERO)
}

/// The Jacobian from the gradients that were stored: where none was stored for
/// an input, the output does not depend on it, and the entry is zero.
pub open spec fn collected(stored: Seq<Option<u64>>) -> Seq<u64> {
    Seq::new(
        stored.len(),
        |i: int|
            match stored[i] {
                Some(bits) => bits,
                None => double::ZERO,
            },
    )
}

/// The calculator of ground truths that drives an autograd library.
#[derive(Debug, Clone, Copy)]
pub struct PyTorchGroundTruthCalculator;

impl PyTorchGroundTruthCalculator {
    /// The name of the source in reports.
    pub fn name(&self) -> (s: &'static str)
        ensures
            s@ == "PyTorch"@,
    {
        "PyTorch"
    }

    /// Decides how to go on after the forward pass of a function of
    /// `num_inputs` inputs.
    pub fn after_forward(&self, summary: &OutputSummary, num_inputs: usize) -> (step: GradientStep)
        ensures
            step@ == planned_step(*summary, num_inputs as nat),
    {
        if summary.count == 0 {
            GradientStep::Reject(GroundTruthError::NoOutput)
        } else if summary.elements != 1 {
            GradientStep::Reject(GroundTruthError::NotScalar)
        } else if !summary.requires_grad {
            let mut jacobian: Vec<u64> = Vec::new();
            let mut i: usize = 0;
            while i < num_inputs
                invariant
                    i <= num_inputs,
                    jacobian@ == zeros(i as nat),
                decreases num_inputs - i,
            {
                jacobian.push(double::ZERO);
                assert(jacobian@ =~= zeros((i + 1) as nat));
                i = i + 1;
            }
            GradientStep::Constant(jacobian)
        } else {
            GradientStep::Backward
        }
    }

    /// The Jacobian from the gradients that the backward pass stored, one for
    /// each input and `None` where none was stored.
    pub fn gradients(&self, stored: &Vec<Option<u64>>) -> (jacobian: Vec<u64>)
        ensures
            jacobian@ == collected(stored@),
    {
        let mut jacobian: Vec<u64> = Vec::new();
        let mut i: usize = 0;
        while i < stored.len()
            invariant
                i <= stored@.len(),
                jacobian@ == collected(stored@.take(i as int)),
            decreases stored@.len() - i,
        {
            let entry = match stored[i] {
                Some(bits) => bits,
                None => double::ZERO,
            };
            jacobian.push(entry);
            assert(jacobian@ =~= collected(stored@.take(i as int + 1)));
            i = i + 1;
        }
        assert(stored@.take(stored@.len() as int) =~= stored@);
        jacobian
    }
}

impl GroundTruthError {
    /// The text of the error.
    pub fn message(&self) -> (s: &'static str)
        ensures
            s@ == match self {
                GroundTruthError::NoOutput => "PyTorch function returned no output."@,
                GroundTruthError::NotScalar => "PyTorch output is not a scalar, skipping derivative calculation."@,
            },
    {
        match self {
            GroundTruthError::NoOutput => "PyTorch function returned no output.",
            GroundTruthError::NotScalar => "PyTorch output is not a scalar, skipping derivative calculation.",
        }
    }
}

} // verus!
