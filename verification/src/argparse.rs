use vstd::prelude::*;

verus! {

/// Arguments of the fitting command: where to read the knot table and
/// where to write the fitted segment table.
#[derive(Debug)]
pub struct InterpolateConfig {
    pub input_path: String,
    pub output_path: String,
}

/// Arguments of the evaluation command: where to read the segment table,
/// and the query values as double-precision bit patterns, in input order.
#[derive(Debug)]
pub struct EvaluateConfig {
    pub input_path: String,
    pub values: Vec<u64>,
}

/// The command the program was asked to run.
#[derive(Debug)]
pub enum Config {
    Interpolate(InterpolateConfig),
    Evaluate(EvaluateConfig),
}

} // verus!
