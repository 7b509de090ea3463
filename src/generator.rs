//! Configuration and errors of the generate-verify-optimize loop.

use crate::cascade::{CascadeConfig, default_cascade_config};
use crate::perf::ProgressGuarantee;
use vstd::prelude::*;

verus! {

/// Configuration of the generator loop.
#[derive(Debug, Clone)]
pub struct GeneratorConfig {
    /// Attempts allowed to reach a correct implementation.
    pub max_correctness_attempts: u32,
    /// Attempts allowed to improve performance afterwards.
    pub max_perf_attempts: u32,
    /// Weakest acceptable progress guarantee.
    pub min_progress_guarantee: ProgressGuarantee,
    /// Progress guarantee to aim for.
    pub target_progress_guarantee: ProgressGuarantee,
    /// Cascade used to check each attempt.
    pub cascade_config: CascadeConfig,
    /// Verbose output.
    pub verbose: bool,
    /// Where to write generated code.
    pub output_dir: Option<String>,
}

/// The default configuration: five correctness attempts, three performance
/// attempts, aiming at lock-freedom.
pub open spec fn default_generator_config() -> GeneratorConfig {
    GeneratorConfig {
        max_correctness_attempts: 5,
        max_perf_attempts: 3,
        min_progress_guarantee: ProgressGuarantee::Blocking,
        target_progress_guarantee: ProgressGuarantee::LockFree,
        cascade_config: default_cascade_config(),
        verbose: false,
        output_dir: None,
    }
}

impl Default for GeneratorConfig {
    fn default() -> (r: Self)
        ensures
            r == default_generator_config(),
    {
        GeneratorConfig {
            max_correctness_attempts: 5,
            max_perf_attempts: 3,
            min_progress_guarantee: ProgressGuarantee::Blocking,
            target_progress_guarantee: ProgressGuarantee::LockFree,
            cascade_config: CascadeConfig::default(),
            verbose: false,
            output_dir: None,
        }
    }
}

impl GeneratorConfig {
    /// Fast iteration: three correctness attempts, one performance attempt,
    /// the fast cascade, verbose.
    pub fn quick() -> (r: Self)
        ensures
            r.max_correctness_attempts == 3,
            r.max_perf_attempts == 1,
            r.min_progress_guarantee == ProgressGuarantee::Blocking,
            r.target_progress_guarantee == ProgressGuarantee::LockFree,
            r.verbose,
            r.output_dir.is_none(),
            r.cascade_config.max_level == crate::cascade::EvaluatorLevel::Miri,
    {
        let mut c = GeneratorConfig::default();
        c.max_correctness_attempts = 3;
        c.max_perf_attempts = 1;
        c.cascade_config = CascadeConfig::fast();
        c.verbose = true;
        c
    }

    /// Production: ten correctness attempts, five performance attempts,
    /// aiming at wait-freedom, the thorough cascade, verbose.
    pub fn thorough() -> (r: Self)
        ensures
            r.max_correctness_attempts == 10,
            r.max_perf_attempts == 5,
            r.min_progress_guarantee == ProgressGuarantee::Blocking,
            r.target_progress_guarantee == ProgressGuarantee::WaitFree,
            r.verbose,
            r.output_dir.is_none(),
            r.cascade_config.max_level == crate::cascade::EvaluatorLevel::Stateright,
    {
        let mut c = GeneratorConfig::default();
        c.max_correctness_attempts = 10;
        c.max_perf_attempts = 5;
        c.target_progress_guarantee = ProgressGuarantee::WaitFree;
        c.cascade_config = CascadeConfig::thorough();
        c.verbose = true;
        c
    }
}

/// Why generation failed.
#[derive(Debug, Clone, PartialEq, Eq)]
pub enum GeneratorError {
    /// The specification could not be read.
    SpecError(String),
    /// The model client failed.
    ClientError(String),
    /// The response held no code block.
    NoCodeInResponse(String),
    /// Checking the code failed to run.
    VerificationError(String),
    /// Reading or writing a file failed.
    IoError(String),
}

} // verus!
