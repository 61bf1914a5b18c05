use vstd::prelude::*;
use crate::environment::Environment;
use crate::error::{Error, ErrorView};
use crate::evaluators::EvaluatorTrait;
use crate::primitives::{os_equals, os_outcome};

verus! {

/// Holds on the operating system that `target` names: `linux`, `macos` or
/// its other name `darwin`, `windows`, or `unix` for the whole family. Any
/// other text is a mistake in the declaration and fails.
#[derive(Debug, Clone)]
pub struct OSEvaluator {
    pub target: String,
}

impl EvaluatorTrait for OSEvaluator {
    open spec fn outcome(&self, env: &Environment) -> Result<bool, ErrorView> {
        os_outcome(self.target@, env.platform)
    }

    fn evaluate(&self, env: &Environment) -> (r: Result<bool, Error>) {
        os_equals(self.target.as_str(), &env.platform)
    }
}

} // verus!
