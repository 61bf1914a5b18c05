use vstd::prelude::*;
use crate::environment::Environment;
use crate::error::{Error, ErrorView};
use crate::evaluators::EvaluatorTrait;

verus! {

/// A condition that holds or not by decree.
#[derive(Debug, Clone, Copy, PartialEq, Eq, Structural)]
pub struct BoolEvaluator {
    pub pass: bool,
}

impl EvaluatorTrait for BoolEvaluator {
    open spec fn outcome(&self, env: &Environment) -> Result<bool, ErrorView> {
        Ok(self.pass)
    }

    fn evaluate(&self, env: &Environment) -> (r: Result<bool, Error>) {
        Ok(self.pass)
    }
}

} // verus!
