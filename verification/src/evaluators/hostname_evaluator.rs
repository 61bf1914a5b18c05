use vstd::prelude::*;
use crate::environment::Environment;
use crate::primitives::{hostname_matches, hostname_outcome};
use crate::error::{Error, ErrorView};
use crate::evaluators::EvaluatorTrait;

verus! {

/// Holds on the machine whose name is exactly `target`.
#[derive(Debug, Clone)]
pub struct HostnameEvaluator {
    pub target: String,
}

impl EvaluatorTrait for HostnameEvaluator {
    open spec fn outcome(&self, env: &Environment) -> Result<bool, ErrorView> {
        hostname_outcome(env.platform.hostname, self.target@)
    }

    fn evaluate(&self, env: &Environment) -> (r: Result<bool, Error>) {
        hostname_matches(&env.platform.hostname, self.target.as_str())
    }
}

} // verus!
