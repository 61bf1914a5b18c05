use vstd::prelude::*;
use crate::environment::Environment;
use crate::error::{Error, ErrorView};
use crate::evaluators::EvaluatorTrait;

verus! {

/// Holds where `path` exists.
#[derive(Debug, Clone)]
pub struct FileEvaluator {
    pub path: String,
}

impl EvaluatorTrait for FileEvaluator {
    open spec fn outcome(&self, env: &Environment) -> Result<bool, ErrorView> {
        Ok(env.has_file(self.path@))
    }

    fn evaluate(&self, env: &Environment) -> (r: Result<bool, Error>) {
        Ok(env.file_exists(self.path.as_str()))
    }
}

} // verus!
