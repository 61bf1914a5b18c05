use vstd::prelude::*;

verus! {

/// Holds where the gatekeeper called `name` holds.
#[derive(Debug, Clone)]
pub struct GatekeeperEvaluator {
    pub name: String,
}

} // verus!
