use vstd::prelude::*;
use crate::evaluators::{
    BoolEvaluator, FileEvaluator, GatekeeperEvaluator, HostnameEvaluator, OSEvaluator, OneOrMany,
};

verus! {

/// The conditions of one group: one kind, one or many of them.
#[derive(Debug)]
pub enum EvaluatorType {
    Hostname(OneOrMany<HostnameEvaluator>),
    File(OneOrMany<FileEvaluator>),
    Gatekeeper(OneOrMany<GatekeeperEvaluator>),
    Os(OneOrMany<OSEvaluator>),
    Bool(OneOrMany<BoolEvaluator>),
}

} // verus!
