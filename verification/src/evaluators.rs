//! Declared conditions: what a gatekeeper written as data is made of.

use vstd::prelude::*;
use crate::environment::Environment;
use crate::error::{Error, ErrorView};

pub mod bool_evaluator;
pub mod evaluator_type;
pub mod file_evaluator;
pub mod gatekeeper_evaluator;
pub mod hostname_evaluator;
pub mod os_evaluator;

pub use crate::gatekeeper::Evaluator;
pub use bool_evaluator::BoolEvaluator;
pub use evaluator_type::EvaluatorType;
pub use file_evaluator::FileEvaluator;
pub use gatekeeper_evaluator::GatekeeperEvaluator;
pub use hostname_evaluator::HostnameEvaluator;
pub use os_evaluator::OSEvaluator;

verus! {

/// The result of an evaluation as a mathematical value.
pub open spec fn result_view(r: Result<bool, Error>) -> Result<bool, ErrorView> {
    match r {
        Ok(b) => Ok(b),
        Err(e) => Err(e@),
    }
}

/// One condition that can be evaluated against an environment by itself.
pub trait EvaluatorTrait {
    /// What the condition gives in `env`.
    spec fn outcome(&self, env: &Environment) -> Result<bool, ErrorView>;

    fn evaluate(&self, env: &Environment) -> (r: Result<bool, Error>)
        requires
            env.wf(),
        ensures
            result_view(r) == self.outcome(env),
    ;
}

/// How the answers of several conditions make one answer.
#[derive(Debug, Clone, Copy, PartialEq, Eq, Structural)]
pub enum ConditionType {
    Eq,
    Neq,
    Any,
    All,
    NoneOf,
}

/// One condition, or a list of them.
#[derive(Debug)]
pub enum OneOrMany<T> {
    One(T),
    Many(Vec<T>),
}

/// No answer is `want`.
pub open spec fn never(answers: Seq<bool>, want: bool) -> bool {
    forall|i: int| 0 <= i < answers.len() ==> answers[i] != want
}

/// The one answer that `condition` makes of `answers`: `Eq` and `All` ask
/// that every one holds, `Neq` and `NoneOf` that none does, `Any` that at
/// least one does.
pub open spec fn reduce(condition: ConditionType, answers: Seq<bool>) -> bool {
    match condition {
        ConditionType::Eq => never(answers, false),
        ConditionType::All => never(answers, false),
        ConditionType::Neq => never(answers, true),
        ConditionType::NoneOf => never(answers, true),
        ConditionType::Any => !never(answers, true),
    }
}

/// Whether no element of `answers` is `want`.
pub fn none_is(answers: &Vec<bool>, want: bool) -> (r: bool)
    ensures
        r == never(answers@, want),
{
    let mut i: usize = 0;
    while i < answers.len()
        invariant
            i <= answers@.len(),
            forall|j: int| 0 <= j < i ==> answers@[j] != want,
        decreases answers@.len() - i,
    {
        if answers[i] == want {
            return false;
        }
        i += 1;
    }
    true
}

/// Makes one answer of `answers`, as `condition` says.
pub fn combine(condition: ConditionType, answers: &Vec<bool>) -> (r: bool)
    ensures
        r == reduce(condition, answers@),
{
    match condition {
        ConditionType::Eq => none_is(answers, false),
        ConditionType::All => none_is(answers, false),
        ConditionType::Neq => none_is(answers, true),
        ConditionType::NoneOf => none_is(answers, true),
        ConditionType::Any => !none_is(answers, true),
    }
}

/// The answers of `items` in `env`, in order; the first failure, if one of
/// them fails.
pub open spec fn outcomes<T: EvaluatorTrait>(items: Seq<T>, env: &Environment) -> Result<
    Seq<bool>,
    ErrorView,
>
    decreases items.len(),
{
    if items.len() == 0 {
        Ok(Seq::empty())
    } else {
        match outcomes(items.drop_last(), env) {
            Err(e) => Err(e),
            Ok(answers) => match items.last().outcome(env) {
                Err(e) => Err(e),
                Ok(b) => Ok(answers.push(b)),
            },
        }
    }
}

impl<T> OneOrMany<T> {
    /// The conditions held, in order.
    pub open spec fn items(&self) -> Seq<T> {
        match self {
            OneOrMany::One(v) => seq![*v],
            OneOrMany::Many(v) => v@,
        }
    }

    /// How many conditions are held.
    pub fn len(&self) -> (n: usize)
        ensures
            n == self.items().len(),
    {
        match self {
            OneOrMany::One(_) => 1,
            OneOrMany::Many(v) => v.len(),
        }
    }

    /// The condition at position `i`.
    pub fn get(&self, i: usize) -> (item: &T)
        requires
            i < self.items().len(),
        ensures
            *item == self.items()[i as int],
    {
        match self {
            OneOrMany::One(v) => v,
            OneOrMany::Many(v) => &v[i],
        }
    }

}

impl<T: EvaluatorTrait> OneOrMany<T> {
    /// Evaluates every condition in order and stops at the first failure.
    pub fn results(&self, env: &Environment) -> (r: Result<Vec<bool>, Error>)
        requires
            env.wf(),
        ensures
            match r {
                Ok(answers) => outcomes(self.items(), env) == Ok::<Seq<bool>, ErrorView>(answers@),
                Err(e) => outcomes(self.items(), env) == Err::<Seq<bool>, ErrorView>(e@),
            },
    {
        let mut answers: Vec<bool> = Vec::new();
        let n = self.len();
        let mut i: usize = 0;
        while i < n
            invariant
                env.wf(),
                n == self.items().len(),
                i <= n,
                outcomes(self.items().take(i as int), env) == Ok::<Seq<bool>, ErrorView>(answers@),
            decreases n - i,
        {
            proof {
                assert(self.items().take(i as int + 1).drop_last() =~= self.items().take(i as int));
                assert(self.items().take(i as int + 1).last() == self.items()[i as int]);
            }
            match self.get(i).evaluate(env) {
                Ok(b) => {
                    answers.push(b);
                },
                Err(e) => {
                    proof {
                        lemma_failure_stays(self.items(), env, i as int + 1);
                    }
                    return Err(e);
                },
            }
            i += 1;
        }
        assert(self.items().take(n as int) =~= self.items());
        Ok(answers)
    }

    fn matches(&self, condition: ConditionType, env: &Environment) -> (r: Result<bool, Error>)
        requires
            env.wf(),
        ensures
            result_view(r) == match outcomes(self.items(), env) {
                Ok(answers) => Ok::<bool, ErrorView>(reduce(condition, answers)),
                Err(e) => Err(e),
            },
    {
        match self.results(env) {
            Ok(answers) => Ok(combine(condition, &answers)),
            Err(e) => Err(e),
        }
    }

    /// Whether every condition holds.
    pub fn match_eq(&self, env: &Environment) -> (r: Result<bool, Error>)
        requires
            env.wf(),
        ensures
            result_view(r) == match outcomes(self.items(), env) {
                Ok(answers) => Ok::<bool, ErrorView>(reduce(ConditionType::Eq, answers)),
                Err(e) => Err(e),
            },
    {
        self.matches(ConditionType::Eq, env)
    }

    /// Whether no condition holds.
    pub fn match_neq(&self, env: &Environment) -> (r: Result<bool, Error>)
        requires
            env.wf(),
        ensures
            result_view(r) == match outcomes(self.items(), env) {
                Ok(answers) => Ok::<bool, ErrorView>(reduce(ConditionType::Neq, answers)),
                Err(e) => Err(e),
            },
    {
        self.matches(ConditionType::Neq, env)
    }

    /// Whether at least one condition holds.
    pub fn match_any(&self, env: &Environment) -> (r: Result<bool, Error>)
        requires
            env.wf(),
        ensures
            result_view(r) == match outcomes(self.items(), env) {
                Ok(answers) => Ok::<bool, ErrorView>(reduce(ConditionType::Any, answers)),
                Err(e) => Err(e),
            },
    {
        self.matches(ConditionType::Any, env)
    }

    /// Whether every condition holds.
    pub fn match_all(&self, env: &Environment) -> (r: Result<bool, Error>)
        requires
            env.wf(),
        ensures
            result_view(r) == match outcomes(self.items(), env) {
                Ok(answers) => Ok::<bool, ErrorView>(reduce(ConditionType::All, answers)),
                Err(e) => Err(e),
            },
    {
        self.matches(ConditionType::All, env)
    }

    /// Whether no condition holds.
    pub fn match_none(&self, env: &Environment) -> (r: Result<bool, Error>)
        requires
            env.wf(),
        ensures
            result_view(r) == match outcomes(self.items(), env) {
                Ok(answers) => Ok::<bool, ErrorView>(reduce(ConditionType::NoneOf, answers)),
                Err(e) => Err(e),
            },
    {
        self.matches(ConditionType::NoneOf, env)
    }
}

/// Once a prefix of the conditions has failed, every longer prefix fails in
/// the same way.
pub proof fn lemma_failure_stays<T: EvaluatorTrait>(items: Seq<T>, env: &Environment, n: int)
    requires
        0 <= n <= items.len(),
        outcomes(items.take(n), env) is Err,
    ensures
        outcomes(items, env) == outcomes(items.take(n), env),
    decreases items.len() - n,
{
    if n == items.len() {
        assert(items.take(n) =~= items);
    } else {
        assert(items.take(n + 1).drop_last() =~= items.take(n));
        lemma_failure_stays(items, env, n + 1);
    }
}

} // verus!
