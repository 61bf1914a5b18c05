//! Gatekeepers declared as data, and their evaluation.
//!
//! A gatekeeper is a list of groups. Each group holds conditions of one
//! kind; a condition may require another gatekeeper by name. Evaluation
//! follows such requirements and keeps the path of names it is in: a name
//! that is required while on the path is a circle and fails the evaluation.
//! Every requirement that is followed puts one more of the environment's
//! gatekeepers on the path, so evaluation ends.

use vstd::prelude::*;
use crate::context::{lemma_leave_undoes_visit, EvaluationContext};
use crate::environment::Environment;
use crate::error::{Error, ErrorView};
use crate::text::name_list;
use crate::evaluators::{
    combine, outcomes, reduce, result_view, ConditionType, EvaluatorType, GatekeeperEvaluator,
    OneOrMany,
};

pub mod laws;

verus! {

/// One condition of a gatekeeper, with the way its answers are combined.
#[derive(Debug)]
pub struct Evaluator {
    pub evaluator_type: EvaluatorType,
    pub condition: ConditionType,
}

#[derive(Debug)]
pub struct Group {
    pub evaluator: Evaluator,
}

#[derive(Debug)]
pub struct Gatekeeper {
    pub groups: Vec<Group>,
    pub condition: ConditionType,
    /// For how many seconds an answer of this gatekeeper may be cached.
    pub ttl: Option<u64>,
}

/// The condition of a gatekeeper that names none.
pub fn default_condition() -> (condition: ConditionType)
    ensures
        condition == ConditionType::Any,
{
    ConditionType::Any
}

/// The paths that the conditions of one group ask about.
pub open spec fn group_paths(group: Group) -> Seq<Seq<char>> {
    match group.evaluator.evaluator_type {
        EvaluatorType::File(items) => Seq::new(
            items.items().len(),
            |i: int| items.items()[i].path@,
        ),
        _ => Seq::empty(),
    }
}

/// The paths that the conditions of `groups` ask about, in order.
pub open spec fn file_paths_of(groups: Seq<Group>) -> Seq<Seq<char>>
    decreases groups.len(),
{
    if groups.len() == 0 {
        Seq::empty()
    } else {
        file_paths_of(groups.drop_last()) + group_paths(groups.last())
    }
}

impl Gatekeeper {
    /// The paths whose existence this gatekeeper asks about, in the order
    /// of its conditions: what an environment has to know of the disk for
    /// this gatekeeper to be evaluated in it.
    pub fn file_paths(&self) -> (paths: Vec<String>)
        ensures
            name_list(paths@) == file_paths_of(self.groups@),
    {
        let mut paths: Vec<String> = Vec::new();
        let mut i: usize = 0;
        assert(name_list(paths@) =~= Seq::<Seq<char>>::empty());
        while i < self.groups.len()
            invariant
                i <= self.groups@.len(),
                name_list(paths@) == file_paths_of(self.groups@.take(i as int)),
            decreases self.groups@.len() - i,
        {
            let ghost before = name_list(paths@);
            proof {
                assert(self.groups@.take(i as int + 1).drop_last() =~= self.groups@.take(i as int));
                assert(self.groups@.take(i as int + 1).last() == self.groups@[i as int]);
            }
            match &self.groups[i].evaluator.evaluator_type {
                EvaluatorType::File(items) => {
                    let n = items.len();
                    let mut j: usize = 0;
                    while j < n
                        invariant
                            n == items.items().len(),
                            j <= n,
                            name_list(paths@) == before + Seq::new(
                                j as nat,
                                |k: int| items.items()[k].path@,
                            ),
                        decreases n - j,
                    {
                        let ghost so_far = name_list(paths@);
                        paths.push(items.get(j).path.clone());
                        proof {
                            assert(name_list(paths@) =~= so_far.push(items.items()[j as int].path@));
                            assert(name_list(paths@) =~= before + Seq::new(
                                (j + 1) as nat,
                                |k: int| items.items()[k].path@,
                            ));
                        }
                        j += 1;
                    }
                },
                _ => {
                    assert(name_list(paths@) =~= before + Seq::<Seq<char>>::empty());
                },
            }
            i += 1;
        }
        assert(self.groups@.take(self.groups@.len() as int) =~= self.groups@);
        paths
    }
}

/// How many of `names` are not on `path`.
pub open spec fn free_count(names: Seq<Seq<char>>, path: Seq<Seq<char>>) -> nat
    decreases names.len(),
{
    if names.len() == 0 {
        0
    } else {
        free_count(names.drop_last(), path) + if path.contains(names.last()) {
            0nat
        } else {
            1nat
        }
    }
}

/// A longer path leaves no more names free.
pub proof fn lemma_free_count_shrinks(names: Seq<Seq<char>>, path: Seq<Seq<char>>, name: Seq<char>)
    ensures
        free_count(names, path.push(name)) <= free_count(names, path),
    decreases names.len(),
{
    if names.len() > 0 {
        lemma_free_count_shrinks(names.drop_last(), path, name);
        if path.contains(names.last()) {
            let i = choose|i: int| 0 <= i < path.len() && path[i] == names.last();
            assert(path.push(name)[i] == names.last());
        }
    }
}

/// Entering one of `names` that is not on the path leaves fewer names free.
pub proof fn lemma_free_count_decreases(
    names: Seq<Seq<char>>,
    path: Seq<Seq<char>>,
    name: Seq<char>,
)
    requires
        names.contains(name),
        !path.contains(name),
    ensures
        free_count(names, path.push(name)) < free_count(names, path),
    decreases names.len(),
{
    let longer = path.push(name);
    if names.last() == name {
        lemma_free_count_shrinks(names.drop_last(), path, name);
        assert(longer[path.len() as int] == name);
    } else {
        let i = choose|i: int| 0 <= i < names.len() && names[i] == name;
        assert(names.drop_last()[i] == name);
        lemma_free_count_decreases(names.drop_last(), path, name);
        if path.contains(names.last()) {
            let j = choose|j: int| 0 <= j < path.len() && path[j] == names.last();
            assert(longer[j] == names.last());
        }
    }
}

/// What the gatekeeper `gk` gives in `env` while the names of `path` are
/// being evaluated.
///
/// `Any` and `Eq` ask for one group that holds; `All` asks that no group
/// fails to hold; `NoneOf` and `Neq` ask that no group holds. The groups are
/// taken in order, and the first one that decides ends the evaluation: a
/// failure in a later group is never met.
pub open spec fn gatekeeper_outcome(
    env: &Environment,
    path: Seq<Seq<char>>,
    gk: Gatekeeper,
) -> Result<bool, ErrorView>
    decreases free_count(env.gatekeepers.keys(), path), 5nat, 0nat,
{
    match gk.condition {
        ConditionType::Any => found(env, path, gk.groups@, true),
        ConditionType::Eq => found(env, path, gk.groups@, true),
        ConditionType::All => negated(found(env, path, gk.groups@, false)),
        ConditionType::NoneOf => negated(found(env, path, gk.groups@, true)),
        ConditionType::Neq => negated(found(env, path, gk.groups@, true)),
    }
}

pub open spec fn negated(r: Result<bool, ErrorView>) -> Result<bool, ErrorView> {
    match r {
        Ok(b) => Ok(!b),
        Err(e) => Err(e),
    }
}

/// Whether one of `groups` answers `want`, taking them in order up to the
/// first that does; the failure of a group that is met before.
pub open spec fn found(
    env: &Environment,
    path: Seq<Seq<char>>,
    groups: Seq<Group>,
    want: bool,
) -> Result<bool, ErrorView>
    decreases free_count(env.gatekeepers.keys(), path), 4nat, groups.len(),
{
    if groups.len() == 0 {
        Ok(false)
    } else {
        match evaluator_outcome(env, path, groups.first().evaluator) {
            Err(e) => Err(e),
            Ok(b) => if b == want {
                Ok(true)
            } else {
                found(env, path, groups.drop_first(), want)
            },
        }
    }
}

/// What one group gives: the answers of its conditions, made one by its
/// condition type.
pub open spec fn evaluator_outcome(
    env: &Environment,
    path: Seq<Seq<char>>,
    evaluator: Evaluator,
) -> Result<bool, ErrorView>
    decreases free_count(env.gatekeepers.keys(), path), 3nat, 0nat,
{
    match answers(env, path, evaluator.evaluator_type) {
        Err(e) => Err(e),
        Ok(a) => Ok(reduce(evaluator.condition, a)),
    }
}

/// The answers of the conditions of one group, in order; the first failure,
/// if one of them fails.
pub open spec fn answers(env: &Environment, path: Seq<Seq<char>>, kind: EvaluatorType) -> Result<
    Seq<bool>,
    ErrorView,
>
    decreases free_count(env.gatekeepers.keys(), path), 2nat, 0nat,
{
    match kind {
        EvaluatorType::Hostname(items) => outcomes(items.items(), env),
        EvaluatorType::File(items) => outcomes(items.items(), env),
        EvaluatorType::Os(items) => outcomes(items.items(), env),
        EvaluatorType::Bool(items) => outcomes(items.items(), env),
        EvaluatorType::Gatekeeper(items) => required_answers(env, path, items.items()),
    }
}

/// The answers of the gatekeepers that `items` require, in order; the first
/// failure, if one of them fails.
pub open spec fn required_answers(
    env: &Environment,
    path: Seq<Seq<char>>,
    items: Seq<GatekeeperEvaluator>,
) -> Result<Seq<bool>, ErrorView>
    decreases free_count(env.gatekeepers.keys(), path), 1nat, items.len(),
{
    if items.len() == 0 {
        Ok(Seq::empty())
    } else {
        match required_answers(env, path, items.drop_last()) {
            Err(e) => Err(e),
            Ok(a) => match require_outcome(env, path, items.last().name@) {
                Err(e) => Err(e),
                Ok(b) => Ok(a.push(b)),
            },
        }
    }
}

/// What requiring the gatekeeper `name` gives while the names of `path` are
/// being evaluated: a circle where `name` is on the path, a missing
/// gatekeeper where the environment has none of that name, and else what
/// that gatekeeper gives with `name` on the path.
pub open spec fn require_outcome(
    env: &Environment,
    path: Seq<Seq<char>>,
    name: Seq<char>,
) -> Result<bool, ErrorView>
    decreases free_count(env.gatekeepers.keys(), path), 0nat, 0nat,
{
    if path.contains(name) {
        Err(ErrorView::CircularDependency { name, chain: path })
    } else if !env.gatekeepers.keys().contains(name) {
        Err(ErrorView::NotFound { name, tried: Seq::empty() })
    } else {
        proof {
            lemma_free_count_decreases(env.gatekeepers.keys(), path, name);
        }
        gatekeeper_outcome(env, path.push(name), env.gatekeepers@[name])
    }
}

/// Evaluates the gatekeeper called `name` while the names of `context` are
/// being evaluated. The context is the same afterwards, whether the
/// evaluation succeeded or failed.
pub fn require(env: &Environment, context: &mut EvaluationContext, name: &str) -> (r: Result<
    bool,
    Error,
>)
    requires
        env.wf(),
        old(context).wf(),
    ensures
        final(context).wf(),
        final(context)@ == old(context)@,
        result_view(r) == require_outcome(env, old(context)@, name@),
    decreases free_count(env.gatekeepers.keys(), old(context)@), 0nat, 0nat,
{
    let ghost path = context@;
    match context.visit(name) {
        Err(e) => {
            return Err(e);
        },
        Ok(_) => {},
    }
    proof {
        env.gatekeepers.lemma_keys_are_domain();
        lemma_leave_undoes_visit(path, name@);
    }
    let r = match env.gatekeepers.get(name) {
        None => Err(Error::not_found(name)),
        Some(gatekeeper) => {
            proof {
                lemma_free_count_decreases(env.gatekeepers.keys(), path, name@);
            }
            gatekeeper.evaluate_in(env, context)
        },
    };
    context.leave(name);
    r
}

impl GatekeeperEvaluator {
    /// Whether the gatekeeper called `name` holds in `env`.
    pub fn evaluate(&self, env: &Environment) -> (r: Result<bool, Error>)
        requires
            env.wf(),
        ensures
            result_view(r) == require_outcome(env, Seq::empty(), self.name@),
    {
        let mut context = EvaluationContext::new();
        require(env, &mut context, self.name.as_str())
    }
}

impl EvaluatorType {
    /// The answers of the conditions, in order, or the first failure.
    pub fn results(&self, env: &Environment, context: &mut EvaluationContext) -> (r: Result<
        Vec<bool>,
        Error,
    >)
        requires
            env.wf(),
            old(context).wf(),
        ensures
            final(context).wf(),
            final(context)@ == old(context)@,
            match r {
                Ok(a) => answers(env, old(context)@, *self) == Ok::<Seq<bool>, ErrorView>(a@),
                Err(e) => answers(env, old(context)@, *self) == Err::<Seq<bool>, ErrorView>(e@),
            },
        decreases free_count(env.gatekeepers.keys(), old(context)@), 2nat, 0nat,
    {
        match self {
            EvaluatorType::Hostname(items) => items.results(env),
            EvaluatorType::File(items) => items.results(env),
            EvaluatorType::Os(items) => items.results(env),
            EvaluatorType::Bool(items) => items.results(env),
            EvaluatorType::Gatekeeper(items) => required_results(items, env, context),
        }
    }
}

/// The answers of the gatekeepers that `items` require, in order, or the
/// first failure.
fn required_results(
    items: &OneOrMany<GatekeeperEvaluator>,
    env: &Environment,
    context: &mut EvaluationContext,
) -> (r: Result<Vec<bool>, Error>)
    requires
        env.wf(),
        old(context).wf(),
    ensures
        final(context).wf(),
        final(context)@ == old(context)@,
        match r {
            Ok(a) => required_answers(env, old(context)@, items.items()) == Ok::<
                Seq<bool>,
                ErrorView,
            >(a@),
            Err(e) => required_answers(env, old(context)@, items.items()) == Err::<
                Seq<bool>,
                ErrorView,
            >(e@),
        },
    decreases free_count(env.gatekeepers.keys(), old(context)@), 1nat, items.items().len() + 1,
{
    let ghost path = context@;
    let mut found: Vec<bool> = Vec::new();
    let n = items.len();
    let mut i: usize = 0;
    while i < n
        invariant
            env.wf(),
            context.wf(),
            context@ == path,
            path == old(context)@,
            n == items.items().len(),
            i <= n,
            required_answers(env, path, items.items().take(i as int)) == Ok::<Seq<bool>, ErrorView>(
                found@,
            ),
        decreases n - i,
    {
        proof {
            assert(items.items().take(i as int + 1).drop_last() =~= items.items().take(i as int));
            assert(items.items().take(i as int + 1).last() == items.items()[i as int]);
        }
        match require(env, context, items.get(i).name.as_str()) {
            Ok(b) => {
                found.push(b);
            },
            Err(e) => {
                proof {
                    lemma_required_failure_stays(env, path, items.items(), i as int + 1);
                }
                return Err(e);
            },
        }
        i += 1;
    }
    assert(items.items().take(n as int) =~= items.items());
    Ok(found)
}

/// Once a prefix of the requirements has failed, every longer prefix fails
/// in the same way.
proof fn lemma_required_failure_stays(
    env: &Environment,
    path: Seq<Seq<char>>,
    items: Seq<GatekeeperEvaluator>,
    n: int,
)
    requires
        0 <= n <= items.len(),
        required_answers(env, path, items.take(n)) is Err,
    ensures
        required_answers(env, path, items) == required_answers(env, path, items.take(n)),
    decreases items.len() - n,
{
    if n == items.len() {
        assert(items.take(n) =~= items);
    } else {
        assert(items.take(n + 1).drop_last() =~= items.take(n));
        lemma_required_failure_stays(env, path, items, n + 1);
    }
}

impl Evaluator {
    /// What this group gives in `env`.
    pub fn evaluate(&self, env: &Environment) -> (r: Result<bool, Error>)
        requires
            env.wf(),
        ensures
            result_view(r) == evaluator_outcome(env, Seq::empty(), *self),
    {
        let mut context = EvaluationContext::new();
        self.evaluate_in(env, &mut context)
    }

    /// What this group gives in `env` while the names of `context` are being
    /// evaluated.
    pub fn evaluate_in(&self, env: &Environment, context: &mut EvaluationContext) -> (r: Result<
        bool,
        Error,
    >)
        requires
            env.wf(),
            old(context).wf(),
        ensures
            final(context).wf(),
            final(context)@ == old(context)@,
            result_view(r) == evaluator_outcome(env, old(context)@, *self),
        decreases free_count(env.gatekeepers.keys(), old(context)@), 3nat, 0nat,
    {
        match self.evaluator_type.results(env, context) {
            Ok(a) => Ok(combine(self.condition, &a)),
            Err(e) => Err(e),
        }
    }
}

impl Gatekeeper {
    /// What this gatekeeper gives in `env`.
    pub fn evaluate(&self, env: &Environment) -> (r: Result<bool, Error>)
        requires
            env.wf(),
        ensures
            result_view(r) == gatekeeper_outcome(env, Seq::empty(), *self),
    {
        let mut context = EvaluationContext::new();
        self.evaluate_in(env, &mut context)
    }

    /// What this gatekeeper gives in `env` while the names of `context` are
    /// being evaluated.
    pub fn evaluate_in(&self, env: &Environment, context: &mut EvaluationContext) -> (r: Result<
        bool,
        Error,
    >)
        requires
            env.wf(),
            old(context).wf(),
        ensures
            final(context).wf(),
            final(context)@ == old(context)@,
            result_view(r) == gatekeeper_outcome(env, old(context)@, *self),
        decreases free_count(env.gatekeepers.keys(), old(context)@), 5nat, 0nat,
    {
        match self.condition {
            ConditionType::Any => self.evaluate_any(env, context),
            ConditionType::All => self.evaluate_all(env, context),
            ConditionType::NoneOf => self.evaluate_none(env, context),
            ConditionType::Eq => self.evaluate_any(env, context),
            ConditionType::Neq => self.evaluate_none(env, context),
        }
    }

    /// Whether one of the groups answers `want`, taking them in order.
    fn some_group_answers(
        &self,
        env: &Environment,
        context: &mut EvaluationContext,
        want: bool,
    ) -> (r: Result<bool, Error>)
        requires
            env.wf(),
            old(context).wf(),
        ensures
            final(context).wf(),
            final(context)@ == old(context)@,
            result_view(r) == found(env, old(context)@, self.groups@, want),
        decreases free_count(env.gatekeepers.keys(), old(context)@), 4nat, self.groups@.len() + 1,
    {
        let ghost path = context@;
        let n = self.groups.len();
        let mut i: usize = 0;
        assert(self.groups@.skip(0) =~= self.groups@);
        while i < n
            invariant
                env.wf(),
                context.wf(),
                context@ == path,
                path == old(context)@,
                n == self.groups@.len(),
                i <= n,
                found(env, path, self.groups@.skip(i as int), want) == found(
                    env,
                    path,
                    self.groups@,
                    want,
                ),
            decreases n - i,
        {
            proof {
                assert(self.groups@.skip(i as int).first() == self.groups@[i as int]);
                assert(self.groups@.skip(i as int).drop_first() =~= self.groups@.skip(i as int + 1));
            }
            match self.groups[i].evaluator.evaluate_in(env, context) {
                Err(e) => {
                    return Err(e);
                },
                Ok(b) => {
                    if b == want {
                        return Ok(true);
                    }
                },
            }
            i += 1;
        }
        assert(self.groups@.skip(n as int) =~= Seq::<Group>::empty());
        Ok(false)
    }

    /// Whether one group holds.
    fn evaluate_any(&self, env: &Environment, context: &mut EvaluationContext) -> (r: Result<
        bool,
        Error,
    >)
        requires
            env.wf(),
            old(context).wf(),
        ensures
            final(context).wf(),
            final(context)@ == old(context)@,
            result_view(r) == found(env, old(context)@, self.groups@, true),
        decreases free_count(env.gatekeepers.keys(), old(context)@), 4nat, self.groups@.len() + 2,
    {
        self.some_group_answers(env, context, true)
    }

    /// Whether every group holds; of no groups, every one does.
    fn evaluate_all(&self, env: &Environment, context: &mut EvaluationContext) -> (r: Result<
        bool,
        Error,
    >)
        requires
            env.wf(),
            old(context).wf(),
        ensures
            final(context).wf(),
            final(context)@ == old(context)@,
            result_view(r) == negated(found(env, old(context)@, self.groups@, false)),
        decreases free_count(env.gatekeepers.keys(), old(context)@), 4nat, self.groups@.len() + 2,
    {
        match self.some_group_answers(env, context, false) {
            Ok(b) => Ok(!b),
            Err(e) => Err(e),
        }
    }

    /// Whether no group holds.
    fn evaluate_none(&self, env: &Environment, context: &mut EvaluationContext) -> (r: Result<
        bool,
        Error,
    >)
        requires
            env.wf(),
            old(context).wf(),
        ensures
            final(context).wf(),
            final(context)@ == old(context)@,
            result_view(r) == negated(found(env, old(context)@, self.groups@, true)),
        decreases free_count(env.gatekeepers.keys(), old(context)@), 4nat, self.groups@.len() + 2,
    {
        match self.some_group_answers(env, context, true) {
            Ok(b) => Ok(!b),
            Err(e) => Err(e),
        }
    }
}

} // verus!
