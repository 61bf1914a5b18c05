//! What holds of every evaluation of a declared gatekeeper.

use vstd::prelude::*;
use crate::environment::Environment;
use crate::error::{Error, ErrorView};
use crate::evaluators::{result_view, ConditionType, EvaluatorType, OneOrMany};
use crate::gatekeeper::{
    answers, evaluator_outcome, found, gatekeeper_outcome, required_answers, require_outcome,
    Gatekeeper,
};

verus! {

/// In one environment a gatekeeper has one answer: whatever two evaluations
/// of it return, as `evaluate` promises, is the same value or the same
/// failure. Its time to live is a field of the gatekeeper and so the same
/// too.
pub proof fn lemma_evaluation_is_deterministic(
    env: &Environment,
    gatekeeper: Gatekeeper,
    first: Result<bool, Error>,
    second: Result<bool, Error>,
)
    requires
        result_view(first) == gatekeeper_outcome(env, Seq::empty(), gatekeeper),
        result_view(second) == gatekeeper_outcome(env, Seq::empty(), gatekeeper),
    ensures
        result_view(first) == result_view(second),
        first is Ok <==> second is Ok,
        first matches Ok(a) ==> second == Ok::<bool, Error>(a),
        first matches Err(e) ==> second matches Err(f) && e@ == f@,
{
}

/// Requiring a name that is being evaluated fails as a circle, with the
/// path that led there, whatever the gatekeeper of that name holds.
pub proof fn lemma_requiring_name_in_progress_fails(
    env: &Environment,
    path: Seq<Seq<char>>,
    name: Seq<char>,
)
    requires
        path.contains(name),
    ensures
        require_outcome(env, path, name) == Err::<bool, ErrorView>(
            ErrorView::CircularDependency { name, chain: path },
        ),
{
}

/// A failure met while a gatekeeper is evaluated is the failure of the
/// whole evaluation: where the first group fails, so does the gatekeeper,
/// whatever its condition and its other groups.
pub proof fn lemma_first_failure_ends_evaluation(
    env: &Environment,
    path: Seq<Seq<char>>,
    gatekeeper: Gatekeeper,
)
    requires
        gatekeeper.groups@.len() > 0,
        evaluator_outcome(env, path, gatekeeper.groups@[0].evaluator) is Err,
    ensures
        gatekeeper_outcome(env, path, gatekeeper) == evaluator_outcome(
            env,
            path,
            gatekeeper.groups@[0].evaluator,
        ),
{
    let first = evaluator_outcome(env, path, gatekeeper.groups@.first().evaluator);
    assert(found(env, path, gatekeeper.groups@, true) == first);
    assert(found(env, path, gatekeeper.groups@, false) == first);
}

/// A gatekeeper that begins by requiring itself fails as a circle when it
/// is required by name: the evaluation ends, and the failure names the
/// gatekeeper and the path that closed.
pub proof fn lemma_self_requirement_fails(env: &Environment, name: Seq<char>)
    requires
        env.gatekeepers.keys().contains(name),
        env.gatekeepers@[name].groups@.len() > 0,
        env.gatekeepers@[name].groups@[0].evaluator.evaluator_type matches EvaluatorType::Gatekeeper(
            items,
        ) && items.items().len() > 0 && items.items()[0].name@ == name,
    ensures
        require_outcome(env, Seq::empty(), name) == Err::<bool, ErrorView>(
            ErrorView::CircularDependency { name, chain: seq![name] },
        ),
{
    let gatekeeper = env.gatekeepers@[name];
    let path = Seq::<Seq<char>>::empty().push(name);
    assert(path =~= seq![name]);
    assert(path[0] == name);
    let kind = gatekeeper.groups@[0].evaluator.evaluator_type;
    let items = match kind {
        EvaluatorType::Gatekeeper(items) => items.items(),
        _ => Seq::empty(),
    };
    let circle = Err::<bool, ErrorView>(ErrorView::CircularDependency { name, chain: path });
    assert(require_outcome(env, path, items[0].name@) == circle);
    lemma_first_requirement_fails(env, path, items);
    assert(answers(env, path, kind) is Err);
    assert(evaluator_outcome(env, path, gatekeeper.groups@[0].evaluator) is Err);
    lemma_first_failure_ends_evaluation(env, path, gatekeeper);
}

/// Whether the gatekeeper `from` begins by requiring the gatekeeper `to`:
/// `from` is known, and the first condition of its first group is the
/// requirement of `to`. Such a requirement is met whenever `from` is
/// evaluated, whatever the conditions of `from` are.
pub open spec fn begins_by_requiring(env: &Environment, from: Seq<char>, to: Seq<char>) -> bool {
    &&& env.gatekeepers.keys().contains(from)
    &&& env.gatekeepers@[from].groups@.len() > 0
    &&& env.gatekeepers@[from].groups@[0].evaluator.evaluator_type matches EvaluatorType::Gatekeeper(
        items,
    )
    &&& items.items().len() > 0
    &&& items.items()[0].name@ == to
}

/// Whether `ring` is a circle of requirements: each of its gatekeepers
/// begins by requiring the next, and the last begins by requiring the
/// first. No gatekeeper is in the ring twice.
pub open spec fn is_ring(env: &Environment, ring: Seq<Seq<char>>) -> bool {
    &&& ring.len() > 0
    &&& ring.no_duplicates()
    &&& forall|i: int|
        0 <= i < ring.len() - 1 ==> begins_by_requiring(env, #[trigger] ring[i], ring[i + 1])
    &&& begins_by_requiring(env, ring.last(), ring.first())
}

/// A gatekeeper whose requirements lead back to itself, directly or through
/// any number of others, fails as a circle when it is required by name. The
/// evaluation ends; the failure names the gatekeeper, and its chain is the
/// whole ring in the order in which it was gone through.
pub proof fn lemma_ring_fails(env: &Environment, ring: Seq<Seq<char>>)
    requires
        is_ring(env, ring),
    ensures
        require_outcome(env, Seq::empty(), ring.first()) == Err::<bool, ErrorView>(
            ErrorView::CircularDependency { name: ring.first(), chain: ring },
        ),
{
    lemma_ring_fails_from(env, ring, 0);
    assert(ring.take(0) =~= Seq::<Seq<char>>::empty());
}

/// Inside a ring: with the gatekeepers before the `i`-th on the path, the
/// requirement of the `i`-th fails with the circle of the whole ring.
proof fn lemma_ring_fails_from(env: &Environment, ring: Seq<Seq<char>>, i: int)
    requires
        is_ring(env, ring),
        0 <= i < ring.len(),
    ensures
        require_outcome(env, ring.take(i), ring[i]) == Err::<bool, ErrorView>(
            ErrorView::CircularDependency { name: ring.first(), chain: ring },
        ),
    decreases ring.len() - i,
{
    let circle = Err::<bool, ErrorView>(
        ErrorView::CircularDependency { name: ring.first(), chain: ring },
    );
    let path = ring.take(i);
    let name = ring[i];
    let next = if i == ring.len() - 1 {
        ring.first()
    } else {
        ring[i + 1]
    };
    assert(begins_by_requiring(env, name, next)) by {
        if i == ring.len() - 1 {
            assert(ring.last() == ring[i]);
        }
    }
    assert(!path.contains(name)) by {
        if path.contains(name) {
            let a = choose|a: int| 0 <= a < path.len() && path[a] == name;
            assert(ring[a] == ring[i]);
        }
    }
    let longer = path.push(name);
    assert(longer =~= ring.take(i + 1));
    let gatekeeper = env.gatekeepers@[name];
    let items = match gatekeeper.groups@[0].evaluator.evaluator_type {
        EvaluatorType::Gatekeeper(items) => items.items(),
        _ => Seq::empty(),
    };
    assert(require_outcome(env, longer, items[0].name@) == circle) by {
        if i == ring.len() - 1 {
            assert(longer =~= ring);
            assert(ring[0] == ring.first());
            assert(longer.contains(ring.first()));
        } else {
            lemma_ring_fails_from(env, ring, i + 1);
        }
    }
    lemma_first_requirement_fails(env, longer, items);
    assert(answers(env, longer, gatekeeper.groups@[0].evaluator.evaluator_type) is Err);
    assert(evaluator_outcome(env, longer, gatekeeper.groups@[0].evaluator) == circle);
    lemma_first_failure_ends_evaluation(env, longer, gatekeeper);
}

/// Where the first requirement fails, the requirements fail with it.
proof fn lemma_first_requirement_fails(
    env: &Environment,
    path: Seq<Seq<char>>,
    items: Seq<crate::evaluators::GatekeeperEvaluator>,
)
    requires
        items.len() > 0,
        require_outcome(env, path, items[0].name@) is Err,
    ensures
        required_answers(env, path, items) matches Err(e) && require_outcome(
            env,
            path,
            items[0].name@,
        ) == Err::<bool, ErrorView>(e),
    decreases items.len(),
{
    if items.len() == 1 {
        assert(items.drop_last().len() == 0);
        assert(required_answers(env, path, items.drop_last()) == Ok::<Seq<bool>, ErrorView>(
            Seq::empty(),
        ));
        assert(items.last() == items[0]);
    } else {
        assert(items.drop_last()[0] == items[0]);
        lemma_first_requirement_fails(env, path, items.drop_last());
    }
}

} // verus!
