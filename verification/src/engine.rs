//! Evaluating gatekeepers by name, whatever they are written in.
//!
//! A gatekeeper is a script or a declaration. A name that has a script is
//! evaluated from it; another name is evaluated from its declaration. This
//! is the one way in which gatekeepers are evaluated: for one name, for a
//! list of names, and for a sync of the cache.

use std::rc::Rc;
use vstd::prelude::*;
use crate::cache::sync::{
    names_to_evaluate, sync_command, SourceInfo, SyncReport, SyncView,
};
use crate::cache::{
    cache_result_with_ttl, cached_value, get_command, ttl_fits, written_entry, Cache, SourceState,
    UpdateType,
};
use crate::evaluators::result_view;
use crate::context::EvaluationContext;
use crate::environment::Environment;
use crate::error::{Error, ErrorView};
use crate::gatekeeper::{require, require_outcome};
use crate::lua_executor::{evaluation_view, first_known, has_script, runs, LuaGatekeeperResult};
use crate::names::NameMap;
use crate::paths::{resolve_path, resolved_path};
use crate::resolver::candidates;
use crate::text::{lemma_take_contains, name_list};

verus! {

/// Where the gatekeepers of an installation are kept.
#[derive(Debug, Clone)]
pub struct Layout {
    /// The configuration directory.
    pub config_dir: String,
    /// The extension of the files that hold scripts.
    pub script_extension: String,
}

pub struct Engine {
    /// Where the gatekeepers were read from.
    pub layout: Layout,
    /// The scripts, by name.
    pub scripts: Rc<NameMap<String>>,
    /// The platform, the declared gatekeepers, and what they ask of the
    /// disk.
    pub environment: Environment,
    /// The gatekeepers whose source is there but could not be read or
    /// understood, each with the failure that reading it gave.
    pub faults: NameMap<Error>,
}

/// What the declaration of `name` gives in `env`: its answer, with the time
/// to live that the declaration names.
pub open spec fn declared_outcome(env: &Environment, name: Seq<char>) -> Result<
    LuaGatekeeperResult,
    ErrorView,
> {
    match require_outcome(env, Seq::empty(), name) {
        Ok(value) => Ok(LuaGatekeeperResult { value, ttl: env.gatekeepers@[name].ttl }),
        Err(e) => Err(e),
    }
}

impl Engine {
    pub open spec fn wf(&self) -> bool {
        self.scripts.wf() && self.environment.wf() && self.faults.wf()
    }

    /// The file that is named when `name` is not found: where neither a
    /// script nor an entrypoint exists, the file of the name's own script.
    pub open spec fn missing_path(&self, name: Seq<char>) -> Seq<char> {
        resolved_path(
            self.layout.config_dir@,
            name,
            self.layout.script_extension@,
            false,
            false,
        )
    }

    /// What evaluating `name` gives where no script is run for it. A
    /// gatekeeper whose source could not be read fails with the failure of
    /// the reading. A name without a script is evaluated from its
    /// declaration. A name that has neither is not found, and the failure
    /// names the file that was looked for. For a name with a script nothing
    /// is certain.
    pub open spec fn certain(&self, name: Seq<char>) -> Option<
        Result<LuaGatekeeperResult, ErrorView>,
    > {
        if self.faults@.contains_key(name) {
            Some(Err(self.faults@[name]@))
        } else if self.script_of(name) is Some {
            None
        } else if self.environment.gatekeepers@.contains_key(name) {
            Some(declared_outcome(&self.environment, name))
        } else {
            Some(Err(ErrorView::NotFound { name, tried: seq![self.missing_path(name)] }))
        }
    }

    /// The script that `name` means, if it means one.
    pub open spec fn script_of(&self, name: Seq<char>) -> Option<Seq<char>> {
        match first_known(self.scripts@, Seq::empty(), candidates(name), name) {
            Ok(found) => Some(found),
            Err(_) => None,
        }
    }

    /// Whether `r` can be what evaluating `name` gives: what is certain of
    /// it, where something is. A script gives what it gives; its result is
    /// read from what it handed back, or says that no interpreter could be
    /// had.
    pub open spec fn gives(
        &self,
        name: Seq<char>,
        r: Result<LuaGatekeeperResult, ErrorView>,
    ) -> bool {
        match self.certain(name) {
            Some(result) => r == result,
            None => (r matches Err(e) && e is IoError) || runs(
                self.scripts@[self.script_of(name)->0]@,
                r,
            ),
        }
    }

    /// A gatekeeper for which no script is run has one result: whatever two
    /// evaluations of it give, as `evaluate` promises, is the same value
    /// with the same time to live, or the same failure.
    pub proof fn lemma_declared_evaluation_is_deterministic(
        &self,
        name: Seq<char>,
        first: Result<LuaGatekeeperResult, ErrorView>,
        second: Result<LuaGatekeeperResult, ErrorView>,
    )
        requires
            self.certain(name) is Some,
            self.gives(name, first),
            self.gives(name, second),
        ensures
            first == second,
    {
    }

    /// A gatekeeper that has neither script nor declaration is not found,
    /// and what is told of it holds its name and the file that was looked
    /// for.
    pub proof fn lemma_missing_gatekeeper_names_its_path(
        &self,
        name: Seq<char>,
        r: Result<LuaGatekeeperResult, ErrorView>,
    )
        requires
            !self.faults@.contains_key(name),
            self.script_of(name) is None,
            !self.environment.gatekeepers@.contains_key(name),
            self.gives(name, r),
        ensures
            r == Err::<LuaGatekeeperResult, ErrorView>(
                ErrorView::NotFound { name, tried: seq![self.missing_path(name)] },
            ),
            r matches Err(e) && crate::error::message_text(e) == "Gatekeeper '"@ + name
                + "' not found (tried: "@ + self.missing_path(name) + ")"@,
    {
        let tried = seq![self.missing_path(name)];
        assert(tried.drop_last() =~= Seq::<Seq<char>>::empty());
        assert(crate::text::join(tried, ", "@) == self.missing_path(name));
        assert(crate::error::tried_text(tried) == " (tried: "@ + self.missing_path(name) + ")"@);
        assert("Gatekeeper '"@ + name + "' not found"@ + (" (tried: "@ + self.missing_path(name)
            + ")"@) =~= "Gatekeeper '"@ + name + "' not found (tried: "@ + self.missing_path(name)
            + ")"@) by {
            reveal_strlit("' not found");
            reveal_strlit(" (tried: ");
            reveal_strlit("' not found (tried: ");
        }
    }

    pub fn evaluate(&self, name: &str) -> (r: Result<LuaGatekeeperResult, Error>)
        requires
            self.wf(),
        ensures
            self.gives(name@, evaluation_view(r)),
    {
        match self.faults.get(name) {
            Some(fault) => {
                return Err(fault.duplicate());
            },
            None => {},
        }
        if has_script(&self.scripts, name) {
            return crate::lua_executor::evaluate(&self.environment.platform, &self.scripts, name);
        }
        proof {
            self.environment.gatekeepers.lemma_keys_are_domain();
        }
        match self.environment.gatekeepers.get(name) {
            Some(gatekeeper) => {
                let mut context = EvaluationContext::new();
                let value = require(&self.environment, &mut context, name)?;
                Ok(LuaGatekeeperResult { value, ttl: gatekeeper.ttl })
            },
            None => {
                let path = resolve_path(
                    self.layout.config_dir.as_str(),
                    name,
                    self.layout.script_extension.as_str(),
                    false,
                    false,
                );
                let mut tried: Vec<String> = Vec::new();
                tried.push(path);
                assert(name_list(tried@) =~= seq![self.missing_path(name@)]);
                Err(Error::NotFound { name: name.to_string(), tried })
            },
        }
    }

    /// Whether a lookup of `name` that found the cache `before`, and that
    /// evaluated the gatekeeper with the result `evaluated`, leaves the
    /// cache `after` and answers `answer`.
    ///
    /// The value is answered and written as an entry of an evaluation at
    /// `now`, with the time to live of the result. Where that time to live
    /// is so long that the expiry does not fit, the value is answered and
    /// nothing is written. A failed evaluation is the failure of the lookup
    /// and writes nothing.
    pub open spec fn refreshed(
        before: Cache,
        after: Cache,
        name: Seq<char>,
        now: u64,
        evaluated: Result<LuaGatekeeperResult, ErrorView>,
        answer: Result<bool, ErrorView>,
    ) -> bool {
        match evaluated {
            Ok(result) => answer == Ok::<bool, ErrorView>(result.value) && if ttl_fits(
                now,
                result.ttl,
            ) {
                after.ts == now && after.cache@ == before.cache@.insert(
                    name,
                    written_entry(result.value, UpdateType::Evaluate, result.ttl, now),
                )
            } else {
                after.ts == before.ts && after.cache@ == before.cache@
            },
            Err(e) => answer == Err::<bool, ErrorView>(e) && after.ts == before.ts && after.cache@
                == before.cache@,
        }
    }

    /// Looks `name` up at time `now`, given the state of its source file.
    /// An entry that is there, has not expired and is not older than its
    /// source answers the lookup, and the cache stays as it is. Else the
    /// gatekeeper is evaluated afresh and the result is written back.
    pub fn get(&self, cache: &mut Cache, name: &str, source: SourceState, now: u64) -> (r: Result<
        bool,
        Error,
    >)
        requires
            self.wf(),
            old(cache).wf(),
        ensures
            final(cache).wf(),
            match cached_value(old(cache).cache@, name@, source, now) {
                Some(value) => r == Ok::<bool, Error>(value) && final(cache).ts == old(cache).ts
                    && final(cache).cache@ == old(cache).cache@,
                None => exists|evaluated: Result<LuaGatekeeperResult, ErrorView>|
                    self.gives(name@, evaluated) && #[trigger] Self::refreshed(
                        *old(cache),
                        *final(cache),
                        name@,
                        now,
                        evaluated,
                        result_view(r),
                    ),
            },
    {
        match get_command(cache, name, source, now) {
            Some(value) => Ok(value),
            None => {
                let evaluated = self.evaluate(name);
                let ghost before = *cache;
                let r = match evaluated {
                    Ok(result) => {
                        let fits = match result.ttl {
                            Some(ttl) => ttl <= u64::MAX - now,
                            None => true,
                        };
                        if fits {
                            cache_result_with_ttl(
                                cache,
                                name,
                                result.value,
                                UpdateType::Evaluate,
                                result.ttl,
                                now,
                            );
                        }
                        Ok(result.value)
                    },
                    Err(e) => Err(e),
                };
                assert(Self::refreshed(
                    before,
                    *cache,
                    name@,
                    now,
                    evaluation_view(evaluated),
                    result_view(r),
                ));
                r
            },
        }
    }

    /// Whether it is certain that `name` has a result that can be cached
    /// at time `now`: its evaluation succeeds without a script, and the
    /// expiry that its time to live gives fits.
    pub open spec fn cacheable(&self, name: Seq<char>, now: u64) -> bool {
        self.certain(name) matches Some(Ok(result)) && ttl_fits(now, result.ttl)
    }

    /// Evaluates each of `names` and gathers the results that can be
    /// cached at time `now`. A gatekeeper whose evaluation fails has no
    /// result, nor has one whose time to live is so long that its expiry
    /// does not fit.
    pub fn evaluate_all(&self, names: &Vec<String>, now: u64) -> (outcomes: NameMap<
        LuaGatekeeperResult,
    >)
        requires
            self.wf(),
        ensures
            outcomes.wf(),
            forall|k: Seq<char>| #[trigger]
                outcomes@.contains_key(k) ==> name_list(names@).contains(k) && ttl_fits(
                    now,
                    outcomes@[k].ttl,
                ) && self.gives(k, Ok(outcomes@[k])),
            forall|k: Seq<char>|
                name_list(names@).contains(k) && self.certain(k) is Some ==> (
                #[trigger] outcomes@.contains_key(k) <==> self.cacheable(k, now)),
    {
        let mut outcomes: NameMap<LuaGatekeeperResult> = NameMap::new();
        let ghost all = name_list(names@);
        let mut i: usize = 0;
        while i < names.len()
            invariant
                self.wf(),
                i <= names@.len(),
                all == name_list(names@),
                outcomes.wf(),
                forall|k: Seq<char>| #[trigger]
                    outcomes@.contains_key(k) ==> all.take(i as int).contains(k) && ttl_fits(
                        now,
                        outcomes@[k].ttl,
                    ) && self.gives(k, Ok(outcomes@[k])),
                forall|k: Seq<char>|
                    all.take(i as int).contains(k) && self.certain(k) is Some ==> (
                    #[trigger] outcomes@.contains_key(k) <==> self.cacheable(k, now)),
            decreases names@.len() - i,
        {
            let ghost seen = all.take(i as int);
            let ghost more = all.take(i as int + 1);
            let ghost name = all[i as int];
            let ghost before = outcomes@;
            proof {
                assert forall|k: Seq<char>| more.contains(k) <==> seen.contains(k) || k == name by {
                    lemma_take_contains(all, i as int, k);
                }
            }
            let cacheable = match self.evaluate(names[i].as_str()) {
                Ok(result) => match result.ttl {
                    Some(ttl) => if ttl <= u64::MAX - now {
                        Some(result)
                    } else {
                        None
                    },
                    None => Some(result),
                },
                Err(_) => None,
            };
            match cacheable {
                Some(result) => {
                    outcomes.insert(names[i].clone(), result);
                },
                None => {
                    outcomes.remove(names[i].as_str());
                },
            }
            i += 1;
        }
        assert(all.take(names@.len() as int) =~= all);
        outcomes
    }

    /// Reconciles the cache at time `now`: evaluates the gatekeepers that
    /// are due and gives the cache and the counts that `sync_command` makes
    /// of their results.
    pub fn sync(
        &self,
        existing: &Cache,
        sources: &NameMap<SourceInfo>,
        force: bool,
        now: u64,
    ) -> (synced: (Cache, SyncReport))
        requires
            self.wf(),
            existing.wf(),
            sources.wf(),
        ensures
            synced.0.wf(),
            synced.0.ts == now,
            exists|outcomes: Map<Seq<char>, LuaGatekeeperResult>|
                self.synced_with(existing, sources, force, now, outcomes, synced),
    {
        let due = names_to_evaluate(existing, sources, force, now);
        let outcomes = self.evaluate_all(&due, now);
        let synced = sync_command(existing, sources, &outcomes, force, now);
        assert(self.synced_with(existing, sources, force, now, outcomes@, synced));
        synced
    }

    /// Whether `synced` is what a sync makes of the results `outcomes`, and
    /// `outcomes` are results of gatekeepers that were due, each with a time
    /// to live that fits.
    pub open spec fn synced_with(
        &self,
        existing: &Cache,
        sources: &NameMap<SourceInfo>,
        force: bool,
        now: u64,
        outcomes: Map<Seq<char>, LuaGatekeeperResult>,
        synced: (Cache, SyncReport),
    ) -> bool {
        let view = SyncView { existing: existing.cache@, sources: sources@, outcomes, force, now };
        &&& forall|k: Seq<char>| #[trigger]
            outcomes.contains_key(k) ==> view.is_due(k) && ttl_fits(now, outcomes[k].ttl)
                && self.gives(k, Ok(outcomes[k]))
        &&& forall|k: Seq<char>|
            view.is_due(k) && self.certain(k) is Some ==> (#[trigger] outcomes.contains_key(k)
                <==> self.cacheable(k, now))
        &&& synced.0.cache@ == view.result()
        &&& view.reports(sources@.dom(), existing.cache@.dom(), synced.1)
    }
}

} // verus!
