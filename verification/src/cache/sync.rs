//! Reconciling the cache with the gatekeepers that can be resolved now.
//!
//! A sync is given the cache as it stands, what is known of each name's
//! source file, and the outcome of every evaluation that was run for it. It
//! answers with the cache that replaces the old one, and with four counts.

use vstd::prelude::*;
use crate::cache::{
    expired, is_cache_entry_expired, is_gatekeeper_file_modified, source_modified, ttl_fits,
    written_entry, Cache, CacheEntry, SourceState, UpdateType,
};
use crate::lua_executor::LuaGatekeeperResult;
use crate::names::NameMap;
use crate::resolver::merged_names;
use crate::text::{contains_name, lemma_push_contains, lemma_take_contains, name_list};

verus! {

/// What is known of one name's source: whether the name is a gatekeeper that
/// can be resolved now, and the state of the file that would hold it.
#[derive(Debug, Clone, Copy, PartialEq, Eq, Structural)]
pub struct SourceInfo {
    pub is_gatekeeper: bool,
    pub state: SourceState,
}

/// The counts that a sync reports.
#[derive(Debug, Clone, Copy, PartialEq, Eq, Structural)]
pub struct SyncReport {
    /// Gatekeepers that were evaluated afresh and written.
    pub updated: usize,
    /// Gatekeepers whose entry was still good and was copied.
    pub skipped: usize,
    /// Entries of other names that were kept.
    pub preserved: usize,
    /// Entries of other names that were dropped because their source is gone.
    pub removed: usize,
}

/// The four counts, as cases of one tally.
pub enum Tally {
    Updated,
    Skipped,
    Preserved,
    Removed,
}

/// The inputs of one sync, as mathematical values.
pub struct SyncView {
    /// The cache before the sync.
    pub existing: Map<Seq<char>, CacheEntry>,
    /// What is known of the source of each name. A name without an entry
    /// here is no gatekeeper and has no source file.
    pub sources: Map<Seq<char>, SourceInfo>,
    /// The result of each evaluation that succeeded. A gatekeeper without an
    /// entry here was not evaluated, or its evaluation failed.
    pub outcomes: Map<Seq<char>, LuaGatekeeperResult>,
    pub force: bool,
    pub now: u64,
}

impl SyncView {
    pub open spec fn is_gatekeeper(self, k: Seq<char>) -> bool {
        self.sources.contains_key(k) && self.sources[k].is_gatekeeper
    }

    pub open spec fn state(self, k: Seq<char>) -> SourceState {
        if self.sources.contains_key(k) {
            self.sources[k].state
        } else {
            SourceState::Missing
        }
    }

    /// A gatekeeper is evaluated afresh when the sync is forced, when it has
    /// no entry, when its entry has expired, or when its source counts as
    /// changed since the entry was written.
    pub open spec fn needs_evaluation(self, k: Seq<char>) -> bool {
        ||| self.force
        ||| !self.existing.contains_key(k)
        ||| expired(self.existing[k], self.now)
        ||| source_modified(self.state(k), self.existing[k].ts)
    }

    /// An entry whose name is no gatekeeper stays if it was set by hand;
    /// another one stays if it has not expired and its source file is there.
    pub open spec fn keeps_foreign(self, k: Seq<char>) -> bool {
        self.existing[k].update_type == UpdateType::Manual || (!expired(
            self.existing[k],
            self.now,
        ) && self.state(k) != SourceState::Missing)
    }

    /// An entry that is dropped for want of its source, not for its age.
    pub open spec fn is_orphan(self, k: Seq<char>) -> bool {
        &&& self.existing[k].update_type != UpdateType::Manual
        &&& !expired(self.existing[k], self.now)
        &&& self.state(k) == SourceState::Missing
    }

    /// The entry under `k` after the sync, if there is one.
    pub open spec fn entry_after(self, k: Seq<char>) -> Option<CacheEntry> {
        if self.is_gatekeeper(k) {
            if self.needs_evaluation(k) {
                if self.outcomes.contains_key(k) {
                    Some(
                        written_entry(
                            self.outcomes[k].value,
                            UpdateType::Sync,
                            self.outcomes[k].ttl,
                            self.now,
                        ),
                    )
                } else {
                    None
                }
            } else {
                Some(self.existing[k])
            }
        } else if self.existing.contains_key(k) && self.keeps_foreign(k) {
            Some(self.existing[k])
        } else {
            None
        }
    }

    /// The cache after the sync.
    pub open spec fn result(self) -> Map<Seq<char>, CacheEntry> {
        Map::new(
            |k: Seq<char>| self.entry_after(k) is Some,
            |k: Seq<char>| self.entry_after(k)->0,
        )
    }

    /// Whether the name `k` counts for `tally`.
    pub open spec fn counts(self, tally: Tally, k: Seq<char>) -> bool {
        match tally {
            Tally::Updated => self.is_gatekeeper(k) && self.needs_evaluation(k)
                && self.outcomes.contains_key(k),
            Tally::Skipped => self.is_gatekeeper(k) && !self.needs_evaluation(k),
            Tally::Preserved => self.existing.contains_key(k) && !self.is_gatekeeper(k)
                && self.keeps_foreign(k),
            Tally::Removed => self.existing.contains_key(k) && !self.is_gatekeeper(k)
                && self.is_orphan(k),
        }
    }

    /// How many of `names` count for `tally`, a name counted as often as it
    /// is listed.
    spec fn tally(self, tally: Tally, names: Seq<Seq<char>>) -> nat
        decreases names.len(),
    {
        if names.len() == 0 {
            0
        } else {
            self.tally(tally, names.drop_last()) + if self.counts(tally, names.last()) {
                1nat
            } else {
                0nat
            }
        }
    }

    /// A tally never exceeds the number of names it runs over.
    proof fn lemma_tally_bound(self, tally: Tally, names: Seq<Seq<char>>)
        ensures
            self.tally(tally, names) <= names.len(),
        decreases names.len(),
    {
        if names.len() > 0 {
            self.lemma_tally_bound(tally, names.drop_last());
        }
    }

    /// Those of `names` that count for `tally`.
    spec fn counted(self, tally: Tally, names: Seq<Seq<char>>) -> Set<Seq<char>> {
        Set::new(|k: Seq<char>| names.contains(k) && self.counts(tally, k))
    }

    /// Over names of which none is listed twice, a tally is the number of
    /// names that count for it.
    proof fn lemma_tally_is_cardinality(self, tally: Tally, names: Seq<Seq<char>>)
        requires
            names.no_duplicates(),
        ensures
            self.counted(tally, names).finite(),
            self.tally(tally, names) == self.counted(tally, names).len(),
        decreases names.len(),
    {
        if names.len() == 0 {
            assert(self.counted(tally, names) =~= Set::empty());
        } else {
            let rest = names.drop_last();
            let last = names.last();
            self.lemma_tally_is_cardinality(tally, rest);
            assert(!rest.contains(last)) by {
                if rest.contains(last) {
                    let i = choose|i: int| 0 <= i < rest.len() && rest[i] == last;
                    assert(names[i] == names[names.len() - 1]);
                }
            }
            assert forall|k: Seq<char>| names.contains(k) <==> rest.contains(k) || k == last by {
                if names.contains(k) {
                    let i = choose|i: int| 0 <= i < names.len() && names[i] == k;
                    if i < rest.len() {
                        assert(rest[i] == k);
                    }
                }
                if rest.contains(k) {
                    let i = choose|i: int| 0 <= i < rest.len() && rest[i] == k;
                    assert(names[i] == k);
                }
                if k == last {
                    assert(names[names.len() - 1] == k);
                }
            }
            if self.counts(tally, last) {
                assert(self.counted(tally, names) =~= self.counted(tally, rest).insert(last));
            } else {
                assert(self.counted(tally, names) =~= self.counted(tally, rest));
            }
        }
    }

    /// The names among `names` that count for `tally`.
    pub open spec fn among(self, tally: Tally, names: Set<Seq<char>>) -> Set<Seq<char>> {
        Set::new(|k: Seq<char>| names.contains(k) && self.counts(tally, k))
    }

    /// Whether `report` holds the four counts of this sync: how many of the
    /// names with a known source were evaluated afresh and written, how
    /// many of them were skipped as fresh, and how many of the names in the
    /// cache were kept, and how many dropped as orphans, though they are no
    /// gatekeepers.
    pub open spec fn reports(
        self,
        known: Set<Seq<char>>,
        cached: Set<Seq<char>>,
        report: SyncReport,
    ) -> bool {
        &&& report.updated == self.among(Tally::Updated, known).len()
        &&& report.skipped == self.among(Tally::Skipped, known).len()
        &&& report.preserved == self.among(Tally::Preserved, cached).len()
        &&& report.removed == self.among(Tally::Removed, cached).len()
    }

    /// Whether `k` is a gatekeeper that the sync evaluates afresh.
    pub open spec fn is_due(self, k: Seq<char>) -> bool {
        self.is_gatekeeper(k) && self.needs_evaluation(k)
    }

    /// Those of `names` that are due, in the order of `names`.
    pub open spec fn due_among(self, names: Seq<Seq<char>>) -> Seq<Seq<char>>
        decreases names.len(),
    {
        if names.len() == 0 {
            Seq::empty()
        } else if self.is_due(names.last()) {
            self.due_among(names.drop_last()).push(names.last())
        } else {
            self.due_among(names.drop_last())
        }
    }

    /// Every time to live among the outcomes gives an expiry that fits.
    pub open spec fn ttls_fit(self) -> bool {
        forall|k: Seq<char>| #[trigger]
            self.outcomes.contains_key(k) ==> ttl_fits(self.now, self.outcomes[k].ttl)
    }
}

/// The inputs of a sync, seen as mathematical values.
pub open spec fn sync_view(
    existing: &Cache,
    sources: &NameMap<SourceInfo>,
    outcomes: &NameMap<LuaGatekeeperResult>,
    force: bool,
    now: u64,
) -> SyncView {
    SyncView {
        existing: existing.cache@,
        sources: sources@,
        outcomes: outcomes@,
        force,
        now,
    }
}

/// The inputs of a sync before any evaluation has been run for it.
pub open spec fn plan_view(
    existing: &Cache,
    sources: &NameMap<SourceInfo>,
    force: bool,
    now: u64,
) -> SyncView {
    SyncView {
        existing: existing.cache@,
        sources: sources@,
        outcomes: Map::empty(),
        force,
        now,
    }
}

/// The names whose source files a sync has to look at: the gatekeepers,
/// and after them the other names in the cache, each once.
pub fn names_to_probe(existing: &Cache, gatekeepers: &Vec<String>) -> (names: Vec<String>)
    requires
        existing.wf(),
        name_list(gatekeepers@).no_duplicates(),
    ensures
        name_list(names@).no_duplicates(),
        name_list(names@).take(gatekeepers@.len() as int) == name_list(gatekeepers@),
        forall|k: Seq<char>| #[trigger]
            name_list(names@).contains(k) <==> name_list(gatekeepers@).contains(k)
                || existing.cache@.contains_key(k),
{
    let cached = existing.cache.names();
    proof {
        existing.cache.lemma_keys_are_domain();
    }
    merged_names(gatekeepers, &cached)
}

/// What a sync knows of the sources, from what a look at each file gave:
/// `states` holds, for each of `names`, the state of its source file. A
/// name counts as a gatekeeper where it is among `gatekeepers`. Of a name
/// that is listed twice the later state stands.
pub fn source_table(
    gatekeepers: &Vec<String>,
    names: &Vec<String>,
    states: &Vec<SourceState>,
) -> (sources: NameMap<SourceInfo>)
    requires
        names@.len() == states@.len(),
    ensures
        sources.wf(),
        forall|k: Seq<char>| #[trigger]
            sources@.contains_key(k) <==> name_list(names@).contains(k),
        forall|k: Seq<char>| #[trigger]
            sources@.contains_key(k) ==> sources@[k].is_gatekeeper == name_list(
                gatekeepers@,
            ).contains(k),
        forall|i: int|
            0 <= i < names@.len() && (forall|j: int|
                i < j < names@.len() ==> names@[j]@ != names@[i]@) ==> sources@[#[trigger] names@[i]@].state
                == states@[i],
{
    let mut sources: NameMap<SourceInfo> = NameMap::new();
    let ghost all = name_list(names@);
    let mut i: usize = 0;
    while i < names.len()
        invariant
            i <= names@.len(),
            names@.len() == states@.len(),
            all == name_list(names@),
            sources.wf(),
            forall|k: Seq<char>| #[trigger]
                sources@.contains_key(k) <==> all.take(i as int).contains(k),
            forall|k: Seq<char>| #[trigger]
                sources@.contains_key(k) ==> sources@[k].is_gatekeeper == name_list(
                    gatekeepers@,
                ).contains(k),
            forall|a: int|
                0 <= a < i && (forall|j: int| a < j < i ==> names@[j]@ != names@[a]@)
                    ==> sources@[#[trigger] names@[a]@].state == states@[a],
        decreases names@.len() - i,
    {
        let is_gatekeeper = contains_name(gatekeepers, names[i].as_str());
        proof {
            assert forall|x: Seq<char>| all.take(i as int + 1).contains(x) <==> all.take(
                i as int,
            ).contains(x) || x == all[i as int] by {
                lemma_take_contains(all, i as int, x);
            }
        }
        sources.insert(names[i].clone(), SourceInfo { is_gatekeeper, state: states[i] });
        i += 1;
    }
    assert(all.take(names@.len() as int) =~= all);
    sources
}

/// What `sources` knows of `name`.
fn source_of(sources: &NameMap<SourceInfo>, name: &str) -> (info: SourceInfo)
    requires
        sources.wf(),
    ensures
        info == if sources@.contains_key(name@) {
            sources@[name@]
        } else {
            (SourceInfo { is_gatekeeper: false, state: SourceState::Missing })
        },
{
    match sources.get(name) {
        Some(info) => *info,
        None => SourceInfo { is_gatekeeper: false, state: SourceState::Missing },
    }
}

/// Whether the gatekeeper `name`, whose source is in `state`, has to be
/// evaluated afresh at time `now`.
pub fn needs_evaluation(
    existing: &Cache,
    name: &str,
    state: SourceState,
    force: bool,
    now: u64,
) -> (due: bool)
    requires
        existing.wf(),
    ensures
        due == (force || !existing.cache@.contains_key(name@) || expired(
            existing.cache@[name@],
            now,
        ) || source_modified(state, existing.cache@[name@].ts)),
{
    if force {
        return true;
    }
    match existing.cache.get(name) {
        Some(entry) => is_cache_entry_expired(entry, now) || is_gatekeeper_file_modified(
            state,
            entry,
        ),
        None => true,
    }
}

/// The gatekeepers that a sync at time `now` evaluates afresh, each once, in
/// the order of `sources`.
pub fn names_to_evaluate(
    existing: &Cache,
    sources: &NameMap<SourceInfo>,
    force: bool,
    now: u64,
) -> (names: Vec<String>)
    requires
        existing.wf(),
        sources.wf(),
    ensures
        name_list(names@) == plan_view(existing, sources, force, now).due_among(sources.keys()),
        name_list(names@).no_duplicates(),
        forall|k: Seq<char>| #[trigger]
            name_list(names@).contains(k) <==> plan_view(existing, sources, force, now).is_due(k),
{
    let ghost v = plan_view(existing, sources, force, now);
    let mut names: Vec<String> = Vec::new();
    let n = sources.len();
    proof {
        sources.lemma_keys_are_domain();
    }
    let ghost keys = sources.keys();
    let mut i: usize = 0;
    while i < n
        invariant
            existing.wf(),
            sources.wf(),
            keys == sources.keys(),
            n == keys.len(),
            i <= n,
            keys.no_duplicates(),
            v == plan_view(existing, sources, force, now),
            name_list(names@) == v.due_among(keys.take(i as int)),
            name_list(names@).no_duplicates(),
            forall|k: Seq<char>| #[trigger]
                name_list(names@).contains(k) <==> keys.take(i as int).contains(k) && v.is_due(k),
        decreases n - i,
    {
        let name = sources.name_at(i);
        let info = sources.value_at(i);
        let ghost k = keys[i as int];
        let ghost before = name_list(names@);
        proof {
            assert(keys.take(i as int + 1).drop_last() =~= keys.take(i as int));
            assert(keys.take(i as int + 1).last() == k);
            assert(!keys.take(i as int).contains(k)) by {
                let seen = keys.take(i as int);
                if seen.contains(k) {
                    let a = choose|a: int| 0 <= a < seen.len() && seen[a] == k;
                    assert(keys[a] == keys[i as int]);
                }
            }
        }
        if info.is_gatekeeper && needs_evaluation(existing, name.as_str(), info.state, force, now) {
            names.push(name.clone());
            proof {
                assert(name_list(names@) =~= before.push(k));
                assert forall|a: int, b: int|
                    0 <= a < name_list(names@).len() && 0 <= b < name_list(names@).len() && a
                        != b implies name_list(names@)[a] != name_list(names@)[b] by {
                    if a < before.len() {
                        assert(before.contains(before[a]));
                    }
                    if b < before.len() {
                        assert(before.contains(before[b]));
                    }
                }
            }
        }
        proof {
            assert forall|x: Seq<char>| #[trigger]
                name_list(names@).contains(x) <==> keys.take(i as int + 1).contains(x) && v.is_due(
                    x,
                ) by {
                lemma_take_contains(keys, i as int, x);
                if v.is_due(k) {
                    lemma_push_contains(before, k, x);
                }
            }
        }
        i += 1;
    }
    proof {
        assert(keys.take(n as int) =~= keys);
    }
    names
}

/// Reconciles the cache at time `now`.
///
/// Every gatekeeper that is due is given the entry of its outcome, written
/// at `now` as `Sync`; one that is due and has no outcome has no entry
/// afterwards. A gatekeeper that is not due keeps its entry. Of the other
/// names, one set by hand keeps its entry whatever its age; another keeps it
/// while it has not expired and its source file is there.
pub fn sync_command(
    existing: &Cache,
    sources: &NameMap<SourceInfo>,
    outcomes: &NameMap<LuaGatekeeperResult>,
    force: bool,
    now: u64,
) -> (synced: (Cache, SyncReport))
    requires
        existing.wf(),
        sources.wf(),
        outcomes.wf(),
        sync_view(existing, sources, outcomes, force, now).ttls_fit(),
    ensures
        synced.0.wf(),
        synced.0.ts == now,
        synced.0.cache@ == sync_view(existing, sources, outcomes, force, now).result(),
        sync_view(existing, sources, outcomes, force, now).reports(
            sources@.dom(),
            existing.cache@.dom(),
            synced.1,
        ),
{
    let ghost v = sync_view(existing, sources, outcomes, force, now);
    let mut fresh = Cache::new(now);
    let mut preserved: usize = 0;
    let mut removed: usize = 0;
    let old_len = existing.cache.len();
    proof {
        existing.cache.lemma_keys_are_domain();
        sources.lemma_keys_are_domain();
    }
    let ghost old_keys = existing.cache.keys();
    let mut i: usize = 0;
    while i < old_len
        invariant
            existing.wf(),
            sources.wf(),
            fresh.wf(),
            fresh.ts == now,
            v == sync_view(existing, sources, outcomes, force, now),
            old_keys == existing.cache.keys(),
            old_len == old_keys.len(),
            i <= old_len,
            forall|k: Seq<char>| old_keys.contains(k) <==> #[trigger] existing.cache@.contains_key(k),
            preserved == v.tally(Tally::Preserved, old_keys.take(i as int)),
            removed == v.tally(Tally::Removed, old_keys.take(i as int)),
            forall|k: Seq<char>| #[trigger]
                fresh.cache@.contains_key(k) <==> old_keys.take(i as int).contains(k)
                    && !v.is_gatekeeper(k) && v.keeps_foreign(k),
            forall|k: Seq<char>| #[trigger]
                fresh.cache@.contains_key(k) ==> fresh.cache@[k] == existing.cache@[k],
        decreases old_len - i,
    {
        let name = existing.cache.name_at(i);
        let entry = existing.cache.value_at(i);
        let info = source_of(sources, name.as_str());
        let ghost k = old_keys[i as int];
        let ghost before = fresh.cache@;
        proof {
            assert(old_keys.take(i as int + 1).drop_last() =~= old_keys.take(i as int));
            assert(old_keys.take(i as int + 1).last() == k);
            v.lemma_tally_bound(Tally::Preserved, old_keys.take(i as int));
            v.lemma_tally_bound(Tally::Removed, old_keys.take(i as int));
        }
        if !info.is_gatekeeper {
            let by_hand = match entry.update_type {
                UpdateType::Manual => true,
                _ => false,
            };
            let stale = is_cache_entry_expired(entry, now);
            let gone = match info.state {
                SourceState::Missing => true,
                _ => false,
            };
            if by_hand || (!stale && !gone) {
                fresh.cache.insert(name.clone(), *entry);
                preserved += 1;
            } else if !stale {
                removed += 1;
            }
        }
        proof {
            assert forall|x: Seq<char>| #[trigger]
                fresh.cache@.contains_key(x) <==> old_keys.take(i as int + 1).contains(x)
                    && !v.is_gatekeeper(x) && v.keeps_foreign(x) by {
                lemma_take_contains(old_keys, i as int, x);
            }
        }
        i += 1;
    }
    assert(old_keys.take(old_len as int) =~= old_keys);

    let mut updated: usize = 0;
    let mut skipped: usize = 0;
    let n = sources.len();
    let ghost keys = sources.keys();
    let mut j: usize = 0;
    while j < n
        invariant
            existing.wf(),
            sources.wf(),
            outcomes.wf(),
            fresh.wf(),
            fresh.ts == now,
            v == sync_view(existing, sources, outcomes, force, now),
            v.ttls_fit(),
            keys == sources.keys(),
            keys.no_duplicates(),
            n == keys.len(),
            j <= n,
            forall|k: Seq<char>| old_keys.contains(k) <==> #[trigger] existing.cache@.contains_key(k),
            old_keys == existing.cache.keys(),
            forall|k: Seq<char>| keys.contains(k) <==> #[trigger] sources@.contains_key(k),
            updated == v.tally(Tally::Updated, keys.take(j as int)),
            skipped == v.tally(Tally::Skipped, keys.take(j as int)),
            forall|k: Seq<char>| #[trigger]
                fresh.cache@.contains_key(k) <==> v.entry_after(k) is Some && (v.is_gatekeeper(k)
                    ==> keys.take(j as int).contains(k)),
            forall|k: Seq<char>| #[trigger]
                fresh.cache@.contains_key(k) ==> fresh.cache@[k] == v.entry_after(k)->0,
        decreases n - j,
    {
        let name = sources.name_at(j);
        let info = sources.value_at(j);
        let ghost k = keys[j as int];
        proof {
            assert(keys.take(j as int + 1).drop_last() =~= keys.take(j as int));
            assert(keys.take(j as int + 1).last() == k);
            v.lemma_tally_bound(Tally::Updated, keys.take(j as int));
            v.lemma_tally_bound(Tally::Skipped, keys.take(j as int));
            assert(!keys.take(j as int).contains(k)) by {
                let seen = keys.take(j as int);
                if seen.contains(k) {
                    let a = choose|a: int| 0 <= a < seen.len() && seen[a] == k;
                    assert(keys[a] == keys[j as int]);
                }
            }
        }
        if info.is_gatekeeper {
            if needs_evaluation(existing, name.as_str(), info.state, force, now) {
                match outcomes.get(name.as_str()) {
                    Some(outcome) => {
                        assert(v.outcomes.contains_key(k));
                        let entry = CacheEntry::written(
                            outcome.value,
                            UpdateType::Sync,
                            outcome.ttl,
                            now,
                        );
                        fresh.cache.insert(name.clone(), entry);
                        updated += 1;
                    },
                    None => {},
                }
            } else {
                match existing.cache.get(name.as_str()) {
                    Some(entry) => {
                        fresh.cache.insert(name.clone(), *entry);
                        skipped += 1;
                    },
                    None => {},
                }
            }
        }
        proof {
            assert forall|x: Seq<char>| #[trigger]
                fresh.cache@.contains_key(x) <==> v.entry_after(x) is Some && (v.is_gatekeeper(x)
                    ==> keys.take(j as int + 1).contains(x)) by {
                lemma_take_contains(keys, j as int, x);
            }
        }
        j += 1;
    }
    proof {
        assert(keys.take(n as int) =~= keys);
        assert forall|x: Seq<char>| v.is_gatekeeper(x) implies keys.contains(x) by {}
        assert(fresh.cache@ =~= v.result());
        v.lemma_tally_is_cardinality(Tally::Updated, keys);
        v.lemma_tally_is_cardinality(Tally::Skipped, keys);
        v.lemma_tally_is_cardinality(Tally::Preserved, old_keys);
        v.lemma_tally_is_cardinality(Tally::Removed, old_keys);
        assert(v.counted(Tally::Updated, keys) =~= v.among(Tally::Updated, sources@.dom()));
        assert(v.counted(Tally::Skipped, keys) =~= v.among(Tally::Skipped, sources@.dom()));
        assert(v.counted(Tally::Preserved, old_keys) =~= v.among(
            Tally::Preserved,
            existing.cache@.dom(),
        ));
        assert(v.counted(Tally::Removed, old_keys) =~= v.among(
            Tally::Removed,
            existing.cache@.dom(),
        ));
    }
    (fresh, SyncReport { updated, skipped, preserved, removed })
}

} // verus!
