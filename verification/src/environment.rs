//! What an evaluation depends on, gathered into one value.
//!
//! A gatekeeper's answer depends on the machine's name, on its operating
//! system, on which files exist, and on the other gatekeepers. Evaluation
//! reads all of these from an `Environment`: the same gatekeeper in the same
//! environment always gives the same answer.

use vstd::prelude::*;
use crate::gatekeeper::Gatekeeper;
use crate::host::path_exists;
use crate::names::NameMap;
use crate::primitives::Platform;
use crate::text::{lemma_take_contains, name_list};

verus! {

pub struct Environment {
    /// The machine's name and its operating system.
    pub platform: Platform,
    /// The paths that were looked at, each with whether it exists. A path
    /// that is not listed counts as not existing.
    pub files: NameMap<bool>,
    /// The gatekeepers that can be required, by name.
    pub gatekeepers: NameMap<Gatekeeper>,
}

impl Environment {
    pub open spec fn wf(&self) -> bool {
        self.files.wf() && self.gatekeepers.wf()
    }

    /// Whether `path` exists in this environment.
    pub open spec fn has_file(&self, path: Seq<char>) -> bool {
        self.files@.contains_key(path) && self.files@[path]
    }

    /// An environment without files and without gatekeepers.
    pub fn new(platform: Platform) -> (env: Environment)
        ensures
            env.wf(),
            env.platform == platform,
            env.files@ == Map::<Seq<char>, bool>::empty(),
            env.gatekeepers@ == Map::<Seq<char>, Gatekeeper>::empty(),
            env.gatekeepers.keys() == Seq::<Seq<char>>::empty(),
    {
        Environment { platform, files: NameMap::new(), gatekeepers: NameMap::new() }
    }

    /// The environment as the disk has it now: whether each of `paths`
    /// exists, and with that the platform and the gatekeepers as given.
    pub fn probe(platform: Platform, paths: &Vec<String>, gatekeepers: NameMap<Gatekeeper>) -> (env:
        Environment)
        requires
            gatekeepers.wf(),
        ensures
            env.wf(),
            env.platform == platform,
            env.gatekeepers == gatekeepers,
            forall|p: Seq<char>| #[trigger]
                env.files@.contains_key(p) <==> name_list(paths@).contains(p),
    {
        let mut files: NameMap<bool> = NameMap::new();
        let mut i: usize = 0;
        while i < paths.len()
            invariant
                i <= paths@.len(),
                files.wf(),
                forall|p: Seq<char>| #[trigger]
                    files@.contains_key(p) <==> name_list(paths@).take(i as int).contains(p),
            decreases paths@.len() - i,
        {
            let ghost all = name_list(paths@);
            let exists = path_exists(paths[i].as_str());
            files.insert(paths[i].clone(), exists);
            proof {
                assert forall|p: Seq<char>| #[trigger]
                    files@.contains_key(p) <==> all.take(i as int + 1).contains(p) by {
                    lemma_take_contains(all, i as int, p);
                }
            }
            i += 1;
        }
        assert(name_list(paths@).take(paths@.len() as int) =~= name_list(paths@));
        Environment { platform, files, gatekeepers }
    }

    pub fn file_exists(&self, path: &str) -> (exists: bool)
        requires
            self.wf(),
        ensures
            exists == self.has_file(path@),
    {
        match self.files.get(path) {
            Some(exists) => *exists,
            None => false,
        }
    }
}

} // verus!
