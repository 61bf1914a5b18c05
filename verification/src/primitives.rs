//! The conditions that a script is made of.

use vstd::prelude::*;
use vstd::string::*;
use crate::error::{Error, ErrorView, HostLookupFailure};
use crate::evaluators::{never, none_is, result_view};
use crate::host::{lookup_hostname, path_exists};
use crate::text::str_eq;

verus! {

/// What asking the system for the machine's name gave.
#[derive(Debug, Clone)]
pub enum HostnameLookup {
    Name(String),
    Failed(HostLookupFailure),
}

/// What is known of the machine and its system.
#[derive(Debug, Clone)]
pub struct Platform {
    /// The name of the operating system, such as `linux`, `macos` or
    /// `windows`.
    pub os: String,
    /// Whether the system is of the unix family.
    pub unix: bool,
    /// The machine's name, as far as it could be had.
    pub hostname: HostnameLookup,
}

impl Platform {
    /// The platform with the machine's name as the system gives it now.
    pub fn probe(os: String, unix: bool) -> (platform: Platform)
        ensures
            platform.os == os,
            platform.unix == unix,
    {
        Platform { os, unix, hostname: lookup_hostname() }
    }
}

/// Whether at least one of `checks` holds.
pub fn any_of(checks: &Vec<bool>) -> (r: bool)
    ensures
        r == !never(checks@, true),
        r == exists|i: int| 0 <= i < checks@.len() && checks@[i],
{
    !none_is(checks, true)
}

/// Whether every one of `checks` holds.
pub fn all_of(checks: &Vec<bool>) -> (r: bool)
    ensures
        r == never(checks@, false),
        r == forall|i: int| 0 <= i < checks@.len() ==> checks@[i],
{
    none_is(checks, false)
}

/// Whether none of `checks` holds.
pub fn none_of(checks: &Vec<bool>) -> (r: bool)
    ensures
        r == never(checks@, true),
        r == forall|i: int| 0 <= i < checks@.len() ==> !checks@[i],
{
    none_is(checks, true)
}

/// The three ways to make one answer of a list of answers.
#[derive(Debug, Clone, Copy, PartialEq, Eq, Structural)]
pub enum Combinator {
    Any,
    All,
    NoneOf,
}

/// What `which` makes of `checks`. The checks are values that have been
/// computed already: none of them is skipped.
pub open spec fn combined(which: Combinator, checks: Seq<bool>) -> bool {
    match which {
        Combinator::Any => !never(checks, true),
        Combinator::All => never(checks, false),
        Combinator::NoneOf => never(checks, true),
    }
}

pub fn combinator(which: Combinator, checks: &Vec<bool>) -> (r: bool)
    ensures
        r == combined(which, checks@),
{
    match which {
        Combinator::Any => any_of(checks),
        Combinator::All => all_of(checks),
        Combinator::NoneOf => none_of(checks),
    }
}

/// What comparing the machine's name with `target` gives, for each answer
/// that the lookup of the name can have: the comparison is exact, and a
/// lookup that failed fails the comparison.
pub open spec fn hostname_outcome(lookup: HostnameLookup, target: Seq<char>) -> Result<
    bool,
    ErrorView,
> {
    match lookup {
        HostnameLookup::Name(name) => Ok(name@ == target),
        HostnameLookup::Failed(failure) => Err(ErrorView::HostLookup { failure }),
    }
}

pub fn hostname_matches(lookup: &HostnameLookup, target: &str) -> (r: Result<bool, Error>)
    ensures
        result_view(r) == hostname_outcome(*lookup, target@),
{
    match lookup {
        HostnameLookup::Name(name) => Ok(str_eq(name.as_str(), target)),
        HostnameLookup::Failed(failure) => Err(Error::HostLookup { failure: *failure }),
    }
}

/// Whether this machine's name is exactly `target`. The name is looked up
/// anew at each call.
pub fn hostname_equals(target: &str) -> (r: Result<bool, Error>)
    ensures
        exists|lookup: HostnameLookup| result_view(r) == hostname_outcome(lookup, target@),
{
    let lookup = lookup_hostname();
    let r = hostname_matches(&lookup, target);
    assert(result_view(r) == hostname_outcome(lookup, target@));
    r
}

/// Whether `path` exists, taken as it stands. A path that cannot be looked
/// at counts as not existing; the question never fails.
pub fn file_exists(path: &str) -> bool {
    path_exists(path)
}

/// What the operating system identifier `name` gives on `platform`.
/// `linux`, `macos`, its other name `darwin`, and `windows` each ask for
/// that system, `unix` for the whole family; any other name is a mistake of
/// the caller and fails.
pub open spec fn os_outcome(name: Seq<char>, platform: Platform) -> Result<bool, ErrorView> {
    if name == "linux"@ {
        Ok(platform.os@ == "linux"@)
    } else if name == "macos"@ || name == "darwin"@ {
        Ok(platform.os@ == "macos"@)
    } else if name == "windows"@ {
        Ok(platform.os@ == "windows"@)
    } else if name == "unix"@ {
        Ok(platform.unix)
    } else {
        Err(ErrorView::UnknownOsIdentifier { name })
    }
}

pub fn os_equals(name: &str, platform: &Platform) -> (r: Result<bool, Error>)
    ensures
        result_view(r) == os_outcome(name@, *platform),
{
    if str_eq(name, "linux") {
        Ok(str_eq(platform.os.as_str(), "linux"))
    } else if str_eq(name, "macos") || str_eq(name, "darwin") {
        Ok(str_eq(platform.os.as_str(), "macos"))
    } else if str_eq(name, "windows") {
        Ok(str_eq(platform.os.as_str(), "windows"))
    } else if str_eq(name, "unix") {
        Ok(platform.unix)
    } else {
        Err(Error::UnknownOsIdentifier { name: name.to_string() })
    }
}

} // verus!
