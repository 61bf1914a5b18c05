//! What a script is offered, and what is kept from it.
//!
//! The tables here are the whole of it: the interpreter is set up by
//! walking them.

use vstd::prelude::*;
use vstd::string::*;
use crate::lua_executor::TextPredicate;
use crate::primitives::Combinator;
use crate::text::name_list;

verus! {

/// What stands behind a name that a script can call.
#[derive(Debug, Clone, Copy, PartialEq, Eq, Structural)]
pub enum HostFunction {
    /// A condition on one text.
    Condition(TextPredicate),
    /// One answer made of a list of answers.
    Combination(Combinator),
    /// A boolean, handed back as it is.
    Identity,
}

/// One function by its name.
#[derive(Debug, Clone)]
pub struct Offered {
    pub name: String,
    pub function: HostFunction,
}

/// The functions that a script is offered, each under its name. The
/// machine's name and the operating system can be asked for under two names
/// each. `require` comes on top of these.
pub open spec fn offered() -> Seq<(Seq<char>, HostFunction)> {
    seq![
        ("file_exists"@, HostFunction::Condition(TextPredicate::FileExists)),
        ("hostname"@, HostFunction::Condition(TextPredicate::HostnameEquals)),
        ("hostname_equals"@, HostFunction::Condition(TextPredicate::HostnameEquals)),
        ("os"@, HostFunction::Condition(TextPredicate::OsEquals)),
        ("os_equals"@, HostFunction::Condition(TextPredicate::OsEquals)),
        ("any"@, HostFunction::Combination(Combinator::Any)),
        ("all"@, HostFunction::Combination(Combinator::All)),
        ("none"@, HostFunction::Combination(Combinator::NoneOf)),
        ("bool"@, HostFunction::Identity),
    ]
}

/// A table of functions as a mathematical value.
pub open spec fn offer_view(table: Seq<Offered>) -> Seq<(Seq<char>, HostFunction)> {
    Seq::new(table.len(), |i: int| (table[i].name@, table[i].function))
}

fn one(name: &str, function: HostFunction) -> (offer: Offered)
    ensures
        offer.name@ == name@,
        offer.function == function,
{
    Offered { name: name.to_string(), function }
}

pub fn offered_functions() -> (table: Vec<Offered>)
    ensures
        offer_view(table@) == offered(),
{
    let mut table: Vec<Offered> = Vec::new();
    table.push(one("file_exists", HostFunction::Condition(TextPredicate::FileExists)));
    table.push(one("hostname", HostFunction::Condition(TextPredicate::HostnameEquals)));
    table.push(one("hostname_equals", HostFunction::Condition(TextPredicate::HostnameEquals)));
    table.push(one("os", HostFunction::Condition(TextPredicate::OsEquals)));
    table.push(one("os_equals", HostFunction::Condition(TextPredicate::OsEquals)));
    table.push(one("any", HostFunction::Combination(Combinator::Any)));
    table.push(one("all", HostFunction::Combination(Combinator::All)));
    table.push(one("none", HostFunction::Combination(Combinator::NoneOf)));
    table.push(one("bool", HostFunction::Identity));
    assert(offer_view(table@) =~= offered());
    table
}

/// The globals of the interpreter that a script does not get: those that
/// read and write files, reach the system, and print. The name `os` is
/// then given to the condition on the operating system.
pub open spec fn withheld() -> Seq<Seq<char>> {
    seq!["io"@, "os"@, "dofile"@, "loadfile"@, "print"@]
}

pub fn withheld_globals() -> (names: Vec<String>)
    ensures
        name_list(names@) == withheld(),
{
    let mut names: Vec<String> = Vec::new();
    names.push(String::from_str("io"));
    names.push(String::from_str("os"));
    names.push(String::from_str("dofile"));
    names.push(String::from_str("loadfile"));
    names.push(String::from_str("print"));
    assert(name_list(names@) =~= withheld());
    names
}

/// The fields of the table `package` that are emptied, so that `require`
/// finds no module on disk.
pub open spec fn emptied() -> Seq<Seq<char>> {
    seq!["path"@, "cpath"@]
}

pub fn emptied_fields() -> (names: Vec<String>)
    ensures
        name_list(names@) == emptied(),
{
    let mut names: Vec<String> = Vec::new();
    names.push(String::from_str("path"));
    names.push(String::from_str("cpath"));
    assert(name_list(names@) =~= emptied());
    names
}

/// The field of a table handed back that holds the value.
pub fn value_key() -> (key: &'static str)
    ensures
        key@ == "value"@,
{
    "value"
}

/// The field of a table handed back that holds the time to live.
pub fn ttl_key() -> (key: &'static str)
    ensures
        key@ == "ttl"@,
{
    "ttl"
}

} // verus!
