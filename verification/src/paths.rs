//! Where the files of an installation are.
//!
//! Paths are kept as text with `/` between the components. Nothing here
//! looks at the disk: what exists is told by the caller.

use vstd::prelude::*;
use vstd::string::*;
use crate::error::{Error, ErrorView};
use crate::host::home_directory;
use crate::text::{chars_of, contains_char};

verus! {

/// `part` appended to `base` as a path component: an absolute `part` stands
/// for itself, and a separator is put between the two unless `base` is empty
/// or ends with one.
pub open spec fn joined(base: Seq<char>, part: Seq<char>) -> Seq<char> {
    if part.len() > 0 && part[0] == '/' {
        part
    } else if base.len() == 0 || base.last() == '/' {
        base + part
    } else {
        base + seq!['/'] + part
    }
}

pub fn join_path(base: &str, part: &str) -> (path: String)
    ensures
        path@ == joined(base@, part@),
{
    let head = chars_of(part);
    if head.len() > 0 && head[0] == '/' {
        return part.to_string();
    }
    let tail = chars_of(base);
    let mut path = base.to_string();
    if tail.len() > 0 && tail[tail.len() - 1] != '/' {
        proof {
            reveal_strlit("/");
            assert("/"@ =~= seq!['/']);
        }
        path.append("/");
    }
    path.append(part);
    path
}

/// The directory of the configuration: the one given, or `.config/dotgk`
/// under the home directory.
pub open spec fn config_dir(given: Option<Seq<char>>, home: Seq<char>) -> Seq<char> {
    match given {
        Some(dir) => dir,
        None => joined(joined(home, ".config"@), "dotgk"@),
    }
}

/// The configuration directory, from the directory that the user named, if
/// any, and the home directory, if one is known. Without either there is
/// none.
pub fn config_dir_from(given: Option<String>, home: Option<String>) -> (dir: Result<String, Error>)
    ensures
        match dir {
            Ok(d) => (given is Some || home is Some) && d@ == config_dir(
                match given {
                    Some(g) => Some(g@),
                    None => None,
                },
                match home {
                    Some(h) => h@,
                    None => Seq::empty(),
                },
            ),
            Err(e) => given is None && home is None && e@ == (ErrorView::IoError {
                message: "Failed to get home directory"@,
            }),
        },
{
    match given {
        Some(dir) => Ok(dir),
        None => match home {
            Some(home) => {
                let config = join_path(home.as_str(), ".config");
                Ok(join_path(config.as_str(), "dotgk"))
            },
            None => Err(
                Error::IoError { message: String::from_str("Failed to get home directory") },
            ),
        },
    }
}

/// The configuration directory: the one that the user named, or
/// `.config/dotgk` under the home directory, which is asked for only where
/// the user named none.
pub fn get_config_dir(given: Option<String>) -> (dir: Result<String, Error>)
    ensures
        given matches Some(g) ==> dir matches Ok(d) && d@ == g@,
        given is None ==> match dir {
            Ok(d) => exists|home: Seq<char>|
                d@ == joined(#[trigger] joined(home, ".config"@), "dotgk"@),
            Err(e) => e@ == (ErrorView::IoError { message: "Failed to get home directory"@ }),
        },
{
    match given {
        Some(dir) => Ok(dir),
        None => {
            let home = home_directory();
            let dir = config_dir_from(None, home);
            proof {
                if dir is Ok {
                    assert(dir->Ok_0@ == joined(joined(home->0@, ".config"@), "dotgk"@));
                }
            }
            dir
        },
    }
}

/// The file of the gatekeeper `name`: `gatekeepers/<name>.<extension>` under
/// the configuration directory.
pub open spec fn gatekeeper_path(dir: Seq<char>, name: Seq<char>, extension: Seq<char>) -> Seq<
    char,
> {
    joined(joined(dir, "gatekeepers"@), name + seq!['.'] + extension)
}

/// The entrypoint file of the directory `name`:
/// `gatekeepers/<name>/init.<extension>` under the configuration directory.
pub open spec fn entrypoint_path(dir: Seq<char>, name: Seq<char>, extension: Seq<char>) -> Seq<
    char,
> {
    joined(joined(joined(dir, "gatekeepers"@), name), "init"@ + seq!['.'] + extension)
}

fn with_extension(stem: &str, extension: &str) -> (file: String)
    ensures
        file@ == stem@ + seq!['.'] + extension@,
{
    let mut file = stem.to_string();
    proof {
        reveal_strlit(".");
        assert("."@ =~= seq!['.']);
    }
    file.append(".");
    file.append(extension);
    file
}

pub fn get_gatekeeper_path(config_dir: &str, name: &str, extension: &str) -> (path: String)
    ensures
        path@ == gatekeeper_path(config_dir@, name@, extension@),
{
    let root = join_path(config_dir, "gatekeepers");
    let file = with_extension(name, extension);
    join_path(root.as_str(), file.as_str())
}

pub fn get_entrypoint_path(config_dir: &str, name: &str, extension: &str) -> (path: String)
    ensures
        path@ == entrypoint_path(config_dir@, name@, extension@),
{
    let root = join_path(config_dir, "gatekeepers");
    let directory = join_path(root.as_str(), name);
    let file = with_extension("init", extension);
    join_path(directory.as_str(), file.as_str())
}

/// The file that holds the gatekeeper `name`.
///
/// A name with a separator in it always means its own file. For a name
/// without one, its own file is preferred where it exists, then the
/// entrypoint file of the directory of that name where that exists; where
/// neither does, the answer is the name's own file, so that whoever reports
/// it missing names one path.
pub open spec fn resolved_path(
    dir: Seq<char>,
    name: Seq<char>,
    extension: Seq<char>,
    direct_exists: bool,
    entrypoint_exists: bool,
) -> Seq<char> {
    if name.contains('/') || direct_exists || !entrypoint_exists {
        gatekeeper_path(dir, name, extension)
    } else {
        entrypoint_path(dir, name, extension)
    }
}

pub fn resolve_path(
    config_dir: &str,
    name: &str,
    extension: &str,
    direct_exists: bool,
    entrypoint_exists: bool,
) -> (path: String)
    ensures
        path@ == resolved_path(config_dir@, name@, extension@, direct_exists, entrypoint_exists),
{
    if contains_char(name, '/') || direct_exists || !entrypoint_exists {
        get_gatekeeper_path(config_dir, name, extension)
    } else {
        get_entrypoint_path(config_dir, name, extension)
    }
}

/// The file in which the gatekeeper `name` is kept, where gatekeepers are
/// written as scripts with the extension `script` or declared in files with
/// the extension `declared`: the file of its script, as `resolved_path`
/// finds it, unless the gatekeeper has no script and is declared.
pub open spec fn source_path_of(
    dir: Seq<char>,
    name: Seq<char>,
    script: Seq<char>,
    declared: Seq<char>,
    script_exists: bool,
    entrypoint_exists: bool,
    is_declared: bool,
) -> Seq<char> {
    if script_exists || entrypoint_exists || !is_declared {
        resolved_path(dir, name, script, script_exists, entrypoint_exists)
    } else {
        gatekeeper_path(dir, name, declared)
    }
}

pub fn source_path(
    config_dir: &str,
    name: &str,
    script: &str,
    declared: &str,
    script_exists: bool,
    entrypoint_exists: bool,
    is_declared: bool,
) -> (path: String)
    ensures
        path@ == source_path_of(
            config_dir@,
            name@,
            script@,
            declared@,
            script_exists,
            entrypoint_exists,
            is_declared,
        ),
{
    if script_exists || entrypoint_exists || !is_declared {
        resolve_path(config_dir, name, script, script_exists, entrypoint_exists)
    } else {
        get_gatekeeper_path(config_dir, name, declared)
    }
}

/// The file of the cache: the one given, or `cache/cache.json` under the
/// configuration directory.
pub fn get_cache_path(cache_path: Option<String>, config_dir: &str) -> (path: String)
    ensures
        path@ == match cache_path {
            Some(given) => given@,
            None => joined(joined(config_dir@, "cache"@), "cache.json"@),
        },
{
    match cache_path {
        Some(given) => given,
        None => {
            let directory = join_path(config_dir, "cache");
            join_path(directory.as_str(), "cache.json")
        },
    }
}

/// The file of the settings: `settings.json` in the configuration directory.
pub fn get_settings_path(config_dir: &str) -> (path: String)
    ensures
        path@ == joined(config_dir@, "settings.json"@),
{
    join_path(config_dir, "settings.json")
}

/// The file that a cache format with the file extension `extension` is
/// written to: the one given, or `caches/dotgk.<extension>` under the
/// configuration directory.
pub fn get_generated_path(
    given: Option<String>,
    config_dir: &str,
    extension: &str,
) -> (path: String)
    ensures
        path@ == match given {
            Some(p) => p@,
            None => joined(joined(config_dir@, "caches"@), "dotgk"@ + seq!['.'] + extension@),
        },
{
    match given {
        Some(p) => p,
        None => {
            let directory = join_path(config_dir, "caches");
            let file = with_extension("dotgk", extension);
            join_path(directory.as_str(), file.as_str())
        },
    }
}

} // verus!
