//! From files to gatekeeper names, and from the name in a `require` to the
//! gatekeeper it means.

use vstd::prelude::*;
use vstd::string::*;
use crate::text::{
    chars_of, contains_char, ends_with, has_suffix, lemma_take_contains, name_list, push_new,
    str_eq, string_of,
};

verus! {

/// The name under which the script in `file` is kept: the file's path
/// without its extension. A file of another extension, or one whose name is
/// the extension alone, holds no script.
pub open spec fn script_key(file: Seq<char>, extension: Seq<char>) -> Option<Seq<char>> {
    let suffix = seq!['.'] + extension;
    let stem = file.take(file.len() - suffix.len());
    if !ends_with(file, suffix) || stem.len() == 0 || stem.last() == '/' {
        None
    } else {
        Some(stem)
    }
}

pub fn file_script_key(file: &str, extension: &str) -> (key: Option<String>)
    ensures
        match key {
            Some(k) => script_key(file@, extension@) == Some(k@),
            None => script_key(file@, extension@) is None,
        },
{
    let mut dotted = String::from_str(".");
    proof {
        reveal_strlit(".");
        assert("."@ =~= seq!['.']);
    }
    dotted.append(extension);
    let suffix = chars_of(dotted.as_str());
    let chars = chars_of(file);
    if !has_suffix(&chars, &suffix) {
        return None;
    }
    let end = chars.len() - suffix.len();
    assert(chars@.subrange(0, end as int) =~= file@.take(file@.len() - suffix@.len()));
    if end == 0 || chars[end - 1] == '/' {
        return None;
    }
    Some(string_of(&chars, 0, end))
}

/// The gatekeeper that a script kept under `key` stands for. An entrypoint
/// `<directory>/init` stands for `<directory>`: the directory is the
/// gatekeeper. An entrypoint right under the root stands for none. Any
/// other script stands for the gatekeeper of its own name.
pub open spec fn key_gatekeeper(key: Seq<char>) -> Option<Seq<char>> {
    if key == "init"@ {
        None
    } else if ends_with(key, "/init"@) {
        if key.len() == "/init"@.len() {
            None
        } else {
            Some(key.take(key.len() - "/init"@.len()))
        }
    } else {
        Some(key)
    }
}

/// The gatekeeper that the file `file`, given relative to the root of the
/// gatekeepers, stands for, if it stands for one: that of the script it
/// holds.
pub open spec fn gatekeeper_name(file: Seq<char>, extension: Seq<char>) -> Option<Seq<char>> {
    match script_key(file, extension) {
        Some(key) => key_gatekeeper(key),
        None => None,
    }
}

pub fn file_gatekeeper_name(file: &str, extension: &str) -> (name: Option<String>)
    ensures
        match name {
            Some(n) => gatekeeper_name(file@, extension@) == Some(n@),
            None => gatekeeper_name(file@, extension@) is None,
        },
{
    let key = match file_script_key(file, extension) {
        Some(key) => key,
        None => {
            return None;
        },
    };
    if str_eq(key.as_str(), "init") {
        return None;
    }
    let chars = chars_of(key.as_str());
    let entry = chars_of("/init");
    if has_suffix(&chars, &entry) {
        if chars.len() == entry.len() {
            return None;
        }
        let cut = chars.len() - entry.len();
        let directory = string_of(&chars, 0, cut);
        assert(chars@.subrange(0, cut as int) =~= key@.take(key@.len() - "/init"@.len()));
        return Some(directory);
    }
    Some(key)
}

/// Whether one of `files` stands for the gatekeeper `name`.
pub open spec fn names_gatekeeper(
    files: Seq<Seq<char>>,
    extension: Seq<char>,
    name: Seq<char>,
) -> bool {
    exists|i: int|
        0 <= i < files.len() && #[trigger] gatekeeper_name(files[i], extension) == Some(name)
}

/// One more file stands for the gatekeepers that the others stand for, and
/// for its own.
proof fn lemma_one_more_file(files: Seq<Seq<char>>, i: int, extension: Seq<char>, n: Seq<char>)
    requires
        0 <= i < files.len(),
    ensures
        names_gatekeeper(files.take(i + 1), extension, n) <==> names_gatekeeper(
            files.take(i),
            extension,
            n,
        ) || gatekeeper_name(files[i], extension) == Some(n),
{
    let seen = files.take(i);
    let more = files.take(i + 1);
    if names_gatekeeper(more, extension, n) {
        let j = choose|j: int|
            0 <= j < more.len() && #[trigger] gatekeeper_name(more[j], extension) == Some(n);
        if j < i {
            assert(gatekeeper_name(seen[j], extension) == Some(n));
        }
    }
    if names_gatekeeper(seen, extension, n) {
        let j = choose|j: int|
            0 <= j < seen.len() && #[trigger] gatekeeper_name(seen[j], extension) == Some(n);
        assert(gatekeeper_name(more[j], extension) == Some(n));
    }
    if gatekeeper_name(files[i], extension) == Some(n) {
        assert(gatekeeper_name(more[i], extension) == Some(n));
    }
}

/// The gatekeepers that `files` stand for, each once. `files` are the files
/// found under the root of the gatekeepers, each by its path relative to
/// that root; without any, there are no gatekeepers.
pub fn find_all_gatekeepers(files: &Vec<String>, extension: &str) -> (names: Vec<String>)
    ensures
        name_list(names@).no_duplicates(),
        forall|n: Seq<char>| #[trigger]
            name_list(names@).contains(n) <==> names_gatekeeper(
                name_list(files@),
                extension@,
                n,
            ),
{
    let mut names: Vec<String> = Vec::new();
    let ghost all = name_list(files@);
    let mut i: usize = 0;
    while i < files.len()
        invariant
            i <= files@.len(),
            all == name_list(files@),
            name_list(names@).no_duplicates(),
            forall|n: Seq<char>| #[trigger]
                name_list(names@).contains(n) <==> names_gatekeeper(
                    all.take(i as int),
                    extension@,
                    n,
                ),
        decreases files@.len() - i,
    {
        proof {
            assert forall|n: Seq<char>|
                names_gatekeeper(all.take(i as int + 1), extension@, n) <==> names_gatekeeper(
                    all.take(i as int),
                    extension@,
                    n,
                ) || gatekeeper_name(all[i as int], extension@) == Some(n) by {
                lemma_one_more_file(all, i as int, extension@, n);
            }
        }
        match file_gatekeeper_name(files[i].as_str(), extension) {
            Some(name) => {
                push_new(&mut names, name);
            },
            None => {},
        }
        i += 1;
    }
    assert(all.take(files@.len() as int) =~= all);
    names
}

/// The names of `first`, and after them those of `second` that are not
/// among them, each once.
pub fn merged_names(first: &Vec<String>, second: &Vec<String>) -> (all: Vec<String>)
    requires
        name_list(first@).no_duplicates(),
    ensures
        name_list(all@).no_duplicates(),
        name_list(all@).take(first@.len() as int) == name_list(first@),
        forall|n: Seq<char>| #[trigger]
            name_list(all@).contains(n) <==> name_list(first@).contains(n) || name_list(
                second@,
            ).contains(n),
{
    let mut all = first.clone();
    proof {
        assert(name_list(all@) =~= name_list(first@)) by {
            assert(all@.len() == first@.len());
            assert forall|i: int| 0 <= i < all@.len() implies #[trigger] all@[i]@ == first@[i]@ by {
                assert(cloned(first@[i], all@[i]));
            }
        }
        assert(name_list(all@).take(first@.len() as int) =~= name_list(first@));
    }
    let ghost head = name_list(first@);
    let ghost more = name_list(second@);
    let mut i: usize = 0;
    while i < second.len()
        invariant
            i <= second@.len(),
            head == name_list(first@),
            more == name_list(second@),
            name_list(all@).len() >= first@.len(),
            name_list(all@).no_duplicates(),
            name_list(all@).take(first@.len() as int) == head,
            forall|n: Seq<char>| #[trigger]
                name_list(all@).contains(n) <==> head.contains(n) || more.take(i as int).contains(n),
        decreases second@.len() - i,
    {
        let ghost before = name_list(all@);
        proof {
            assert forall|n: Seq<char>|
                more.take(i as int + 1).contains(n) <==> more.take(i as int).contains(n) || n
                    == more[i as int] by {
                lemma_take_contains(more, i as int, n);
            }
        }
        push_new(&mut all, second[i].clone());
        assert(name_list(all@).take(first@.len() as int) =~= before.take(first@.len() as int));
        i += 1;
    }
    assert(more.take(second@.len() as int) =~= more);
    all
}

/// The name in a `require`, with every `.` read as a separator:
/// `meta.devserver` means `meta/devserver`.
pub open spec fn slashed(module: Seq<char>) -> Seq<char> {
    Seq::new(module.len(), |i: int| if module[i] == '.' { '/' } else { module[i] })
}

pub fn module_to_name(module: &str) -> (name: String)
    ensures
        name@ == slashed(module@),
{
    let chars = chars_of(module);
    let mut name = String::new();
    let mut i: usize = 0;
    while i < chars.len()
        invariant
            i <= chars@.len(),
            chars@ == module@,
            name@ == slashed(module@).take(i as int),
        decreases chars@.len() - i,
    {
        let ghost before = name@;
        let c = if chars[i] == '.' { '/' } else { chars[i] };
        name.push(c);
        assert(slashed(module@).take(i as int + 1) =~= before.push(c));
        i += 1;
    }
    assert(slashed(module@).take(chars@.len() as int) =~= slashed(module@));
    name
}

/// The gatekeepers that a required name may mean, in the order in which
/// they are tried: the name itself and, where it has no separator, the
/// entrypoint of the directory of that name.
pub open spec fn candidates(name: Seq<char>) -> Seq<Seq<char>> {
    if name.contains('/') {
        seq![name]
    } else {
        seq![name, name + "/init"@]
    }
}

pub fn candidate_names(name: &str) -> (tries: Vec<String>)
    ensures
        name_list(tries@) == candidates(name@),
{
    let mut tries: Vec<String> = Vec::new();
    tries.push(name.to_string());
    if !contains_char(name, '/') {
        let mut entry = name.to_string();
        entry.append("/init");
        tries.push(entry);
    }
    assert(name_list(tries@) =~= candidates(name@));
    tries
}

} // verus!
