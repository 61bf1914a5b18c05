//! What the commands tell the user.

use vstd::prelude::*;
use vstd::string::*;
use crate::cache::sync::SyncReport;
use crate::text::numbers::{decimal, decimal_text};

verus! {

/// `true` or `false`, as text.
pub open spec fn truth(value: bool) -> Seq<char> {
    if value {
        "true"@
    } else {
        "false"@
    }
}

pub fn truth_text(value: bool) -> (text: &'static str)
    ensures
        text@ == truth(value),
{
    if value {
        "true"
    } else {
        "false"
    }
}

/// The boolean that a word on the command line stands for: `true`, `1`,
/// `yes` and `on` for true, `false`, `0`, `no` and `off` for false, in small
/// or capital letters. Another word stands for none.
pub open spec fn word_value(word: Seq<char>) -> Option<bool> {
    let small = lowered(word);
    if small == "true"@ || small == "1"@ || small == "yes"@ || small == "on"@ {
        Some(true)
    } else if small == "false"@ || small == "0"@ || small == "no"@ || small == "off"@ {
        Some(false)
    } else {
        None
    }
}

/// The small letter of a capital letter of the alphabet of 26 letters;
/// every other character is itself.
pub open spec fn small(c: char) -> char {
    if 'A' <= c <= 'Z' {
        ((c as u32) + 32) as char
    } else {
        c
    }
}

pub open spec fn lowered(word: Seq<char>) -> Seq<char> {
    Seq::new(word.len(), |i: int| small(word[i]))
}

fn small_letter(c: char) -> (s: char)
    ensures
        s == small(c),
{
    if 'A' <= c && c <= 'Z' {
        ((c as u8) + 32) as char
    } else {
        c
    }
}

pub fn parse_bool_word(word: &str) -> (value: Option<bool>)
    ensures
        value == word_value(word@),
{
    let chars = crate::text::chars_of(word);
    let mut text = String::new();
    let mut i: usize = 0;
    while i < chars.len()
        invariant
            i <= chars@.len(),
            chars@ == word@,
            text@ == lowered(word@).take(i as int),
        decreases chars@.len() - i,
    {
        let ghost before = text@;
        text.push(small_letter(chars[i]));
        assert(lowered(word@).take(i as int + 1) =~= before.push(small(chars@[i as int])));
        i += 1;
    }
    assert(lowered(word@).take(chars@.len() as int) =~= lowered(word@));
    let small = text.as_str();
    if crate::text::str_eq(small, "true") || crate::text::str_eq(small, "1") || crate::text::str_eq(
        small,
        "yes",
    ) || crate::text::str_eq(small, "on") {
        Some(true)
    } else if crate::text::str_eq(small, "false") || crate::text::str_eq(small, "0")
        || crate::text::str_eq(small, "no") || crate::text::str_eq(small, "off") {
        Some(false)
    } else {
        None
    }
}

/// What setting `name` to `value` is answered with.
pub open spec fn set_text(name: Seq<char>, value: bool, ttl: Option<u64>) -> Seq<char> {
    "Set '"@ + name + "' = "@ + truth(value) + match ttl {
        Some(t) => " (expires in "@ + decimal(t as nat) + " seconds)"@,
        None => " (no expiration)"@,
    }
}

pub fn set_message(name: &str, value: bool, ttl_seconds: Option<u64>) -> (text: String)
    ensures
        text@ == set_text(name@, value, ttl_seconds),
{
    let mut text = String::from_str("Set '");
    text.append(name);
    text.append("' = ");
    text.append(truth_text(value));
    match ttl_seconds {
        Some(ttl) => {
            text.append(" (expires in ");
            text.append(decimal_text(ttl).as_str());
            text.append(" seconds)");
        },
        None => {
            text.append(" (no expiration)");
        },
    }
    text
}

/// One line of the list of cached values.
pub fn listing_line(name: &str, value: bool) -> (text: String)
    ensures
        text@ == name@ + ": "@ + truth(value),
{
    let mut text = name.to_string();
    text.append(": ");
    text.append(truth_text(value));
    text
}

/// What removing `name` is answered with: whether there was a cache entry,
/// whether the file was asked to go, and whether one was deleted.
pub open spec fn removal_text(
    name: Seq<char>,
    cache_entry_existed: bool,
    file_removed: bool,
    remove_file: bool,
) -> Seq<char> {
    if cache_entry_existed {
        if !remove_file {
            "Removed gatekeeper '"@ + name + "' from cache"@
        } else if file_removed {
            "Removed gatekeeper '"@ + name + "' from cache and deleted file"@
        } else {
            "Removed gatekeeper '"@ + name + "' from cache (file did not exist)"@
        }
    } else {
        if !remove_file {
            "Gatekeeper '"@ + name + "' not found in cache"@
        } else if file_removed {
            "Deleted gatekeeper file for '"@ + name + "' (no cache entry existed)"@
        } else {
            "Gatekeeper '"@ + name + "' not found in cache or filesystem"@
        }
    }
}

pub fn removal_message(
    name: &str,
    cache_entry_existed: bool,
    file_removed: bool,
    remove_file: bool,
) -> (text: String)
    ensures
        text@ == removal_text(name@, cache_entry_existed, file_removed, remove_file),
{
    let (before, after) = if cache_entry_existed {
        if !remove_file {
            ("Removed gatekeeper '", "' from cache")
        } else if file_removed {
            ("Removed gatekeeper '", "' from cache and deleted file")
        } else {
            ("Removed gatekeeper '", "' from cache (file did not exist)")
        }
    } else {
        if !remove_file {
            ("Gatekeeper '", "' not found in cache")
        } else if file_removed {
            ("Deleted gatekeeper file for '", "' (no cache entry existed)")
        } else {
            ("Gatekeeper '", "' not found in cache or filesystem")
        }
    };
    let mut text = String::from_str(before);
    text.append(name);
    text.append(after);
    text
}

/// What a sync is answered with. A forced sync has skipped nothing and
/// does not say so; removed entries are named only where there are some.
pub open spec fn sync_text(report: SyncReport, force: bool) -> Seq<char> {
    (if force {
        "Force synced "@
    } else {
        "Synced "@
    }) + decimal(report.updated as nat) + " gatekeepers"@ + (if force {
        Seq::empty()
    } else {
        ", skipped "@ + decimal(report.skipped as nat) + " non-expired"@
    }) + ", preserved "@ + decimal(report.preserved as nat) + " non-gatekeeper entries"@ + (
    if report.removed > 0 {
        ", removed "@ + decimal(report.removed as nat) + " orphaned entries"@
    } else {
        Seq::empty()
    })
}

pub fn sync_message(report: &SyncReport, force: bool) -> (text: String)
    ensures
        text@ == sync_text(*report, force),
{
    let mut text = String::new();
    if force {
        text.append("Force synced ");
    } else {
        text.append("Synced ");
    }
    text.append(decimal_text(report.updated as u64).as_str());
    text.append(" gatekeepers");
    let ghost head = text@;
    if !force {
        text.append(", skipped ");
        text.append(decimal_text(report.skipped as u64).as_str());
        text.append(" non-expired");
    } else {
        assert(text@ =~= head + Seq::<char>::empty());
    }
    text.append(", preserved ");
    text.append(decimal_text(report.preserved as u64).as_str());
    text.append(" non-gatekeeper entries");
    let ghost body = text@;
    if report.removed > 0 {
        text.append(", removed ");
        text.append(decimal_text(report.removed as u64).as_str());
        text.append(" orphaned entries");
    } else {
        assert(text@ =~= body + Seq::<char>::empty());
    }
    assert(text@ =~= sync_text(*report, force));
    text
}

} // verus!
