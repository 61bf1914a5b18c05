//! The time to live that a script declares in a comment, and the script as
//! it is shown in a message.

use vstd::prelude::*;
use vstd::string::*;
use crate::text::lines::{lines, lines_of};
use crate::text::numbers::{decimal, decimal_digits, parse_u64, parsed_u64};
use crate::text::trim::{trim, trimmed};
use crate::text::{join, join_names, name_list, string_of};

verus! {

/// What the first capture group of the regular expression `pattern` holds
/// when the expression is matched against `text` at the leftmost place where
/// it matches: `None` where `pattern` is no regular expression, where it
/// matches nowhere in `text`, or where the group took no part in the match.
pub uninterp spec fn first_capture(pattern: Seq<char>, text: Seq<char>) -> Option<Seq<char>>;

/// Compiles `pattern` with `regex::Regex::new`, matches it against `text`
/// with `Regex::captures` and hands out what the first capture group holds.
/// The answer depends on the two texts alone.
#[verifier::external_body]
fn capture_first_group(pattern: &str, text: &str) -> (group: Option<String>)
    ensures
        match group {
            Some(g) => first_capture(pattern@, text@) == Some(g@),
            None => first_capture(pattern@, text@) is None,
        },
{
    let expression = regex::Regex::new(pattern).ok()?;
    let captures = expression.captures(text)?;
    captures.get(1).map(|m| m.as_str().to_string())
}

/// The regular expression of an annotation: a comment that begins its line
/// and reads `ttl:` and a number, with white space allowed before each.
pub open spec fn annotation_pattern() -> Seq<char> {
    "^--\\s*ttl:\\s*(\\d+)"@
}

/// What one line says of the time to live. `None`: the line is no
/// annotation. `Some(ttl)`: it is one, and `ttl` is the number it gives, if
/// that number is written in the digits `0` to `9` and fits.
pub open spec fn line_ttl(line: Seq<char>) -> Option<Option<u64>> {
    match first_capture(annotation_pattern(), trimmed(line)) {
        Some(digits) => Some(parsed_u64(digits)),
        None => None,
    }
}

/// What the first annotation among `lines` gives.
pub open spec fn first_ttl(lines: Seq<Seq<char>>) -> Option<u64>
    decreases lines.len(),
{
    if lines.len() == 0 {
        None
    } else {
        match line_ttl(lines.first()) {
            Some(ttl) => ttl,
            None => first_ttl(lines.drop_first()),
        }
    }
}

/// The time to live that `script` declares in a comment: that of its first
/// annotation. Later annotations are not looked at, even where the first
/// gives no number.
pub open spec fn comment_ttl(script: Seq<char>) -> Option<u64> {
    first_ttl(lines_of(script))
}

pub fn parse_ttl_comment(script: &str) -> (ttl: Option<u64>)
    ensures
        ttl == comment_ttl(script@),
{
    let all = lines(script);
    let ghost texts = name_list(all@);
    let mut i: usize = 0;
    assert(texts.skip(0) =~= texts);
    while i < all.len()
        invariant
            i <= all@.len(),
            texts == name_list(all@),
            texts == lines_of(script@),
            first_ttl(texts.skip(i as int)) == first_ttl(texts),
        decreases all@.len() - i,
    {
        proof {
            assert(texts.skip(i as int).first() == all@[i as int]@);
            assert(texts.skip(i as int).drop_first() =~= texts.skip(i as int + 1));
        }
        let line = trim(all[i].as_str());
        match capture_first_group("^--\\s*ttl:\\s*(\\d+)", line.as_str()) {
            Some(digits) => {
                return parse_u64(digits.as_str());
            },
            None => {},
        }
        i += 1;
    }
    assert(texts.skip(all@.len() as int) =~= Seq::<Seq<char>>::empty());
    None
}

/// `digits`, with blanks before them where they are fewer than three.
pub open spec fn padded(digits: Seq<char>) -> Seq<char> {
    if digits.len() >= 3 {
        digits
    } else if digits.len() == 2 {
        seq![' '] + digits
    } else {
        seq![' ', ' '] + digits
    }
}

/// The line at position `index`, with its number before it. Lines are
/// counted from one.
pub open spec fn numbered(index: nat, line: Seq<char>) -> Seq<char> {
    padded(decimal(index + 1)) + " | "@ + line
}

pub open spec fn numbered_lines(lines: Seq<Seq<char>>) -> Seq<Seq<char>> {
    Seq::new(lines.len(), |i: int| numbered(i as nat, lines[i]))
}

/// The script with a number before each line, as messages show it.
pub open spec fn formatted(script: Seq<char>) -> Seq<char> {
    join(numbered_lines(lines_of(script)), "\n"@)
}

pub fn format_script(script: &str) -> (text: String)
    ensures
        text@ == formatted(script@),
{
    let all = lines(script);
    let ghost texts = name_list(all@);
    let mut shown: Vec<String> = Vec::new();
    let mut i: usize = 0;
    while i < all.len()
        invariant
            i <= all@.len(),
            texts == name_list(all@),
            texts == lines_of(script@),
            name_list(shown@) == numbered_lines(texts).take(i as int),
        decreases all@.len() - i,
    {
        let digits = decimal_digits((i + 1) as u64);
        let mut line = String::new();
        proof {
            reveal_strlit(" ");
            reveal_strlit("  ");
            assert(" "@ =~= seq![' ']);
            assert("  "@ =~= seq![' ', ' ']);
        }
        if digits.len() == 2 {
            line.append(" ");
        } else if digits.len() < 2 {
            line.append("  ");
        }
        let number = string_of(&digits, 0, digits.len());
        assert(digits@.subrange(0, digits@.len() as int) =~= digits@);
        line.append(number.as_str());
        line.append(" | ");
        line.append(all[i].as_str());
        let ghost before = name_list(shown@);
        assert(line@ =~= numbered(i as nat, texts[i as int]));
        shown.push(line);
        assert(name_list(shown@) =~= before.push(numbered(i as nat, texts[i as int])));
        assert(numbered_lines(texts).take(i as int + 1) =~= before.push(
            numbered(i as nat, texts[i as int]),
        ));
        i += 1;
    }
    assert(numbered_lines(texts).take(all@.len() as int) =~= numbered_lines(texts));
    join_names(&shown, "\n")
}

} // verus!
