//! The lines of a text.

use vstd::prelude::*;
use crate::text::{chars_of, name_list, string_of};

verus! {

/// Where the first line of `s` ends: the position of its first line feed,
/// or the length of `s` where it has none.
pub open spec fn line_end(s: Seq<char>) -> int
    decreases s.len(),
{
    if s.len() == 0 || s[0] == '\n' {
        0
    } else {
        1 + line_end(s.drop_first())
    }
}

/// A line without the carriage return before its line feed.
pub open spec fn strip_cr(line: Seq<char>) -> Seq<char> {
    if line.len() > 0 && line.last() == '\r' {
        line.drop_last()
    } else {
        line
    }
}

/// The lines of `s`, as `str::lines` gives them: a line ends with a line
/// feed, or with a carriage return and a line feed, neither of which belongs
/// to it; what follows the last line feed is a line if it is not empty, and
/// is taken as it stands.
pub open spec fn lines_of(s: Seq<char>) -> Seq<Seq<char>>
    decreases s.len(),
{
    if s.len() == 0 {
        Seq::empty()
    } else {
        let end = line_end(s);
        if 0 <= end < s.len() {
            seq![strip_cr(s.take(end))] + lines_of(s.skip(end + 1))
        } else {
            seq![s]
        }
    }
}

/// The first line ends at `k` where no line feed stands before `k` and one
/// stands at `k`, or the text ends there.
pub proof fn lemma_line_end(s: Seq<char>, k: int)
    requires
        0 <= k <= s.len(),
        forall|j: int| 0 <= j < k ==> s[j] != '\n',
        k == s.len() || s[k] == '\n',
    ensures
        line_end(s) == k,
    decreases k,
{
    if k > 0 {
        lemma_line_end(s.drop_first(), k - 1);
    }
}

pub fn lines(text: &str) -> (found: Vec<String>)
    ensures
        name_list(found@) == lines_of(text@),
{
    let chars = chars_of(text);
    let n = chars.len();
    let mut found: Vec<String> = Vec::new();
    let mut start: usize = 0;
    let mut i: usize = 0;
    assert(chars@.skip(0) =~= chars@);
    while i < n
        invariant
            n == chars@.len(),
            start <= i <= n,
            forall|j: int| start <= j < i ==> chars@[j] != '\n',
            lines_of(chars@) == name_list(found@) + lines_of(chars@.skip(start as int)),
        decreases n - i,
    {
        if chars[i] == '\n' {
            let ghost rest = chars@.skip(start as int);
            let ghost before = name_list(found@);
            proof {
                lemma_line_end(rest, i - start);
                assert(rest.take(i - start) =~= chars@.subrange(start as int, i as int));
                assert(rest.skip(i - start + 1) =~= chars@.skip(i as int + 1));
            }
            let end = if i > start && chars[i - 1] == '\r' {
                i - 1
            } else {
                i
            };
            let line = string_of(&chars, start, end);
            proof {
                let whole = chars@.subrange(start as int, i as int);
                if i > start && chars@[i - 1] == '\r' {
                    assert(whole.last() == '\r');
                    assert(whole.drop_last() =~= chars@.subrange(start as int, end as int));
                } else {
                    assert(strip_cr(whole) == whole);
                }
                assert(line@ == strip_cr(rest.take(i - start)));
            }
            found.push(line);
            proof {
                assert(name_list(found@) =~= before.push(line@));
                assert(before + (seq![line@] + lines_of(chars@.skip(i as int + 1))) =~= before.push(
                    line@,
                ) + lines_of(chars@.skip(i as int + 1)));
            }
            start = i + 1;
        }
        i += 1;
    }
    if start < n {
        let ghost rest = chars@.skip(start as int);
        let ghost before = name_list(found@);
        proof {
            lemma_line_end(rest, n - start);
            assert(rest =~= chars@.subrange(start as int, n as int));
        }
        let line = string_of(&chars, start, n);
        found.push(line);
        proof {
            assert(name_list(found@) =~= before.push(line@));
            assert(before + seq![rest] =~= before.push(rest));
        }
    } else {
        assert(chars@.skip(start as int).len() == 0);
        assert(name_list(found@) + Seq::<Seq<char>>::empty() =~= name_list(found@));
    }
    found
}

} // verus!
