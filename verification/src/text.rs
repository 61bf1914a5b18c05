//! Small operations on text that the rest of the library is built from.
//!
//! Contracts speak of a string by its view, the sequence of its characters.

use vstd::prelude::*;
use vstd::string::*;

pub mod lines;
pub mod numbers;
pub mod order;
pub mod trim;

verus! {

/// `String::push` of the standard library appends one character to the end
/// of the string and leaves what was there untouched.
pub assume_specification[ String::push ](s: &mut String, c: char)
    ensures
        final(s)@ == old(s)@.push(c),
;

/// The characters of each string of a list.
pub open spec fn name_list(names: Seq<String>) -> Seq<Seq<char>> {
    Seq::new(names.len(), |i: int| names[i]@)
}

/// A pushed element is contained, beside what was contained before.
pub proof fn lemma_push_contains<A>(s: Seq<A>, k: A, x: A)
    ensures
        s.push(k).contains(x) <==> s.contains(x) || x == k,
{
    let longer = s.push(k);
    if longer.contains(x) {
        let a = choose|a: int| 0 <= a < longer.len() && longer[a] == x;
        if a < s.len() {
            assert(s[a] == x);
        }
    }
    if s.contains(x) {
        let a = choose|a: int| 0 <= a < s.len() && s[a] == x;
        assert(longer[a] == x);
    }
    if x == k {
        assert(longer[s.len() as int] == x);
    }
}

/// One more element taken from a sequence adds that element and no other.
pub proof fn lemma_take_contains<A>(s: Seq<A>, i: int, x: A)
    requires
        0 <= i < s.len(),
    ensures
        s.take(i + 1).contains(x) <==> s.take(i).contains(x) || x == s[i],
{
    let shorter = s.take(i);
    let longer = s.take(i + 1);
    if longer.contains(x) {
        let a = choose|a: int| 0 <= a < longer.len() && longer[a] == x;
        if a < i {
            assert(shorter[a] == x);
        }
    }
    if shorter.contains(x) {
        let a = choose|a: int| 0 <= a < shorter.len() && shorter[a] == x;
        assert(longer[a] == x);
    }
    if x == s[i] {
        assert(longer[i] == x);
    }
}

/// A sequence without repetition stays so when an element that it does not
/// hold is pushed.
pub proof fn lemma_push_no_duplicates<A>(s: Seq<A>, k: A)
    requires
        s.no_duplicates(),
        !s.contains(k),
    ensures
        s.push(k).no_duplicates(),
{
    let longer = s.push(k);
    assert forall|a: int, b: int|
        0 <= a < longer.len() && 0 <= b < longer.len() && a != b implies longer[a] != longer[b] by {
        if a < s.len() {
            assert(s.contains(s[a]));
        }
        if b < s.len() {
            assert(s.contains(s[b]));
        }
    }
}

/// The parts, with `sep` between each two neighbours.
pub open spec fn join(parts: Seq<Seq<char>>, sep: Seq<char>) -> Seq<char>
    decreases parts.len(),
{
    if parts.len() == 0 {
        Seq::empty()
    } else if parts.len() == 1 {
        parts[0]
    } else {
        join(parts.drop_last(), sep) + sep + parts.last()
    }
}

/// The names, with `sep` between each two neighbours.
pub fn join_names(names: &Vec<String>, sep: &str) -> (text: String)
    ensures
        text@ == join(name_list(names@), sep@),
{
    let mut text = String::new();
    let ghost parts = name_list(names@);
    let mut i: usize = 0;
    while i < names.len()
        invariant
            i <= names.len(),
            parts == name_list(names@),
            text@ == join(parts.take(i as int), sep@),
        decreases names.len() - i,
    {
        proof {
            assert(parts.take(i as int + 1).drop_last() =~= parts.take(i as int));
            assert(parts.take(i as int + 1).last() == names@[i as int]@);
        }
        if i > 0 {
            text.append(sep);
        }
        text.append(names[i].as_str());
        proof {
            if i == 0 {
                assert(text@ =~= names@[0]@);
                assert(parts.take(1)[0] == names@[0]@);
            }
        }
        i += 1;
    }
    assert(parts.take(names.len() as int) =~= parts);
    text
}

/// Whether two strings hold the same characters.
pub fn str_eq(a: &str, b: &str) -> (same: bool)
    ensures
        same == (a@ == b@),
{
    let x = a.as_bytes();
    let y = b.as_bytes();
    proof {
        vstd::utf8::encode_utf8_decode_utf8(a@);
        vstd::utf8::encode_utf8_decode_utf8(b@);
    }
    if x.len() != y.len() {
        return false;
    }
    let mut i: usize = 0;
    while i < x.len()
        invariant
            i <= x.len(),
            x.len() == y.len(),
            x@ == a.spec_bytes(),
            y@ == b.spec_bytes(),
            forall|j: int| 0 <= j < i ==> x@[j] == y@[j],
        decreases x.len() - i,
    {
        if x[i] != y[i] {
            return false;
        }
        i += 1;
    }
    assert(x@ =~= y@);
    true
}

/// Whether `name` is among `names`.
pub fn contains_name(names: &Vec<String>, name: &str) -> (found: bool)
    ensures
        found == name_list(names@).contains(name@),
{
    let mut i: usize = 0;
    while i < names.len()
        invariant
            i <= names@.len(),
            forall|j: int| 0 <= j < i ==> name_list(names@)[j] != name@,
        decreases names@.len() - i,
    {
        if str_eq(names[i].as_str(), name) {
            assert(name_list(names@)[i as int] == name@);
            return true;
        }
        i += 1;
    }
    false
}

/// Puts `name` at the end of `names` unless it is among them.
pub fn push_new(names: &mut Vec<String>, name: String)
    requires
        name_list(old(names)@).no_duplicates(),
    ensures
        name_list(final(names)@).no_duplicates(),
        name_list(final(names)@) == if name_list(old(names)@).contains(name@) {
            name_list(old(names)@)
        } else {
            name_list(old(names)@).push(name@)
        },
        forall|x: Seq<char>| #[trigger]
            name_list(final(names)@).contains(x) <==> name_list(old(names)@).contains(x) || x
                == name@,
{
    let ghost before = name_list(names@);
    if !contains_name(names, name.as_str()) {
        names.push(name);
        proof {
            assert(name_list(names@) =~= before.push(name@));
            lemma_push_no_duplicates(before, name@);
        }
    }
    proof {
        assert forall|x: Seq<char>| #[trigger]
            name_list(names@).contains(x) <==> before.contains(x) || x == name@ by {
            lemma_push_contains(before, name@, x);
        }
    }
}

/// The characters of `s`.
pub fn chars_of(s: &str) -> (chars: Vec<char>)
    ensures
        chars@ == s@,
{
    let mut chars: Vec<char> = Vec::new();
    for c in it: s.chars()
        invariant
            it.seq() == s@,
            chars@ == it.seq().take(it.index() as int),
    {
        let ghost before = chars@;
        chars.push(c);
        assert(it.seq().take(it.index() + 1) =~= before.push(c));
    }
    assert(s@.take(s@.len() as int) =~= s@);
    chars
}

/// The text made of the characters of `chars` from `from` up to `to`.
pub fn string_of(chars: &Vec<char>, from: usize, to: usize) -> (text: String)
    requires
        from <= to <= chars@.len(),
    ensures
        text@ == chars@.subrange(from as int, to as int),
{
    let mut text = String::new();
    let mut i: usize = from;
    while i < to
        invariant
            from <= i <= to,
            to <= chars@.len(),
            text@ == chars@.subrange(from as int, i as int),
        decreases to - i,
    {
        let ghost before = text@;
        text.push(chars[i]);
        assert(chars@.subrange(from as int, i as int + 1) =~= before.push(chars@[i as int]));
        i += 1;
    }
    text
}

/// Whether `s` ends with `suffix`.
pub open spec fn ends_with(s: Seq<char>, suffix: Seq<char>) -> bool {
    s.len() >= suffix.len() && s.subrange(s.len() - suffix.len(), s.len() as int) == suffix
}

/// Whether `s` begins with `prefix`.
pub open spec fn starts_with(s: Seq<char>, prefix: Seq<char>) -> bool {
    s.len() >= prefix.len() && s.subrange(0, prefix.len() as int) == prefix
}

/// Whether the characters of `s` from `at` on begin with `prefix`.
pub fn has_prefix_at(s: &Vec<char>, at: usize, prefix: &Vec<char>) -> (r: bool)
    requires
        at <= s@.len(),
    ensures
        r == starts_with(s@.skip(at as int), prefix@),
{
    if s.len() - at < prefix.len() {
        return false;
    }
    let mut i: usize = 0;
    while i < prefix.len()
        invariant
            at <= s@.len(),
            s@.len() <= usize::MAX,
            s@.len() - at >= prefix@.len(),
            i <= prefix@.len(),
            forall|j: int| 0 <= j < i ==> s@[at + j] == prefix@[j],
        decreases prefix@.len() - i,
    {
        if s[at + i] != prefix[i] {
            assert(s@.skip(at as int).subrange(0, prefix@.len() as int)[i as int] != prefix@[i as int]);
            return false;
        }
        i += 1;
    }
    assert(s@.skip(at as int).subrange(0, prefix@.len() as int) =~= prefix@);
    true
}

/// Whether `s` ends with `suffix`.
pub fn has_suffix(s: &Vec<char>, suffix: &Vec<char>) -> (r: bool)
    ensures
        r == ends_with(s@, suffix@),
{
    if s.len() < suffix.len() {
        return false;
    }
    let at = s.len() - suffix.len();
    let r = has_prefix_at(s, at, suffix);
    proof {
        assert(s@.skip(at as int).subrange(0, suffix@.len() as int) =~= s@.subrange(
            s@.len() - suffix@.len(),
            s@.len() as int,
        ));
    }
    r
}

/// Whether `needle` stands somewhere in `s`.
pub open spec fn occurs_in(needle: Seq<char>, s: Seq<char>) -> bool {
    exists|at: int| 0 <= at <= s.len() && #[trigger] starts_with(s.skip(at), needle)
}

/// Whether `needle` stands somewhere in `s`.
pub fn contains_text(s: &str, needle: &str) -> (found: bool)
    ensures
        found == occurs_in(needle@, s@),
{
    let text = chars_of(s);
    let wanted = chars_of(needle);
    let mut at: usize = 0;
    while at < text.len()
        invariant
            at <= text@.len(),
            text@ == s@,
            wanted@ == needle@,
            forall|a: int| 0 <= a < at ==> !#[trigger] starts_with(text@.skip(a), wanted@),
        decreases text@.len() - at,
    {
        if has_prefix_at(&text, at, &wanted) {
            return true;
        }
        at += 1;
    }
    has_prefix_at(&text, at, &wanted)
}

/// Whether `c` occurs in `s`.
pub fn contains_char(s: &str, c: char) -> (found: bool)
    ensures
        found == s@.contains(c),
{
    let mut found = false;
    for d in it: s.chars()
        invariant
            it.seq() == s@,
            found == it.seq().take(it.index() as int).contains(c),
    {
        let ghost before = it.seq().take(it.index() as int);
        let ghost after = it.seq().take(it.index() + 1);
        assert(after =~= before.push(d));
        assert(after.contains(c) == (before.contains(c) || d == c)) by {
            if before.contains(c) {
                let k = choose|k: int| 0 <= k < before.len() && before[k] == c;
                assert(after[k] == c);
            }
            if d == c {
                assert(after[after.len() - 1] == c);
            }
        }
        if d == c {
            found = true;
        }
    }
    assert(s@.take(s@.len() as int) =~= s@);
    found
}

} // verus!
