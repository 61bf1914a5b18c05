//! The order of names, as `String` compares them.

use vstd::prelude::*;
use crate::text::{chars_of, name_list};

verus! {

/// Whether `a` comes before `b`: at the first place where they differ `a`
/// has the smaller character, or `a` ends there and `b` goes on.
pub open spec fn lex_less(a: Seq<char>, b: Seq<char>) -> bool
    decreases a.len(),
{
    if b.len() == 0 {
        false
    } else if a.len() == 0 {
        true
    } else if a[0] != b[0] {
        a[0] < b[0]
    } else {
        lex_less(a.drop_first(), b.drop_first())
    }
}

/// Each name comes before the next.
pub open spec fn strictly_sorted(names: Seq<Seq<char>>) -> bool {
    forall|i: int, j: int| 0 <= i < j < names.len() ==> lex_less(names[i], names[j])
}

pub proof fn lemma_lex_irreflexive(a: Seq<char>)
    ensures
        !lex_less(a, a),
    decreases a.len(),
{
    if a.len() > 0 {
        lemma_lex_irreflexive(a.drop_first());
    }
}

pub proof fn lemma_lex_transitive(a: Seq<char>, b: Seq<char>, c: Seq<char>)
    requires
        lex_less(a, b),
        lex_less(b, c),
    ensures
        lex_less(a, c),
    decreases a.len(),
{
    if a.len() > 0 && a[0] == b[0] && b[0] == c[0] {
        lemma_lex_transitive(a.drop_first(), b.drop_first(), c.drop_first());
    }
}

/// Of two different names one comes before the other.
pub proof fn lemma_lex_total(a: Seq<char>, b: Seq<char>)
    requires
        a != b,
    ensures
        lex_less(a, b) || lex_less(b, a),
    decreases a.len(),
{
    if a.len() > 0 && b.len() > 0 && a[0] == b[0] {
        if a.drop_first() == b.drop_first() {
            assert(a =~= seq![a[0]] + a.drop_first());
            assert(b =~= seq![b[0]] + b.drop_first());
        }
        lemma_lex_total(a.drop_first(), b.drop_first());
    } else if a.len() == 0 && b.len() == 0 {
        assert(a =~= b);
    }
}

/// Whether `order` lists exactly the names of `names`, each once, in order.
pub open spec fn is_order_of(order: Seq<Seq<char>>, names: Set<Seq<char>>) -> bool {
    &&& strictly_sorted(order)
    &&& forall|k: Seq<char>| #[trigger] order.contains(k) <==> names.contains(k)
}

/// The names of `names` in order.
pub open spec fn in_order(names: Set<Seq<char>>) -> Seq<Seq<char>> {
    choose|order: Seq<Seq<char>>| is_order_of(order, names)
}

/// A set of names has one order only.
pub proof fn lemma_order_is_unique(a: Seq<Seq<char>>, b: Seq<Seq<char>>, names: Set<Seq<char>>)
    requires
        is_order_of(a, names),
        is_order_of(b, names),
    ensures
        a == b,
    decreases a.len(),
{
    if a.len() == 0 {
        if b.len() > 0 {
            assert(b.contains(b[0]));
            assert(a.contains(b[0]));
        }
        assert(a =~= b);
    } else {
        assert(a.contains(a[0]));
        assert(b.contains(a[0]));
        let x = a.last();
        let y = b.last();
        assert(a.contains(x)) by {
            assert(a[a.len() - 1] == x);
        }
        assert(b.contains(y)) by {
            assert(b[b.len() - 1] == y);
        }
        if x != y {
            assert(names.contains(x));
            assert(b.contains(x));
            assert(names.contains(y));
            assert(a.contains(y));
            let j = choose|j: int| 0 <= j < b.len() && b[j] == x;
            let i = choose|i: int| 0 <= i < a.len() && a[i] == y;
            assert(lex_less(b[j], b[b.len() - 1]));
            assert(lex_less(a[i], a[a.len() - 1]));
            lemma_lex_transitive(x, y, x);
            lemma_lex_irreflexive(x);
        }
        let shorter = names.remove(x);
        assert(is_order_of(a.drop_last(), shorter)) by {
            lemma_drop_last_order(a, names);
        }
        assert(is_order_of(b.drop_last(), shorter)) by {
            lemma_drop_last_order(b, names);
        }
        lemma_order_is_unique(a.drop_last(), b.drop_last(), shorter);
        assert(a =~= a.drop_last().push(x));
        assert(b =~= b.drop_last().push(y));
    }
}

/// Without its last name, an order is the order of the other names.
proof fn lemma_drop_last_order(a: Seq<Seq<char>>, names: Set<Seq<char>>)
    requires
        a.len() > 0,
        is_order_of(a, names),
    ensures
        is_order_of(a.drop_last(), names.remove(a.last())),
{
    let x = a.last();
    let rest = a.drop_last();
    assert forall|k: Seq<char>| #[trigger] rest.contains(k) <==> names.remove(x).contains(k) by {
        if rest.contains(k) {
            let i = choose|i: int| 0 <= i < rest.len() && rest[i] == k;
            assert(a[i] == k);
            assert(a.contains(k));
            assert(lex_less(a[i], a[a.len() - 1]));
            lemma_lex_irreflexive(x);
        }
        if names.remove(x).contains(k) {
            assert(a.contains(k));
            let i = choose|i: int| 0 <= i < a.len() && a[i] == k;
            assert(rest[i] == k);
        }
    }
}

/// Whether `a` comes before `b`.
pub fn comes_before(a: &str, b: &str) -> (r: bool)
    ensures
        r == lex_less(a@, b@),
{
    let x = chars_of(a);
    let y = chars_of(b);
    let mut i: usize = 0;
    assert(x@.skip(0) =~= x@);
    assert(y@.skip(0) =~= y@);
    while i < x.len() && i < y.len()
        invariant
            i <= x@.len(),
            i <= y@.len(),
            x@ == a@,
            y@ == b@,
            lex_less(x@.skip(i as int), y@.skip(i as int)) == lex_less(x@, y@),
        decreases x@.len() - i,
    {
        proof {
            assert(x@.skip(i as int).drop_first() =~= x@.skip(i as int + 1));
            assert(y@.skip(i as int).drop_first() =~= y@.skip(i as int + 1));
            assert(x@.skip(i as int)[0] == x@[i as int]);
            assert(y@.skip(i as int)[0] == y@[i as int]);
        }
        if x[i] != y[i] {
            return x[i] < y[i];
        }
        i += 1;
    }
    i < y.len()
}

/// `names` in order. As no name occurs twice, the order is strict, and
/// there is only one such list.
pub fn sorted_names(names: &Vec<String>) -> (sorted: Vec<String>)
    requires
        name_list(names@).no_duplicates(),
    ensures
        strictly_sorted(name_list(sorted@)),
        sorted@.len() == names@.len(),
        forall|k: Seq<char>| #[trigger]
            name_list(sorted@).contains(k) <==> name_list(names@).contains(k),
        name_list(sorted@) == in_order(name_list(names@).to_set()),
{
    let mut sorted: Vec<String> = Vec::new();
    let ghost all = name_list(names@);
    let mut i: usize = 0;
    while i < names.len()
        invariant
            i <= names@.len(),
            all == name_list(names@),
            all.no_duplicates(),
            sorted@.len() == i,
            strictly_sorted(name_list(sorted@)),
            forall|k: Seq<char>| #[trigger]
                name_list(sorted@).contains(k) <==> all.take(i as int).contains(k),
        decreases names@.len() - i,
    {
        let ghost before = name_list(sorted@);
        let ghost k = all[i as int];
        proof {
            if before.contains(k) {
                let seen = all.take(i as int);
                let a = choose|a: int| 0 <= a < seen.len() && seen[a] == k;
                assert(all[a] == all[i as int]);
            }
        }
        let mut p: usize = 0;
        while p < sorted.len() && comes_before(sorted[p].as_str(), names[i].as_str())
            invariant
                p <= sorted@.len(),
                i < names@.len(),
                before == name_list(sorted@),
                k == names@[i as int]@,
                forall|j: int| 0 <= j < p ==> lex_less(before[j], k),
            decreases sorted@.len() - p,
        {
            p += 1;
        }
        sorted.insert(p, names[i].clone());
        proof {
            let after = name_list(sorted@);
            assert(after =~= before.insert(p as int, k));
            assert forall|a: int, b: int| 0 <= a < b < after.len() implies lex_less(
                after[a],
                after[b],
            ) by {
                let a0 = if a < p { a } else { a - 1 };
                let b0 = if b < p { b } else { b - 1 };
                if a == p {
                    // k before a later element
                    assert(after[b] == before[b0]);
                    assert(before.contains(before[p as int]));
                    lemma_lex_total(before[p as int], k);
                    if b0 > p {
                        lemma_lex_transitive(k, before[p as int], before[b0]);
                    }
                } else if b == p {
                    assert(after[a] == before[a0]);
                } else {
                    assert(after[a] == before[a0]);
                    assert(after[b] == before[b0]);
                }
            }
            let seen = all.take(i as int);
            let more = all.take(i as int + 1);
            assert forall|x: Seq<char>| #[trigger] after.contains(x) <==> more.contains(x) by {
                if after.contains(x) {
                    let a = choose|a: int| 0 <= a < after.len() && after[a] == x;
                    if a == p {
                        assert(more[i as int] == x);
                    } else {
                        let a0 = if a < p { a } else { a - 1 };
                        assert(before[a0] == x);
                        assert(before.contains(x));
                        let c = choose|c: int| 0 <= c < seen.len() && seen[c] == x;
                        assert(more[c] == x);
                    }
                }
                if more.contains(x) {
                    let c = choose|c: int| 0 <= c < more.len() && more[c] == x;
                    if c == i {
                        assert(after[p as int] == x);
                    } else {
                        assert(seen[c] == x);
                        assert(before.contains(x));
                        let a0 = choose|a0: int| 0 <= a0 < before.len() && before[a0] == x;
                        let a = if a0 < p { a0 } else { a0 + 1 };
                        assert(after[a] == x);
                    }
                }
            }
        }
        i += 1;
    }
    assert(all.take(names@.len() as int) =~= all);
    proof {
        let found = name_list(sorted@);
        assert(is_order_of(found, all.to_set()));
        lemma_order_is_unique(found, in_order(all.to_set()), all.to_set());
    }
    sorted
}

} // verus!
