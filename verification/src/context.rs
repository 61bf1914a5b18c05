//! The names that are being evaluated, outermost first.
//!
//! A gatekeeper may require another one, which may require a third. The
//! context holds the names on that path. A name that is required while it
//! is on the path closes a circle; since no name is on the path twice, the
//! path is never longer than the number of gatekeepers there are.

use vstd::prelude::*;
use crate::error::{Error, ErrorView};
use crate::text::{name_list, str_eq};

verus! {

#[derive(Debug, Clone)]
pub struct EvaluationContext {
    in_progress: Vec<String>,
}

impl View for EvaluationContext {
    type V = Seq<Seq<char>>;

    /// The names in progress, outermost first.
    closed spec fn view(&self) -> Seq<Seq<char>> {
        name_list(self.in_progress@)
    }
}

impl EvaluationContext {
    /// No name is in progress twice.
    pub open spec fn wf(&self) -> bool {
        self@.no_duplicates()
    }

    /// The context of an evaluation that has not begun.
    pub fn new() -> (context: EvaluationContext)
        ensures
            context.wf(),
            context@ == Seq::<Seq<char>>::empty(),
    {
        let context = EvaluationContext { in_progress: Vec::new() };
        assert(context@ =~= Seq::<Seq<char>>::empty());
        context
    }

    /// How many names are in progress.
    pub fn depth(&self) -> (n: usize)
        ensures
            n == self@.len(),
    {
        self.in_progress.len()
    }

    /// Whether `name` is in progress.
    pub fn contains(&self, name: &str) -> (found: bool)
        ensures
            found == self@.contains(name@),
    {
        let mut i: usize = 0;
        while i < self.in_progress.len()
            invariant
                i <= self.in_progress@.len(),
                self@.len() == self.in_progress@.len(),
                forall|j: int| 0 <= j < i ==> self@[j] != name@,
            decreases self.in_progress@.len() - i,
        {
            if str_eq(self.in_progress[i].as_str(), name) {
                assert(self@[i as int] == name@);
                return true;
            }
            i += 1;
        }
        false
    }

    /// The names in progress, outermost first.
    pub fn chain(&self) -> (names: Vec<String>)
        ensures
            name_list(names@) == self@,
    {
        let names = self.in_progress.clone();
        assert(name_list(names@) =~= self@) by {
            assert(names@.len() == self.in_progress@.len());
            assert forall|i: int| 0 <= i < names@.len() implies #[trigger] names@[i]@
                == self.in_progress@[i]@ by {
                assert(cloned(self.in_progress@[i], names@[i]));
            }
        }
        names
    }

    /// A context of its own with the same names in progress.
    pub fn extended(&self) -> (copy: EvaluationContext)
        ensures
            copy@ == self@,
    {
        EvaluationContext { in_progress: self.chain() }
    }

    /// Enters `name`. Where `name` is already in progress, nothing changes
    /// and the error names it together with the path that led to it.
    pub fn visit(&mut self, name: &str) -> (entered: Result<(), Error>)
        requires
            old(self).wf(),
        ensures
            final(self).wf(),
            match entered {
                Ok(_) => !old(self)@.contains(name@) && final(self)@ == old(self)@.push(name@),
                Err(e) => old(self)@.contains(name@) && final(self)@ == old(self)@ && e@ == (
                ErrorView::CircularDependency { name: name@, chain: old(self)@ }),
            },
    {
        if self.contains(name) {
            return Err(Error::CircularDependency { name: name.to_string(), chain: self.chain() });
        }
        let ghost before = self@;
        self.in_progress.push(name.to_string());
        proof {
            assert(self@ =~= before.push(name@));
            assert forall|a: int, b: int|
                0 <= a < self@.len() && 0 <= b < self@.len() && a != b implies self@[a]
                != self@[b] by {
                if a < before.len() {
                    assert(before.contains(before[a]));
                }
                if b < before.len() {
                    assert(before.contains(before[b]));
                }
            }
        }
        Ok(())
    }

    /// Leaves `name`: it is no longer in progress afterwards, and the other
    /// names keep their places.
    pub fn leave(&mut self, name: &str)
        requires
            old(self).wf(),
        ensures
            final(self).wf(),
            !final(self)@.contains(name@),
            final(self)@ == if old(self)@.contains(name@) {
                old(self)@.remove(old(self)@.index_of(name@))
            } else {
                old(self)@
            },
    {
        let ghost before = self@;
        let mut i: usize = 0;
        while i < self.in_progress.len()
            invariant
                i <= self.in_progress@.len(),
                self@ == before,
                before == old(self)@,
                before.no_duplicates(),
                self@.len() == self.in_progress@.len(),
                forall|j: int| 0 <= j < i ==> self@[j] != name@,
            decreases self.in_progress@.len() - i,
        {
            if str_eq(self.in_progress[i].as_str(), name) {
                assert(before[i as int] == name@);
                assert(before.contains(name@));
                let ghost at = before.index_of(name@);
                assert(before[at] == name@ && 0 <= at < before.len());
                assert(at == i);
                self.in_progress.remove(i);
                proof {
                    assert(self@ =~= before.remove(i as int));
                    assert forall|a: int, b: int|
                        0 <= a < self@.len() && 0 <= b < self@.len() && a != b implies self@[a]
                        != self@[b] by {
                        let a0 = if a < i { a } else { a + 1 };
                        let b0 = if b < i { b } else { b + 1 };
                        assert(self@[a] == before[a0]);
                        assert(self@[b] == before[b0]);
                    }
                    if self@.contains(name@) {
                        let a = choose|a: int| 0 <= a < self@.len() && self@[a] == name@;
                        let a0 = if a < i { a } else { a + 1 };
                        assert(before[a0] == name@);
                    }
                }
                return ;
            }
            i += 1;
        }
    }
}

/// Leaving the name that was entered last gives back the path as it was
/// before that name was entered.
pub proof fn lemma_leave_undoes_visit(path: Seq<Seq<char>>, name: Seq<char>)
    requires
        !path.contains(name),
    ensures
        path.push(name).contains(name),
        path.push(name).remove(path.push(name).index_of(name)) == path,
{
    let longer = path.push(name);
    assert(longer[path.len() as int] == name);
    let at = longer.index_of(name);
    assert(0 <= at < longer.len() && longer[at] == name);
    if at < path.len() {
        assert(path[at] == name);
    }
    assert(longer.remove(at) =~= path);
}

/// A path without repetition through a finite set of names is no longer
/// than the set is large: the nesting of evaluations is bounded.
pub proof fn lemma_path_is_bounded(path: Seq<Seq<char>>, names: Set<Seq<char>>)
    requires
        path.no_duplicates(),
        names.finite(),
        forall|i: int| 0 <= i < path.len() ==> names.contains(#[trigger] path[i]),
    ensures
        path.len() <= names.len(),
{
    path.unique_seq_to_set();
    vstd::seq_lib::seq_to_set_is_finite(path);
    assert(path.to_set().subset_of(names)) by {
        assert forall|k: Seq<char>| path.to_set().contains(k) implies names.contains(k) by {
            let i = choose|i: int| 0 <= i < path.len() && path[i] == k;
            assert(names.contains(path[i]));
        }
    }
    vstd::set_lib::lemma_len_subset(path.to_set(), names);
}

} // verus!
