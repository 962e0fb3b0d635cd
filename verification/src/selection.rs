//! The set of paths marked for deletion.

use vstd::prelude::*;

verus! {

/// The contents of each path in `paths`, in the same order.
pub open spec fn path_views(paths: Seq<String>) -> Seq<Seq<char>> {
    paths.map_values(|p: String| p@)
}

/// The marks after `path` is toggled: it leaves the set if it was in it, and
/// enters it if it was not.
pub open spec fn toggled(marked: Set<Seq<char>>, path: Seq<char>) -> Set<Seq<char>> {
    if marked.contains(path) {
        marked.remove(path)
    } else {
        marked.insert(path)
    }
}

/// The marks after every path of `paths` was toggled, one after the other.
pub open spec fn toggled_all(marked: Set<Seq<char>>, paths: Seq<Seq<char>>) -> Set<Seq<char>>
    decreases paths.len(),
{
    if paths.len() == 0 {
        marked
    } else {
        toggled(toggled_all(marked, paths.drop_last()), paths.last())
    }
}

/// How often `path` occurs in `paths`.
pub open spec fn occurrences(paths: Seq<Seq<char>>, path: Seq<char>) -> nat
    decreases paths.len(),
{
    if paths.len() == 0 {
        0
    } else {
        occurrences(paths.drop_last(), path) + if paths.last() == path {
            1nat
        } else {
            0nat
        }
    }
}

/// After any sequence of toggles a path has changed sides exactly when it was
/// toggled an odd number of times. So, starting with nothing marked, a path
/// is marked if and only if it was toggled an odd number of times.
pub proof fn lemma_toggle_parity(marked: Set<Seq<char>>, paths: Seq<Seq<char>>, path: Seq<char>)
    ensures
        toggled_all(marked, paths).contains(path) <==> (marked.contains(path) != (occurrences(
            paths,
            path,
        ) % 2 == 1)),
        toggled_all(Set::empty(), paths).contains(path) <==> occurrences(paths, path) % 2 == 1,
    decreases paths.len(),
{
    if paths.len() > 0 {
        lemma_toggle_parity(marked, paths.drop_last(), path);
        lemma_toggle_parity(Set::empty(), paths.drop_last(), path);
    }
}

/// A set of marked paths. No path is held twice; the order in which paths are
/// kept is the order in which they were marked.
pub struct SelectionSet {
    paths: Vec<String>,
}

impl View for SelectionSet {
    type V = Set<Seq<char>>;

    closed spec fn view(&self) -> Set<Seq<char>> {
        path_views(self.paths@).to_set()
    }
}

impl SelectionSet {
    /// No path is held twice.
    pub closed spec fn wf(&self) -> bool {
        path_views(self.paths@).no_duplicates()
    }

    /// The empty selection.
    pub fn new() -> (s: Self)
        ensures
            s.wf(),
            s@ == Set::<Seq<char>>::empty(),
    {
        SelectionSet { paths: Vec::new() }
    }

    /// Every view of a selection is a finite set.
    pub proof fn lemma_finite(&self)
        ensures
            self@.finite(),
    {
    }

    /// How many paths are marked.
    pub fn len(&self) -> (n: usize)
        requires
            self.wf(),
        ensures
            n == self@.len(),
    {
        proof {
            path_views(self.paths@).unique_seq_to_set();
        }
        self.paths.len()
    }

    /// Whether nothing is marked.
    pub fn is_empty(&self) -> (empty: bool)
        requires
            self.wf(),
        ensures
            empty == (self@.len() == 0),
            empty == (self@ == Set::<Seq<char>>::empty()),
    {
        proof {
            path_views(self.paths@).unique_seq_to_set();
            if self@.len() == 0 {
                assert(self@ =~= Set::<Seq<char>>::empty());
            }
        }
        self.paths.len() == 0
    }

    /// Takes every path out of the selection and returns them, each once.
    pub fn drain(&mut self) -> (paths: Vec<String>)
        requires
            old(self).wf(),
        ensures
            final(self).wf(),
            final(self)@ == Set::<Seq<char>>::empty(),
            path_views(paths@).no_duplicates(),
            path_views(paths@).to_set() == old(self)@,
    {
        let mut paths: Vec<String> = Vec::new();
        std::mem::swap(&mut paths, &mut self.paths);
        paths
    }

    /// Whether `path` is marked.
    pub fn contains(&self, path: &String) -> (b: bool)
        ensures
            b == self@.contains(path@),
    {
        self.position(path).is_some()
    }

    fn position(&self, path: &String) -> (r: Option<usize>)
        ensures
            match r {
                Some(i) => i < self.paths@.len() && self.paths@[i as int]@ == path@,
                None => !self@.contains(path@),
            },
            r is Some <==> self@.contains(path@),
    {
        let mut i: usize = 0;
        while i < self.paths.len()
            invariant
                i <= self.paths@.len(),
                forall|j: int| 0 <= j < i ==> self.paths@[j]@ != path@,
            decreases self.paths@.len() - i,
        {
            if self.paths[i] == *path {
                assert(path_views(self.paths@)[i as int] == path@);
                return Some(i);
            }
            i += 1;
        }
        assert forall|j: int| 0 <= j < path_views(self.paths@).len() implies path_views(
            self.paths@,
        )[j] != path@ by {}
        None
    }

    /// Marks `path` if it is not marked, and unmarks it if it is. Returns
    /// whether `path` is marked afterwards.
    pub fn toggle(&mut self, path: String) -> (marked: bool)
        requires
            old(self).wf(),
        ensures
            final(self).wf(),
            marked == !old(self)@.contains(path@),
            final(self)@ == toggled(old(self)@, path@),
    {
        match self.position(&path) {
            Some(i) => {
                let ghost before = path_views(self.paths@);
                self.paths.remove(i);
                proof {
                    let after = path_views(self.paths@);
                    assert(after.no_duplicates()) by {
                        assert forall|a: int, b: int|
                            0 <= a < after.len() && 0 <= b < after.len() && a != b implies after[a]
                            != after[b] by {
                            let a0 = if a < i { a } else { a + 1 };
                            let b0 = if b < i { b } else { b + 1 };
                            assert(after[a] == before[a0]);
                            assert(after[b] == before[b0]);
                        }
                    }
                    assert(after.to_set() =~= before.to_set().remove(path@)) by {
                        assert forall|x: Seq<char>| after.to_set().contains(x) implies before.to_set().remove(
                            path@,
                        ).contains(x) by {
                            let a = choose|a: int| 0 <= a < after.len() && after[a] == x;
                            let a0 = if a < i { a } else { a + 1 };
                            assert(before[a0] != before[i as int]);
                        }
                        assert forall|x: Seq<char>| before.to_set().remove(path@).contains(
                            x,
                        ) implies after.to_set().contains(x) by {
                            let a0 = choose|a0: int| 0 <= a0 < before.len() && before[a0] == x;
                            let a = if a0 < i { a0 } else { a0 - 1 };
                            assert(after[a] == x);
                        }
                    }
                }
                false
            },
            None => {
                let ghost before = path_views(self.paths@);
                self.paths.push(path);
                proof {
                    let after = path_views(self.paths@);
                    assert(after.no_duplicates()) by {
                        assert forall|a: int, b: int|
                            0 <= a < after.len() && 0 <= b < after.len() && a != b implies after[a]
                            != after[b] by {
                            if a < before.len() {
                                assert(before.to_set().contains(before[a]));
                            }
                            if b < before.len() {
                                assert(before.to_set().contains(before[b]));
                            }
                        }
                    }
                    assert(after.to_set() =~= before.to_set().insert(path@)) by {
                        assert forall|x: Seq<char>| after.to_set().contains(x) implies before.to_set().insert(
                            path@,
                        ).contains(x) by {
                            let a = choose|a: int| 0 <= a < after.len() && after[a] == x;
                            if a < before.len() {
                                assert(before[a] == x);
                            }
                        }
                        assert forall|x: Seq<char>| before.to_set().insert(path@).contains(
                            x,
                        ) implies after.to_set().contains(x) by {
                            if x == path@ {
                                assert(after[before.len() as int] == x);
                            } else {
                                let a = choose|a: int| 0 <= a < before.len() && before[a] == x;
                                assert(after[a] == x);
                            }
                        }
                    }
                }
                true
            },
        }
    }
}

} // verus!
