//! The ordered collection of staged paths.
//!
//! `PathStagingSet` is the single source of truth for what is currently
//! staged: insertion order is preserved, duplicates are allowed, and the
//! collection only ever grows during a process run — there is no removal
//! and no reordering.

use vstd::prelude::*;

verus! {

/// The mutable ordered collection of currently staged paths.
pub struct PathStagingSet {
    paths: Vec<String>,
}

impl View for PathStagingSet {
    type V = Seq<Seq<char>>;

    closed spec fn view(&self) -> Seq<Seq<char>> {
        self.paths.deep_view()
    }
}

impl PathStagingSet {
    /// An empty staging set; nothing is staged until a producer delivers
    /// paths.
    pub fn new() -> (s: Self)
        ensures
            s@ == Seq::<Seq<char>>::empty(),
    {
        PathStagingSet { paths: Vec::new() }
    }

    /// The number of currently staged paths.
    pub fn len(&self) -> (n: usize)
        ensures
            n == self@.len(),
    {
        self.paths.len()
    }

    /// Stage the initial, argument-supplied paths. Called once, before any
    /// other producer runs.
    pub fn seed(&mut self, initial: Vec<String>)
        requires
            old(self)@.len() == 0,
        ensures
            final(self)@ == initial.deep_view(),
    {
        proof {
            assert(old(self)@ + initial.deep_view() =~= initial.deep_view());
        }
        self.append_many(initial);
    }

    /// Stage one more already-canonicalized path after everything staged so
    /// far; returns the new snapshot length. No earlier element is touched.
    pub fn append_one(&mut self, path: String) -> (n: usize)
        requires
            old(self)@.len() < usize::MAX,
        ensures
            final(self)@ == old(self)@.push(path@),
            n == final(self)@.len(),
    {
        self.paths.push(path);
        proof {
            assert(self@ =~= old(self)@.push(self.paths@.last()@));
        }
        self.paths.len()
    }

    /// Stage a batch of paths, in order, after everything staged so far. No
    /// earlier element is touched.
    pub fn append_many(&mut self, batch: Vec<String>)
        ensures
            final(self)@ == old(self)@ + batch.deep_view(),
    {
        let ghost prior: Seq<Seq<char>> = self@;
        let ghost incoming: Seq<Seq<char>> = batch.deep_view();
        let n = batch.len();
        for i in 0..n
            invariant
                n == batch@.len(),
                incoming == batch.deep_view(),
                self@ == prior + incoming.take(i as int),
        {
            let ghost before: Seq<Seq<char>> = self@;
            let path = vec_string_get(&batch, i);
            self.paths.push(path);
            proof {
                assert(self@ =~= before.push(incoming[i as int]));
                assert(before.push(incoming[i as int]) =~= prior + incoming.take(
                    i as int + 1,
                ));
            }
        }
        proof {
            assert(prior + incoming.take(n as int) =~= prior + incoming);
        }
    }

    /// A read-only copy of the current contents, in staging order. Never
    /// mutates the set.
    pub fn snapshot(&self) -> (s: Vec<String>)
        ensures
            s.deep_view() == self@,
    {
        clone_paths(&self.paths)
    }

    /// The path staged at position `i`.
    pub fn get(&self, i: usize) -> (p: &String)
        requires
            i < self@.len(),
        ensures
            p@ == self@[i as int],
    {
        &self.paths[i]
    }
}

/// Clone a vector of paths element by element, so that the copy is known to
/// carry the same character sequences.
pub fn clone_paths(paths: &Vec<String>) -> (s: Vec<String>)
    ensures
        s.deep_view() == paths.deep_view(),
        s@.len() == paths@.len(),
{
    let mut out: Vec<String> = Vec::new();
    let n = paths.len();
    for i in 0..n
        invariant
            n == paths@.len(),
            out.deep_view() == paths.deep_view().take(i as int),
    {
        let ghost before: Seq<Seq<char>> = out.deep_view();
        out.push(paths[i].clone());
        proof {
            assert(out.deep_view() =~= before.push(paths@[i as int]@));
            assert(before.push(paths@[i as int]@) =~= paths.deep_view().take(i as int + 1));
        }
    }
    proof {
        assert(paths.deep_view().take(n as int) =~= paths.deep_view());
    }
    out
}

/// Read the path at position `i` out of a batch as an owned value.
pub fn vec_string_get(batch: &Vec<String>, i: usize) -> (p: String)
    requires
        i < batch@.len(),
    ensures
        p@ == batch.deep_view()[i as int],
{
    batch[i].clone()
}

} // verus!
