//! Variable bindings.

use super::MainBackend;
use vstd::prelude::*;

verus! {

/// The values that names are bound to during an evaluation.
///
/// A later binding of a name hides the earlier ones.
pub struct Env<T> {
    entries: Vec<(String, T)>,
}

/// The map that the first `n` entries spell, later entries over earlier ones.
pub open spec fn bound<T: MainBackend>(entries: Seq<(String, T)>, n: nat) -> Map<
    Seq<char>,
    T::Model,
>
    decreases n,
{
    if n == 0 || n > entries.len() {
        Map::empty()
    } else {
        bound(entries, (n - 1) as nat).insert(entries[n - 1].0@, entries[n - 1].1.model())
    }
}

/// `bound` looks only at the first `n` entries.
pub proof fn bound_prefix<T: MainBackend>(xs: Seq<(String, T)>, ys: Seq<(String, T)>, n: nat)
    requires
        n <= xs.len(),
        n <= ys.len(),
        forall|i: int| 0 <= i < n ==> xs[i].0@ == ys[i].0@ && xs[i].1.model() == ys[i].1.model(),
    ensures
        bound(xs, n) == bound(ys, n),
    decreases n,
{
    if n > 0 {
        bound_prefix(xs, ys, (n - 1) as nat);
    }
}

impl<T: MainBackend> View for Env<T> {
    type V = Map<Seq<char>, T::Model>;

    closed spec fn view(&self) -> Map<Seq<char>, T::Model> {
        bound(self.entries@, self.entries@.len())
    }
}

impl<T: MainBackend> Env<T> {
    /// The environment that binds nothing.
    pub fn new() -> (env: Self)
        ensures
            env@ == Map::<Seq<char>, T::Model>::empty(),
    {
        Env { entries: Vec::new() }
    }

    /// Binds `name` to `value`.
    pub fn insert(&mut self, name: String, value: T)
        ensures
            final(self)@ == old(self)@.insert(name@, value.model()),
    {
        let ghost before = self.entries@;
        self.entries.push((name, value));
        proof {
            bound_prefix(before, self.entries@, before.len());
        }
    }

    /// The value that `name` is bound to, if it is bound.
    pub fn get(&self, name: &String) -> (r: Option<&T>)
        ensures
            match r {
                Some(value) => self@.contains_key(name@) && self@[name@] == value.model(),
                None => !self@.contains_key(name@),
            },
    {
        let mut i: usize = self.entries.len();
        while i > 0
            invariant
                i <= self.entries@.len(),
                self@.contains_key(name@) == bound(self.entries@, i as nat).contains_key(name@),
                self@.contains_key(name@) ==> self@[name@] == bound(self.entries@, i as nat)[name@],
            decreases i,
        {
            i = i - 1;
            if self.entries[i].0 == *name {
                return Some(&self.entries[i].1);
            }
        }
        None
    }

    /// An environment with the same bindings.
    pub fn duplicate(&self) -> (env: Self)
        ensures
            env@ == self@,
    {
        let mut entries: Vec<(String, T)> = Vec::new();
        let mut i: usize = 0;
        while i < self.entries.len()
            invariant
                i <= self.entries@.len(),
                entries@.len() == i,
                bound(entries@, i as nat) == bound(self.entries@, i as nat),
            decreases self.entries@.len() - i,
        {
            let ghost before = entries@;
            entries.push((self.entries[i].0.clone(), self.entries[i].1.duplicate()));
            proof {
                bound_prefix(before, entries@, i as nat);
            }
            i = i + 1;
        }
        Env { entries }
    }
}

} // verus!
