//! How often each choice was launched, to show the frequent ones first.

use vstd::prelude::*;
use crate::assoc::{assoc_find, assoc_get, assoc_insert, lemma_assoc_find, lemma_assoc_insert, unique_keys};
use crate::text::str_eq;

verus! {

/// A usage key: the name of the plugin and the name of the choice.
pub type UsageKey = (Seq<char>, Seq<char>);

/// The count a launch of `k` gives: one more than before, or one.
pub open spec fn next_count(s: Seq<(UsageKey, usize)>, k: UsageKey) -> usize {
    match assoc_get(s, k) {
        Some(c) => (c + 1) as usize,
        None => 1usize,
    }
}

/// Counting a launch of `k` (as `add_use` does) raises its count by one,
/// starting from one, and leaves every other count as it was.
pub proof fn lemma_count_after_use(s: Seq<(UsageKey, usize)>, k: UsageKey, other: UsageKey)
    requires
        unique_keys(s),
    ensures
        assoc_get(assoc_insert(s, k, next_count(s, k)), k) == Some(next_count(s, k)),
        other != k ==> assoc_get(assoc_insert(s, k, next_count(s, k)), other) == assoc_get(s, other),
        unique_keys(assoc_insert(s, k, next_count(s, k))),
{
    lemma_assoc_insert(s, k, next_count(s, k));
}

/// Launch counts by plugin name and choice name.
pub struct Usage {
    counts: Vec<((String, String), usize)>,
}

/// The counts seen as characters.
pub open spec fn counts_view(v: Seq<((String, String), usize)>) -> Seq<(UsageKey, usize)> {
    v.map_values(|p: ((String, String), usize)| ((p.0.0@, p.0.1@), p.1))
}

impl View for Usage {
    type V = Seq<(UsageKey, usize)>;

    /// The counts, as an association list with unique keys.
    closed spec fn view(&self) -> Seq<(UsageKey, usize)> {
        counts_view(self.counts@)
    }
}

impl Usage {
    #[verifier::type_invariant]
    spec fn keys_unique(self) -> bool {
        unique_keys(counts_view(self.counts@))
    }

    /// No launch counted yet.
    pub fn new() -> (r: Self)
        ensures
            r@ == Seq::<(UsageKey, usize)>::empty(),
    {
        let r = Usage { counts: Vec::new() };
        assert(counts_view(r.counts@) =~= Seq::<(UsageKey, usize)>::empty());
        r
    }

    fn find(&self, plugin: &str, name: &str) -> (r: Option<usize>)
        ensures
            match r {
                Some(i) => i == assoc_find(self@, (plugin@, name@)) && i < self.counts@.len(),
                None => assoc_find(self@, (plugin@, name@)) < 0,
            },
    {
        proof {
            use_type_invariant(self);
            lemma_assoc_find(self@, (plugin@, name@));
        }
        let mut i: usize = 0;
        while i < self.counts.len()
            invariant
                0 <= i <= self.counts.len(),
                self@ == counts_view(self.counts@),
                unique_keys(self@),
                forall|j: int| 0 <= j < i ==> self@[j].0 != (plugin@, name@),
            decreases self.counts.len() - i,
        {
            let ((p, n), _) = &self.counts[i];
            if str_eq(p.as_str(), plugin) && str_eq(n.as_str(), name) {
                proof {
                    lemma_assoc_find(self@, (plugin@, name@));
                    assert(self@[i as int].0 == (plugin@, name@));
                }
                return Some(i);
            }
            i += 1;
        }
        proof {
            lemma_assoc_find(self@, (plugin@, name@));
        }
        None
    }

    /// How many times the choice `name` of the plugin `plugin` was launched,
    /// if it ever was.
    pub fn get(&self, plugin: &str, name: &str) -> (r: Option<usize>)
        ensures
            r == assoc_get(self@, (plugin@, name@)),
    {
        match self.find(plugin, name) {
            Some(i) => Some(self.counts[i].1),
            None => None,
        }
    }

    /// Counts one more launch of the choice `name` of the plugin `plugin`;
    /// its count starts at one.
    pub fn add_use(&mut self, plugin: &str, name: &str)
        requires
            assoc_get(old(self)@, (plugin@, name@)) matches Some(c) ==> c < usize::MAX,
        ensures
            final(self)@ == assoc_insert(
                old(self)@,
                (plugin@, name@),
                match assoc_get(old(self)@, (plugin@, name@)) {
                    Some(c) => (c + 1) as usize,
                    None => 1usize,
                },
            ),
            unique_keys(final(self)@),
    {
        let count = match self.get(plugin, name) {
            Some(c) => c + 1,
            None => 1,
        };
        self.set_count(plugin, name, count);
    }

    /// Sets the count of the choice `name` of the plugin `plugin` (as read
    /// back from disk).
    pub fn set_count(&mut self, plugin: &str, name: &str, count: usize)
        ensures
            final(self)@ == assoc_insert(old(self)@, (plugin@, name@), count),
            unique_keys(final(self)@),
    {
        proof {
            use_type_invariant(&*self);
        }
        let ghost key = (plugin@, name@);
        match self.find(plugin, name) {
            Some(i) => {
                let mut counts: Vec<((String, String), usize)> = Vec::new();
                std::mem::swap(&mut counts, &mut self.counts);
                let ghost before = counts@;
                let (k, _) = counts.remove(i);
                counts.insert(i, (k, count));
                proof {
                    lemma_assoc_find(counts_view(before), key);
                    assert(counts_view(before)[i as int].0 == key);
                    assert(counts@ =~= before.update(i as int, (k, count)));
                    assert(counts_view(counts@) =~= counts_view(before).update(i as int, (key, count)));
                    lemma_assoc_insert(counts_view(before), key, count);
                }
                self.counts = counts;
            },
            None => {
                let ghost before = self.counts@;
                let mut counts: Vec<((String, String), usize)> = Vec::new();
                std::mem::swap(&mut counts, &mut self.counts);
                counts.push(((plugin.to_owned(), name.to_owned()), count));
                proof {
                    assert(counts_view(counts@) =~= counts_view(before).push((key, count)));
                    lemma_assoc_insert(counts_view(before), key, count);
                }
                self.counts = counts;
            },
        }
    }

    /// Every count, in the order the keys were first counted.
    pub fn entries(&self) -> (r: Vec<((String, String), usize)>)
        ensures
            counts_view(r@) == self@,
    {
        let mut r: Vec<((String, String), usize)> = Vec::new();
        let mut i: usize = 0;
        while i < self.counts.len()
            invariant
                0 <= i <= self.counts.len(),
                counts_view(r@) == counts_view(self.counts@.take(i as int)),
            decreases self.counts.len() - i,
        {
            let ((p, n), c) = &self.counts[i];
            let ghost before = r@;
            r.push(((p.clone(), n.clone()), *c));
            proof {
                assert(counts_view(r@) =~= counts_view(before).push(((p@, n@), *c)));
                assert(self.counts@.take(i + 1) =~= self.counts@.take(i as int).push(self.counts@[i as int]));
                assert(counts_view(self.counts@.take(i + 1)) =~= counts_view(self.counts@.take(i as int)).push(
                    ((p@, n@), *c),
                ));
            }
            i += 1;
        }
        assert(self.counts@.take(self.counts.len() as int) =~= self.counts@);
        r
    }
}

} // verus!
