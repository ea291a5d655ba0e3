//! Human-in-the-loop approval for dangerous actions.
//!
//! The registry of in-flight requests. What waits for an answer is up to the
//! caller: it is handed back when the answer comes.

use vstd::prelude::*;

use crate::domain::ids::{fresh_text, hyphenated, is_v4};
use crate::text::same;

verus! {

/// Registry of in-flight approval requests, resolved out-of-band by the user.
pub struct PendingApprovals<W> {
    entries: Vec<(String, W)>,
}

/// The ids of the entries, in order.
spec fn ids<W>(entries: Seq<(String, W)>) -> Seq<Seq<char>> {
    entries.map_values(|e: (String, W)| e.0@)
}

/// Position of `id` among the entries.
spec fn index_of<W>(entries: Seq<(String, W)>, id: Seq<char>) -> int {
    choose|i: int| 0 <= i < entries.len() && #[trigger] ids(entries)[i] == id
}

/// The entries as a map.
spec fn as_map<W>(entries: Seq<(String, W)>) -> Map<Seq<char>, W> {
    Map::new(|id: Seq<char>| ids(entries).contains(id), |id: Seq<char>| entries[index_of(entries, id)].1)
}

impl<W> View for PendingApprovals<W> {
    type V = Map<Seq<char>, W>;

    closed spec fn view(&self) -> Map<Seq<char>, W> {
        as_map(self.entries@)
    }
}

/// Where the ids are distinct, an entry is found under its id.
proof fn lemma_at<W>(entries: Seq<(String, W)>, i: int)
    requires
        ids(entries).no_duplicates(),
        0 <= i < entries.len(),
    ensures
        as_map(entries).dom().contains(entries[i].0@),
        as_map(entries)[entries[i].0@] == entries[i].1,
        index_of(entries, entries[i].0@) == i,
{
    assert(ids(entries)[i] == entries[i].0@);
    let k = index_of(entries, entries[i].0@);
    assert(0 <= k < entries.len() && ids(entries)[k] == entries[i].0@);
}

/// What is in the map is the entry of some position.
proof fn lemma_found<W>(entries: Seq<(String, W)>, id: Seq<char>) -> (i: int)
    requires
        ids(entries).contains(id),
    ensures
        0 <= i < entries.len(),
        entries[i].0@ == id,
{
    let i = choose|i: int| 0 <= i < ids(entries).len() && ids(entries)[i] == id;
    i
}

impl<W> PendingApprovals<W> {
    #[verifier::type_invariant]
    spec fn distinct(self) -> bool {
        ids(self.entries@).no_duplicates()
    }

    pub fn new() -> (r: Self)
        ensures
            r@ == Map::<Seq<char>, W>::empty(),
    {
        let r = PendingApprovals { entries: Vec::new() };
        assert(r@ =~= Map::<Seq<char>, W>::empty());
        r
    }

    /// Position of `id`, if it is waiting.
    fn position(&self, id: &str) -> (r: Option<usize>)
        ensures
            match r {
                Some(i) => i < self.entries@.len() && self.entries@[i as int].0@ == id@,
                None => !ids(self.entries@).contains(id@),
            },
    {
        let mut i: usize = 0;
        while i < self.entries.len()
            invariant
                i <= self.entries.len(),
                forall|j: int| 0 <= j < i ==> #[trigger] ids(self.entries@)[j] != id@,
            decreases self.entries.len() - i,
        {
            if same(self.entries[i].0.as_str(), id) {
                return Some(i);
            }
            i += 1;
        }
        None
    }

    /// Register `id` with what waits for its answer. An earlier request under the
    /// same id is given up.
    pub fn register(&mut self, id: String, waiter: W)
        ensures
            final(self)@ == old(self)@.insert(id@, waiter),
    {
        proof {
            use_type_invariant(&*self);
        }
        let _ = self.resolve(id.as_str());
        proof {
            use_type_invariant(&*self);
        }
        let ghost before = self.entries@;
        let mut entries: Vec<(String, W)> = Vec::new();
        std::mem::swap(&mut entries, &mut self.entries);
        entries.push((id, waiter));
        proof {
            let after = entries@;
            assert(!as_map(before).dom().contains(id@));
            assert(!ids(before).contains(id@));
            assert(ids(after) =~= ids(before).push(id@));
            assert(ids(after).no_duplicates()) by {
                assert forall|i: int, j: int|
                    0 <= i < ids(after).len() && 0 <= j < ids(after).len() && i != j implies ids(
                    after,
                )[i] != ids(after)[j] by {
                    if i < before.len() {
                        assert(ids(before)[i] == ids(after)[i]);
                        assert(ids(before).contains(ids(before)[i]));
                    }
                    if j < before.len() {
                        assert(ids(before)[j] == ids(after)[j]);
                        assert(ids(before).contains(ids(before)[j]));
                    }
                }
            }
            lemma_at(after, before.len() as int);
            assert forall|k: Seq<char>| as_map(before).insert(id@, waiter).dom().contains(k)
                == #[trigger] as_map(after).dom().contains(k) by {
                if ids(before).contains(k) {
                    let i = lemma_found(before, k);
                    assert(ids(after)[i] == k);
                }
                if ids(after).contains(k) && k != id@ {
                    let i = lemma_found(after, k);
                    assert(ids(before)[i] == k);
                }
            }
            assert forall|k: Seq<char>| #[trigger] as_map(after).dom().contains(k) implies as_map(
                after,
            )[k] == as_map(before).insert(id@, waiter)[k] by {
                if k != id@ {
                    let i = lemma_found(after, k);
                    assert(ids(before)[i] == k);
                    lemma_at(before, i);
                    lemma_at(after, i);
                }
            }
            assert(as_map(after) =~= as_map(before).insert(id@, waiter));
            assert(as_map(before).insert(id@, waiter) =~= old(self)@.insert(id@, waiter));
        }
        self.entries = entries;
    }

    /// Resolve a pending request: hands back what waited for `id`, if anything did.
    pub fn resolve(&mut self, id: &str) -> (r: Option<W>)
        ensures
            match r {
                Some(waiter) => old(self)@.dom().contains(id@) && waiter == old(self)@[id@],
                None => !old(self)@.dom().contains(id@),
            },
            final(self)@ == old(self)@.remove(id@),
    {
        proof {
            use_type_invariant(&*self);
        }
        let ghost before = self.entries@;
        match self.position(id) {
            Some(at) => {
                let mut entries: Vec<(String, W)> = Vec::new();
                std::mem::swap(&mut entries, &mut self.entries);
                let (_, waiter) = entries.remove(at);
                proof {
                    let after = entries@;
                    lemma_at(before, at as int);
                    assert forall|i: int| 0 <= i < after.len() implies #[trigger] after[i]
                        == before[if i < at { i } else { i + 1 }] by {}
                    assert forall|i: int| 0 <= i < after.len() implies #[trigger] ids(after)[i]
                        == ids(before)[if i < at { i } else { i + 1 }] by {}
                    assert(ids(after).no_duplicates());
                    assert forall|k: Seq<char>| as_map(before).remove(id@).dom().contains(k)
                        == #[trigger] as_map(after).dom().contains(k) by {
                        if ids(before).contains(k) && k != id@ {
                            let i = lemma_found(before, k);
                            let j = if i < at { i } else { i - 1 };
                            assert(ids(after)[j] == k);
                        }
                        if ids(after).contains(k) {
                            let j = lemma_found(after, k);
                            let i = if j < at { j } else { j + 1 };
                            assert(ids(before)[i] == k);
                            assert(ids(before)[at as int] == id@);
                        }
                    }
                    assert forall|k: Seq<char>| #[trigger] as_map(after).dom().contains(k) implies
                        as_map(after)[k] == as_map(before).remove(id@)[k] by {
                        let j = lemma_found(after, k);
                        let i = if j < at { j } else { j + 1 };
                        lemma_at(after, j);
                        lemma_at(before, i);
                    }
                    assert(as_map(after) =~= as_map(before).remove(id@));
                }
                self.entries = entries;
                Some(waiter)
            },
            None => {
                assert(self@ =~= old(self)@.remove(id@));
                None
            },
        }
    }

    /// Number of requests in flight.
    pub fn pending_count(&self) -> (r: usize)
        ensures
            r == self@.dom().len(),
            self@.dom().finite(),
    {
        proof {
            use_type_invariant(self);
            let keys = ids(self.entries@);
            keys.unique_seq_to_set();
            assert(self@.dom() =~= keys.to_set());
        }
        self.entries.len()
    }

    /// Conclude a request with the user's answer, or, where none came in time, by
    /// refusing it and giving it up.
    pub fn conclude(&mut self, id: &str, answer: Option<bool>) -> (r: bool)
        ensures
            match answer {
                Some(approved) => r == approved && final(self)@ == old(self)@,
                None => !r && final(self)@ == old(self)@.remove(id@),
            },
    {
        match answer {
            Some(approved) => approved,
            None => {
                let _ = self.resolve(id);
                false
            },
        }
    }
}

/// A fresh id for an approval request: the text of a random UUID.
pub fn request_id() -> (r: String)
    ensures
        exists|v: u128| is_v4(v) && r@ == #[trigger] hyphenated(v),
{
    fresh_text()
}

/// Gate that always approves, for use where no user can be asked.
pub struct AlwaysApprove;

impl AlwaysApprove {
    /// The answer to a request to carry out `command`.
    pub fn request(&self, command: &str) -> (r: bool)
        ensures
            r,
    {
        true
    }
}

/// Gate that always denies.
pub struct AlwaysDeny;

impl AlwaysDeny {
    /// The answer to a request to carry out `command`.
    pub fn request(&self, command: &str) -> (r: bool)
        ensures
            !r,
    {
        false
    }
}

/// A registered request is found by its answer exactly once; other requests are
/// not touched.
pub proof fn law_answered_once<W>(
    pending: Map<Seq<char>, W>,
    id: Seq<char>,
    waiter: W,
    other: Seq<char>,
)
    requires
        other != id,
    ensures
        ({
            let registered = pending.insert(id, waiter);
            let answered = registered.remove(id);
            &&& registered.dom().contains(id) && registered[id] == waiter
            &&& !answered.dom().contains(id)
            &&& answered.dom().contains(other) == pending.dom().contains(other)
            &&& pending.dom().contains(other) ==> answered[other] == pending[other]
        }),
{
}

} // verus!
