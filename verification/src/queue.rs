//! Max-priority queue with first-in-first-out order among equal scores.
//!
//! Replaces the binary-heap and tier-map queues of the delegation pipeline
//! with one verified structure: strictly higher scores are always served
//! first, and within one score tier requests leave in insertion order.

use vstd::prelude::*;

verus! {

/// One queued element: a priority score and the carried payload.
pub struct QueueItem<T> {
    pub score: u64,
    pub payload: T,
}

/// `i` is the index that a pop of `s` removes: the first index whose score
/// is maximal.
pub open spec fn is_pop_index<T>(s: Seq<QueueItem<T>>, i: int) -> bool {
    &&& 0 <= i < s.len()
    &&& forall|j: int| 0 <= j < s.len() ==> s[j].score <= s[i].score
    &&& forall|j: int| 0 <= j < i ==> s[j].score < s[i].score
}

/// The index that a pop of `s` removes.
pub open spec fn pop_index<T>(s: Seq<QueueItem<T>>) -> int {
    choose|i: int| is_pop_index(s, i)
}

/// A non-empty queue always has a pop index.
pub proof fn lemma_pop_index_exists<T>(s: Seq<QueueItem<T>>)
    requires
        s.len() > 0,
    ensures
        is_pop_index(s, pop_index(s)),
    decreases s.len(),
{
    if s.len() == 1 {
        assert(is_pop_index(s, 0));
    } else {
        let front = s.drop_last();
        lemma_pop_index_exists(front);
        let i = pop_index(front);
        let last = s.len() - 1;
        if s[last].score > s[i].score {
            assert(forall|j: int| 0 <= j < last ==> s[j] == front[j]);
            assert(is_pop_index(s, last));
        } else {
            assert(forall|j: int| 0 <= j < last ==> s[j] == front[j]);
            assert(is_pop_index(s, i));
        }
    }
}

/// The pop index is unique.
pub proof fn lemma_pop_index_unique<T>(s: Seq<QueueItem<T>>, a: int, b: int)
    requires
        is_pop_index(s, a),
        is_pop_index(s, b),
    ensures
        a == b,
{
    if a < b {
        assert(s[a].score < s[b].score);
        assert(s[b].score <= s[a].score);
    }
    if b < a {
        assert(s[b].score < s[a].score);
        assert(s[a].score <= s[b].score);
    }
}

/// Priority queue served max-score-first, first-in-first-out within a score.
pub struct PriorityQueue<T> {
    items: Vec<QueueItem<T>>,
}

impl<T> PriorityQueue<T> {
    /// The queued items in insertion order.
    pub closed spec fn view(self) -> Seq<QueueItem<T>> {
        self.items@
    }

    /// An empty queue.
    pub fn new() -> (r: PriorityQueue<T>)
        ensures
            r@ =~= Seq::<QueueItem<T>>::empty(),
    {
        PriorityQueue { items: Vec::new() }
    }

    /// Number of queued items.
    pub fn len(&self) -> (r: usize)
        ensures
            r == self@.len(),
    {
        self.items.len()
    }

    /// Enqueue a payload at the given score, behind every earlier item.
    pub fn push(&mut self, score: u64, payload: T)
        ensures
            final(self)@ =~= old(self)@.push(QueueItem { score, payload }),
    {
        self.items.push(QueueItem { score, payload });
    }

    /// Dequeue the earliest-inserted item of maximal score, if any.
    pub fn pop(&mut self) -> (r: Option<QueueItem<T>>)
        ensures
            old(self)@.len() == 0 ==> r is None && final(self)@ == old(self)@,
            old(self)@.len() > 0 ==> {
                &&& r is Some
                &&& r->Some_0 == old(self)@[pop_index(old(self)@)]
                &&& final(self)@ == old(self)@.remove(pop_index(old(self)@))
            },
    {
        if self.items.len() == 0 {
            return None;
        }
        let ghost s = self.items@;
        let mut best: usize = 0;
        let mut i: usize = 1;
        while i < self.items.len()
            invariant
                self.items@ == s,
                1 <= i <= s.len(),
                0 <= best < i,
                forall|j: int| 0 <= j < i ==> s[j].score <= s[best as int].score,
                forall|j: int| 0 <= j < best ==> s[j].score < s[best as int].score,
            decreases s.len() - i,
        {
            if self.items[i].score > self.items[best].score {
                best = i;
            }
            i += 1;
        }
        proof {
            assert(is_pop_index(s, best as int));
            lemma_pop_index_exists(s);
            lemma_pop_index_unique(s, best as int, pop_index(s));
        }
        let item = self.items.remove(best);
        Some(item)
    }
}

/// Pop scores never increase: the item that a second pop removes scores no
/// higher than the item the first pop removed.
pub proof fn lemma_pop_scores_non_increasing<T>(s: Seq<QueueItem<T>>)
    requires
        s.len() >= 2,
    ensures
        ({
            let rest = s.remove(pop_index(s));
            rest[pop_index(rest)].score <= s[pop_index(s)].score
        }),
{
    lemma_pop_index_exists(s);
    let i1 = pop_index(s);
    let rest = s.remove(i1);
    lemma_pop_index_exists(rest);
    let i2 = pop_index(rest);
    if i2 < i1 {
        assert(rest[i2] == s[i2]);
    } else {
        assert(rest[i2] == s[i2 + 1]);
    }
}

/// The scores a queue hands out when drained, in pop order.
pub open spec fn pop_score_seq<T>(s: Seq<QueueItem<T>>) -> Seq<u64>
    decreases s.len(),
{
    if s.len() == 0 {
        Seq::empty()
    } else {
        let i = pop_index(s);
        if 0 <= i < s.len() {
            seq![s[i].score] + pop_score_seq(s.remove(i))
        } else {
            Seq::empty()
        }
    }
}

/// Draining yields one score per queued item.
pub proof fn lemma_pop_score_seq_len<T>(s: Seq<QueueItem<T>>)
    ensures
        pop_score_seq(s).len() == s.len(),
    decreases s.len(),
{
    if s.len() > 0 {
        lemma_pop_index_exists(s);
        lemma_pop_score_seq_len(s.remove(pop_index(s)));
    }
}

/// No later pop beats the first: the first popped score bounds the whole
/// drain.
pub proof fn lemma_first_pop_is_max<T>(s: Seq<QueueItem<T>>, k: int)
    requires
        0 <= k < pop_score_seq(s).len(),
    ensures
        pop_score_seq(s)[k] <= s[pop_index(s)].score,
    decreases s.len(),
{
    lemma_pop_score_seq_len(s);
    lemma_pop_index_exists(s);
    if k > 0 {
        let rest = s.remove(pop_index(s));
        lemma_pop_score_seq_len(rest);
        lemma_first_pop_is_max(rest, k - 1);
        lemma_pop_scores_non_increasing(s);
        assert(pop_score_seq(s)[k] == pop_score_seq(rest)[k - 1]);
    }
}

/// For any queue contents, draining returns non-increasing priority
/// scores: a pop never hands out a higher score than any earlier pop.
pub proof fn lemma_pop_order_non_increasing<T>(s: Seq<QueueItem<T>>, a: int, b: int)
    requires
        0 <= a < b < pop_score_seq(s).len(),
    ensures
        pop_score_seq(s)[a] >= pop_score_seq(s)[b],
    decreases s.len(),
{
    lemma_pop_score_seq_len(s);
    lemma_pop_index_exists(s);
    if a == 0 {
        lemma_first_pop_is_max(s, b);
    } else {
        let rest = s.remove(pop_index(s));
        lemma_pop_score_seq_len(rest);
        lemma_pop_order_non_increasing(rest, a - 1, b - 1);
        assert(pop_score_seq(s)[a] == pop_score_seq(rest)[a - 1]);
        assert(pop_score_seq(s)[b] == pop_score_seq(rest)[b - 1]);
    }
}

/// Insertion order is preserved among equal scores: every item queued before
/// the one a pop removes has a strictly lower score, so an equal-scoring
/// item never overtakes an earlier one.
pub proof fn lemma_pop_fifo_within_score<T>(s: Seq<QueueItem<T>>, j: int)
    requires
        s.len() > 0,
        0 <= j < pop_index(s),
    ensures
        s[j].score < s[pop_index(s)].score,
{
    lemma_pop_index_exists(s);
}

} // verus!
