//! The error aggregator: collects submission failures across a run without
//! stopping unrelated work, and reports each distinct message once together
//! with the total failure count.

use vstd::prelude::*;

verus! {

/// Whether some string in `s` has the text `m`.
pub open spec fn contains_text(s: Seq<String>, m: Seq<char>) -> bool {
    exists|i: int| 0 <= i < s.len() && s[i]@ == m
}

/// `s` with later repetitions of a text removed: each text once, in order of
/// first occurrence.
pub open spec fn spec_distinct(s: Seq<String>) -> Seq<String>
    decreases s.len(),
{
    if s.len() == 0 {
        Seq::empty()
    } else if contains_text(s.drop_last(), s.last()@) {
        spec_distinct(s.drop_last())
    } else {
        spec_distinct(s.drop_last()).push(s.last())
    }
}

/// Removing repetitions keeps exactly the texts that were there.
pub proof fn lemma_spec_distinct_same_texts(s: Seq<String>, m: Seq<char>)
    ensures
        contains_text(spec_distinct(s), m) <==> contains_text(s, m),
    decreases s.len(),
{
    if s.len() > 0 {
        let p = s.drop_last();
        lemma_spec_distinct_same_texts(p, m);
        lemma_spec_distinct_same_texts(p, s.last()@);
        if contains_text(p, m) {
            let w = choose|w: int| 0 <= w < p.len() && p[w]@ == m;
            assert(s[w]@ == m);
        }
        if contains_text(s, m) && m != s.last()@ {
            let w = choose|w: int| 0 <= w < s.len() && s[w]@ == m;
            assert(p[w]@ == m);
        }
        if !contains_text(p, s.last()@) {
            let d = spec_distinct(p);
            if contains_text(d, m) {
                let w = choose|w: int| 0 <= w < d.len() && d[w]@ == m;
                assert(d.push(s.last())[w]@ == m);
            }
            if m == s.last()@ {
                let pushed = d.push(s.last());
                assert(pushed[pushed.len() - 1]@ == m);
            }
            if contains_text(d.push(s.last()), m) && m != s.last()@ {
                let w = choose|w: int|
                    0 <= w < d.push(s.last()).len() && d.push(s.last())[w]@ == m;
                assert(w < d.len());
                assert(d[w]@ == m);
            }
        }
    }
}

/// Accumulates failure messages in arrival order.
#[derive(Debug)]
pub struct ErrorAggregator {
    pub messages: Vec<String>,
}

impl ErrorAggregator {
    /// An aggregator that has seen no failures.
    pub fn new() -> (r: ErrorAggregator)
        ensures
            r.messages@ == Seq::<String>::empty(),
    {
        ErrorAggregator { messages: Vec::new() }
    }

    /// Record one failure.
    pub fn push(&mut self, msg: String)
        ensures
            final(self).messages@ == old(self).messages@.push(msg),
    {
        self.messages.push(msg);
    }

    /// How many failures were recorded in total.
    pub fn total(&self) -> (n: usize)
        ensures
            n == self.messages@.len(),
    {
        self.messages.len()
    }

    pub fn is_empty(&self) -> (b: bool)
        ensures
            b == (self.messages@.len() == 0),
    {
        self.messages.len() == 0
    }

    /// The distinct failure messages, each text exactly once, in order of
    /// first occurrence: exactly [`spec_distinct`] of the recorded messages.
    pub fn distinct(&self) -> (r: Vec<String>)
        ensures
            r@ == spec_distinct(self.messages@),
            forall|j: int, k: int| 0 <= j < k < r@.len() ==> r@[j]@ != r@[k]@,
            forall|i: int| 0 <= i < self.messages@.len() ==> contains_text(
                r@,
                #[trigger] self.messages@[i]@,
            ),
            forall|j: int| 0 <= j < r@.len() ==> contains_text(
                self.messages@,
                #[trigger] r@[j]@,
            ),
    {
        let mut r: Vec<String> = Vec::new();
        let mut i: usize = 0;
        while i < self.messages.len()
            invariant
                i <= self.messages@.len(),
                r@ == spec_distinct(self.messages@.take(i as int)),
                forall|j: int, k: int| 0 <= j < k < r@.len() ==> r@[j]@ != r@[k]@,
                forall|t: int| 0 <= t < i ==> contains_text(r@, #[trigger] self.messages@[t]@),
                forall|j: int| 0 <= j < r@.len() ==> contains_text(
                    self.messages@,
                    #[trigger] r@[j]@,
                ),
            decreases self.messages@.len() - i,
        {
            let ghost old_r = r@;
            let ghost prefix = self.messages@.take(i as int);
            let msg = &self.messages[i];
            proof {
                assert(self.messages@.take(i + 1).drop_last() =~= prefix);
                assert(self.messages@.take(i + 1).last() == self.messages@[i as int]);
                lemma_spec_distinct_same_texts(prefix, self.messages@[i as int]@);
            }
            if !contains_string(&r, msg) {
                r.push(msg.clone());
                proof {
                    assert(r@[r@.len() - 1]@ == self.messages@[i as int]@);
                    assert forall|t: int| 0 <= t < i + 1 implies contains_text(
                        r@,
                        #[trigger] self.messages@[t]@,
                    ) by {
                        if t < i {
                            let w = choose|w: int|
                                0 <= w < old_r.len() && old_r[w]@ == self.messages@[t]@;
                            assert(r@[w]@ == self.messages@[t]@);
                        } else {
                            assert(r@[r@.len() - 1]@ == self.messages@[t]@);
                        }
                    }
                }
            } else {
                proof {
                    assert(contains_text(r@, self.messages@[i as int]@));
                }
            }
            i = i + 1;
        }
        proof {
            assert(self.messages@.take(self.messages@.len() as int) =~= self.messages@);
        }
        r
    }
}

/// Whether `v` already holds a string with `m`'s text.
fn contains_string(v: &Vec<String>, m: &String) -> (b: bool)
    ensures
        b == contains_text(v@, m@),
{
    let mut i: usize = 0;
    while i < v.len()
        invariant
            i <= v@.len(),
            forall|j: int| 0 <= j < i ==> v@[j]@ != m@,
        decreases v@.len() - i,
    {
        if v[i] == *m {
            return true;
        }
        i = i + 1;
    }
    false
}

} // verus!
