//! The batch planner: partitions the record store's still-unaccepted records
//! into batches that respect the per-transaction byte and line ceilings and
//! never straddle an already-accepted record (the target cannot skip over a
//! gap when writing at an index offset).

use vstd::prelude::*;
use vstd::utf8::encode_utf8;

use crate::cache::{CacheItem, CacheItems};
use crate::config::{go_live_timestamp, ConfigData};
use crate::errors::DeployError;
use crate::magic_hat::{pow10, ConfigLine, MagicHatCreator, MagicHatData};

verus! {

/// The byte ceiling for the config lines carried by one transaction.
pub const MAX_TRANSACTION_BYTES: usize = 1000;

/// The line-count ceiling for one transaction.
pub const MAX_TRANSACTION_LINES: usize = 17;

/// Serialized size of one string's length prefix.
pub const STRING_LEN_SIZE: usize = 4;

/// The config line a record is submitted as.
pub open spec fn spec_config_line(item: CacheItem) -> ConfigLine {
    ConfigLine { name: item.name, uri: item.metadata_link }
}

/// Serialized size of one config line: both string payloads, in bytes, plus a
/// length prefix for each.
pub open spec fn config_line_size(line: ConfigLine) -> int {
    2 * (STRING_LEN_SIZE as int) + encode_utf8(line.name@).len() + encode_utf8(line.uri@).len()
}

/// Marginal serialized size of one record's config line.
pub open spec fn item_size(item: CacheItem) -> int {
    config_line_size(spec_config_line(item))
}

/// The indices carried by one batch, in batch order.
pub open spec fn batch_indices(b: Seq<(u32, ConfigLine)>) -> Seq<u32>
    decreases b.len(),
{
    if b.len() == 0 {
        Seq::empty()
    } else {
        batch_indices(b.drop_last()).push(b.last().0)
    }
}

/// The indices carried by a whole plan, batch after batch.
pub open spec fn plan_indices(plan: Seq<Seq<(u32, ConfigLine)>>) -> Seq<u32>
    decreases plan.len(),
{
    if plan.len() == 0 {
        Seq::empty()
    } else {
        plan_indices(plan.drop_last()) + batch_indices(plan.last())
    }
}

/// Total serialized size of one batch.
pub open spec fn batch_bytes(b: Seq<(u32, ConfigLine)>) -> int
    decreases b.len(),
{
    if b.len() == 0 {
        0
    } else {
        batch_bytes(b.drop_last()) + config_line_size(b.last().1)
    }
}

/// The indices of the records among the first `n` that are not yet accepted,
/// in ascending order.
pub open spec fn unaccepted_indices(items: Seq<CacheItem>, n: int) -> Seq<u32>
    decreases n,
{
    if n <= 0 {
        Seq::empty()
    } else if items[n - 1].on_chain {
        unaccepted_indices(items, n - 1)
    } else {
        unaccepted_indices(items, n - 1).push((n - 1) as u32)
    }
}

/// Accumulator of the planner's fold: the closed batches, the batch being
/// filled, and its running byte size.
#[verifier::ext_equal]
pub struct ChunkState {
    pub plan: Seq<Seq<(u32, ConfigLine)>>,
    pub current: Seq<(u32, ConfigLine)>,
    pub bytes: int,
}

/// One step of the planner over the record at `idx`: an accepted record closes
/// the open batch (it is skipped, never resubmitted); an unaccepted one closes
/// the open batch first if adding the record would break either ceiling, then
/// joins it.
pub open spec fn chunk_step(st: ChunkState, idx: u32, item: CacheItem) -> ChunkState {
    if item.on_chain {
        if st.current.len() > 0 {
            ChunkState { plan: st.plan.push(st.current), current: Seq::empty(), bytes: 0 }
        } else {
            st
        }
    } else {
        let size = item_size(item);
        let closed = if (st.bytes + size > MAX_TRANSACTION_BYTES || st.current.len()
            == MAX_TRANSACTION_LINES) && st.current.len() > 0 {
            ChunkState { plan: st.plan.push(st.current), current: Seq::empty(), bytes: 0 }
        } else {
            st
        };
        ChunkState {
            plan: closed.plan,
            current: closed.current.push((idx, spec_config_line(item))),
            bytes: closed.bytes + size,
        }
    }
}

/// The planner's fold over the first `n` records.
pub open spec fn chunk_fold(items: Seq<CacheItem>, n: int) -> ChunkState
    decreases n,
{
    if n <= 0 {
        ChunkState { plan: Seq::empty(), current: Seq::empty(), bytes: 0 }
    } else {
        chunk_step(chunk_fold(items, n - 1), (n - 1) as u32, items[n - 1])
    }
}

/// The plan over the first `n` records: the fold's closed batches, plus the
/// open batch if it is non-empty.
pub open spec fn spec_plan(items: Seq<CacheItem>, n: int) -> Seq<Seq<(u32, ConfigLine)>> {
    let st = chunk_fold(items, n);
    if st.current.len() > 0 {
        st.plan.push(st.current)
    } else {
        st.plan
    }
}

/// One batch entry is valid for the first `n` records: it names an unaccepted
/// record below `n` and carries exactly that record's config line.
pub open spec fn entry_ok(items: Seq<CacheItem>, n: int, p: (u32, ConfigLine)) -> bool {
    &&& (p.0 as int) < n
    &&& (p.0 as int) < items.len()
    &&& !items[p.0 as int].on_chain
    &&& p.1 == spec_config_line(items[p.0 as int])
}

pub open spec fn entries_ok(items: Seq<CacheItem>, n: int, b: Seq<(u32, ConfigLine)>) -> bool {
    forall|k: int| 0 <= k < b.len() ==> entry_ok(items, n, #[trigger] b[k])
}

/// A batch's indices form one contiguous run: the entry at position `t`
/// names the record `t` places after the batch's first.
pub open spec fn batch_contiguous(b: Seq<(u32, ConfigLine)>) -> bool {
    forall|t: int| 0 <= t < b.len() ==> (#[trigger] b[t]).0 as int == b[0].0 + t
}

/// A closed batch is well formed: non-empty, within the line ceiling, within
/// the byte ceiling unless it is a single oversized record (which gets a
/// batch of its own; the planner never splits below record granularity), and
/// contiguous (the target writes a batch as one run at an index offset).
pub open spec fn batch_wf(items: Seq<CacheItem>, n: int, b: Seq<(u32, ConfigLine)>) -> bool {
    &&& 0 < b.len() <= MAX_TRANSACTION_LINES
    &&& batch_bytes(b) <= MAX_TRANSACTION_BYTES || b.len() == 1
    &&& entries_ok(items, n, b)
    &&& batch_contiguous(b)
}

/// Everything the planner's fold maintains.
pub open spec fn fold_inv(items: Seq<CacheItem>, n: int, st: ChunkState) -> bool {
    &&& st.bytes == batch_bytes(st.current)
    &&& st.current.len() <= MAX_TRANSACTION_LINES
    &&& st.current.len() >= 2 ==> st.bytes <= MAX_TRANSACTION_BYTES
    &&& entries_ok(items, n, st.current)
    &&& batch_contiguous(st.current)
    &&& st.current.len() > 0 ==> st.current.last().0 as int == n - 1
    &&& forall|j: int| 0 <= j < st.plan.len() ==> batch_wf(items, n, #[trigger] st.plan[j])
    &&& plan_indices(st.plan) + batch_indices(st.current) == unaccepted_indices(items, n)
}

proof fn lemma_batch_indices_push(b: Seq<(u32, ConfigLine)>, p: (u32, ConfigLine))
    ensures
        batch_indices(b.push(p)) == batch_indices(b).push(p.0),
{
    assert(b.push(p).drop_last() =~= b);
    assert(b.push(p).last() == p);
}

proof fn lemma_plan_indices_push(plan: Seq<Seq<(u32, ConfigLine)>>, b: Seq<(u32, ConfigLine)>)
    ensures
        plan_indices(plan.push(b)) == plan_indices(plan) + batch_indices(b),
{
    assert(plan.push(b).drop_last() =~= plan);
    assert(plan.push(b).last() == b);
}

proof fn lemma_batch_bytes_push(b: Seq<(u32, ConfigLine)>, p: (u32, ConfigLine))
    ensures
        batch_bytes(b.push(p)) == batch_bytes(b) + config_line_size(p.1),
{
    assert(b.push(p).drop_last() =~= b);
    assert(b.push(p).last() == p);
}

/// The planner's fold invariant holds after any number of steps.
pub proof fn lemma_fold_inv(items: Seq<CacheItem>, n: int)
    requires
        0 <= n <= items.len(),
        n <= 0x1_0000_0000,
    ensures
        fold_inv(items, n, chunk_fold(items, n)),
    decreases n,
{
    if n > 0 {
        lemma_fold_inv(items, n - 1);
        let st = chunk_fold(items, n - 1);
        let item = items[n - 1];
        let idx = (n - 1) as u32;
        let next = chunk_step(st, idx, item);
        assert(chunk_fold(items, n) == next);
        if item.on_chain {
            if st.current.len() > 0 {
                lemma_plan_indices_push(st.plan, st.current);
                assert(next.current.len() == 0);
                assert(batch_indices(next.current) =~= Seq::<u32>::empty());
                assert(plan_indices(next.plan) + batch_indices(next.current)
                    =~= unaccepted_indices(items, n));
            }
        } else {
            let size = item_size(item);
            let close_first = (st.bytes + size > MAX_TRANSACTION_BYTES || st.current.len()
                == MAX_TRANSACTION_LINES) && st.current.len() > 0;
            let closed = if close_first {
                ChunkState { plan: st.plan.push(st.current), current: Seq::empty(), bytes: 0 }
            } else {
                st
            };
            if close_first {
                lemma_plan_indices_push(st.plan, st.current);
                assert(batch_indices(closed.current) =~= Seq::<u32>::empty());
                assert(plan_indices(closed.plan) + batch_indices(closed.current)
                    =~= unaccepted_indices(items, n - 1));
            }
            lemma_batch_indices_push(closed.current, (idx, spec_config_line(item)));
            lemma_batch_bytes_push(closed.current, (idx, spec_config_line(item)));
            assert(next.plan == closed.plan);
            assert(next.current == closed.current.push((idx, spec_config_line(item))));
            assert(batch_indices(next.current) == batch_indices(closed.current).push(idx));
            assert(plan_indices(next.plan) + batch_indices(closed.current) =~= unaccepted_indices(
                items,
                n - 1,
            ));
            assert(plan_indices(next.plan) + batch_indices(next.current) =~= unaccepted_indices(
                items,
                n,
            ));
            assert(next.bytes == batch_bytes(next.current));
            assert(next.current.len() <= MAX_TRANSACTION_LINES);
            assert(next.current.len() >= 2 ==> next.bytes <= MAX_TRANSACTION_BYTES);
            assert(entries_ok(items, n, next.current));
            assert forall|t: int| 0 <= t < next.current.len() implies (
            #[trigger] next.current[t]).0 as int == next.current[0].0 + t by {
                if t < closed.current.len() {
                    assert(next.current[t] == closed.current[t]);
                } else {
                    assert(next.current[t].0 == idx);
                    if closed.current.len() > 0 {
                        assert(closed.current.last().0 as int == n - 2);
                        assert(closed.current.last().0 as int == closed.current[0].0 + (
                        closed.current.len() - 1));
                    }
                }
            }
            assert(next.current.last().0 == idx);
            assert(forall|j: int| 0 <= j < next.plan.len() ==> batch_wf(
                items,
                n,
                #[trigger] next.plan[j],
            ));
        }
    }
}

proof fn lemma_batch_indices_len(b: Seq<(u32, ConfigLine)>)
    ensures
        batch_indices(b).len() == b.len(),
    decreases b.len(),
{
    if b.len() > 0 {
        lemma_batch_indices_len(b.drop_last());
    }
}

/// A batch's index sequence is its entries' indices, position by position.
pub proof fn lemma_batch_indices_elems(b: Seq<(u32, ConfigLine)>)
    ensures
        batch_indices(b).len() == b.len(),
        forall|t: int| 0 <= t < b.len() ==> batch_indices(b)[t] == b[t].0,
    decreases b.len(),
{
    if b.len() > 0 {
        lemma_batch_indices_elems(b.drop_last());
    }
}

/// An index occurs in a plan's concatenated indices exactly when some batch
/// of the plan carries it.
pub proof fn lemma_plan_indices_decompose(plan: Seq<Seq<(u32, ConfigLine)>>, x: u32)
    ensures
        plan_indices(plan).contains(x) <==> exists|j: int|
            0 <= j < plan.len() && batch_indices(#[trigger] plan[j]).contains(x),
    decreases plan.len(),
{
    if plan.len() > 0 {
        lemma_plan_indices_decompose(plan.drop_last(), x);
        let prev = plan_indices(plan.drop_last());
        let lastb = batch_indices(plan.last());
        let s = plan_indices(plan);
        assert(s == prev + lastb);
        if s.contains(x) {
            let w = choose|w: int| 0 <= w < s.len() && s[w] == x;
            if w < prev.len() {
                assert(prev[w] == x);
                assert(prev.contains(x));
                let j = choose|j: int|
                    0 <= j < plan.drop_last().len() && batch_indices(
                        #[trigger] plan.drop_last()[j],
                    ).contains(x);
                assert(plan[j] == plan.drop_last()[j]);
                assert(batch_indices(plan[j]).contains(x));
            } else {
                assert(lastb[w - prev.len()] == x);
                assert(batch_indices(plan[plan.len() - 1]).contains(x));
            }
        }
        if exists|j: int| 0 <= j < plan.len() && batch_indices(#[trigger] plan[j]).contains(x) {
            let j = choose|j: int|
                0 <= j < plan.len() && batch_indices(#[trigger] plan[j]).contains(x);
            if j < plan.len() - 1 {
                assert(plan.drop_last()[j] == plan[j]);
                assert(batch_indices(plan.drop_last()[j]).contains(x));
                assert(prev.contains(x));
                let w = choose|w: int| 0 <= w < prev.len() && prev[w] == x;
                assert(s[w] == x);
            } else {
                let w = choose|w: int| 0 <= w < lastb.len() && lastb[w] == x;
                assert(s[prev.len() + w] == x);
            }
        }
    }
}

/// Every batch of a plan is well formed: non-empty, within the line ceiling,
/// within the byte ceiling unless it is a single oversized record, and made
/// only of still-unaccepted records' own config lines.
pub proof fn lemma_plan_batches_wf(items: Seq<CacheItem>, n: int)
    requires
        0 <= n <= items.len(),
        n <= 0x1_0000_0000,
    ensures
        forall|j: int| 0 <= j < spec_plan(items, n).len() ==> batch_wf(
            items,
            n,
            #[trigger] spec_plan(items, n)[j],
        ),
{
    lemma_fold_inv(items, n);
    let st = chunk_fold(items, n);
    if st.current.len() > 0 {
        if st.current.len() == 1 {
            assert(batch_bytes(st.current) == batch_bytes(st.current.drop_last())
                + config_line_size(st.current.last().1));
        }
        assert(batch_wf(items, n, st.current));
        assert forall|j: int| 0 <= j < spec_plan(items, n).len() implies batch_wf(
            items,
            n,
            #[trigger] spec_plan(items, n)[j],
        ) by {
            if j < st.plan.len() {
                assert(spec_plan(items, n)[j] == st.plan[j]);
            } else {
                assert(spec_plan(items, n)[j] == st.current);
            }
        }
    }
}

/// Law: when every record's own serialized size fits the byte ceiling (the
/// upstream validation guarantees this), every batch of the plan fits it too.
pub proof fn lemma_plan_within_byte_ceiling(items: Seq<CacheItem>, n: int)
    requires
        0 <= n <= items.len(),
        n <= 0x1_0000_0000,
        forall|i: int| 0 <= i < n ==> item_size(#[trigger] items[i]) <= MAX_TRANSACTION_BYTES,
    ensures
        forall|j: int| 0 <= j < spec_plan(items, n).len() ==> batch_bytes(
            #[trigger] spec_plan(items, n)[j],
        ) <= MAX_TRANSACTION_BYTES,
{
    lemma_plan_batches_wf(items, n);
    assert forall|j: int| 0 <= j < spec_plan(items, n).len() implies batch_bytes(
        #[trigger] spec_plan(items, n)[j],
    ) <= MAX_TRANSACTION_BYTES by {
        let b = spec_plan(items, n)[j];
        assert(batch_wf(items, n, b));
        if b.len() == 1 {
            assert(batch_bytes(b) == batch_bytes(b.drop_last()) + config_line_size(b.last().1));
            assert(entry_ok(items, n, b[0]));
            assert(config_line_size(b[0].1) == item_size(items[b[0].0 as int]));
        }
    }
}

/// Law: the plan's batches, concatenated in order, carry exactly the indices
/// of the still-unaccepted records, in ascending order; in particular no
/// already-accepted record appears in any batch.
pub proof fn lemma_plan_covers_unaccepted(items: Seq<CacheItem>, n: int)
    requires
        0 <= n <= items.len(),
        n <= 0x1_0000_0000,
    ensures
        plan_indices(spec_plan(items, n)) == unaccepted_indices(items, n),
{
    lemma_fold_inv(items, n);
    let st = chunk_fold(items, n);
    if st.current.len() > 0 {
        lemma_plan_indices_push(st.plan, st.current);
    } else {
        assert(batch_indices(st.current) =~= Seq::<u32>::empty());
        assert(plan_indices(st.plan) + batch_indices(st.current) =~= plan_indices(st.plan));
    }
}

/// Whether `x` is among the first `n` records' unaccepted indices: exactly
/// when `x` names a record below `n` that is not yet accepted.
pub proof fn lemma_unaccepted_contains(items: Seq<CacheItem>, n: int, x: u32)
    requires
        0 <= n <= items.len(),
        n <= 0x1_0000_0000,
    ensures
        unaccepted_indices(items, n).contains(x) <==> ((x as int) < n
            && !items[x as int].on_chain),
    decreases n,
{
    if n > 0 {
        lemma_unaccepted_contains(items, n - 1, x);
        let prev = unaccepted_indices(items, n - 1);
        if !items[n - 1].on_chain {
            let s = prev.push((n - 1) as u32);
            if prev.contains(x) {
                let j = choose|j: int| 0 <= j < prev.len() && prev[j] == x;
                assert(s[j] == x);
            }
            if x == (n - 1) as u32 {
                assert(s[s.len() - 1] == x);
            }
            if s.contains(x) {
                let j = choose|j: int| 0 <= j < s.len() && s[j] == x;
                if j < prev.len() {
                    assert(prev[j] == x);
                }
            }
        }
    }
}

/// The unaccepted indices are strictly ascending and all below `n`.
pub proof fn lemma_unaccepted_ascending(items: Seq<CacheItem>, n: int)
    requires
        0 <= n <= items.len(),
        n <= 0x1_0000_0000,
    ensures
        forall|j: int, k: int|
            0 <= j < k < unaccepted_indices(items, n).len() ==> unaccepted_indices(items, n)[j]
                < unaccepted_indices(items, n)[k],
        forall|j: int|
            0 <= j < unaccepted_indices(items, n).len() ==> (unaccepted_indices(items, n)[j]
                as int) < n,
    decreases n,
{
    if n > 0 {
        lemma_unaccepted_ascending(items, n - 1);
        let prev = unaccepted_indices(items, n - 1);
        let s = unaccepted_indices(items, n);
        if !items[n - 1].on_chain {
            assert forall|j: int, k: int| 0 <= j < k < s.len() implies s[j] < s[k] by {
                if k == s.len() - 1 {
                    assert(s[j] == prev[j]);
                    assert((prev[j] as int) < n - 1);
                    assert(s[k] == (n - 1) as u32);
                } else {
                    assert(s[j] == prev[j] && s[k] == prev[k]);
                }
            }
        }
    }
}

/// Law: after further records are accepted (and none un-accepted, which never
/// happens), the fresh plan's work is a subset of the stale plan's work, and
/// no newly accepted record is planned again.
pub proof fn lemma_plan_monotonic(items1: Seq<CacheItem>, items2: Seq<CacheItem>, n: int)
    requires
        0 <= n <= items1.len(),
        items1.len() == items2.len(),
        n <= 0x1_0000_0000,
        forall|i: int| 0 <= i < items1.len() && items1[i].on_chain ==> (
        #[trigger] items2[i].on_chain),
    ensures
        forall|x: u32|
            plan_indices(spec_plan(items2, n)).contains(x) ==> plan_indices(
                spec_plan(items1, n),
            ).contains(x),
        forall|i: int|
            0 <= i < n && items2[i].on_chain ==> !plan_indices(spec_plan(items2, n)).contains(
                i as u32,
            ),
        forall|i: int|
            0 <= i < n && !items1[i].on_chain ==> plan_indices(spec_plan(items1, n)).contains(
                i as u32,
            ),
{
    lemma_plan_covers_unaccepted(items1, n);
    lemma_plan_covers_unaccepted(items2, n);
    assert forall|x: u32| plan_indices(spec_plan(items2, n)).contains(x) implies plan_indices(
        spec_plan(items1, n),
    ).contains(x) by {
        lemma_unaccepted_contains(items1, n, x);
        lemma_unaccepted_contains(items2, n, x);
    }
    assert forall|i: int| 0 <= i < n && items2[i].on_chain implies !plan_indices(
        spec_plan(items2, n),
    ).contains(i as u32) by {
        lemma_unaccepted_contains(items2, n, i as u32);
    }
    assert forall|i: int| 0 <= i < n && !items1[i].on_chain implies plan_indices(
        spec_plan(items1, n),
    ).contains(i as u32) by {
        lemma_unaccepted_contains(items1, n, i as u32);
    }
}

/// Law: a store whose first `n` records are all accepted yields an empty plan.
pub proof fn lemma_plan_empty_when_all_accepted(items: Seq<CacheItem>, n: int)
    requires
        0 <= n <= items.len(),
        n <= 0x1_0000_0000,
        forall|i: int| 0 <= i < n ==> (#[trigger] items[i].on_chain),
    ensures
        spec_plan(items, n) == Seq::<Seq<(u32, ConfigLine)>>::empty(),
    decreases n,
{
    lemma_plan_covers_unaccepted(items, n);
    lemma_plan_batches_wf(items, n);
    assert(unaccepted_indices(items, n) =~= Seq::<u32>::empty()) by {
        lemma_unaccepted_ascending(items, n);
        if unaccepted_indices(items, n).len() > 0 {
            lemma_unaccepted_contains(items, n, unaccepted_indices(items, n)[0]);
            assert(unaccepted_indices(items, n).contains(unaccepted_indices(items, n)[0]));
        }
    }
    let plan = spec_plan(items, n);
    if plan.len() > 0 {
        lemma_batch_indices_len(plan.last());
        assert(plan_indices(plan) == plan_indices(plan.drop_last()) + batch_indices(plan.last()));
        assert(batch_wf(items, n, plan.last()));
        assert(plan_indices(plan).len() > 0);
    }
    assert(plan =~= Seq::<Seq<(u32, ConfigLine)>>::empty());
}

/// A whole plan's view of a vector of batches.
pub open spec fn plan_view(plan: Vec<Vec<(u32, ConfigLine)>>) -> Seq<Seq<(u32, ConfigLine)>> {
    plan@.map_values(|b: Vec<(u32, ConfigLine)>| b@)
}

impl CacheItem {
    /// The config line this record is submitted as.
    pub fn into_config_line(&self) -> (r: ConfigLine)
        ensures
            r == spec_config_line(*self),
    {
        ConfigLine { name: self.name.clone(), uri: self.metadata_link.clone() }
    }
}

/// Determine the config lines that still need to be submitted, grouped into
/// batches that respect both ceilings and never straddle an accepted record.
///
/// Succeeds exactly when the store holds all `num_items` records; the plan is
/// then the greedy partition [`spec_plan`] of the store's first `num_items`
/// records.
pub fn generate_config_lines(num_items: u64, cache_items: &CacheItems) -> (res: Result<
    Vec<Vec<(u32, ConfigLine)>>,
    DeployError,
>)
    requires
        num_items <= 0xffff_ffff,
        forall|k: int| 0 <= k < cache_items.0@.len() ==> item_size(#[trigger] cache_items.0@[k])
            <= 0x7fff_ffff,
    ensures
        res is Ok <==> num_items <= cache_items.0@.len(),
        res matches Ok(plan) ==> plan_view(plan) == spec_plan(cache_items.0@, num_items as int),
        res matches Ok(plan) ==> forall|j: int|
            0 <= j < plan@.len() ==> batch_wf(
                cache_items.0@,
                num_items as int,
                #[trigger] plan_view(plan)[j],
            ),
        res matches Ok(plan) ==> plan_indices(plan_view(plan)) == unaccepted_indices(
            cache_items.0@,
            num_items as int,
        ),
        res matches Err(e) ==> e == DeployError::MissingCacheItem(cache_items.0@.len() as u64),
{
    if (cache_items.0.len() as u64) < num_items {
        return Err(DeployError::MissingCacheItem(cache_items.0.len() as u64));
    }

    let ghost items = cache_items.0@;
    let mut config_lines: Vec<Vec<(u32, ConfigLine)>> = Vec::new();
    let mut current: Vec<(u32, ConfigLine)> = Vec::new();
    let mut tx_size: usize = 0;
    let mut i: u64 = 0;

    while i < num_items
        invariant
            i <= num_items,
            num_items <= items.len(),
            num_items <= 0xffff_ffff,
            items == cache_items.0@,
            forall|k: int| 0 <= k < items.len() ==> item_size(#[trigger] items[k]) <= 0x7fff_ffff,
            plan_view(config_lines) == chunk_fold(items, i as int).plan,
            current@ == chunk_fold(items, i as int).current,
            tx_size as int == chunk_fold(items, i as int).bytes,
        decreases num_items - i,
    {
        let ghost st = chunk_fold(items, i as int);
        proof {
            lemma_fold_inv(items, i as int);
            if current@.len() == 1 {
                assert(batch_bytes(current@) == batch_bytes(current@.drop_last())
                    + config_line_size(current@.last().1));
                assert(current@.drop_last().len() == 0);
                assert(entry_ok(items, i as int, current@[0]));
            }
            assert(tx_size <= 0x7fff_ffff);
        }

        let item = &cache_items.0[i as usize];
        if item.on_chain {
            if current.len() > 0 {
                config_lines.push(current);
                current = Vec::new();
                tx_size = 0;
            }
        } else {
            let config_line = item.into_config_line();
            let size = 2 * STRING_LEN_SIZE + config_line.name.as_str().len()
                + config_line.uri.as_str().len();
            assert(size as int == item_size(items[i as int]));
            if (tx_size + size > MAX_TRANSACTION_BYTES || current.len() == MAX_TRANSACTION_LINES)
                && current.len() > 0 {
                config_lines.push(current);
                current = Vec::new();
                tx_size = 0;
            }
            tx_size = tx_size + size;
            current.push((i as u32, config_line));
        }

        proof {
            let stepped = chunk_step(st, i as u32, items[i as int]);
            assert(plan_view(config_lines) =~= stepped.plan);
            assert(current@ =~= stepped.current);
            assert(chunk_fold(items, i as int + 1) == stepped);
        }
        i = i + 1;
    }

    if current.len() > 0 {
        config_lines.push(current);
        proof {
            assert(plan_view(config_lines) =~= chunk_fold(items, num_items as int).plan.push(
                chunk_fold(items, num_items as int).current,
            ));
        }
    }
    proof {
        lemma_plan_batches_wf(items, num_items as int);
        lemma_plan_covers_unaccepted(items, num_items as int);
    }
    Ok(config_lines)
}

/// The default pool bound for concurrent batch submissions.
pub const PARALLEL_LIMIT: usize = 45;

/// The placeholder identity a fresh deployment target is created with.
pub const DEFAULT_UUID: &'static str = "ABCDEF";

/// The sum of the configured creators' shares.
pub open spec fn shares_total(creators: Seq<crate::config::Creator>) -> int
    decreases creators.len(),
{
    if creators.len() == 0 {
        0
    } else {
        shares_total(creators.drop_last()) + creators.last().share
    }
}

/// Every configured creator address is a well-formed public key.
pub open spec fn creators_all_valid(creators: Seq<crate::config::Creator>) -> bool {
    forall|k: int| 0 <= k < creators.len() ==> crate::validate::is_valid_pubkey(
        (#[trigger] creators[k]).address@,
    )
}

/// A record of the store is fit for deployment: non-empty name and link,
/// both within the target's byte ceilings.
pub open spec fn cache_item_ok(item: CacheItem) -> bool {
    &&& item.name@.len() > 0
    &&& encode_utf8(item.name@).len() <= crate::magic_hat::MAX_NAME_LENGTH
    &&& item.metadata_link@.len() > 0
    &&& encode_utf8(item.metadata_link@).len() <= crate::magic_hat::MAX_URI_LENGTH
}

/// The error an unfit record is rejected with.
pub open spec fn cache_item_error(item: CacheItem, i: u64) -> DeployError {
    if item.name@.len() == 0 {
        DeployError::MissingName(i)
    } else if encode_utf8(item.name@).len() > crate::magic_hat::MAX_NAME_LENGTH {
        DeployError::Validation(crate::validate::ValidateError::NameTooLong)
    } else if item.metadata_link@.len() == 0 {
        DeployError::MissingMetadataLink(i)
    } else {
        DeployError::Validation(crate::validate::ValidateError::UrlTooLong)
    }
}

/// Check every record of the store before deployment: each must carry a
/// non-empty name and metadata link within the target's ceilings. Rejects at
/// the first unfit record, with the error that record earns.
pub fn check_cache_items(cache_items: &CacheItems) -> (r: Result<(), DeployError>)
    requires
        forall|k: int| 0 <= k < cache_items.0@.len() ==> item_size(#[trigger] cache_items.0@[k])
            <= 0x7fff_ffff,
    ensures
        r is Ok <==> (forall|i: int|
            0 <= i < cache_items.0@.len() ==> cache_item_ok(#[trigger] cache_items.0@[i])),
        r matches Err(e) ==> exists|i: int|
            0 <= i < cache_items.0@.len() && !cache_item_ok(#[trigger] cache_items.0@[i]) && (
            forall|t: int| 0 <= t < i ==> cache_item_ok(#[trigger] cache_items.0@[t])) && e
                == cache_item_error(cache_items.0@[i], i as u64),
{
    let mut i: usize = 0;
    while i < cache_items.0.len()
        invariant
            i <= cache_items.0@.len(),
            forall|k: int| 0 <= k < cache_items.0@.len() ==> item_size(
                #[trigger] cache_items.0@[k],
            ) <= 0x7fff_ffff,
            forall|t: int| 0 <= t < i ==> cache_item_ok(#[trigger] cache_items.0@[t]),
        decreases cache_items.0@.len() - i,
    {
        let item = &cache_items.0[i];
        if item.name.as_str().is_empty() {
            return Err(DeployError::MissingName(i as u64));
        }
        match crate::validate::check_name(item.name.as_str()) {
            Ok(()) => (),
            Err(e) => {
                return Err(DeployError::Validation(e));
            },
        }
        if item.metadata_link.as_str().is_empty() {
            return Err(DeployError::MissingMetadataLink(i as u64));
        }
        match crate::validate::check_url(item.metadata_link.as_str()) {
            Ok(()) => (),
            Err(e) => {
                return Err(DeployError::Validation(e));
            },
        }
        i = i + 1;
    }
    Ok(())
}

/// Create the account data a fresh deployment target is initialized with.
///
/// Mirrors the configuration into the target's format: the go-live date is
/// parsed, each creator's address is validated, the creators must number
/// between one and [`crate::magic_hat::MAX_CREATOR_LIMIT`] minus one and
/// their shares must add up to one hundred, and the price is scaled by the
/// payment token's decimals (or into lamports). Checks happen in that order;
/// the first failure is returned.
pub fn create_magic_hat_data(
    config: &ConfigData,
    uuid: String,
    spl_token_decimals: Option<u8>,
) -> (r: Result<MagicHatData, DeployError>)
    requires
        spl_token_decimals matches Some(d) ==> d <= 19,
        config.creators@.len() <= 0xffff,
    ensures
        ({
            let n = config.creators@.len() as int;
            let dec = match spl_token_decimals {
                Some(d) => d as nat,
                None => 9nat,
            };
            match r {
                Ok(data) => {
                    &&& go_live_timestamp(config.go_live_date@) is Some
                    &&& creators_all_valid(config.creators@)
                    &&& 1 <= n <= crate::magic_hat::MAX_CREATOR_LIMIT - 1
                    &&& shares_total(config.creators@) == 100
                    &&& config.price * pow10(dec) <= u64::MAX
                    &&& data.uuid == uuid
                    &&& data.price == config.price * pow10(dec)
                    &&& data.symbol == config.symbol
                    &&& data.seller_fee_basis_points == config.seller_fee_basis_points
                    &&& data.max_supply == 0
                    &&& data.is_mutable == config.is_mutable
                    &&& data.retain_authority == config.retain_authority
                    &&& data.go_live_date == go_live_timestamp(config.go_live_date@)
                    &&& data.end_settings == config.end_settings
                    &&& data.creators@.len() == n
                    &&& forall|k: int|
                        0 <= k < n ==> (#[trigger] data.creators@[k]).address
                            == config.creators@[k].address && !data.creators@[k].verified
                            && data.creators@[k].share == config.creators@[k].share
                    &&& data.whitelist_mint_settings == config.whitelist_mint_settings
                    &&& crate::config::opt_hidden_eq(data.hidden_settings, config.hidden_settings)
                    &&& data.items_available == config.number
                    &&& data.gatekeeper == config.gatekeeper
                },
                Err(e) => match e {
                    DeployError::InvalidGoLiveDate(s) => s == config.go_live_date
                        && go_live_timestamp(config.go_live_date@) is None,
                    DeployError::InvalidCreatorAddress(a) => go_live_timestamp(
                        config.go_live_date@,
                    ) is Some && exists|k: int|
                        0 <= k < n && !crate::validate::is_valid_pubkey(
                            (#[trigger] config.creators@[k]).address@,
                        ) && (forall|t: int|
                            0 <= t < k ==> crate::validate::is_valid_pubkey(
                                (#[trigger] config.creators@[t]).address@,
                            )) && a == config.creators@[k].address,
                    DeployError::InvalidCreatorCount(c) => go_live_timestamp(config.go_live_date@)
                        is Some && creators_all_valid(config.creators@) && c == n && (n == 0 || n
                        > crate::magic_hat::MAX_CREATOR_LIMIT - 1),
                    DeployError::InvalidCreatorShare(s) => go_live_timestamp(config.go_live_date@)
                        is Some && creators_all_valid(config.creators@) && 1 <= n
                        <= crate::magic_hat::MAX_CREATOR_LIMIT - 1 && s as int == shares_total(
                        config.creators@,
                    ) && s != 100,
                    DeployError::PriceOverflow => go_live_timestamp(config.go_live_date@) is Some
                        && creators_all_valid(config.creators@) && 1 <= n
                        <= crate::magic_hat::MAX_CREATOR_LIMIT - 1 && shares_total(config.creators@)
                        == 100 && config.price * pow10(dec) > u64::MAX,
                    _ => false,
                },
            }
        }),
{
    let go_live_ts = match crate::config::go_live_date_as_timestamp(&config.go_live_date) {
        Ok(ts) => ts,
        Err(e) => {
            return Err(e);
        },
    };

    let mut creators: Vec<MagicHatCreator> = Vec::new();
    let mut share: u32 = 0;
    let mut k: usize = 0;
    while k < config.creators.len()
        invariant
            k <= config.creators@.len(),
            config.creators@.len() <= 0xffff,
            creators@.len() == k,
            share <= 255 * k,
            share as int == shares_total(config.creators@.take(k as int)),
            go_live_timestamp(config.go_live_date@) is Some,
            forall|t: int| 0 <= t < k ==> crate::validate::is_valid_pubkey(
                (#[trigger] config.creators@[t]).address@,
            ),
            forall|t: int|
                0 <= t < k ==> (#[trigger] creators@[t]).address == config.creators@[t].address
                    && !creators@[t].verified && creators@[t].share == config.creators@[t].share,
        decreases config.creators@.len() - k,
    {
        let c = match config.creators[k].into_magichat_format() {
            Ok(c) => c,
            Err(crate::validate::ValidateError::InvalidCreatorAddress(a)) => {
                return Err(DeployError::InvalidCreatorAddress(a));
            },
            Err(_) => {
                proof {
                    assert(false);
                }
                return Err(DeployError::PriceOverflow);
            },
        };
        proof {
            assert(config.creators@.take(k + 1).drop_last() =~= config.creators@.take(k as int));
            assert(config.creators@.take(k + 1).last() == config.creators@[k as int]);
        }
        share = share + c.share as u32;
        creators.push(c);
        k = k + 1;
    }
    proof {
        assert(config.creators@.take(config.creators@.len() as int) =~= config.creators@);
    }

    if creators.len() == 0 || creators.len() > crate::magic_hat::MAX_CREATOR_LIMIT - 1 {
        return Err(DeployError::InvalidCreatorCount(creators.len()));
    }
    if share != 100 {
        return Err(DeployError::InvalidCreatorShare(share));
    }

    let price = match crate::magic_hat::parse_config_price(config.price, spl_token_decimals) {
        Ok(p) => p,
        Err(e) => {
            return Err(e);
        },
    };

    Ok(
        MagicHatData {
            uuid,
            price,
            symbol: config.symbol.clone(),
            seller_fee_basis_points: config.seller_fee_basis_points,
            max_supply: 0,
            is_mutable: config.is_mutable,
            retain_authority: config.retain_authority,
            go_live_date: Some(go_live_ts),
            end_settings: config.end_settings,
            creators,
            whitelist_mint_settings: crate::config::dup_whitelist(&config.whitelist_mint_settings),
            hidden_settings: crate::config::dup_hidden(&config.hidden_settings),
            items_available: config.number,
            gatekeeper: crate::config::dup_gatekeeper(&config.gatekeeper),
        },
    )
}

/// The size the target account must be allocated with.
pub open spec fn spec_account_size(items: int, hidden: bool) -> int {
    if hidden {
        crate::magic_hat::CONFIG_ARRAY_START as int
    } else {
        crate::magic_hat::CONFIG_ARRAY_START + 4 + items * crate::magic_hat::CONFIG_LINE_SIZE + 8
            + 2 * (items / 8 + 1)
    }
}

/// The size the target account must be allocated with: with hidden settings a
/// fixed header, else the header plus one config line slot per item and the
/// two availability bitmasks.
pub fn magic_hat_account_size(items_available: u64, hidden: bool) -> (size: u64)
    requires
        items_available <= 0xffff_ffff,
    ensures
        size as int == spec_account_size(items_available as int, hidden),
{
    if hidden {
        crate::magic_hat::CONFIG_ARRAY_START as u64
    } else {
        proof {
            assert(crate::magic_hat::CONFIG_LINE_SIZE == 240);
            assert(items_available * 240 <= 0xffff_ffff * 240u64) by (nonlinear_arith)
                requires
                    items_available <= 0xffff_ffff,
            ;
            assert(items_available * (crate::magic_hat::CONFIG_LINE_SIZE as u64) == items_available
                * 240);
        }
        crate::magic_hat::CONFIG_ARRAY_START as u64 + 4 + items_available
            * (crate::magic_hat::CONFIG_LINE_SIZE as u64) + 8 + 2 * (items_available / 8 + 1)
    }
}

/// Whether the payer can fund the target account: the rent-exempt minimum
/// must not exceed the balance.
pub fn check_deploy_balance(lamports_required: u64, balance: u64) -> (r: Result<(), DeployError>)
    ensures
        r is Ok <==> lamports_required <= balance,
        r matches Err(e) ==> e == DeployError::BalanceTooLow(balance, lamports_required),
{
    if lamports_required > balance {
        Err(DeployError::BalanceTooLow(balance, lamports_required))
    } else {
        Ok(())
    }
}

/// Choose the treasury wallet the target pays proceeds to. With a payment
/// token configured, a sol treasury is a conflict and the configured token
/// account (or, failing that, the payer's associated token account, derived
/// by the host) receives; with none, the configured sol treasury or else the
/// payer's own key.
pub fn select_treasury_wallet(
    spl_token: &Option<String>,
    spl_token_account: &Option<String>,
    sol_treasury_account: &Option<String>,
    associated_token_account: &Option<String>,
    payer: &String,
) -> (r: Result<String, DeployError>)
    ensures
        match r {
            Ok(w) => match spl_token {
                Some(_) => sol_treasury_account is None && (match spl_token_account {
                    Some(t) => w == t,
                    None => associated_token_account matches Some(a) && w == a,
                }),
                None => match sol_treasury_account {
                    Some(s) => w == s,
                    None => w == payer,
                },
            },
            Err(e) => spl_token is Some && (match sol_treasury_account {
                Some(_) => e == DeployError::TreasuryConflict,
                None => spl_token_account is None && associated_token_account is None && e
                    == DeployError::MissingTokenAccount,
            }),
        },
{
    match spl_token {
        Some(_) => {
            if sol_treasury_account.is_some() {
                return Err(DeployError::TreasuryConflict);
            }
            match spl_token_account {
                Some(t) => Ok(t.clone()),
                None => match associated_token_account {
                    Some(a) => Ok(a.clone()),
                    None => Err(DeployError::MissingTokenAccount),
                },
            }
        },
        None => match sol_treasury_account {
            Some(s) => Ok(s.clone()),
            None => Ok(payer.clone()),
        },
    }
}

/// Split one batch for submission: the start index the contiguous run is
/// written at, the indices in order, and the config lines in order.
pub fn split_batch(chunk: &Vec<(u32, ConfigLine)>) -> (r: (u32, Vec<u32>, Vec<ConfigLine>))
    requires
        chunk@.len() > 0,
    ensures
        r.0 == chunk@[0].0,
        r.1@ == batch_indices(chunk@),
        r.2@.len() == chunk@.len(),
        forall|t: int|
            0 <= t < chunk@.len() ==> (#[trigger] r.2@[t]).name == chunk@[t].1.name
                && r.2@[t].uri == chunk@[t].1.uri,
{
    let start_index = chunk[0].0;
    let mut indices: Vec<u32> = Vec::new();
    let mut config_lines: Vec<ConfigLine> = Vec::new();
    let mut t: usize = 0;
    while t < chunk.len()
        invariant
            t <= chunk@.len(),
            indices@ == batch_indices(chunk@.take(t as int)),
            config_lines@.len() == t,
            forall|w: int|
                0 <= w < t ==> (#[trigger] config_lines@[w]).name == chunk@[w].1.name
                    && config_lines@[w].uri == chunk@[w].1.uri,
        decreases chunk@.len() - t,
    {
        proof {
            assert(chunk@.take(t + 1).drop_last() =~= chunk@.take(t as int));
            assert(chunk@.take(t + 1).last() == chunk@[t as int]);
        }
        let entry = &chunk[t];
        indices.push(entry.0);
        config_lines.push(ConfigLine { name: entry.1.name.clone(), uri: entry.1.uri.clone() });
        t = t + 1;
    }
    proof {
        assert(chunk@.take(chunk@.len() as int) =~= chunk@);
    }
    (start_index, indices, config_lines)
}

/// Law: an already-accepted record never appears inside any batch of the
/// plan.
pub proof fn lemma_plan_skips_accepted(items: Seq<CacheItem>, n: int)
    requires
        0 <= n <= items.len(),
        n <= 0x1_0000_0000,
    ensures
        forall|j: int, k: int|
            0 <= j < spec_plan(items, n).len() && 0 <= k < spec_plan(items, n)[j].len()
                ==> !items[(#[trigger] spec_plan(items, n)[j][k]).0 as int].on_chain,
{
    lemma_plan_batches_wf(items, n);
    assert forall|j: int, k: int|
        0 <= j < spec_plan(items, n).len() && 0 <= k < spec_plan(items, n)[j].len()
            implies !items[(#[trigger] spec_plan(items, n)[j][k]).0 as int].on_chain by {
        assert(batch_wf(items, n, spec_plan(items, n)[j]));
        assert(entry_ok(items, n, spec_plan(items, n)[j][k]));
    }
}

/// Law: the plan's batches, concatenated, carry strictly ascending indices.
pub proof fn lemma_plan_ascending(items: Seq<CacheItem>, n: int)
    requires
        0 <= n <= items.len(),
        n <= 0x1_0000_0000,
    ensures
        forall|a: int, b: int|
            0 <= a < b < plan_indices(spec_plan(items, n)).len() ==> plan_indices(
                spec_plan(items, n),
            )[a] < plan_indices(spec_plan(items, n))[b],
{
    lemma_plan_covers_unaccepted(items, n);
    lemma_unaccepted_ascending(items, n);
}

/// Law: every batch of the plan carries one contiguous run of indices — the
/// target writes each batch at a single index offset with no gaps.
pub proof fn lemma_plan_batches_contiguous(items: Seq<CacheItem>, n: int)
    requires
        0 <= n <= items.len(),
        n <= 0x1_0000_0000,
    ensures
        forall|j: int|
            0 <= j < spec_plan(items, n).len() ==> batch_contiguous(#[trigger] spec_plan(items, n)[j]),
{
    lemma_plan_batches_wf(items, n);
}

/// Whether the configured number of items matches the store.
pub fn check_item_count(num_items: u64, cache_items: &CacheItems) -> (r: Result<(), DeployError>)
    ensures
        r is Ok <==> num_items == cache_items.0@.len(),
        r matches Err(e) ==> e == DeployError::ItemCountMismatch(
            num_items,
            cache_items.0@.len() as u64,
        ),
{
    if num_items != cache_items.0.len() as u64 {
        Err(DeployError::ItemCountMismatch(num_items, cache_items.0.len() as u64))
    } else {
        Ok(())
    }
}

/// Law: records that pass the pre-deployment checks serialize to at most the
/// transaction byte ceiling, so every batch planned over them fits it — the
/// oversized-record escape hatch never fires on a validated store.
pub proof fn lemma_checked_items_within_ceiling(items: Seq<CacheItem>, n: int)
    requires
        0 <= n <= items.len(),
        n <= 0x1_0000_0000,
        forall|i: int| 0 <= i < items.len() ==> cache_item_ok(#[trigger] items[i]),
    ensures
        forall|j: int| 0 <= j < spec_plan(items, n).len() ==> batch_bytes(
            #[trigger] spec_plan(items, n)[j],
        ) <= MAX_TRANSACTION_BYTES,
{
    assert forall|i: int| 0 <= i < n implies item_size(#[trigger] items[i])
        <= MAX_TRANSACTION_BYTES by {
        assert(cache_item_ok(items[i]));
    }
    lemma_plan_within_byte_ceiling(items, n);
}

} // verus!
