//! Whole runs of the batcher: which batches are offered to which shard, and
//! what holds of them whatever the shards' queues answer.
use crate::batcher::{BatcherState, Offer};
use vstd::arithmetic::div_mod::{lemma_add_mod_noop_right, lemma_fundamental_div_mod_converse};
use vstd::prelude::*;

verus! {

/// One offer of a batch to a shard's queue, with the queue's answer.
pub struct Attempt<T> {
    /// The batch and the shard it was offered to.
    pub offer: Offer<T>,
    /// Whether the queue took it. A refused batch is dropped.
    pub accepted: bool,
}

/// The batcher after `lines` were pushed one by one, starting from `start`.
/// `accepted[i]` is the answer of the queue if line `i` completed a batch.
pub open spec fn state_after<T>(
    start: BatcherState<T>,
    lines: Seq<T>,
    accepted: Seq<bool>,
) -> BatcherState<T>
    decreases lines.len(),
{
    if lines.len() == 0 {
        start
    } else {
        let before = state_after(start, lines.drop_last(), accepted.drop_last());
        let pushed = before.after_push(lines.last());
        if before.fills() && accepted.last() {
            pushed.after_delivery()
        } else {
            pushed
        }
    }
}

/// The offers made while `lines` were pushed, in order.
pub open spec fn attempts<T>(
    start: BatcherState<T>,
    lines: Seq<T>,
    accepted: Seq<bool>,
) -> Seq<Attempt<T>>
    decreases lines.len(),
{
    if lines.len() == 0 {
        Seq::empty()
    } else {
        let before = state_after(start, lines.drop_last(), accepted.drop_last());
        let earlier = attempts(start, lines.drop_last(), accepted.drop_last());
        match before.shipped_by_push(lines.last()) {
            Some(offer) => earlier.push(Attempt { offer, accepted: accepted.last() }),
            None => earlier,
        }
    }
}

/// All lines of `tries`, batch after batch.
pub open spec fn offered_lines<T>(tries: Seq<Attempt<T>>) -> Seq<T>
    decreases tries.len(),
{
    if tries.len() == 0 {
        Seq::empty()
    } else {
        offered_lines(tries.drop_last()) + tries.last().offer.lines
    }
}

/// The lines that reach shard `shard`: those of the batches that its queue
/// took, in the order the batches arrived.
pub open spec fn shard_stream<T>(tries: Seq<Attempt<T>>, shard: int) -> Seq<T>
    decreases tries.len(),
{
    if tries.len() == 0 {
        Seq::empty()
    } else if tries.last().accepted && tries.last().offer.shard == shard {
        shard_stream(tries.drop_last(), shard) + tries.last().offer.lines
    } else {
        shard_stream(tries.drop_last(), shard)
    }
}

/// Number of lines in the batches that some queue took.
pub open spec fn accepted_lines<T>(tries: Seq<Attempt<T>>) -> nat
    decreases tries.len(),
{
    if tries.len() == 0 {
        0
    } else {
        accepted_lines(tries.drop_last()) + if tries.last().accepted {
            tries.last().offer.lines.len()
        } else {
            0nat
        }
    }
}

/// Number of batches among `tries` that a queue took.
pub open spec fn accepted_count<T>(tries: Seq<Attempt<T>>) -> nat
    decreases tries.len(),
{
    if tries.len() == 0 {
        0
    } else {
        accepted_count(tries.drop_last()) + if tries.last().accepted {
            1nat
        } else {
            0nat
        }
    }
}

/// `a` can be had from `b` by leaving elements out.
pub open spec fn is_subsequence<T>(a: Seq<T>, b: Seq<T>) -> bool
    decreases b.len(),
{
    if a.len() == 0 {
        true
    } else if b.len() == 0 {
        false
    } else {
        (a.last() == b.last() && is_subsequence(a.drop_last(), b.drop_last())) || is_subsequence(
            a,
            b.drop_last(),
        )
    }
}

/// Appending the same elements to both sides keeps a subsequence.
pub proof fn lemma_subsequence_extend_both<T>(a: Seq<T>, b: Seq<T>, c: Seq<T>)
    requires
        is_subsequence(a, b),
    ensures
        is_subsequence(a + c, b + c),
    decreases c.len(),
{
    if c.len() == 0 {
        assert(a + c =~= a);
        assert(b + c =~= b);
    } else {
        lemma_subsequence_extend_both(a, b, c.drop_last());
        assert((a + c).drop_last() =~= a + c.drop_last());
        assert((b + c).drop_last() =~= b + c.drop_last());
        assert((a + c).last() == (b + c).last());
    }
}

/// Appending elements to the longer side keeps a subsequence.
pub proof fn lemma_subsequence_extend_right<T>(a: Seq<T>, b: Seq<T>, c: Seq<T>)
    requires
        is_subsequence(a, b),
    ensures
        is_subsequence(a, b + c),
    decreases c.len(),
{
    if c.len() == 0 {
        assert(b + c =~= b);
    } else {
        lemma_subsequence_extend_right(a, b, c.drop_last());
        assert((b + c).drop_last() =~= b + c.drop_last());
    }
}

/// Nothing is lost or reordered on the way into batches: the batches offered
/// so far, followed by the lines still waiting, are the lines that were
/// waiting at the start followed by the lines pushed.
pub proof fn lemma_lines_conserved<T>(start: BatcherState<T>, lines: Seq<T>, accepted: Seq<bool>)
    requires
        accepted.len() == lines.len(),
    ensures
        offered_lines(attempts(start, lines, accepted)) + state_after(
            start,
            lines,
            accepted,
        ).batch == start.batch + lines,
        state_after(start, lines, accepted).batch_size == start.batch_size,
        state_after(start, lines, accepted).num_writers == start.num_writers,
    decreases lines.len(),
{
    if lines.len() == 0 {
        assert(Seq::<T>::empty() + start.batch =~= start.batch + lines);
    } else {
        let front = lines.drop_last();
        let answers = accepted.drop_last();
        lemma_lines_conserved(start, front, answers);
        let before = state_after(start, front, answers);
        let earlier = attempts(start, front, answers);
        let now = attempts(start, lines, accepted);
        assert(start.batch + lines =~= (start.batch + front).push(lines.last()));
        if before.fills() {
            assert(now.drop_last() =~= earlier);
            assert(offered_lines(now) + Seq::<T>::empty() =~= (offered_lines(earlier)
                + before.batch).push(lines.last()));
        } else {
            assert(offered_lines(earlier) + before.batch.push(lines.last()) =~= (offered_lines(
                earlier,
            ) + before.batch).push(lines.last()));
        }
    }
}

/// Per-shard order: what reaches a shard is a subsequence of what was read.
pub proof fn lemma_shard_order<T>(
    start: BatcherState<T>,
    lines: Seq<T>,
    accepted: Seq<bool>,
    shard: int,
)
    requires
        accepted.len() == lines.len(),
    ensures
        is_subsequence(shard_stream(attempts(start, lines, accepted), shard), start.batch + lines),
{
    let tries = attempts(start, lines, accepted);
    lemma_stream_within_offers(tries, shard);
    lemma_lines_conserved(start, lines, accepted);
    lemma_subsequence_extend_right(
        shard_stream(tries, shard),
        offered_lines(tries),
        state_after(start, lines, accepted).batch,
    );
}

/// A shard's stream is a subsequence of all the lines offered.
pub proof fn lemma_stream_within_offers<T>(tries: Seq<Attempt<T>>, shard: int)
    ensures
        is_subsequence(shard_stream(tries, shard), offered_lines(tries)),
    decreases tries.len(),
{
    if tries.len() > 0 {
        let earlier = tries.drop_last();
        lemma_stream_within_offers(earlier, shard);
        if tries.last().accepted && tries.last().offer.shard == shard {
            lemma_subsequence_extend_both(
                shard_stream(earlier, shard),
                offered_lines(earlier),
                tries.last().offer.lines,
            );
        } else {
            lemma_subsequence_extend_right(
                shard_stream(earlier, shard),
                offered_lines(earlier),
                tries.last().offer.lines,
            );
        }
    }
}

/// Turn taking: each batch is offered to the shard that lies as many turns
/// behind the first one as batches were taken before it. A refused batch
/// leaves the turn where it was.
pub proof fn lemma_turns<T>(start: BatcherState<T>, lines: Seq<T>, accepted: Seq<bool>)
    requires
        start.wf(),
        accepted.len() == lines.len(),
    ensures
        state_after(start, lines, accepted).wf(),
        state_after(start, lines, accepted).writer_index == (start.writer_index + accepted_count(
            attempts(start, lines, accepted),
        )) % start.num_writers,
        forall|k: int|
            0 <= k < attempts(start, lines, accepted).len() ==> (#[trigger] attempts(
                start,
                lines,
                accepted,
            )[k]).offer.shard == (start.writer_index + accepted_count(
                attempts(start, lines, accepted).subrange(0, k),
            )) % start.num_writers,
    decreases lines.len(),
{
    let n = start.num_writers;
    let now = attempts(start, lines, accepted);
    if lines.len() == 0 {
        assert(start.writer_index % n == start.writer_index) by (nonlinear_arith)
            requires
                0 <= start.writer_index < n,
        ;
    } else {
        let front = lines.drop_last();
        let answers = accepted.drop_last();
        lemma_turns(start, front, answers);
        lemma_lines_conserved(start, front, answers);
        let before = state_after(start, front, answers);
        let earlier = attempts(start, front, answers);
        let taken = accepted_count(earlier);
        lemma_add_mod_noop_right(1, start.writer_index + taken, n);
        assert((before.writer_index + 1) % n == (start.writer_index + taken + 1) % n);
        assert(0 <= (before.writer_index + 1) % n < n) by (nonlinear_arith)
            requires
                n > 0,
        ;
        if before.fills() {
            let offer = Offer { shard: before.writer_index, lines: before.batch.push(lines.last()) };
            assert(before.shipped_by_push(lines.last()) == Some(offer));
            assert(now == earlier.push(Attempt { offer, accepted: accepted.last() }));
            assert(now.drop_last() =~= earlier);
            assert(accepted_count(now) == taken + if accepted.last() {
                1nat
            } else {
                0nat
            });
            assert forall|k: int| 0 <= k < now.len() implies (#[trigger] now[k]).offer.shard == (
            start.writer_index + accepted_count(now.subrange(0, k))) % n by {
                if k < earlier.len() {
                    assert(now.subrange(0, k) =~= earlier.subrange(0, k));
                    assert(now[k] == earlier[k]);
                } else {
                    assert(now.subrange(0, k) =~= earlier);
                }
            }
        } else {
            assert(before.shipped_by_push(lines.last()) is None);
            assert(now == earlier);
        }
    }
}

/// Round-robin distribution: while no batch is refused, the batches of a
/// batcher that starts fresh go to shards 0, 1, 2, ... and around again.
pub proof fn lemma_round_robin<T>(
    batch_size: int,
    num_writers: int,
    lines: Seq<T>,
    accepted: Seq<bool>,
    k: int,
)
    requires
        0 <= batch_size,
        0 < num_writers,
        accepted.len() == lines.len(),
        forall|i: int| 0 <= i < accepted.len() ==> accepted[i],
        0 <= k < attempts(BatcherState::fresh(batch_size, num_writers), lines, accepted).len(),
    ensures
        attempts(BatcherState::fresh(batch_size, num_writers), lines, accepted)[k].offer.shard == k
            % num_writers,
{
    let start = BatcherState::<T>::fresh(batch_size, num_writers);
    let tries = attempts(start, lines, accepted);
    lemma_turns(start, lines, accepted);
    lemma_answers_kept(start, lines, accepted);
    lemma_all_accepted(tries.subrange(0, k));
}

/// Every attempt carries one of the answers given.
pub proof fn lemma_answers_kept<T>(start: BatcherState<T>, lines: Seq<T>, accepted: Seq<bool>)
    requires
        accepted.len() == lines.len(),
        forall|i: int| 0 <= i < accepted.len() ==> accepted[i],
    ensures
        forall|k: int|
            0 <= k < attempts(start, lines, accepted).len() ==> (#[trigger] attempts(
                start,
                lines,
                accepted,
            )[k]).accepted,
    decreases lines.len(),
{
    if lines.len() > 0 {
        let front = lines.drop_last();
        let answers = accepted.drop_last();
        lemma_answers_kept(start, front, answers);
        let before = state_after(start, front, answers);
        let earlier = attempts(start, front, answers);
        let now = attempts(start, lines, accepted);
        assert(accepted.last());
        if before.fills() {
            let offer = Offer { shard: before.writer_index, lines: before.batch.push(lines.last()) };
            assert(before.shipped_by_push(lines.last()) == Some(offer));
            assert(now == earlier.push(Attempt { offer, accepted: accepted.last() }));
            assert forall|k: int| 0 <= k < now.len() implies (#[trigger] now[k]).accepted by {
                if k < earlier.len() {
                    assert(now[k] == earlier[k]);
                }
            }
        } else {
            assert(before.shipped_by_push(lines.last()) is None);
            assert(now == earlier);
        }
    }
}

/// Where every batch was taken, as many were taken as were offered.
pub proof fn lemma_all_accepted<T>(tries: Seq<Attempt<T>>)
    requires
        forall|k: int| 0 <= k < tries.len() ==> (#[trigger] tries[k]).accepted,
    ensures
        accepted_count(tries) == tries.len(),
    decreases tries.len(),
{
    if tries.len() > 0 {
        lemma_all_accepted(tries.drop_last());
    }
}

/// Batch rollover: a batcher that starts fresh cuts the lines it is given
/// into consecutive runs of `batch_size` lines, one batch each, whatever the
/// queues answer; what is left over waits for the closing flush.
pub proof fn lemma_batches_are_slices<T>(
    batch_size: int,
    num_writers: int,
    lines: Seq<T>,
    accepted: Seq<bool>,
)
    requires
        1 <= batch_size,
        accepted.len() == lines.len(),
    ensures
        attempts(BatcherState::fresh(batch_size, num_writers), lines, accepted).len()
            == lines.len() as int / batch_size,
        forall|k: int|
            #![trigger attempts(BatcherState::fresh(batch_size, num_writers), lines, accepted)[k]]
            0 <= k < lines.len() as int / batch_size ==> attempts(
                BatcherState::fresh(batch_size, num_writers),
                lines,
                accepted,
            )[k].offer.lines == lines.subrange(k * batch_size, k * batch_size + batch_size),
        state_after(BatcherState::fresh(batch_size, num_writers), lines, accepted).batch
            == lines.subrange(
            lines.len() - lines.len() as int % batch_size,
            lines.len() as int,
        ),
    decreases lines.len(),
{
    let start = BatcherState::<T>::fresh(batch_size, num_writers);
    let now = attempts(start, lines, accepted);
    let size = batch_size;
    if lines.len() == 0 {
        assert(0int / size == 0 && 0int % size == 0) by (nonlinear_arith)
            requires
                size >= 1,
        ;
        assert(start.batch =~= lines.subrange(0, 0));
    } else {
        let front = lines.drop_last();
        let answers = accepted.drop_last();
        lemma_batches_are_slices(batch_size, num_writers, front, answers);
        lemma_lines_conserved(start, front, answers);
        let before = state_after(start, front, answers);
        let earlier = attempts(start, front, answers);
        let count = front.len() as int / size;
        let left = front.len() as int % size;
        assert(front.len() == count * size + left && 0 <= left < size && 0 <= count) by (nonlinear_arith)
            requires
                count == front.len() as int / size,
                left == front.len() as int % size,
                size >= 1,
        ;
        assert(before.batch.len() == left);
        if before.fills() {
            let offer = Offer { shard: before.writer_index, lines: before.batch.push(lines.last()) };
            assert(before.shipped_by_push(lines.last()) == Some(offer));
            assert(now == earlier.push(Attempt { offer, accepted: accepted.last() }));
            assert(lines.len() == (count + 1) * size + 0) by (nonlinear_arith)
                requires
                    lines.len() == count * size + left + 1,
                    left + 1 == size,
            ;
            lemma_fundamental_div_mod_converse(lines.len() as int, size, count + 1, 0);
            assert(offer.lines =~= lines.subrange(count * size, count * size + size)) by {
                assert(count * size + size == lines.len()) by (nonlinear_arith)
                    requires
                        lines.len() == (count + 1) * size + 0,
                ;
            }
            assert forall|k: int| 0 <= k < lines.len() as int / size implies (#[trigger] now[k]).offer.lines
                == lines.subrange(k * size, k * size + size) by {
                if k < count {
                    assert(now[k] == earlier[k]);
                    assert(0 <= k * size && k * size + size <= count * size) by (nonlinear_arith)
                        requires
                            0 <= k < count,
                            size >= 1,
                    ;
                    assert(front.subrange(k * size, k * size + size) =~= lines.subrange(
                        k * size,
                        k * size + size,
                    ));
                }
            }
            assert(state_after(start, lines, accepted).batch =~= lines.subrange(
                lines.len() as int,
                lines.len() as int,
            ));
        } else {
            assert(before.shipped_by_push(lines.last()) is None);
            assert(now == earlier);
            lemma_fundamental_div_mod_converse(lines.len() as int, size, count, left + 1);
            assert forall|k: int| 0 <= k < lines.len() as int / size implies (#[trigger] now[k]).offer.lines
                == lines.subrange(k * size, k * size + size) by {
                assert(0 <= k * size && k * size + size <= count * size) by (nonlinear_arith)
                    requires
                        0 <= k < count,
                        size >= 1,
                ;
                assert(front.subrange(k * size, k * size + size) =~= lines.subrange(
                    k * size,
                    k * size + size,
                ));
            }
            assert(before.batch.push(lines.last()) =~= lines.subrange(
                lines.len() - (left + 1),
                lines.len() as int,
            ));
        }
    }
}

/// Number of lines that reach the shards `0` to `shards - 1`, taken
/// together.
pub open spec fn stream_lengths<T>(tries: Seq<Attempt<T>>, shards: nat) -> nat
    decreases shards,
{
    if shards == 0 {
        0
    } else {
        stream_lengths(tries, (shards - 1) as nat) + shard_stream(tries, shards - 1).len()
    }
}

/// One more offer adds its lines to the streams of the first `shards`
/// shards if it was taken by one of them, and nothing otherwise.
pub proof fn lemma_stream_lengths_push<T>(tries: Seq<Attempt<T>>, shards: nat)
    requires
        tries.len() > 0,
    ensures
        stream_lengths(tries, shards) == stream_lengths(tries.drop_last(), shards) + if tries.last().accepted
            && 0 <= tries.last().offer.shard < shards {
            tries.last().offer.lines.len()
        } else {
            0nat
        },
    decreases shards,
{
    if shards > 0 {
        lemma_stream_lengths_push(tries, (shards - 1) as nat);
    }
}

/// One shard for each line: every line of a batch that was taken reaches
/// exactly one shard, so the streams of all shards together are as long as
/// the batches taken.
pub proof fn lemma_each_line_in_one_shard<T>(
    start: BatcherState<T>,
    lines: Seq<T>,
    accepted: Seq<bool>,
)
    requires
        start.wf(),
        accepted.len() == lines.len(),
    ensures
        stream_lengths(attempts(start, lines, accepted), start.num_writers as nat)
            == accepted_lines(attempts(start, lines, accepted)),
{
    let tries = attempts(start, lines, accepted);
    lemma_turns(start, lines, accepted);
    assert forall|k: int| 0 <= k < tries.len() implies 0 <= (#[trigger] tries[k]).offer.shard
        < start.num_writers by {
        let turn = start.writer_index + accepted_count(tries.subrange(0, k));
        assert(0 <= turn % start.num_writers < start.num_writers) by (nonlinear_arith)
            requires
                start.num_writers > 0,
        ;
    }
    lemma_streams_cover(tries, start.num_writers as nat);
}

/// Where every offer went to one of the first `shards` shards, their
/// streams together are as long as the batches taken.
pub proof fn lemma_streams_cover<T>(tries: Seq<Attempt<T>>, shards: nat)
    requires
        forall|k: int| 0 <= k < tries.len() ==> 0 <= (#[trigger] tries[k]).offer.shard < shards,
    ensures
        stream_lengths(tries, shards) == accepted_lines(tries),
    decreases tries.len(),
{
    if tries.len() == 0 {
        lemma_no_offers_no_streams::<T>(tries, shards);
    } else {
        let earlier = tries.drop_last();
        assert forall|k: int| 0 <= k < earlier.len() implies 0 <= (#[trigger] earlier[k]).offer.shard
            < shards by {
            assert(earlier[k] == tries[k]);
        }
        lemma_streams_cover(earlier, shards);
        lemma_stream_lengths_push(tries, shards);
        assert(tries.last() == tries[tries.len() - 1]);
    }
}

/// Without offers every stream is empty.
pub proof fn lemma_no_offers_no_streams<T>(tries: Seq<Attempt<T>>, shards: nat)
    requires
        tries.len() == 0,
    ensures
        stream_lengths(tries, shards) == 0,
    decreases shards,
{
    if shards > 0 {
        lemma_no_offers_no_streams(tries, (shards - 1) as nat);
    }
}

} // verus!
