//! The chunk scheduler: accumulates the samples that each poll brings and
//! cuts a chunk of fixed length from the front whenever enough have come
//! together.

use vstd::prelude::*;
use crate::buffer::split_front;
use crate::sample::Sample;

verus! {

/// One chunk as cut by the scheduler: its index in the session, its
/// samples, and its place in time.
#[derive(Debug)]
pub struct ChunkWindow {
    pub index: u64,
    pub samples: Vec<Sample>,
    pub start_ms: u128,
    pub end_ms: u128,
    pub duration_ms: u128,
}

/// What one poll does to the scheduler.
pub ghost struct Step {
    /// The chunk that was cut, if one was: its index and its samples.
    pub cut: Option<(nat, Seq<Sample>)>,
    /// The number of chunks cut so far, after the poll.
    pub index: nat,
    /// The samples that wait for the next chunk, after the poll.
    pub pending: Seq<Sample>,
}

/// One poll: `incoming` goes behind `pending`; where that makes at least
/// `target` samples, the first `target` of them leave as the chunk with the
/// next index. A poll that brings nothing changes nothing.
pub open spec fn step(target: nat, index: nat, pending: Seq<Sample>, incoming: Seq<Sample>) -> Step {
    if incoming.len() == 0 {
        Step { cut: None, index: index, pending: pending }
    } else {
        let all = pending + incoming;
        if all.len() >= target {
            Step {
                cut: Some((index + 1, all.take(target as int))),
                index: index + 1,
                pending: all.skip(target as int),
            }
        } else {
            Step { cut: None, index: index, pending: all }
        }
    }
}

/// The outcome of a run of polls.
pub ghost struct Run {
    /// The chunks cut, in the order in which they were cut.
    pub chunks: Seq<(nat, Seq<Sample>)>,
    /// The number of chunks cut so far, after the run.
    pub index: nat,
    /// The samples that wait for the next chunk, after the run.
    pub pending: Seq<Sample>,
}

/// A run of polls, one for each entry of `polls`, from the state `index`,
/// `pending`.
pub open spec fn run(target: nat, index: nat, pending: Seq<Sample>, polls: Seq<Seq<Sample>>) -> Run
    decreases polls.len(),
{
    if polls.len() == 0 {
        Run { chunks: Seq::empty(), index: index, pending: pending }
    } else {
        let before = run(target, index, pending, polls.drop_last());
        let last = step(target, before.index, before.pending, polls.last());
        Run {
            chunks: match last.cut {
                Some(c) => before.chunks.push(c),
                None => before.chunks,
            },
            index: last.index,
            pending: last.pending,
        }
    }
}

/// All samples of `parts`, one part after the other.
pub open spec fn joined(parts: Seq<Seq<Sample>>) -> Seq<Sample>
    decreases parts.len(),
{
    if parts.len() == 0 {
        Seq::<Sample>::empty()
    } else {
        joined(parts.drop_last()) + parts.last()
    }
}

/// The samples of a sequence of chunks.
pub open spec fn samples_of(chunks: Seq<(nat, Seq<Sample>)>) -> Seq<Seq<Sample>> {
    chunks.map_values(|c: (nat, Seq<Sample>)| c.1)
}

/// Every chunk of a run holds exactly `target` samples.
pub proof fn lemma_chunks_have_target_length(
    target: nat,
    index: nat,
    pending: Seq<Sample>,
    polls: Seq<Seq<Sample>>,
)
    ensures
        forall|k: int|
            0 <= k < run(target, index, pending, polls).chunks.len() ==> (#[trigger] run(
                target,
                index,
                pending,
                polls,
            ).chunks[k]).1.len() == target,
    decreases polls.len(),
{
    if polls.len() > 0 {
        lemma_chunks_have_target_length(target, index, pending, polls.drop_last());
        let before = run(target, index, pending, polls.drop_last());
        let after = run(target, index, pending, polls);
        let last = step(target, before.index, before.pending, polls.last());
        assert forall|k: int| 0 <= k < after.chunks.len() implies (#[trigger] after.chunks[k]).1.len()
            == target by {
            if k < before.chunks.len() {
                assert(after.chunks[k] == before.chunks[k]);
            } else {
                let all = before.pending + polls.last();
                assert(last.cut == Some((before.index + 1, all.take(target as int))));
                assert(after.chunks[k] == (before.index + 1, all.take(target as int)));
            }
        }
    }
}

/// The chunks of a run are numbered one by one without a gap: chunk `k` of
/// a run that starts after `index` chunks has index `index + k + 1`, and
/// the run ends with as many chunks counted as were cut. A session starts
/// at `index == 0`, so its first chunk is chunk 1.
pub proof fn lemma_chunk_indices_gap_free(
    target: nat,
    index: nat,
    pending: Seq<Sample>,
    polls: Seq<Seq<Sample>>,
)
    ensures
        run(target, index, pending, polls).index == index + run(
            target,
            index,
            pending,
            polls,
        ).chunks.len(),
        forall|k: int|
            0 <= k < run(target, index, pending, polls).chunks.len() ==> (#[trigger] run(
                target,
                index,
                pending,
                polls,
            ).chunks[k]).0 == index + k + 1,
    decreases polls.len(),
{
    if polls.len() > 0 {
        lemma_chunk_indices_gap_free(target, index, pending, polls.drop_last());
    }
}

/// No sample is lost, doubled or moved: the chunks of a run, one after the
/// other, followed by what still waits, are what waited before followed by
/// what the polls brought.
pub proof fn lemma_samples_preserved(
    target: nat,
    index: nat,
    pending: Seq<Sample>,
    polls: Seq<Seq<Sample>>,
)
    ensures
        joined(samples_of(run(target, index, pending, polls).chunks)) + run(
            target,
            index,
            pending,
            polls,
        ).pending == pending + joined(polls),
    decreases polls.len(),
{
    if polls.len() == 0 {
        assert(samples_of(Seq::<(nat, Seq<Sample>)>::empty()) =~= Seq::<Seq<Sample>>::empty());
        assert(joined(Seq::<Seq<Sample>>::empty()) + pending =~= pending + joined(polls));
    } else {
        lemma_samples_preserved(target, index, pending, polls.drop_last());
        let before = run(target, index, pending, polls.drop_last());
        let after = run(target, index, pending, polls);
        let incoming = polls.last();
        let last = step(target, before.index, before.pending, incoming);
        let all = before.pending + incoming;
        match last.cut {
            Some(c) => {
                assert(samples_of(after.chunks) =~= samples_of(before.chunks).push(c.1));
                assert(samples_of(after.chunks).drop_last() =~= samples_of(before.chunks));
                assert(c.1 + after.pending =~= all);
                assert(joined(samples_of(after.chunks)) + after.pending =~= joined(
                    samples_of(before.chunks),
                ) + (c.1 + after.pending));
                assert(joined(samples_of(before.chunks)) + all =~= (joined(
                    samples_of(before.chunks),
                ) + before.pending) + incoming);
                assert((pending + joined(polls.drop_last())) + incoming =~= pending + joined(
                    polls,
                ));
            },
            None => {
                if incoming.len() == 0 {
                    assert(joined(polls) =~= joined(polls.drop_last()));
                } else {
                    assert(joined(samples_of(before.chunks)) + all =~= (joined(
                        samples_of(before.chunks),
                    ) + before.pending) + incoming);
                    assert((pending + joined(polls.drop_last())) + incoming =~= pending + joined(
                        polls,
                    ));
                }
            },
        }
    }
}

/// What a chunk holds does not depend on how the samples are spread over
/// the polls: chunk `k` of a run holds the samples from `k * target` up to
/// `(k + 1) * target` of the stream, which is what waited followed by what
/// the polls brought. Polls that come early, late or empty change when a
/// chunk is cut, not what is in it.
pub proof fn lemma_chunks_are_windows_of_the_stream(
    target: nat,
    index: nat,
    pending: Seq<Sample>,
    polls: Seq<Seq<Sample>>,
)
    ensures
        joined(samples_of(run(target, index, pending, polls).chunks)).len() == run(
            target,
            index,
            pending,
            polls,
        ).chunks.len() * target,
        run(target, index, pending, polls).chunks.len() * target <= (pending + joined(polls)).len(),
        forall|k: int|
            0 <= k < run(target, index, pending, polls).chunks.len() ==> (#[trigger] run(
                target,
                index,
                pending,
                polls,
            ).chunks[k]).1 == (pending + joined(polls)).subrange(k * target, (k + 1) * target),
    decreases polls.len(),
{
    let after = run(target, index, pending, polls);
    let stream = pending + joined(polls);
    if polls.len() == 0 {
        assert(samples_of(after.chunks) =~= Seq::<Seq<Sample>>::empty());
        assert(after.chunks.len() * target == 0) by (nonlinear_arith)
            requires
                after.chunks.len() == 0,
        ;
    } else {
        let earlier = polls.drop_last();
        let incoming = polls.last();
        lemma_chunks_are_windows_of_the_stream(target, index, pending, earlier);
        lemma_samples_preserved(target, index, pending, earlier);
        let before = run(target, index, pending, earlier);
        let stream_before = pending + joined(earlier);
        let held = joined(samples_of(before.chunks));
        let n = before.chunks.len() as int;
        assert(stream =~= stream_before + incoming);
        assert(held + before.pending == stream_before);
        assert(held.len() == n * target);
        let last = step(target, before.index, before.pending, incoming);
        let all = before.pending + incoming;
        match last.cut {
            Some(c) => {
                assert(after.chunks == before.chunks.push(c));
                assert(samples_of(after.chunks) =~= samples_of(before.chunks).push(c.1));
                assert(samples_of(after.chunks).drop_last() =~= samples_of(before.chunks));
                assert(c.1 == all.take(target as int));
                assert((n + 1) * target == n * target + target) by (nonlinear_arith);
                assert(stream =~= held + all);
                assert(all.len() >= target);
                assert(stream.len() == held.len() + all.len());
                assert(c.1 =~= stream.subrange(n * target, (n + 1) * target));
            },
            None => {
                assert(after.chunks == before.chunks);
            },
        }
        assert forall|k: int| 0 <= k < after.chunks.len() implies (#[trigger] after.chunks[k]).1
            == stream.subrange(k * target, (k + 1) * target) by {
            if k < n {
                assert(after.chunks[k] == before.chunks[k]);
                assert((k + 1) * target <= n * target) by (nonlinear_arith)
                    requires
                        k + 1 <= n,
                        target >= 0,
                ;
                assert(0 <= k * target <= (k + 1) * target) by (nonlinear_arith)
                    requires
                        0 <= k,
                        target >= 0,
                ;
                assert(stream_before.subrange(k * target, (k + 1) * target) =~= stream.subrange(
                    k * target,
                    (k + 1) * target,
                ));
            } else {
                assert(last.cut is Some);
                assert(after.chunks[k] == last.cut->0);
                assert((n + 1) * target == n * target + target) by (nonlinear_arith);
            }
        }
    }
}

/// The scheduler of one session.
pub struct ChunkScheduler {
    sample_rate: u32,
    chunk_secs: u64,
    target: usize,
    accumulated: Vec<Sample>,
    index: u64,
}

impl ChunkScheduler {
    /// The chunk length is the product of rate and duration, and the
    /// duration in milliseconds fits in 64 bits.
    pub closed spec fn wf(&self) -> bool {
        &&& self.target == self.sample_rate * self.chunk_secs
        &&& self.chunk_secs * 1000 <= u64::MAX
    }

    /// The sample rate of the session.
    pub closed spec fn rate(&self) -> nat {
        self.sample_rate as nat
    }

    /// The duration of a chunk in seconds.
    pub closed spec fn seconds(&self) -> nat {
        self.chunk_secs as nat
    }

    /// The number of samples in a chunk.
    pub open spec fn target(&self) -> nat {
        self.rate() * self.seconds()
    }

    /// The number of chunks cut so far.
    pub closed spec fn chunks_cut(&self) -> nat {
        self.index as nat
    }

    /// The samples that wait for the next chunk.
    pub closed spec fn pending(&self) -> Seq<Sample> {
        self.accumulated@
    }

    /// Whether a scheduler can be made for these parameters: the chunk
    /// length fits the machine's sizes and the chunk duration in
    /// milliseconds fits in 64 bits.
    pub open spec fn representable(sample_rate: u32, chunk_secs: u64) -> bool {
        sample_rate * chunk_secs <= usize::MAX && chunk_secs * 1000 <= u64::MAX
    }

    /// A scheduler at the start of a session: nothing waits and no chunk
    /// was cut. The result is `None` exactly where the parameters are not
    /// representable.
    pub fn new(sample_rate: u32, chunk_secs: u64) -> (r: Option<Self>)
        ensures
            r is Some <==> Self::representable(sample_rate, chunk_secs),
            r matches Some(s) ==> s.wf() && s.rate() == sample_rate && s.seconds() == chunk_secs
                && s.chunks_cut() == 0 && s.pending() == Seq::<Sample>::empty(),
    {
        if chunk_secs > u64::MAX / 1000 {
            return None;
        }
        proof {
            assert(sample_rate * chunk_secs <= u32::MAX * u64::MAX) by (nonlinear_arith)
                requires
                    0 <= sample_rate <= u32::MAX,
                    0 <= chunk_secs <= u64::MAX,
            ;
        }
        let product: u128 = (sample_rate as u128) * (chunk_secs as u128);
        if product > usize::MAX as u128 {
            return None;
        }
        Some(
            ChunkScheduler {
                sample_rate,
                chunk_secs,
                target: product as usize,
                accumulated: Vec::new(),
                index: 0,
            },
        )
    }

    /// The number of samples in a chunk.
    pub fn target_samples(&self) -> (r: usize)
        requires
            self.wf(),
        ensures
            r == self.target(),
    {
        self.target
    }

    /// The most samples that one poll asks for: a fifth of a chunk.
    pub fn poll_quota(&self) -> (r: usize)
        requires
            self.wf(),
        ensures
            r == self.target() / 5,
    {
        self.target / 5
    }

    /// The number of chunks cut so far.
    pub fn chunk_index(&self) -> (r: u64)
        ensures
            r == self.chunks_cut(),
    {
        self.index
    }

    /// The number of samples that wait for the next chunk.
    pub fn pending_len(&self) -> (r: usize)
        ensures
            r == self.pending().len(),
    {
        self.accumulated.len()
    }

    /// Takes the samples of one poll. Where enough samples have come
    /// together, exactly one chunk length leaves from the front as the chunk
    /// with the next index; what is left over waits for the next chunk. A
    /// chunk spans `chunk_secs` seconds and follows its predecessor without
    /// a gap in time.
    pub fn accept(&mut self, new_samples: Vec<Sample>) -> (r: Option<ChunkWindow>)
        requires
            old(self).wf(),
            old(self).chunks_cut() < u64::MAX,
        ensures
            final(self).wf(),
            final(self).rate() == old(self).rate(),
            final(self).seconds() == old(self).seconds(),
            final(self).chunks_cut() == step(
                old(self).target(),
                old(self).chunks_cut(),
                old(self).pending(),
                new_samples@,
            ).index,
            final(self).pending() == step(
                old(self).target(),
                old(self).chunks_cut(),
                old(self).pending(),
                new_samples@,
            ).pending,
            match r {
                Some(w) => step(
                    old(self).target(),
                    old(self).chunks_cut(),
                    old(self).pending(),
                    new_samples@,
                ).cut == Some((w.index as nat, w.samples@)),
                None => step(
                    old(self).target(),
                    old(self).chunks_cut(),
                    old(self).pending(),
                    new_samples@,
                ).cut is None,
            },
            r matches Some(w)
                ==> w.index == old(self).chunks_cut() + 1
                && w.samples.len() == old(self).rate() * old(self).seconds()
                && w.duration_ms == old(self).seconds() * 1000
                && w.start_ms == (w.index - 1) * old(self).seconds() * 1000 && w.end_ms == w.index
                * old(self).seconds() * 1000 && w.end_ms - w.start_ms == w.duration_ms,
    {
        if new_samples.len() == 0 {
            return None;
        }
        let mut incoming = new_samples;
        self.accumulated.append(&mut incoming);
        if self.accumulated.len() >= self.target {
            let samples = split_front(&mut self.accumulated, self.target);
            self.index = self.index + 1;
            let duration_ms: u128 = (self.chunk_secs as u128) * 1000;
            proof {
                assert((self.index - 1) * duration_ms <= u64::MAX * u64::MAX) by (nonlinear_arith)
                    requires
                        0 <= self.index - 1 <= u64::MAX,
                        0 <= duration_ms <= u64::MAX,
                ;
                assert(self.index * duration_ms <= u64::MAX * u64::MAX) by (nonlinear_arith)
                    requires
                        0 <= self.index <= u64::MAX,
                        0 <= duration_ms <= u64::MAX,
                ;
                assert(u64::MAX * u64::MAX <= u128::MAX) by (nonlinear_arith);
                assert((self.index - 1) * self.chunk_secs * 1000 == (self.index - 1) * duration_ms)
                    by (nonlinear_arith)
                    requires
                        duration_ms == self.chunk_secs * 1000,
                ;
                assert(self.index * self.chunk_secs * 1000 == self.index * duration_ms)
                    by (nonlinear_arith)
                    requires
                        duration_ms == self.chunk_secs * 1000,
                ;
                assert(self.index * duration_ms - (self.index - 1) * duration_ms == duration_ms)
                    by (nonlinear_arith);
            }
            let start_ms: u128 = ((self.index - 1) as u128) * duration_ms;
            let end_ms: u128 = (self.index as u128) * duration_ms;
            Some(ChunkWindow { index: self.index, samples, start_ms, end_ms, duration_ms })
        } else {
            None
        }
    }
}

} // verus!
