//! Sample buffers: one per source, appended to by the stream of that source
//! and drained from the front by the mixer and the chunk scheduler.

use vstd::prelude::*;
use vstd::string::*;
use crate::idmap::IdMap;
use crate::sample::Sample;

verus! {

/// How many samples a drain takes from `available` samples under the limit
/// `max`: the limit, but never more than there are.
pub open spec fn take_count(available: nat, max: Option<usize>) -> nat {
    match max {
        Some(m) => if (m as nat) < available {
            m as nat
        } else {
            available
        },
        None => available,
    }
}

/// What a bounded append keeps of `held`: the newest `cap` samples.
pub open spec fn newest(held: Seq<Sample>, cap: nat) -> Seq<Sample> {
    if held.len() > cap {
        held.skip(held.len() - cap)
    } else {
        held
    }
}

/// Computes `take_count` on machine integers.
pub fn drain_count(available: usize, max: Option<usize>) -> (r: usize)
    ensures
        r == take_count(available as nat, max),
        r <= available,
{
    match max {
        Some(m) => if m < available {
            m
        } else {
            available
        },
        None => available,
    }
}

/// Removes the first `n` elements of `v` and returns them in order.
pub fn split_front(v: &mut Vec<Sample>, n: usize) -> (front: Vec<Sample>)
    requires
        n <= old(v).len(),
    ensures
        front@ == old(v)@.take(n as int),
        final(v)@ == old(v)@.skip(n as int),
{
    let mut rest = v.split_off(n);
    core::mem::swap(v, &mut rest);
    proof {
        assert(rest@ =~= old(v)@.take(n as int));
        assert(v@ =~= old(v)@.skip(n as int));
    }
    rest
}

/// The samples of one source that wait to be consumed, oldest first.
pub struct CaptureBuffer {
    samples: Vec<Sample>,
}

impl View for CaptureBuffer {
    type V = Seq<Sample>;

    closed spec fn view(&self) -> Seq<Sample> {
        self.samples@
    }
}

impl CaptureBuffer {
    /// An empty buffer.
    pub fn new() -> (r: Self)
        ensures
            r@ == Seq::<Sample>::empty(),
    {
        CaptureBuffer { samples: Vec::new() }
    }

    /// The number of samples held.
    pub fn len(&self) -> (r: usize)
        ensures
            r == self@.len(),
    {
        self.samples.len()
    }

    /// The sample at position `i`, counted from the oldest.
    pub fn sample_at(&self, i: usize) -> (r: Sample)
        requires
            i < self@.len(),
        ensures
            r == self@[i as int],
    {
        self.samples[i]
    }

    /// Adds `data` behind the samples held. Nothing is lost or reordered.
    pub fn append(&mut self, data: &[Sample])
        ensures
            final(self)@ == old(self)@ + data@,
    {
        let mut i: usize = 0;
        while i < data.len()
            invariant
                i <= data.len(),
                self.samples@ == old(self).samples@ + data@.take(i as int),
            decreases data.len() - i,
        {
            self.samples.push(data[i]);
            proof {
                assert(data@.take(i + 1) =~= data@.take(i as int).push(data@[i as int]));
                assert(self.samples@ =~= old(self).samples@ + data@.take(i + 1));
            }
            i = i + 1;
        }
        proof {
            assert(data@.take(data.len() as int) =~= data@);
        }
    }

    /// Adds `data` to a buffer bounded by `cap`: where more than `cap`
    /// samples are held, the oldest are dropped first, so that the newest
    /// `cap` stay; then `data` goes behind them.
    pub fn append_bounded(&mut self, data: &[Sample], cap: usize)
        ensures
            final(self)@ == newest(old(self)@, cap as nat) + data@,
    {
        let held = self.samples.len();
        if held > cap {
            split_front(&mut self.samples, held - cap);
        }
        self.append(data);
    }

    /// Removes up to `max_samples` samples from the front and returns them
    /// in order; without a limit, all of them. What is returned followed by
    /// what stays is what was held.
    pub fn drain(&mut self, max_samples: Option<usize>) -> (taken: Vec<Sample>)
        ensures
            taken@ == old(self)@.take(take_count(old(self)@.len(), max_samples) as int),
            final(self)@ == old(self)@.skip(take_count(old(self)@.len(), max_samples) as int),
            taken@ + final(self)@ == old(self)@,
            max_samples matches Some(m)
                && m >= old(self)@.len()
                ==> taken@ == old(self)@
                && final(self)@.len() == 0,
            max_samples is None ==> taken@ == old(self)@ && final(self)@.len() == 0,
    {
        let n = drain_count(self.samples.len(), max_samples);
        let taken = split_front(&mut self.samples, n);
        proof {
            assert(taken@ + self.samples@ =~= old(self)@);
            if n == old(self)@.len() {
                assert(taken@ =~= old(self)@);
            }
        }
        taken
    }

    /// Drops every sample.
    pub fn clear(&mut self)
        ensures
            final(self)@ == Seq::<Sample>::empty(),
    {
        self.samples.clear();
    }
}

/// The buffers of all sources, keyed by source id: the one piece of state
/// that streams and scheduler share.
pub struct BufferStore {
    buffers: IdMap<CaptureBuffer>,
}

impl BufferStore {
    /// The representation invariant of the store.
    pub closed spec fn wf(&self) -> bool {
        self.buffers.wf()
    }

    /// The source ids that have a buffer, in the order in which their
    /// buffers were first opened.
    pub closed spec fn order(&self) -> Seq<Seq<char>> {
        self.buffers.order()
    }

    /// The samples held for each id of `order`, at the same position.
    pub closed spec fn contents(&self) -> Seq<Seq<Sample>> {
        self.buffers.values().map_values(|b: CaptureBuffer| b@)
    }

    /// Whether a buffer exists for `id`.
    pub open spec fn has(&self, id: Seq<char>) -> bool {
        self.order().contains(id)
    }

    /// The samples held for `id`; meaningful where `has(id)`.
    pub open spec fn samples_of(&self, id: Seq<char>) -> Seq<Sample> {
        self.contents()[self.order().index_of(id)]
    }

    /// The store as a map from source id to the samples held.
    pub open spec fn view(&self) -> Map<Seq<char>, Seq<Sample>> {
        Map::new(|id: Seq<char>| self.has(id), |id: Seq<char>| self.samples_of(id))
    }

    /// Every id has one buffer, and no id occurs twice.
    pub proof fn lemma_shape(&self)
        requires
            self.wf(),
        ensures
            self.order().len() == self.contents().len(),
            self.order().no_duplicates(),
    {
        self.buffers.lemma_shape();
    }

    /// A store without buffers.
    pub fn new() -> (r: Self)
        ensures
            r.wf(),
            r.order() == Seq::<Seq<char>>::empty(),
            r.contents() == Seq::<Seq<Sample>>::empty(),
    {
        let r = BufferStore { buffers: IdMap::new() };
        assert(r.contents() =~= Seq::<Seq<Sample>>::empty());
        r
    }

    /// The number of buffers.
    pub fn len(&self) -> (r: usize)
        requires
            self.wf(),
        ensures
            r == self.order().len(),
            r == self.contents().len(),
    {
        self.buffers.len()
    }

    /// Finds the position of the buffer of `id`.
    pub fn position(&self, id: &str) -> (r: Option<usize>)
        requires
            self.wf(),
        ensures
            r is Some <==> self.has(id@),
            r matches Some(i) ==> i < self.order().len() && i < self.contents().len()
                && self.order()[i as int] == id@ && self.order().index_of(id@) == i,
    {
        proof {
            self.buffers.lemma_shape();
        }
        self.buffers.index_of(id)
    }

    /// The number of samples held at position `i`.
    pub fn len_at(&self, i: usize) -> (r: usize)
        requires
            self.wf(),
            i < self.contents().len(),
        ensures
            r == self.contents()[i as int].len(),
    {
        self.buffers.value_at(i).len()
    }

    /// Sample `k` of the buffer at position `i`.
    pub fn sample_at(&self, i: usize, k: usize) -> (r: Sample)
        requires
            self.wf(),
            i < self.contents().len(),
            k < self.contents()[i as int].len(),
        ensures
            r == self.contents()[i as int][k as int],
    {
        self.buffers.value_at(i).sample_at(k)
    }

    /// Gives `id` an empty buffer. A buffer that `id` already had is
    /// replaced, and what it held is dropped.
    pub fn open(&mut self, id: String)
        requires
            old(self).wf(),
        ensures
            final(self).wf(),
            old(self).has(id@)
                ==> final(self).order() == old(self).order()
                && final(self).contents()
                == old(self).contents().update(old(self).order().index_of(id@), Seq::<Sample>::empty()),
            !old(self).has(id@)
                ==> final(self).order() == old(self).order().push(id@)
                && final(self).contents()
                == old(self).contents().push(Seq::<Sample>::empty()),
            final(self).has(id@),
            final(self).samples_of(id@) == Seq::<Sample>::empty(),
    {
        let ghost was = old(self).has(id@);
        let ghost at = old(self).order().index_of(id@);
        proof {
            self.buffers.lemma_shape();
            if was {
                assert(old(self).order()[at] == id@);
            }
        }
        self.buffers.insert(id, CaptureBuffer::new());
        proof {
            self.buffers.lemma_shape();
            if was {
                assert(self.contents() =~= old(self).contents().update(at, Seq::<Sample>::empty()));
                assert(self.order()[at] == id@);
            } else {
                assert(self.contents() =~= old(self).contents().push(Seq::<Sample>::empty()));
                let n = old(self).order().len() as int;
                assert(self.order()[n] == id@);
                let k = self.order().index_of(id@);
                assert(self.order()[k] == id@);
                assert(k == n);
            }
        }
    }

    /// Takes the buffer at position `i` out of the store and leaves an
    /// empty one in its place.
    fn take_at(&mut self, i: usize) -> (buffer: CaptureBuffer)
        requires
            old(self).wf(),
            i < old(self).contents().len(),
        ensures
            final(self).wf(),
            final(self).order() == old(self).order(),
            final(self).contents() == old(self).contents().update(i as int, Seq::<Sample>::empty()),
            buffer@ == old(self).contents()[i as int],
    {
        let buffer = self.buffers.replace_at(i, CaptureBuffer::new());
        proof {
            assert(self.contents() =~= old(self).contents().update(i as int, Seq::<Sample>::empty()));
        }
        buffer
    }

    /// Puts `buffer` at position `i`.
    fn put_at(&mut self, i: usize, buffer: CaptureBuffer)
        requires
            old(self).wf(),
            i < old(self).contents().len(),
        ensures
            final(self).wf(),
            final(self).order() == old(self).order(),
            final(self).contents() == old(self).contents().update(i as int, buffer@),
    {
        self.buffers.set_at(i, buffer);
        proof {
            assert(self.contents() =~= old(self).contents().update(i as int, buffer@));
        }
    }

    /// Appends `data` to the buffer of `id`. Samples for an id without a
    /// buffer are dropped.
    pub fn append(&mut self, id: &str, data: &[Sample])
        requires
            old(self).wf(),
        ensures
            final(self).wf(),
            final(self).order() == old(self).order(),
            old(self).has(id@) ==> final(self).contents() == old(self).contents().update(
                old(self).order().index_of(id@),
                old(self).samples_of(id@) + data@,
            ),
            !old(self).has(id@) ==> final(self).contents() == old(self).contents(),
    {
        match self.position(id) {
            Some(i) => {
                let mut buffer = self.take_at(i);
                buffer.append(data);
                self.put_at(i, buffer);
                proof {
                    assert(self.contents() =~= old(self).contents().update(
                        i as int,
                        old(self).samples_of(id@) + data@,
                    ));
                }
            },
            None => {},
        }
    }

    /// Appends `data` to the bounded buffer of `id`, dropping the oldest
    /// samples where more than `cap` are held. Samples for an id without a
    /// buffer are dropped.
    pub fn append_bounded(&mut self, id: &str, data: &[Sample], cap: usize)
        requires
            old(self).wf(),
        ensures
            final(self).wf(),
            final(self).order() == old(self).order(),
            old(self).has(id@) ==> final(self).contents() == old(self).contents().update(
                old(self).order().index_of(id@),
                newest(old(self).samples_of(id@), cap as nat) + data@,
            ),
            !old(self).has(id@) ==> final(self).contents() == old(self).contents(),
    {
        match self.position(id) {
            Some(i) => {
                let mut buffer = self.take_at(i);
                buffer.append_bounded(data, cap);
                self.put_at(i, buffer);
                proof {
                    assert(self.contents() =~= old(self).contents().update(
                        i as int,
                        newest(old(self).samples_of(id@), cap as nat) + data@,
                    ));
                }
            },
            None => {},
        }
    }

    /// Removes up to `max_samples` samples from the front of the buffer at
    /// position `i` and returns them.
    pub fn drain_at(&mut self, i: usize, max_samples: Option<usize>) -> (taken: Vec<Sample>)
        requires
            old(self).wf(),
            i < old(self).contents().len(),
        ensures
            final(self).wf(),
            final(self).order() == old(self).order(),
            taken@ == old(self).contents()[i as int].take(
                take_count(old(self).contents()[i as int].len(), max_samples) as int,
            ),
            final(self).contents() == old(self).contents().update(
                i as int,
                old(self).contents()[i as int].skip(
                    take_count(old(self).contents()[i as int].len(), max_samples) as int,
                ),
            ),
    {
        let mut buffer = self.take_at(i);
        let taken = buffer.drain(max_samples);
        self.put_at(i, buffer);
        proof {
            assert(self.contents() =~= old(self).contents().update(
                i as int,
                old(self).contents()[i as int].skip(
                    take_count(old(self).contents()[i as int].len(), max_samples) as int,
                ),
            ));
        }
        taken
    }

    /// Removes up to `max_samples` samples from the front of the buffer of
    /// `id` and returns them in order. Asking for more than there are gives
    /// what there is and leaves the buffer empty. An id without a buffer
    /// gives nothing.
    pub fn drain(&mut self, id: &str, max_samples: Option<usize>) -> (taken: Vec<Sample>)
        requires
            old(self).wf(),
        ensures
            final(self).wf(),
            final(self).order() == old(self).order(),
            old(self).has(id@) ==> taken@ == old(self).samples_of(id@).take(
                take_count(old(self).samples_of(id@).len(), max_samples) as int,
            ) && final(self).contents() == old(self).contents().update(
                old(self).order().index_of(id@),
                old(self).samples_of(id@).skip(
                    take_count(old(self).samples_of(id@).len(), max_samples) as int,
                ),
            ),
            old(self).has(id@)
                ==> taken@ + final(self).samples_of(id@) == old(self).samples_of(id@),
            old(self).has(id@)
                && (max_samples matches Some(m)
                ==> m >= old(self).samples_of(id@).len())
                ==> taken@ == old(self).samples_of(id@) && final(self).samples_of(id@).len() == 0,
            !old(self).has(id@)
                ==> taken@ == Seq::<Sample>::empty()
                && final(self).contents() == old(self).contents(),
    {
        match self.position(id) {
            Some(i) => {
                proof {
                    self.lemma_shape();
                }
                let taken = self.drain_at(i, max_samples);
                proof {
                    let held = old(self).samples_of(id@);
                    let n = take_count(held.len(), max_samples) as int;
                    assert(self.samples_of(id@) == held.skip(n));
                    assert(taken@ + held.skip(n) =~= held);
                    if n == held.len() {
                        assert(taken@ =~= held);
                    }
                }
                taken
            },
            None => Vec::new(),
        }
    }

    /// The number of samples held for each source: one pair per buffer, in
    /// `order`.
    pub fn peek_lengths(&self) -> (r: Vec<(String, usize)>)
        requires
            self.wf(),
        ensures
            r.len() == self.order().len(),
            forall|i: int|
                0 <= i < r.len() ==> (#[trigger] r[i]).0@ == self.order()[i] && r[i].1
                    == self.contents()[i].len(),
    {
        let mut out: Vec<(String, usize)> = Vec::new();
        let n = self.buffers.len();
        let mut i: usize = 0;
        while i < n
            invariant
                self.wf(),
                n == self.order().len(),
                n == self.contents().len(),
                i <= n,
                out.len() == i,
                forall|j: int|
                    0 <= j < i ==> (#[trigger] out[j]).0@ == self.order()[j] && out[j].1
                        == self.contents()[j].len(),
            decreases n - i,
        {
            let id = self.buffers.key_at(i).clone();
            let held = self.buffers.value_at(i).len();
            out.push((id, held));
            i = i + 1;
        }
        out
    }
}

} // verus!
