//! The mixer: combines the buffers of all active sources into one stream by
//! taking, sample by sample, the arithmetic mean.

use vstd::prelude::*;
use vstd::string::*;
use crate::buffer::{drain_count, take_count, BufferStore};
use crate::sample::{trunc_div, Sample};
use crate::text::ids_of;

verus! {

/// The buffers of those active ids that have one, in the order of `active`.
pub open spec fn present(
    order: Seq<Seq<char>>,
    contents: Seq<Seq<Sample>>,
    active: Seq<Seq<char>>,
) -> Seq<Seq<Sample>>
    decreases active.len(),
{
    if active.len() == 0 {
        Seq::<Seq<Sample>>::empty()
    } else {
        let rest = present(order, contents, active.drop_last());
        if order.contains(active.last()) {
            rest.push(contents[order.index_of(active.last())])
        } else {
            rest
        }
    }
}

/// The length of the shortest of `bufs`; 0 where there is none.
pub open spec fn min_len(bufs: Seq<Seq<Sample>>) -> nat
    decreases bufs.len(),
{
    if bufs.len() == 0 {
        0
    } else if bufs.len() == 1 {
        bufs[0].len()
    } else {
        let rest = min_len(bufs.drop_last());
        if bufs.last().len() < rest {
            bufs.last().len()
        } else {
            rest
        }
    }
}

/// The sum of sample `i` over all of `bufs`.
pub open spec fn column_sum(bufs: Seq<Seq<Sample>>, i: int) -> int
    decreases bufs.len(),
{
    if bufs.len() == 0 {
        0
    } else {
        column_sum(bufs.drop_last(), i) + bufs.last()[i]
    }
}

/// Sample `i` of the mix: the sum over the buffers, divided by the number of
/// active sources.
pub open spec fn mean_at(bufs: Seq<Seq<Sample>>, count: nat, i: int) -> int {
    trunc_div(column_sum(bufs, i), count as int)
}

/// How many samples a mix of `bufs` yields for `count` active sources under
/// the limit `max`.
pub open spec fn mix_len(bufs: Seq<Seq<Sample>>, count: nat, max: Option<usize>) -> nat {
    if count == 0 {
        0
    } else {
        take_count(min_len(bufs), max)
    }
}

/// Whether `out` is the mix of `bufs` for `count` active sources under the
/// limit `max`.
pub open spec fn is_mix_of(
    out: Seq<Sample>,
    bufs: Seq<Seq<Sample>>,
    count: nat,
    max: Option<usize>,
) -> bool {
    &&& out.len() == mix_len(bufs, count, max)
    &&& forall|i: int| 0 <= i < out.len() ==> (#[trigger] out[i]) as int == mean_at(bufs, count, i)
}

/// The mix of `bufs` for `count` active sources under the limit `max`.
pub open spec fn mixed(bufs: Seq<Seq<Sample>>, count: nat, max: Option<usize>) -> Seq<Sample> {
    Seq::new(mix_len(bufs, count, max), |i: int| mean_at(bufs, count, i) as Sample)
}

/// There is one mix: what `is_mix_of` accepts is `mixed`.
pub proof fn lemma_mix_is_unique(
    out: Seq<Sample>,
    bufs: Seq<Seq<Sample>>,
    count: nat,
    max: Option<usize>,
)
    requires
        is_mix_of(out, bufs, count, max),
    ensures
        out == mixed(bufs, count, max),
{
    assert forall|i: int| 0 <= i < out.len() implies out[i] == mixed(bufs, count, max)[i] by {
        assert(out[i] as int == mean_at(bufs, count, i));
    }
    assert(out =~= mixed(bufs, count, max));
}

/// The buffers after `n` samples were drained from the buffer of each id of
/// `active`, in turn.
pub open spec fn after_drain(
    order: Seq<Seq<char>>,
    contents: Seq<Seq<Sample>>,
    active: Seq<Seq<char>>,
    n: usize,
) -> Seq<Seq<Sample>>
    decreases active.len(),
{
    if active.len() == 0 {
        contents
    } else {
        let before = after_drain(order, contents, active.drop_last(), n);
        let id = active.last();
        if order.contains(id) {
            let k = order.index_of(id);
            before.update(k, before[k].skip(take_count(before[k].len(), Some(n)) as int))
        } else {
            before
        }
    }
}

/// Draining leaves the keys alone: there are as many buffers after as
/// before.
pub proof fn lemma_after_drain_len(
    order: Seq<Seq<char>>,
    contents: Seq<Seq<Sample>>,
    active: Seq<Seq<char>>,
    n: usize,
)
    requires
        order.len() == contents.len(),
    ensures
        after_drain(order, contents, active, n).len() == contents.len(),
    decreases active.len(),
{
    if active.len() > 0 {
        lemma_after_drain_len(order, contents, active.drop_last(), n);
        let id = active.last();
        if order.contains(id) {
            let k = order.index_of(id);
            assert(order[k] == id);
        }
    }
}

/// What went into a mix is consumed exactly once: where no id is active
/// twice, the buffer of every active source loses its first `n` samples,
/// or all of them where it holds fewer, and the buffer of every other
/// source keeps what it holds.
pub proof fn lemma_after_drain(
    order: Seq<Seq<char>>,
    contents: Seq<Seq<Sample>>,
    active: Seq<Seq<char>>,
    n: usize,
    k: int,
)
    requires
        order.len() == contents.len(),
        order.no_duplicates(),
        active.no_duplicates(),
        0 <= k < order.len(),
    ensures
        after_drain(order, contents, active, n)[k] == if active.contains(order[k]) {
            contents[k].skip(take_count(contents[k].len(), Some(n)) as int)
        } else {
            contents[k]
        },
    decreases active.len(),
{
    if active.len() > 0 {
        let head = active.drop_last();
        let id = active.last();
        assert forall|i: int, j: int| 0 <= i < j < head.len() implies head[i] != head[j] by {
            assert(head[i] == active[i] && head[j] == active[j]);
        }
        lemma_after_drain(order, contents, head, n, k);
        lemma_after_drain_len(order, contents, head, n);
        assert(active[active.len() - 1] == id);
        if head.contains(order[k]) {
            let j = choose|j: int| 0 <= j < head.len() && head[j] == order[k];
            assert(active[j] == order[k]);
            assert(active.contains(order[k]));
            assert(order[k] != id);
        }
        if order.contains(id) {
            let at = order.index_of(id);
            assert(order[at] == id);
            if at == k {
                assert(active.contains(order[k]));
                assert(!head.contains(order[k])) by {
                    if head.contains(order[k]) {
                        let j = choose|j: int| 0 <= j < head.len() && head[j] == order[k];
                        assert(active[j] == active[active.len() - 1]);
                    }
                }
            } else {
                assert(order[k] != id);
                if active.contains(order[k]) {
                    let j = choose|j: int| 0 <= j < active.len() && active[j] == order[k];
                    assert(j < active.len() - 1);
                    assert(head[j] == order[k]);
                }
            }
        } else {
            if active.contains(order[k]) {
                let j = choose|j: int| 0 <= j < active.len() && active[j] == order[k];
                assert(order.contains(order[k]));
                assert(j < active.len() - 1);
                assert(head[j] == order[k]);
            }
        }
    }
}

/// Every buffer is at least as long as the shortest.
pub proof fn lemma_min_len_le(bufs: Seq<Seq<Sample>>, k: int)
    requires
        0 <= k < bufs.len(),
    ensures
        min_len(bufs) <= bufs[k].len(),
    decreases bufs.len(),
{
    if bufs.len() > 1 {
        if k < bufs.len() - 1 {
            lemma_min_len_le(bufs.drop_last(), k);
        }
    }
}

/// A column of 32-bit samples sums to at most the number of buffers times
/// the range of one sample.
pub proof fn lemma_column_sum_bounds(bufs: Seq<Seq<Sample>>, i: int)
    ensures
        -0x8000_0000 * bufs.len() <= column_sum(bufs, i) <= 0x7fff_ffff * bufs.len(),
    decreases bufs.len(),
{
    if bufs.len() > 0 {
        lemma_column_sum_bounds(bufs.drop_last(), i);
    }
}

/// The mean of at most `count` samples, divided by `count`, is itself in the
/// range of a sample.
pub proof fn lemma_mean_in_range(sum: int, len: int, count: int)
    requires
        0 <= len <= count,
        count > 0,
        -0x8000_0000 * len <= sum <= 0x7fff_ffff * len,
    ensures
        -0x8000_0000 <= trunc_div(sum, count) <= 0x7fff_ffff,
{
    if sum >= 0 {
        assert(sum <= 0x7fff_ffff * count) by (nonlinear_arith)
            requires
                sum <= 0x7fff_ffff * len,
                len <= count,
        ;
        assert(0 <= sum / count <= 0x7fff_ffff) by (nonlinear_arith)
            requires
                0 <= sum <= 0x7fff_ffff * count,
                count > 0,
        ;
    } else {
        assert(-sum <= 0x8000_0000 * count) by (nonlinear_arith)
            requires
                -0x8000_0000 * len <= sum,
                0 <= len <= count,
        ;
        assert(0 <= (-sum) / count <= 0x8000_0000) by (nonlinear_arith)
            requires
                0 <= -sum <= 0x8000_0000 * count,
                count > 0,
        ;
    }
}

/// Mixing a single buffer for a single active source gives that buffer
/// unchanged: the mean of one sample is the sample.
pub proof fn lemma_single_source_unchanged(buf: Seq<Sample>, out: Seq<Sample>)
    requires
        is_mix_of(out, seq![buf], 1, None),
    ensures
        out == buf,
{
    let bufs = seq![buf];
    assert(bufs.drop_last() =~= Seq::<Seq<Sample>>::empty());
    assert(min_len(bufs) == buf.len());
    assert forall|i: int| 0 <= i < out.len() implies out[i] == buf[i] by {
        assert(column_sum(bufs.drop_last(), i) == 0);
        assert(column_sum(bufs, i) == buf[i] as int);
        assert(out[i] as int == mean_at(bufs, 1, i));
    }
    assert(out =~= buf);
}

/// Mixing two buffers of `n` samples that hold the constants `a` and `b`
/// gives `n` samples that all hold the mean `(a + b) / 2`, rounded towards
/// zero.
pub proof fn lemma_mix_of_constants(a: Sample, b: Sample, n: nat, out: Seq<Sample>)
    requires
        is_mix_of(out, seq![Seq::new(n, |i: int| a), Seq::new(n, |i: int| b)], 2, None),
    ensures
        out.len() == n,
        forall|i: int| 0 <= i < n ==> (#[trigger] out[i]) as int == trunc_div(a + b, 2),
{
    let first = Seq::new(n, |i: int| a);
    let second = Seq::new(n, |i: int| b);
    let bufs = seq![first, second];
    let head = bufs.drop_last();
    assert(head =~= seq![first]);
    assert(head.drop_last() =~= Seq::<Seq<Sample>>::empty());
    assert(min_len(head) == n);
    assert(min_len(bufs) == n);
    assert forall|i: int| 0 <= i < n implies (#[trigger] out[i]) as int == trunc_div(a + b, 2) by {
        assert(column_sum(head.drop_last(), i) == 0);
        assert(column_sum(head, i) == first[i] as int);
        assert(column_sum(bufs, i) == a + b);
        assert(out[i] as int == mean_at(bufs, 2, i));
    }
}

/// Finds the store positions of the buffers of the active ids.
fn locate(store: &BufferStore, active: &Vec<String>) -> (found: Vec<usize>)
    requires
        store.wf(),
    ensures
        found.len() <= active.len(),
        forall|k: int| 0 <= k < found.len() ==> (#[trigger] found[k]) < store.contents().len(),
        Seq::new(found.len() as nat, |k: int| store.contents()[found[k] as int]) == present(
            store.order(),
            store.contents(),
            ids_of(active@),
        ),
{
    let ghost ids = ids_of(active@);
    let mut found: Vec<usize> = Vec::new();
    let mut i: usize = 0;
    proof {
        assert(ids.take(0) =~= Seq::<Seq<char>>::empty());
        assert(Seq::new(0, |k: int| store.contents()[found[k] as int]) =~= present(
            store.order(),
            store.contents(),
            ids.take(0),
        ));
    }
    while i < active.len()
        invariant
            store.wf(),
            ids == ids_of(active@),
            i <= active.len(),
            found.len() <= i,
            forall|k: int| 0 <= k < found.len() ==> (#[trigger] found[k]) < store.contents().len(),
            Seq::new(found.len() as nat, |k: int| store.contents()[found[k] as int]) == present(
                store.order(),
                store.contents(),
                ids.take(i as int),
            ),
        decreases active.len() - i,
    {
        let ghost before = found@;
        let ghost prior = Seq::new(before.len(), |k: int| store.contents()[before[k] as int]);
        proof {
            assert(ids.take(i + 1).drop_last() =~= ids.take(i as int));
            assert(ids.take(i + 1).last() == active@[i as int]@);
        }
        match store.position(active[i].as_str()) {
            Some(p) => {
                found.push(p);
                proof {
                    assert(Seq::new(found.len() as nat, |k: int| store.contents()[found[k] as int])
                        =~= prior.push(store.contents()[p as int]));
                }
            },
            None => {
                proof {
                    assert(Seq::new(found.len() as nat, |k: int| store.contents()[found[k] as int])
                        =~= prior);
                }
            },
        }
        i = i + 1;
    }
    proof {
        assert(ids.take(active.len() as int) =~= ids);
    }
    found
}

/// The length of the shortest buffer among those at the positions `found`.
fn shortest(store: &BufferStore, found: &Vec<usize>) -> (r: usize)
    requires
        store.wf(),
        forall|k: int| 0 <= k < found.len() ==> (#[trigger] found[k]) < store.contents().len(),
    ensures
        r == min_len(Seq::new(found.len() as nat, |k: int| store.contents()[found[k] as int])),
{
    let ghost bufs = Seq::new(found.len() as nat, |k: int| store.contents()[found[k] as int]);
    if found.len() == 0 {
        return 0;
    }
    let mut least: usize = store.len_at(found[0]);
    let mut k: usize = 1;
    proof {
        assert(bufs.take(1) =~= seq![bufs[0]]);
    }
    while k < found.len()
        invariant
            store.wf(),
            1 <= k <= found.len(),
            bufs == Seq::new(found.len() as nat, |k: int| store.contents()[found[k] as int]),
            forall|k: int| 0 <= k < found.len() ==> (#[trigger] found[k]) < store.contents().len(),
            least == min_len(bufs.take(k as int)),
        decreases found.len() - k,
    {
        let held = store.len_at(found[k]);
        proof {
            let next = bufs.take(k + 1);
            assert(next.drop_last() =~= bufs.take(k as int));
            assert(next.last() == bufs[k as int]);
        }
        if held < least {
            least = held;
        }
        k = k + 1;
    }
    proof {
        assert(bufs.take(found.len() as int) =~= bufs);
    }
    least
}

/// Computes the first `n` samples of the mix of the buffers at `found` for
/// `count` active sources.
fn average(store: &BufferStore, found: &Vec<usize>, count: usize, n: usize) -> (out: Vec<Sample>)
    requires
        store.wf(),
        count > 0,
        found.len() <= count,
        forall|k: int| 0 <= k < found.len() ==> (#[trigger] found[k]) < store.contents().len(),
        n <= min_len(Seq::new(found.len() as nat, |k: int| store.contents()[found[k] as int])),
    ensures
        out.len() == n,
        forall|i: int|
            0 <= i < n ==> (#[trigger] out[i]) as int == mean_at(
                Seq::new(found.len() as nat, |k: int| store.contents()[found[k] as int]),
                count as nat,
                i,
            ),
{
    let ghost bufs = Seq::new(found.len() as nat, |k: int| store.contents()[found[k] as int]);
    let mut out: Vec<Sample> = Vec::new();
    let mut i: usize = 0;
    while i < n
        invariant
            store.wf(),
            count > 0,
            found.len() <= count,
            bufs == Seq::new(found.len() as nat, |k: int| store.contents()[found[k] as int]),
            forall|k: int| 0 <= k < found.len() ==> (#[trigger] found[k]) < store.contents().len(),
            n <= min_len(bufs),
            i <= n,
            out.len() == i,
            forall|j: int| 0 <= j < i
                ==> (#[trigger] out[j]) as int == mean_at(bufs, count as nat, j),
        decreases n - i,
    {
        let mut sum: i128 = 0;
        let mut k: usize = 0;
        proof {
            assert(bufs.take(0) =~= Seq::<Seq<Sample>>::empty());
        }
        while k < found.len()
            invariant
                store.wf(),
                bufs == Seq::new(found.len() as nat, |k: int| store.contents()[found[k] as int]),
                forall|k: int|
                    0 <= k < found.len() ==> (#[trigger] found[k]) < store.contents().len(),
                n <= min_len(bufs),
                i < n,
                k <= found.len(),
                sum == column_sum(bufs.take(k as int), i as int),
            decreases found.len() - k,
        {
            proof {
                lemma_min_len_le(bufs, k as int);
                lemma_column_sum_bounds(bufs.take(k as int), i as int);
                let next = bufs.take(k + 1);
                assert(next.drop_last() =~= bufs.take(k as int));
                assert(next.last() == bufs[k as int]);
            }
            let s = store.sample_at(found[k], i);
            sum = sum + s as i128;
            k = k + 1;
        }
        proof {
            assert(bufs.take(found.len() as int) =~= bufs);
            lemma_column_sum_bounds(bufs, i as int);
            lemma_mean_in_range(sum as int, bufs.len() as int, count as int);
        }
        let mean: i128 = sum / (count as i128);
        out.push(mean as Sample);
        i = i + 1;
    }
    out
}

/// Mixes the buffers of the active sources without consuming them.
///
/// Let `L` be the length of the shortest buffer among the active sources
/// that have one, and `N` the smaller of `L` and `max_samples`. The result
/// has `N` samples; sample `i` is the sum of sample `i` of those buffers
/// divided by the number of active sources, rounded towards zero. Without
/// active sources the result is empty.
pub fn mix(store: &BufferStore, active: &Vec<String>, max_samples: Option<usize>) -> (out: Vec<
    Sample,
>)
    requires
        store.wf(),
    ensures
        is_mix_of(
            out@,
            present(store.order(), store.contents(), ids_of(active@)),
            active.len() as nat,
            max_samples,
        ),
{
    if active.len() == 0 {
        return Vec::new();
    }
    let found = locate(store, active);
    let available = shortest(store, &found);
    let n = drain_count(available, max_samples);
    average(store, &found, active.len(), n)
}

/// Mixes the buffers of the active sources and removes from each of them the
/// samples that went into the mix, so that no sample is mixed twice.
pub fn mix_drain(store: &mut BufferStore, active: &Vec<String>, max_samples: Option<usize>) -> (out:
    Vec<Sample>)
    requires
        old(store).wf(),
    ensures
        final(store).wf(),
        final(store).order() == old(store).order(),
        is_mix_of(
            out@,
            present(old(store).order(), old(store).contents(), ids_of(active@)),
            active.len() as nat,
            max_samples,
        ),
        final(store).contents() == after_drain(
            old(store).order(),
            old(store).contents(),
            ids_of(active@),
            out.len(),
        ),
{
    let out = mix(store, active, max_samples);
    let n = out.len();
    let ghost ids = ids_of(active@);
    let mut i: usize = 0;
    proof {
        assert(ids.take(0) =~= Seq::<Seq<char>>::empty());
    }
    while i < active.len()
        invariant
            store.wf(),
            ids == ids_of(active@),
            store.order() == old(store).order(),
            i <= active.len(),
            store.contents() == after_drain(
                old(store).order(),
                old(store).contents(),
                ids.take(i as int),
                n,
            ),
        decreases active.len() - i,
    {
        proof {
            assert(ids.take(i + 1).drop_last() =~= ids.take(i as int));
            assert(ids.take(i + 1).last() == active@[i as int]@);
        }
        match store.position(active[i].as_str()) {
            Some(p) => {
                store.drain_at(p, Some(n));
            },
            None => {},
        }
        i = i + 1;
    }
    proof {
        assert(ids.take(active.len() as int) =~= ids);
    }
    out
}

} // verus!
