//! The finalizer: orders the chunk files of a session by index, checks that
//! they share one sample format, and joins their samples into one
//! recording.

use vstd::prelude::*;
use vstd::string::*;
use vstd::seq_lib::*;
use crate::error::CaptureError;
use crate::layout::{
    chunk_file_name, is_chunk_file_name, lemma_chunk_name_injective, parse_chunk_index,
};
use crate::text::ids_of;
use crate::wav::{
    chunk_format, chunk_image, content_of, decode, encode, encoded, DecodedWav, WavFormat,
};

verus! {

/// The index that a file name stands for, if it is a chunk file name.
pub open spec fn index_of_name(name: Seq<char>) -> Option<u64> {
    if is_chunk_file_name(name) {
        Some((choose|index: nat| index <= u64::MAX
            && name == #[trigger] chunk_file_name(index)) as u64)
    } else {
        None
    }
}

/// The indices of the chunk files among `names`, in the order of `names`.
pub open spec fn chunk_indices(names: Seq<Seq<char>>) -> Seq<u64>
    decreases names.len(),
{
    if names.len() == 0 {
        Seq::<u64>::empty()
    } else {
        let rest = chunk_indices(names.drop_last());
        match index_of_name(names.last()) {
            Some(i) => rest.push(i),
            None => rest,
        }
    }
}

/// Whether `s` runs from the smallest to the largest.
pub open spec fn ascending(s: Seq<u64>) -> bool {
    forall|i: int, j: int| 0 <= i <= j < s.len() ==> s[i] <= s[j]
}

/// Puts `x` into the ascending `v` at its place.
fn insert_ascending(v: &mut Vec<u64>, x: u64)
    requires
        ascending(old(v)@),
    ensures
        ascending(final(v)@),
        final(v)@.to_multiset() == old(v)@.to_multiset().insert(x),
{
    let mut at: usize = 0;
    while at < v.len() && v[at] <= x
        invariant
            v@ == old(v)@,
            at <= v.len(),
            forall|k: int| 0 <= k < at ==> v@[k] <= x,
        decreases v.len() - at,
    {
        at = at + 1;
    }
    proof {
        to_multiset_insert(v@, at as int, x);
        let after = v@.insert(at as int, x);
        assert forall|i: int, j: int| 0 <= i <= j < after.len() implies after[i] <= after[j] by {
            if j < at {
                assert(after[i] == v@[i] && after[j] == v@[j]);
            } else if j == at {
                if i < at {
                    assert(after[i] == v@[i]);
                }
            } else {
                assert(after[j] == v@[j - 1]);
                if i < at {
                    assert(after[i] == v@[i]);
                } else if i == at {
                    assert(v@[at as int] <= v@[j - 1]);
                } else {
                    assert(after[i] == v@[i - 1]);
                }
            }
        }
    }
    v.insert(at, x);
}

/// Picks the chunk files out of a directory listing and gives their indices
/// in ascending order, which is the order in which the chunks are joined.
/// A name that `chunk_name` does not produce is no chunk of the session and
/// is passed over.
pub fn order_chunks(names: &Vec<String>) -> (r: Vec<u64>)
    ensures
        ascending(r@),
        r@.to_multiset() == chunk_indices(ids_of(names@)).to_multiset(),
{
    let ghost ids = ids_of(names@);
    let mut out: Vec<u64> = Vec::new();
    let mut i: usize = 0;
    proof {
        assert(ids.take(0) =~= Seq::<Seq<char>>::empty());
    }
    while i < names.len()
        invariant
            ids == ids_of(names@),
            i <= names.len(),
            ascending(out@),
            out@.to_multiset() == chunk_indices(ids.take(i as int)).to_multiset(),
        decreases names.len() - i,
    {
        proof {
            assert(ids.take(i + 1).drop_last() =~= ids.take(i as int));
            assert(ids.take(i + 1).last() == names@[i as int]@);
        }
        match parse_chunk_index(names[i].as_str()) {
            Some(index) => {
                proof {
                    let name = names@[i as int]@;
                    assert(name == chunk_file_name(index as nat));
                    let chosen = choose|k: nat|
                        k <= u64::MAX && name == #[trigger] chunk_file_name(k);
                    lemma_chunk_name_injective(chosen, index as nat);
                    to_multiset_build(chunk_indices(ids.take(i as int)), index);
                }
                insert_ascending(&mut out, index);
            },
            None => {},
        }
        i = i + 1;
    }
    proof {
        assert(ids.take(names.len() as int) =~= ids);
    }
    out
}

/// The largest index in an ascending list; 0 for the empty list.
pub open spec fn largest(s: Seq<u64>) -> u64 {
    if s.len() == 0 {
        0
    } else {
        s.last()
    }
}

/// The index for the next chunk of a directory: one more than the largest
/// index among its chunk files, 1 for a directory without chunks, and
/// `None` where no larger index can be counted.
pub fn next_chunk_index(names: &Vec<String>) -> (r: Option<u64>)
    ensures
        exists|sorted: Seq<u64>|
            ascending(sorted) && sorted.to_multiset() == chunk_indices(ids_of(names@)).to_multiset()
                && r == if largest(sorted) < u64::MAX {
                Some((largest(sorted) + 1) as u64)
            } else {
                None
            },
{
    let sorted = order_chunks(names);
    let top: u64 = if sorted.len() == 0 {
        0
    } else {
        sorted[sorted.len() - 1]
    };
    let r = if top < u64::MAX {
        Some(top + 1)
    } else {
        None
    };
    proof {
        assert(ascending(sorted@) && sorted@.to_multiset() == chunk_indices(
            ids_of(names@),
        ).to_multiset() && r == if largest(sorted@) < u64::MAX {
            Some((largest(sorted@) + 1) as u64)
        } else {
            None
        });
    }
    r
}

/// All samples of `parts`, one part after the other.
pub open spec fn joined(parts: Seq<Seq<i16>>) -> Seq<i16>
    decreases parts.len(),
{
    if parts.len() == 0 {
        Seq::<i16>::empty()
    } else {
        joined(parts.drop_last()) + parts.last()
    }
}

/// The values of a list of decoded chunks.
pub open spec fn chunk_views(chunks: Seq<DecodedWav>) -> Seq<(WavFormat, Seq<i16>)> {
    chunks.map_values(|d: DecodedWav| (d.format, d.samples@))
}

/// The samples of each chunk.
pub open spec fn sample_parts(chunks: Seq<(WavFormat, Seq<i16>)>) -> Seq<Seq<i16>> {
    chunks.map_values(|c: (WavFormat, Seq<i16>)| c.1)
}

/// Whether all chunks have the format of the first.
pub open spec fn same_format(chunks: Seq<(WavFormat, Seq<i16>)>) -> bool {
    forall|i: int| 0 <= i < chunks.len() ==> (#[trigger] chunks[i]).0 == chunks[0].0
}

/// The recording that a list of chunks makes: `EmptySession` for no chunk,
/// `FormatMismatch` where a chunk differs in format from the first, and
/// otherwise the samples of all chunks in the order of the list, in the
/// format that they share.
pub open spec fn concatenated(chunks: Seq<(WavFormat, Seq<i16>)>) -> Result<
    (WavFormat, Seq<i16>),
    CaptureError,
> {
    if chunks.len() == 0 {
        Err(CaptureError::EmptySession)
    } else if !same_format(chunks) {
        Err(CaptureError::FormatMismatch)
    } else {
        Ok((chunks[0].0, joined(sample_parts(chunks))))
    }
}

/// Two chunks of one format make a recording that holds the samples of the
/// first followed by those of the second, as many as both together.
pub proof fn lemma_two_chunks(format: WavFormat, first: Seq<i16>, second: Seq<i16>)
    ensures
        concatenated(seq![(format, first), (format, second)]) == Ok::<
            (WavFormat, Seq<i16>),
            CaptureError,
        >((format, first + second)),
        (first + second).len() == first.len() + second.len(),
{
    let chunks = seq![(format, first), (format, second)];
    let parts = sample_parts(chunks);
    let head = parts.drop_last();
    assert(head =~= seq![first]);
    assert(head.drop_last() =~= Seq::<Seq<i16>>::empty());
    assert(joined(head.drop_last()) =~= Seq::<i16>::empty());
    assert(head.last() == first);
    assert(joined(head) =~= first);
    assert(parts.last() == second);
    assert(joined(parts) =~= first + second);
}

/// Joining keeps every sample: the recording is as long as its chunks
/// together.
pub open spec fn total_samples(parts: Seq<Seq<i16>>) -> nat
    decreases parts.len(),
{
    if parts.len() == 0 {
        0
    } else {
        total_samples(parts.drop_last()) + parts.last().len()
    }
}

/// The joined samples are as many as the parts hold together.
pub proof fn lemma_joined_len(parts: Seq<Seq<i16>>)
    ensures
        joined(parts).len() == total_samples(parts),
    decreases parts.len(),
{
    if parts.len() > 0 {
        lemma_joined_len(parts.drop_last());
    }
}

/// Joins decoded chunks into one recording.
pub fn concatenate(chunks: &Vec<DecodedWav>) -> (r: Result<DecodedWav, CaptureError>)
    ensures
        match r {
            Ok(d) => concatenated(chunk_views(chunks@)) == Ok::<(WavFormat, Seq<i16>), CaptureError>(
                (d.format, d.samples@),
            ),
            Err(e) => concatenated(chunk_views(chunks@)) == Err::<
                (WavFormat, Seq<i16>),
                CaptureError,
            >(e),
        },
{
    if chunks.len() == 0 {
        return Err(CaptureError::EmptySession);
    }
    let ghost views = chunk_views(chunks@);
    let ghost parts = sample_parts(views);
    let format = chunks[0].format;
    let mut i: usize = 1;
    while i < chunks.len()
        invariant
            views == chunk_views(chunks@),
            format == chunks@[0].format,
            1 <= i <= chunks.len(),
            forall|k: int| 0 <= k < i ==> (#[trigger] views[k]).0 == format,
        decreases chunks.len() - i,
    {
        if chunks[i].format != format {
            proof {
                assert(views[i as int].0 != views[0].0);
            }
            return Err(CaptureError::FormatMismatch);
        }
        i = i + 1;
    }
    let mut all: Vec<i16> = Vec::new();
    let mut k: usize = 0;
    proof {
        assert(parts.take(0) =~= Seq::<Seq<i16>>::empty());
    }
    while k < chunks.len()
        invariant
            views == chunk_views(chunks@),
            parts == sample_parts(views),
            k <= chunks.len(),
            all@ == joined(parts.take(k as int)),
        decreases chunks.len() - k,
    {
        let part = &chunks[k].samples;
        proof {
            assert(parts.take(k + 1).drop_last() =~= parts.take(k as int));
            assert(parts.take(k + 1).last() == part@);
        }
        let ghost before = all@;
        let mut j: usize = 0;
        while j < part.len()
            invariant
                j <= part.len(),
                all@ == before + part@.take(j as int),
            decreases part.len() - j,
        {
            all.push(part[j]);
            proof {
                assert(part@.take(j + 1) =~= part@.take(j as int).push(part@[j as int]));
                assert(all@ =~= before + part@.take(j + 1));
            }
            j = j + 1;
        }
        proof {
            assert(part@.take(part.len() as int) =~= part@);
        }
        k = k + 1;
    }
    proof {
        assert(parts.take(chunks.len() as int) =~= parts);
    }
    Ok(DecodedWav { format, samples: all })
}

/// What the files decode to, in order; `None` where one of them holds no
/// decodable file.
pub open spec fn contents_of(files: Seq<Seq<u8>>) -> Option<Seq<(WavFormat, Seq<i16>)>>
    decreases files.len(),
{
    if files.len() == 0 {
        Some(Seq::empty())
    } else {
        match (contents_of(files.drop_last()), content_of(files.last())) {
            (Some(rest), Some(c)) => Some(rest.push(c)),
            _ => None,
        }
    }
}

/// The bytes held by a list of files.
pub open spec fn file_views(files: Seq<Vec<u8>>) -> Seq<Seq<u8>> {
    files.map_values(|f: Vec<u8>| f@)
}

/// The final recording of a session whose chunk files hold `files`, in
/// index order.
///
/// No chunk gives `EmptySession`, and nothing is encoded. A file that does
/// not decode gives `DecodeFailed`, chunks of different formats give
/// `FormatMismatch`. Otherwise the samples of all chunks, in order, are
/// encoded in the format that the chunks share.
pub open spec fn finalized(files: Seq<Seq<u8>>) -> Result<Seq<u8>, CaptureError> {
    if files.len() == 0 {
        Err(CaptureError::EmptySession)
    } else {
        match contents_of(files) {
            None => Err(CaptureError::DecodeFailed),
            Some(chunks) => match concatenated(chunks) {
                Err(e) => Err(e),
                Ok((format, samples)) => encoded(format, samples),
            },
        }
    }
}

/// The format and the samples of the final recording, where the files
/// decode and share one format.
pub open spec fn joined_recording(files: Seq<Seq<u8>>) -> Option<(WavFormat, Seq<i16>)> {
    match contents_of(files) {
        Some(chunks) => match concatenated(chunks) {
            Ok(recording) => Some(recording),
            Err(_) => None,
        },
        None => None,
    }
}

/// The format of the final recording; meaningful where there is one.
pub open spec fn recording_format(files: Seq<Seq<u8>>) -> WavFormat {
    match joined_recording(files) {
        Some((format, _)) => format,
        None => arbitrary(),
    }
}

/// The samples of the final recording; meaningful where there is one.
pub open spec fn recording_samples(files: Seq<Seq<u8>>) -> Seq<i16> {
    match joined_recording(files) {
        Some((_, samples)) => samples,
        None => Seq::empty(),
    }
}

/// A session without chunks has no final recording: the outcome is
/// `EmptySession`, which carries no bytes to write.
pub proof fn lemma_empty_session()
    ensures
        finalized(Seq::<Seq<u8>>::empty()) == Err::<Seq<u8>, CaptureError>(
            CaptureError::EmptySession,
        ),
{
}

/// Two chunk files of one format finalize to the encoding of the samples of
/// the first followed by the samples of the second.
pub proof fn lemma_finalize_two_chunks(
    one: Seq<u8>,
    two: Seq<u8>,
    format: WavFormat,
    first: Seq<i16>,
    second: Seq<i16>,
)
    requires
        content_of(one) == Some((format, first)),
        content_of(two) == Some((format, second)),
    ensures
        finalized(seq![one, two]) == encoded(format, first + second),
{
    let files = seq![one, two];
    assert(files.drop_last() =~= seq![one]);
    assert(files.drop_last().drop_last() =~= Seq::<Seq<u8>>::empty());
    assert(contents_of(files.drop_last().drop_last()) == Some(
        Seq::<(WavFormat, Seq<i16>)>::empty(),
    ));
    assert(contents_of(files.drop_last()) == Some(
        Seq::<(WavFormat, Seq<i16>)>::empty().push((format, first)),
    ));
    assert(Seq::<(WavFormat, Seq<i16>)>::empty().push((format, first)).push((format, second))
        =~= seq![(format, first), (format, second)]);
    lemma_two_chunks(format, first, second);
}

/// Makes the final recording from the chunk files of a session, given as
/// their bytes in index order. Chunks of one channel of 16-bit integers
/// that share a rate and fit one file together are always joined.
pub fn finalize(files: &Vec<Vec<u8>>) -> (r: Result<Vec<u8>, CaptureError>)
    ensures
        match r {
            Ok(b) => finalized(file_views(files@)) == Ok::<Seq<u8>, CaptureError>(b@),
            Err(e) => finalized(file_views(files@)) == Err::<Seq<u8>, CaptureError>(e),
        },
        files.len() == 0 ==> r == Err::<Vec<u8>, CaptureError>(CaptureError::EmptySession),
        r matches Ok(b) ==> joined_recording(file_views(files@)) is Some,
        joined_recording(file_views(files@)) is Some && recording_format(file_views(files@))
            == chunk_format(recording_format(file_views(files@)).sample_rate) && recording_format(
            file_views(files@),
        ).writable(recording_samples(file_views(files@)).len()) ==> r is Ok && r->Ok_0@
            == chunk_image(
            recording_format(file_views(files@)).sample_rate,
            recording_samples(file_views(files@)),
        ),
{
    if files.len() == 0 {
        return Err(CaptureError::EmptySession);
    }
    let ghost views = file_views(files@);
    let mut chunks: Vec<DecodedWav> = Vec::new();
    let mut i: usize = 0;
    proof {
        assert(views.take(0) =~= Seq::<Seq<u8>>::empty());
        assert(chunk_views(chunks@) =~= Seq::<(WavFormat, Seq<i16>)>::empty());
    }
    while i < files.len()
        invariant
            views == file_views(files@),
            i <= files.len(),
            contents_of(views.take(i as int)) == Some(chunk_views(chunks@)),
        decreases files.len() - i,
    {
        proof {
            assert(views.take(i + 1).drop_last() =~= views.take(i as int));
            assert(views.take(i + 1).last() == files@[i as int]@);
        }
        let ghost before = chunk_views(chunks@);
        match decode(files[i].as_slice()) {
            Ok(d) => {
                chunks.push(d);
                proof {
                    assert(chunk_views(chunks@) =~= before.push((d.format, d.samples@)));
                }
            },
            Err(e) => {
                proof {
                    lemma_undecodable(views, i as int);
                }
                return Err(e);
            },
        }
        i = i + 1;
    }
    proof {
        assert(views.take(files.len() as int) =~= views);
    }
    match concatenate(&chunks) {
        Ok(d) => encode(d.format, &d.samples),
        Err(e) => Err(e),
    }
}

/// Where one file does not decode, the files as a whole do not.
pub proof fn lemma_undecodable(files: Seq<Seq<u8>>, k: int)
    requires
        0 <= k < files.len(),
        content_of(files[k]) is None,
    ensures
        contents_of(files) is None,
    decreases files.len(),
{
    if k < files.len() - 1 {
        lemma_undecodable(files.drop_last(), k);
    }
}

} // verus!
