//! The multi-source capture engine: the registry of discovered sources, the
//! buffer of each source, and the set of streams that run.
//!
//! The engine holds state and decides; the audio host is driven from
//! outside, which reports what it found and what it started.

use vstd::prelude::*;
use vstd::string::*;
use crate::buffer::{take_count, BufferStore};
use crate::error::CaptureError;
use crate::idmap::IdMap;
use crate::mixer::{after_drain, is_mix_of, mix, mix_drain, present};
use crate::sample::Sample;
use crate::source::{
    discover, discovered, source_views, AudioSource, MultiAudioConfig, Platform, SourceView,
};
use crate::text::{copy_ids, ids_of, remove_id, without};

verus! {

/// The registry after the sources `found` were recorded in it, each under
/// its id; a later source replaces an earlier one of the same id.
pub open spec fn recorded(known: Map<Seq<char>, SourceView>, found: Seq<SourceView>) -> Map<
    Seq<char>,
    SourceView,
>
    decreases found.len(),
{
    if found.len() == 0 {
        known
    } else {
        recorded(known, found.drop_last()).insert(found.last().id, found.last())
    }
}

/// The registered sources among `ids`, in the order of `ids`.
pub open spec fn requested(known: Map<Seq<char>, SourceView>, ids: Seq<Seq<char>>) -> Seq<
    SourceView,
>
    decreases ids.len(),
{
    if ids.len() == 0 {
        Seq::<SourceView>::empty()
    } else {
        let rest = requested(known, ids.drop_last());
        if known.contains_key(ids.last()) {
            rest.push(known[ids.last()])
        } else {
            rest
        }
    }
}

/// The number of samples in all of `contents`.
pub open spec fn total_len(contents: Seq<Seq<Sample>>) -> nat
    decreases contents.len(),
{
    if contents.len() == 0 {
        0
    } else {
        total_len(contents.drop_last()) + contents.last().len()
    }
}

/// A summary of the engine's state.
#[derive(Debug)]
pub struct CaptureStatus {
    pub is_recording: bool,
    pub active_sources: usize,
    pub source_ids: Vec<String>,
    pub buffer_sizes: Vec<(String, usize)>,
    pub total_samples: u128,
}

/// Capture from several sources at once.
pub struct MultiSourceAudioCapture {
    config: MultiAudioConfig,
    sources: IdMap<AudioSource>,
    audio_buffers: BufferStore,
    is_recording: bool,
    active_streams: Vec<String>,
}

impl MultiSourceAudioCapture {
    /// The representation invariant of the engine: registry and buffers
    /// are well formed, and the engine records exactly while a stream runs.
    pub closed spec fn wf(&self) -> bool {
        &&& self.sources.wf()
        &&& self.audio_buffers.wf()
        &&& self.is_recording == (self.active_streams.len() > 0)
    }

    /// What the invariant gives a caller: the buffer store is well formed,
    /// so that every id has one buffer, and a recording runs exactly while
    /// there is an active stream. An idle engine has no active stream.
    pub proof fn lemma_wf(&self)
        requires
            self.wf(),
        ensures
            self.store().wf(),
            self.store().order().len() == self.store().contents().len(),
            self.store().order().no_duplicates(),
            self.recording() == (self.active().len() > 0),
    {
        self.audio_buffers.lemma_shape();
    }

    /// The parameters that the engine was made with.
    pub closed spec fn settings(&self) -> MultiAudioConfig {
        self.config
    }

    /// The registry: every source that a discovery pass found, by id.
    pub closed spec fn known(&self) -> Map<Seq<char>, SourceView> {
        self.sources@.map_values(|s: AudioSource| s@)
    }

    /// The buffers of the sources.
    pub closed spec fn store(&self) -> BufferStore {
        self.audio_buffers
    }

    /// Whether a recording runs.
    pub closed spec fn recording(&self) -> bool {
        self.is_recording
    }

    /// The ids of the sources whose streams run, in the order in which they
    /// started.
    pub closed spec fn active(&self) -> Seq<Seq<char>> {
        ids_of(self.active_streams@)
    }

    /// An engine without sources, buffers or streams.
    pub fn new(config: MultiAudioConfig) -> (r: Self)
        ensures
            r.wf(),
            r.settings() == config,
            r.known() == Map::<Seq<char>, SourceView>::empty(),
            r.store().wf(),
            r.store().order().len() == 0,
            r.store().contents().len() == 0,
            !r.recording(),
            r.active().len() == 0,
    {
        let r = MultiSourceAudioCapture {
            config,
            sources: IdMap::new(),
            audio_buffers: BufferStore::new(),
            is_recording: false,
            active_streams: Vec::new(),
        };
        proof {
            assert(r.known() =~= Map::<Seq<char>, SourceView>::empty());
        }
        r
    }

    /// Whether a recording runs.
    pub fn is_recording(&self) -> (r: bool)
        ensures
            r == self.recording(),
    {
        self.is_recording
    }

    /// The ids of the sources whose streams run.
    pub fn active_streams(&self) -> (r: Vec<String>)
        ensures
            ids_of(r@) == self.active(),
    {
        copy_ids(&self.active_streams)
    }

    /// The buffers of the sources.
    pub fn buffers(&self) -> (r: &BufferStore)
        ensures
            *r == self.store(),
    {
        &self.audio_buffers
    }

    /// Lists the sources that the host offers and records each in the
    /// registry under its id, for later lookup.
    pub fn discover_sources(
        &mut self,
        platform: Platform,
        default_output: Option<&str>,
        input_names: &Vec<String>,
    ) -> (r: Vec<AudioSource>)
        requires
            old(self).wf(),
        ensures
            final(self).wf(),
            source_views(r@) == discovered(
                platform,
                match default_output {
                    Some(n) => Some(n@),
                    None => None,
                },
                ids_of(input_names@),
            ),
            final(self).known() == recorded(old(self).known(), source_views(r@)),
            final(self).settings() == old(self).settings(),
            final(self).store() == old(self).store(),
            final(self).recording() == old(self).recording(),
            final(self).active() == old(self).active(),
    {
        let found = discover(platform, default_output, input_names);
        let ghost views = source_views(found@);
        let mut i: usize = 0;
        proof {
            assert(views.take(0) =~= Seq::<SourceView>::empty());
        }
        while i < found.len()
            invariant
                self.wf(),
                views == source_views(found@),
                i <= found.len(),
                self.known() == recorded(old(self).known(), views.take(i as int)),
                self.config == old(self).config,
                self.audio_buffers == old(self).audio_buffers,
                self.is_recording == old(self).is_recording,
                self.active_streams == old(self).active_streams,
            decreases found.len() - i,
        {
            let ghost before = self.sources@;
            let source = found[i].clone();
            let id = found[i].id.clone();
            self.sources.insert(id, source);
            proof {
                assert(views.take(i + 1).drop_last() =~= views.take(i as int));
                assert(views.take(i + 1).last() == found@[i as int]@);
                assert(self.sources@ == before.insert(found@[i as int].id@, source));
                assert(self.known() =~= before.map_values(|s: AudioSource| s@).insert(
                    found@[i as int].id@,
                    source@,
                ));
            }
            i = i + 1;
        }
        proof {
            assert(views.take(found.len() as int) =~= views);
        }
        found
    }

    /// The registered source of `id`, if there is one.
    pub fn source(&self, id: &str) -> (r: Option<AudioSource>)
        requires
            self.wf(),
        ensures
            r is Some <==> self.known().contains_key(id@),
            r matches Some(s) ==> s@ == self.known()[id@],
    {
        match self.sources.get(id) {
            Some(s) => Some(s.clone()),
            None => None,
        }
    }

    /// The first step of starting a recording: refuses where one runs
    /// already, and otherwise names the sources to open, which are the
    /// registered ones among `source_ids`, in that order. Unknown ids are
    /// passed over.
    pub fn start_multi_recording(&self, source_ids: &Vec<String>) -> (r: Result<
        Vec<AudioSource>,
        CaptureError,
    >)
        requires
            self.wf(),
        ensures
            self.recording() ==> r == Err::<Vec<AudioSource>, CaptureError>(
                CaptureError::AlreadyRecording,
            ),
            !self.recording() ==> (r matches Ok(list) && source_views(list@) == requested(
                self.known(),
                ids_of(source_ids@),
            )),
    {
        if self.is_recording {
            return Err(CaptureError::AlreadyRecording);
        }
        let ghost ids = ids_of(source_ids@);
        let mut list: Vec<AudioSource> = Vec::new();
        let mut i: usize = 0;
        proof {
            assert(ids.take(0) =~= Seq::<Seq<char>>::empty());
            assert(source_views(list@) =~= requested(self.known(), ids.take(0)));
        }
        while i < source_ids.len()
            invariant
                self.wf(),
                ids == ids_of(source_ids@),
                i <= source_ids.len(),
                source_views(list@) == requested(self.known(), ids.take(i as int)),
            decreases source_ids.len() - i,
        {
            proof {
                assert(ids.take(i + 1).drop_last() =~= ids.take(i as int));
                assert(ids.take(i + 1).last() == source_ids@[i as int]@);
            }
            let ghost before = source_views(list@);
            match self.source(source_ids[i].as_str()) {
                Some(s) => {
                    list.push(s);
                    proof {
                        assert(source_views(list@) =~= before.push(s@));
                    }
                },
                None => {},
            }
            i = i + 1;
        }
        proof {
            assert(ids.take(source_ids.len() as int) =~= ids);
        }
        Ok(list)
    }

    /// Gives the source `id` a fresh, empty buffer, as is done before its
    /// stream is opened.
    pub fn open_buffer(&mut self, id: &str)
        requires
            old(self).wf(),
        ensures
            final(self).wf(),
            final(self).store().has(id@),
            final(self).store().samples_of(id@) == Seq::<Sample>::empty(),
            old(self).store().has(id@) ==> final(self).store().order() == old(self).store().order()
                && final(self).store().contents() == old(self).store().contents().update(
                old(self).store().order().index_of(id@),
                Seq::<Sample>::empty(),
            ),
            !old(self).store().has(id@)
                ==> final(self).store().order() == old(self).store().order().push(id@)
                && final(self).store().contents() == old(self).store().contents().push(Seq::<Sample>::empty()),
            final(self).settings() == old(self).settings(),
            final(self).known() == old(self).known(),
            final(self).recording() == old(self).recording(),
            final(self).active() == old(self).active(),
    {
        self.audio_buffers.open(String::from_str(id));
    }

    /// The last step of starting a recording: takes the ids of the sources
    /// whose streams did start. Where at least one stream runs, the
    /// recording runs; where none does, the start fails with
    /// `NoSourcesStarted` and the engine stays idle. A source that failed to
    /// open does not stop the others.
    pub fn complete_recording(&mut self, started: Vec<String>) -> (r: Result<(), CaptureError>)
        requires
            old(self).wf(),
        ensures
            final(self).wf(),
            final(self).active() == old(self).active() + ids_of(started@),
            final(self).active().len() > 0
                ==> r == Ok::<(), CaptureError>(())
                && final(self).recording(),
            final(self).active().len() == 0 ==> r == Err::<(), CaptureError>(
                CaptureError::NoSourcesStarted,
            ) && final(self).recording() == old(self).recording(),
            final(self).settings() == old(self).settings(),
            final(self).known() == old(self).known(),
            final(self).store() == old(self).store(),
    {
        let mut started = started;
        let ghost added = ids_of(started@);
        self.active_streams.append(&mut started);
        proof {
            assert(ids_of(self.active_streams@) =~= old(self).active() + added);
        }
        if self.active_streams.len() > 0 {
            self.is_recording = true;
            Ok(())
        } else {
            Err(CaptureError::NoSourcesStarted)
        }
    }

    /// Stops the recording and names the streams to close. An idle engine
    /// is left as it is. The buffers keep what they hold.
    pub fn stop_recording(&mut self) -> (r: Vec<String>)
        requires
            old(self).wf(),
        ensures
            final(self).wf(),
            !final(self).recording(),
            old(self).recording() ==> ids_of(r@) == old(self).active() && final(self).active().len()
                == 0,
            !old(self).recording() ==> r.len() == 0 && final(self).active() == old(self).active(),
            final(self).settings() == old(self).settings(),
            final(self).known() == old(self).known(),
            final(self).store() == old(self).store(),
    {
        if !self.is_recording {
            return Vec::new();
        }
        self.is_recording = false;
        let mut closed: Vec<String> = Vec::new();
        core::mem::swap(&mut self.active_streams, &mut closed);
        proof {
            assert(ids_of(self.active_streams@) =~= Seq::<Seq<char>>::empty());
        }
        closed
    }

    /// Takes note that the stream of `id` failed while it ran: the source
    /// leaves the active set, the other sources go on, and the recording
    /// ends only when no stream is left.
    pub fn stream_failed(&mut self, id: &str)
        requires
            old(self).wf(),
        ensures
            final(self).wf(),
            final(self).active() == without(old(self).active(), id@),
            final(self).recording() == (old(self).recording() && final(self).active().len() > 0),
            final(self).settings() == old(self).settings(),
            final(self).known() == old(self).known(),
            final(self).store() == old(self).store(),
    {
        remove_id(&mut self.active_streams, id);
        if self.active_streams.len() == 0 {
            self.is_recording = false;
        }
    }

    /// Hands the samples that the stream of `id` delivered to the buffer of
    /// `id`. Samples of a source without a buffer are dropped.
    pub fn append_samples(&mut self, id: &str, data: &[Sample])
        requires
            old(self).wf(),
        ensures
            final(self).wf(),
            final(self).store().order() == old(self).store().order(),
            old(self).store().has(id@)
                ==> final(self).store().contents() == old(self).store().contents().update(
                old(self).store().order().index_of(id@),
                old(self).store().samples_of(id@) + data@,
            ),
            !old(self).store().has(id@)
                ==> final(self).store().contents() == old(self).store().contents(),
            final(self).settings() == old(self).settings(),
            final(self).known() == old(self).known(),
            final(self).recording() == old(self).recording(),
            final(self).active() == old(self).active(),
    {
        self.audio_buffers.append(id, data);
    }

    /// The mix of the active sources, read without consuming it. Where the
    /// engine was configured not to mix, the result is empty.
    pub fn get_mixed_audio(&self, max_samples: Option<usize>) -> (r: Vec<Sample>)
        requires
            self.wf(),
        ensures
            self.settings().mix_output ==> is_mix_of(
                r@,
                present(self.store().order(), self.store().contents(), self.active()),
                self.active().len(),
                max_samples,
            ),
            !self.settings().mix_output ==> r.len() == 0,
    {
        if self.config.mix_output {
            mix(&self.audio_buffers, &self.active_streams, max_samples)
        } else {
            Vec::new()
        }
    }

    /// The mix of the active sources, consumed: what went into the mix is
    /// removed from the buffer of each active source. Where the engine was
    /// configured not to mix, the result is empty and nothing is removed.
    pub fn take_mixed_audio(&mut self, max_samples: Option<usize>) -> (r: Vec<Sample>)
        requires
            old(self).wf(),
        ensures
            final(self).wf(),
            final(self).store().order() == old(self).store().order(),
            old(self).settings().mix_output ==> is_mix_of(
                r@,
                present(old(self).store().order(), old(self).store().contents(), old(self).active()),
                old(self).active().len(),
                max_samples,
            ) && final(self).store().contents() == after_drain(
                old(self).store().order(),
                old(self).store().contents(),
                old(self).active(),
                r.len(),
            ),
            !old(self).settings().mix_output
                ==> r.len() == 0
                && final(self).store() == old(self).store(),
            final(self).settings() == old(self).settings(),
            final(self).known() == old(self).known(),
            final(self).recording() == old(self).recording(),
            final(self).active() == old(self).active(),
    {
        if self.config.mix_output {
            mix_drain(&mut self.audio_buffers, &self.active_streams, max_samples)
        } else {
            Vec::new()
        }
    }

    /// Removes up to `max_samples` samples from the front of the buffer of
    /// `source_id` and returns them; an unknown id gives nothing. What is
    /// returned followed by what stays is what was held. Asking for more
    /// than is held gives all of it and leaves the buffer empty.
    pub fn get_source_audio(&mut self, source_id: &str, max_samples: Option<usize>) -> (r: Vec<
        Sample,
    >)
        requires
            old(self).wf(),
        ensures
            final(self).wf(),
            final(self).store().order() == old(self).store().order(),
            old(self).store().has(source_id@) ==> r@ == old(self).store().samples_of(
                source_id@,
            ).take(take_count(old(self).store().samples_of(source_id@).len(), max_samples) as int)
                && final(self).store().contents() == old(self).store().contents().update(
                old(self).store().order().index_of(source_id@),
                old(self).store().samples_of(source_id@).skip(
                    take_count(old(self).store().samples_of(source_id@).len(), max_samples) as int,
                ),
            ),
            !old(self).store().has(source_id@) ==> r.len() == 0 && final(self).store().contents()
                == old(self).store().contents(),
            old(self).store().has(source_id@) ==> final(self).store().has(source_id@)
                && r@ + final(self).store().samples_of(source_id@)
                == old(self).store().samples_of(source_id@),
            old(self).store().has(source_id@)
                && (max_samples matches Some(m)
                ==> m >= old(self).store().samples_of(source_id@).len())
                ==> r@ == old(self).store().samples_of(source_id@)
                && final(self).store().samples_of(source_id@).len() == 0,
            final(self).store().wf(),
            final(self).settings() == old(self).settings(),
            final(self).known() == old(self).known(),
            final(self).recording() == old(self).recording(),
            final(self).active() == old(self).active(),
    {
        self.audio_buffers.drain(source_id, max_samples)
    }

    /// The state of the engine in one value: whether it records, which
    /// sources are active, and how many samples wait in each buffer and in
    /// all of them.
    pub fn get_status(&self) -> (r: CaptureStatus)
        requires
            self.wf(),
        ensures
            r.is_recording == self.recording(),
            r.active_sources == self.active().len(),
            ids_of(r.source_ids@) == self.active(),
            r.buffer_sizes.len() == self.store().order().len(),
            forall|i: int|
                0 <= i < r.buffer_sizes.len() ==> (#[trigger] r.buffer_sizes[i]).0@
                    == self.store().order()[i] && r.buffer_sizes[i].1
                    == self.store().contents()[i].len(),
            r.total_samples == total_len(self.store().contents()),
    {
        let buffer_sizes = self.audio_buffers.peek_lengths();
        let ghost contents = self.audio_buffers.contents();
        let mut total: u128 = 0;
        let mut i: usize = 0;
        proof {
            self.audio_buffers.lemma_shape();
            assert(contents.take(0) =~= Seq::<Seq<Sample>>::empty());
        }
        while i < buffer_sizes.len()
            invariant
                contents == self.audio_buffers.contents(),
                buffer_sizes.len() == contents.len(),
                forall|k: int|
                    0 <= k < buffer_sizes.len() ==> (#[trigger] buffer_sizes[k]).1
                        == contents[k].len(),
                i <= buffer_sizes.len(),
                total == total_len(contents.take(i as int)),
                total <= i * usize::MAX,
            decreases buffer_sizes.len() - i,
        {
            proof {
                assert(contents.take(i + 1).drop_last() =~= contents.take(i as int));
                assert(contents.take(i + 1).last() == contents[i as int]);
                assert(i * usize::MAX + usize::MAX == (i + 1) * usize::MAX) by (nonlinear_arith);
                assert((i + 1) * usize::MAX <= usize::MAX * usize::MAX) by (nonlinear_arith)
                    requires
                        i + 1 <= usize::MAX,
                ;
                assert(usize::MAX * usize::MAX <= u128::MAX) by (nonlinear_arith)
                    requires
                        usize::MAX <= 0xffff_ffff_ffff_ffff,
                ;
            }
            total = total + buffer_sizes[i].1 as u128;
            i = i + 1;
        }
        proof {
            assert(contents.take(buffer_sizes.len() as int) =~= contents);
        }
        CaptureStatus {
            is_recording: self.is_recording,
            active_sources: self.active_streams.len(),
            source_ids: copy_ids(&self.active_streams),
            buffer_sizes,
            total_samples: total,
        }
    }
}

} // verus!
