//! The session manager: owns the one recording session that may be active,
//! starts and stops it, and drives its chunk scheduler.
//!
//! Starting a session takes two calls with the caller's work between them:
//! `begin_session` stops what runs and names what to open, the caller makes
//! the directory and opens the streams, `commit_session` takes the streams
//! that did start and makes the session active.

use vstd::prelude::*;
use vstd::string::*;
use crate::buffer::take_count;
use crate::capture::{requested, MultiSourceAudioCapture};
use crate::error::{clock_millis, CaptureError};
use crate::layout::{chunk_file_path, chunk_path, session_dir, session_directory};
use crate::mixer::{after_drain, lemma_mix_is_unique, mixed, present};
use crate::sample::Sample;
use crate::scheduler::{step, ChunkScheduler, ChunkWindow};
use crate::shell::AppHandle;
use crate::source::{
    discovered, id_of_first, mix_selection, select_mix, select_one, source_views, AudioSource,
    AudioSourceType, MultiAudioConfig, Platform,
};
use crate::text::{copy_ids, ids_of, is_digit};

verus! {

/// What a session records.
#[derive(Debug, Clone, Copy, PartialEq, Eq, Structural)]
pub enum SessionKind {
    Mic,
    System,
    Mix,
}

impl SessionKind {
    /// The name of the kind in chunk events.
    pub open spec fn name_spec(self) -> Seq<char> {
        match self {
            SessionKind::Mic => "mic"@,
            SessionKind::System => "system"@,
            SessionKind::Mix => "mix"@,
        }
    }

    /// The error of a session of this kind that finds no source to run
    /// on.
    pub open spec fn no_source_error(self) -> CaptureError {
        match self {
            SessionKind::Mic => CaptureError::NoMicrophoneSource,
            SessionKind::System => CaptureError::NoSystemAudioSource,
            SessionKind::Mix => CaptureError::NoSourcesForMix,
        }
    }

    /// The name of the kind in chunk events.
    pub fn name(&self) -> (r: &'static str)
        ensures
            r@ == self.name_spec(),
    {
        match self {
            SessionKind::Mic => "mic",
            SessionKind::System => "system",
            SessionKind::Mix => "mix",
        }
    }
}

/// One recording session.
#[derive(Debug)]
pub struct Session {
    pub id: String,
    pub source_ids: Vec<String>,
    pub kind: SessionKind,
    pub directory: String,
    pub chunk_index: u64,
    pub started_at: u128,
}

/// The mathematical value of a [`Session`].
pub ghost struct SessionView {
    pub id: Seq<char>,
    pub source_ids: Seq<Seq<char>>,
    pub kind: SessionKind,
    pub directory: Seq<char>,
    pub chunk_index: u64,
    pub started_at: u128,
}

impl View for Session {
    type V = SessionView;

    open spec fn view(&self) -> SessionView {
        SessionView {
            id: self.id@,
            source_ids: ids_of(self.source_ids@),
            kind: self.kind,
            directory: self.directory@,
            chunk_index: self.chunk_index,
            started_at: self.started_at,
        }
    }
}

impl Clone for Session {
    fn clone(&self) -> (r: Self)
        ensures
            r@ == self@,
    {
        Session {
            id: self.id.clone(),
            source_ids: copy_ids(&self.source_ids),
            kind: self.kind,
            directory: self.directory.clone(),
            chunk_index: self.chunk_index,
            started_at: self.started_at,
        }
    }
}

/// The id and the directory of the active session, where there is one.
#[derive(Debug)]
pub struct SessionInfo {
    pub session_id: Option<String>,
    pub session_dir: Option<String>,
}

/// The notice that a chunk was completed.
#[derive(Debug)]
pub struct ChunkEvent {
    pub session_id: String,
    pub index: u64,
    pub path: String,
    pub start_ms: u128,
    pub end_ms: u128,
    pub duration_ms: u128,
    pub bytes: u64,
    pub kind: String,
}

/// A session that was begun and waits for its streams.
#[derive(Debug)]
pub struct PendingSession {
    pub session_id: String,
    pub directory: String,
    pub kind: SessionKind,
    pub source_ids: Vec<String>,
    /// The registered sources among `source_ids`: the streams to open.
    pub to_open: Vec<AudioSource>,
}

/// What `begin_session` asks of the caller.
#[derive(Debug)]
pub struct StartPlan {
    /// The streams of the session that was stopped: to be closed first.
    pub closed: Vec<String>,
    /// The session to set up, or why none is.
    pub outcome: Result<PendingSession, CaptureError>,
}

/// One source's part of a chunk, written beside the chunk where separate
/// emission is on.
#[derive(Debug)]
pub struct SeparatePart {
    pub kind: SessionKind,
    pub path: String,
    pub samples: Vec<Sample>,
}

/// Whether `c` is a hexadecimal digit in lower case.
pub open spec fn is_lower_hex(c: char) -> bool {
    is_digit(c) || c == 'a' || c == 'b' || c == 'c' || c == 'd' || c == 'e' || c == 'f'
}

/// The shape of a session id: 32 hexadecimal digits in lower case, in
/// groups of 8, 4, 4, 4 and 12 with a hyphen between them.
pub open spec fn is_session_id(s: Seq<char>) -> bool {
    &&& s.len() == 36
    &&& forall|i: int|
        0 <= i < 36 ==> if i == 8 || i == 13 || i == 18 || i == 23 {
            #[trigger] s[i] == '-'
        } else {
            is_lower_hex(s[i])
        }
}

/// `uuid::Uuid::new_v4` followed by `to_string`: a random identifier in the
/// hyphenated lower-case form. The identifier is random, so only its shape
/// is stated. The library takes its random bytes from the operating system
/// and expects it to supply them.
#[verifier::external_body]
fn fresh_session_id() -> (r: String)
    ensures
        is_session_id(r@),
{
    uuid::Uuid::new_v4().to_string()
}

/// The start time of a session as an unsigned number: the milliseconds
/// since the Unix epoch, and for a clock before the epoch the two's
/// complement of the negative count.
pub open spec fn start_instant(now_ms: i64) -> int {
    if now_ms >= 0 {
        now_ms as int
    } else {
        now_ms + 0x1_0000_0000_0000_0000_0000_0000_0000_0000
    }
}

/// What a drain of at most `quota` samples takes from the buffer of `id`:
/// the front of what is held, or nothing where `id` has no buffer.
pub open spec fn front_of(
    order: Seq<Seq<char>>,
    contents: Seq<Seq<Sample>>,
    id: Seq<char>,
    quota: usize,
) -> Seq<Sample> {
    if order.contains(id) {
        let held = contents[order.index_of(id)];
        held.take(take_count(held.len(), Some(quota)) as int)
    } else {
        Seq::<Sample>::empty()
    }
}

/// The buffers after that drain.
pub open spec fn after_front(
    order: Seq<Seq<char>>,
    contents: Seq<Seq<Sample>>,
    id: Seq<char>,
    quota: usize,
) -> Seq<Seq<Sample>> {
    if order.contains(id) {
        let held = contents[order.index_of(id)];
        contents.update(order.index_of(id), held.skip(take_count(held.len(), Some(quota)) as int))
    } else {
        contents
    }
}

/// What one poll pulls from the engine for a session on the sources `ids`:
/// the mix of the active sources where the session has more than one
/// source, else the samples of its one source; in either case at most
/// `quota` samples.
pub open spec fn pulled(engine: MultiSourceAudioCapture, ids: Seq<Seq<char>>, quota: usize) -> Seq<
    Sample,
> {
    let store = engine.store();
    if ids.len() > 1 {
        if engine.settings().mix_output {
            mixed(
                present(store.order(), store.contents(), engine.active()),
                engine.active().len(),
                Some(quota),
            )
        } else {
            Seq::<Sample>::empty()
        }
    } else if ids.len() == 1 {
        front_of(store.order(), store.contents(), ids[0], quota)
    } else {
        Seq::<Sample>::empty()
    }
}

/// The buffers after that poll: what was pulled is gone from the front of
/// each buffer it was pulled from.
pub open spec fn buffers_after_pull(
    engine: MultiSourceAudioCapture,
    ids: Seq<Seq<char>>,
    quota: usize,
) -> Seq<Seq<Sample>> {
    let store = engine.store();
    if ids.len() > 1 {
        if engine.settings().mix_output {
            after_drain(
                store.order(),
                store.contents(),
                engine.active(),
                pulled(engine, ids, quota).len() as usize,
            )
        } else {
            store.contents()
        }
    } else if ids.len() == 1 {
        after_front(store.order(), store.contents(), ids[0], quota)
    } else {
        store.contents()
    }
}

/// The session manager.
pub struct AudioChunker {
    app_handle: Option<AppHandle>,
    capture: MultiSourceAudioCapture,
    session: Option<Session>,
    scheduler: Option<ChunkScheduler>,
    chunk_secs: u64,
    sample_rate: u32,
    emit_separate: bool,
}

impl AudioChunker {
    /// The engine is well formed; a scheduler exists exactly while a session
    /// is active, has the manager's rate and chunk duration, and has cut as
    /// many chunks as the session counts.
    pub closed spec fn wf(&self) -> bool {
        &&& self.capture.wf()
        &&& self.session is Some <==> self.scheduler is Some
        &&& self.scheduler matches Some(s) ==> s.wf() && s.rate() == self.sample_rate && s.seconds()
            == self.chunk_secs
        &&& (self.session matches Some(session) ==> self.scheduler matches Some(s)
            && session.chunk_index == s.chunks_cut())
    }

    /// The application handle, once it was set: the data directory that it
    /// gives, if it gives one.
    pub closed spec fn handle(&self) -> Option<Option<Seq<char>>> {
        match self.app_handle {
            Some(h) => Some(
                match h.app_data_dir {
                    Some(d) => Some(d@),
                    None => None,
                },
            ),
            None => None,
        }
    }

    /// The capture engine.
    pub closed spec fn engine(&self) -> MultiSourceAudioCapture {
        self.capture
    }

    /// The active session, if there is one.
    pub closed spec fn active_session(&self) -> Option<SessionView> {
        match self.session {
            Some(s) => Some(s@),
            None => None,
        }
    }

    /// The samples that wait in the scheduler of the active session.
    pub closed spec fn pending(&self) -> Seq<Sample> {
        match self.scheduler {
            Some(s) => s.pending(),
            None => Seq::<Sample>::empty(),
        }
    }

    /// The sample rate of sessions.
    pub closed spec fn rate(&self) -> u32 {
        self.sample_rate
    }

    /// The duration of a chunk in seconds.
    pub closed spec fn seconds(&self) -> u64 {
        self.chunk_secs
    }

    /// The number of samples in a chunk.
    pub open spec fn target(&self) -> nat {
        (self.rate() * self.seconds()) as nat
    }

    /// Whether each source's part is written beside a mixed chunk.
    pub closed spec fn separate(&self) -> bool {
        self.emit_separate
    }

    /// What stopping does: `after` has no session, nothing waits, no
    /// recording runs, and `closed` names the streams that ran; registry,
    /// buffers and settings are as in `before`.
    pub open spec fn stopped_from(before: Self, after: Self, closed: Seq<Seq<char>>) -> bool {
        &&& after.active_session() is None
        &&& after.pending() == Seq::<Sample>::empty()
        &&& !after.engine().recording()
        &&& before.engine().recording() ==> closed == before.engine().active()
            && after.engine().active().len() == 0
        &&& !before.engine().recording() ==> closed.len() == 0 && after.engine().active()
            == before.engine().active()
        &&& after.engine().known() == before.engine().known()
        &&& after.engine().store() == before.engine().store()
        &&& after.engine().settings() == before.engine().settings()
        &&& after.handle() == before.handle()
        &&& after.rate() == before.rate()
        &&& after.seconds() == before.seconds()
        &&& after.separate() == before.separate()
    }

    /// The outcome of beginning a session on `ids` under the id
    /// `session_id`: `AppHandleNotSet` exactly where no handle was set,
    /// else `DataDirUnavailable` exactly where the handle gives no data
    /// directory, else `ChunkLengthOverflow` exactly where a chunk of the
    /// configured length cannot be held, and else the pending session in
    /// its directory, with the registered sources among `ids` to open.
    pub open spec fn planned(
        before: Self,
        ids: Seq<Seq<char>>,
        kind: SessionKind,
        session_id: Seq<char>,
        outcome: Result<PendingSession, CaptureError>,
    ) -> bool {
        match before.handle() {
            None => outcome == Err::<PendingSession, CaptureError>(CaptureError::AppHandleNotSet),
            Some(None) => outcome == Err::<PendingSession, CaptureError>(
                CaptureError::DataDirUnavailable,
            ),
            Some(Some(root)) => if !ChunkScheduler::representable(
                before.rate(),
                before.seconds(),
            ) {
                outcome == Err::<PendingSession, CaptureError>(CaptureError::ChunkLengthOverflow)
            } else {
                &&& outcome is Ok
                &&& outcome->Ok_0.session_id@ == session_id
                &&& outcome->Ok_0.directory@ == session_directory(root, session_id)
                &&& outcome->Ok_0.kind == kind
                &&& ids_of(outcome->Ok_0.source_ids@) == ids
                &&& source_views(outcome->Ok_0.to_open@) == requested(before.engine().known(), ids)
            },
        }
    }

    /// What the invariant gives a caller: the engine and its buffer store
    /// are well formed, and the engine records exactly while a stream runs.
    pub proof fn lemma_wf(&self)
        requires
            self.wf(),
        ensures
            self.engine().wf(),
            self.engine().store().wf(),
            self.engine().store().order().len() == self.engine().store().contents().len(),
            self.engine().store().order().no_duplicates(),
            self.engine().recording() == (self.engine().active().len() > 0),
    {
        self.capture.lemma_wf();
    }

    /// What committing the begun session `pending` does, given the ids
    /// `started` of the sources whose streams run and the time `now_ms` of
    /// the start.
    ///
    /// Where a chunk of the configured length cannot be held, the outcome is
    /// `ChunkLengthOverflow` and nothing changes. Otherwise the started
    /// sources join the active streams. Where no stream runs then, the
    /// outcome is `NoSourcesStarted`: no recording runs, and session and
    /// waiting samples are as before. Where a stream runs, the recording
    /// runs and the session is active on the sources that were asked for,
    /// with no chunk cut and nothing waiting; its id is returned.
    pub open spec fn committed_from(
        before: Self,
        after: Self,
        pending: PendingSession,
        started: Seq<Seq<char>>,
        now_ms: i64,
        r: Result<String, CaptureError>,
    ) -> bool {
        &&& after.handle() == before.handle()
        &&& after.rate() == before.rate()
        &&& after.seconds() == before.seconds()
        &&& after.separate() == before.separate()
        &&& after.engine().known() == before.engine().known()
        &&& after.engine().store() == before.engine().store()
        &&& after.engine().settings() == before.engine().settings()
        &&& if !ChunkScheduler::representable(before.rate(), before.seconds()) {
            &&& r == Err::<String, CaptureError>(CaptureError::ChunkLengthOverflow)
            &&& after.active_session() == before.active_session()
            &&& after.pending() == before.pending()
            &&& after.engine() == before.engine()
        } else {
            &&& after.engine().active() == before.engine().active() + started
            &&& if after.engine().active().len() == 0 {
                &&& r == Err::<String, CaptureError>(CaptureError::NoSourcesStarted)
                &&& !after.engine().recording()
                &&& after.engine().recording() == before.engine().recording()
                &&& after.active_session() == before.active_session()
                &&& after.pending() == before.pending()
            } else {
                &&& r is Ok
                &&& r->Ok_0@ == pending.session_id@
                &&& after.engine().recording()
                &&& after.pending() == Seq::<Sample>::empty()
                &&& after.active_session() == Some(
                    SessionView {
                        id: pending.session_id@,
                        source_ids: ids_of(pending.source_ids@),
                        kind: pending.kind,
                        directory: pending.directory@,
                        chunk_index: 0,
                        started_at: start_instant(now_ms) as u128,
                    },
                )
            }
        }
    }

    /// Whether `event` is the notice for the chunk `window` of the session
    /// `session`, written as `bytes` bytes: it carries the session's id and
    /// kind, the chunk's index and place in time, and the path of the
    /// chunk's file in the session's directory.
    pub open spec fn is_event_of(
        event: ChunkEvent,
        session: SessionView,
        window: ChunkWindow,
        bytes: u64,
    ) -> bool {
        &&& event.session_id@ == session.id
        &&& event.index == window.index
        &&& event.path@ == chunk_path(session.directory, window.index as nat)
        &&& event.start_ms == window.start_ms
        &&& event.end_ms == window.end_ms
        &&& event.duration_ms == window.duration_ms
        &&& event.bytes == bytes
        &&& event.kind@ == session.kind.name_spec()
    }

    /// A manager without a session, for chunks of `chunk_secs` seconds at
    /// `sample_rate`. Its engine mixes into one channel.
    pub fn new(sample_rate: u32, chunk_secs: u64) -> (r: Self)
        ensures
            r.wf(),
            r.handle() is None,
            r.active_session() is None,
            r.rate() == sample_rate,
            r.seconds() == chunk_secs,
            !r.separate(),
            !r.engine().recording(),
            r.engine().active().len() == 0,
            r.engine().store().wf(),
            r.engine().store().order().len() == 0,
            r.engine().store().contents().len() == 0,
            r.pending() == Seq::<Sample>::empty(),
            r.engine().settings() == (MultiAudioConfig {
                sample_rate: sample_rate,
                channels: 1,
                buffer_size: 1024,
                max_sources: 4,
                mix_output: true,
            }),
    {
        let config = MultiAudioConfig {
            sample_rate,
            channels: 1,
            buffer_size: 1024,
            max_sources: 4,
            mix_output: true,
        };
        AudioChunker {
            app_handle: None,
            capture: MultiSourceAudioCapture::new(config),
            session: None,
            scheduler: None,
            chunk_secs,
            sample_rate,
            emit_separate: false,
        }
    }

    /// Sets the application handle, from which the directory of session
    /// directories is taken.
    pub fn set_app_handle(&mut self, handle: AppHandle)
        requires
            old(self).wf(),
        ensures
            final(self).wf(),
            final(self).handle() == Some(
                match handle.app_data_dir {
                    Some(d) => Some(d@),
                    None => None,
                },
            ),
            final(self).engine() == old(self).engine(),
            final(self).active_session() == old(self).active_session(),
            final(self).pending() == old(self).pending(),
            final(self).rate() == old(self).rate(),
            final(self).seconds() == old(self).seconds(),
            final(self).separate() == old(self).separate(),
    {
        self.app_handle = Some(handle);
    }

    /// Switches the writing of each source's part beside mixed chunks.
    pub fn toggle_separate_emission(&mut self, enabled: bool)
        requires
            old(self).wf(),
        ensures
            final(self).wf(),
            final(self).separate() == enabled,
            final(self).handle() == old(self).handle(),
            final(self).engine() == old(self).engine(),
            final(self).active_session() == old(self).active_session(),
            final(self).pending() == old(self).pending(),
            final(self).rate() == old(self).rate(),
            final(self).seconds() == old(self).seconds(),
    {
        self.emit_separate = enabled;
    }

    /// Lists the sources that the host offers and records them in the
    /// engine's registry.
    pub fn get_devices(
        &mut self,
        platform: Platform,
        default_output: Option<&str>,
        input_names: &Vec<String>,
    ) -> (r: Vec<AudioSource>)
        requires
            old(self).wf(),
        ensures
            final(self).wf(),
            source_views(r@) == discovered(
                platform,
                match default_output {
                    Some(n) => Some(n@),
                    None => None,
                },
                ids_of(input_names@),
            ),
            final(self).engine().known() == crate::capture::recorded(
                old(self).engine().known(),
                source_views(r@),
            ),
            final(self).engine().store() == old(self).engine().store(),
            final(self).engine().recording() == old(self).engine().recording(),
            final(self).engine().active() == old(self).engine().active(),
            final(self).engine().settings() == old(self).engine().settings(),
            final(self).handle() == old(self).handle(),
            final(self).active_session() == old(self).active_session(),
            final(self).pending() == old(self).pending(),
            final(self).rate() == old(self).rate(),
            final(self).seconds() == old(self).seconds(),
            final(self).separate() == old(self).separate(),
    {
        self.capture.discover_sources(platform, default_output, input_names)
    }

    /// The active session, if there is one.
    pub fn get_active_session(&self) -> (r: Option<Session>)
        ensures
            match r {
                Some(s) => self.active_session() == Some(s@),
                None => self.active_session() is None,
            },
    {
        match &self.session {
            Some(s) => Some(s.clone()),
            None => None,
        }
    }

    /// The id and the directory of the active session.
    pub fn session_info(&self) -> (r: SessionInfo)
        ensures
            match self.active_session() {
                Some(s) => r.session_id is Some && r.session_id->0@ == s.id && r.session_dir is Some
                    && r.session_dir->0@ == s.directory,
                None => r.session_id is None && r.session_dir is None,
            },
    {
        match &self.session {
            Some(s) => SessionInfo {
                session_id: Some(s.id.clone()),
                session_dir: Some(s.directory.clone()),
            },
            None => SessionInfo { session_id: None, session_dir: None },
        }
    }

    /// Names the directory of the session `session_id` below the data
    /// directory of the application. Fails with `AppHandleNotSet` exactly
    /// where no handle was set, and with `DataDirUnavailable` exactly where
    /// the handle gives no data directory.
    pub fn resolve_session_dir(&self, session_id: &str) -> (r: Result<String, CaptureError>)
        ensures
            match self.handle() {
                None => r == Err::<String, CaptureError>(CaptureError::AppHandleNotSet),
                Some(None) => r == Err::<String, CaptureError>(CaptureError::DataDirUnavailable),
                Some(Some(root)) => r is Ok && r->Ok_0@ == session_directory(root, session_id@),
            },
    {
        match &self.app_handle {
            None => Err(CaptureError::AppHandleNotSet),
            Some(h) => match &h.app_data_dir {
                None => Err(CaptureError::DataDirUnavailable),
                Some(root) => Ok(session_dir(root.as_str(), session_id)),
            },
        }
    }

    /// Stops the active session, if there is one: the recording ends, the
    /// session is cleared, and what waited for the next chunk is dropped
    /// unwritten. The result names the streams to close.
    pub fn stop_all(&mut self) -> (closed: Vec<String>)
        requires
            old(self).wf(),
        ensures
            final(self).wf(),
            Self::stopped_from(*old(self), *final(self), ids_of(closed@)),
    {
        let closed = self.capture.stop_recording();
        self.session = None;
        self.scheduler = None;
        closed
    }

    /// Begins a session on `source_ids` under the id `session_id`.
    ///
    /// Whatever session is active is stopped first, so that no two sessions
    /// ever write at once; its streams are named in `closed`. Then the
    /// session directory is named below the data directory. For the
    /// outcome see `planned`.
    pub fn begin_session_with(
        &mut self,
        source_ids: Vec<String>,
        kind: SessionKind,
        session_id: String,
    ) -> (plan: StartPlan)
        requires
            old(self).wf(),
        ensures
            final(self).wf(),
            Self::stopped_from(*old(self), *final(self), ids_of(plan.closed@)),
            Self::planned(*old(self), ids_of(source_ids@), kind, session_id@, plan.outcome),
    {
        let closed = self.stop_all();
        let directory = match self.resolve_session_dir(session_id.as_str()) {
            Ok(d) => d,
            Err(e) => {
                return StartPlan { closed, outcome: Err(e) };
            },
        };
        if ChunkScheduler::new(self.sample_rate, self.chunk_secs).is_none() {
            return StartPlan { closed, outcome: Err(CaptureError::ChunkLengthOverflow) };
        }
        match self.capture.start_multi_recording(&source_ids) {
            Ok(to_open) => StartPlan {
                closed,
                outcome: Ok(PendingSession { session_id, directory, kind, source_ids, to_open }),
            },
            Err(e) => StartPlan { closed, outcome: Err(e) },
        }
    }

    /// Begins a session on `source_ids` under a fresh random id. See
    /// `begin_session_with`, which this calls; the id of the pending session
    /// has the shape of a session id.
    pub fn begin_session(&mut self, source_ids: Vec<String>, kind: SessionKind) -> (plan: StartPlan)
        requires
            old(self).wf(),
        ensures
            final(self).wf(),
            Self::stopped_from(*old(self), *final(self), ids_of(plan.closed@)),
            exists|session_id: Seq<char>|
                is_session_id(session_id) && Self::planned(
                    *old(self),
                    ids_of(source_ids@),
                    kind,
                    session_id,
                    plan.outcome,
                ),
    {
        let session_id = fresh_session_id();
        let ghost id = session_id@;
        let plan = self.begin_session_with(source_ids, kind, session_id);
        proof {
            assert(is_session_id(id) && Self::planned(
                *old(self),
                ids_of(source_ids@),
                kind,
                id,
                plan.outcome,
            ));
        }
        plan
    }

    /// Makes a begun session active, given the ids of the sources whose
    /// streams did start and the time of the start.
    ///
    /// Where no stream runs the outcome is `NoSourcesStarted`, and no
    /// recording runs. Otherwise the session is active on the sources that
    /// were asked for, with no chunk cut and nothing waiting, and its id is
    /// returned. One failed source does not keep the others from recording.
    /// The whole of it is `committed_from`.
    pub fn commit_session_at(&mut self, pending: PendingSession, started: Vec<String>, now_ms: i64)
        -> (r: Result<String, CaptureError>)
        requires
            old(self).wf(),
        ensures
            final(self).wf(),
            Self::committed_from(*old(self), *final(self), pending, ids_of(started@), now_ms, r),
    {
        let scheduler = match ChunkScheduler::new(self.sample_rate, self.chunk_secs) {
            Some(s) => s,
            None => {
                return Err(CaptureError::ChunkLengthOverflow);
            },
        };
        match self.capture.complete_recording(started) {
            Ok(()) => {},
            Err(e) => {
                proof {
                    self.capture.lemma_wf();
                }
                return Err(e);
            },
        }
        let started_at: u128 = if now_ms >= 0 {
            now_ms as u128
        } else {
            u128::MAX - ((-(now_ms + 1)) as u128)
        };
        let id = pending.session_id.clone();
        self.session = Some(
            Session {
                id: pending.session_id,
                source_ids: pending.source_ids,
                kind: pending.kind,
                directory: pending.directory,
                chunk_index: 0,
                started_at,
            },
        );
        self.scheduler = Some(scheduler);
        Ok(id)
    }

    /// Makes a begun session active as of now. See `commit_session_at`,
    /// which this calls with the reading of the clock; the start time of
    /// the session is therefore not stated.
    pub fn commit_session(&mut self, pending: PendingSession, started: Vec<String>) -> (r: Result<
        String,
        CaptureError,
    >)
        requires
            old(self).wf(),
        ensures
            final(self).wf(),
            exists|now_ms: i64|
                Self::committed_from(
                    *old(self),
                    *final(self),
                    pending,
                    ids_of(started@),
                    now_ms,
                    r,
                ),
    {
        let now = clock_millis();
        let ghost asked = pending;
        let ghost ids = ids_of(started@);
        let r = self.commit_session_at(pending, started, now);
        proof {
            assert(Self::committed_from(*old(self), *self, asked, ids, now, r));
        }
        r
    }
}

impl AudioChunker {
    /// What `start_mic`, `start_system` and `start_mix` do once the sources
    /// of the host are known to be `found` and `chosen` are the ids picked
    /// among them: with nothing chosen the outcome is the error that names
    /// what a session of this kind misses, and the active session goes on
    /// untouched; otherwise the active session is stopped and a session on
    /// `chosen` is begun.
    pub open spec fn started_from(
        before: Self,
        after: Self,
        found: Seq<crate::source::SourceView>,
        chosen: Seq<Seq<char>>,
        kind: SessionKind,
        plan: StartPlan,
    ) -> bool {
        let known = crate::capture::recorded(before.engine().known(), found);
        &&& after.engine().known() == known
        &&& after.engine().store() == before.engine().store()
        &&& after.engine().settings() == before.engine().settings()
        &&& after.handle() == before.handle()
        &&& after.rate() == before.rate()
        &&& after.seconds() == before.seconds()
        &&& after.separate() == before.separate()
        &&& if chosen.len() == 0 {
            &&& plan.outcome == Err::<PendingSession, CaptureError>(kind.no_source_error())
            &&& plan.closed.len() == 0
            &&& after.active_session() == before.active_session()
            &&& after.pending() == before.pending()
            &&& after.engine().recording() == before.engine().recording()
            &&& after.engine().active() == before.engine().active()
        } else {
            &&& after.active_session() is None
            &&& after.pending() == Seq::<Sample>::empty()
            &&& !after.engine().recording()
            &&& before.engine().recording() ==> ids_of(plan.closed@) == before.engine().active()
                && after.engine().active().len() == 0
            &&& !before.engine().recording() ==> plan.closed.len() == 0 && after.engine().active()
                == before.engine().active()
            &&& match before.handle() {
                None => plan.outcome == Err::<PendingSession, CaptureError>(
                    CaptureError::AppHandleNotSet,
                ),
                Some(None) => plan.outcome == Err::<PendingSession, CaptureError>(
                    CaptureError::DataDirUnavailable,
                ),
                Some(Some(root)) => if !ChunkScheduler::representable(
                    before.rate(),
                    before.seconds(),
                ) {
                    plan.outcome == Err::<PendingSession, CaptureError>(
                        CaptureError::ChunkLengthOverflow,
                    )
                } else {
                    &&& plan.outcome is Ok
                    &&& is_session_id(plan.outcome->Ok_0.session_id@)
                    &&& plan.outcome->Ok_0.directory@ == session_directory(
                        root,
                        plan.outcome->Ok_0.session_id@,
                    )
                    &&& plan.outcome->Ok_0.kind == kind
                    &&& ids_of(plan.outcome->Ok_0.source_ids@) == chosen
                    &&& source_views(plan.outcome->Ok_0.to_open@) == requested(known, chosen)
                },
            }
        }
    }

    /// Discovers the sources, picks those of the wanted kind and begins a
    /// session on them.
    fn start_kind(
        &mut self,
        platform: Platform,
        default_output: Option<&str>,
        input_names: &Vec<String>,
        kind: SessionKind,
    ) -> (plan: StartPlan)
        requires
            old(self).wf(),
        ensures
            final(self).wf(),
            Self::started_from(
                *old(self),
                *final(self),
                discovered(
                    platform,
                    match default_output {
                        Some(n) => Some(n@),
                        None => None,
                    },
                    ids_of(input_names@),
                ),
                match kind {
                    SessionKind::Mic => id_of_first(
                        discovered(
                            platform,
                            match default_output {
                                Some(n) => Some(n@),
                                None => None,
                            },
                            ids_of(input_names@),
                        ),
                        AudioSourceType::Microphone,
                    ),
                    SessionKind::System => id_of_first(
                        discovered(
                            platform,
                            match default_output {
                                Some(n) => Some(n@),
                                None => None,
                            },
                            ids_of(input_names@),
                        ),
                        AudioSourceType::SystemAudio,
                    ),
                    SessionKind::Mix => mix_selection(
                        discovered(
                            platform,
                            match default_output {
                                Some(n) => Some(n@),
                                None => None,
                            },
                            ids_of(input_names@),
                        ),
                    ),
                },
                kind,
                plan,
            ),
    {
        let sources = self.get_devices(platform, default_output, input_names);
        let choice = match kind {
            SessionKind::Mic => select_one(&sources, AudioSourceType::Microphone),
            SessionKind::System => select_one(&sources, AudioSourceType::SystemAudio),
            SessionKind::Mix => select_mix(&sources),
        };
        match choice {
            Ok(ids) => {
                proof {
                    assert(ids_of(ids@).len() == ids.len());
                }
                self.begin_session(ids, kind)
            },
            Err(e) => StartPlan { closed: Vec::new(), outcome: Err(e) },
        }
    }

    /// Begins a session on the first microphone that the host offers.
    pub fn start_mic(
        &mut self,
        platform: Platform,
        default_output: Option<&str>,
        input_names: &Vec<String>,
    ) -> (plan: StartPlan)
        requires
            old(self).wf(),
        ensures
            final(self).wf(),
            Self::started_from(
                *old(self),
                *final(self),
                discovered(
                    platform,
                    match default_output {
                        Some(n) => Some(n@),
                        None => None,
                    },
                    ids_of(input_names@),
                ),
                id_of_first(
                    discovered(
                        platform,
                        match default_output {
                            Some(n) => Some(n@),
                            None => None,
                        },
                        ids_of(input_names@),
                    ),
                    AudioSourceType::Microphone,
                ),
                SessionKind::Mic,
                plan,
            ),
    {
        self.start_kind(platform, default_output, input_names, SessionKind::Mic)
    }

    /// Begins a session on the system-audio source that the host offers.
    pub fn start_system(
        &mut self,
        platform: Platform,
        default_output: Option<&str>,
        input_names: &Vec<String>,
    ) -> (plan: StartPlan)
        requires
            old(self).wf(),
        ensures
            final(self).wf(),
            Self::started_from(
                *old(self),
                *final(self),
                discovered(
                    platform,
                    match default_output {
                        Some(n) => Some(n@),
                        None => None,
                    },
                    ids_of(input_names@),
                ),
                id_of_first(
                    discovered(
                        platform,
                        match default_output {
                            Some(n) => Some(n@),
                            None => None,
                        },
                        ids_of(input_names@),
                    ),
                    AudioSourceType::SystemAudio,
                ),
                SessionKind::System,
                plan,
            ),
    {
        self.start_kind(platform, default_output, input_names, SessionKind::System)
    }

    /// Begins a session on the first microphone and the system-audio source
    /// together. Where the host offers only one of the two, the session
    /// runs on that one alone.
    pub fn start_mix(
        &mut self,
        platform: Platform,
        default_output: Option<&str>,
        input_names: &Vec<String>,
    ) -> (plan: StartPlan)
        requires
            old(self).wf(),
        ensures
            final(self).wf(),
            Self::started_from(
                *old(self),
                *final(self),
                discovered(
                    platform,
                    match default_output {
                        Some(n) => Some(n@),
                        None => None,
                    },
                    ids_of(input_names@),
                ),
                mix_selection(
                    discovered(
                        platform,
                        match default_output {
                            Some(n) => Some(n@),
                            None => None,
                        },
                        ids_of(input_names@),
                    ),
                ),
                SessionKind::Mix,
                plan,
            ),
    {
        self.start_kind(platform, default_output, input_names, SessionKind::Mix)
    }

    /// The capture engine, to read its state.
    pub fn capture(&self) -> (r: &MultiSourceAudioCapture)
        ensures
            *r == self.engine(),
    {
        &self.capture
    }

    /// Gives the source `id` a fresh, empty buffer, as is done before its
    /// stream is opened.
    pub fn open_stream_buffer(&mut self, id: &str)
        requires
            old(self).wf(),
        ensures
            final(self).wf(),
            final(self).engine().store().has(id@),
            final(self).engine().store().samples_of(id@) == Seq::<Sample>::empty(),
            old(self).engine().store().has(id@)
                ==> final(self).engine().store().order() == old(self).engine().store().order()
                && final(self).engine().store().contents() == old(self).engine().store().contents().update(
                old(self).engine().store().order().index_of(id@),
                Seq::<Sample>::empty(),
            ),
            !old(self).engine().store().has(id@)
                ==> final(self).engine().store().order() == old(self).engine().store().order().push(id@)
                && final(self).engine().store().contents() == old(self).engine().store().contents().push(Seq::<Sample>::empty()),
            final(self).engine().settings() == old(self).engine().settings(),
            final(self).engine().known() == old(self).engine().known(),
            final(self).engine().recording() == old(self).engine().recording(),
            final(self).engine().active() == old(self).engine().active(),
            final(self).handle() == old(self).handle(),
            final(self).active_session() == old(self).active_session(),
            final(self).pending() == old(self).pending(),
            final(self).rate() == old(self).rate(),
            final(self).seconds() == old(self).seconds(),
            final(self).separate() == old(self).separate(),
    {
        self.capture.open_buffer(id);
    }

    /// Hands the samples that the stream of `id` delivered to the buffer of
    /// `id`. Samples of a source without a buffer are dropped.
    pub fn feed(&mut self, id: &str, data: &[Sample])
        requires
            old(self).wf(),
        ensures
            final(self).wf(),
            final(self).engine().store().order() == old(self).engine().store().order(),
            old(self).engine().store().has(id@)
                ==> final(self).engine().store().contents() == old(self).engine().store().contents().update(
                old(self).engine().store().order().index_of(id@),
                old(self).engine().store().samples_of(id@) + data@,
            ),
            !old(self).engine().store().has(id@)
                ==> final(self).engine().store().contents() == old(self).engine().store().contents(),
            final(self).engine().settings() == old(self).engine().settings(),
            final(self).engine().known() == old(self).engine().known(),
            final(self).engine().recording() == old(self).engine().recording(),
            final(self).engine().active() == old(self).engine().active(),
            final(self).handle() == old(self).handle(),
            final(self).active_session() == old(self).active_session(),
            final(self).pending() == old(self).pending(),
            final(self).rate() == old(self).rate(),
            final(self).seconds() == old(self).seconds(),
            final(self).separate() == old(self).separate(),
    {
        self.capture.append_samples(id, data);
    }

    /// Takes note that the stream of `id` failed while it ran: the source
    /// leaves the active set and the other sources go on. The session stays
    /// until it is stopped.
    pub fn stream_failed(&mut self, id: &str)
        requires
            old(self).wf(),
        ensures
            final(self).wf(),
            final(self).engine().active() == crate::text::without(old(self).engine().active(), id@),
            final(self).engine().recording() == (old(self).engine().recording()
                && final(self).engine().active().len() > 0),
            final(self).engine().settings() == old(self).engine().settings(),
            final(self).engine().known() == old(self).engine().known(),
            final(self).engine().store() == old(self).engine().store(),
            final(self).handle() == old(self).handle(),
            final(self).active_session() == old(self).active_session(),
            final(self).pending() == old(self).pending(),
            final(self).rate() == old(self).rate(),
            final(self).seconds() == old(self).seconds(),
            final(self).separate() == old(self).separate(),
    {
        self.capture.stream_failed(id);
    }

    /// The most samples that one poll pulls: a fifth of a chunk.
    pub open spec fn quota(&self) -> usize {
        (self.target() / 5) as usize
    }

    /// One poll of the scheduler of the active session.
    ///
    /// Pulls at most a fifth of a chunk from the engine, consuming what it
    /// pulls, and hands it to the scheduler. Where that completes a chunk,
    /// the chunk is returned and the session counts it. Without an active
    /// session nothing happens.
    pub fn poll(&mut self) -> (r: Option<ChunkWindow>)
        requires
            old(self).wf(),
            old(self).active_session() matches Some(s) ==> s.chunk_index < u64::MAX,
        ensures
            final(self).wf(),
            final(self).handle() == old(self).handle(),
            final(self).rate() == old(self).rate(),
            final(self).seconds() == old(self).seconds(),
            final(self).separate() == old(self).separate(),
            final(self).engine().known() == old(self).engine().known(),
            final(self).engine().settings() == old(self).engine().settings(),
            final(self).engine().recording() == old(self).engine().recording(),
            final(self).engine().active() == old(self).engine().active(),
            final(self).engine().store().order() == old(self).engine().store().order(),
            old(self).active_session() is None ==> r is None && final(self).active_session() is None
                && final(self).engine().store() == old(self).engine().store()
                    && final(self).pending() == old(self).pending(),
            old(self).active_session() matches Some(s) ==> ({
                let incoming = pulled(old(self).engine(), s.source_ids, old(self).quota());
                let next = step(
                    old(self).target(),
                    s.chunk_index as nat,
                    old(self).pending(),
                    incoming,
                );
                &&& final(self).engine().store().contents() == buffers_after_pull(
                    old(self).engine(),
                    s.source_ids,
                    old(self).quota(),
                )
                &&& final(self).pending() == next.pending
                &&& final(self).active_session() == Some(
                    SessionView { chunk_index: next.index as u64, ..s },
                )
                &&& match r {
                    Some(w) => next.cut == Some((w.index as nat, w.samples@)) && w.index
                        == s.chunk_index + 1 && w.samples.len() == old(self).target()
                        && w.duration_ms == old(self).seconds() * 1000 && w.start_ms == (w.index
                        - 1) * old(self).seconds() * 1000
                            && w.end_ms == w.index * old(self).seconds() * 1000
                            && w.end_ms - w.start_ms == w.duration_ms,
                    None => next.cut is None,
                }
            }),
    {
        let mut session = match self.session.take() {
            Some(s) => s,
            None => {
                return None;
            },
        };
        let mut scheduler = match self.scheduler.take() {
            Some(s) => s,
            None => {
                self.session = Some(session);
                return None;
            },
        };
        let quota = scheduler.poll_quota();
        let incoming = if session.source_ids.len() > 1 {
            let mixed_now = self.capture.take_mixed_audio(Some(quota));
            proof {
                if old(self).engine().settings().mix_output {
                    lemma_mix_is_unique(
                        mixed_now@,
                        present(
                            old(self).engine().store().order(),
                            old(self).engine().store().contents(),
                            old(self).engine().active(),
                        ),
                        old(self).engine().active().len(),
                        Some(quota),
                    );
                } else {
                    assert(mixed_now@ =~= Seq::<Sample>::empty());
                }
            }
            mixed_now
        } else if session.source_ids.len() == 1 {
            let taken = self.capture.get_source_audio(session.source_ids[0].as_str(), Some(quota));
            proof {
                assert(ids_of(session.source_ids@)[0] == session.source_ids@[0]@);
                if !old(self).engine().store().has(session.source_ids@[0]@) {
                    assert(taken@ =~= Seq::<Sample>::empty());
                }
            }
            taken
        } else {
            Vec::new()
        };
        let window = scheduler.accept(incoming);
        session.chunk_index = scheduler.chunk_index();
        self.session = Some(session);
        self.scheduler = Some(scheduler);
        window
    }

    /// The notice for a chunk of the active session that was written as
    /// `bytes` bytes: the session's id and kind, the chunk's index and place
    /// in time, and its path in the session's directory. Without an active
    /// session there is no notice.
    pub fn chunk_event(&self, window: &ChunkWindow, bytes: u64) -> (r: Option<ChunkEvent>)
        ensures
            match self.active_session() {
                None => r is None,
                Some(s) => r is Some && Self::is_event_of(r->0, s, *window, bytes),
            },
    {
        match &self.session {
            None => None,
            Some(s) => Some(
                ChunkEvent {
                    session_id: s.id.clone(),
                    index: window.index,
                    path: chunk_file_path(s.directory.as_str(), window.index),
                    start_ms: window.start_ms,
                    end_ms: window.end_ms,
                    duration_ms: window.duration_ms,
                    bytes,
                    kind: String::from_str(s.kind.name()),
                },
            ),
        }
    }

    /// What follows the attempt to write a chunk, given the number of bytes
    /// written or the error of the write. A chunk that was written is made
    /// known by its notice. A chunk whose write failed is dropped: there is
    /// no notice, the session keeps its count, and polling goes on. Without
    /// an active session there is no notice either.
    pub fn chunk_written(&self, window: &ChunkWindow, written: Result<u64, CaptureError>) -> (r:
        Option<ChunkEvent>)
        ensures
            match (self.active_session(), written) {
                (Some(s), Ok(bytes)) => r is Some && Self::is_event_of(r->0, s, *window, bytes),
                _ => r is None,
            },
    {
        match written {
            Ok(bytes) => self.chunk_event(window, bytes),
            Err(_) => None,
        }
    }

    /// Whether each source's part is written beside the chunks of the
    /// active session: separate emission is on and the session has more
    /// than one source.
    pub open spec fn emits_parts(&self) -> bool {
        self.separate()
            && self.active_session() is Some
            && self.active_session()->0.source_ids.len()
            > 1
    }

    /// Each source's part for the chunk with index `index`, where parts are
    /// emitted: up to a fifth of a chunk is drained from the buffer of the
    /// session's first source, then from that of its second. The first
    /// gives the microphone part, the second the system part; a source that
    /// has nothing gives no part.
    pub fn separate_parts(&mut self, index: u64) -> (r: (Option<SeparatePart>, Option<SeparatePart>))
        requires
            old(self).wf(),
        ensures
            final(self).wf(),
            final(self).handle() == old(self).handle(),
            final(self).rate() == old(self).rate(),
            final(self).seconds() == old(self).seconds(),
            final(self).separate() == old(self).separate(),
            final(self).active_session() == old(self).active_session(),
            final(self).pending() == old(self).pending(),
            final(self).engine().known() == old(self).engine().known(),
            final(self).engine().settings() == old(self).engine().settings(),
            final(self).engine().recording() == old(self).engine().recording(),
            final(self).engine().active() == old(self).engine().active(),
            final(self).engine().store().order() == old(self).engine().store().order(),
            !old(self).emits_parts() ==> r.0 is None && r.1 is None && final(self).engine().store()
                == old(self).engine().store(),
            old(self).emits_parts() ==> ({
                let s = old(self).active_session()->0;
                let order = old(self).engine().store().order();
                let before = old(self).engine().store().contents();
                let first = front_of(order, before, s.source_ids[0], old(self).quota());
                let between = after_front(order, before, s.source_ids[0], old(self).quota());
                let second = front_of(order, between, s.source_ids[1], old(self).quota());
                &&& final(self).engine().store().contents() == after_front(
                    order,
                    between,
                    s.source_ids[1],
                    old(self).quota(),
                )
                &&& r.0 is Some <==> first.len() > 0
                &&& r.0 matches Some(p) ==> p.kind == SessionKind::Mic && p.samples@ == first
                    && p.path@ == s.directory + "/"@ + crate::layout::separate_file_name(
                    index as nat,
                    "mic"@,
                )
                &&& r.1 is Some <==> second.len() > 0
                &&& r.1 matches Some(p) ==> p.kind == SessionKind::System && p.samples@ == second
                    && p.path@ == s.directory + "/"@ + crate::layout::separate_file_name(
                    index as nat,
                    "sys"@,
                )
            }),
    {
        if !self.emit_separate {
            return (None, None);
        }
        let (first_id, second_id, directory, quota) = match (&self.session, &self.scheduler) {
            (Some(s), Some(sched)) => {
                if s.source_ids.len() <= 1 {
                    return (None, None);
                }
                proof {
                    assert(ids_of(s.source_ids@)[0] == s.source_ids@[0]@);
                    assert(ids_of(s.source_ids@)[1] == s.source_ids@[1]@);
                }
                (
                    s.source_ids[0].clone(),
                    s.source_ids[1].clone(),
                    s.directory.clone(),
                    sched.poll_quota(),
                )
            },
            _ => {
                return (None, None);
            },
        };
        let first = self.capture.get_source_audio(first_id.as_str(), Some(quota));
        proof {
            if !old(self).engine().store().has(first_id@) {
                assert(first@ =~= Seq::<Sample>::empty());
            }
        }
        let second = self.capture.get_source_audio(second_id.as_str(), Some(quota));
        proof {
            if !old(self).engine().store().has(second_id@) {
                assert(second@ =~= Seq::<Sample>::empty());
            }
        }
        let mic = if first.len() > 0 {
            Some(
                SeparatePart {
                    kind: SessionKind::Mic,
                    path: crate::layout::separate_file_path(directory.as_str(), index, "mic"),
                    samples: first,
                },
            )
        } else {
            None
        };
        let system = if second.len() > 0 {
            Some(
                SeparatePart {
                    kind: SessionKind::System,
                    path: crate::layout::separate_file_path(directory.as_str(), index, "sys"),
                    samples: second,
                },
            )
        } else {
            None
        };
        (mic, system)
    }
}

} // verus!
