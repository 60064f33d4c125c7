//! Opening one capture stream: which device and configuration to try, in
//! which order, what to do when an attempt fails, and how the samples that
//! the device delivers are converted.
//!
//! The audio host itself is driven from outside. After each attempt the
//! caller reports how far it got; the [`StreamOpener`] answers with what to
//! do next.

use vstd::prelude::*;
use vstd::string::*;
use crate::error::CaptureError;
use crate::source::{AudioSourceType, Platform};
use crate::text::{chars_of, contains, has_prefix, index_value, occurs_in, parse_index, starts_with};

verus! {

/// The sample type that a device delivers.
#[derive(Debug, Clone, Copy, PartialEq, Eq, Structural)]
pub enum SampleFormatKind {
    I8,
    I16,
    I32,
    I64,
    U8,
    U16,
    U32,
    U64,
    F32,
    F64,
}

/// One stream configuration that a device supports.
#[derive(Debug, Clone, Copy, PartialEq, Eq, Structural)]
pub struct StreamFormat {
    pub channels: u16,
    pub sample_rate: u32,
    pub sample_format: SampleFormatKind,
}

/// A range of stream configurations that differ in sample rate only.
#[derive(Debug, Clone, Copy, PartialEq, Eq, Structural)]
pub struct FormatRange {
    pub channels: u16,
    pub min_sample_rate: u32,
    pub max_sample_rate: u32,
    pub sample_format: SampleFormatKind,
}

impl FormatRange {
    /// The configuration of the range with the highest sample rate.
    pub fn with_max_sample_rate(self) -> (r: StreamFormat)
        ensures
            r == (StreamFormat {
                channels: self.channels,
                sample_rate: self.max_sample_rate,
                sample_format: self.sample_format,
            }),
    {
        StreamFormat {
            channels: self.channels,
            sample_rate: self.max_sample_rate,
            sample_format: self.sample_format,
        }
    }
}

/// The configuration to open a device with: its default input
/// configuration where it has one, else the first range it supports, at the
/// highest rate of that range.
pub open spec fn negotiated(default_config: Option<StreamFormat>, first_range: Option<FormatRange>)
    -> Option<StreamFormat> {
    match default_config {
        Some(c) => Some(c),
        None => match first_range {
            Some(r) => Some(
                StreamFormat {
                    channels: r.channels,
                    sample_rate: r.max_sample_rate,
                    sample_format: r.sample_format,
                },
            ),
            None => None,
        },
    }
}

/// Chooses the configuration to open a device with.
pub fn negotiate(default_config: Option<StreamFormat>, first_range: Option<FormatRange>) -> (r:
    Option<StreamFormat>)
    ensures
        r == negotiated(default_config, first_range),
{
    match default_config {
        Some(c) => Some(c),
        None => match first_range {
            Some(range) => Some(range.with_max_sample_rate()),
            None => None,
        },
    }
}

/// How delivered samples become samples of the engine.
#[derive(Debug, Clone, Copy, PartialEq, Eq, Structural)]
pub enum SampleConversion {
    /// 32-bit floats in `[-1, 1]`, scaled to full scale.
    Float32,
    /// Signed 16-bit integers, taken as they are.
    Int16,
    /// Unsigned 16-bit integers, centred on zero.
    Unsigned16,
}

/// The conversion for each sample type that the engine takes.
pub open spec fn conversion_of(format: SampleFormatKind) -> Option<SampleConversion> {
    match format {
        SampleFormatKind::F32 => Some(SampleConversion::Float32),
        SampleFormatKind::I16 => Some(SampleConversion::Int16),
        SampleFormatKind::U16 => Some(SampleConversion::Unsigned16),
        _ => None,
    }
}

/// Picks the conversion for a device's sample type. Fails with
/// `UnsupportedFormat` exactly for the types that the engine does not take.
pub fn conversion_for(format: SampleFormatKind) -> (r: Result<SampleConversion, CaptureError>)
    ensures
        r matches Ok(c) ==> conversion_of(format) == Some(c),
        r matches Err(e) ==> e == CaptureError::UnsupportedFormat && conversion_of(format) is None,
{
    match format {
        SampleFormatKind::F32 => Ok(SampleConversion::Float32),
        SampleFormatKind::I16 => Ok(SampleConversion::Int16),
        SampleFormatKind::U16 => Ok(SampleConversion::Unsigned16),
        _ => Err(CaptureError::UnsupportedFormat),
    }
}

/// The fixed configuration of a loopback stream on platforms without
/// negotiation.
#[derive(Debug, Clone, Copy, PartialEq, Eq, Structural)]
pub struct FixedConfig {
    pub channels: u16,
    pub sample_rate: u32,
    pub buffer_frames: u32,
}

/// Stereo at 44.1 kHz, with the configured buffer size in its low 32 bits.
pub fn fixed_stereo_config(buffer_size: usize) -> (r: FixedConfig)
    ensures
        r.channels == 2,
        r.sample_rate == 44100,
        r.buffer_frames as int == buffer_size as int % 0x1_0000_0000,
{
    let low: u64 = (buffer_size as u64) % 0x1_0000_0000;
    FixedConfig { channels: 2, sample_rate: 44100, buffer_frames: low as u32 }
}

/// One way of getting a stream for a source.
#[derive(Debug, Clone, Copy, PartialEq, Eq, Structural)]
pub enum OpenStrategy {
    /// The input device at the index that the source id names.
    MicrophoneInput,
    /// The default output device, opened with an input configuration of its
    /// own.
    DeviceInput,
    /// The default output device, opened as an input with its output
    /// configuration.
    DeviceOutput,
    /// The first input device whose name marks it as a loopback of the
    /// output.
    NamedInput,
    /// The default output device with the fixed stereo configuration.
    FixedStereo,
}

/// The step of an attempt at which it failed.
#[derive(Debug, Clone, Copy, PartialEq, Eq, Structural)]
pub enum OpenStage {
    FindDevice,
    QueryConfig,
    CheckFormat,
    BuildStream,
    StartStream,
}

/// How an attempt ended.
#[derive(Debug, Clone, Copy, PartialEq, Eq, Structural)]
pub enum AttemptOutcome {
    Started,
    FailedAt(OpenStage),
}

/// The life of one stream.
#[derive(Debug, Clone, Copy, PartialEq, Eq, Structural)]
pub enum StreamState {
    Stopped,
    Opening,
    Running,
}

/// What a failure means for the strategies that follow.
#[derive(Debug, Clone, Copy, PartialEq, Eq, Structural)]
pub enum Verdict {
    /// The strategy does not apply here; the next one is tried.
    Skip,
    /// The source cannot be opened; the error goes to the caller.
    Abort(CaptureError),
}

/// What the caller does after reporting an attempt.
#[derive(Debug, Clone, Copy, PartialEq, Eq, Structural)]
pub enum OpenDecision {
    /// The stream delivers samples.
    Running,
    /// Try this strategy next.
    Retry(OpenStrategy),
    /// Stop trying and report the error.
    GiveUp(CaptureError),
}

/// The strategies for a source of type `kind` on `platform`, in the order
/// in which they are tried; none for the types that cannot be captured.
pub open spec fn strategies_of(platform: Platform, kind: AudioSourceType) -> Seq<OpenStrategy> {
    match kind {
        AudioSourceType::Microphone => seq![OpenStrategy::MicrophoneInput],
        AudioSourceType::SystemAudio => match platform {
            Platform::Windows => seq![
                OpenStrategy::DeviceInput,
                OpenStrategy::DeviceOutput,
                OpenStrategy::NamedInput,
            ],
            Platform::MacOs => seq![OpenStrategy::FixedStereo],
            Platform::Linux => seq![OpenStrategy::FixedStereo],
        },
        _ => Seq::<OpenStrategy>::empty(),
    }
}

/// What a failure of `strategy` at `stage` means.
///
/// A missing device, an unsupported sample type and a stream that does not
/// start end the whole attempt. A device without the configuration that a
/// strategy asks for is passed over where another strategy follows by
/// design, and so is an output configuration that the device refuses as an
/// input.
pub open spec fn verdict_of(strategy: OpenStrategy, stage: OpenStage) -> Verdict {
    match stage {
        OpenStage::FindDevice => Verdict::Abort(CaptureError::DeviceUnavailable),
        OpenStage::QueryConfig => match strategy {
            OpenStrategy::DeviceInput => Verdict::Skip,
            OpenStrategy::DeviceOutput => Verdict::Skip,
            _ => Verdict::Abort(CaptureError::DeviceOpenFailed),
        },
        OpenStage::CheckFormat => Verdict::Abort(CaptureError::UnsupportedFormat),
        OpenStage::BuildStream => match strategy {
            OpenStrategy::DeviceOutput => Verdict::Skip,
            _ => Verdict::Abort(CaptureError::DeviceOpenFailed),
        },
        OpenStage::StartStream => Verdict::Abort(CaptureError::DeviceOpenFailed),
    }
}

/// Judges a failure of `strategy` at `stage`.
pub fn verdict(strategy: OpenStrategy, stage: OpenStage) -> (r: Verdict)
    ensures
        r == verdict_of(strategy, stage),
{
    match stage {
        OpenStage::FindDevice => Verdict::Abort(CaptureError::DeviceUnavailable),
        OpenStage::QueryConfig => match strategy {
            OpenStrategy::DeviceInput => Verdict::Skip,
            OpenStrategy::DeviceOutput => Verdict::Skip,
            _ => Verdict::Abort(CaptureError::DeviceOpenFailed),
        },
        OpenStage::CheckFormat => Verdict::Abort(CaptureError::UnsupportedFormat),
        OpenStage::BuildStream => match strategy {
            OpenStrategy::DeviceOutput => Verdict::Skip,
            _ => Verdict::Abort(CaptureError::DeviceOpenFailed),
        },
        OpenStage::StartStream => Verdict::Abort(CaptureError::DeviceOpenFailed),
    }
}

/// Whether the strategy checks the sample type of the configuration it
/// found. An output configuration is opened as 32-bit float without a
/// check, and the fixed configuration has no sample type to check.
pub fn checks_format(strategy: OpenStrategy) -> (r: bool)
    ensures
        r == (strategy == OpenStrategy::MicrophoneInput || strategy == OpenStrategy::DeviceInput
            || strategy == OpenStrategy::NamedInput),
{
    match strategy {
        OpenStrategy::MicrophoneInput => true,
        OpenStrategy::DeviceInput => true,
        OpenStrategy::NamedInput => true,
        _ => false,
    }
}

/// The opener of one stream: the strategies of its source, the one being
/// tried, and the state of the stream.
pub struct StreamOpener {
    strategies: Vec<OpenStrategy>,
    position: usize,
    state: StreamState,
}

impl StreamOpener {
    /// The opener is in step with its list of strategies.
    pub closed spec fn wf(&self) -> bool {
        &&& self.strategies.len() >= 1
        &&& self.position < self.strategies.len()
        &&& self.state == StreamState::Stopped ==> self.position == 0
    }

    /// The strategies, in the order in which they are tried.
    pub closed spec fn strategies(&self) -> Seq<OpenStrategy> {
        self.strategies@
    }

    /// The position of the strategy being tried.
    pub closed spec fn position(&self) -> int {
        self.position as int
    }

    /// The state of the stream.
    pub closed spec fn state(&self) -> StreamState {
        self.state
    }

    /// An opener for a source of type `kind` on `platform`, with its stream
    /// stopped. Fails with `DeviceUnavailable` exactly for the source types
    /// that have no strategy.
    pub fn new(platform: Platform, kind: AudioSourceType) -> (r: Result<Self, CaptureError>)
        ensures
            r matches Ok(o) ==> o.wf() && o.strategies() == strategies_of(platform, kind)
                && o.position() == 0 && o.state() == StreamState::Stopped,
            r matches Err(e) ==> e == CaptureError::DeviceUnavailable && strategies_of(
                platform,
                kind,
            ).len() == 0,
    {
        let mut strategies: Vec<OpenStrategy> = Vec::new();
        match kind {
            AudioSourceType::Microphone => {
                strategies.push(OpenStrategy::MicrophoneInput);
            },
            AudioSourceType::SystemAudio => match platform {
                Platform::Windows => {
                    strategies.push(OpenStrategy::DeviceInput);
                    strategies.push(OpenStrategy::DeviceOutput);
                    strategies.push(OpenStrategy::NamedInput);
                },
                _ => {
                    strategies.push(OpenStrategy::FixedStereo);
                },
            },
            _ => {
                return Err(CaptureError::DeviceUnavailable);
            },
        }
        proof {
            assert(strategies@ =~= strategies_of(platform, kind));
        }
        Ok(StreamOpener { strategies, position: 0, state: StreamState::Stopped })
    }

    /// The state of the stream.
    pub fn current_state(&self) -> (r: StreamState)
        ensures
            r == self.state(),
    {
        self.state
    }

    /// Starts opening a stopped stream and names the first strategy to try.
    /// A stream that is opening or running is left as it is; the answer is
    /// then `None`.
    pub fn begin(&mut self) -> (r: Option<OpenStrategy>)
        requires
            old(self).wf(),
        ensures
            final(self).wf(),
            final(self).strategies() == old(self).strategies(),
            old(self).state() == StreamState::Stopped ==> r == Some(old(self).strategies()[0])
                && final(self).state() == StreamState::Opening && final(self).position() == 0,
            old(self).state() != StreamState::Stopped
                ==> r is None
                && final(self).state() == old(self).state()
                && final(self).position() == old(self).position(),
    {
        match self.state {
            StreamState::Stopped => {
                self.state = StreamState::Opening;
                self.position = 0;
                Some(self.strategies[0])
            },
            _ => None,
        }
    }

    /// The decision that follows the report `outcome` on the strategy at
    /// `position`, together with the next position and state.
    pub open spec fn step(strategies: Seq<OpenStrategy>, position: int, outcome: AttemptOutcome)
        -> (int, StreamState, OpenDecision) {
        match outcome {
            AttemptOutcome::Started => (position, StreamState::Running, OpenDecision::Running),
            AttemptOutcome::FailedAt(stage) => match verdict_of(strategies[position], stage) {
                Verdict::Abort(e) => (0, StreamState::Stopped, OpenDecision::GiveUp(e)),
                Verdict::Skip => if position + 1 < strategies.len() {
                    (
                        position + 1,
                        StreamState::Opening,
                        OpenDecision::Retry(strategies[position + 1]),
                    )
                } else {
                    (
                        0,
                        StreamState::Stopped,
                        OpenDecision::GiveUp(CaptureError::DeviceUnavailable),
                    )
                },
            },
        }
    }

    /// Takes the report on the attempt that was asked for and decides what
    /// follows: the stream runs, the next strategy is tried, or opening is
    /// given up and the stream is stopped. A report on a stream that is not
    /// opening changes nothing: a running stream stays running, a stopped
    /// one is owed no attempt.
    pub fn report(&mut self, outcome: AttemptOutcome) -> (r: OpenDecision)
        requires
            old(self).wf(),
        ensures
            final(self).wf(),
            final(self).strategies() == old(self).strategies(),
            old(self).state() == StreamState::Opening ==> (
                final(self).position(),
                final(self).state(),
                r,
            ) == Self::step(old(self).strategies(), old(self).position(), outcome),
            old(self).state() == StreamState::Running
                ==> r == OpenDecision::Running
                && final(self).state() == StreamState::Running
                && final(self).position() == old(self).position(),
            old(self).state() == StreamState::Stopped ==> r == OpenDecision::GiveUp(
                CaptureError::DeviceOpenFailed,
            )
                && final(self).state() == StreamState::Stopped
                && final(self).position() == old(self).position(),
    {
        match self.state {
            StreamState::Running => OpenDecision::Running,
            StreamState::Stopped => OpenDecision::GiveUp(CaptureError::DeviceOpenFailed),
            StreamState::Opening => match outcome {
                AttemptOutcome::Started => {
                    self.state = StreamState::Running;
                    OpenDecision::Running
                },
                AttemptOutcome::FailedAt(stage) => match verdict(
                    self.strategies[self.position],
                    stage,
                ) {
                    Verdict::Abort(e) => {
                        self.state = StreamState::Stopped;
                        self.position = 0;
                        OpenDecision::GiveUp(e)
                    },
                    Verdict::Skip => {
                        if self.position + 1 < self.strategies.len() {
                            self.position = self.position + 1;
                            OpenDecision::Retry(self.strategies[self.position])
                        } else {
                            self.state = StreamState::Stopped;
                            self.position = 0;
                            OpenDecision::GiveUp(CaptureError::DeviceUnavailable)
                        }
                    },
                },
            },
        }
    }

    /// Stops the stream, whatever its state.
    pub fn stop(&mut self)
        requires
            old(self).wf(),
        ensures
            final(self).wf(),
            final(self).strategies() == old(self).strategies(),
            final(self).state() == StreamState::Stopped,
            final(self).position() == 0,
    {
        self.state = StreamState::Stopped;
        self.position = 0;
    }
}

/// A stream runs only after an attempt was reported as started, and a later
/// strategy is named only after the one before it was passed over: no
/// report moves the opener backwards or skips a strategy.
pub proof fn lemma_strategies_in_sequence(
    strategies: Seq<OpenStrategy>,
    position: int,
    outcome: AttemptOutcome,
)
    requires
        0 <= position < strategies.len(),
    ensures
        ({
            let (next, state, decision) = StreamOpener::step(strategies, position, outcome);
            &&& state == StreamState::Running <==> outcome == AttemptOutcome::Started
            &&& decision matches OpenDecision::Retry(s) ==> next == position + 1 && s
                == strategies[next] && state == StreamState::Opening
            &&& decision matches OpenDecision::GiveUp(_) ==> state == StreamState::Stopped
            &&& 0 <= next < strategies.len()
        }),
{
}

/// The text of `s` in lower case, by the case mapping of Unicode.
pub uninterp spec fn lowercased(s: Seq<char>) -> Seq<char>;

/// `str::to_lowercase`: the lower-case text of `s`. The mapping is a table
/// of Unicode; the result depends on the characters of `s` alone.
#[verifier::external_body]
pub(crate) fn lowercase(s: &str) -> (r: String)
    ensures
        r@ == lowercased(s@),
{
    s.to_lowercase()
}

/// Whether a device name marks the device as a loopback of the output: in
/// lower case it holds one of the known words.
pub open spec fn names_loopback(name: Seq<char>) -> bool {
    let lower = lowercased(name);
    occurs_in("stereo mix"@, lower) || occurs_in("what u hear"@, lower) || occurs_in(
        "loopback"@,
        lower,
    ) || occurs_in("output"@, lower) || occurs_in("speaker"@, lower)
}

/// Tests whether the lower-case text `lower` holds one of the words that
/// mark a loopback device.
pub fn holds_loopback_word(lower: &Vec<char>) -> (r: bool)
    ensures
        r == (occurs_in("stereo mix"@, lower@) || occurs_in("what u hear"@, lower@) || occurs_in(
            "loopback"@,
            lower@,
        ) || occurs_in("output"@, lower@) || occurs_in("speaker"@, lower@)),
{
    contains(lower, &chars_of("stereo mix")) || contains(lower, &chars_of("what u hear"))
        || contains(lower, &chars_of("loopback")) || contains(lower, &chars_of("output"))
        || contains(lower, &chars_of("speaker"))
}

/// Tests whether a device name marks the device as a loopback.
pub fn is_loopback_name(name: &str) -> (r: bool)
    ensures
        r == names_loopback(name@),
{
    let lower = lowercase(name);
    let chars = chars_of(lower.as_str());
    holds_loopback_word(&chars)
}

/// Finds the first input device whose name marks it as a loopback.
pub fn find_loopback_input(names: &Vec<String>) -> (r: Option<usize>)
    ensures
        r matches Some(i) ==> i < names.len() && names_loopback(names[i as int]@) && forall|j: int|
            0 <= j < i ==> !names_loopback(#[trigger] names[j]@),
        r is None ==> forall|j: int| 0 <= j < names.len() ==> !names_loopback(#[trigger] names[j]@),
{
    let mut i: usize = 0;
    while i < names.len()
        invariant
            i <= names.len(),
            forall|j: int| 0 <= j < i ==> !names_loopback(#[trigger] names[j]@),
        decreases names.len() - i,
    {
        if is_loopback_name(names[i].as_str()) {
            return Some(i);
        }
        i = i + 1;
    }
    None
}

/// The position among the host's input devices that a microphone id
/// names: the number behind `mic_`, and 0 for an id of another form.
pub open spec fn microphone_position(id: Seq<char>) -> nat {
    if has_prefix(id, "mic_"@) {
        index_value(id.skip(4))
    } else {
        0
    }
}

/// Reads the position of the input device from a microphone id.
pub fn microphone_index(id: &str) -> (r: usize)
    ensures
        r == microphone_position(id@),
{
    let chars = chars_of(id);
    let prefix = chars_of("mic_");
    proof {
        reveal_strlit("mic_");
    }
    if starts_with(&chars, &prefix) {
        parse_index(&chars, 4)
    } else {
        0
    }
}

} // verus!
