//! The single-buffer capture: all devices feed one bounded buffer.
//!
//! Holds the state of the capture and the rules by which devices are named
//! and found; the audio host is driven from outside.

use vstd::prelude::*;
use vstd::string::*;
use crate::buffer::{newest, take_count, CaptureBuffer};
use crate::error::CaptureError;
use crate::sample::Sample;
use crate::source::{AudioDevice, DeviceView, Platform};
use crate::stream::{lowercase, lowercased};
use crate::text::{
    append_decimal, chars_of, contains, copy_ids, decimal, has_prefix, holds_id, ids_of,
    index_value, occurs_in, parse_index, remove_all, remove_id, removed, starts_with, without,
};

verus! {

/// The most samples that the buffer keeps when new ones arrive: thirty
/// seconds of stereo at 44.1 kHz.
pub const BUFFER_CAP: usize = 2_646_000;

/// What the host reports of one input device.
#[derive(Debug)]
pub struct InputDevice {
    pub name: String,
    pub channels: u16,
    pub sample_rate: u32,
}

/// The values of a list of devices.
pub open spec fn device_views(list: Seq<AudioDevice>) -> Seq<DeviceView> {
    list.map_values(|d: AudioDevice| d@)
}

/// The device that the input at position `index` is listed as.
pub open spec fn input_view(index: nat, name: Seq<char>, channels: u16, sample_rate: u32)
    -> DeviceView {
    DeviceView {
        id: "input_"@ + decimal(index),
        name: name + " (Microphone)"@,
        is_system: false,
        channels: channels,
        sample_rate: sample_rate,
    }
}

/// The inputs of a host as listed devices: one for each input that
/// reported its name and configuration, under the position it has in the
/// host's enumeration.
pub open spec fn input_views(inputs: Seq<Option<InputDevice>>) -> Seq<DeviceView>
    decreases inputs.len(),
{
    if inputs.len() == 0 {
        Seq::<DeviceView>::empty()
    } else {
        let rest = input_views(inputs.drop_last());
        match inputs.last() {
            Some(d) => rest.push(
                input_view((inputs.len() - 1) as nat, d.name@, d.channels, d.sample_rate),
            ),
            None => rest,
        }
    }
}

/// A system-audio device: stereo at 44.1 kHz.
pub open spec fn system_view(id: Seq<char>, name: Seq<char>) -> DeviceView {
    DeviceView { id: id, name: name, is_system: true, channels: 2, sample_rate: 44100 }
}

/// The system-audio devices of each platform.
pub open spec fn system_views(platform: Platform) -> Seq<DeviceView> {
    match platform {
        Platform::Windows => seq![
            system_view("system_windows_wasapi"@, "System Audio (WASAPI Loopback)"@),
            system_view("system_windows_stereomix"@, "Stereo Mix (Windows)"@),
        ],
        Platform::MacOs => seq![
            system_view("system_macos_screencapturekit"@, "System Audio (ScreenCaptureKit)"@),
            system_view("system_macos_blackhole"@, "BlackHole 2ch (Virtual Audio)"@),
        ],
        Platform::Linux => seq![
            system_view("system_linux_pulse_monitor"@, "System Audio (PulseAudio Monitor)"@),
            system_view("system_linux_alsa_loopback"@, "System Audio (ALSA Loopback)"@),
        ],
    }
}

/// Builds one system-audio device.
fn system_device(id: &str, name: &str) -> (r: AudioDevice)
    ensures
        r@ == system_view(id@, name@),
{
    AudioDevice {
        id: String::from_str(id),
        name: String::from_str(name),
        is_system: true,
        channels: 2,
        sample_rate: 44100,
    }
}

/// Where the device behind a system-audio id is looked for.
#[derive(Debug)]
pub enum DeviceChoice {
    /// The default output device of the platform's loopback host.
    LoopbackHostOutput,
    /// The default output device of the default host.
    DefaultOutput,
    /// The first input device whose lower-case name holds one of `words`;
    /// failing that, the default output device where `or_default_output`.
    NamedInput { words: Vec<String>, or_default_output: bool },
}

/// The mathematical value of a [`DeviceChoice`].
pub ghost enum ChoiceView {
    LoopbackHostOutput,
    DefaultOutput,
    NamedInput { words: Seq<Seq<char>>, or_default_output: bool },
}

impl View for DeviceChoice {
    type V = ChoiceView;

    open spec fn view(&self) -> ChoiceView {
        match self {
            DeviceChoice::LoopbackHostOutput => ChoiceView::LoopbackHostOutput,
            DeviceChoice::DefaultOutput => ChoiceView::DefaultOutput,
            DeviceChoice::NamedInput { words, or_default_output } => ChoiceView::NamedInput {
                words: ids_of(words@),
                or_default_output: *or_default_output,
            },
        }
    }
}

/// The rule for each system-audio id on its platform; an id that the
/// platform does not know has none.
pub open spec fn device_rule(platform: Platform, device_id: Seq<char>) -> Option<ChoiceView> {
    match platform {
        Platform::Windows => if device_id == "system_windows_wasapi"@ {
            Some(ChoiceView::LoopbackHostOutput)
        } else if device_id == "system_windows_stereomix"@ {
            Some(
                ChoiceView::NamedInput {
                    words: seq!["stereo mix"@, "what u hear"@],
                    or_default_output: false,
                },
            )
        } else {
            None
        },
        Platform::MacOs => if device_id == "system_macos_screencapturekit"@ {
            Some(ChoiceView::DefaultOutput)
        } else if device_id == "system_macos_blackhole"@ {
            Some(ChoiceView::NamedInput { words: seq!["blackhole"@], or_default_output: false })
        } else {
            None
        },
        Platform::Linux => if device_id == "system_linux_pulse_monitor"@ {
            Some(
                ChoiceView::NamedInput {
                    words: seq!["monitor"@, "output"@],
                    or_default_output: true,
                },
            )
        } else if device_id == "system_linux_alsa_loopback"@ {
            Some(ChoiceView::DefaultOutput)
        } else {
            None
        },
    }
}

/// A list of one or two words.
fn words_of(first: &str, second: Option<&str>) -> (r: Vec<String>)
    ensures
        ids_of(r@) == match second {
            Some(s) => seq![first@, s@],
            None => seq![first@],
        },
{
    let mut out: Vec<String> = Vec::new();
    out.push(String::from_str(first));
    match second {
        Some(s) => {
            out.push(String::from_str(s));
        },
        None => {},
    }
    proof {
        assert(ids_of(out@) =~= match second {
            Some(s) => seq![first@, s@],
            None => seq![first@],
        });
    }
    out
}

/// Finds the rule for a system-audio id. Fails with
/// `UnsupportedSystemDevice` exactly for the ids that the platform does not
/// know.
pub fn get_system_device(platform: Platform, device_id: &str) -> (r: Result<
    DeviceChoice,
    CaptureError,
>)
    ensures
        match r {
            Ok(c) => device_rule(platform, device_id@) == Some(c@),
            Err(e) => e == CaptureError::UnsupportedSystemDevice && device_rule(platform, device_id@)
                is None,
        },
{
    match platform {
        Platform::Windows => {
            if *device_id == *"system_windows_wasapi" {
                Ok(DeviceChoice::LoopbackHostOutput)
            } else if *device_id == *"system_windows_stereomix" {
                Ok(
                    DeviceChoice::NamedInput {
                        words: words_of("stereo mix", Some("what u hear")),
                        or_default_output: false,
                    },
                )
            } else {
                Err(CaptureError::UnsupportedSystemDevice)
            }
        },
        Platform::MacOs => {
            if *device_id == *"system_macos_screencapturekit" {
                Ok(DeviceChoice::DefaultOutput)
            } else if *device_id == *"system_macos_blackhole" {
                Ok(
                    DeviceChoice::NamedInput {
                        words: words_of("blackhole", None),
                        or_default_output: false,
                    },
                )
            } else {
                Err(CaptureError::UnsupportedSystemDevice)
            }
        },
        Platform::Linux => {
            if *device_id == *"system_linux_pulse_monitor" {
                Ok(
                    DeviceChoice::NamedInput {
                        words: words_of("monitor", Some("output")),
                        or_default_output: true,
                    },
                )
            } else if *device_id == *"system_linux_alsa_loopback" {
                Ok(DeviceChoice::DefaultOutput)
            } else {
                Err(CaptureError::UnsupportedSystemDevice)
            }
        },
    }
}

/// Whether the lower-case form of `name` holds one of `words`.
pub open spec fn name_holds(name: Seq<char>, words: Seq<Seq<char>>) -> bool {
    exists|k: int| 0 <= k < words.len() && occurs_in(#[trigger] words[k], lowercased(name))
}

/// Tests whether the lower-case form of `name` holds one of `words`.
pub fn name_matches(name: &str, words: &Vec<String>) -> (r: bool)
    ensures
        r == name_holds(name@, ids_of(words@)),
{
    let lower = lowercase(name);
    let hay = chars_of(lower.as_str());
    let mut k: usize = 0;
    while k < words.len()
        invariant
            k <= words.len(),
            hay@ == lowercased(name@),
            forall|j: int| 0 <= j < k ==> !occurs_in(#[trigger] ids_of(words@)[j], hay@),
        decreases words.len() - k,
    {
        let needle = chars_of(words[k].as_str());
        if contains(&hay, &needle) {
            proof {
                assert(occurs_in(ids_of(words@)[k as int], lowercased(name@)));
            }
            return true;
        }
        k = k + 1;
    }
    false
}

/// Finds the first input device whose name holds one of `words`.
pub fn find_named_input(names: &Vec<String>, words: &Vec<String>) -> (r: Option<usize>)
    ensures
        r matches Some(i) ==> i < names.len() && name_holds(names[i as int]@, ids_of(words@))
            && forall|j: int| 0 <= j < i ==> !name_holds(#[trigger] names[j]@, ids_of(words@)),
        r is None ==> forall|j: int|
            0 <= j < names.len() ==> !name_holds(#[trigger] names[j]@, ids_of(words@)),
{
    let mut i: usize = 0;
    while i < names.len()
        invariant
            i <= names.len(),
            forall|j: int| 0 <= j < i ==> !name_holds(#[trigger] names[j]@, ids_of(words@)),
        decreases names.len() - i,
    {
        if name_matches(names[i].as_str(), words) {
            return Some(i);
        }
        i = i + 1;
    }
    None
}

/// Tests whether a device id names a system-audio device: it begins with
/// `system_`.
pub fn is_system_device_id(device_id: &str) -> (r: bool)
    ensures
        r == has_prefix(device_id@, "system_"@),
{
    let chars = chars_of(device_id);
    let prefix = chars_of("system_");
    starts_with(&chars, &prefix)
}

/// Tests whether the output configuration of the device is tried before its
/// input configuration: so it is for ids that hold `system_`.
pub fn get_system_audio_config(device_id: &str) -> (prefer_output: bool)
    ensures
        prefer_output == occurs_in("system_"@, device_id@),
{
    let chars = chars_of(device_id);
    let word = chars_of("system_");
    contains(&chars, &word)
}

/// The position among the host's inputs that an input id names: the number
/// that is left when every `input_` is taken out of the id, and 0 where
/// that is no number.
pub open spec fn input_position(device_id: Seq<char>) -> nat {
    index_value(removed(device_id, "input_"@))
}

/// Reads the position of the input device from an input id.
pub fn input_device_index(device_id: &str) -> (r: usize)
    ensures
        r == input_position(device_id@),
{
    let chars = chars_of(device_id);
    let word = chars_of("input_");
    let rest = remove_all(&chars, &word);
    proof {
        assert(rest@.skip(0) =~= rest@);
    }
    parse_index(&rest, 0)
}

/// What the caller is asked to do for a device that is to capture.
#[derive(Debug)]
pub enum CaptureRequest {
    /// The device captures already: nothing is to be opened.
    AlreadyCapturing,
    /// Open the input device at position `index` of the host's inputs with
    /// its default input configuration.
    OpenInput { index: usize },
    /// Open the system-audio device that `choice` finds; where
    /// `prefer_output_config`, with its output configuration, and with its
    /// input configuration only where it has no output configuration.
    OpenSystem { choice: DeviceChoice, prefer_output_config: bool },
}

/// The mathematical value of a [`CaptureRequest`].
pub ghost enum RequestView {
    AlreadyCapturing,
    OpenInput { index: nat },
    OpenSystem { choice: ChoiceView, prefer_output_config: bool },
}

impl View for CaptureRequest {
    type V = RequestView;

    open spec fn view(&self) -> RequestView {
        match self {
            CaptureRequest::AlreadyCapturing => RequestView::AlreadyCapturing,
            CaptureRequest::OpenInput { index } => RequestView::OpenInput { index: *index as nat },
            CaptureRequest::OpenSystem { choice, prefer_output_config } => RequestView::OpenSystem {
                choice: choice@,
                prefer_output_config: *prefer_output_config,
            },
        }
    }
}

/// What is to be done for `device_id` while the devices `active` capture.
///
/// A device that captures already asks for nothing. An id that begins
/// with `system_` names a system-audio device: where the platform knows
/// it, the device is opened by its rule, and where not, the id is refused
/// with `UnsupportedSystemDevice`. Every other id names an input device by
/// its position.
pub open spec fn capture_request(active: Seq<Seq<char>>, platform: Platform, device_id: Seq<char>)
    -> Result<RequestView, CaptureError> {
    if active.contains(device_id) {
        Ok(RequestView::AlreadyCapturing)
    } else if has_prefix(device_id, "system_"@) {
        match device_rule(platform, device_id) {
            Some(choice) => Ok(
                RequestView::OpenSystem {
                    choice: choice,
                    prefer_output_config: occurs_in("system_"@, device_id),
                },
            ),
            None => Err(CaptureError::UnsupportedSystemDevice),
        }
    } else {
        Ok(RequestView::OpenInput { index: input_position(device_id) })
    }
}

/// Capture of all devices into one buffer.
pub struct AudioCapture {
    audio_data: CaptureBuffer,
    is_recording: bool,
    active_devices: Vec<String>,
    sample_rate: u32,
    channels: u16,
}

impl AudioCapture {
    /// The samples that wait in the buffer.
    pub closed spec fn held(&self) -> Seq<Sample> {
        self.audio_data@
    }

    /// Whether a capture runs.
    pub closed spec fn recording(&self) -> bool {
        self.is_recording
    }

    /// The ids of the devices whose streams run.
    pub closed spec fn active(&self) -> Seq<Seq<char>> {
        ids_of(self.active_devices@)
    }

    /// The nominal sample rate and channel count.
    pub closed spec fn nominal(&self) -> (u32, u16) {
        (self.sample_rate, self.channels)
    }

    /// A capture at rest: nothing held, no device active, nominally stereo
    /// at 44.1 kHz.
    pub fn new() -> (r: Self)
        ensures
            r.held() == Seq::<Sample>::empty(),
            !r.recording(),
            r.active() == Seq::<Seq<char>>::empty(),
            r.nominal() == (44100u32, 2u16),
    {
        let r = AudioCapture {
            audio_data: CaptureBuffer::new(),
            is_recording: false,
            active_devices: Vec::new(),
            sample_rate: 44100,
            channels: 2,
        };
        proof {
            assert(r.active() =~= Seq::<Seq<char>>::empty());
        }
        r
    }

    /// The system-audio devices of `platform`.
    pub fn get_system_audio_devices(&self, platform: Platform) -> (r: Vec<AudioDevice>)
        ensures
            device_views(r@) == system_views(platform),
    {
        let mut out: Vec<AudioDevice> = Vec::new();
        match platform {
            Platform::Windows => {
                out.push(system_device("system_windows_wasapi", "System Audio (WASAPI Loopback)"));
                out.push(system_device("system_windows_stereomix", "Stereo Mix (Windows)"));
            },
            Platform::MacOs => {
                out.push(
                    system_device(
                        "system_macos_screencapturekit",
                        "System Audio (ScreenCaptureKit)",
                    ),
                );
                out.push(system_device("system_macos_blackhole", "BlackHole 2ch (Virtual Audio)"));
            },
            Platform::Linux => {
                out.push(
                    system_device(
                        "system_linux_pulse_monitor",
                        "System Audio (PulseAudio Monitor)",
                    ),
                );
                out.push(
                    system_device("system_linux_alsa_loopback", "System Audio (ALSA Loopback)"),
                );
            },
        }
        proof {
            assert(device_views(out@) =~= system_views(platform));
        }
        out
    }

    /// Lists the devices to choose from: the inputs of the host, then the
    /// system-audio devices of the platform. An input that did not report
    /// its name or configuration is given as `None` and is not listed, but
    /// keeps its position.
    pub fn enumerate_devices(&self, platform: Platform, inputs: &Vec<Option<InputDevice>>) -> (r:
        Vec<AudioDevice>)
        ensures
            device_views(r@) == input_views(inputs@) + system_views(platform),
    {
        let mut out: Vec<AudioDevice> = Vec::new();
        let mut i: usize = 0;
        proof {
            assert(inputs@.take(0) =~= Seq::<Option<InputDevice>>::empty());
            assert(device_views(out@) =~= input_views(inputs@.take(0)));
        }
        while i < inputs.len()
            invariant
                i <= inputs.len(),
                device_views(out@) == input_views(inputs@.take(i as int)),
            decreases inputs.len() - i,
        {
            proof {
                assert(inputs@.take(i + 1).drop_last() =~= inputs@.take(i as int));
                assert(inputs@.take(i + 1).last() == inputs@[i as int]);
            }
            let ghost before = device_views(out@);
            match &inputs[i] {
                Some(d) => {
                    let mut id = String::from_str("input_");
                    append_decimal(&mut id, i as u64);
                    let mut name = d.name.clone();
                    name.append(" (Microphone)");
                    let device = AudioDevice {
                        id,
                        name,
                        is_system: false,
                        channels: d.channels,
                        sample_rate: d.sample_rate,
                    };
                    out.push(device);
                    proof {
                        assert(device_views(out@) =~= before.push(device@));
                    }
                },
                None => {},
            }
            i = i + 1;
        }
        proof {
            assert(inputs@.take(inputs.len() as int) =~= inputs@);
        }
        let ghost listed = device_views(out@);
        let mut system = self.get_system_audio_devices(platform);
        let ghost system_part = device_views(system@);
        out.append(&mut system);
        proof {
            assert(device_views(out@) =~= listed + system_part);
        }
        out
    }

    /// Tests whether a stream is to be opened for `device_id`: it is unless
    /// the device captures already.
    pub fn wants_stream(&self, device_id: &str) -> (r: bool)
        ensures
            r == !self.active().contains(device_id@),
    {
        !holds_id(&self.active_devices, device_id)
    }

    /// Decides what is to be done so that `device_id` captures. Nothing
    /// changes: the stream is the caller's to open, and `stream_started`
    /// takes note of it once it runs.
    ///
    /// A device that captures already asks for nothing to be opened. An
    /// unknown system-audio id is refused with `UnsupportedSystemDevice`.
    /// Every other id gives the request to open its device.
    pub fn start_capture(&self, platform: Platform, device_id: &str) -> (r: Result<
        CaptureRequest,
        CaptureError,
    >)
        ensures
            match r {
                Ok(request) => capture_request(self.active(), platform, device_id@) == Ok::<
                    RequestView,
                    CaptureError,
                >(request@),
                Err(e) => capture_request(self.active(), platform, device_id@) == Err::<
                    RequestView,
                    CaptureError,
                >(e),
            },
    {
        if !self.wants_stream(device_id) {
            return Ok(CaptureRequest::AlreadyCapturing);
        }
        if is_system_device_id(device_id) {
            match get_system_device(platform, device_id) {
                Ok(choice) => Ok(
                    CaptureRequest::OpenSystem {
                        choice,
                        prefer_output_config: get_system_audio_config(device_id),
                    },
                ),
                Err(e) => Err(e),
            }
        } else {
            Ok(CaptureRequest::OpenInput { index: input_device_index(device_id) })
        }
    }

    /// Takes note that the stream of `device_id` runs: the device joins the
    /// active devices and the capture records.
    pub fn stream_started(&mut self, device_id: String)
        ensures
            final(self).active() == old(self).active().push(device_id@),
            final(self).recording(),
            final(self).held() == old(self).held(),
            final(self).nominal() == old(self).nominal(),
    {
        let ghost id = device_id@;
        self.active_devices.push(device_id);
        self.is_recording = true;
        proof {
            assert(ids_of(self.active_devices@) =~= old(self).active().push(id));
        }
    }

    /// Takes the samples that a stream delivered. Where the buffer holds
    /// more than `BUFFER_CAP` samples, the oldest are dropped first.
    pub fn push_audio(&mut self, data: &[Sample])
        ensures
            final(self).held() == newest(old(self).held(), BUFFER_CAP as nat) + data@,
            final(self).recording() == old(self).recording(),
            final(self).active() == old(self).active(),
            final(self).nominal() == old(self).nominal(),
    {
        self.audio_data.append_bounded(data, BUFFER_CAP);
    }

    /// Stops the capture: no device is active, and what the buffer held is
    /// dropped.
    pub fn stop_capture(&mut self)
        ensures
            !final(self).recording(),
            final(self).active() == Seq::<Seq<char>>::empty(),
            final(self).held() == Seq::<Sample>::empty(),
            final(self).nominal() == old(self).nominal(),
    {
        self.is_recording = false;
        self.active_devices.clear();
        self.audio_data.clear();
        proof {
            assert(ids_of(self.active_devices@) =~= Seq::<Seq<char>>::empty());
        }
    }

    /// Whether a capture runs.
    pub fn is_recording(&self) -> (r: bool)
        ensures
            r == self.recording(),
    {
        self.is_recording
    }

    /// Takes all samples out of the buffer.
    pub fn get_audio_data(&mut self) -> (r: Vec<Sample>)
        ensures
            r@ == old(self).held(),
            final(self).held() == Seq::<Sample>::empty(),
            final(self).recording() == old(self).recording(),
            final(self).active() == old(self).active(),
            final(self).nominal() == old(self).nominal(),
    {
        let r = self.audio_data.drain(None);
        proof {
            assert(self.audio_data@ =~= Seq::<Sample>::empty());
        }
        r
    }

    /// Takes up to `max_samples` samples from the front of the buffer.
    pub fn get_audio_data_chunk(&mut self, max_samples: usize) -> (r: Vec<Sample>)
        ensures
            r@ == old(self).held().take(take_count(old(self).held().len(), Some(max_samples)) as int),
            final(self).held() == old(self).held().skip(
                take_count(old(self).held().len(), Some(max_samples)) as int,
            ),
            final(self).recording() == old(self).recording(),
            final(self).active() == old(self).active(),
            final(self).nominal() == old(self).nominal(),
    {
        self.audio_data.drain(Some(max_samples))
    }

    /// The number of samples that wait in the buffer.
    pub fn get_audio_buffer_size(&self) -> (r: usize)
        ensures
            r == self.held().len(),
    {
        self.audio_data.len()
    }

    /// The ids of the devices whose streams run.
    pub fn get_active_devices(&self) -> (r: Vec<String>)
        ensures
            ids_of(r@) == self.active(),
    {
        copy_ids(&self.active_devices)
    }

    /// Takes `device_id` out of the active devices, as is done when its
    /// stream is stopped or fails. The other devices go on; the capture
    /// stops recording when no device is left.
    pub fn stop_device_capture(&mut self, device_id: &str)
        ensures
            final(self).active() == without(old(self).active(), device_id@),
            final(self).recording() == (old(self).recording() && final(self).active().len() > 0),
            final(self).held() == old(self).held(),
            final(self).nominal() == old(self).nominal(),
    {
        remove_id(&mut self.active_devices, device_id);
        if self.active_devices.len() == 0 {
            self.is_recording = false;
        }
    }
}

} // verus!
