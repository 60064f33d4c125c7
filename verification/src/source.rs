//! The source registry: the audio endpoints that a discovery pass found, the
//! identifiers they are given, and the choice of sources for a session.

use vstd::prelude::*;
use vstd::string::*;
use crate::error::CaptureError;
use crate::text::{append_decimal, decimal};

verus! {

/// What kind of endpoint a source is.
#[derive(Debug, Clone, Copy, PartialEq, Eq, Structural)]
pub enum AudioSourceType {
    SystemAudio,
    Microphone,
    LineIn,
    Virtual,
}

/// The platform whose audio host is queried.
#[derive(Debug, Clone, Copy, PartialEq, Eq, Structural)]
pub enum Platform {
    Windows,
    MacOs,
    Linux,
}

/// One discoverable audio endpoint.
#[derive(Debug)]
pub struct AudioSource {
    pub id: String,
    pub name: String,
    pub device_type: AudioSourceType,
    pub channels: u16,
    pub sample_rate: u32,
    pub is_active: bool,
}

/// The mathematical value of an [`AudioSource`].
pub ghost struct SourceView {
    pub id: Seq<char>,
    pub name: Seq<char>,
    pub device_type: AudioSourceType,
    pub channels: u16,
    pub sample_rate: u32,
    pub is_active: bool,
}

impl View for AudioSource {
    type V = SourceView;

    open spec fn view(&self) -> SourceView {
        SourceView {
            id: self.id@,
            name: self.name@,
            device_type: self.device_type,
            channels: self.channels,
            sample_rate: self.sample_rate,
            is_active: self.is_active,
        }
    }
}

impl Clone for AudioSource {
    fn clone(&self) -> (r: Self)
        ensures
            r@ == self@,
    {
        AudioSource {
            id: self.id.clone(),
            name: self.name.clone(),
            device_type: self.device_type,
            channels: self.channels,
            sample_rate: self.sample_rate,
            is_active: self.is_active,
        }
    }
}

/// The values of a list of sources.
pub open spec fn source_views(list: Seq<AudioSource>) -> Seq<SourceView> {
    list.map_values(|s: AudioSource| s@)
}

/// An input or output device as the single-buffer capture lists it.
#[derive(Debug)]
pub struct AudioDevice {
    pub id: String,
    pub name: String,
    pub is_system: bool,
    pub channels: u16,
    pub sample_rate: u32,
}

/// The mathematical value of an [`AudioDevice`].
pub ghost struct DeviceView {
    pub id: Seq<char>,
    pub name: Seq<char>,
    pub is_system: bool,
    pub channels: u16,
    pub sample_rate: u32,
}

impl View for AudioDevice {
    type V = DeviceView;

    open spec fn view(&self) -> DeviceView {
        DeviceView {
            id: self.id@,
            name: self.name@,
            is_system: self.is_system,
            channels: self.channels,
            sample_rate: self.sample_rate,
        }
    }
}

impl Clone for AudioDevice {
    fn clone(&self) -> (r: Self)
        ensures
            r@ == self@,
    {
        AudioDevice {
            id: self.id.clone(),
            name: self.name.clone(),
            is_system: self.is_system,
            channels: self.channels,
            sample_rate: self.sample_rate,
        }
    }
}

/// The stream parameters of the single-buffer capture.
#[derive(Debug, Clone, Copy, PartialEq, Eq, Structural)]
pub struct AudioConfig {
    pub sample_rate: u32,
    pub channels: u16,
    pub buffer_size: usize,
}

/// The parameters of the multi-source capture.
#[derive(Debug, Clone, Copy, PartialEq, Eq, Structural)]
pub struct MultiAudioConfig {
    pub sample_rate: u32,
    pub channels: u16,
    pub buffer_size: usize,
    pub max_sources: usize,
    pub mix_output: bool,
}

impl Default for MultiAudioConfig {
    /// CD-rate stereo, buffers of 1024 frames, up to four sources, mixed.
    fn default() -> (r: Self)
        ensures
            r == (MultiAudioConfig {
                sample_rate: 44100,
                channels: 2,
                buffer_size: 1024,
                max_sources: 4,
                mix_output: true,
            }),
    {
        MultiAudioConfig {
            sample_rate: 44100,
            channels: 2,
            buffer_size: 1024,
            max_sources: 4,
            mix_output: true,
        }
    }
}

/// The id of the system-audio source of each platform.
pub open spec fn system_source_id(platform: Platform) -> Seq<char> {
    match platform {
        Platform::Windows => "system_audio_wasapi"@,
        Platform::MacOs => "system_audio_coreaudio"@,
        Platform::Linux => "system_audio_pulse"@,
    }
}

/// The system-audio source of `platform`, given the name of its default
/// output device: stereo at 44.1 kHz, not yet active.
pub open spec fn system_source_view(platform: Platform, device_name: Seq<char>) -> SourceView {
    SourceView {
        id: system_source_id(platform),
        name: "System Audio ("@ + device_name + ")"@,
        device_type: AudioSourceType::SystemAudio,
        channels: 2,
        sample_rate: 44100,
        is_active: false,
    }
}

/// The id of the microphone at position `index` of the host's inputs.
pub open spec fn microphone_id(index: nat) -> Seq<char> {
    "mic_"@ + decimal(index)
}

/// The microphone source at position `index`: mono at 44.1 kHz, not yet
/// active.
pub open spec fn microphone_view(index: nat, name: Seq<char>) -> SourceView {
    SourceView {
        id: microphone_id(index),
        name: name,
        device_type: AudioSourceType::Microphone,
        channels: 1,
        sample_rate: 44100,
        is_active: false,
    }
}

/// What a discovery pass yields: the system-audio source first, where the
/// host has a default output device, then one microphone per input device.
pub open spec fn discovered(
    platform: Platform,
    default_output: Option<Seq<char>>,
    inputs: Seq<Seq<char>>,
) -> Seq<SourceView> {
    let system = match default_output {
        Some(name) => seq![system_source_view(platform, name)],
        None => Seq::<SourceView>::empty(),
    };
    system + Seq::new(inputs.len(), |i: int| microphone_view(i as nat, inputs[i]))
}

/// Builds the system-audio source of `platform`.
pub fn system_source(platform: Platform, device_name: &str) -> (r: AudioSource)
    ensures
        r@ == system_source_view(platform, device_name@),
{
    let id = match platform {
        Platform::Windows => "system_audio_wasapi",
        Platform::MacOs => "system_audio_coreaudio",
        Platform::Linux => "system_audio_pulse",
    };
    let mut name = String::from_str("System Audio (");
    name.append(device_name);
    name.append(")");
    AudioSource {
        id: String::from_str(id),
        name,
        device_type: AudioSourceType::SystemAudio,
        channels: 2,
        sample_rate: 44100,
        is_active: false,
    }
}

/// Builds the microphone source at position `index`.
pub fn microphone_source(index: usize, name: &str) -> (r: AudioSource)
    ensures
        r@ == microphone_view(index as nat, name@),
{
    let mut id = String::from_str("mic_");
    append_decimal(&mut id, index as u64);
    AudioSource {
        id,
        name: String::from_str(name),
        device_type: AudioSourceType::Microphone,
        channels: 1,
        sample_rate: 44100,
        is_active: false,
    }
}

/// Lists the sources of one discovery pass, given the name of the default
/// output device, if the host has one, and the names of its input devices.
/// The same devices give the same ids on every pass.
pub fn discover(platform: Platform, default_output: Option<&str>, input_names: &Vec<String>) -> (r:
    Vec<AudioSource>)
    ensures
        source_views(r@) == discovered(
            platform,
            match default_output {
                Some(n) => Some(n@),
                None => None,
            },
            crate::text::ids_of(input_names@),
        ),
{
    let ghost inputs = crate::text::ids_of(input_names@);
    let ghost system = match default_output {
        Some(name) => seq![system_source_view(platform, name@)],
        None => Seq::<SourceView>::empty(),
    };
    let mut out: Vec<AudioSource> = Vec::new();
    match default_output {
        Some(name) => {
            out.push(system_source(platform, name));
        },
        None => {},
    }
    proof {
        assert(source_views(out@) =~= system);
    }
    let mut i: usize = 0;
    while i < input_names.len()
        invariant
            inputs == crate::text::ids_of(input_names@),
            i <= input_names.len(),
            source_views(out@) == system + Seq::new(
                i as nat,
                |k: int| microphone_view(k as nat, inputs[k]),
            ),
        decreases input_names.len() - i,
    {
        let ghost before = source_views(out@);
        let source = microphone_source(i, input_names[i].as_str());
        out.push(source);
        proof {
            assert(source_views(out@) =~= before.push(source@));
            assert(source_views(out@) =~= system + Seq::new(
                (i + 1) as nat,
                |k: int| microphone_view(k as nat, inputs[k]),
            ));
        }
        i = i + 1;
    }
    out
}

/// The position of the first source of type `kind`, if there is one.
pub open spec fn first_of_type(views: Seq<SourceView>, kind: AudioSourceType) -> Option<int>
    decreases views.len(),
{
    if views.len() == 0 {
        None
    } else {
        match first_of_type(views.drop_last(), kind) {
            Some(i) => Some(i),
            None => if views.last().device_type == kind {
                Some(views.len() - 1)
            } else {
                None
            },
        }
    }
}

/// `first_of_type` finds a source of the type that no source of that type
/// precedes, and finds nothing only where there is none.
pub proof fn lemma_first_of_type(views: Seq<SourceView>, kind: AudioSourceType)
    ensures
        first_of_type(views, kind) matches Some(i) ==> 0 <= i < views.len() && views[i].device_type
            == kind && forall|j: int| 0 <= j < i ==> (#[trigger] views[j]).device_type != kind,
        first_of_type(views, kind) is None ==> forall|j: int|
            0 <= j < views.len() ==> (#[trigger] views[j]).device_type != kind,
    decreases views.len(),
{
    if views.len() > 0 {
        let head = views.drop_last();
        lemma_first_of_type(head, kind);
        match first_of_type(head, kind) {
            Some(i) => {
                assert(views[i] == head[i]);
                assert forall|j: int| 0 <= j < i implies (#[trigger] views[j]).device_type
                    != kind by {
                    assert(views[j] == head[j]);
                }
            },
            None => {
                assert forall|j: int| 0 <= j < views.len() - 1 implies (#[trigger] views[j]).device_type
                    != kind by {
                    assert(views[j] == head[j]);
                }
            },
        }
    }
}

/// The ids chosen for one requested type: that of the first source of the
/// type, or none.
pub open spec fn id_of_first(views: Seq<SourceView>, kind: AudioSourceType) -> Seq<Seq<char>> {
    match first_of_type(views, kind) {
        Some(i) => seq![views[i].id],
        None => Seq::<Seq<char>>::empty(),
    }
}

/// The ids chosen for a mixed session: the first microphone, then the first
/// system-audio source, each where it exists.
pub open spec fn mix_selection(views: Seq<SourceView>) -> Seq<Seq<char>> {
    id_of_first(views, AudioSourceType::Microphone) + id_of_first(
        views,
        AudioSourceType::SystemAudio,
    )
}

/// Finds the first source of type `kind`.
pub fn find_first(sources: &Vec<AudioSource>, kind: AudioSourceType) -> (r: Option<usize>)
    ensures
        r matches Some(i) ==> first_of_type(source_views(sources@), kind) == Some(i as int) && i
            < sources.len(),
        r is None ==> first_of_type(source_views(sources@), kind) is None,
{
    let ghost views = source_views(sources@);
    let mut i: usize = 0;
    proof {
        assert(views.take(0) =~= Seq::<SourceView>::empty());
    }
    while i < sources.len()
        invariant
            views == source_views(sources@),
            i <= sources.len(),
            first_of_type(views.take(i as int), kind) is None,
        decreases sources.len() - i,
    {
        proof {
            assert(views.take(i + 1).drop_last() =~= views.take(i as int));
            assert(views.take(i + 1).last() == sources@[i as int]@);
        }
        if sources[i].device_type == kind {
            proof {
                lemma_first_stable(views, kind, i + 1);
            }
            return Some(i);
        }
        i = i + 1;
    }
    proof {
        assert(views.take(sources.len() as int) =~= views);
    }
    None
}

/// What was found in a prefix of the list is what is found in the list.
pub proof fn lemma_first_stable(views: Seq<SourceView>, kind: AudioSourceType, k: int)
    requires
        0 <= k <= views.len(),
        first_of_type(views.take(k), kind) is Some,
    ensures
        first_of_type(views, kind) == first_of_type(views.take(k), kind),
    decreases views.len() - k,
{
    if k == views.len() {
        assert(views.take(k) =~= views);
    } else {
        assert(views.take(k + 1).drop_last() =~= views.take(k));
        lemma_first_stable(views, kind, k + 1);
    }
}

/// The error for a session that finds no source of type `kind`.
pub open spec fn no_source_error(kind: AudioSourceType) -> CaptureError {
    match kind {
        AudioSourceType::Microphone => CaptureError::NoMicrophoneSource,
        AudioSourceType::SystemAudio => CaptureError::NoSystemAudioSource,
        _ => CaptureError::DeviceUnavailable,
    }
}

/// Chooses the source of a single-source session: the first of type `kind`.
/// Fails exactly where no source has that type, with the error that names
/// the type that is missing.
pub fn select_one(sources: &Vec<AudioSource>, kind: AudioSourceType) -> (r: Result<
    Vec<String>,
    CaptureError,
>)
    ensures
        r matches Ok(ids) ==> first_of_type(source_views(sources@), kind) is Some
            && crate::text::ids_of(ids@) == id_of_first(source_views(sources@), kind),
        r matches Err(e) ==> e == no_source_error(kind) && first_of_type(
            source_views(sources@),
            kind,
        ) is None,
{
    match find_first(sources, kind) {
        Some(i) => {
            let mut ids: Vec<String> = Vec::new();
            ids.push(sources[i].id.clone());
            proof {
                assert(crate::text::ids_of(ids@) =~= seq![sources@[i as int]@.id]);
            }
            Ok(ids)
        },
        None => match kind {
            AudioSourceType::Microphone => Err(CaptureError::NoMicrophoneSource),
            AudioSourceType::SystemAudio => Err(CaptureError::NoSystemAudioSource),
            _ => Err(CaptureError::DeviceUnavailable),
        },
    }
}

/// Chooses the sources of a mixed session: the first microphone and the
/// first system-audio source. Where only one of the two exists the session
/// runs on that one alone. Fails with `NoSourcesForMix` exactly where
/// neither exists.
pub fn select_mix(sources: &Vec<AudioSource>) -> (r: Result<Vec<String>, CaptureError>)
    ensures
        r matches Ok(ids) ==> crate::text::ids_of(ids@) == mix_selection(source_views(sources@))
            && ids.len() >= 1,
        r matches Err(e) ==> e == CaptureError::NoSourcesForMix && mix_selection(
            source_views(sources@),
        ).len() == 0,
{
    let mut ids: Vec<String> = Vec::new();
    match find_first(sources, AudioSourceType::Microphone) {
        Some(i) => {
            ids.push(sources[i].id.clone());
        },
        None => {},
    }
    proof {
        assert(crate::text::ids_of(ids@) =~= id_of_first(
            source_views(sources@),
            AudioSourceType::Microphone,
        ));
    }
    let ghost mics = crate::text::ids_of(ids@);
    match find_first(sources, AudioSourceType::SystemAudio) {
        Some(i) => {
            ids.push(sources[i].id.clone());
            proof {
                assert(crate::text::ids_of(ids@) =~= mics.push(sources@[i as int]@.id));
            }
        },
        None => {},
    }
    proof {
        assert(crate::text::ids_of(ids@) =~= mix_selection(source_views(sources@)));
    }
    if ids.len() == 0 {
        return Err(CaptureError::NoSourcesForMix);
    }
    Ok(ids)
}

} // verus!
