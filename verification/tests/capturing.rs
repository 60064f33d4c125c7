use dgmeets::audio::{
    find_named_input, get_system_audio_config, get_system_device, input_device_index,
    is_system_device_id, name_matches, AudioCapture, CaptureRequest, DeviceChoice, InputDevice,
    BUFFER_CAP,
};
use dgmeets::capture::MultiSourceAudioCapture;
use dgmeets::error::CaptureError;
use dgmeets::source::{
    discover, find_first, select_mix, select_one, AudioSourceType, MultiAudioConfig, Platform,
};
use dgmeets::stream::{
    checks_format, conversion_for, find_loopback_input, fixed_stereo_config, is_loopback_name,
    microphone_index, negotiate, verdict, AttemptOutcome, FormatRange, OpenDecision, OpenStage,
    OpenStrategy, SampleConversion, SampleFormatKind, StreamFormat, StreamOpener, StreamState,
    Verdict,
};

fn names(list: &[&str]) -> Vec<String> {
    list.iter().map(|s| s.to_string()).collect()
}

#[test]
fn test_multi_audio_creation() {
    let config = MultiAudioConfig::default();
    let capture = MultiSourceAudioCapture::new(config);
    assert!(!capture.is_recording());
}

#[test]
fn test_source_discovery() {
    let config = MultiAudioConfig::default();
    let mut capture = MultiSourceAudioCapture::new(config);
    let _sources = capture.discover_sources(Platform::Linux, None, &vec![]);
}

#[test]
fn test_audio_device_enumeration() {
    let capture = AudioCapture::new();
    let devices = capture.enumerate_devices(Platform::Linux, &vec![]);
    assert!(!devices.is_empty(), "Should find at least one audio device");
}

#[test]
fn test_system_audio_device() {
    let capture = AudioCapture::new();
    let devices = capture.enumerate_devices(Platform::Linux, &vec![]);
    let system_device = devices.iter().find(|d| d.is_system);
    assert!(system_device.is_some(), "Should have system audio device");
}

#[test]
fn default_config_is_cd_rate_stereo() {
    let c = MultiAudioConfig::default();
    assert_eq!(c.sample_rate, 44100);
    assert_eq!(c.channels, 2);
    assert_eq!(c.buffer_size, 1024);
    assert_eq!(c.max_sources, 4);
    assert!(c.mix_output);
}

#[test]
fn discovery_lists_the_system_source_first() {
    let found = discover(Platform::Linux, Some("Speakers"), &names(&["Mic A", "Mic B"]));
    assert_eq!(found.len(), 3);
    assert_eq!(found[0].id, "system_audio_pulse");
    assert_eq!(found[0].name, "System Audio (Speakers)");
    assert_eq!(found[0].device_type, AudioSourceType::SystemAudio);
    assert_eq!(found[0].channels, 2);
    assert_eq!(found[0].sample_rate, 44100);
    assert!(!found[0].is_active);
    assert_eq!(found[1].id, "mic_0");
    assert_eq!(found[1].name, "Mic A");
    assert_eq!(found[1].device_type, AudioSourceType::Microphone);
    assert_eq!(found[1].channels, 1);
    assert_eq!(found[2].id, "mic_1");
    assert_eq!(discover(Platform::Windows, Some("x"), &vec![])[0].id, "system_audio_wasapi");
    assert_eq!(discover(Platform::MacOs, Some("x"), &vec![])[0].id, "system_audio_coreaudio");
    assert!(discover(Platform::MacOs, None, &vec![]).is_empty());
}

#[test]
fn ids_are_stable_across_discovery_passes() {
    let a = discover(Platform::Linux, Some("Speakers"), &names(&["Mic A", "Mic B"]));
    let b = discover(Platform::Linux, Some("Speakers"), &names(&["Mic A", "Mic B"]));
    let ids_a: Vec<&String> = a.iter().map(|s| &s.id).collect();
    let ids_b: Vec<&String> = b.iter().map(|s| &s.id).collect();
    assert_eq!(ids_a, ids_b);
}

#[test]
fn the_first_source_of_a_kind_is_chosen() {
    let found = discover(Platform::Linux, Some("Speakers"), &names(&["Mic A", "Mic B"]));
    assert_eq!(find_first(&found, AudioSourceType::Microphone), Some(1));
    assert_eq!(find_first(&found, AudioSourceType::SystemAudio), Some(0));
    assert_eq!(find_first(&found, AudioSourceType::LineIn), None);
    assert_eq!(select_one(&found, AudioSourceType::Microphone), Ok(names(&["mic_0"])));
    assert_eq!(select_one(&found, AudioSourceType::SystemAudio), Ok(names(&["system_audio_pulse"])));
    assert_eq!(select_one(&found, AudioSourceType::Virtual), Err(CaptureError::DeviceUnavailable));
    assert_eq!(select_mix(&found), Ok(names(&["mic_0", "system_audio_pulse"])));
}

#[test]
fn a_mix_with_one_kind_runs_on_that_kind() {
    let only_mic = discover(Platform::Linux, None, &names(&["Mic"]));
    assert_eq!(select_mix(&only_mic), Ok(names(&["mic_0"])));
    let only_sys = discover(Platform::Linux, Some("Out"), &vec![]);
    assert_eq!(select_mix(&only_sys), Ok(names(&["system_audio_pulse"])));
    assert_eq!(select_mix(&vec![]), Err(CaptureError::NoSourcesForMix));
    assert_eq!(
        select_one(&only_mic, AudioSourceType::SystemAudio),
        Err(CaptureError::NoSystemAudioSource)
    );
    assert_eq!(
        select_one(&only_sys, AudioSourceType::Microphone),
        Err(CaptureError::NoMicrophoneSource)
    );
}

#[test]
fn the_engine_remembers_what_it_discovered() {
    let mut e = MultiSourceAudioCapture::new(MultiAudioConfig::default());
    assert!(e.source("mic_0").is_none());
    e.discover_sources(Platform::Linux, Some("Out"), &names(&["Mic"]));
    assert_eq!(e.source("mic_0").unwrap().name, "Mic");
    assert_eq!(e.source("system_audio_pulse").unwrap().name, "System Audio (Out)");
    e.discover_sources(Platform::Linux, None, &names(&["Other"]));
    assert_eq!(e.source("mic_0").unwrap().name, "Other");
    assert!(e.source("system_audio_pulse").is_some());
}

#[test]
fn a_recording_starts_with_at_least_one_stream() {
    let mut e = MultiSourceAudioCapture::new(MultiAudioConfig::default());
    e.discover_sources(Platform::Linux, Some("Out"), &names(&["Mic"]));
    let to_open = e.start_multi_recording(&names(&["mic_0", "ghost", "system_audio_pulse"])).unwrap();
    assert_eq!(to_open.len(), 2);
    assert_eq!(e.complete_recording(vec![]), Err(CaptureError::NoSourcesStarted));
    assert!(!e.is_recording());
    assert_eq!(e.complete_recording(names(&["mic_0"])), Ok(()));
    assert!(e.is_recording());
    assert_eq!(e.active_streams(), names(&["mic_0"]));
    assert_eq!(
        e.start_multi_recording(&names(&["mic_0"])).err(),
        Some(CaptureError::AlreadyRecording)
    );
}

#[test]
fn stopping_names_the_streams_to_close() {
    let mut e = MultiSourceAudioCapture::new(MultiAudioConfig::default());
    assert_eq!(e.stop_recording(), Vec::<String>::new());
    e.complete_recording(names(&["a", "b"])).unwrap();
    e.open_buffer("a");
    e.append_samples("a", &[1, 2, 3]);
    assert_eq!(e.stop_recording(), names(&["a", "b"]));
    assert!(!e.is_recording());
    assert!(e.active_streams().is_empty());
    assert_eq!(e.buffers().len_at(0), 3);
}

#[test]
fn a_failed_stream_leaves_the_others_running() {
    let mut e = MultiSourceAudioCapture::new(MultiAudioConfig::default());
    e.complete_recording(names(&["a", "b"])).unwrap();
    e.stream_failed("a");
    assert!(e.is_recording());
    assert_eq!(e.active_streams(), names(&["b"]));
    e.stream_failed("zzz");
    assert_eq!(e.active_streams(), names(&["b"]));
    e.stream_failed("b");
    assert!(!e.is_recording());
    assert!(e.active_streams().is_empty());
}

#[test]
fn mixed_audio_follows_the_configuration() {
    let mut e = MultiSourceAudioCapture::new(MultiAudioConfig::default());
    e.open_buffer("a");
    e.open_buffer("b");
    e.append_samples("a", &[10, 20, 30]);
    e.append_samples("b", &[30, 40]);
    e.complete_recording(names(&["a", "b"])).unwrap();
    assert_eq!(e.get_mixed_audio(None), vec![20, 30]);
    assert_eq!(e.get_mixed_audio(Some(1)), vec![20]);
    assert_eq!(e.take_mixed_audio(Some(1)), vec![20]);
    assert_eq!(e.take_mixed_audio(None), vec![30]);
    assert_eq!(e.get_source_audio("a", None), vec![30]);
    assert_eq!(e.get_source_audio("b", None), Vec::<i32>::new());
    assert_eq!(e.get_source_audio("nobody", None), Vec::<i32>::new());

    let mut quiet = MultiSourceAudioCapture::new(MultiAudioConfig {
        mix_output: false,
        ..MultiAudioConfig::default()
    });
    quiet.open_buffer("a");
    quiet.append_samples("a", &[1, 2]);
    quiet.complete_recording(names(&["a"])).unwrap();
    assert_eq!(quiet.get_mixed_audio(None), Vec::<i32>::new());
    assert_eq!(quiet.take_mixed_audio(None), Vec::<i32>::new());
    assert_eq!(quiet.get_source_audio("a", Some(5)), vec![1, 2]);
}

#[test]
fn status_sums_the_buffers() {
    let mut e = MultiSourceAudioCapture::new(MultiAudioConfig::default());
    e.open_buffer("a");
    e.open_buffer("b");
    e.append_samples("a", &[1, 2, 3]);
    e.append_samples("b", &[4]);
    e.complete_recording(names(&["a"])).unwrap();
    let s = e.get_status();
    assert!(s.is_recording);
    assert_eq!(s.active_sources, 1);
    assert_eq!(s.source_ids, names(&["a"]));
    assert_eq!(s.buffer_sizes, vec![("a".to_string(), 3), ("b".to_string(), 1)]);
    assert_eq!(s.total_samples, 4);
}

#[test]
fn the_default_configuration_is_preferred() {
    let default = StreamFormat { channels: 2, sample_rate: 48000, sample_format: SampleFormatKind::F32 };
    let range = FormatRange {
        channels: 1,
        min_sample_rate: 8000,
        max_sample_rate: 96000,
        sample_format: SampleFormatKind::I16,
    };
    assert_eq!(negotiate(Some(default), Some(range)), Some(default));
    assert_eq!(
        negotiate(None, Some(range)),
        Some(StreamFormat { channels: 1, sample_rate: 96000, sample_format: SampleFormatKind::I16 })
    );
    assert_eq!(negotiate(None, None), None);
    assert_eq!(range.with_max_sample_rate().sample_rate, 96000);
}

#[test]
fn three_sample_types_are_taken() {
    assert_eq!(conversion_for(SampleFormatKind::F32), Ok(SampleConversion::Float32));
    assert_eq!(conversion_for(SampleFormatKind::I16), Ok(SampleConversion::Int16));
    assert_eq!(conversion_for(SampleFormatKind::U16), Ok(SampleConversion::Unsigned16));
    for other in [
        SampleFormatKind::I8,
        SampleFormatKind::I32,
        SampleFormatKind::I64,
        SampleFormatKind::U8,
        SampleFormatKind::U32,
        SampleFormatKind::U64,
        SampleFormatKind::F64,
    ] {
        assert_eq!(conversion_for(other), Err(CaptureError::UnsupportedFormat));
    }
}

#[test]
fn the_fixed_configuration_is_stereo() {
    let c = fixed_stereo_config(1024);
    assert_eq!((c.channels, c.sample_rate, c.buffer_frames), (2, 44100, 1024));
    assert_eq!(fixed_stereo_config(usize::MAX).buffer_frames, usize::MAX as u32);
}

#[test]
fn a_microphone_has_one_strategy() {
    let mut o = StreamOpener::new(Platform::Windows, AudioSourceType::Microphone).unwrap();
    assert_eq!(o.current_state(), StreamState::Stopped);
    assert_eq!(o.begin(), Some(OpenStrategy::MicrophoneInput));
    assert_eq!(o.current_state(), StreamState::Opening);
    assert_eq!(o.begin(), None);
    assert_eq!(o.report(AttemptOutcome::Started), OpenDecision::Running);
    assert_eq!(o.current_state(), StreamState::Running);
    assert_eq!(o.report(AttemptOutcome::FailedAt(OpenStage::BuildStream)), OpenDecision::Running);
    o.stop();
    assert_eq!(o.current_state(), StreamState::Stopped);
    assert_eq!(
        o.report(AttemptOutcome::Started),
        OpenDecision::GiveUp(CaptureError::DeviceOpenFailed)
    );
}

#[test]
fn loopback_strategies_are_tried_in_sequence() {
    let mut o = StreamOpener::new(Platform::Windows, AudioSourceType::SystemAudio).unwrap();
    assert_eq!(o.begin(), Some(OpenStrategy::DeviceInput));
    assert_eq!(
        o.report(AttemptOutcome::FailedAt(OpenStage::QueryConfig)),
        OpenDecision::Retry(OpenStrategy::DeviceOutput)
    );
    assert_eq!(
        o.report(AttemptOutcome::FailedAt(OpenStage::BuildStream)),
        OpenDecision::Retry(OpenStrategy::NamedInput)
    );
    assert_eq!(
        o.report(AttemptOutcome::FailedAt(OpenStage::FindDevice)),
        OpenDecision::GiveUp(CaptureError::DeviceUnavailable)
    );
    assert_eq!(o.current_state(), StreamState::Stopped);
    assert_eq!(o.begin(), Some(OpenStrategy::DeviceInput));
}

#[test]
fn an_unsupported_format_ends_the_attempt() {
    let mut o = StreamOpener::new(Platform::Windows, AudioSourceType::SystemAudio).unwrap();
    o.begin();
    assert_eq!(
        o.report(AttemptOutcome::FailedAt(OpenStage::CheckFormat)),
        OpenDecision::GiveUp(CaptureError::UnsupportedFormat)
    );
    assert_eq!(o.current_state(), StreamState::Stopped);
}

#[test]
fn other_platforms_open_the_fixed_configuration() {
    for p in [Platform::MacOs, Platform::Linux] {
        let mut o = StreamOpener::new(p, AudioSourceType::SystemAudio).unwrap();
        assert_eq!(o.begin(), Some(OpenStrategy::FixedStereo));
        assert_eq!(
            o.report(AttemptOutcome::FailedAt(OpenStage::BuildStream)),
            OpenDecision::GiveUp(CaptureError::DeviceOpenFailed)
        );
    }
    assert_eq!(
        StreamOpener::new(Platform::Linux, AudioSourceType::LineIn).err(),
        Some(CaptureError::DeviceUnavailable)
    );
    assert_eq!(
        StreamOpener::new(Platform::Linux, AudioSourceType::Virtual).err(),
        Some(CaptureError::DeviceUnavailable)
    );
}

#[test]
fn verdicts() {
    assert_eq!(verdict(OpenStrategy::DeviceInput, OpenStage::QueryConfig), Verdict::Skip);
    assert_eq!(verdict(OpenStrategy::DeviceOutput, OpenStage::QueryConfig), Verdict::Skip);
    assert_eq!(verdict(OpenStrategy::DeviceOutput, OpenStage::BuildStream), Verdict::Skip);
    assert_eq!(
        verdict(OpenStrategy::MicrophoneInput, OpenStage::QueryConfig),
        Verdict::Abort(CaptureError::DeviceOpenFailed)
    );
    assert_eq!(
        verdict(OpenStrategy::NamedInput, OpenStage::FindDevice),
        Verdict::Abort(CaptureError::DeviceUnavailable)
    );
    assert_eq!(
        verdict(OpenStrategy::DeviceOutput, OpenStage::StartStream),
        Verdict::Abort(CaptureError::DeviceOpenFailed)
    );
    assert!(checks_format(OpenStrategy::MicrophoneInput));
    assert!(checks_format(OpenStrategy::DeviceInput));
    assert!(checks_format(OpenStrategy::NamedInput));
    assert!(!checks_format(OpenStrategy::DeviceOutput));
    assert!(!checks_format(OpenStrategy::FixedStereo));
}

#[test]
fn loopback_devices_are_known_by_name() {
    assert!(is_loopback_name("Stereo Mix (Realtek Audio)"));
    assert!(is_loopback_name("WHAT U HEAR"));
    assert!(is_loopback_name("Loopback Audio"));
    assert!(is_loopback_name("Digital Output"));
    assert!(is_loopback_name("Speakers"));
    assert!(!is_loopback_name("Microphone Array"));
    assert!(!is_loopback_name(""));
    assert_eq!(find_loopback_input(&names(&["Mic", "Line", "Stereo Mix", "Speaker"])), Some(2));
    assert_eq!(find_loopback_input(&names(&["Mic", "Line"])), None);
}

#[test]
fn microphone_ids_name_a_position() {
    assert_eq!(microphone_index("mic_0"), 0);
    assert_eq!(microphone_index("mic_12"), 12);
    assert_eq!(microphone_index("mic_"), 0);
    assert_eq!(microphone_index("mic_x"), 0);
    assert_eq!(microphone_index("system_audio_pulse"), 0);
    assert_eq!(microphone_index("mic_+3"), 3);
    for id in ["mic_0", "mic_12", "mic_", "mic_x", "micro", "mic_007", "mic_-1"] {
        let expected = id.strip_prefix("mic_").and_then(|s| s.parse::<usize>().ok()).unwrap_or(0);
        assert_eq!(microphone_index(id), expected, "{}", id);
    }
}

#[test]
fn input_ids_name_a_position() {
    for id in ["input_0", "input_25", "input_", "input_input_4", "x", "7", "input_-1"] {
        let expected: usize = id.replace("input_", "").parse().unwrap_or(0);
        assert_eq!(input_device_index(id), expected, "{}", id);
    }
    assert!(is_system_device_id("system_linux_pulse_monitor"));
    assert!(!is_system_device_id("input_0"));
    assert!(!is_system_device_id("my_system_x"));
    assert!(get_system_audio_config("system_linux_pulse_monitor"));
    assert!(get_system_audio_config("my_system_x"));
    assert!(!get_system_audio_config("input_0"));
}

#[test]
fn inputs_keep_their_position_in_the_listing() {
    let capture = AudioCapture::new();
    let inputs = vec![
        Some(InputDevice { name: "A".to_string(), channels: 1, sample_rate: 16000 }),
        None,
        Some(InputDevice { name: "C".to_string(), channels: 2, sample_rate: 48000 }),
    ];
    let devices = capture.enumerate_devices(Platform::Windows, &inputs);
    assert_eq!(devices.len(), 4);
    assert_eq!(devices[0].id, "input_0");
    assert_eq!(devices[0].name, "A (Microphone)");
    assert!(!devices[0].is_system);
    assert_eq!((devices[0].channels, devices[0].sample_rate), (1, 16000));
    assert_eq!(devices[1].id, "input_2");
    assert_eq!(devices[1].name, "C (Microphone)");
    assert_eq!(devices[2].id, "system_windows_wasapi");
    assert_eq!(devices[2].name, "System Audio (WASAPI Loopback)");
    assert!(devices[2].is_system);
    assert_eq!(devices[3].id, "system_windows_stereomix");
    let mac = capture.get_system_audio_devices(Platform::MacOs);
    assert_eq!(mac[0].id, "system_macos_screencapturekit");
    assert_eq!(mac[1].id, "system_macos_blackhole");
    assert_eq!(mac[1].name, "BlackHole 2ch (Virtual Audio)");
    let linux = capture.get_system_audio_devices(Platform::Linux);
    assert_eq!(linux[0].id, "system_linux_pulse_monitor");
    assert_eq!(linux[1].id, "system_linux_alsa_loopback");
    assert_eq!((linux[1].channels, linux[1].sample_rate), (2, 44100));
}

#[test]
fn system_devices_are_found_by_rule() {
    assert!(matches!(
        get_system_device(Platform::Windows, "system_windows_wasapi"),
        Ok(DeviceChoice::LoopbackHostOutput)
    ));
    match get_system_device(Platform::Windows, "system_windows_stereomix") {
        Ok(DeviceChoice::NamedInput { words, or_default_output }) => {
            assert_eq!(words, names(&["stereo mix", "what u hear"]));
            assert!(!or_default_output);
        }
        _ => panic!("stereo mix is found by name"),
    }
    assert!(matches!(
        get_system_device(Platform::MacOs, "system_macos_screencapturekit"),
        Ok(DeviceChoice::DefaultOutput)
    ));
    match get_system_device(Platform::MacOs, "system_macos_blackhole") {
        Ok(DeviceChoice::NamedInput { words, or_default_output }) => {
            assert_eq!(words, names(&["blackhole"]));
            assert!(!or_default_output);
        }
        _ => panic!("blackhole is found by name"),
    }
    match get_system_device(Platform::Linux, "system_linux_pulse_monitor") {
        Ok(DeviceChoice::NamedInput { words, or_default_output }) => {
            assert_eq!(words, names(&["monitor", "output"]));
            assert!(or_default_output);
        }
        _ => panic!("the monitor is found by name"),
    }
    assert!(matches!(
        get_system_device(Platform::Linux, "system_linux_alsa_loopback"),
        Ok(DeviceChoice::DefaultOutput)
    ));
    assert_eq!(
        get_system_device(Platform::Linux, "system_windows_wasapi").err(),
        Some(CaptureError::UnsupportedSystemDevice)
    );
    assert_eq!(
        get_system_device(Platform::Windows, "input_0").err(),
        Some(CaptureError::UnsupportedSystemDevice)
    );
    assert!(name_matches("Monitor of Built-in Audio", &names(&["monitor", "output"])));
    assert!(!name_matches("Webcam", &names(&["monitor", "output"])));
    assert_eq!(
        find_named_input(&names(&["Webcam", "BlackHole 2ch"]), &names(&["blackhole"])),
        Some(1)
    );
    assert_eq!(find_named_input(&names(&["Webcam"]), &names(&["blackhole"])), None);
}

#[test]
fn the_single_buffer_capture_tracks_its_devices() {
    let mut c = AudioCapture::new();
    assert!(!c.is_recording());
    assert!(c.wants_stream("input_0"));
    c.stream_started("input_0".to_string());
    assert!(c.is_recording());
    assert!(!c.wants_stream("input_0"));
    c.stream_started("system_linux_pulse_monitor".to_string());
    assert_eq!(c.get_active_devices(), names(&["input_0", "system_linux_pulse_monitor"]));
    c.stop_device_capture("input_0");
    assert!(c.is_recording());
    c.stop_device_capture("system_linux_pulse_monitor");
    assert!(!c.is_recording());
    assert!(c.get_active_devices().is_empty());
}

#[test]
fn the_single_buffer_is_drained_from_the_front() {
    let mut c = AudioCapture::new();
    c.push_audio(&[1, 2, 3, 4, 5]);
    assert_eq!(c.get_audio_buffer_size(), 5);
    assert_eq!(c.get_audio_data_chunk(2), vec![1, 2]);
    assert_eq!(c.get_audio_data_chunk(10), vec![3, 4, 5]);
    c.push_audio(&[6]);
    assert_eq!(c.get_audio_data(), vec![6]);
    assert_eq!(c.get_audio_buffer_size(), 0);
    c.push_audio(&[7]);
    c.stream_started("input_0".to_string());
    c.stop_capture();
    assert_eq!(c.get_audio_buffer_size(), 0);
    assert!(!c.is_recording());
    assert!(c.get_active_devices().is_empty());
}

#[test]
fn the_single_buffer_drops_the_oldest_beyond_thirty_seconds() {
    assert_eq!(BUFFER_CAP, 44100 * 30 * 2);
    let mut c = AudioCapture::new();
    let block: Vec<i32> = (0..(BUFFER_CAP as i32 + 10)).collect();
    c.push_audio(&block);
    assert_eq!(c.get_audio_buffer_size(), BUFFER_CAP + 10);
    c.push_audio(&[-1]);
    assert_eq!(c.get_audio_buffer_size(), BUFFER_CAP + 1);
    assert_eq!(c.get_audio_data_chunk(1), vec![10]);
}

#[test]
fn an_unknown_system_device_is_refused() {
    let c = AudioCapture::new();
    let r = c.start_capture(Platform::Linux, "system_bogus");
    assert_eq!(r.as_ref().err(), Some(&CaptureError::UnsupportedSystemDevice));
    assert_eq!(r.err().unwrap().message(), "Unsupported system audio device");
    assert!(c.get_active_devices().is_empty());
    assert!(!c.is_recording());
    assert_eq!(c.get_audio_buffer_size(), 0);
    assert_eq!(
        c.start_capture(Platform::Linux, "system_windows_wasapi").err(),
        Some(CaptureError::UnsupportedSystemDevice)
    );
}

#[test]
fn a_known_device_is_asked_to_be_opened() {
    let mut c = AudioCapture::new();
    match c.start_capture(Platform::Linux, "input_3") {
        Ok(CaptureRequest::OpenInput { index }) => assert_eq!(index, 3),
        _ => panic!("an input is opened by its position"),
    }
    match c.start_capture(Platform::Linux, "garbage") {
        Ok(CaptureRequest::OpenInput { index }) => assert_eq!(index, 0),
        _ => panic!("an id without a number names the first input"),
    }
    match c.start_capture(Platform::Linux, "system_linux_pulse_monitor") {
        Ok(CaptureRequest::OpenSystem { choice, prefer_output_config }) => {
            assert!(prefer_output_config);
            assert!(matches!(choice, DeviceChoice::NamedInput { or_default_output: true, .. }));
        }
        _ => panic!("a system device is opened by its rule"),
    }
    match c.start_capture(Platform::Windows, "system_windows_wasapi") {
        Ok(CaptureRequest::OpenSystem { choice, .. }) => {
            assert!(matches!(choice, DeviceChoice::LoopbackHostOutput));
        }
        _ => panic!("a system device is opened by its rule"),
    }
    assert!(c.get_active_devices().is_empty());
    c.stream_started("input_3".to_string());
    assert!(matches!(
        c.start_capture(Platform::Linux, "input_3"),
        Ok(CaptureRequest::AlreadyCapturing)
    ));
    assert_eq!(c.get_active_devices(), names(&["input_3"]));
    c.stream_started("system_bogus".to_string());
    assert!(matches!(
        c.start_capture(Platform::Linux, "system_bogus"),
        Ok(CaptureRequest::AlreadyCapturing)
    ));
}

#[test]
fn a_fresh_engine_holds_nothing() {
    let e = MultiSourceAudioCapture::new(MultiAudioConfig::default());
    let s = e.get_status();
    assert!(!s.is_recording);
    assert_eq!(s.active_sources, 0);
    assert!(s.source_ids.is_empty());
    assert!(s.buffer_sizes.is_empty());
    assert_eq!(s.total_samples, 0);
}

#[test]
fn over_draining_a_source_gives_what_it_holds() {
    let mut e = MultiSourceAudioCapture::new(MultiAudioConfig::default());
    e.open_buffer("a");
    assert_eq!(e.get_source_audio("a", Some(5)), Vec::<i32>::new());
    e.append_samples("a", &[4, 5, 6]);
    assert_eq!(e.get_source_audio("a", Some(4)), vec![4, 5, 6]);
    assert_eq!(e.buffers().len_at(0), 0);
    e.append_samples("a", &[7]);
    assert_eq!(e.get_source_audio("a", Some(usize::MAX)), vec![7]);
    assert_eq!(e.get_source_audio("a", None), Vec::<i32>::new());
}
