use dgmeets::audio::{
    find_named_input, get_system_audio_config, get_system_device, input_device_index,
    is_system_device_id, AudioCapture, CaptureRequest, DeviceChoice, InputDevice,
};
use dgmeets::capture::MultiSourceAudioCapture;
use dgmeets::chunker::{AudioChunker, SeparatePart, StartPlan};
use dgmeets::envfile::parse_env;
use dgmeets::error::{AppError, CaptureError, ErrorHandler};
use dgmeets::finalizer::{finalize, order_chunks};
use dgmeets::fs::FileSystemManager;
use dgmeets::layout::{chunk_file_path, chunk_name, final_file_path};
use dgmeets::sample::{convert_i16, convert_u16, Sample, FULL_SCALE};
use dgmeets::shell::{AppHandle, NotificationCommand, NotificationManager, TrayAction, TrayManager};
use dgmeets::source::{AudioSource, MultiAudioConfig, Platform};
use dgmeets::stream::{
    checks_format, conversion_for, fixed_stereo_config, microphone_index, negotiate,
    AttemptOutcome, FormatRange, OpenDecision, OpenStage, OpenStrategy, SampleConversion,
    SampleFormatKind, StreamFormat, StreamOpener,
};
use dgmeets::transcript::{live_line, speaker_at, SpeakerTurn};
use dgmeets::wav::{decode, encode_chunk};
use dgmeets::whisper::{WhisperConfig, WhisperDevice};

/// A stand-in for the audio host: which steps of an attempt succeed.
struct Host {
    has_device: bool,
    input_format: Option<SampleFormatKind>,
    has_output_config: bool,
    builds: bool,
    starts: bool,
}

fn attempt(host: &Host, strategy: OpenStrategy) -> Result<SampleConversion, OpenStage> {
    if !host.has_device {
        return Err(OpenStage::FindDevice);
    }
    let conversion = match strategy {
        OpenStrategy::DeviceOutput => {
            if !host.has_output_config {
                return Err(OpenStage::QueryConfig);
            }
            SampleConversion::Float32
        }
        OpenStrategy::FixedStereo => {
            let fixed = fixed_stereo_config(1024);
            assert_eq!(fixed.channels, 2);
            SampleConversion::Float32
        }
        _ => {
            let default = host.input_format.map(|sample_format| StreamFormat {
                channels: 1,
                sample_rate: 48000,
                sample_format,
            });
            let none: Option<FormatRange> = None;
            let chosen = negotiate(default, none).ok_or(OpenStage::QueryConfig)?;
            if checks_format(strategy) {
                conversion_for(chosen.sample_format).map_err(|_| OpenStage::CheckFormat)?
            } else {
                SampleConversion::Float32
            }
        }
    };
    if !host.builds {
        return Err(OpenStage::BuildStream);
    }
    if !host.starts {
        return Err(OpenStage::StartStream);
    }
    Ok(conversion)
}

fn open(host: &Host, source: &AudioSource, platform: Platform) -> Result<OpenStrategy, CaptureError> {
    let mut opener = StreamOpener::new(platform, source.device_type)?;
    let mut strategy = opener.begin().ok_or(CaptureError::DeviceOpenFailed)?;
    loop {
        match attempt(host, strategy) {
            Ok(_) => {
                opener.report(AttemptOutcome::Started);
                return Ok(strategy);
            }
            Err(stage) => match opener.report(AttemptOutcome::FailedAt(stage)) {
                OpenDecision::Retry(next) => strategy = next,
                OpenDecision::GiveUp(e) => return Err(e),
                OpenDecision::Running => return Err(CaptureError::DeviceOpenFailed),
            },
        }
    }
}

fn sources() -> Vec<AudioSource> {
    dgmeets::source::discover(Platform::Windows, Some("Speakers"), &vec!["Mic".to_string()])
}

#[test]
fn the_loopback_falls_back_to_the_output_configuration() {
    let system = &sources()[0];
    let host = Host {
        has_device: true,
        input_format: None,
        has_output_config: true,
        builds: true,
        starts: true,
    };
    assert_eq!(open(&host, system, Platform::Windows), Ok(OpenStrategy::DeviceOutput));
}

#[test]
fn the_loopback_opens_with_its_input_configuration_first() {
    let system = &sources()[0];
    let host = Host {
        has_device: true,
        input_format: Some(SampleFormatKind::I16),
        has_output_config: true,
        builds: true,
        starts: true,
    };
    assert_eq!(open(&host, system, Platform::Windows), Ok(OpenStrategy::DeviceInput));
}

#[test]
fn the_loopback_ends_at_the_named_input() {
    let system = &sources()[0];
    let host = Host {
        has_device: true,
        input_format: None,
        has_output_config: false,
        builds: true,
        starts: true,
    };
    assert_eq!(open(&host, system, Platform::Windows), Err(CaptureError::DeviceOpenFailed));
    let refused = Host {
        has_device: true,
        input_format: Some(SampleFormatKind::F64),
        has_output_config: true,
        builds: true,
        starts: true,
    };
    assert_eq!(open(&refused, system, Platform::Windows), Err(CaptureError::UnsupportedFormat));
    let absent = Host {
        has_device: false,
        input_format: None,
        has_output_config: false,
        builds: false,
        starts: false,
    };
    assert_eq!(open(&absent, system, Platform::Windows), Err(CaptureError::DeviceUnavailable));
}

#[test]
fn a_microphone_that_does_not_start_is_an_open_failure() {
    let mic = &sources()[1];
    assert_eq!(microphone_index(&mic.id), 0);
    let host = Host {
        has_device: true,
        input_format: Some(SampleFormatKind::F32),
        has_output_config: false,
        builds: true,
        starts: false,
    };
    assert_eq!(open(&host, mic, Platform::Linux), Err(CaptureError::DeviceOpenFailed));
}

fn scale(x: f32) -> Sample {
    (x * FULL_SCALE as f32) as Sample
}

fn run_session(manager: &mut AudioChunker, plan: StartPlan, failing: &[&str]) -> Result<String, CaptureError> {
    let pending = plan.outcome?;
    let mut started = Vec::new();
    for source in &pending.to_open {
        manager.open_stream_buffer(&source.id);
        if !failing.contains(&source.id.as_str()) {
            started.push(source.id.clone());
        }
    }
    manager.commit_session(pending, started)
}

#[test]
fn a_whole_session_from_start_to_final_recording() {
    let mut manager = AudioChunker::new(10, 1);
    manager.set_app_handle(AppHandle { app_data_dir: Some("/app".to_string()) });
    let listed = manager.get_devices(Platform::Linux, Some("Out"), &vec!["Mic".to_string()]);
    assert_eq!(listed.len(), 2);
    let plan = manager.start_mix(Platform::Linux, Some("Out"), &vec!["Mic".to_string()]);
    assert!(plan.closed.is_empty());
    let id = run_session(&mut manager, plan, &[]).unwrap();
    let info = manager.session_info();
    assert_eq!(info.session_id, Some(id.clone()));
    let directory = info.session_dir.unwrap();
    assert_eq!(directory, format!("/app/recordings/{}", id));

    let mut files: Vec<(String, Vec<u8>)> = Vec::new();
    let mut events = Vec::new();
    for round in 0..30 {
        let block: Vec<f32> = (0..7).map(|k| ((round * 7 + k) as f32) / 1000.0).collect();
        let pcm: Vec<Sample> = block.iter().map(|x| scale(*x)).collect();
        manager.feed("mic_0", &pcm);
        manager.feed("system_audio_pulse", &convert_i16(&[0, 0, 0, 0, 0, 0, 0]));
        for _ in 0..5 {
            let session = manager.get_active_session().unwrap();
            assert!(session.chunk_index < u64::MAX);
            if let Some(window) = manager.poll() {
                let bytes = encode_chunk(10, &window.samples).unwrap();
                let path = chunk_file_path(&session.directory, window.index);
                let event = manager.chunk_event(&window, bytes.len() as u64).unwrap();
                assert_eq!(event.path, path);
                assert_eq!(event.kind, "mix");
                let parts: (Option<SeparatePart>, Option<SeparatePart>) =
                    manager.separate_parts(window.index);
                assert!(parts.0.is_none() && parts.1.is_none());
                files.push((chunk_name(window.index), bytes));
                events.push(event);
            }
        }
    }
    assert_eq!(events.len(), 21);
    assert_eq!(manager.get_active_session().unwrap().chunk_index, 21);
    let closed = manager.stop_all();
    assert_eq!(closed, vec!["mic_0".to_string(), "system_audio_pulse".to_string()]);

    let mut listing: Vec<String> = files.iter().map(|(n, _)| n.clone()).rev().collect();
    listing.push("transcript.jsonl".to_string());
    listing.push("live.txt".to_string());
    let order = order_chunks(&listing);
    assert_eq!(order, (1..=21).collect::<Vec<u64>>());
    let in_order: Vec<Vec<u8>> = order
        .iter()
        .map(|i| files.iter().find(|(n, _)| *n == chunk_name(*i)).unwrap().1.clone())
        .collect();
    let final_bytes = finalize(&in_order).unwrap();
    assert_eq!(final_file_path(&directory), format!("{}/final.wav", directory));
    let recording = decode(&final_bytes).unwrap();
    assert_eq!(recording.samples.len(), 210);
    assert_eq!(recording.format.sample_rate, 10);
    for (k, s) in recording.samples.iter().enumerate() {
        assert_eq!(*s as i32, scale(k as f32 / 1000.0) / 2);
    }
}

#[test]
fn a_session_goes_on_when_one_source_fails_to_open() {
    let mut manager = AudioChunker::new(10, 1);
    manager.set_app_handle(AppHandle { app_data_dir: Some("/app".to_string()) });
    let plan = manager.start_mix(Platform::Linux, Some("Out"), &vec!["Mic".to_string()]);
    assert!(run_session(&mut manager, plan, &["system_audio_pulse"]).is_ok());
    assert_eq!(manager.capture().active_streams(), vec!["mic_0".to_string()]);
    manager.stream_failed("mic_0");
    assert!(!manager.capture().is_recording());
    assert!(manager.get_active_session().is_some());
}

#[test]
fn a_session_without_any_stream_does_not_start() {
    let mut manager = AudioChunker::new(10, 1);
    manager.set_app_handle(AppHandle { app_data_dir: Some("/app".to_string()) });
    let plan = manager.start_mic(Platform::Linux, None, &vec!["Mic".to_string()]);
    assert_eq!(
        run_session(&mut manager, plan, &["mic_0"]),
        Err(CaptureError::NoSourcesStarted)
    );
    assert_eq!(manager.session_info().session_id, None);
}

#[test]
fn the_engine_alone_records_and_reports() {
    let mut engine = MultiSourceAudioCapture::new(MultiAudioConfig::default());
    engine.discover_sources(Platform::MacOs, Some("Out"), &vec!["Mic".to_string()]);
    let ids = vec!["mic_0".to_string(), "system_audio_coreaudio".to_string()];
    let to_open = engine.start_multi_recording(&ids).unwrap();
    let mut started = Vec::new();
    for source in to_open {
        engine.open_buffer(&source.id);
        started.push(source.id);
    }
    engine.complete_recording(started).unwrap();
    engine.append_samples("mic_0", &convert_u16(&[0, 65535]));
    engine.append_samples("system_audio_coreaudio", &[1, 1]);
    let status = engine.get_status();
    assert_eq!(status.total_samples, 4);
    assert_eq!(engine.get_mixed_audio(None), vec![-16383, 16384]);
    assert_eq!(engine.stop_recording(), ids);
}

#[test]
fn the_single_buffer_capture_finds_its_devices() {
    let mut capture = AudioCapture::new();
    let inputs = vec![Some(InputDevice { name: "Mic".to_string(), channels: 1, sample_rate: 44100 })];
    let listed = capture.enumerate_devices(Platform::Linux, &inputs);
    for device in &listed {
        if is_system_device_id(&device.id) {
            assert!(get_system_audio_config(&device.id));
            match get_system_device(Platform::Linux, &device.id) {
                Ok(DeviceChoice::NamedInput { words, or_default_output }) => {
                    assert!(or_default_output);
                    let names = vec!["Mic".to_string(), "Monitor of X".to_string()];
                    assert_eq!(find_named_input(&names, &words), Some(1));
                }
                Ok(DeviceChoice::DefaultOutput) => {}
                Ok(DeviceChoice::LoopbackHostOutput) => panic!("no loopback host on this platform"),
                Err(e) => panic!("{}", e.message()),
            }
        } else {
            assert_eq!(input_device_index(&device.id), 0);
        }
        match capture.start_capture(Platform::Linux, &device.id) {
            Ok(CaptureRequest::AlreadyCapturing) => panic!("nothing captures yet"),
            Ok(_) => capture.stream_started(device.id.clone()),
            Err(e) => panic!("{}", e.message()),
        }
    }
    assert_eq!(capture.get_active_devices().len(), 3);
    capture.push_audio(&[1, 2, 3]);
    assert_eq!(capture.get_audio_data_chunk(2), vec![1, 2]);
    capture.stop_capture();
    assert!(!capture.is_recording());
}

#[test]
fn the_shell_decides_and_the_caller_acts() {
    let handle = AppHandle { app_data_dir: Some("/data".to_string()) };
    let tray = TrayManager::new_with_handle(handle);
    let mut shown = false;
    match tray.handle_tray_event("show") {
        TrayAction::ShowMainWindow => shown = true,
        TrayAction::StartRecording | TrayAction::StopRecording | TrayAction::Quit => {}
        TrayAction::Ignore => {}
    }
    assert!(shown);
    let notes = NotificationManager::new();
    let command: NotificationCommand = notes.show_recording_notification(Platform::Linux, true);
    assert_eq!(command.program, "notify-send");
    let files = FileSystemManager::new();
    let dir = files.get_app_data_dir(Platform::Linux, "/home/u");
    assert_eq!(files.recording_path(Platform::Linux, &dir, "a.wav"), "/home/u/.dgmeets/recordings/a.wav");
    let err = AppError::AudioError("x".to_string());
    assert!(ErrorHandler::handle_recoverable_error(err, "ctx").is_err());
    for (key, value) in parse_env("A=1\n") {
        assert_eq!((key.as_str(), value.as_str()), ("A", "1"));
    }
    let config = WhisperConfig::default();
    assert_eq!(config.device.resolve(), WhisperDevice::Cpu);
    let turns = vec![SpeakerTurn { start_ms: 0, end_ms: 10, speaker: "S1".to_string() }];
    let speaker = speaker_at(&turns, 0, 10);
    assert_eq!(live_line(0, 10, speaker.as_deref(), "hi"), "[00:00:00 - 00:00:00] S1: hi\n");
}
