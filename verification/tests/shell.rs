use dgmeets::envfile::parse_env;
use dgmeets::error::{AppError, CaptureError, ErrorHandler};
use dgmeets::fs::{FileInfo, FileSystemManager};
use dgmeets::shell::{
    recorder_content, AppHandle, NotificationManager, TrayAction, TrayManager,
};
use dgmeets::source::Platform;
use dgmeets::transcript::{hhmmss, live_line, midpoint, speaker_at, stamp, SpeakerTurn};
use dgmeets::whisper::{
    capitalize_sentences, post_process_transcript, SupportedLanguages, WhisperConfig,
    WhisperDevice, WhisperQuality,
};

#[test]
fn app_errors_read_as_label_and_message() {
    assert_eq!(AppError::AudioError("no device".to_string()).message(), "Audio Error: no device");
    assert_eq!(AppError::FileSystemError("full".to_string()).message(), "File System Error: full");
    assert_eq!(AppError::IPCError("x".to_string()).message(), "IPC Error: x");
    assert_eq!(AppError::WindowError("y".to_string()).message(), "Window Error: y");
    assert_eq!(AppError::NotificationError("".to_string()).message(), "Notification Error: ");
}

#[test]
fn errors_are_logged_with_their_context() {
    let e = AppError::AudioError("no device".to_string());
    assert_eq!(ErrorHandler::log_error(&e, "capture"), "❌ Error in capture: Audio Error: no device");
}

#[test]
fn no_error_is_recovered() {
    let r = ErrorHandler::handle_recoverable_error(AppError::WindowError("w".to_string()), "ui");
    match r {
        Err(AppError::WindowError(m)) => assert_eq!(m, "w"),
        _ => panic!("the error comes back unchanged"),
    }
}

#[test]
fn error_reports_have_four_fields() {
    let e = AppError::FileSystemError("disk \"C\" full".to_string());
    let report = ErrorHandler::render_error_report(&e, "2024-01-02T03:04:05+00:00", "linux");
    assert_eq!(
        report,
        format!(
            "Error Report\n============\nType: {:?}\nMessage: {}\nTimestamp: {}\nPlatform: {}\n",
            e,
            e.message(),
            "2024-01-02T03:04:05+00:00",
            "linux"
        )
    );
    assert!(report.contains("Type: FileSystemError(\"disk \\\"C\\\" full\")"));
}

#[test]
fn error_reports_carry_the_time() {
    let e = AppError::IPCError("x".to_string());
    let report = ErrorHandler::error_report_at(&e, 947638923004, "macos");
    assert!(report.contains("Timestamp: 2000-01-12T01:02:03.004+00:00\n"));
    assert!(report.ends_with("Platform: macos\n"));
    let odd = ErrorHandler::error_report_at(&e, i64::MAX, "macos");
    assert!(odd.contains("Timestamp: \n"));
    let now = ErrorHandler::create_error_report(&e, "windows");
    assert!(now.starts_with("Error Report\n============\nType: IPCError(\"x\")\nMessage: IPC Error: x\nTimestamp: 2"));
    assert!(now.ends_with("\nPlatform: windows\n"));
}

#[test]
fn capture_errors_have_messages() {
    assert_eq!(CaptureError::EmptySession.message(), "no chunks");
    assert_eq!(CaptureError::AlreadyRecording.message(), "Already recording");
    assert_eq!(CaptureError::NoSourcesStarted.message(), "No sources started successfully");
    assert_eq!(CaptureError::AppHandleNotSet.message(), "App handle not set");
    assert_eq!(CaptureError::DataDirUnavailable.message(), "Failed to get app_data_dir");
    for e in [
        CaptureError::DeviceUnavailable,
        CaptureError::NoMicrophoneSource,
        CaptureError::NoSystemAudioSource,
        CaptureError::NoSourcesForMix,
        CaptureError::UnsupportedSystemDevice,
        CaptureError::DeviceOpenFailed,
        CaptureError::UnsupportedFormat,
        CaptureError::EncodeFailed,
        CaptureError::DecodeFailed,
        CaptureError::FormatMismatch,
        CaptureError::ChunkLengthOverflow,
    ] {
        assert!(!e.message().is_empty());
    }
}

#[test]
fn data_directories_by_platform() {
    let m = FileSystemManager::new();
    assert_eq!(m.get_app_data_dir(Platform::Linux, "/home/u"), "/home/u/.dgmeets");
    assert_eq!(
        m.get_app_data_dir(Platform::MacOs, "/Users/u"),
        "/Users/u/Library/Application Support/dgMeets"
    );
    assert_eq!(
        m.get_app_data_dir(Platform::Windows, "C:\\Users\\u\\AppData\\Roaming"),
        "C:\\Users\\u\\AppData\\Roaming\\dgMeets"
    );
    assert_eq!(m.recordings_dir(Platform::Linux, "/home/u/.dgmeets"), "/home/u/.dgmeets/recordings");
    assert_eq!(
        m.recording_path(Platform::Linux, "/home/u/.dgmeets", "test_recording.wav"),
        "/home/u/.dgmeets/recordings/test_recording.wav"
    );
    assert_eq!(m.recording_path(Platform::Windows, "C:\\d", "a.wav"), "C:\\d\\recordings\\a.wav");
    let info = FileInfo {
        name: "a.wav".to_string(),
        path: "/x/a.wav".to_string(),
        size: 44,
        is_dir: false,
        modified: String::new(),
    };
    assert_eq!(info.size, 44);
}

#[test]
fn the_device_resolves_to_the_cpu() {
    assert_eq!(WhisperDevice::auto_detect(), WhisperDevice::Cpu);
    assert!(!WhisperDevice::gpu_available());
    assert_eq!(WhisperDevice::Auto.resolve(), WhisperDevice::Cpu);
    assert_eq!(WhisperDevice::Cpu.resolve(), WhisperDevice::Cpu);
    assert_eq!(WhisperDevice::Gpu.resolve(), WhisperDevice::Gpu);
    assert_eq!(WhisperDevice::Cpu.description(), "CPU (Compatible with all systems)");
    assert_eq!(WhisperDevice::Gpu.description(), "GPU (Hardware acceleration)");
    assert_eq!(WhisperDevice::Auto.description(), "Auto-detect (CPU fallback for laptops)");
}

#[test]
fn the_default_transcription_settings() {
    let c = WhisperConfig::default();
    assert_eq!(c.model_name, "openai/whisper-large-v3");
    assert_eq!(c.model_path, None);
    assert_eq!(c.language, None);
    assert_eq!(c.device, WhisperDevice::Auto);
    assert_eq!(c.quality, WhisperQuality::Maximum);
    assert!(c.enable_vad);
    assert!(c.enable_diarization);
    assert_eq!(c.beam_size, 5);
}

#[test]
fn three_languages_are_known() {
    assert_eq!(
        SupportedLanguages::get_all(),
        vec![
            ("auto".to_string(), "Auto-detect".to_string()),
            ("en".to_string(), "English".to_string()),
            ("tr".to_string(), "Turkish".to_string()),
        ]
    );
}

#[test]
fn times_are_written_as_clock_text() {
    assert_eq!(hhmmss(0), "00:00:00");
    assert_eq!(hhmmss(59), "00:00:59");
    assert_eq!(hhmmss(60), "00:01:00");
    assert_eq!(hhmmss(3599), "00:59:59");
    assert_eq!(hhmmss(3661), "01:01:01");
    assert_eq!(hhmmss(360000), "100:00:00");
    assert_eq!(stamp(0), "00:00:00");
    assert_eq!(stamp(999), "00:00:00");
    assert_eq!(stamp(10_000), "00:00:10");
    assert_eq!(stamp(3_723_500), "01:02:03");
    for s in [0u64, 1, 61, 86399, 86400, 1_000_000] {
        assert_eq!(hhmmss(s), format!("{:02}:{:02}:{:02}", s / 3600, (s % 3600) / 60, s % 60));
    }
}

#[test]
fn live_lines_name_the_speaker() {
    assert_eq!(
        live_line(0, 10_000, Some("Speaker2"), "hello"),
        "[00:00:00 - 00:00:10] Speaker2: hello\n"
    );
    assert_eq!(
        live_line(10_000, 20_000, None, ""),
        "[00:00:10 - 00:00:20] Speaker: \n"
    );
}

#[test]
fn the_speaker_holds_the_middle_of_the_chunk() {
    let turns = vec![
        SpeakerTurn { start_ms: 0, end_ms: 4_000, speaker: "A".to_string() },
        SpeakerTurn { start_ms: 4_000, end_ms: 9_000, speaker: "B".to_string() },
        SpeakerTurn { start_ms: 5_000, end_ms: 20_000, speaker: "C".to_string() },
    ];
    assert_eq!(midpoint(0, 10_000), 5_000);
    assert_eq!(midpoint(3, 4), 3);
    assert_eq!(midpoint(u128::MAX, u128::MAX), u128::MAX);
    assert_eq!(speaker_at(&turns, 0, 10_000), Some("B".to_string()));
    assert_eq!(speaker_at(&turns, 0, 8_000), Some("A".to_string()));
    assert_eq!(speaker_at(&turns, 20_000, 30_000), None);
    assert_eq!(speaker_at(&turns, 10_000, 30_000), Some("C".to_string()));
    assert_eq!(speaker_at(&vec![], 0, 10), None);
}

#[test]
fn tray_events() {
    let tray = TrayManager::new_with_handle(AppHandle { app_data_dir: None });
    assert_eq!(tray.handle_tray_event("show"), TrayAction::ShowMainWindow);
    assert_eq!(tray.handle_tray_event("start_recording"), TrayAction::StartRecording);
    assert_eq!(tray.handle_tray_event("stop_recording"), TrayAction::StopRecording);
    assert_eq!(tray.handle_tray_event("quit"), TrayAction::Quit);
    assert_eq!(tray.handle_tray_event("Show"), TrayAction::Ignore);
    assert_eq!(tray.handle_tray_event(""), TrayAction::Ignore);
    tray.update_recording_state(true);
}

#[test]
fn notifications_by_platform() {
    let n = NotificationManager::new();
    let linux = n.show_notification(Platform::Linux, "T", "B");
    assert_eq!(linux.program, "notify-send");
    assert_eq!(linux.arguments, vec!["T".to_string(), "B".to_string()]);
    let mac = n.show_notification(Platform::MacOs, "T", "B");
    assert_eq!(mac.program, "osascript");
    assert_eq!(
        mac.arguments,
        vec!["-e".to_string(), format!("display notification \"{}\" with title \"{}\"", "B", "T")]
    );
    let win = n.show_notification(Platform::Windows, "T", "B");
    assert_eq!(win.program, "powershell");
    assert_eq!(win.arguments.len(), 2);
    assert_eq!(win.arguments[0], "-Command");
    assert!(win.arguments[1].contains("<text>T</text>"));
    assert!(win.arguments[1].contains("<text>B</text>"));
    assert!(win.arguments[1].contains("CreateToastNotifier(\"dgMeets\").Show($toast)"));
    assert!(win.arguments[1].find("<text>T</text>") < win.arguments[1].find("<text>B</text>"));
}

#[test]
fn recording_notices() {
    let n = NotificationManager::new_with_handle(AppHandle { app_data_dir: None });
    assert_eq!(
        n.show_recording_notification(Platform::Linux, true).arguments,
        vec!["Recording Started".to_string(), "dgMeets is now recording your meeting".to_string()]
    );
    assert_eq!(
        n.show_recording_notification(Platform::Linux, false).arguments,
        vec!["Recording Stopped".to_string(), "Your meeting recording has been saved".to_string()]
    );
    assert_eq!(recorder_content(true), "Recording...");
    assert_eq!(recorder_content(false), "Ready to record");
}

fn reference_entries(contents: &str) -> Vec<(String, String)> {
    let mut out = Vec::new();
    for line in contents.lines() {
        if let Some((key, value)) = line.split_once('=') {
            out.push((key.trim().to_string(), value.trim().to_string()));
        }
    }
    out
}

#[test]
fn environment_files_are_read_line_by_line() {
    assert_eq!(
        parse_env("A=1\nB = two words \n# note\nC=x=y\n"),
        vec![
            ("A".to_string(), "1".to_string()),
            ("B".to_string(), "two words".to_string()),
            ("C".to_string(), "x=y".to_string()),
        ]
    );
    for text in [
        "",
        "\n",
        "A=1",
        "A=1\n",
        "A=1\r\nB=2\r\n",
        "A=1\rB=2",
        "A=1\r",
        "=\n==\n = \n",
        "no entry here",
        "\u{a0}K\u{2003}=\tv\u{3000}\n\nX=",
        "A=1\n\n\nB=2",
        "K=\r\n\r\n",
        "ключ = значение\n",
    ] {
        assert_eq!(parse_env(text), reference_entries(text), "{:?}", text);
    }
}

fn reference_capitalize(text: &str) -> String {
    let mut result = String::new();
    let mut capitalize_next = true;
    for ch in text.chars() {
        if capitalize_next && ch.is_alphabetic() {
            result.push(ch.to_uppercase().next().unwrap());
            capitalize_next = false;
        } else {
            result.push(ch);
            if ch == '.' || ch == '!' || ch == '?' {
                capitalize_next = true;
            }
        }
    }
    result
}

fn reference_post_process(raw: &str) -> String {
    let mut processed = raw.trim().to_string();
    while processed.contains("  ") {
        processed = processed.replace("  ", " ");
    }
    reference_capitalize(&processed)
}

#[test]
fn sentences_begin_in_upper_case() {
    assert_eq!(capitalize_sentences("hello. world! ok? yes"), "Hello. World! Ok? Yes");
    assert_eq!(capitalize_sentences("1. first"), "1. First");
    assert_eq!(capitalize_sentences("...a"), "...A");
    assert_eq!(capitalize_sentences(""), "");
    for text in ["hello. world", "ßa. ǆx", "x.y.z", " a", "é. ñ? ü!", "Already. Fine", "a b c"] {
        assert_eq!(capitalize_sentences(text), reference_capitalize(text), "{:?}", text);
    }
}

#[test]
fn transcripts_are_tidied() {
    assert_eq!(post_process_transcript("  hello   world.  next  "), "Hello world. Next");
    for raw in [
        "",
        "   ",
        "a  b",
        "a   b    c",
        " a.  b ",
        "\t x  y \n",
        "a \t  b",
        "one.two  three",
        "     lead and trail     ",
        "a  ",
        "\u{a0}  nbsp  \u{a0}",
    ] {
        assert_eq!(post_process_transcript(raw), reference_post_process(raw), "{:?}", raw);
    }
}

#[test]
fn test_tray_menu_creation() {
    let tray = TrayManager::new_with_handle(AppHandle { app_data_dir: None });
    assert_eq!(tray.handle_tray_event("quit"), TrayAction::Quit);
    assert!(true, "Tray menu should be created successfully");
}
