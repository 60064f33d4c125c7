//! Error types of the engine and of the application shell around it.

use vstd::prelude::*;
use vstd::string::*;

verus! {

/// What can go wrong while capturing, chunking and finalising audio.
#[derive(Debug, Clone, Copy, PartialEq, Eq, Structural)]
pub enum CaptureError {
    /// No device or source matches what was asked for.
    DeviceUnavailable,
    /// A microphone session was asked for and no source is a microphone.
    NoMicrophoneSource,
    /// A system-audio session was asked for and no source is system audio.
    NoSystemAudioSource,
    /// A mixed session was asked for and there is neither a microphone nor
    /// a system-audio source.
    NoSourcesForMix,
    /// The id names a system-audio device that the platform does not know.
    UnsupportedSystemDevice,
    /// A stream could not be opened on its device.
    DeviceOpenFailed,
    /// The device delivers a sample format that the engine cannot take.
    UnsupportedFormat,
    /// A chunk could not be encoded; the chunk is dropped.
    EncodeFailed,
    /// A chunk file could not be decoded.
    DecodeFailed,
    /// The chunks of one session do not share one sample format.
    FormatMismatch,
    /// The session produced no completed chunk.
    EmptySession,
    /// A recording is already running on this capture engine.
    AlreadyRecording,
    /// None of the requested sources could be started.
    NoSourcesStarted,
    /// No application handle was set, so no session directory can be named.
    AppHandleNotSet,
    /// The application has no data directory.
    DataDirUnavailable,
    /// A chunk of the configured rate and duration exceeds what the machine
    /// can count.
    ChunkLengthOverflow,
}

impl CaptureError {
    /// Whether the error says that no source or device matches what was
    /// asked for. Such an error comes before anything is started or
    /// stopped.
    pub open spec fn unavailable(self) -> bool {
        self == CaptureError::DeviceUnavailable || self == CaptureError::NoMicrophoneSource || self
            == CaptureError::NoSystemAudioSource || self == CaptureError::NoSourcesForMix || self
            == CaptureError::UnsupportedSystemDevice
    }

    /// Tests whether the error says that no source or device matches what
    /// was asked for.
    pub fn is_device_unavailable(&self) -> (r: bool)
        ensures
            r == self.unavailable(),
    {
        match self {
            CaptureError::DeviceUnavailable => true,
            CaptureError::NoMicrophoneSource => true,
            CaptureError::NoSystemAudioSource => true,
            CaptureError::NoSourcesForMix => true,
            CaptureError::UnsupportedSystemDevice => true,
            _ => false,
        }
    }

    /// The text shown to the caller for this error.
    pub open spec fn message_spec(self) -> Seq<char> {
        match self {
            CaptureError::DeviceUnavailable => "No matching audio source found"@,
            CaptureError::NoMicrophoneSource => "No microphone source found"@,
            CaptureError::NoSystemAudioSource => "No system audio source found"@,
            CaptureError::NoSourcesForMix => "No available sources for mix"@,
            CaptureError::UnsupportedSystemDevice => "Unsupported system audio device"@,
            CaptureError::DeviceOpenFailed => "Failed to open audio stream"@,
            CaptureError::UnsupportedFormat => "Unsupported sample format"@,
            CaptureError::EncodeFailed => "Failed to write wav chunk"@,
            CaptureError::DecodeFailed => "Failed to read wav chunk"@,
            CaptureError::FormatMismatch => "chunks differ in sample format"@,
            CaptureError::EmptySession => "no chunks"@,
            CaptureError::AlreadyRecording => "Already recording"@,
            CaptureError::NoSourcesStarted => "No sources started successfully"@,
            CaptureError::AppHandleNotSet => "App handle not set"@,
            CaptureError::DataDirUnavailable => "Failed to get app_data_dir"@,
            CaptureError::ChunkLengthOverflow => "Chunk length out of range"@,
        }
    }

    /// The text shown to the caller for this error.
    pub fn message(&self) -> (r: &'static str)
        ensures
            r@ == self.message_spec(),
    {
        match self {
            CaptureError::DeviceUnavailable => "No matching audio source found",
            CaptureError::NoMicrophoneSource => "No microphone source found",
            CaptureError::NoSystemAudioSource => "No system audio source found",
            CaptureError::NoSourcesForMix => "No available sources for mix",
            CaptureError::UnsupportedSystemDevice => "Unsupported system audio device",
            CaptureError::DeviceOpenFailed => "Failed to open audio stream",
            CaptureError::UnsupportedFormat => "Unsupported sample format",
            CaptureError::EncodeFailed => "Failed to write wav chunk",
            CaptureError::DecodeFailed => "Failed to read wav chunk",
            CaptureError::FormatMismatch => "chunks differ in sample format",
            CaptureError::EmptySession => "no chunks",
            CaptureError::AlreadyRecording => "Already recording",
            CaptureError::NoSourcesStarted => "No sources started successfully",
            CaptureError::AppHandleNotSet => "App handle not set",
            CaptureError::DataDirUnavailable => "Failed to get app_data_dir",
            CaptureError::ChunkLengthOverflow => "Chunk length out of range",
        }
    }
}

/// An error of the application shell, each kind with its message.
#[derive(Debug)]
pub enum AppError {
    AudioError(String),
    FileSystemError(String),
    IPCError(String),
    WindowError(String),
    NotificationError(String),
}

impl AppError {
    /// The message carried by the error.
    pub open spec fn detail(&self) -> Seq<char> {
        match self {
            AppError::AudioError(m) => m@,
            AppError::FileSystemError(m) => m@,
            AppError::IPCError(m) => m@,
            AppError::WindowError(m) => m@,
            AppError::NotificationError(m) => m@,
        }
    }

    /// The words that introduce the message of each kind.
    pub open spec fn label(&self) -> Seq<char> {
        match self {
            AppError::AudioError(_) => "Audio Error: "@,
            AppError::FileSystemError(_) => "File System Error: "@,
            AppError::IPCError(_) => "IPC Error: "@,
            AppError::WindowError(_) => "Window Error: "@,
            AppError::NotificationError(_) => "Notification Error: "@,
        }
    }

    /// The name of the variant, as the debug rendering writes it.
    pub open spec fn variant_name(&self) -> Seq<char> {
        match self {
            AppError::AudioError(_) => "AudioError"@,
            AppError::FileSystemError(_) => "FileSystemError"@,
            AppError::IPCError(_) => "IPCError"@,
            AppError::WindowError(_) => "WindowError"@,
            AppError::NotificationError(_) => "NotificationError"@,
        }
    }

    /// The error as shown to a user: the label, then the message.
    pub open spec fn message_spec(&self) -> Seq<char> {
        self.label() + self.detail()
    }

    /// The error as shown to a user: the label, then the message.
    pub fn message(&self) -> (r: String)
        ensures
            r@ == self.message_spec(),
    {
        let (label, detail): (&str, &String) = match self {
            AppError::AudioError(m) => ("Audio Error: ", m),
            AppError::FileSystemError(m) => ("File System Error: ", m),
            AppError::IPCError(m) => ("IPC Error: ", m),
            AppError::WindowError(m) => ("Window Error: ", m),
            AppError::NotificationError(m) => ("Notification Error: ", m),
        };
        let mut out = String::from_str(label);
        out.append(detail.as_str());
        out
    }
}

/// The rendering that `{:?}` gives a string: quoted, with escapes.
pub uninterp spec fn debug_quoted(s: Seq<char>) -> Seq<char>;

/// `format!("{:?}", s)` for a string slice: std's `Debug` for `str`. The
/// result is named, since its escaping rules are long; it depends on the
/// characters of `s` alone.
#[verifier::external_body]
fn quote_for_debug(s: &str) -> (r: String)
    ensures
        r@ == debug_quoted(s@),
{
    format!("{:?}", s)
}

/// The RFC 3339 text of the instant `millis` milliseconds after the Unix
/// epoch in UTC, or `None` where the calendar of the time library does not
/// reach that instant.
pub uninterp spec fn rfc3339_text(millis: int) -> Option<Seq<char>>;

/// `chrono::DateTime::from_timestamp_millis` followed by
/// `DateTime::to_rfc3339`. The first returns `None` outside its range, the
/// second writes the date, `T`, the time and the offset `+00:00`; both depend
/// on `millis` alone.
#[verifier::external_body]
fn rfc3339_from_millis(millis: i64) -> (r: Option<String>)
    ensures
        r is Some <==> rfc3339_text(millis as int) is Some,
        r matches Some(t) ==> Some(t@) == rfc3339_text(millis as int),
{
    chrono::DateTime::from_timestamp_millis(millis).map(|t| t.to_rfc3339())
}

/// `std::time::SystemTime::now`, turned into a UTC date by
/// `chrono::DateTime::<Utc>::from` and read by `DateTime::timestamp_millis`:
/// the wall clock in milliseconds since the Unix epoch, negative for a clock
/// that stands before it. The value is whatever the clock shows, so nothing
/// is promised of it.
#[verifier::external_body]
pub(crate) fn clock_millis() -> (r: i64) {
    chrono::DateTime::<chrono::Utc>::from(std::time::SystemTime::now()).timestamp_millis()
}

/// Logging and reporting of application errors.
pub struct ErrorHandler;

impl ErrorHandler {
    /// The line that is logged for `error` when it arises in `context`.
    pub open spec fn log_line_spec(error: &AppError, context: Seq<char>) -> Seq<char> {
        "❌ Error in "@ + context + ": "@ + error.message_spec()
    }

    /// The line to log for `error` when it arises in `context`.
    pub fn log_error(error: &AppError, context: &str) -> (r: String)
        ensures
            r@ == Self::log_line_spec(error, context@),
    {
        let mut out = String::from_str("❌ Error in ");
        out.append(context);
        out.append(": ");
        let message = error.message();
        out.append(message.as_str());
        out
    }

    /// No recovery strategy exists for any kind of error: the error is
    /// handed back to the caller unchanged.
    pub fn handle_recoverable_error(error: AppError, context: &str) -> (r: Result<(), AppError>)
        ensures
            r == Err::<(), AppError>(error),
    {
        Err(error)
    }

    /// The report on `error`, given the text of the time and the name of the
    /// platform.
    pub open spec fn report_spec(
        error: &AppError,
        timestamp: Seq<char>,
        platform: Seq<char>,
    ) -> Seq<char> {
        "Error Report\n============\nType: "@ + error.variant_name() + "("@ + debug_quoted(
            error.detail(),
        ) + ")"@ + "\nMessage: "@ + error.message_spec() + "\nTimestamp: "@ + timestamp
            + "\nPlatform: "@ + platform + "\n"@
    }

    /// Renders the report on `error` for the given time text and platform
    /// name.
    pub fn render_error_report(error: &AppError, timestamp: &str, platform: &str) -> (r: String)
        ensures
            r@ == Self::report_spec(error, timestamp@, platform@),
    {
        let (name, detail): (&str, &String) = match error {
            AppError::AudioError(m) => ("AudioError", m),
            AppError::FileSystemError(m) => ("FileSystemError", m),
            AppError::IPCError(m) => ("IPCError", m),
            AppError::WindowError(m) => ("WindowError", m),
            AppError::NotificationError(m) => ("NotificationError", m),
        };
        let mut out = String::from_str("Error Report\n============\nType: ");
        out.append(name);
        out.append("(");
        let quoted = quote_for_debug(detail.as_str());
        out.append(quoted.as_str());
        out.append(")");
        out.append("\nMessage: ");
        let message = error.message();
        out.append(message.as_str());
        out.append("\nTimestamp: ");
        out.append(timestamp);
        out.append("\nPlatform: ");
        out.append(platform);
        out.append("\n");
        out
    }

    /// The text of the time in a report made at `millis`: RFC 3339 where the
    /// calendar reaches that instant, empty otherwise.
    pub open spec fn timestamp_text(millis: int) -> Seq<char> {
        match rfc3339_text(millis) {
            Some(t) => t,
            None => Seq::<char>::empty(),
        }
    }

    /// The report on `error` as made at the instant `millis` milliseconds
    /// after the Unix epoch.
    pub fn error_report_at(error: &AppError, millis: i64, platform: &str) -> (r: String)
        ensures
            r@ == Self::report_spec(error, Self::timestamp_text(millis as int), platform@),
    {
        match rfc3339_from_millis(millis) {
            Some(t) => Self::render_error_report(error, t.as_str(), platform),
            None => {
                let empty = String::new();
                Self::render_error_report(error, empty.as_str(), platform)
            },
        }
    }

    /// The report on `error` as of now. The time is read from the clock, so
    /// the contract holds for some instant, which it does not name.
    pub fn create_error_report(error: &AppError, platform: &str) -> (r: String)
        ensures
            exists|millis: int| r@ == Self::report_spec(error, Self::timestamp_text(millis), platform@),
    {
        let now = clock_millis();
        Self::error_report_at(error, now, platform)
    }
}

} // verus!
