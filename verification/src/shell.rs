//! Small decisions of the application shell: what a tray event asks for
//! and how the user is told that recording starts and stops.

use vstd::prelude::*;
use vstd::string::*;
use crate::source::Platform;
use crate::text::ids_of;

verus! {

/// What the library needs of the application it runs in: the directory for
/// the application's data, where the platform has one.
#[derive(Debug)]
pub struct AppHandle {
    pub app_data_dir: Option<String>,
}

/// What a tray event asks the shell to do.
#[derive(Debug, Clone, Copy, PartialEq, Eq, Structural)]
pub enum TrayAction {
    /// Show the main window and give it the focus.
    ShowMainWindow,
    /// Tell the front end to start recording.
    StartRecording,
    /// Tell the front end to stop recording.
    StopRecording,
    /// Leave the application.
    Quit,
    /// Do nothing.
    Ignore,
}

/// The action for each tray event.
pub open spec fn action_of(event: Seq<char>) -> TrayAction {
    if event == "show"@ {
        TrayAction::ShowMainWindow
    } else if event == "start_recording"@ {
        TrayAction::StartRecording
    } else if event == "stop_recording"@ {
        TrayAction::StopRecording
    } else if event == "quit"@ {
        TrayAction::Quit
    } else {
        TrayAction::Ignore
    }
}

/// Decides on tray events.
#[derive(Debug)]
pub struct TrayManager {
    app_handle: Option<AppHandle>,
}

impl TrayManager {
    /// Whether the manager has an application to act on.
    pub closed spec fn attached(&self) -> bool {
        self.app_handle is Some
    }

    /// A manager that acts on the application behind `app_handle`.
    pub fn new_with_handle(app_handle: AppHandle) -> (r: Self)
        ensures
            r.attached(),
    {
        TrayManager { app_handle: Some(app_handle) }
    }

    /// Decides what a tray event asks for; an unknown event asks for
    /// nothing, and so does every event of a manager without application.
    pub fn handle_tray_event(&self, event: &str) -> (r: TrayAction)
        ensures
            r == if self.attached() {
                action_of(event@)
            } else {
                TrayAction::Ignore
            },
    {
        if self.app_handle.is_none() {
            return TrayAction::Ignore;
        }
        if *event == *"show" {
            TrayAction::ShowMainWindow
        } else if *event == *"start_recording" {
            TrayAction::StartRecording
        } else if *event == *"stop_recording" {
            TrayAction::StopRecording
        } else if *event == *"quit" {
            TrayAction::Quit
        } else {
            TrayAction::Ignore
        }
    }

    /// The tray shows the same menu whether or not a recording runs.
    pub fn update_recording_state(&self, is_recording: bool) {
    }
}

/// The program that shows a notification, and its arguments.
#[derive(Debug)]
pub struct NotificationCommand {
    pub program: String,
    pub arguments: Vec<String>,
}

/// The program that shows notifications on `platform`.
pub open spec fn notifier(platform: Platform) -> Seq<char> {
    match platform {
        Platform::Windows => "powershell"@,
        Platform::MacOs => "osascript"@,
        Platform::Linux => "notify-send"@,
    }
}

/// The script up to the title.
pub open spec fn toast_head() -> Seq<char> {
    "\n"@
        + "            [Windows.UI.Notifications.ToastNotificationManager, Windows.UI.Notifications, ContentType = WindowsRuntime] | Out-Null\n"@
        + "            [Windows.UI.Notifications.ToastNotification, Windows.UI.Notifications, ContentType = WindowsRuntime] | Out-Null\n"@
        + "            [Windows.Data.Xml.Dom.XmlDocument, Windows.Data.Xml.Dom.XmlDocument, ContentType = WindowsRuntime] | Out-Null\n"@
        + "\n"@
        + "            $template = @\"\n"@
        + "            <toast>\n"@
        + "                <visual>\n"@
        + "                    <binding template=\"ToastGeneric\">\n"@
        + "                        <text>"@
}

/// The script between the title and the body.
pub open spec fn toast_middle() -> Seq<char> {
    "</text>\n"@
        + "                        <text>"@
}

/// The script after the body.
pub open spec fn toast_tail() -> Seq<char> {
    "</text>\n"@
        + "                    </binding>\n"@
        + "                </visual>\n"@
        + "            </toast>\n"@
        + "            \"@\n"@
        + "\n"@
        + "            $xml = New-Object Windows.Data.Xml.Dom.XmlDocument\n"@
        + "            $xml.LoadXml($template)\n"@
        + "            $toast = New-Object Windows.UI.Notifications.ToastNotification $xml\n"@
        + "            [Windows.UI.Notifications.ToastNotificationManager]::CreateToastNotifier(\"dgMeets\").Show($toast)\n"@
        + "            "@
}

/// The script that shows a toast with `title` and `body` on Windows.
pub open spec fn toast_script(title: Seq<char>, body: Seq<char>) -> Seq<char> {
    toast_head() + title + toast_middle() + body + toast_tail()
}

/// Appends `toast_head` to `out`.
fn append_toast_head(out: &mut String)
    ensures
        final(out)@ == old(out)@ + toast_head(),
{
    out.append("\n");
    out.append("            [Windows.UI.Notifications.ToastNotificationManager, Windows.UI.Notifications, ContentType = WindowsRuntime] | Out-Null\n");
    out.append("            [Windows.UI.Notifications.ToastNotification, Windows.UI.Notifications, ContentType = WindowsRuntime] | Out-Null\n");
    out.append("            [Windows.Data.Xml.Dom.XmlDocument, Windows.Data.Xml.Dom.XmlDocument, ContentType = WindowsRuntime] | Out-Null\n");
    out.append("\n");
    out.append("            $template = @\"\n");
    out.append("            <toast>\n");
    out.append("                <visual>\n");
    out.append("                    <binding template=\"ToastGeneric\">\n");
    out.append("                        <text>");
    proof {
        assert(out@ =~= old(out)@ + toast_head());
    }
}

/// Appends `toast_middle` to `out`.
fn append_toast_middle(out: &mut String)
    ensures
        final(out)@ == old(out)@ + toast_middle(),
{
    out.append("</text>\n");
    out.append("                        <text>");
    proof {
        assert(out@ =~= old(out)@ + toast_middle());
    }
}

/// Appends `toast_tail` to `out`.
fn append_toast_tail(out: &mut String)
    ensures
        final(out)@ == old(out)@ + toast_tail(),
{
    out.append("</text>\n");
    out.append("                    </binding>\n");
    out.append("                </visual>\n");
    out.append("            </toast>\n");
    out.append("            \"@\n");
    out.append("\n");
    out.append("            $xml = New-Object Windows.Data.Xml.Dom.XmlDocument\n");
    out.append("            $xml.LoadXml($template)\n");
    out.append("            $toast = New-Object Windows.UI.Notifications.ToastNotification $xml\n");
    out.append("            [Windows.UI.Notifications.ToastNotificationManager]::CreateToastNotifier(\"dgMeets\").Show($toast)\n");
    out.append("            ");
    proof {
        assert(out@ =~= old(out)@ + toast_tail());
    }
}


/// The arguments with which the notifier shows `title` and `body`.
pub open spec fn notifier_arguments(platform: Platform, title: Seq<char>, body: Seq<char>) -> Seq<
    Seq<char>,
> {
    match platform {
        Platform::Windows => seq!["-Command"@, toast_script(title, body)],
        Platform::MacOs => seq![
            "-e"@,
            "display notification \""@ + body + "\" with title \""@ + title + "\""@,
        ],
        Platform::Linux => seq![title, body],
    }
}

/// The title of the notice that recording started or stopped.
pub open spec fn recording_title(is_recording: bool) -> Seq<char> {
    if is_recording {
        "Recording Started"@
    } else {
        "Recording Stopped"@
    }
}

/// The body of the notice that recording started or stopped.
pub open spec fn recording_body(is_recording: bool) -> Seq<char> {
    if is_recording {
        "dgMeets is now recording your meeting"@
    } else {
        "Your meeting recording has been saved"@
    }
}

/// Composes the notifications of the operating system.
#[derive(Debug)]
pub struct NotificationManager {
    app_handle: Option<AppHandle>,
}

impl NotificationManager {
    /// Whether the manager has an application behind it.
    pub closed spec fn attached(&self) -> bool {
        self.app_handle is Some
    }

    /// A manager without application.
    pub fn new() -> (r: Self)
        ensures
            !r.attached(),
    {
        NotificationManager { app_handle: None }
    }

    /// A manager for the application behind `app_handle`.
    pub fn new_with_handle(app_handle: AppHandle) -> (r: Self)
        ensures
            r.attached(),
    {
        NotificationManager { app_handle: Some(app_handle) }
    }

    /// The command that shows a notification with `title` and `body` on
    /// `platform`. Title and body go into the command as they are.
    pub fn show_notification(&self, platform: Platform, title: &str, body: &str) -> (r:
        NotificationCommand)
        ensures
            r.program@ == notifier(platform),
            ids_of(r.arguments@) == notifier_arguments(platform, title@, body@),
    {
        let mut arguments: Vec<String> = Vec::new();
        let program = match platform {
            Platform::Windows => {
                let mut script = String::new();
                append_toast_head(&mut script);
                script.append(title);
                append_toast_middle(&mut script);
                script.append(body);
                append_toast_tail(&mut script);
                proof {
                    assert(script@ =~= toast_script(title@, body@));
                }
                arguments.push(String::from_str("-Command"));
                arguments.push(script);
                "powershell"
            },
            Platform::MacOs => {
                let mut script = String::from_str("display notification \"");
                script.append(body);
                script.append("\" with title \"");
                script.append(title);
                script.append("\"");
                arguments.push(String::from_str("-e"));
                arguments.push(script);
                "osascript"
            },
            Platform::Linux => {
                arguments.push(String::from_str(title));
                arguments.push(String::from_str(body));
                "notify-send"
            },
        };
        proof {
            assert(ids_of(arguments@) =~= notifier_arguments(platform, title@, body@));
        }
        NotificationCommand { program: String::from_str(program), arguments }
    }

    /// The command that tells the user that recording started or stopped.
    pub fn show_recording_notification(&self, platform: Platform, is_recording: bool) -> (r:
        NotificationCommand)
        ensures
            r.program@ == notifier(platform),
            ids_of(r.arguments@) == notifier_arguments(
                platform,
                recording_title(is_recording),
                recording_body(is_recording),
            ),
    {
        if is_recording {
            self.show_notification(
                platform,
                "Recording Started",
                "dgMeets is now recording your meeting",
            )
        } else {
            self.show_notification(
                platform,
                "Recording Stopped",
                "Your meeting recording has been saved",
            )
        }
    }
}

/// The text that the floating recorder shows.
pub fn recorder_content(is_recording: bool) -> (r: &'static str)
    ensures
        is_recording ==> r@ == "Recording..."@,
        !is_recording ==> r@ == "Ready to record"@,
{
    if is_recording {
        "Recording..."
    } else {
        "Ready to record"
    }
}

} // verus!
