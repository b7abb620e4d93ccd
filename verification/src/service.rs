//! Installing and removing the daemon as a user service: what is to be done,
//! in which order, what the files hold, and what a failure of each step
//! means. Doing it is the caller's part.

use vstd::prelude::*;
use crate::json::{json_string, plainly_quoted, quote};

verus! {

/// The label of the launchd service.
pub const LAUNCHD_LABEL: &'static str = "com.landerwells.shire";

/// The launchd property list, below the home directory.
pub const LAUNCHD_PLIST_PATH: &'static str = "Library/LaunchAgents/com.landerwells.shire.plist";

/// The name of the systemd unit.
pub const SYSTEMD_UNIT: &'static str = "shire.service";

/// The systemd unit file, below the home directory.
pub const SYSTEMD_UNIT_PATH: &'static str = ".config/systemd/user/shire.service";

/// The file name of the browser's native-messaging manifest.
pub const MANIFEST_FILE: &'static str = "com.shire_blocker.json";

/// The file name of the bridge program, beside the daemon's own.
pub const BRIDGE_PROGRAM: &'static str = "shire_bridge";

/// A systemd user service: the unit's name and the path of its unit file.
#[derive(Debug)]
pub struct SystemdService {
    pub name: String,
    pub service_path: String,
}

/// The kind of system that the service is installed on.
#[derive(Debug, Clone, Copy, PartialEq, Eq, Structural)]
pub enum Platform {
    MacOs,
    Windows,
    Other,
}

/// The directory that a path is counted from.
#[derive(Debug, Clone, Copy, PartialEq, Eq, Structural)]
pub enum BaseDirectory {
    /// The user's home directory.
    Home,
    /// The user's data directory.
    Data,
}

/// The base from which the manifest directory is counted.
pub open spec fn manifest_base(platform: Platform) -> BaseDirectory {
    match platform {
        Platform::Windows => BaseDirectory::Data,
        _ => BaseDirectory::Home,
    }
}

/// The manifest directory, below its base.
pub open spec fn manifest_path(platform: Platform) -> Seq<char> {
    match platform {
        Platform::MacOs => "Library/Application Support/Mozilla/NativeMessagingHosts"@,
        Platform::Windows => "Mozilla/NativeMessagingHosts"@,
        Platform::Other => ".mozilla/native-messaging-hosts"@,
    }
}

/// Where the browser looks for native-messaging manifests: a base
/// directory, and the path below it.
pub fn get_manifest_dir(platform: Platform) -> (place: (BaseDirectory, &'static str))
    ensures
        place.0 == manifest_base(platform),
        place.1@ == manifest_path(platform),
{
    match platform {
        Platform::MacOs => (
            BaseDirectory::Home,
            "Library/Application Support/Mozilla/NativeMessagingHosts",
        ),
        Platform::Windows => (BaseDirectory::Data, "Mozilla/NativeMessagingHosts"),
        Platform::Other => (BaseDirectory::Home, ".mozilla/native-messaging-hosts"),
    }
}

/// What the native-messaging manifest holds for a bridge program at the
/// given path.
pub open spec fn manifest_text(bridge_path: Seq<char>) -> Seq<char> {
    "{\n  \"name\": \"com.shire_blocker\",\n  \"description\": \"Shire Blocker\",\n  \"path\": "@
        + json_string(bridge_path)
        + ",\n  \"type\": \"stdio\",\n  \"allowed_extensions\": [\n    \"shire_blocker@example.com\"\n  ]\n}"@
}

/// Writes the native-messaging manifest for a bridge program at the given
/// path.
pub fn render_manifest(bridge_path: &str) -> (manifest: String)
    ensures
        manifest@ == manifest_text(bridge_path@),
        plainly_quoted(bridge_path@),
{
    let mut manifest = String::from_str(
        "{\n  \"name\": \"com.shire_blocker\",\n  \"description\": \"Shire Blocker\",\n  \"path\": ",
    );
    let path = quote(bridge_path);
    manifest.append(path.as_str());
    manifest.append(
        ",\n  \"type\": \"stdio\",\n  \"allowed_extensions\": [\n    \"shire_blocker@example.com\"\n  ]\n}",
    );
    manifest
}

/// What the launchd property list holds for a service with the given label
/// that runs the program at the given path.
pub open spec fn plist_text(label: Seq<char>, exe_path: Seq<char>) -> Seq<char> {
    "<?xml version=\"1.0\" encoding=\"UTF-8\"?>\n<!DOCTYPE plist PUBLIC \"-//Apple//DTD PLIST 1.0//EN\" \"http://www.apple.com/DTDs/PropertyList-1.0.dtd\">\n<plist version=\"1.0\">\n<dict>\n    <key>Label</key>\n    <string>"@
        + label
        + "</string>\n    <key>ProgramArguments</key>\n    <array>\n        <string>"@
        + exe_path
        + "</string>\n        <string>daemon</string>\n    </array>\n    <key>RunAtLoad</key>\n    <true/>\n    <key>KeepAlive</key>\n    <dict>\n        <key>SuccessfulExit</key>\n        <false/>\n        <key>Crashed</key>\n        <true/>\n    </dict>\n    <key>StandardOutPath</key>\n    <string>/tmp/shire.stdout.log</string>\n    <key>StandardErrorPath</key>\n    <string>/tmp/shire.stderr.log</string>\n    <key>ProcessType</key>\n    <string>Interactive</string>\n    <key>Nice</key>\n    <integer>-20</integer>\n</dict>\n</plist>"@
}

/// Writes the launchd property list for a service with the given label that
/// runs the program at the given path.
pub fn render_plist(label: &str, exe_path: &str) -> (plist: String)
    ensures
        plist@ == plist_text(label@, exe_path@),
{
    let mut plist = String::from_str(
        "<?xml version=\"1.0\" encoding=\"UTF-8\"?>\n<!DOCTYPE plist PUBLIC \"-//Apple//DTD PLIST 1.0//EN\" \"http://www.apple.com/DTDs/PropertyList-1.0.dtd\">\n<plist version=\"1.0\">\n<dict>\n    <key>Label</key>\n    <string>",
    );
    plist.append(label);
    plist.append(
        "</string>\n    <key>ProgramArguments</key>\n    <array>\n        <string>",
    );
    plist.append(exe_path);
    plist.append(
        "</string>\n        <string>daemon</string>\n    </array>\n    <key>RunAtLoad</key>\n    <true/>\n    <key>KeepAlive</key>\n    <dict>\n        <key>SuccessfulExit</key>\n        <false/>\n        <key>Crashed</key>\n        <true/>\n    </dict>\n    <key>StandardOutPath</key>\n    <string>/tmp/shire.stdout.log</string>\n    <key>StandardErrorPath</key>\n    <string>/tmp/shire.stderr.log</string>\n    <key>ProcessType</key>\n    <string>Interactive</string>\n    <key>Nice</key>\n    <integer>-20</integer>\n</dict>\n</plist>",
    );
    plist
}

/// What the systemd unit file holds for a daemon at the given path.
pub open spec fn unit_text(exe_path: Seq<char>) -> Seq<char> {
    "[Unit]\nDescription=Shire Daemon\nAfter=network.target\n\n[Service]\nExecStart="@ + exe_path
        + " daemon\nRestart=always\nRestartSec=3\nNice=-20\nStandardOutput=append:/tmp/shire.stdout.log\nStandardError=append:/tmp/shire.stderr.log\n\n[Install]\nWantedBy=default.target\n"@
}

/// Writes the systemd unit file for a daemon at the given path.
pub fn render_unit(exe_path: &str) -> (unit: String)
    ensures
        unit@ == unit_text(exe_path@),
{
    let mut unit = String::from_str(
        "[Unit]\nDescription=Shire Daemon\nAfter=network.target\n\n[Service]\nExecStart=",
    );
    unit.append(exe_path);
    unit.append(
        " daemon\nRestart=always\nRestartSec=3\nNice=-20\nStandardOutput=append:/tmp/shire.stdout.log\nStandardError=append:/tmp/shire.stderr.log\n\n[Install]\nWantedBy=default.target\n",
    );
    unit
}

/// One step of installing or removing the service.
#[derive(Debug, Clone, Copy, PartialEq, Eq, Structural)]
pub enum ServiceStep {
    /// Write the browser's native-messaging manifest.
    WriteMozillaManifest,
    /// Write the launchd property list.
    WriteLaunchdPlist,
    /// Start the launchd service.
    StartLaunchdService,
    /// Write the systemd unit file.
    WriteSystemdUnit,
    /// Run `systemctl --user` with a command.
    Systemctl(SystemctlCommand),
    /// Stop the launchd service, if its property list exists.
    StopLaunchdService,
    /// Remove the launchd property list, if it exists.
    RemoveLaunchdPlist,
    /// Remove the systemd unit file, if it exists.
    RemoveSystemdUnit,
    /// Remove the browser's native-messaging manifest, if it exists.
    RemoveMozillaManifest,
}

/// Whether a step works on a file that may be absent, and is passed over
/// when it is: a service whose property list is gone is not stopped, and a
/// file that is gone already is not removed. That is no failure.
pub open spec fn guarded_by_file(step: ServiceStep) -> bool {
    step == ServiceStep::StopLaunchdService || step == ServiceStep::RemoveLaunchdPlist || step
        == ServiceStep::RemoveSystemdUnit || step == ServiceStep::RemoveMozillaManifest
}

/// Whether a step is to be taken, given whether the file it works on
/// exists.
pub open spec fn step_wanted(step: ServiceStep, file_exists: bool) -> bool {
    guarded_by_file(step) ==> file_exists
}

impl ServiceStep {
    /// Whether the step is to be taken, given whether the file it works on
    /// exists. A step that works on no such file is always taken.
    pub fn wanted(self, file_exists: bool) -> (wanted: bool)
        ensures
            wanted == step_wanted(self, file_exists),
    {
        match self {
            ServiceStep::StopLaunchdService => file_exists,
            ServiceStep::RemoveLaunchdPlist => file_exists,
            ServiceStep::RemoveSystemdUnit => file_exists,
            ServiceStep::RemoveMozillaManifest => file_exists,
            _ => true,
        }
    }
}

/// A command of `systemctl --user`.
#[derive(Debug, Clone, Copy, PartialEq, Eq, Structural)]
pub enum SystemctlCommand {
    DaemonReload,
    Enable,
    Start,
    Stop,
    Disable,
}

/// What the failure of a step means for the steps after it.
#[derive(Debug, Clone, Copy, PartialEq, Eq, Structural)]
pub enum OnFailure {
    /// Go on in silence.
    Ignore,
    /// Go on with a warning where the step ran and reported failure; give
    /// up where it could not be run at all.
    Warn,
    /// Give up.
    Abort,
}

/// A step with what its failure means.
#[derive(Debug, Clone, Copy, PartialEq, Eq, Structural)]
pub struct PlannedStep {
    pub step: ServiceStep,
    pub on_failure: OnFailure,
}

/// The steps that install and start the service, in order. Each of them
/// must succeed.
pub open spec fn start_steps(macos: bool) -> Seq<PlannedStep> {
    if macos {
        seq![
            PlannedStep { step: ServiceStep::WriteMozillaManifest, on_failure: OnFailure::Abort },
            PlannedStep { step: ServiceStep::WriteLaunchdPlist, on_failure: OnFailure::Abort },
            PlannedStep { step: ServiceStep::StartLaunchdService, on_failure: OnFailure::Abort },
        ]
    } else {
        seq![
            PlannedStep { step: ServiceStep::WriteMozillaManifest, on_failure: OnFailure::Abort },
            PlannedStep { step: ServiceStep::WriteSystemdUnit, on_failure: OnFailure::Abort },
            PlannedStep {
                step: ServiceStep::Systemctl(SystemctlCommand::DaemonReload),
                on_failure: OnFailure::Abort,
            },
            PlannedStep {
                step: ServiceStep::Systemctl(SystemctlCommand::Enable),
                on_failure: OnFailure::Abort,
            },
            PlannedStep {
                step: ServiceStep::Systemctl(SystemctlCommand::Start),
                on_failure: OnFailure::Abort,
            },
        ]
    }
}

/// The steps that remove the service, in order. Stopping a service that
/// does not run is no reason to give up; a file that cannot be removed is.
pub open spec fn uninstall_steps(macos: bool) -> Seq<PlannedStep> {
    if macos {
        seq![
            PlannedStep { step: ServiceStep::StopLaunchdService, on_failure: OnFailure::Ignore },
            PlannedStep { step: ServiceStep::RemoveLaunchdPlist, on_failure: OnFailure::Abort },
            PlannedStep { step: ServiceStep::RemoveMozillaManifest, on_failure: OnFailure::Abort },
        ]
    } else {
        seq![
            PlannedStep {
                step: ServiceStep::Systemctl(SystemctlCommand::Stop),
                on_failure: OnFailure::Warn,
            },
            PlannedStep {
                step: ServiceStep::Systemctl(SystemctlCommand::Disable),
                on_failure: OnFailure::Warn,
            },
            PlannedStep { step: ServiceStep::RemoveSystemdUnit, on_failure: OnFailure::Abort },
            PlannedStep {
                step: ServiceStep::Systemctl(SystemctlCommand::DaemonReload),
                on_failure: OnFailure::Ignore,
            },
            PlannedStep { step: ServiceStep::RemoveMozillaManifest, on_failure: OnFailure::Abort },
        ]
    }
}

fn planned(step: ServiceStep, on_failure: OnFailure) -> (planned: PlannedStep)
    ensures
        planned == (PlannedStep { step, on_failure }),
{
    PlannedStep { step, on_failure }
}

/// The steps that install and start the service on this kind of system, in
/// the order in which they are to be taken: the browser manifest first, then
/// the launchd steps on macOS and the systemd steps elsewhere.
pub fn start(macos: bool) -> (steps: Vec<PlannedStep>)
    ensures
        steps@ == start_steps(macos),
{
    let mut steps: Vec<PlannedStep> = Vec::new();
    steps.push(planned(ServiceStep::WriteMozillaManifest, OnFailure::Abort));
    if macos {
        steps.push(planned(ServiceStep::WriteLaunchdPlist, OnFailure::Abort));
        steps.push(planned(ServiceStep::StartLaunchdService, OnFailure::Abort));
    } else {
        steps.push(planned(ServiceStep::WriteSystemdUnit, OnFailure::Abort));
        steps.push(planned(ServiceStep::Systemctl(SystemctlCommand::DaemonReload), OnFailure::Abort));
        steps.push(planned(ServiceStep::Systemctl(SystemctlCommand::Enable), OnFailure::Abort));
        steps.push(planned(ServiceStep::Systemctl(SystemctlCommand::Start), OnFailure::Abort));
    }
    assert(steps@ =~= start_steps(macos));
    steps
}

/// The steps that remove the service on this kind of system, in the order
/// in which they are to be taken: the launchd steps on macOS, the systemd
/// steps elsewhere, and the browser manifest last on both.
pub fn uninstall(macos: bool) -> (steps: Vec<PlannedStep>)
    ensures
        steps@ == uninstall_steps(macos),
{
    let mut steps: Vec<PlannedStep> = Vec::new();
    if macos {
        steps.push(planned(ServiceStep::StopLaunchdService, OnFailure::Ignore));
        steps.push(planned(ServiceStep::RemoveLaunchdPlist, OnFailure::Abort));
    } else {
        steps.push(planned(ServiceStep::Systemctl(SystemctlCommand::Stop), OnFailure::Warn));
        steps.push(planned(ServiceStep::Systemctl(SystemctlCommand::Disable), OnFailure::Warn));
        steps.push(planned(ServiceStep::RemoveSystemdUnit, OnFailure::Abort));
        steps.push(planned(ServiceStep::Systemctl(SystemctlCommand::DaemonReload), OnFailure::Ignore));
    }
    steps.push(planned(ServiceStep::RemoveMozillaManifest, OnFailure::Abort));
    assert(steps@ =~= uninstall_steps(macos));
    steps
}

/// The word by which `systemctl` knows a command.
pub open spec fn command_word(command: SystemctlCommand) -> Seq<char> {
    match command {
        SystemctlCommand::DaemonReload => "daemon-reload"@,
        SystemctlCommand::Enable => "enable"@,
        SystemctlCommand::Start => "start"@,
        SystemctlCommand::Stop => "stop"@,
        SystemctlCommand::Disable => "disable"@,
    }
}

/// The arguments that `systemctl` is run with: `--user`, the command, and
/// the unit for every command but `daemon-reload`.
pub open spec fn command_arguments(command: SystemctlCommand) -> Seq<Seq<char>> {
    if command == SystemctlCommand::DaemonReload {
        seq!["--user"@, command_word(command)]
    } else {
        seq!["--user"@, command_word(command), "shire.service"@]
    }
}

impl SystemctlCommand {
    /// The word by which `systemctl` knows the command.
    pub fn word(self) -> (word: &'static str)
        ensures
            word@ == command_word(self),
    {
        match self {
            SystemctlCommand::DaemonReload => "daemon-reload",
            SystemctlCommand::Enable => "enable",
            SystemctlCommand::Start => "start",
            SystemctlCommand::Stop => "stop",
            SystemctlCommand::Disable => "disable",
        }
    }

    /// The arguments that `systemctl` is run with.
    pub fn arguments(self) -> (arguments: Vec<&'static str>)
        ensures
            arguments@.len() == command_arguments(self).len(),
            forall|i: int|
                0 <= i < arguments@.len() ==> (#[trigger] arguments@[i])@ == command_arguments(
                    self,
                )[i],
    {
        let mut arguments: Vec<&'static str> = Vec::new();
        arguments.push("--user");
        arguments.push(self.word());
        match self {
            SystemctlCommand::DaemonReload => {},
            _ => {
                arguments.push("shire.service");
            },
        }
        arguments
    }
}

/// How a run of `systemctl` ended.
#[derive(Debug, PartialEq, Eq)]
pub enum CommandOutcome {
    /// The program could not be run; the system's words on why.
    NotRun { error: String },
    /// The program ran and reported failure; what it wrote to its error
    /// stream.
    Failed { stderr: String },
    /// The program ran and reported success.
    Succeeded,
}

/// What to do after a step.
#[derive(Debug, PartialEq, Eq)]
pub enum Verdict {
    /// Go on with the next step.
    Continue,
    /// Show the warning, then go on with the next step.
    Warn { message: String },
    /// Give up with the error.
    Abort { message: String },
}

/// What a verdict holds.
pub enum VerdictView {
    Continue,
    Warn { message: Seq<char> },
    Abort { message: Seq<char> },
}

impl View for Verdict {
    type V = VerdictView;

    open spec fn view(&self) -> VerdictView {
        match self {
            Verdict::Continue => VerdictView::Continue,
            Verdict::Warn { message } => VerdictView::Warn { message: message@ },
            Verdict::Abort { message } => VerdictView::Abort { message: message@ },
        }
    }
}

/// What a run of `systemctl` means for the steps after it. Success always
/// goes on, and so does any failure that is to be ignored. A program that
/// could not be run gives up. A program that reported failure gives up or
/// warns, as the step says.
pub open spec fn verdict_of(
    command: SystemctlCommand,
    not_run: Option<Seq<char>>,
    failed: Option<Seq<char>>,
    on_failure: OnFailure,
) -> VerdictView {
    if on_failure == OnFailure::Ignore {
        VerdictView::Continue
    } else {
        match (not_run, failed) {
            (Some(error), _) => VerdictView::Abort {
                message: "Failed to run systemctl "@ + command_word(command) + ": "@ + error,
            },
            (None, Some(stderr)) => if on_failure == OnFailure::Warn {
                VerdictView::Warn {
                    message: "Warning: Failed to "@ + command_word(command) + " shire.service: "@
                        + stderr,
                }
            } else {
                VerdictView::Abort {
                    message: "systemctl "@ + command_word(command) + " failed: "@ + stderr,
                }
            },
            (None, None) => VerdictView::Continue,
        }
    }
}

/// The error with which a program could not be run, if that is how it ended.
pub open spec fn outcome_error(outcome: CommandOutcome) -> Option<Seq<char>> {
    match outcome {
        CommandOutcome::NotRun { error } => Some(error@),
        _ => None,
    }
}

/// What a program that reported failure wrote, if that is how it ended.
pub open spec fn outcome_stderr(outcome: CommandOutcome) -> Option<Seq<char>> {
    match outcome {
        CommandOutcome::Failed { stderr } => Some(stderr@),
        _ => None,
    }
}

/// Judges a run of `systemctl`: whether to go on, to warn, or to give up,
/// and with which words.
pub fn judge(command: SystemctlCommand, outcome: &CommandOutcome, on_failure: OnFailure) -> (verdict:
    Verdict)
    ensures
        verdict@ == verdict_of(
            command,
            outcome_error(*outcome),
            outcome_stderr(*outcome),
            on_failure,
        ),
{
    match on_failure {
        OnFailure::Ignore => {
            return Verdict::Continue;
        },
        _ => {},
    }
    match outcome {
        CommandOutcome::Succeeded => Verdict::Continue,
        CommandOutcome::NotRun { error } => {
            let mut message = String::from_str("Failed to run systemctl ");
            message.append(command.word());
            message.append(": ");
            message.append(error.as_str());
            Verdict::Abort { message }
        },
        CommandOutcome::Failed { stderr } => match on_failure {
            OnFailure::Warn => {
                let mut message = String::from_str("Warning: Failed to ");
                message.append(command.word());
                message.append(" shire.service: ");
                message.append(stderr.as_str());
                Verdict::Warn { message }
            },
            _ => {
                let mut message = String::from_str("systemctl ");
                message.append(command.word());
                message.append(" failed: ");
                message.append(stderr.as_str());
                Verdict::Abort { message }
            },
        },
    }
}

/// What a removal step calls the file that it removes.
pub open spec fn removed_file(step: ServiceStep) -> Seq<char> {
    match step {
        ServiceStep::RemoveLaunchdPlist => "launchd plist"@,
        ServiceStep::RemoveSystemdUnit => "systemd service"@,
        ServiceStep::RemoveMozillaManifest => "Mozilla manifest"@,
        _ => "service"@,
    }
}

/// The error for a file that could not be removed.
pub open spec fn removal_error(step: ServiceStep, error: Seq<char>) -> Seq<char> {
    "Failed to remove "@ + removed_file(step) + " file: "@ + error
}

/// Words the error for a file that could not be removed.
pub fn removal_failure(step: ServiceStep, error: &str) -> (message: String)
    ensures
        message@ == removal_error(step, error@),
{
    let mut message = String::from_str("Failed to remove ");
    message.append(
        match step {
            ServiceStep::RemoveLaunchdPlist => "launchd plist",
            ServiceStep::RemoveSystemdUnit => "systemd service",
            ServiceStep::RemoveMozillaManifest => "Mozilla manifest",
            _ => "service",
        },
    );
    message.append(" file: ");
    message.append(error);
    message
}

} // verus!
