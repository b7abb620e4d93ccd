use serde::ser::SerializeStruct;
use shire_blocker::service::{
    get_manifest_dir, judge, removal_failure, render_manifest, render_plist, render_unit, start,
    uninstall, BaseDirectory, CommandOutcome, OnFailure, PlannedStep, Platform, ServiceStep,
    SystemctlCommand, Verdict, BRIDGE_PROGRAM, LAUNCHD_LABEL, LAUNCHD_PLIST_PATH, MANIFEST_FILE,
    SYSTEMD_UNIT, SYSTEMD_UNIT_PATH,
};

fn step(step: ServiceStep, on_failure: OnFailure) -> PlannedStep {
    PlannedStep { step, on_failure }
}

#[test]
fn uninstall_steps_by_platform() {
    assert_eq!(
        uninstall(true),
        vec![
            step(ServiceStep::StopLaunchdService, OnFailure::Ignore),
            step(ServiceStep::RemoveLaunchdPlist, OnFailure::Abort),
            step(ServiceStep::RemoveMozillaManifest, OnFailure::Abort),
        ]
    );
    assert_eq!(
        uninstall(false),
        vec![
            step(ServiceStep::Systemctl(SystemctlCommand::Stop), OnFailure::Warn),
            step(ServiceStep::Systemctl(SystemctlCommand::Disable), OnFailure::Warn),
            step(ServiceStep::RemoveSystemdUnit, OnFailure::Abort),
            step(ServiceStep::Systemctl(SystemctlCommand::DaemonReload), OnFailure::Ignore),
            step(ServiceStep::RemoveMozillaManifest, OnFailure::Abort),
        ]
    );
}

#[test]
fn start_steps_by_platform() {
    assert_eq!(
        start(true),
        vec![
            step(ServiceStep::WriteMozillaManifest, OnFailure::Abort),
            step(ServiceStep::WriteLaunchdPlist, OnFailure::Abort),
            step(ServiceStep::StartLaunchdService, OnFailure::Abort),
        ]
    );
    assert_eq!(
        start(false),
        vec![
            step(ServiceStep::WriteMozillaManifest, OnFailure::Abort),
            step(ServiceStep::WriteSystemdUnit, OnFailure::Abort),
            step(ServiceStep::Systemctl(SystemctlCommand::DaemonReload), OnFailure::Abort),
            step(ServiceStep::Systemctl(SystemctlCommand::Enable), OnFailure::Abort),
            step(ServiceStep::Systemctl(SystemctlCommand::Start), OnFailure::Abort),
        ]
    );
}

#[test]
fn systemctl_arguments() {
    assert_eq!(SystemctlCommand::DaemonReload.arguments(), vec!["--user", "daemon-reload"]);
    assert_eq!(SystemctlCommand::Enable.arguments(), vec!["--user", "enable", "shire.service"]);
    assert_eq!(SystemctlCommand::Start.arguments(), vec!["--user", "start", "shire.service"]);
    assert_eq!(SystemctlCommand::Stop.arguments(), vec!["--user", "stop", "shire.service"]);
    assert_eq!(SystemctlCommand::Disable.arguments(), vec!["--user", "disable", "shire.service"]);
    assert_eq!(SystemctlCommand::Disable.word(), "disable");
}

fn words(verdict: Verdict) -> (u8, String) {
    match verdict {
        Verdict::Continue => (0, String::new()),
        Verdict::Warn { message } => (1, message),
        Verdict::Abort { message } => (2, message),
    }
}

#[test]
fn verdicts_on_systemctl_runs() {
    let not_run = CommandOutcome::NotRun { error: "No such file".to_string() };
    let failed = CommandOutcome::Failed { stderr: "unit not loaded\n".to_string() };
    let fine = CommandOutcome::Succeeded;
    for policy in [OnFailure::Ignore, OnFailure::Warn, OnFailure::Abort] {
        assert_eq!(words(judge(SystemctlCommand::Start, &fine, policy)), (0, String::new()));
    }
    assert_eq!(words(judge(SystemctlCommand::Start, &not_run, OnFailure::Ignore)), (0, String::new()));
    assert_eq!(words(judge(SystemctlCommand::Start, &failed, OnFailure::Ignore)), (0, String::new()));
    assert_eq!(
        words(judge(SystemctlCommand::Enable, &not_run, OnFailure::Abort)),
        (2, "Failed to run systemctl enable: No such file".to_string())
    );
    assert_eq!(
        words(judge(SystemctlCommand::Stop, &not_run, OnFailure::Warn)),
        (2, "Failed to run systemctl stop: No such file".to_string())
    );
    assert_eq!(
        words(judge(SystemctlCommand::DaemonReload, &failed, OnFailure::Abort)),
        (2, "systemctl daemon-reload failed: unit not loaded\n".to_string())
    );
    assert_eq!(
        words(judge(SystemctlCommand::Disable, &failed, OnFailure::Warn)),
        (1, "Warning: Failed to disable shire.service: unit not loaded\n".to_string())
    );
}

#[test]
fn removal_failures() {
    assert_eq!(
        removal_failure(ServiceStep::RemoveLaunchdPlist, "denied"),
        "Failed to remove launchd plist file: denied"
    );
    assert_eq!(
        removal_failure(ServiceStep::RemoveSystemdUnit, "denied"),
        "Failed to remove systemd service file: denied"
    );
    assert_eq!(
        removal_failure(ServiceStep::RemoveMozillaManifest, "busy"),
        "Failed to remove Mozilla manifest file: busy"
    );
}

#[test]
fn manifest_directories() {
    assert_eq!(
        get_manifest_dir(Platform::MacOs),
        (BaseDirectory::Home, "Library/Application Support/Mozilla/NativeMessagingHosts")
    );
    assert_eq!(
        get_manifest_dir(Platform::Windows),
        (BaseDirectory::Data, "Mozilla/NativeMessagingHosts")
    );
    assert_eq!(
        get_manifest_dir(Platform::Other),
        (BaseDirectory::Home, ".mozilla/native-messaging-hosts")
    );
    assert_eq!(LAUNCHD_LABEL, "com.landerwells.shire");
    assert_eq!(LAUNCHD_PLIST_PATH, "Library/LaunchAgents/com.landerwells.shire.plist");
    assert_eq!(SYSTEMD_UNIT, "shire.service");
    assert_eq!(SYSTEMD_UNIT_PATH, ".config/systemd/user/shire.service");
    assert_eq!(MANIFEST_FILE, "com.shire_blocker.json");
    assert_eq!(BRIDGE_PROGRAM, "shire_bridge");
}

#[test]
fn manifest_is_the_pretty_document() {
    let text = render_manifest("/opt/shire/\"bin\"/shire_bridge");
    assert_eq!(
        text,
        "{\n  \"name\": \"com.shire_blocker\",\n  \"description\": \"Shire Blocker\",\n  \"path\": \"/opt/shire/\\\"bin\\\"/shire_bridge\",\n  \"type\": \"stdio\",\n  \"allowed_extensions\": [\n    \"shire_blocker@example.com\"\n  ]\n}"
    );
    let parsed: serde_json::Value = serde_json::from_str(&text).unwrap();
    assert_eq!(parsed["name"], "com.shire_blocker");
    assert_eq!(parsed["description"], "Shire Blocker");
    assert_eq!(parsed["path"], "/opt/shire/\"bin\"/shire_bridge");
    assert_eq!(parsed["type"], "stdio");
    assert_eq!(parsed["allowed_extensions"][0], "shire_blocker@example.com");
    assert_eq!(parsed.as_object().unwrap().len(), 5);
}

#[test]
fn unit_file_runs_the_daemon() {
    assert_eq!(
        render_unit("/usr/local/bin/shire"),
        "[Unit]\nDescription=Shire Daemon\nAfter=network.target\n\n[Service]\nExecStart=/usr/local/bin/shire daemon\nRestart=always\nRestartSec=3\nNice=-20\nStandardOutput=append:/tmp/shire.stdout.log\nStandardError=append:/tmp/shire.stderr.log\n\n[Install]\nWantedBy=default.target\n"
    );
}

#[test]
fn plist_names_label_and_program() {
    let plist = render_plist("com.landerwells.shire", "/usr/local/bin/shire");
    assert!(plist.starts_with("<?xml version=\"1.0\" encoding=\"UTF-8\"?>\n<!DOCTYPE plist PUBLIC"));
    assert!(plist.contains("    <key>Label</key>\n    <string>com.landerwells.shire</string>\n"));
    assert!(plist.contains(
        "    <array>\n        <string>/usr/local/bin/shire</string>\n        <string>daemon</string>\n    </array>\n"
    ));
    assert!(plist.contains("    <key>Nice</key>\n    <integer>-20</integer>\n"));
    assert!(plist.ends_with("</dict>\n</plist>"));
    assert_eq!(plist.lines().count(), 30);
}

struct Manifest<'a> {
    name: &'a str,
    description: &'a str,
    path: &'a str,
    type_field: &'a str,
    allowed_extensions: [&'a str; 1],
}

impl<'a> serde::Serialize for Manifest<'a> {
    fn serialize<S: serde::Serializer>(&self, serializer: S) -> Result<S::Ok, S::Error> {
        let mut manifest = serializer.serialize_struct("Manifest", 5)?;
        manifest.serialize_field("name", &self.name)?;
        manifest.serialize_field("description", &self.description)?;
        manifest.serialize_field("path", &self.path)?;
        manifest.serialize_field("type", &self.type_field)?;
        manifest.serialize_field("allowed_extensions", &self.allowed_extensions)?;
        manifest.end()
    }
}

#[test]
fn manifest_is_what_a_pretty_json_writer_gives() {
    for path in ["/usr/local/bin/shire_bridge", "C:\\Program Files\\shire\\shire_bridge", "/tmp/\"odd\"\n/ü"] {
        let manifest = Manifest {
            name: "com.shire_blocker",
            description: "Shire Blocker",
            path,
            type_field: "stdio",
            allowed_extensions: ["shire_blocker@example.com"],
        };
        assert_eq!(render_manifest(path), serde_json::to_string_pretty(&manifest).unwrap());
    }
}

#[test]
fn steps_on_an_absent_file_are_passed_over() {
    for step in [
        ServiceStep::StopLaunchdService,
        ServiceStep::RemoveLaunchdPlist,
        ServiceStep::RemoveSystemdUnit,
        ServiceStep::RemoveMozillaManifest,
    ] {
        assert!(step.wanted(true));
        assert!(!step.wanted(false));
    }
    for step in [
        ServiceStep::WriteMozillaManifest,
        ServiceStep::WriteLaunchdPlist,
        ServiceStep::StartLaunchdService,
        ServiceStep::WriteSystemdUnit,
        ServiceStep::Systemctl(SystemctlCommand::Stop),
    ] {
        assert!(step.wanted(true));
        assert!(step.wanted(false));
    }
}
