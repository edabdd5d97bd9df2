use cync::install::{accepted, create_service, Installation};
use cync::launchd;
use cync::service::{create, declined, format_environment, selinux_enabled, unit_dir, Creation};
use cync::steps::{Action, Event, Step};

const UNIT: &str = "\n[Unit]\nDescription=svc\nAfter=network-online.target\nWants=network-online.target\n\nStartLimitIntervalSec=500\nStartLimitBurst=5\n\n[Service]\nRestart=on-failure\nRestartSec=5s\nExecStart=/bin/cync connect\nEnvironment=\"PORT=1\"\nEnvironment=\"ADDRESS=h\"\n[Install]\nWantedBy=multi-user.target";

fn environment() -> Vec<(String, String)> {
    vec![
        ("PORT".to_string(), "1".to_string()),
        ("ADDRESS".to_string(), "h".to_string()),
    ]
}

fn creation() -> Creation {
    Creation::new("svc".to_string(), "connect".to_string(), environment())
}

/// A step as text: what is said, and what is done.
fn show(step: Step) -> (Option<String>, String) {
    let action = match step.action {
        Action::FindExecutable => "executable".to_string(),
        Action::Output(command) => format!("run {}", command.join(" ")),
        Action::Spawn(command) => format!("spawn {}", command.join(" ")),
        Action::CheckPath(path) => format!("check {}", path),
        Action::CreateDir(path) => format!("mkdir {}", path),
        Action::WriteFile { path, contents } => format!("write {}: {}", path, contents),
        Action::ReadLine => "line".to_string(),
        Action::Finish => "finish".to_string(),
    };
    (step.say, action)
}

fn go(creation: &mut Creation, event: Event) -> (Option<String>, String) {
    assert!(creation.expects(&event));
    show(create(creation, event))
}

fn quiet(action: &str) -> (Option<String>, String) {
    (None, action.to_string())
}

fn say(text: &str, action: &str) -> (Option<String>, String) {
    (Some(text.to_string()), action.to_string())
}

fn output(text: &str) -> Event {
    Event::Output(text.as_bytes().to_vec())
}

fn line(text: &str) -> Event {
    Event::Line(text.to_string())
}

fn up_to_the_question(selinux: &str, exists: bool) -> Creation {
    let mut c = creation();
    assert_eq!(
        go(&mut c, Event::Start),
        say("Installing background service using systemd", "executable")
    );
    assert_eq!(
        go(&mut c, Event::Executable("/bin/cync".to_string())),
        quiet("run systemd-path user-configuration")
    );
    assert_eq!(go(&mut c, output("/home/u/.config\n")), quiet("check /home/u/.config/systemd/user"));
    let write = format!("write /home/u/.config/systemd/user/svc.service: {}", UNIT);
    if exists {
        assert_eq!(go(&mut c, Event::Exists(true)), quiet(&write));
    } else {
        assert_eq!(go(&mut c, Event::Exists(false)), quiet("mkdir /home/u/.config/systemd/user"));
        assert_eq!(go(&mut c, Event::Done), quiet(&write));
    }
    assert_eq!(go(&mut c, Event::Done), quiet("run getenforce"));
    let reload = "run systemctl --user daemon-reload";
    if selinux == "Enforcing\n" {
        assert_eq!(
            go(&mut c, output(selinux)),
            say(
                "WARNING: SELinux is enabled. This may prevent the service from starting.",
                reload
            )
        );
    } else {
        assert_eq!(go(&mut c, output(selinux)), quiet(reload));
    }
    assert_eq!(go(&mut c, output("")), quiet("run systemctl --user start svc"));
    assert_eq!(
        go(&mut c, output("")),
        say("Would you like to enable the service so it runs on boot? (Y/n)", "line")
    );
    c
}

#[test]
fn service_is_created_and_enabled() {
    let mut c = up_to_the_question("Disabled\n", false);
    assert_eq!(go(&mut c, line("\n")), quiet("run systemctl --user enable svc"));
    assert_eq!(go(&mut c, output("")), say("Service enabled.", "finish"));
    assert!(!c.expects(&Event::Done));
}

#[test]
fn service_is_created_and_not_enabled() {
    let mut c = up_to_the_question("Enforcing\n", true);
    assert_eq!(
        go(&mut c, line(" N \n")),
        say(
            "Not enabling service.\nTo enable the service on startup, run `systemctl enable svc`.",
            "finish"
        )
    );
}

#[test]
fn only_no_declines() {
    for answer in ["n", "N", "n\n", "\t N\r\n", "\u{3000}n\u{a0}"] {
        assert!(declined(answer));
    }
    for answer in ["", "\n", "y", "no", "nn", "n n", "\u{200b}n"] {
        assert!(!declined(answer));
    }
}

#[test]
fn only_yes_accepts() {
    for answer in ["y", "y\n", " y\r\n"] {
        assert!(accepted(answer));
    }
    for answer in ["", "\n", "Y", "yes", "n"] {
        assert!(!accepted(answer));
    }
}

#[test]
fn selinux_is_recognised() {
    assert!(selinux_enabled(b"Enforcing\n"));
    assert!(selinux_enabled(b"Enforcing"));
    assert!(!selinux_enabled(b"Permissive\n"));
    assert!(!selinux_enabled(b"Enforcin"));
    assert!(!selinux_enabled(b"enforcing"));
    assert!(!selinux_enabled(b""));
}

#[test]
fn last_byte_of_the_directory_is_dropped() {
    assert_eq!(unit_dir(b"/c\n"), "/c/systemd/user");
    assert_eq!(unit_dir(b"\n"), "/systemd/user");
}

#[test]
fn directory_must_be_text() {
    let mut c = creation();
    go(&mut c, Event::Start);
    go(&mut c, Event::Executable("/bin/cync".to_string()));
    assert!(!c.expects(&Event::Output(vec![])));
    assert!(!c.expects(&Event::Output(vec![0xff, b'\n'])));
    assert!(c.expects(&Event::Output(vec![b'\n'])));
    assert!(!c.expects(&Event::Done));
}

#[test]
fn environment_lines_are_joined() {
    assert_eq!(format_environment(&vec![]), "");
    assert_eq!(
        format_environment(&environment()),
        "Environment=\"PORT=1\"\nEnvironment=\"ADDRESS=h\""
    );
}

fn install(i: &mut Installation, event: Event) -> (Option<String>, String) {
    assert!(i.expects(&event));
    show(create_service(i, event))
}

fn up_to_reload() -> Installation {
    let mut i = Installation::new("start --port 1".to_string(), "svc".to_string());
    assert_eq!(
        install(&mut i, Event::Start),
        say("Installing background service using systemd", "executable")
    );
    let unit = "\n[Unit]\nDescription=svc\nAfter=network-online.target\nWants=network-online.target\n\nStartLimitIntervalSec=500\nStartLimitBurst=5\n\n[Service]\nRestart=on-failure\nRestartSec=5s\nExecStart=/bin/cync start --port 1\n\n[Install]\nWantedBy=multi-user.target";
    assert_eq!(
        install(&mut i, Event::Executable("/bin/cync".to_string())),
        quiet(&format!("write /etc/systemd/system/svc.service: {}", unit))
    );
    assert_eq!(
        install(&mut i, Event::Done),
        say(
            "Service installed to /etc/systemd/system/svc.service\nWould you like to reload the systemd daemon? (y/n)",
            "line"
        )
    );
    i
}

#[test]
fn installation_with_three_yes() {
    let mut i = up_to_reload();
    assert_eq!(install(&mut i, line("y\n")), quiet("spawn systemctl daemon-reload"));
    assert_eq!(
        install(&mut i, Event::Done),
        say("Systemd daemon reloaded.\nWould you like to start the service? (y/n)", "line")
    );
    assert_eq!(install(&mut i, line("y\n")), quiet("spawn systemctl start svc"));
    assert_eq!(
        install(&mut i, Event::Done),
        say(
            "Systemd service started.\nWould you like to enable the service so it runs on boot? (y/n)",
            "line"
        )
    );
    assert_eq!(install(&mut i, line("y\n")), quiet("spawn systemctl enable svc"));
    assert_eq!(install(&mut i, Event::Done), say("Service enabled.", "finish"));
    assert!(!i.expects(&Event::Done));
}

#[test]
fn installation_without_reload() {
    let mut i = up_to_reload();
    assert_eq!(
        install(&mut i, line("\n")),
        say(
            "Not reloading systemd daemon. To reload manually, run `systemctl daemon-reload`.\nTo start the service, run `systemctl start svc`.\nTo enable the service on startup, run `systemctl enable svc`.",
            "finish"
        )
    );
}

#[test]
fn installation_without_start() {
    let mut i = up_to_reload();
    install(&mut i, line("y\n"));
    install(&mut i, Event::Done);
    assert_eq!(
        install(&mut i, line("Y\n")),
        say(
            "Not starting service.\nTo start the service, run `systemctl start svc`.\nTo enable the service on startup, run `systemctl enable svc`.",
            "finish"
        )
    );
}

#[test]
fn installation_without_enable() {
    let mut i = up_to_reload();
    install(&mut i, line("y\n"));
    install(&mut i, Event::Done);
    install(&mut i, line("y\n"));
    install(&mut i, Event::Done);
    assert_eq!(
        install(&mut i, line("no\n")),
        say(
            "Not enabling service.\nTo enable the service on startup, run `systemctl enable svc`.",
            "finish"
        )
    );
}

#[test]
fn property_list_is_shown_and_written() {
    let mut c = launchd::Creation::new("connect".to_string(), environment());
    assert!(c.expects(&Event::Start));
    assert_eq!(
        show(launchd::create(&mut c, Event::Start)),
        say("Installing as launchd daemon.", "executable")
    );
    let plist = "<?xml version=\"1.0\" encoding=\"UTF-8\"?><!DOCTYPE plist PUBLIC \"-//Apple//DTD PLIST 1.0//EN\" \"http://www.apple.com/DTDs/PropertyList-1.0.dtd\"><plist version=\"1.0\"><dict><key>KeepAlive</key><true/><key>Label</key><string>com.cync.connect</string><key>ProgramArguments</key><array><string>/bin/cync</string><string>connect</string></array><key>EnvironmentVariables</key><dict><key>PORT</key><string>1</string><key>ADDRESS</key><string>h</string></dict><key>RunAtLoad</key><true/></dict></plist>";
    let event = Event::Executable("/bin/cync".to_string());
    assert!(c.expects(&event));
    assert_eq!(
        show(launchd::create(&mut c, event)),
        say(plist, &format!("write com.cync.connect.plist: {}", plist))
    );
    assert!(c.expects(&Event::Done));
    assert_eq!(show(launchd::create(&mut c, Event::Done)), quiet("finish"));
    assert!(!c.expects(&Event::Done));
}
