use cync::cli::{Cli, Commands, Plan};
use cync::errors::ProgramError;

fn cli(service: bool, password: Option<&str>, connect: bool) -> Cli {
    let address = "h".to_string();
    Cli {
        service,
        password: password.map(|p| p.to_string()),
        command: if connect {
            Commands::Connect { port: 4343, address }
        } else {
            Commands::Start { port: 4343, address }
        },
    }
}

fn pairs(list: &[(&str, &str)]) -> Vec<(String, String)> {
    list.iter().map(|(a, b)| (a.to_string(), b.to_string())).collect()
}

fn installs(plan: Plan, name: &str, command: &str, variables: &[(&str, &str)]) -> bool {
    match plan {
        Plan::Install { service_name, cmd, environment } => {
            service_name == name && cmd == command && environment == pairs(variables)
        }
        _ => false,
    }
}

#[test]
fn without_service_the_command_is_done() {
    match cli(false, None, true).plan("linux", None) {
        Plan::Connect { port, address } => assert_eq!((port, address.as_str()), (4343, "h")),
        _ => panic!("no connection"),
    }
    match cli(false, None, false).plan("linux", None) {
        Plan::Serve { port, address } => assert_eq!((port, address.as_str()), (4343, "h")),
        _ => panic!("no server"),
    }
}

#[test]
fn client_service_has_a_display_on_linux() {
    let command = cli(true, Some("pw"), true);
    assert!(command.needs_display("linux"));
    assert!(!command.needs_display("macos"));
    assert!(installs(
        command.plan("linux", Some(":0".to_string())),
        "clipboard-sync-client",
        "connect",
        &[("PORT", "4343"), ("ADDRESS", "h"), ("DISPLAY", ":0")]
    ));
    assert!(installs(
        command.plan("macos", Some(":0".to_string())),
        "clipboard-sync-client",
        "connect",
        &[("PORT", "4343"), ("ADDRESS", "h")]
    ));
}

#[test]
fn server_service_has_a_password_variable() {
    let command = cli(true, Some("pw"), false);
    assert!(!command.needs_display("linux"));
    assert!(installs(
        command.plan("linux", None),
        "clipboard-sync-server",
        "start",
        &[("PORT", "4343"), ("ADDRESS", "h"), ("PASSWORD", "pw")]
    ));
    assert!(installs(
        cli(true, None, false).plan("linux", None),
        "clipboard-sync-server",
        "start",
        &[("PORT", "4343"), ("ADDRESS", "h"), ("PASSWORD", "")]
    ));
}

#[test]
fn errors_tell_what_went_wrong() {
    let io = std::io::Error::new(std::io::ErrorKind::Other, "x");
    assert_eq!(ProgramError::from(io).message(), "Failed to bind");
    let closed = tokio_tungstenite::tungstenite::Error::ConnectionClosed;
    assert_eq!(ProgramError::from(closed).message(), "Failed to connect to websocket");
    assert_eq!(ProgramError::Custom("x".to_string()).message(), "Error occurred: x");
}
