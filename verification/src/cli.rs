//! What the command line asks for.
use crate::text::{decimal, decimal_text, push_pair, same_text, text_of, text_pairs};
use vstd::prelude::*;

verus! {

/// The command line.
pub struct Cli {
    /// Install as a background service.
    pub service: bool,
    /// Encrypt clipboard data with a password.
    pub password: Option<String>,
    pub command: Commands,
}

/// The command.
pub enum Commands {
    /// Connect a client to a server.
    Connect { port: u16, address: String },
    /// Start a server.
    Start { port: u16, address: String },
}

/// What to do.
pub enum Plan {
    /// Install a background service.
    Install { service_name: String, cmd: String, environment: Vec<(String, String)> },
    /// Connect to a server.
    Connect { port: u16, address: String },
    /// Serve clients.
    Serve { port: u16, address: String },
}

/// The value of a `Plan`.
pub ghost enum PlanView {
    Install {
        service_name: Seq<char>,
        cmd: Seq<char>,
        environment: Seq<(Seq<char>, Seq<char>)>,
    },
    Connect { port: u16, address: Seq<char> },
    Serve { port: u16, address: Seq<char> },
}

impl View for Plan {
    type V = PlanView;

    open spec fn view(&self) -> PlanView {
        match self {
            Plan::Install { service_name, cmd, environment } => PlanView::Install {
                service_name: service_name@,
                cmd: cmd@,
                environment: text_pairs(environment@),
            },
            Plan::Connect { port, address } => PlanView::Connect { port: *port, address: address@ },
            Plan::Serve { port, address } => PlanView::Serve { port: *port, address: address@ },
        }
    }
}

/// Whether the client reaches the clipboard only with the variable `DISPLAY`.
pub open spec fn is_linux(os: Seq<char>) -> bool {
    os == "linux"@
}

/// The environment of a client that runs in the background.
pub open spec fn client_environment(
    port: u16,
    address: Seq<char>,
    display: Option<Seq<char>>,
) -> Seq<(Seq<char>, Seq<char>)> {
    let variables = seq![("PORT"@, decimal(port as nat)), ("ADDRESS"@, address)];
    match display {
        Some(display) => variables.push(("DISPLAY"@, display)),
        None => variables,
    }
}

/// The environment of a server that runs in the background. Where it has no password,
/// the variable for it is there and empty.
pub open spec fn server_environment(
    port: u16,
    address: Seq<char>,
    password: Option<Seq<char>>,
) -> Seq<(Seq<char>, Seq<char>)> {
    seq![
        ("PORT"@, decimal(port as nat)),
        ("ADDRESS"@, address),
        (
            "PASSWORD"@,
            match password {
                Some(password) => password,
                None => Seq::empty(),
            },
        ),
    ]
}

/// What a command line asks for, on an operating system and with a display.
pub open spec fn plan_of(cli: Cli, os: Seq<char>, display: Option<Seq<char>>) -> PlanView {
    match cli.command {
        Commands::Connect { port, address } => if cli.service {
            PlanView::Install {
                service_name: "clipboard-sync-client"@,
                cmd: "connect"@,
                environment: client_environment(
                    port,
                    address@,
                    if is_linux(os) {
                        display
                    } else {
                        None
                    },
                ),
            }
        } else {
            PlanView::Connect { port, address: address@ }
        },
        Commands::Start { port, address } => if cli.service {
            PlanView::Install {
                service_name: "clipboard-sync-server"@,
                cmd: "start"@,
                environment: server_environment(port, address@, text_of(cli.password)),
            }
        } else {
            PlanView::Serve { port, address: address@ }
        },
    }
}

/// Whether a command line can be followed only where there is a display.
pub open spec fn wants_display(cli: Cli, os: Seq<char>) -> bool {
    cli.service && cli.command is Connect && is_linux(os)
}

/// The environment of a client that runs in the background.
fn make_client_environment(port: u16, address: &str, display: Option<String>) -> (environment: Vec<
    (String, String),
>)
    ensures
        text_pairs(environment@) == client_environment(port, address@, text_of(display)),
{
    let mut environment: Vec<(String, String)> = Vec::new();
    push_pair(&mut environment, "PORT", decimal_text(port).as_str());
    push_pair(&mut environment, "ADDRESS", address);
    if let Some(display) = &display {
        push_pair(&mut environment, "DISPLAY", display.as_str());
    }
    proof {
        assert(text_pairs(environment@) =~= client_environment(port, address@, text_of(display)));
    }
    environment
}

/// The environment of a server that runs in the background.
fn make_server_environment(port: u16, address: &str, password: &Option<String>) -> (environment:
    Vec<(String, String)>)
    ensures
        text_pairs(environment@) == server_environment(port, address@, text_of(*password)),
{
    let mut environment: Vec<(String, String)> = Vec::new();
    push_pair(&mut environment, "PORT", decimal_text(port).as_str());
    push_pair(&mut environment, "ADDRESS", address);
    match password {
        Some(password) => push_pair(&mut environment, "PASSWORD", password.as_str()),
        None => push_pair(&mut environment, "PASSWORD", String::new().as_str()),
    }
    proof {
        assert(text_pairs(environment@) =~= server_environment(port, address@, text_of(*password)));
    }
    environment
}

impl Cli {
    /// Whether the command line can be followed only where there is a display.
    pub fn needs_display(&self, os: &str) -> (needed: bool)
        ensures
            needed == wants_display(*self, os@),
    {
        match &self.command {
            Commands::Connect { .. } => self.service && same_text(os, "linux"),
            Commands::Start { .. } => false,
        }
    }

    /// What the command line asks for.
    pub fn plan(&self, os: &str, display: Option<String>) -> (plan: Plan)
        requires
            wants_display(*self, os@) ==> display is Some,
        ensures
            plan@ == plan_of(*self, os@, text_of(display)),
            !self.service ==> match self.command {
                Commands::Connect { port, address } => plan matches Plan::Connect {
                    port: p,
                    address: a,
                } && p == port && a@ == address@,
                Commands::Start { port, address } => plan matches Plan::Serve {
                    port: p,
                    address: a,
                } && p == port && a@ == address@,
            },
            self.service ==> plan is Install,
    {
        match &self.command {
            Commands::Connect { port, address } => {
                if self.service {
                    let display = if same_text(os, "linux") {
                        display
                    } else {
                        None
                    };
                    Plan::Install {
                        service_name: "clipboard-sync-client".to_owned(),
                        cmd: "connect".to_owned(),
                        environment: make_client_environment(*port, address.as_str(), display),
                    }
                } else {
                    Plan::Connect { port: *port, address: address.clone() }
                }
            },
            Commands::Start { port, address } => {
                if self.service {
                    Plan::Install {
                        service_name: "clipboard-sync-server".to_owned(),
                        cmd: "start".to_owned(),
                        environment: make_server_environment(
                            *port,
                            address.as_str(),
                            &self.password,
                        ),
                    }
                } else {
                    Plan::Serve { port: *port, address: address.clone() }
                }
            },
        }
    }
}

/// Without a service, a client connects to the very port and address of its command, and
/// a server serves at those of its own, whatever the system and the display.
pub proof fn law_command_is_followed(
    password: Option<String>,
    port: u16,
    address: String,
    os: Seq<char>,
    display: Option<Seq<char>>,
)
    ensures
        ({
            let connect = Cli {
                service: false,
                password,
                command: Commands::Connect { port, address },
            };
            let start = Cli { service: false, password, command: Commands::Start { port, address } };
            let connected = plan_of(connect, os, display);
            let served = plan_of(start, os, display);
            &&& connected is Connect
            &&& connected->Connect_port == port
            &&& connected->Connect_address == address@
            &&& served is Serve
            &&& served->Serve_port == port
            &&& served->Serve_address == address@
        }),
{
}

/// A client that is installed keeps the port and the address of its command, and on Linux
/// the display; nothing else.
pub proof fn law_installed_client_keeps_its_settings(
    password: Option<String>,
    port: u16,
    address: String,
    os: Seq<char>,
    display: Option<Seq<char>>,
)
    ensures
        ({
            let cli = Cli { service: true, password, command: Commands::Connect { port, address } };
            let plan = plan_of(cli, os, display);
            let variables = plan->environment;
            &&& plan is Install
            &&& plan->service_name == "clipboard-sync-client"@
            &&& plan->cmd == "connect"@
            &&& variables.len() == if os == "linux"@ && display is Some {
                3int
            } else {
                2int
            }
            &&& variables[0] == ("PORT"@, decimal(port as nat))
            &&& variables[1] == ("ADDRESS"@, address@)
            &&& os == "linux"@ && display is Some ==> variables[2] == (
                "DISPLAY"@,
                display->Some_0,
            )
            &&& wants_display(cli, os) <==> os == "linux"@
        }),
{
}

/// A server that is installed keeps the port and the address of its command, and its
/// password; where it has none, the variable is empty. It needs no display.
pub proof fn law_installed_server_keeps_its_settings(
    password: Option<String>,
    port: u16,
    address: String,
    os: Seq<char>,
    display: Option<Seq<char>>,
)
    ensures
        ({
            let cli = Cli { service: true, password, command: Commands::Start { port, address } };
            let plan = plan_of(cli, os, display);
            let variables = plan->environment;
            &&& plan is Install
            &&& plan->service_name == "clipboard-sync-server"@
            &&& plan->cmd == "start"@
            &&& variables.len() == 3
            &&& variables[0] == ("PORT"@, decimal(port as nat))
            &&& variables[1] == ("ADDRESS"@, address@)
            &&& variables[2].0 == "PASSWORD"@
            &&& password is Some ==> variables[2].1 == password->Some_0@
            &&& password is None ==> variables[2].1.len() == 0
            &&& !wants_display(cli, os)
        }),
{
}

/// The value of a plan is all of it, and only a client that is to be installed wants a
/// display.
pub proof fn law_plans_are_kept(
    service_name: String,
    cmd: String,
    environment: Vec<(String, String)>,
    port: u16,
    address: String,
    cli: Cli,
    os: Seq<char>,
)
    ensures
        (Plan::Install { service_name, cmd, environment })@ == (PlanView::Install {
            service_name: service_name@,
            cmd: cmd@,
            environment: text_pairs(environment@),
        }),
        (Plan::Connect { port, address })@ == (PlanView::Connect { port, address: address@ }),
        (Plan::Serve { port, address })@ == (PlanView::Serve { port, address: address@ }),
        wants_display(cli, os) ==> cli.service && cli.command is Connect,
{
}

} // verus!
