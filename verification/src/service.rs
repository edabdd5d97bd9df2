//! A background service of the user, managed by systemd.
use crate::steps::{
    command1, command2, command3, command4, quiet_step, quietly, saying, saying_step, Action,
    ActionView, Event, EventView, Step, StepView,
};
use crate::text::{same_text, text_from_utf8, text_pairs, trim, trimmed};
use vstd::prelude::*;
use vstd::slice::{slice_subrange, slice_to_vec};
use vstd::string::StringExecFns;
use vstd::utf8::{decode_utf8, encode_utf8, is_ascii_chars_encode_utf8, valid_utf8};

verus! {

/// How far the creation of the service has come: the event that is awaited.
#[derive(Clone, Copy, Debug, PartialEq, Eq, Structural)]
pub enum Stage {
    /// The beginning.
    Start,
    /// The path of the executable.
    Executable,
    /// The directory of the user's configuration.
    ConfigDir,
    /// Whether the directory for units exists.
    DirExists,
    /// That the directory for units was created.
    DirCreated,
    /// That the unit was written.
    Written,
    /// The state of SELinux.
    SelinuxState,
    /// That systemd has read the unit.
    Reloaded,
    /// That the service was started.
    Started,
    /// Whether the service is to start on boot.
    Answer,
    /// That the service will start on boot.
    Enabled,
    /// Nothing: the work is done.
    Finished,
}

/// The creation of a service: the service and what was learned on the way.
pub struct Creation {
    pub service_name: String,
    pub cmd: String,
    pub environment: Vec<(String, String)>,
    pub exe_path: String,
    pub unit_dir: String,
    pub stage: Stage,
}

/// The value of a `Creation`.
pub ghost struct CreationView {
    pub service_name: Seq<char>,
    pub cmd: Seq<char>,
    pub environment: Seq<(Seq<char>, Seq<char>)>,
    pub exe_path: Seq<char>,
    pub unit_dir: Seq<char>,
    pub stage: Stage,
}

impl View for Creation {
    type V = CreationView;

    open spec fn view(&self) -> CreationView {
        CreationView {
            service_name: self.service_name@,
            cmd: self.cmd@,
            environment: text_pairs(self.environment@),
            exe_path: self.exe_path@,
            unit_dir: self.unit_dir@,
            stage: self.stage,
        }
    }
}

/// The line of a unit that sets one variable.
pub open spec fn variable_line(variable: (Seq<char>, Seq<char>)) -> Seq<char> {
    "Environment=\""@ + variable.0 + "="@ + variable.1 + "\""@
}

/// The lines of a unit that set variables, with a line break between each two.
pub open spec fn environment_lines(environment: Seq<(Seq<char>, Seq<char>)>) -> Seq<char>
    decreases environment.len(),
{
    if environment.len() == 0 {
        Seq::empty()
    } else if environment.len() == 1 {
        variable_line(environment[0])
    } else {
        environment_lines(environment.drop_last()) + "\n"@ + variable_line(environment.last())
    }
}

/// A systemd unit that runs `exe_path` with `cmd`, and with the variables that
/// `environment` sets.
pub open spec fn unit_text(
    service_name: Seq<char>,
    exe_path: Seq<char>,
    cmd: Seq<char>,
    environment: Seq<char>,
) -> Seq<char> {
    "\n[Unit]\nDescription="@ + service_name
        + "\nAfter=network-online.target\nWants=network-online.target\n\nStartLimitIntervalSec=500\nStartLimitBurst=5\n\n[Service]\nRestart=on-failure\nRestartSec=5s\nExecStart="@
        + exe_path + " "@ + cmd + "\n"@ + environment + "\n[Install]\nWantedBy=multi-user.target"@
}

/// The path of the unit of a service in a directory.
pub open spec fn unit_path(dir: Seq<char>, service_name: Seq<char>) -> Seq<char> {
    dir + "/"@ + service_name + ".service"@
}

/// An output that names a directory: some text in UTF-8 and one more byte, the line
/// break.
pub open spec fn names_dir(output: Seq<u8>) -> bool {
    output.len() > 0 && valid_utf8(output.drop_last())
}

/// The directory for units below the directory that an output names.
pub open spec fn unit_dir_of(output: Seq<u8>) -> Seq<char> {
    decode_utf8(output.drop_last()) + "/systemd/user"@
}

/// The output of `getenforce` where SELinux is enforced begins like this.
pub open spec fn enforcing() -> Seq<u8> {
    seq![0x45u8, 0x6e, 0x66, 0x6f, 0x72, 0x63, 0x69, 0x6e, 0x67]
}

/// Whether the output of `getenforce` says that SELinux is enforced.
pub open spec fn says_enforcing(output: Seq<u8>) -> bool {
    enforcing().is_prefix_of(output)
}

/// The answer no: the letter `n` in either case, with any white space around it.
pub open spec fn is_no(line: Seq<char>) -> bool {
    trimmed(line) == "n"@ || trimmed(line) == "N"@
}

/// What the user is told who does not want the service to start on boot.
pub open spec fn not_enabled_text(service_name: Seq<char>) -> Seq<char> {
    "Not enabling service.\nTo enable the service on startup, run `systemctl enable "@
        + service_name + "`."@
}

/// Whether an event can come of the action that was asked for last.
pub open spec fn expects(stage: Stage, event: EventView) -> bool {
    match stage {
        Stage::Start => event is Start,
        Stage::Executable => event is Executable,
        Stage::ConfigDir => event matches EventView::Output(output) && names_dir(output),
        Stage::DirExists => event is Exists,
        Stage::DirCreated | Stage::Written => event is Done,
        Stage::SelinuxState | Stage::Reloaded | Stage::Started | Stage::Enabled => event is Output,
        Stage::Answer => event is Line,
        Stage::Finished => false,
    }
}

/// The step that writes the unit.
pub open spec fn write_unit(c: CreationView) -> StepView {
    quietly(
        ActionView::WriteFile {
            path: unit_path(c.unit_dir, c.service_name),
            contents: unit_text(
                c.service_name,
                c.exe_path,
                c.cmd,
                environment_lines(c.environment),
            ),
        },
    )
}

/// A command for the user's systemd.
pub open spec fn systemctl_user(verb: Seq<char>, service_name: Seq<char>) -> ActionView {
    ActionView::Output(seq!["systemctl"@, "--user"@, verb, service_name])
}

/// What an event leads to: the creation after it, and the next step.
pub open spec fn next(c: CreationView, event: EventView) -> (CreationView, StepView) {
    match (c.stage, event) {
        (Stage::Start, _) => (
            CreationView { stage: Stage::Executable, ..c },
            saying("Installing background service using systemd"@, ActionView::FindExecutable),
        ),
        (Stage::Executable, EventView::Executable(path)) => (
            CreationView { stage: Stage::ConfigDir, exe_path: path, ..c },
            quietly(ActionView::Output(seq!["systemd-path"@, "user-configuration"@])),
        ),
        (Stage::ConfigDir, EventView::Output(output)) => (
            CreationView { stage: Stage::DirExists, unit_dir: unit_dir_of(output), ..c },
            quietly(ActionView::CheckPath(unit_dir_of(output))),
        ),
        (Stage::DirExists, EventView::Exists(false)) => (
            CreationView { stage: Stage::DirCreated, ..c },
            quietly(ActionView::CreateDir(c.unit_dir)),
        ),
        (Stage::DirExists, _) => (CreationView { stage: Stage::Written, ..c }, write_unit(c)),
        (Stage::DirCreated, _) => (CreationView { stage: Stage::Written, ..c }, write_unit(c)),
        (Stage::Written, _) => (
            CreationView { stage: Stage::SelinuxState, ..c },
            quietly(ActionView::Output(seq!["getenforce"@])),
        ),
        (Stage::SelinuxState, EventView::Output(output)) => (
            CreationView { stage: Stage::Reloaded, ..c },
            StepView {
                say: if says_enforcing(output) {
                    Some(
                        "WARNING: SELinux is enabled. This may prevent the service from starting."@,
                    )
                } else {
                    None
                },
                action: ActionView::Output(seq!["systemctl"@, "--user"@, "daemon-reload"@]),
            },
        ),
        (Stage::Reloaded, _) => (
            CreationView { stage: Stage::Started, ..c },
            quietly(systemctl_user("start"@, c.service_name)),
        ),
        (Stage::Started, _) => (
            CreationView { stage: Stage::Answer, ..c },
            saying(
                "Would you like to enable the service so it runs on boot? (Y/n)"@,
                ActionView::ReadLine,
            ),
        ),
        (Stage::Answer, EventView::Line(line)) => if is_no(line) {
            (
                CreationView { stage: Stage::Finished, ..c },
                saying(not_enabled_text(c.service_name), ActionView::Finish),
            )
        } else {
            (
                CreationView { stage: Stage::Enabled, ..c },
                quietly(systemctl_user("enable"@, c.service_name)),
            )
        },
        (Stage::Enabled, _) => (
            CreationView { stage: Stage::Finished, ..c },
            saying("Service enabled."@, ActionView::Finish),
        ),
        _ => (c, quietly(ActionView::Finish)),
    }
}

/// How many more events a creation takes at most.
pub open spec fn events_left(stage: Stage) -> nat {
    match stage {
        Stage::Start => 11,
        Stage::Executable => 10,
        Stage::ConfigDir => 9,
        Stage::DirExists => 8,
        Stage::DirCreated => 7,
        Stage::Written => 6,
        Stage::SelinuxState => 5,
        Stage::Reloaded => 4,
        Stage::Started => 3,
        Stage::Answer => 2,
        Stage::Enabled => 1,
        Stage::Finished => 0,
    }
}

/// Every event brings the creation nearer to its end, and the end is reached exactly
/// when the step says so. The service that is created stays the same throughout.
pub proof fn law_creation_ends(c: CreationView, event: EventView)
    requires
        expects(c.stage, event),
    ensures
        events_left(next(c, event).0.stage) < events_left(c.stage),
        next(c, event).1.action is Finish <==> next(c, event).0.stage is Finished,
        next(c, event).0.service_name == c.service_name,
        next(c, event).0.cmd == c.cmd,
        next(c, event).0.environment == c.environment,
{
}

/// The service is made to start on boot exactly when the user was asked and did not
/// decline.
pub proof fn law_enabled_unless_declined(c: CreationView, event: EventView)
    requires
        expects(c.stage, event),
    ensures
        next(c, event).1.action == systemctl_user("enable"@, c.service_name) <==> c.stage is Answer
            && !is_no(event->Line_0),
{
    reveal_strlit("enable");
    reveal_strlit("start");
    let enable = seq!["systemctl"@, "--user"@, "enable"@, c.service_name];
    assert(enable[2] == "enable"@);
    assert(seq!["systemctl"@, "--user"@, "start"@, c.service_name][2] == "start"@);
    assert("enable"@.len() != "start"@.len());
    assert(enable.len() == 4);
    assert(seq!["systemctl"@, "--user"@, "daemon-reload"@].len() == 3);
    assert(seq!["systemd-path"@, "user-configuration"@].len() == 2);
    assert(seq!["getenforce"@].len() == 1);
}

/// The unit is in place before systemd hears of the service: the step that writes it
/// leads to the one stage from which all commands for systemd follow.
pub proof fn law_unit_before_systemd(c: CreationView, event: EventView)
    requires
        expects(c.stage, event),
    ensures
        next(c, event).1.action is WriteFile <==> next(c, event).0.stage is Written,
        next(c, event).1.action is WriteFile ==> next(c, event).1 == write_unit(c),
        next(c, event).1.action matches ActionView::Output(command) && command[0] == "systemctl"@
            ==> events_left(c.stage) < events_left(Stage::Written),
{
    reveal_strlit("systemctl");
    reveal_strlit("systemd-path");
    reveal_strlit("getenforce");
    assert("systemctl"@.len() == 9);
    assert("systemd-path"@.len() == 12);
    assert("getenforce"@.len() == 10);
}

/// Whether the user declined what is done by default.
pub fn declined(input: &str) -> (no: bool)
    ensures
        no == is_no(input@),
        no == (trimmed(input@) == "n"@ || trimmed(input@) == "N"@),
{
    let answer = trim(input);
    same_text(answer, "n") || same_text(answer, "N")
}

/// Whether the output of `getenforce` says that SELinux is enforced.
pub fn selinux_enabled(output: &[u8]) -> (enabled: bool)
    ensures
        enabled == says_enforcing(output@),
{
    let word: [u8; 9] = [0x45u8, 0x6e, 0x66, 0x6f, 0x72, 0x63, 0x69, 0x6e, 0x67];
    proof {
        assert(word@ =~= enforcing());
    }
    if output.len() < 9 {
        return false;
    }
    let mut i: usize = 0;
    while i < 9
        invariant
            i <= 9,
            word@ == enforcing(),
            output@.len() >= 9,
            forall|k: int| 0 <= k < i ==> output@[k] == enforcing()[k],
        decreases 9 - i,
    {
        if output[i] != word[i] {
            proof {
                assert(output@.subrange(0, 9)[i as int] != enforcing()[i as int]);
            }
            return false;
        }
        i = i + 1;
    }
    proof {
        assert(enforcing() =~= output@.subrange(0, 9));
    }
    true
}

/// The line of a unit that sets one variable.
fn push_variable(out: &mut String, name: &str, value: &str)
    ensures
        final(out)@ == old(out)@ + variable_line((name@, value@)),
{
    out.append("Environment=\"");
    out.append(name);
    out.append("=");
    out.append(value);
    out.append("\"");
    proof {
        assert(out@ =~= old(out)@ + variable_line((name@, value@)));
    }
}

/// The lines of a unit that set variables.
pub fn format_environment(environment: &Vec<(String, String)>) -> (lines: String)
    ensures
        lines@ == environment_lines(text_pairs(environment@)),
{
    let mut lines = String::new();
    let mut i: usize = 0;
    while i < environment.len()
        invariant
            i <= environment@.len(),
            lines@ == environment_lines(text_pairs(environment@).take(i as int)),
        decreases environment@.len() - i,
    {
        if i > 0 {
            lines.append("\n");
        }
        push_variable(&mut lines, environment[i].0.as_str(), environment[i].1.as_str());
        proof {
            let all = text_pairs(environment@);
            assert(all.take(i + 1).drop_last() =~= all.take(i as int));
            assert(lines@ =~= environment_lines(all.take(i + 1)));
        }
        i = i + 1;
    }
    proof {
        assert(text_pairs(environment@).take(i as int) =~= text_pairs(environment@));
    }
    lines
}

/// Writes a systemd unit.
pub fn format_unit(service_name: &str, exe_path: &str, cmd: &str, environment: &str) -> (unit:
    String)
    ensures
        unit@ == unit_text(service_name@, exe_path@, cmd@, environment@),
{
    let mut unit = "\n[Unit]\nDescription=".to_owned();
    unit.append(service_name);
    unit.append(
        "\nAfter=network-online.target\nWants=network-online.target\n\nStartLimitIntervalSec=500\nStartLimitBurst=5\n\n[Service]\nRestart=on-failure\nRestartSec=5s\nExecStart=",
    );
    unit.append(exe_path);
    unit.append(" ");
    unit.append(cmd);
    unit.append("\n");
    unit.append(environment);
    unit.append("\n[Install]\nWantedBy=multi-user.target");
    unit
}

/// The path of the unit of a service.
pub fn format_unit_path(dir: &str, service_name: &str) -> (path: String)
    ensures
        path@ == unit_path(dir@, service_name@),
{
    let mut path = dir.to_owned();
    path.append("/");
    path.append(service_name);
    path.append(".service");
    path
}

/// The directory for units, from the output that names the user's configuration.
pub fn unit_dir(output: &[u8]) -> (dir: String)
    requires
        names_dir(output@),
    ensures
        dir@ == unit_dir_of(output@),
        dir@ == decode_utf8(output@.drop_last()) + "/systemd/user"@,
{
    let name = slice_to_vec(slice_subrange(output, 0, output.len() - 1));
    proof {
        assert(name@ =~= output@.drop_last());
    }
    let mut dir = match text_from_utf8(name) {
        Some(text) => text,
        None => String::new(),
    };
    dir.append("/systemd/user");
    dir
}

impl Creation {
    /// The creation of a service that has not begun.
    pub fn new(service_name: String, cmd: String, environment: Vec<(String, String)>) -> (creation:
        Creation)
        ensures
            creation@ == (CreationView {
                service_name: service_name@,
                cmd: cmd@,
                environment: text_pairs(environment@),
                exe_path: Seq::empty(),
                unit_dir: Seq::empty(),
                stage: Stage::Start,
            }),
    {
        Creation {
            service_name,
            cmd,
            environment,
            exe_path: String::new(),
            unit_dir: String::new(),
            stage: Stage::Start,
        }
    }

    /// Whether an event can come of the action that was asked for last.
    pub fn expects(&self, event: &Event) -> (expected: bool)
        ensures
            expected == expects(self.stage, event@),
    {
        match (self.stage, event) {
            (Stage::Start, Event::Start) => true,
            (Stage::Executable, Event::Executable(_)) => true,
            (Stage::ConfigDir, Event::Output(output)) => {
                if output.len() == 0 {
                    return false;
                }
                let name = slice_to_vec(slice_subrange(output, 0, output.len() - 1));
                proof {
                    assert(name@ =~= output@.drop_last());
                }
                text_from_utf8(name).is_some()
            },
            (Stage::DirExists, Event::Exists(_)) => true,
            (Stage::DirCreated, Event::Done) => true,
            (Stage::Written, Event::Done) => true,
            (Stage::SelinuxState, Event::Output(_)) => true,
            (Stage::Reloaded, Event::Output(_)) => true,
            (Stage::Started, Event::Output(_)) => true,
            (Stage::Answer, Event::Line(_)) => true,
            (Stage::Enabled, Event::Output(_)) => true,
            _ => false,
        }
    }

    /// The step that writes the unit.
    fn write_unit(&self) -> (step: Step)
        ensures
            step@ == write_unit(self@),
    {
        let environment = format_environment(&self.environment);
        quiet_step(
            Action::WriteFile {
                path: format_unit_path(self.unit_dir.as_str(), self.service_name.as_str()),
                contents: format_unit(
                    self.service_name.as_str(),
                    self.exe_path.as_str(),
                    self.cmd.as_str(),
                    environment.as_str(),
                ),
            },
        )
    }
}

/// Goes on with the creation of a service after an event.
pub fn create(creation: &mut Creation, event: Event) -> (step: Step)
    requires
        expects(old(creation).stage, event@),
    ensures
        (final(creation)@, step@) == next(old(creation)@, event@),
{
    match (creation.stage, event) {
        (Stage::Start, _) => {
            creation.stage = Stage::Executable;
            saying_step(
                "Installing background service using systemd".to_owned(),
                Action::FindExecutable,
            )
        },
        (Stage::Executable, Event::Executable(path)) => {
            creation.exe_path = path;
            creation.stage = Stage::ConfigDir;
            quiet_step(Action::Output(command2("systemd-path", "user-configuration")))
        },
        (Stage::ConfigDir, Event::Output(output)) => {
            creation.unit_dir = unit_dir(&output);
            creation.stage = Stage::DirExists;
            quiet_step(Action::CheckPath(creation.unit_dir.clone()))
        },
        (Stage::DirExists, Event::Exists(false)) => {
            creation.stage = Stage::DirCreated;
            quiet_step(Action::CreateDir(creation.unit_dir.clone()))
        },
        (Stage::DirExists, _) => {
            creation.stage = Stage::Written;
            creation.write_unit()
        },
        (Stage::DirCreated, _) => {
            creation.stage = Stage::Written;
            creation.write_unit()
        },
        (Stage::Written, _) => {
            creation.stage = Stage::SelinuxState;
            quiet_step(Action::Output(command1("getenforce")))
        },
        (Stage::SelinuxState, Event::Output(output)) => {
            creation.stage = Stage::Reloaded;
            let action = Action::Output(command3("systemctl", "--user", "daemon-reload"));
            if selinux_enabled(&output) {
                saying_step(
                    "WARNING: SELinux is enabled. This may prevent the service from starting.".to_owned(),
                    action,
                )
            } else {
                quiet_step(action)
            }
        },
        (Stage::Reloaded, _) => {
            creation.stage = Stage::Started;
            quiet_step(
                Action::Output(
                    command4("systemctl", "--user", "start", creation.service_name.as_str()),
                ),
            )
        },
        (Stage::Started, _) => {
            creation.stage = Stage::Answer;
            saying_step(
                "Would you like to enable the service so it runs on boot? (Y/n)".to_owned(),
                Action::ReadLine,
            )
        },
        (Stage::Answer, Event::Line(line)) => {
            if declined(line.as_str()) {
                creation.stage = Stage::Finished;
                let mut text =
                    "Not enabling service.\nTo enable the service on startup, run `systemctl enable ".to_owned();
                text.append(creation.service_name.as_str());
                text.append("`.");
                saying_step(text, Action::Finish)
            } else {
                creation.stage = Stage::Enabled;
                quiet_step(
                    Action::Output(
                        command4("systemctl", "--user", "enable", creation.service_name.as_str()),
                    ),
                )
            }
        },
        (Stage::Enabled, _) => {
            creation.stage = Stage::Finished;
            saying_step("Service enabled.".to_owned(), Action::Finish)
        },
        _ => quiet_step(Action::Finish),
    }
}

/// Every variable that joins an environment adds its own line at the end, behind a line
/// break where there are lines already; the lines that are there stay as they are.
pub proof fn law_each_variable_adds_its_line(
    environment: Seq<(Seq<char>, Seq<char>)>,
    variable: (Seq<char>, Seq<char>),
)
    ensures
        environment_lines(Seq::empty()) == Seq::<char>::empty(),
        environment_lines(seq![variable]) == variable_line(variable),
        environment.len() > 0 ==> environment_lines(environment.push(variable))
            == environment_lines(environment) + "\n"@ + variable_line(variable),
{
    assert(environment.push(variable).drop_last() =~= environment);
}

/// Where the line of a variable begins among the lines of an environment.
proof fn lemma_line_of_variable(environment: Seq<(Seq<char>, Seq<char>)>, i: int) -> (start: int)
    requires
        0 <= i < environment.len(),
    ensures
        0 <= start <= start + variable_line(environment[i]).len() <= environment_lines(
            environment,
        ).len(),
        environment_lines(environment).subrange(
            start,
            start + variable_line(environment[i]).len(),
        ) == variable_line(environment[i]),
        start == 0 <==> i == 0,
        start > 0 ==> environment_lines(environment)[start - 1] == '\n',
        i < environment.len() - 1 ==> start + variable_line(environment[i]).len()
            < environment_lines(environment).len() && environment_lines(environment)[start
            + variable_line(environment[i]).len()] == '\n',
        i == environment.len() - 1 ==> start + variable_line(environment[i]).len()
            == environment_lines(environment).len(),
    decreases environment.len(),
{
    reveal_strlit("\n");
    let lines = environment_lines(environment);
    let line = variable_line(environment[i]);
    if environment.len() == 1 {
        assert(lines.subrange(0, line.len() as int) =~= line);
        0
    } else {
        let rest = environment.drop_last();
        let front = environment_lines(rest);
        assert(lines =~= front + "\n"@ + variable_line(environment.last()));
        if i == environment.len() - 1 {
            let start = front.len() as int + 1;
            assert(lines.subrange(start, start + line.len() as int) =~= line);
            assert(lines[start - 1] == "\n"@[0]);
            start
        } else {
            let start = lemma_line_of_variable(rest, i);
            assert(rest[i] == environment[i]);
            let end = start + line.len() as int;
            assert(lines.subrange(start, end) =~= front.subrange(start, end));
            if start > 0 {
                assert(lines[start - 1] == front[start - 1]);
            }
            if i < rest.len() - 1 {
                assert(lines[end] == front[end]);
            } else {
                assert(lines[end] == "\n"@[0]);
            }
            start
        }
    }
}

/// Every variable of an environment, wherever it stands, has a line of its own: it begins
/// at the beginning or behind a line break, and ends at the end or in front of one.
pub proof fn law_every_variable_has_a_line(environment: Seq<(Seq<char>, Seq<char>)>, i: int)
    requires
        0 <= i < environment.len(),
    ensures
        exists|start: int, end: int|
            #![trigger environment_lines(environment).subrange(start, end)]
            {
                let lines = environment_lines(environment);
                &&& 0 <= start <= end <= lines.len()
                &&& lines.subrange(start, end) == variable_line(environment[i])
                &&& start == 0 || lines[start - 1] == '\n'
                &&& end == lines.len() || lines[end] == '\n'
                &&& start == 0 <==> i == 0
                &&& end == lines.len() <==> i == environment.len() - 1
            },
{
    let start = lemma_line_of_variable(environment, i);
    let end = start + variable_line(environment[i]).len() as int;
    assert(environment_lines(environment).subrange(start, end) == variable_line(environment[i]));
}

/// The line of a variable has its whole name and its whole value, between fixed parts.
pub proof fn law_line_names_variable_and_value(name: Seq<char>, value: Seq<char>)
    ensures
        ({
            let line = variable_line((name, value));
            let sign = 13 + name.len() as int;
            &&& line.len() == sign + 1 + value.len() + 1
            &&& line.subrange(0, 13) == "Environment=\""@
            &&& line.subrange(13, sign) == name
            &&& line[sign] == '='
            &&& line.subrange(sign + 1, sign + 1 + value.len() as int) == value
            &&& line.last() == '"'
        }),
{
    reveal_strlit("Environment=\"");
    reveal_strlit("=");
    reveal_strlit("\"");
    let line = variable_line((name, value));
    let sign = 13 + name.len() as int;
    assert(line.subrange(0, 13) =~= "Environment=\""@);
    assert(line.subrange(13, sign) =~= name);
    assert(line.subrange(sign + 1, sign + 1 + value.len() as int) =~= value);
}

/// The text of a unit: the name of the service, the executable with its command and the
/// lines of the environment stand in full at their places; all the rest is the same for
/// every service.
pub proof fn law_unit_is_complete(
    service_name: Seq<char>,
    exe_path: Seq<char>,
    cmd: Seq<char>,
    environment: Seq<char>,
)
    ensures
        unit_text(service_name, exe_path, cmd, environment) == "\n[Unit]\nDescription="@ + service_name + (
        "\nAfter=network-online.target\nWants=network-online.target\n\nStartLimitIntervalSec=500\nStartLimitBurst=5\n\n[Service]\nRestart=on-failure\nRestartSec=5s\nExecStart="@
            + (exe_path + (" "@ + (cmd + ("\n"@ + (environment + "\n[Install]\nWantedBy=multi-user.target"@)))))),
{
    assert(unit_text(service_name, exe_path, cmd, environment) =~= "\n[Unit]\nDescription="@ + service_name + (
    "\nAfter=network-online.target\nWants=network-online.target\n\nStartLimitIntervalSec=500\nStartLimitBurst=5\n\n[Service]\nRestart=on-failure\nRestartSec=5s\nExecStart="@
        + (exe_path + (" "@ + (cmd + ("\n"@ + (environment + "\n[Install]\nWantedBy=multi-user.target"@)))))));
}

/// A unit stands in its directory under the name of its service.
pub proof fn law_unit_is_named_after_its_service(dir: Seq<char>, service_name: Seq<char>)
    ensures
        ({
            let path = unit_path(dir, service_name);
            let slash = dir.len() as int;
            let end = slash + 1 + service_name.len() as int;
            &&& path.len() == end + 8
            &&& path.subrange(0, slash) == dir
            &&& path[slash] == '/'
            &&& path.subrange(slash + 1, end) == service_name
            &&& path.subrange(end, end + 8) == ".service"@
        }),
{
    reveal_strlit("/");
    reveal_strlit(".service");
    let path = unit_path(dir, service_name);
    let slash = dir.len() as int;
    let end = slash + 1 + service_name.len() as int;
    assert(path.subrange(0, slash) =~= dir);
    assert(path.subrange(slash + 1, end) =~= service_name);
    assert(path.subrange(end, end + 8) =~= ".service"@);
}

/// SELinux is enforced exactly when the output begins with the word for it.
pub proof fn law_enforcing_is_said(output: Seq<u8>)
    ensures
        says_enforcing(output) <==> output.len() >= 9 && output.take(9) == encode_utf8(
            "Enforcing"@,
        ),
{
    reveal_strlit("Enforcing");
    is_ascii_chars_encode_utf8("Enforcing"@);
    assert(encode_utf8("Enforcing"@) =~= enforcing());
    if output.len() >= 9 {
        assert(output.take(9) =~= output.subrange(0, 9));
    }
}

/// Only the letter n, small or capital, with white space around it at most, declines.
pub proof fn law_only_n_declines(line: Seq<char>)
    ensures
        is_no(line) <==> trimmed(line).len() == 1 && (trimmed(line)[0] == 'n' || trimmed(line)[0]
            == 'N'),
{
    reveal_strlit("n");
    reveal_strlit("N");
    if trimmed(line).len() == 1 {
        if trimmed(line)[0] == 'n' {
            assert(trimmed(line) =~= "n"@);
        }
        if trimmed(line)[0] == 'N' {
            assert(trimmed(line) =~= "N"@);
        }
    }
}

/// At each stage one kind of event is awaited; the directory has to be named in UTF-8
/// with one more byte behind, and nothing is awaited at the end.
pub proof fn law_what_is_awaited(event: EventView, output: Seq<u8>)
    ensures
        expects(Stage::Start, event) <==> event is Start,
        expects(Stage::Executable, event) <==> event is Executable,
        expects(Stage::ConfigDir, event) ==> event is Output,
        expects(Stage::ConfigDir, EventView::Output(output)) <==> output.len() > 0 && valid_utf8(
            output.drop_last(),
        ),
        expects(Stage::DirExists, event) <==> event is Exists,
        expects(Stage::DirCreated, event) <==> event is Done,
        expects(Stage::Written, event) <==> event is Done,
        expects(Stage::SelinuxState, event) <==> event is Output,
        expects(Stage::Reloaded, event) <==> event is Output,
        expects(Stage::Started, event) <==> event is Output,
        expects(Stage::Answer, event) <==> event is Line,
        expects(Stage::Enabled, event) <==> event is Output,
        !expects(Stage::Finished, event),
{
}

/// The value of a creation is all of it.
pub proof fn law_creations_are_kept(c: Creation)
    ensures
        c@.service_name == c.service_name@,
        c@.cmd == c.cmd@,
        c@.environment == text_pairs(c.environment@),
        c@.exe_path == c.exe_path@,
        c@.unit_dir == c.unit_dir@,
        c@.stage == c.stage,
{
}

/// From its beginning a creation leads to the unit, whole and in its place, whether the
/// directory was there or has to be created first.
pub proof fn law_creation_writes_the_unit(c: CreationView, path: Seq<char>, output: Seq<u8>)
    requires
        c.stage is Start,
        output.len() > 0,
        valid_utf8(output.drop_last()),
    ensures
        ({
            let dir = decode_utf8(output.drop_last()) + "/systemd/user"@;
            let unit = ActionView::WriteFile {
                path: unit_path(dir, c.service_name),
                contents: unit_text(
                    c.service_name,
                    path,
                    c.cmd,
                    environment_lines(c.environment),
                ),
            };
            let (c1, s1) = next(c, EventView::Start);
            let (c2, s2) = next(c1, EventView::Executable(path));
            let (c3, s3) = next(c2, EventView::Output(output));
            let (c4, s4) = next(c3, EventView::Exists(true));
            let (c5, s5) = next(c3, EventView::Exists(false));
            let (c6, s6) = next(c5, EventView::Done);
            &&& s1.say == Some("Installing background service using systemd"@)
            &&& s1.action is FindExecutable
            &&& c1.stage is Executable
            &&& s2.say is None
            &&& s2.action == ActionView::Output(seq!["systemd-path"@, "user-configuration"@])
            &&& c2.stage is ConfigDir
            &&& s3.say is None
            &&& s3.action == ActionView::CheckPath(dir)
            &&& c3.stage is DirExists
            &&& s4.say is None
            &&& s4.action == unit
            &&& c4.stage is Written
            &&& s5.say is None
            &&& s5.action == ActionView::CreateDir(dir)
            &&& c5.stage is DirCreated
            &&& s6.say is None
            &&& s6.action == unit
            &&& c6.stage is Written
        }),
{
}

/// Behind the unit a creation has systemd read it and start the service, warns where
/// SELinux is enforced, and enables the service unless the user says no.
pub proof fn law_creation_starts_the_service(
    c: CreationView,
    selinux: Seq<u8>,
    reloaded: Seq<u8>,
    started: Seq<u8>,
    enabled: Seq<u8>,
    line: Seq<char>,
)
    requires
        c.stage is Written,
    ensures
        ({
            let name = c.service_name;
            let (c1, s1) = next(c, EventView::Done);
            let (c2, s2) = next(c1, EventView::Output(selinux));
            let (c3, s3) = next(c2, EventView::Output(reloaded));
            let (c4, s4) = next(c3, EventView::Output(started));
            let (c5, s5) = next(c4, EventView::Line(line));
            let (c6, s6) = next(c5, EventView::Output(enabled));
            let no = trimmed(line) == "n"@ || trimmed(line) == "N"@;
            &&& s1.say is None
            &&& s1.action == ActionView::Output(seq!["getenforce"@])
            &&& says_enforcing(selinux) ==> s2.say == Some(
                "WARNING: SELinux is enabled. This may prevent the service from starting."@,
            )
            &&& !says_enforcing(selinux) ==> s2.say is None
            &&& s2.action == ActionView::Output(
                seq!["systemctl"@, "--user"@, "daemon-reload"@],
            )
            &&& s3.say is None
            &&& s3.action == ActionView::Output(
                seq!["systemctl"@, "--user"@, "start"@, name],
            )
            &&& s4.say == Some(
                "Would you like to enable the service so it runs on boot? (Y/n)"@,
            )
            &&& s4.action is ReadLine
            &&& no ==> s5.action is Finish && c5.stage is Finished && s5.say == Some(
                "Not enabling service.\nTo enable the service on startup, run `systemctl enable "@
                    + name + "`."@,
            )
            &&& !no ==> s5.say is None && s5.action == ActionView::Output(
                seq!["systemctl"@, "--user"@, "enable"@, name],
            )
            &&& !no ==> s6.say == Some("Service enabled."@) && s6.action is Finish
                && c6.stage is Finished
        }),
{
}

} // verus!
