//! A background service of the whole system, managed by systemd.
use crate::service::{format_unit, format_unit_path, not_enabled_text, unit_path, unit_text};
use crate::steps::{
    command2, command3, quiet_step, quietly, saying, saying_step, Action, ActionView, Event,
    EventView, Step, StepView,
};
use crate::text::{same_text, trim, trimmed};
use vstd::prelude::*;
use vstd::string::StringExecFns;

verus! {

/// How far the installation has come: the event that is awaited.
#[derive(Clone, Copy, Debug, PartialEq, Eq, Structural)]
pub enum Stage {
    /// The beginning.
    Start,
    /// The path of the executable.
    Executable,
    /// That the unit was written.
    Written,
    /// Whether systemd is to read its units again.
    ReloadAnswer,
    /// That systemd was told to read its units again.
    Reloaded,
    /// Whether the service is to start now.
    StartAnswer,
    /// That systemd was told to start the service.
    Started,
    /// Whether the service is to start on boot.
    EnableAnswer,
    /// That systemd was told to start the service on boot.
    Enabled,
    /// Nothing: the work is done.
    Finished,
}

/// The installation of a service.
pub struct Installation {
    pub args: String,
    pub service_name: String,
    pub stage: Stage,
}

/// The value of an `Installation`.
pub ghost struct InstallationView {
    pub args: Seq<char>,
    pub service_name: Seq<char>,
    pub stage: Stage,
}

impl View for Installation {
    type V = InstallationView;

    open spec fn view(&self) -> InstallationView {
        InstallationView {
            args: self.args@,
            service_name: self.service_name@,
            stage: self.stage,
        }
    }
}

/// The directory for units of the whole system.
pub open spec fn system_unit_dir() -> Seq<char> {
    "/etc/systemd/system"@
}

/// The answer yes: the letter `y`, with any white space around it.
pub open spec fn is_yes(line: Seq<char>) -> bool {
    trimmed(line) == "y"@
}

/// The question that follows the writing of the unit.
pub open spec fn installed_text(service_name: Seq<char>) -> Seq<char> {
    "Service installed to "@ + unit_path(system_unit_dir(), service_name)
        + "\nWould you like to reload the systemd daemon? (y/n)"@
}

/// How to start the service by hand and on boot.
pub open spec fn start_hint(service_name: Seq<char>) -> Seq<char> {
    "\nTo start the service, run `systemctl start "@ + service_name
        + "`.\nTo enable the service on startup, run `systemctl enable "@ + service_name + "`."@
}

/// What the user is told who does not want systemd to read its units again.
pub open spec fn not_reloaded_text(service_name: Seq<char>) -> Seq<char> {
    "Not reloading systemd daemon. To reload manually, run `systemctl daemon-reload`."@
        + start_hint(service_name)
}

/// What the user is told who does not want the service to start now.
pub open spec fn not_started_text(service_name: Seq<char>) -> Seq<char> {
    "Not starting service."@ + start_hint(service_name)
}

/// Whether an event can come of the action that was asked for last.
pub open spec fn expects(stage: Stage, event: EventView) -> bool {
    match stage {
        Stage::Start => event is Start,
        Stage::Executable => event is Executable,
        Stage::Written | Stage::Reloaded | Stage::Started | Stage::Enabled => event is Done,
        Stage::ReloadAnswer | Stage::StartAnswer | Stage::EnableAnswer => event is Line,
        Stage::Finished => false,
    }
}

/// What an event leads to: the installation after it, and the next step.
pub open spec fn next(i: InstallationView, event: EventView) -> (InstallationView, StepView) {
    match (i.stage, event) {
        (Stage::Start, _) => (
            InstallationView { stage: Stage::Executable, ..i },
            saying("Installing background service using systemd"@, ActionView::FindExecutable),
        ),
        (Stage::Executable, EventView::Executable(path)) => (
            InstallationView { stage: Stage::Written, ..i },
            quietly(
                ActionView::WriteFile {
                    path: unit_path(system_unit_dir(), i.service_name),
                    contents: unit_text(i.service_name, path, i.args, Seq::empty()),
                },
            ),
        ),
        (Stage::Written, _) => (
            InstallationView { stage: Stage::ReloadAnswer, ..i },
            saying(installed_text(i.service_name), ActionView::ReadLine),
        ),
        (Stage::ReloadAnswer, EventView::Line(line)) => if is_yes(line) {
            (
                InstallationView { stage: Stage::Reloaded, ..i },
                quietly(ActionView::Spawn(seq!["systemctl"@, "daemon-reload"@])),
            )
        } else {
            (
                InstallationView { stage: Stage::Finished, ..i },
                saying(not_reloaded_text(i.service_name), ActionView::Finish),
            )
        },
        (Stage::Reloaded, _) => (
            InstallationView { stage: Stage::StartAnswer, ..i },
            saying(
                "Systemd daemon reloaded.\nWould you like to start the service? (y/n)"@,
                ActionView::ReadLine,
            ),
        ),
        (Stage::StartAnswer, EventView::Line(line)) => if is_yes(line) {
            (
                InstallationView { stage: Stage::Started, ..i },
                quietly(ActionView::Spawn(seq!["systemctl"@, "start"@, i.service_name])),
            )
        } else {
            (
                InstallationView { stage: Stage::Finished, ..i },
                saying(not_started_text(i.service_name), ActionView::Finish),
            )
        },
        (Stage::Started, _) => (
            InstallationView { stage: Stage::EnableAnswer, ..i },
            saying(
                "Systemd service started.\nWould you like to enable the service so it runs on boot? (y/n)"@,
                ActionView::ReadLine,
            ),
        ),
        (Stage::EnableAnswer, EventView::Line(line)) => if is_yes(line) {
            (
                InstallationView { stage: Stage::Enabled, ..i },
                quietly(ActionView::Spawn(seq!["systemctl"@, "enable"@, i.service_name])),
            )
        } else {
            (
                InstallationView { stage: Stage::Finished, ..i },
                saying(not_enabled_text(i.service_name), ActionView::Finish),
            )
        },
        (Stage::Enabled, _) => (
            InstallationView { stage: Stage::Finished, ..i },
            saying("Service enabled."@, ActionView::Finish),
        ),
        _ => (i, quietly(ActionView::Finish)),
    }
}

/// How many more events an installation takes at most.
pub open spec fn events_left(stage: Stage) -> nat {
    match stage {
        Stage::Start => 9,
        Stage::Executable => 8,
        Stage::Written => 7,
        Stage::ReloadAnswer => 6,
        Stage::Reloaded => 5,
        Stage::StartAnswer => 4,
        Stage::Started => 3,
        Stage::EnableAnswer => 2,
        Stage::Enabled => 1,
        Stage::Finished => 0,
    }
}

/// Every event brings the installation nearer to its end, and the end is reached
/// exactly when the step says so. The service that is installed stays the same.
pub proof fn law_installation_ends(i: InstallationView, event: EventView)
    requires
        expects(i.stage, event),
    ensures
        events_left(next(i, event).0.stage) < events_left(i.stage),
        next(i, event).1.action is Finish <==> next(i, event).0.stage is Finished,
        next(i, event).0.args == i.args,
        next(i, event).0.service_name == i.service_name,
{
}

/// No command is run unless the user has just said yes, and no yes is ignored; any
/// other answer ends the installation.
pub proof fn law_commands_need_consent(i: InstallationView, event: EventView)
    requires
        expects(i.stage, event),
    ensures
        !(next(i, event).1.action is Output),
        next(i, event).1.action is Spawn <==> (event matches EventView::Line(line) && is_yes(line)),
        (event matches EventView::Line(line) && !is_yes(line)) ==> next(i, event).1.action is Finish,
{
}

/// Whether the user agreed.
pub fn accepted(input: &str) -> (yes: bool)
    ensures
        yes == is_yes(input@),
        yes == (trimmed(input@) == "y"@),
{
    same_text(trim(input), "y")
}

/// How to start the service by hand and on boot.
fn push_start_hint(out: &mut String, service_name: &str)
    ensures
        final(out)@ == old(out)@ + start_hint(service_name@),
{
    out.append("\nTo start the service, run `systemctl start ");
    out.append(service_name);
    out.append("`.\nTo enable the service on startup, run `systemctl enable ");
    out.append(service_name);
    out.append("`.");
    proof {
        assert(out@ =~= old(out)@ + start_hint(service_name@));
    }
}

impl Installation {
    /// The installation of a service that has not begun.
    pub fn new(args: String, service_name: String) -> (installation: Installation)
        ensures
            installation@ == (InstallationView {
                args: args@,
                service_name: service_name@,
                stage: Stage::Start,
            }),
    {
        Installation { args, service_name, stage: Stage::Start }
    }

    /// Whether an event can come of the action that was asked for last.
    pub fn expects(&self, event: &Event) -> (expected: bool)
        ensures
            expected == expects(self.stage, event@),
    {
        match (self.stage, event) {
            (Stage::Start, Event::Start) => true,
            (Stage::Executable, Event::Executable(_)) => true,
            (Stage::Written, Event::Done) => true,
            (Stage::Reloaded, Event::Done) => true,
            (Stage::Started, Event::Done) => true,
            (Stage::Enabled, Event::Done) => true,
            (Stage::ReloadAnswer, Event::Line(_)) => true,
            (Stage::StartAnswer, Event::Line(_)) => true,
            (Stage::EnableAnswer, Event::Line(_)) => true,
            _ => false,
        }
    }
}

/// Goes on with the installation of a service after an event.
pub fn create_service(installation: &mut Installation, event: Event) -> (step: Step)
    requires
        expects(old(installation).stage, event@),
    ensures
        (final(installation)@, step@) == next(old(installation)@, event@),
{
    match (installation.stage, event) {
        (Stage::Start, _) => {
            installation.stage = Stage::Executable;
            saying_step(
                "Installing background service using systemd".to_owned(),
                Action::FindExecutable,
            )
        },
        (Stage::Executable, Event::Executable(path)) => {
            installation.stage = Stage::Written;
            let name = installation.service_name.as_str();
            let nothing = String::new();
            quiet_step(
                Action::WriteFile {
                    path: format_unit_path("/etc/systemd/system", name),
                    contents: format_unit(
                        name,
                        path.as_str(),
                        installation.args.as_str(),
                        nothing.as_str(),
                    ),
                },
            )
        },
        (Stage::Written, _) => {
            installation.stage = Stage::ReloadAnswer;
            let path = format_unit_path("/etc/systemd/system", installation.service_name.as_str());
            let mut text = "Service installed to ".to_owned();
            text.append(path.as_str());
            text.append("\nWould you like to reload the systemd daemon? (y/n)");
            saying_step(text, Action::ReadLine)
        },
        (Stage::ReloadAnswer, Event::Line(line)) => {
            if accepted(line.as_str()) {
                installation.stage = Stage::Reloaded;
                quiet_step(Action::Spawn(command2("systemctl", "daemon-reload")))
            } else {
                installation.stage = Stage::Finished;
                let mut text =
                    "Not reloading systemd daemon. To reload manually, run `systemctl daemon-reload`.".to_owned();
                push_start_hint(&mut text, installation.service_name.as_str());
                saying_step(text, Action::Finish)
            }
        },
        (Stage::Reloaded, _) => {
            installation.stage = Stage::StartAnswer;
            saying_step(
                "Systemd daemon reloaded.\nWould you like to start the service? (y/n)".to_owned(),
                Action::ReadLine,
            )
        },
        (Stage::StartAnswer, Event::Line(line)) => {
            if accepted(line.as_str()) {
                installation.stage = Stage::Started;
                quiet_step(
                    Action::Spawn(
                        command3("systemctl", "start", installation.service_name.as_str()),
                    ),
                )
            } else {
                installation.stage = Stage::Finished;
                let mut text = "Not starting service.".to_owned();
                push_start_hint(&mut text, installation.service_name.as_str());
                saying_step(text, Action::Finish)
            }
        },
        (Stage::Started, _) => {
            installation.stage = Stage::EnableAnswer;
            saying_step(
                "Systemd service started.\nWould you like to enable the service so it runs on boot? (y/n)".to_owned(),
                Action::ReadLine,
            )
        },
        (Stage::EnableAnswer, Event::Line(line)) => {
            if accepted(line.as_str()) {
                installation.stage = Stage::Enabled;
                quiet_step(
                    Action::Spawn(
                        command3("systemctl", "enable", installation.service_name.as_str()),
                    ),
                )
            } else {
                installation.stage = Stage::Finished;
                let mut text =
                    "Not enabling service.\nTo enable the service on startup, run `systemctl enable ".to_owned();
                text.append(installation.service_name.as_str());
                text.append("`.");
                saying_step(text, Action::Finish)
            }
        },
        (Stage::Enabled, _) => {
            installation.stage = Stage::Finished;
            saying_step("Service enabled.".to_owned(), Action::Finish)
        },
        _ => quiet_step(Action::Finish),
    }
}

/// Only the small letter y, with white space around it at most, agrees.
pub proof fn law_only_y_agrees(line: Seq<char>)
    ensures
        is_yes(line) <==> trimmed(line).len() == 1 && trimmed(line)[0] == 'y',
{
    reveal_strlit("y");
    if trimmed(line).len() == 1 && trimmed(line)[0] == 'y' {
        assert(trimmed(line) =~= "y"@);
    }
}

/// At each stage one kind of event is awaited, and nothing at the end.
pub proof fn law_what_is_awaited(event: EventView)
    ensures
        expects(Stage::Start, event) <==> event is Start,
        expects(Stage::Executable, event) <==> event is Executable,
        expects(Stage::Written, event) <==> event is Done,
        expects(Stage::ReloadAnswer, event) <==> event is Line,
        expects(Stage::Reloaded, event) <==> event is Done,
        expects(Stage::StartAnswer, event) <==> event is Line,
        expects(Stage::Started, event) <==> event is Done,
        expects(Stage::EnableAnswer, event) <==> event is Line,
        expects(Stage::Enabled, event) <==> event is Done,
        !expects(Stage::Finished, event),
{
}

/// The value of an installation is all of it.
pub proof fn law_installations_are_kept(i: Installation)
    ensures
        i@.args == i.args@,
        i@.service_name == i.service_name@,
        i@.stage == i.stage,
{
}

/// From its beginning an installation writes the unit of the service, whole, and tells
/// where it is.
pub proof fn law_installation_writes_the_unit(i: InstallationView, path: Seq<char>)
    requires
        i.stage is Start,
    ensures
        ({
            let place = unit_path("/etc/systemd/system"@, i.service_name);
            let (i1, s1) = next(i, EventView::Start);
            let (i2, s2) = next(i1, EventView::Executable(path));
            let (i3, s3) = next(i2, EventView::Done);
            &&& s1.say == Some("Installing background service using systemd"@)
            &&& s1.action is FindExecutable
            &&& i1.stage is Executable
            &&& s2.say is None
            &&& s2.action == (ActionView::WriteFile {
                path: place,
                contents: unit_text(i.service_name, path, i.args, Seq::empty()),
            })
            &&& i2.stage is Written
            &&& s3.say == Some(
                "Service installed to "@ + place
                    + "\nWould you like to reload the systemd daemon? (y/n)"@,
            )
            &&& s3.action is ReadLine
            &&& i3.stage is ReloadAnswer
            &&& i3.service_name == i.service_name
        }),
{
}

/// Behind the unit each yes leads to the next command and the next question, each other
/// answer to the end and to the commands that are left to the user.
pub proof fn law_installation_asks_three_times(
    i: InstallationView,
    line1: Seq<char>,
    line2: Seq<char>,
    line3: Seq<char>,
)
    requires
        i.stage is ReloadAnswer,
    ensures
        ({
            let name = i.service_name;
            let hint = "\nTo start the service, run `systemctl start "@ + name
                + "`.\nTo enable the service on startup, run `systemctl enable "@ + name + "`."@;
            let (i1, s1) = next(i, EventView::Line(line1));
            let (i2, s2) = next(i1, EventView::Done);
            let (i3, s3) = next(i2, EventView::Line(line2));
            let (i4, s4) = next(i3, EventView::Done);
            let (i5, s5) = next(i4, EventView::Line(line3));
            let (i6, s6) = next(i5, EventView::Done);
            let yes1 = trimmed(line1) == "y"@;
            let yes2 = yes1 && trimmed(line2) == "y"@;
            let yes3 = yes2 && trimmed(line3) == "y"@;
            &&& !yes1 ==> i1.stage is Finished && s1.action is Finish && s1.say == Some(
                "Not reloading systemd daemon. To reload manually, run `systemctl daemon-reload`."@
                    + hint,
            )
            &&& yes1 ==> s1.say is None && s1.action == ActionView::Spawn(
                seq!["systemctl"@, "daemon-reload"@],
            )
            &&& yes1 ==> i1.stage is Reloaded && i2.stage is StartAnswer && s2.action is ReadLine
                && s2.say == Some(
                "Systemd daemon reloaded.\nWould you like to start the service? (y/n)"@,
            )
            &&& yes1 && !yes2 ==> i3.stage is Finished && s3.action is Finish && s3.say == Some(
                "Not starting service."@ + hint,
            )
            &&& yes2 ==> s3.say is None && s3.action == ActionView::Spawn(
                seq!["systemctl"@, "start"@, name],
            )
            &&& yes2 ==> i3.stage is Started && i4.stage is EnableAnswer && s4.action is ReadLine
                && s4.say == Some(
                "Systemd service started.\nWould you like to enable the service so it runs on boot? (y/n)"@,
            )
            &&& yes2 && !yes3 ==> i5.stage is Finished && s5.action is Finish && s5.say == Some(
                "Not enabling service.\nTo enable the service on startup, run `systemctl enable "@
                    + name + "`."@,
            )
            &&& yes3 ==> s5.say is None && s5.action == ActionView::Spawn(
                seq!["systemctl"@, "enable"@, name],
            )
            &&& yes3 ==> i5.stage is Enabled && i6.stage is Finished && s6.action is Finish
                && s6.say == Some("Service enabled."@)
        }),
{
}

} // verus!
