//! A background service of the user, managed by launchd.
use crate::steps::{
    quiet_step, quietly, saying, saying_step, Action, ActionView, Event, EventView, Step, StepView,
};
use crate::text::text_pairs;
use vstd::prelude::*;
use vstd::string::StringExecFns;

verus! {

/// How far the creation of the service has come: the event that is awaited.
#[derive(Clone, Copy, Debug, PartialEq, Eq, Structural)]
pub enum Stage {
    /// The beginning.
    Start,
    /// The path of the executable.
    Executable,
    /// That the property list was written.
    Written,
    /// Nothing: the work is done.
    Finished,
}

/// The creation of a service.
pub struct Creation {
    pub cmd: String,
    pub environment: Vec<(String, String)>,
    pub stage: Stage,
}

/// The value of a `Creation`.
pub ghost struct CreationView {
    pub cmd: Seq<char>,
    pub environment: Seq<(Seq<char>, Seq<char>)>,
    pub stage: Stage,
}

impl View for Creation {
    type V = CreationView;

    open spec fn view(&self) -> CreationView {
        CreationView {
            cmd: self.cmd@,
            environment: text_pairs(self.environment@),
            stage: self.stage,
        }
    }
}

/// The part of a property list that sets one variable.
pub open spec fn variable_entry(variable: (Seq<char>, Seq<char>)) -> Seq<char> {
    "<key>"@ + variable.0 + "</key><string>"@ + variable.1 + "</string>"@
}

/// The part of a property list that sets variables.
pub open spec fn environment_entries(environment: Seq<(Seq<char>, Seq<char>)>) -> Seq<char>
    decreases environment.len(),
{
    if environment.len() == 0 {
        Seq::empty()
    } else {
        environment_entries(environment.drop_last()) + variable_entry(environment.last())
    }
}

/// A property list that keeps `exe_path` running with `cmd` and with the variables.
pub open spec fn plist_text(
    exe_path: Seq<char>,
    cmd: Seq<char>,
    environment: Seq<(Seq<char>, Seq<char>)>,
) -> Seq<char> {
    "<?xml version=\"1.0\" encoding=\"UTF-8\"?><!DOCTYPE plist PUBLIC \"-//Apple//DTD PLIST 1.0//EN\" \"http://www.apple.com/DTDs/PropertyList-1.0.dtd\"><plist version=\"1.0\"><dict><key>KeepAlive</key><true/><key>Label</key><string>com.cync."@
        + cmd + "</string><key>ProgramArguments</key><array><string>"@ + exe_path
        + "</string><string>"@ + cmd + "</string></array><key>EnvironmentVariables</key><dict>"@
        + environment_entries(environment) + "</dict><key>RunAtLoad</key><true/></dict></plist>"@
}

/// The path of the property list.
pub open spec fn plist_path(cmd: Seq<char>) -> Seq<char> {
    "com.cync."@ + cmd + ".plist"@
}

/// Whether an event can come of the action that was asked for last.
pub open spec fn expects(stage: Stage, event: EventView) -> bool {
    match stage {
        Stage::Start => event is Start,
        Stage::Executable => event is Executable,
        Stage::Written => event is Done,
        Stage::Finished => false,
    }
}

/// What an event leads to: the creation after it, and the next step.
pub open spec fn next(c: CreationView, event: EventView) -> (CreationView, StepView) {
    match (c.stage, event) {
        (Stage::Start, _) => (
            CreationView { stage: Stage::Executable, ..c },
            saying("Installing as launchd daemon."@, ActionView::FindExecutable),
        ),
        (Stage::Executable, EventView::Executable(path)) => (
            CreationView { stage: Stage::Written, ..c },
            saying(
                plist_text(path, c.cmd, c.environment),
                ActionView::WriteFile {
                    path: plist_path(c.cmd),
                    contents: plist_text(path, c.cmd, c.environment),
                },
            ),
        ),
        _ => (CreationView { stage: Stage::Finished, ..c }, quietly(ActionView::Finish)),
    }
}

/// How many more events a creation takes.
pub open spec fn events_left(stage: Stage) -> nat {
    match stage {
        Stage::Start => 3,
        Stage::Executable => 2,
        Stage::Written => 1,
        Stage::Finished => 0,
    }
}

/// Every event brings the creation one step nearer to its end, and the end is reached
/// exactly when the step says so. The service that is created stays the same throughout.
pub proof fn law_creation_ends(c: CreationView, event: EventView)
    requires
        expects(c.stage, event),
    ensures
        events_left(next(c, event).0.stage) + 1 == events_left(c.stage),
        next(c, event).1.action is Finish <==> next(c, event).0.stage is Finished,
        next(c, event).0.cmd == c.cmd,
        next(c, event).0.environment == c.environment,
{
}

/// The property list is written once, as it was shown to the user, and nothing is run.
pub proof fn law_what_is_shown_is_written(c: CreationView, event: EventView)
    requires
        expects(c.stage, event),
    ensures
        next(c, event).1.action is WriteFile <==> c.stage is Executable,
        next(c, event).1.action matches ActionView::WriteFile { path, contents }
            ==> next(c, event).1.say == Some(contents),
        !(next(c, event).1.action is Output) && !(next(c, event).1.action is Spawn),
{
}

/// The part of a property list that sets one variable.
fn push_variable(out: &mut String, name: &str, value: &str)
    ensures
        final(out)@ == old(out)@ + variable_entry((name@, value@)),
{
    out.append("<key>");
    out.append(name);
    out.append("</key><string>");
    out.append(value);
    out.append("</string>");
    proof {
        assert(out@ =~= old(out)@ + variable_entry((name@, value@)));
    }
}

/// The part of a property list that sets variables.
pub fn format_environment(environment: &Vec<(String, String)>) -> (entries: String)
    ensures
        entries@ == environment_entries(text_pairs(environment@)),
{
    let mut entries = String::new();
    let mut i: usize = 0;
    while i < environment.len()
        invariant
            i <= environment@.len(),
            entries@ == environment_entries(text_pairs(environment@).take(i as int)),
        decreases environment@.len() - i,
    {
        push_variable(&mut entries, environment[i].0.as_str(), environment[i].1.as_str());
        proof {
            let all = text_pairs(environment@);
            assert(all.take(i + 1).drop_last() =~= all.take(i as int));
        }
        i = i + 1;
    }
    proof {
        assert(text_pairs(environment@).take(i as int) =~= text_pairs(environment@));
    }
    entries
}

/// Writes the property list.
pub fn format_plist(exe_path: &str, cmd: &str, environment: &Vec<(String, String)>) -> (plist:
    String)
    ensures
        plist@ == plist_text(exe_path@, cmd@, text_pairs(environment@)),
{
    let entries = format_environment(environment);
    let mut plist =
        "<?xml version=\"1.0\" encoding=\"UTF-8\"?><!DOCTYPE plist PUBLIC \"-//Apple//DTD PLIST 1.0//EN\" \"http://www.apple.com/DTDs/PropertyList-1.0.dtd\"><plist version=\"1.0\"><dict><key>KeepAlive</key><true/><key>Label</key><string>com.cync.".to_owned();
    plist.append(cmd);
    plist.append("</string><key>ProgramArguments</key><array><string>");
    plist.append(exe_path);
    plist.append("</string><string>");
    plist.append(cmd);
    plist.append("</string></array><key>EnvironmentVariables</key><dict>");
    plist.append(entries.as_str());
    plist.append("</dict><key>RunAtLoad</key><true/></dict></plist>");
    plist
}

impl Creation {
    /// The creation of a service that has not begun. launchd knows the service by its
    /// command.
    pub fn new(cmd: String, environment: Vec<(String, String)>) -> (creation: Creation)
        ensures
            creation@ == (CreationView {
                cmd: cmd@,
                environment: text_pairs(environment@),
                stage: Stage::Start,
            }),
    {
        Creation { cmd, environment, stage: Stage::Start }
    }

    /// Whether an event can come of the action that was asked for last.
    pub fn expects(&self, event: &Event) -> (expected: bool)
        ensures
            expected == expects(self.stage, event@),
    {
        match (self.stage, event) {
            (Stage::Start, Event::Start) => true,
            (Stage::Executable, Event::Executable(_)) => true,
            (Stage::Written, Event::Done) => true,
            _ => false,
        }
    }
}

/// Goes on with the creation of a service after an event.
pub fn create(creation: &mut Creation, event: Event) -> (step: Step)
    requires
        expects(old(creation).stage, event@),
    ensures
        (final(creation)@, step@) == next(old(creation)@, event@),
{
    match (creation.stage, event) {
        (Stage::Start, _) => {
            creation.stage = Stage::Executable;
            saying_step("Installing as launchd daemon.".to_owned(), Action::FindExecutable)
        },
        (Stage::Executable, Event::Executable(exe_path)) => {
            creation.stage = Stage::Written;
            let plist = format_plist(
                exe_path.as_str(),
                creation.cmd.as_str(),
                &creation.environment,
            );
            let mut path = "com.cync.".to_owned();
            path.append(creation.cmd.as_str());
            path.append(".plist");
            saying_step(plist.clone(), Action::WriteFile { path, contents: plist })
        },
        _ => {
            creation.stage = Stage::Finished;
            quiet_step(Action::Finish)
        },
    }
}

/// Every variable that joins an environment adds its own entry at the end; the entries
/// that are there stay as they are.
pub proof fn law_each_variable_adds_its_entry(
    environment: Seq<(Seq<char>, Seq<char>)>,
    variable: (Seq<char>, Seq<char>),
)
    ensures
        environment_entries(Seq::empty()) == Seq::<char>::empty(),
        environment_entries(environment.push(variable)) == environment_entries(environment)
            + variable_entry(variable),
{
    assert(environment.push(variable).drop_last() =~= environment);
}

/// The entry of a variable has its whole name as the key and its whole value as the text.
pub proof fn law_entry_names_variable_and_value(name: Seq<char>, value: Seq<char>)
    ensures
        ({
            let entry = variable_entry((name, value));
            let key = 5 + name.len() as int;
            let end = key + 14 + value.len() as int;
            &&& entry.len() == end + 9
            &&& entry.subrange(0, 5) == "<key>"@
            &&& entry.subrange(5, key) == name
            &&& entry.subrange(key, key + 14) == "</key><string>"@
            &&& entry.subrange(key + 14, end) == value
            &&& entry.subrange(end, end + 9) == "</string>"@
        }),
{
    reveal_strlit("<key>");
    reveal_strlit("</key><string>");
    reveal_strlit("</string>");
    let entry = variable_entry((name, value));
    let key = 5 + name.len() as int;
    let end = key + 14 + value.len() as int;
    assert(entry.subrange(0, 5) =~= "<key>"@);
    assert(entry.subrange(5, key) =~= name);
    assert(entry.subrange(key, key + 14) =~= "</key><string>"@);
    assert(entry.subrange(key + 14, end) =~= value);
    assert(entry.subrange(end, end + 9) =~= "</string>"@);
}

/// The property list: the label, the executable with its command and the entries of the
/// environment stand in full at their places; all the rest is the same for every service.
pub proof fn law_plist_is_complete(
    exe_path: Seq<char>,
    cmd: Seq<char>,
    environment: Seq<(Seq<char>, Seq<char>)>,
)
    ensures
        plist_text(exe_path, cmd, environment)
            == "<?xml version=\"1.0\" encoding=\"UTF-8\"?><!DOCTYPE plist PUBLIC \"-//Apple//DTD PLIST 1.0//EN\" \"http://www.apple.com/DTDs/PropertyList-1.0.dtd\"><plist version=\"1.0\"><dict><key>KeepAlive</key><true/><key>Label</key><string>com.cync."@
            + (cmd + ("</string><key>ProgramArguments</key><array><string>"@ + (exe_path + (
        "</string><string>"@ + (cmd + (
        "</string></array><key>EnvironmentVariables</key><dict>"@ + (environment_entries(environment)
            + "</dict><key>RunAtLoad</key><true/></dict></plist>"@))))))),
{
    assert(plist_text(exe_path, cmd, environment)
        =~= "<?xml version=\"1.0\" encoding=\"UTF-8\"?><!DOCTYPE plist PUBLIC \"-//Apple//DTD PLIST 1.0//EN\" \"http://www.apple.com/DTDs/PropertyList-1.0.dtd\"><plist version=\"1.0\"><dict><key>KeepAlive</key><true/><key>Label</key><string>com.cync."@
        + (cmd + ("</string><key>ProgramArguments</key><array><string>"@ + (exe_path + (
    "</string><string>"@ + (cmd + ("</string></array><key>EnvironmentVariables</key><dict>"@ + (
    environment_entries(environment)
        + "</dict><key>RunAtLoad</key><true/></dict></plist>"@))))))));
}

/// The property list is named after the command.
pub proof fn law_plist_is_named_after_its_command(cmd: Seq<char>)
    ensures
        plist_path(cmd).len() == 9 + cmd.len() + 6,
        plist_path(cmd).subrange(0, 9) == "com.cync."@,
        plist_path(cmd).subrange(9, 9 + cmd.len() as int) == cmd,
        plist_path(cmd).subrange(9 + cmd.len() as int, 15 + cmd.len() as int) == ".plist"@,
{
    reveal_strlit("com.cync.");
    reveal_strlit(".plist");
    let path = plist_path(cmd);
    assert(path.subrange(0, 9) =~= "com.cync."@);
    assert(path.subrange(9, 9 + cmd.len() as int) =~= cmd);
    assert(path.subrange(9 + cmd.len() as int, 15 + cmd.len() as int) =~= ".plist"@);
}

/// At each stage one kind of event is awaited, and nothing at the end.
pub proof fn law_what_is_awaited(event: EventView)
    ensures
        expects(Stage::Start, event) <==> event is Start,
        expects(Stage::Executable, event) <==> event is Executable,
        expects(Stage::Written, event) <==> event is Done,
        !expects(Stage::Finished, event),
{
}

/// The value of a creation is all of it.
pub proof fn law_creations_are_kept(c: Creation)
    ensures
        c@.cmd == c.cmd@,
        c@.environment == text_pairs(c.environment@),
        c@.stage == c.stage,
{
}

/// From its beginning a creation shows the property list and writes it, for the executable
/// that was found, and is then done.
pub proof fn law_creation_writes_the_plist(c: CreationView, path: Seq<char>)
    requires
        c.stage is Start,
    ensures
        ({
            let plist = plist_text(path, c.cmd, c.environment);
            let (c1, s1) = next(c, EventView::Start);
            let (c2, s2) = next(c1, EventView::Executable(path));
            let (c3, s3) = next(c2, EventView::Done);
            &&& s1.say == Some("Installing as launchd daemon."@)
            &&& s1.action is FindExecutable
            &&& c1.stage is Executable
            &&& s2.say == Some(plist)
            &&& s2.action == (ActionView::WriteFile { path: plist_path(c.cmd), contents: plist })
            &&& c2.stage is Written
            &&& s3.say is None
            &&& s3.action is Finish
            &&& c3.stage is Finished
        }),
{
}

} // verus!
