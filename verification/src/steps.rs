//! Work on the system, one step at a time.
//!
//! An installation decides here what to do and the program around this library does
//! it: each `Step` asks for one action, and the event that comes of the action leads to
//! the next step.
use vstd::prelude::*;

verus! {

/// What to do next.
pub enum Action {
    /// Find the path of the running executable.
    FindExecutable,
    /// Run a command to its end and collect its output.
    Output(Vec<String>),
    /// Start a command without waiting for it.
    Spawn(Vec<String>),
    /// See whether there is a file or directory at a path.
    CheckPath(String),
    /// Create a directory.
    CreateDir(String),
    /// Create a file, or empty it, and write to it.
    WriteFile { path: String, contents: String },
    /// Read a line that the user types.
    ReadLine,
    /// Stop: the work is done.
    Finish,
}

/// What came of the last action.
pub enum Event {
    /// There was no action yet.
    Start,
    /// The path of the running executable.
    Executable(String),
    /// What a command printed.
    Output(Vec<u8>),
    /// Whether there is something at the path.
    Exists(bool),
    /// The action was done.
    Done,
    /// The line that the user typed.
    Line(String),
}

/// A line to show to the user first, if any, and the action that follows.
pub struct Step {
    pub say: Option<String>,
    pub action: Action,
}

/// The value of an `Action`.
pub ghost enum ActionView {
    FindExecutable,
    Output(Seq<Seq<char>>),
    Spawn(Seq<Seq<char>>),
    CheckPath(Seq<char>),
    CreateDir(Seq<char>),
    WriteFile { path: Seq<char>, contents: Seq<char> },
    ReadLine,
    Finish,
}

/// The value of an `Event`.
pub ghost enum EventView {
    Start,
    Executable(Seq<char>),
    Output(Seq<u8>),
    Exists(bool),
    Done,
    Line(Seq<char>),
}

/// The value of a `Step`.
pub ghost struct StepView {
    pub say: Option<Seq<char>>,
    pub action: ActionView,
}

/// The words of a command.
pub open spec fn words(command: Seq<String>) -> Seq<Seq<char>> {
    command.map_values(|word: String| word@)
}

impl View for Action {
    type V = ActionView;

    open spec fn view(&self) -> ActionView {
        match self {
            Action::FindExecutable => ActionView::FindExecutable,
            Action::Output(command) => ActionView::Output(words(command@)),
            Action::Spawn(command) => ActionView::Spawn(words(command@)),
            Action::CheckPath(path) => ActionView::CheckPath(path@),
            Action::CreateDir(path) => ActionView::CreateDir(path@),
            Action::WriteFile { path, contents } => ActionView::WriteFile {
                path: path@,
                contents: contents@,
            },
            Action::ReadLine => ActionView::ReadLine,
            Action::Finish => ActionView::Finish,
        }
    }
}

impl View for Event {
    type V = EventView;

    open spec fn view(&self) -> EventView {
        match self {
            Event::Start => EventView::Start,
            Event::Executable(path) => EventView::Executable(path@),
            Event::Output(bytes) => EventView::Output(bytes@),
            Event::Exists(exists) => EventView::Exists(*exists),
            Event::Done => EventView::Done,
            Event::Line(line) => EventView::Line(line@),
        }
    }
}

impl View for Step {
    type V = StepView;

    open spec fn view(&self) -> StepView {
        StepView {
            say: match self.say {
                Some(text) => Some(text@),
                None => None,
            },
            action: self.action@,
        }
    }
}

/// A step that shows nothing.
pub open spec fn quietly(action: ActionView) -> StepView {
    StepView { say: None, action }
}

/// A step that shows a text.
pub open spec fn saying(text: Seq<char>, action: ActionView) -> StepView {
    StepView { say: Some(text), action }
}

/// Makes a step that shows nothing.
pub(crate) fn quiet_step(action: Action) -> (step: Step)
    ensures
        step@ == quietly(action@),
{
    Step { say: None, action }
}

/// Makes a step that shows a text.
pub(crate) fn saying_step(text: String, action: Action) -> (step: Step)
    ensures
        step@ == saying(text@, action@),
{
    Step { say: Some(text), action }
}

/// A command of two words.
pub(crate) fn command2(first: &str, second: &str) -> (command: Vec<String>)
    ensures
        words(command@) == seq![first@, second@],
{
    let mut command: Vec<String> = Vec::new();
    command.push(first.to_owned());
    command.push(second.to_owned());
    proof {
        assert(words(command@) =~= seq![first@, second@]);
    }
    command
}

/// A command of three words.
pub(crate) fn command3(first: &str, second: &str, third: &str) -> (command: Vec<String>)
    ensures
        words(command@) == seq![first@, second@, third@],
{
    let mut command = command2(first, second);
    let ghost before = command@;
    command.push(third.to_owned());
    proof {
        assert(words(command@) =~= words(before).push(third@));
        assert(words(command@) =~= seq![first@, second@, third@]);
    }
    command
}

/// A command of four words.
pub(crate) fn command4(first: &str, second: &str, third: &str, fourth: &str) -> (command: Vec<
    String,
>)
    ensures
        words(command@) == seq![first@, second@, third@, fourth@],
{
    let mut command = command3(first, second, third);
    let ghost before = command@;
    command.push(fourth.to_owned());
    proof {
        assert(words(command@) =~= words(before).push(fourth@));
        assert(words(command@) =~= seq![first@, second@, third@, fourth@]);
    }
    command
}

/// A command of one word.
pub(crate) fn command1(word: &str) -> (command: Vec<String>)
    ensures
        words(command@) == seq![word@],
{
    let mut command: Vec<String> = Vec::new();
    command.push(word.to_owned());
    proof {
        assert(words(command@) =~= seq![word@]);
    }
    command
}

/// The value of a command has every word of it, at its place.
pub proof fn law_words_are_kept(command: Seq<String>)
    ensures
        words(command).len() == command.len(),
        forall|i: int| 0 <= i < command.len() ==> #[trigger] words(command)[i] == command[i]@,
{
}

/// The value of an action is all that it asks for.
pub proof fn law_actions_are_kept(command: Vec<String>, path: String, contents: String)
    ensures
        Action::FindExecutable@ == ActionView::FindExecutable,
        Action::Output(command)@ == ActionView::Output(words(command@)),
        Action::Spawn(command)@ == ActionView::Spawn(words(command@)),
        Action::CheckPath(path)@ == ActionView::CheckPath(path@),
        Action::CreateDir(path)@ == ActionView::CreateDir(path@),
        (Action::WriteFile { path, contents })@ == (ActionView::WriteFile {
            path: path@,
            contents: contents@,
        }),
        Action::ReadLine@ == ActionView::ReadLine,
        Action::Finish@ == ActionView::Finish,
{
}

/// The value of an event is all that came of an action.
pub proof fn law_events_are_kept(text: String, output: Vec<u8>, exists_there: bool)
    ensures
        Event::Start@ == EventView::Start,
        Event::Executable(text)@ == EventView::Executable(text@),
        Event::Output(output)@ == EventView::Output(output@),
        Event::Exists(exists_there)@ == EventView::Exists(exists_there),
        Event::Done@ == EventView::Done,
        Event::Line(text)@ == EventView::Line(text@),
{
}

/// The value of a step is the text that it shows, all of it, and its action.
pub proof fn law_steps_are_kept(text: String, action: Action, shown: Seq<char>, asked: ActionView)
    ensures
        (Step { say: Some(text), action })@.say == Some(text@),
        (Step { say: None, action })@.say is None,
        (Step { say: Some(text), action })@.action == action@,
        (Step { say: None, action })@.action == action@,
        quietly(asked).say is None,
        quietly(asked).action == asked,
        saying(shown, asked).say == Some(shown),
        saying(shown, asked).action == asked,
{
}

} // verus!
