use crate::builtin::ShellCommand;
use crate::locator::{candidate, candidate_path, file_exists_and_executable, is_executable};
use crate::builtin::lemma_names_identify;
use crate::text::{
    followed_by, join, joined, lemma_trimmed_padding, lemma_trimmed_white_space, str_eq, text_of,
    trim, trimmed, views, white_space,
};
use crate::tokenizer::{parse_arguments, tokenize};
use vstd::prelude::*;
use vstd::string::*;

verus! {

/// What the driver of the shell is asked to do next. After `Prompt`, `Quit`,
/// `Print` and `Report` the line is dealt with; each of the others is
/// answered with a `Reply`.
#[derive(Clone, Debug, PartialEq, Eq)]
pub enum Action {
    /// Nothing is left to do for this line: read the next one.
    Prompt,
    /// End the loop, with success.
    Quit,
    /// Write the text to standard output.
    Print { text: String },
    /// Write the text to standard error.
    Report { text: String },
    /// Find out the current working directory.
    QueryWorkingDirectory,
    /// Find out the home directory.
    QueryHome,
    /// Write the warning, if there is one, to standard error; then make
    /// `path` the current working directory.
    ChangeDirectory { path: String, warning: Option<String> },
    /// Find out whether `path` leads to a file, and its permission mode.
    Probe { path: String },
    /// Run `program` with `args` as its arguments, wait for it, and forward
    /// what it wrote.
    Launch { program: String, args: Vec<String> },
}

/// What the driver found out or did for the last `Action`.
#[derive(Clone, Debug, PartialEq, Eq)]
pub enum Reply {
    /// The current working directory.
    WorkingDirectory(String),
    /// The home directory, if the environment names one.
    Home(Option<String>),
    /// Whether the working directory was changed.
    Changed(bool),
    /// `None` where nothing exists under the path or it cannot be examined,
    /// else the permission mode of the file that it leads to.
    Probed(Option<u32>),
    /// Whether the program could be started.
    Launched(bool),
}

/// Why a command is looked for on the search path.
#[derive(Clone, Debug, PartialEq, Eq)]
pub enum Goal {
    /// To say where it is.
    Describe,
    /// To run it with `args`; `line` is the trimmed line that asked for it.
    Run { args: Vec<String>, line: String },
}

/// What the dispatcher is waiting for.
#[derive(Clone, Debug, PartialEq, Eq)]
pub enum Pending {
    /// Nothing: the last line is dealt with.
    Idle,
    /// The working directory, to print it.
    WorkingDirectory,
    /// The home directory, to go there.
    Home,
    /// The outcome of a change of directory to `path`.
    Change { path: String },
    /// The status of `path`, the candidate for `name` in the directory
    /// number `index` of the search path.
    Search { name: String, goal: Goal, index: usize, path: String },
    /// The outcome of a launch.
    Launch,
}

/// One decision of the dispatcher: what the driver does next, and what the
/// dispatcher then waits for.
#[derive(Clone, Debug, PartialEq, Eq)]
pub struct Step {
    pub pending: Pending,
    pub action: Action,
}

/// Where `cd` goes, and whether the home directory was wanted and not known.
#[derive(Clone, Debug, PartialEq, Eq)]
pub struct Destination {
    pub path: String,
    pub home_missing: bool,
}

/// An `Action`, with the characters of each string in place of the string.
pub enum ActionView {
    Prompt,
    Quit,
    Print { text: Seq<char> },
    Report { text: Seq<char> },
    QueryWorkingDirectory,
    QueryHome,
    ChangeDirectory { path: Seq<char>, warning: Option<Seq<char>> },
    Probe { path: Seq<char> },
    Launch { program: Seq<char>, args: Seq<Seq<char>> },
}

/// A `Reply`, with the characters of each string in place of the string.
pub enum ReplyView {
    WorkingDirectory(Seq<char>),
    Home(Option<Seq<char>>),
    Changed(bool),
    Probed(Option<u32>),
    Launched(bool),
}

/// A `Goal`, with the characters of each string in place of the string.
pub enum GoalView {
    Describe,
    Run { args: Seq<Seq<char>>, line: Seq<char> },
}

/// A `Pending`, with the characters of each string in place of the string.
pub enum PendingView {
    Idle,
    WorkingDirectory,
    Home,
    Change { path: Seq<char> },
    Search { name: Seq<char>, goal: GoalView, index: nat, path: Seq<char> },
    Launch,
}

/// A `Step`, seen through the views of its two parts.
pub struct StepView {
    pub pending: PendingView,
    pub action: ActionView,
}

/// A `Destination`, with the characters of the path in place of the string.
pub struct DestinationView {
    pub path: Seq<char>,
    pub home_missing: bool,
}

impl View for Action {
    type V = ActionView;

    open spec fn view(&self) -> ActionView {
        match *self {
            Action::Prompt => ActionView::Prompt,
            Action::Quit => ActionView::Quit,
            Action::Print { text } => ActionView::Print { text: text@ },
            Action::Report { text } => ActionView::Report { text: text@ },
            Action::QueryWorkingDirectory => ActionView::QueryWorkingDirectory,
            Action::QueryHome => ActionView::QueryHome,
            Action::ChangeDirectory { path, warning } => ActionView::ChangeDirectory {
                path: path@,
                warning: text_of(warning),
            },
            Action::Probe { path } => ActionView::Probe { path: path@ },
            Action::Launch { program, args } => ActionView::Launch {
                program: program@,
                args: views(args@),
            },
        }
    }
}

impl View for Reply {
    type V = ReplyView;

    open spec fn view(&self) -> ReplyView {
        match *self {
            Reply::WorkingDirectory(dir) => ReplyView::WorkingDirectory(dir@),
            Reply::Home(home) => ReplyView::Home(text_of(home)),
            Reply::Changed(ok) => ReplyView::Changed(ok),
            Reply::Probed(status) => ReplyView::Probed(status),
            Reply::Launched(ok) => ReplyView::Launched(ok),
        }
    }
}

impl View for Goal {
    type V = GoalView;

    open spec fn view(&self) -> GoalView {
        match *self {
            Goal::Describe => GoalView::Describe,
            Goal::Run { args, line } => GoalView::Run { args: views(args@), line: line@ },
        }
    }
}

impl View for Pending {
    type V = PendingView;

    open spec fn view(&self) -> PendingView {
        match *self {
            Pending::Idle => PendingView::Idle,
            Pending::WorkingDirectory => PendingView::WorkingDirectory,
            Pending::Home => PendingView::Home,
            Pending::Change { path } => PendingView::Change { path: path@ },
            Pending::Search { name, goal, index, path } => PendingView::Search {
                name: name@,
                goal: goal@,
                index: index as nat,
                path: path@,
            },
            Pending::Launch => PendingView::Launch,
        }
    }
}

impl View for Step {
    type V = StepView;

    open spec fn view(&self) -> StepView {
        StepView { pending: self.pending@, action: self.action@ }
    }
}

impl View for Destination {
    type V = DestinationView;

    open spec fn view(&self) -> DestinationView {
        DestinationView { path: self.path@, home_missing: self.home_missing }
    }
}

/// The step that ends the handling of a line with `action`.
pub open spec fn done(action: ActionView) -> StepView {
    StepView { pending: PendingView::Idle, action }
}

/// What is printed of a command that no directory of the search path holds.
/// For a command that was to run, the message quotes the whole trimmed line.
pub open spec fn not_found_text(name: Seq<char>, goal: GoalView) -> Seq<char> {
    match goal {
        GoalView::Describe => name + ": not found\n"@,
        GoalView::Run { line, .. } => line + ": command not found\n"@,
    }
}

/// The search for `name`, about to look into the directory number `index`:
/// a probe of the candidate there, or the end of the search where the
/// directories are used up.
pub open spec fn search_from(
    name: Seq<char>,
    goal: GoalView,
    dirs: Seq<Seq<char>>,
    index: nat,
) -> StepView {
    if index < dirs.len() {
        let path = candidate(dirs[index as int], name);
        StepView {
            pending: PendingView::Search { name, goal, index, path },
            action: ActionView::Probe { path },
        }
    } else {
        done(ActionView::Print { text: not_found_text(name, goal) })
    }
}

/// The end of a search that found `name` at `path`.
pub open spec fn found(name: Seq<char>, goal: GoalView, path: Seq<char>) -> StepView {
    match goal {
        GoalView::Describe => done(ActionView::Print { text: name + " is "@ + path + "\n"@ }),
        GoalView::Run { args, .. } => StepView {
            pending: PendingView::Launch,
            action: ActionView::Launch { program: path, args },
        },
    }
}

/// Whether `name` is a builtin: it is, to the letter, the name of one.
pub open spec fn is_builtin(name: Seq<char>) -> bool {
    ShellCommand::named(name) is Some
}

/// What `type` does for `name`: a builtin is reported at once, whatever the
/// search path holds; anything else is looked for there.
pub open spec fn describe(name: Seq<char>, dirs: Seq<Seq<char>>) -> StepView {
    if is_builtin(name) {
        done(ActionView::Print { text: name + " is a shell builtin\n"@ })
    } else {
        search_from(name, GoalView::Describe, dirs, 0)
    }
}

/// Whether `cd` goes to the home directory: it has no argument, or `~`.
pub open spec fn wants_home(path: Option<Seq<char>>) -> bool {
    path is None || path == Some("~"@)
}

/// Where `cd` goes. The home directory stands for an absent argument and for
/// `~`; where it is not known, `cd` stays in the current directory and says
/// so. Any other argument is the path itself.
pub open spec fn destination(path: Option<Seq<char>>, home: Option<Seq<char>>) -> DestinationView {
    if wants_home(path) {
        match home {
            Some(home) => DestinationView { path: home, home_missing: false },
            None => DestinationView { path: "."@, home_missing: true },
        }
    } else {
        DestinationView { path: path->0, home_missing: false }
    }
}

/// The step that asks for the change of directory to `to`.
pub open spec fn go_to(to: DestinationView) -> StepView {
    StepView {
        pending: PendingView::Change { path: to.path },
        action: ActionView::ChangeDirectory {
            path: to.path,
            warning: if to.home_missing {
                Some("cd: HOME not set\n"@)
            } else {
                None
            },
        },
    }
}

/// The argument of `cd`: absent where there is none, else the arguments
/// joined by single spaces.
pub open spec fn cd_argument(args: Seq<Seq<char>>) -> Option<Seq<char>> {
    if args.len() == 0 {
        None
    } else {
        Some(joined(args, " "@))
    }
}

/// What a builtin does with its arguments. `exit` ends the loop where the
/// trimmed line is `exit 0` to the letter, and does nothing on any other line.
pub open spec fn run_builtin(
    command: ShellCommand,
    args: Seq<Seq<char>>,
    line: Seq<char>,
    dirs: Seq<Seq<char>>,
) -> StepView {
    match command {
        ShellCommand::Echo => done(ActionView::Print { text: joined(args, " "@) + "\n"@ }),
        ShellCommand::Type => if args.len() == 0 {
            done(ActionView::Prompt)
        } else {
            describe(args[0], dirs)
        },
        ShellCommand::Exit => if line == "exit 0"@ {
            done(ActionView::Quit)
        } else {
            done(ActionView::Prompt)
        },
        ShellCommand::Pwd => StepView {
            pending: PendingView::WorkingDirectory,
            action: ActionView::QueryWorkingDirectory,
        },
        ShellCommand::Cd => if wants_home(cd_argument(args)) {
            StepView { pending: PendingView::Home, action: ActionView::QueryHome }
        } else {
            go_to(destination(cd_argument(args), None))
        },
    }
}

/// The decision for an argument list, in this order: nothing for an empty
/// list; the builtin, where the first token is the name of one; else the
/// search for the first token on the search path. `line` is the trimmed line
/// that the tokens came from.
pub open spec fn on_tokens(
    tokens: Seq<Seq<char>>,
    line: Seq<char>,
    dirs: Seq<Seq<char>>,
) -> StepView {
    if tokens.len() == 0 {
        done(ActionView::Prompt)
    } else {
        match ShellCommand::named(tokens[0]) {
            Some(command) => run_builtin(command, tokens.skip(1), line, dirs),
            None => search_from(
                tokens[0],
                GoalView::Run { args: tokens.skip(1), line },
                dirs,
                0,
            ),
        }
    }
}

/// The decision for an input line. The line is trimmed first. Where that
/// leaves `exit 0`, the loop ends; else the trimmed line is tokenized and its
/// argument list dispatched.
pub open spec fn on_line(line: Seq<char>, dirs: Seq<Seq<char>>) -> StepView {
    let line = trimmed(line);
    if line == "exit 0"@ {
        done(ActionView::Quit)
    } else {
        on_tokens(tokenize(line), line, dirs)
    }
}

/// The decision for a reply. A reply that is not the one awaited ends the
/// handling of the line.
pub open spec fn on_reply(pending: PendingView, reply: ReplyView, dirs: Seq<Seq<char>>) -> StepView {
    match (pending, reply) {
        (PendingView::WorkingDirectory, ReplyView::WorkingDirectory(dir)) => done(
            ActionView::Print { text: dir + "\n"@ },
        ),
        (PendingView::Home, ReplyView::Home(home)) => go_to(destination(None, home)),
        (PendingView::Change { path }, ReplyView::Changed(ok)) => if ok {
            done(ActionView::Prompt)
        } else {
            done(ActionView::Print { text: "cd: "@ + path + ": No such file or directory\n"@ })
        },
        (PendingView::Search { name, goal, index, path }, ReplyView::Probed(status)) => if is_executable(
            status,
        ) {
            found(name, goal, path)
        } else {
            search_from(name, goal, dirs, index + 1)
        },
        (PendingView::Launch, ReplyView::Launched(ok)) => if ok {
            done(ActionView::Prompt)
        } else {
            done(ActionView::Report { text: "Failed to execute command\n"@ })
        },
        _ => done(ActionView::Prompt),
    }
}

/// The step that ends the handling of a line with `action`.
fn finish(action: Action) -> (r: Step)
    ensures
        r@ == done(action@),
{
    Step { pending: Pending::Idle, action }
}

/// The search for `name`, about to look into the directory number `index`.
fn search(name: String, goal: Goal, search_path: &Vec<String>, index: usize) -> (r: Step)
    ensures
        r@ == search_from(name@, goal@, views(search_path@), index as nat),
{
    if index < search_path.len() {
        let path = candidate_path(search_path[index].as_str(), name.as_str());
        let probe = path.clone();
        Step { pending: Pending::Search { name, goal, index, path }, action: Action::Probe { path: probe } }
    } else {
        let text = match &goal {
            Goal::Describe => followed_by(name.as_str(), ": not found\n"),
            Goal::Run { line, .. } => followed_by(line.as_str(), ": command not found\n"),
        };
        finish(Action::Print { text })
    }
}

/// The step that asks for the change of directory to `to`.
fn go(to: Destination) -> (r: Step)
    ensures
        r@ == go_to(to@),
{
    let warning = if to.home_missing {
        Some("cd: HOME not set\n".to_owned())
    } else {
        None
    };
    let path = to.path.clone();
    Step { pending: Pending::Change { path: to.path }, action: Action::ChangeDirectory { path, warning } }
}

/// Whether `cd` with the argument `path` goes to the home directory.
pub fn goes_home(path: &Option<String>) -> (r: bool)
    ensures
        r == wants_home(text_of(*path)),
{
    match path {
        Some(path) => str_eq(path.as_str(), "~"),
        None => true,
    }
}

/// Where `cd` goes for the argument `path`, given the home directory as the
/// environment names it.
pub fn resolve_path(path: Option<String>, home: Option<String>) -> (to: Destination)
    ensures
        to@ == destination(text_of(path), text_of(home)),
{
    if goes_home(&path) {
        match home {
            Some(home) => Destination { path: home, home_missing: false },
            None => Destination { path: ".".to_owned(), home_missing: true },
        }
    } else {
        Destination { path: path.unwrap(), home_missing: false }
    }
}

/// What `type` does for `name`.
fn describe_command(name: String, search_path: &Vec<String>) -> (r: Step)
    ensures
        r@ == describe(name@, views(search_path@)),
{
    if ShellCommand::from_str(name.as_str()).is_some() {
        finish(Action::Print { text: followed_by(name.as_str(), " is a shell builtin\n") })
    } else {
        search(name, Goal::Describe, search_path, 0)
    }
}

/// Decides what to do for an argument list. `line` is the trimmed line that
/// the tokens came from.
pub fn dispatch(tokens: Vec<String>, line: &str, search_path: &Vec<String>) -> (r: Step)
    ensures
        r@ == on_tokens(views(tokens@), line@, views(search_path@)),
{
    if tokens.len() == 0 {
        return finish(Action::Prompt);
    }
    let mut args = tokens;
    let name = args.remove(0);
    assert(views(args@) =~= views(tokens@).skip(1));
    assert(name@ == views(tokens@)[0]);
    match ShellCommand::from_str(name.as_str()) {
        Some(ShellCommand::Echo) => {
            let mut text = join(&args, " ");
            text.append("\n");
            finish(Action::Print { text })
        },
        Some(ShellCommand::Type) => {
            if args.len() == 0 {
                finish(Action::Prompt)
            } else {
                let subject = args.swap_remove(0);
                describe_command(subject, search_path)
            }
        },
        Some(ShellCommand::Exit) => {
            if str_eq(line, "exit 0") {
                finish(Action::Quit)
            } else {
                finish(Action::Prompt)
            }
        },
        Some(ShellCommand::Pwd) => Step {
            pending: Pending::WorkingDirectory,
            action: Action::QueryWorkingDirectory,
        },
        Some(ShellCommand::Cd) => {
            let path = if args.len() == 0 {
                None
            } else {
                Some(join(&args, " "))
            };
            if goes_home(&path) {
                Step { pending: Pending::Home, action: Action::QueryHome }
            } else {
                go(resolve_path(path, None))
            }
        },
        None => search(name, Goal::Run { args, line: line.to_owned() }, search_path, 0),
    }
}

/// Decides what to do for an input line.
pub fn dispatch_line(line: &str, search_path: &Vec<String>) -> (r: Step)
    ensures
        r@ == on_line(line@, views(search_path@)),
{
    let line = trim(line);
    if str_eq(line, "exit 0") {
        finish(Action::Quit)
    } else {
        dispatch(parse_arguments(line), line, search_path)
    }
}

/// Decides what to do once the driver has answered the last action.
pub fn resume(pending: Pending, reply: Reply, search_path: &Vec<String>) -> (r: Step)
    ensures
        r@ == on_reply(pending@, reply@, views(search_path@)),
{
    match (pending, reply) {
        (Pending::WorkingDirectory, Reply::WorkingDirectory(dir)) => {
            finish(Action::Print { text: followed_by(dir.as_str(), "\n") })
        },
        (Pending::Home, Reply::Home(home)) => go(resolve_path(None, home)),
        (Pending::Change { path }, Reply::Changed(ok)) => {
            if ok {
                finish(Action::Prompt)
            } else {
                let mut text = followed_by("cd: ", path.as_str());
                text.append(": No such file or directory\n");
                finish(Action::Print { text })
            }
        },
        (Pending::Search { name, goal, index, path }, Reply::Probed(status)) => {
            if file_exists_and_executable(status) {
                match goal {
                    Goal::Describe => {
                        let mut text = followed_by(name.as_str(), " is ");
                        text.append(path.as_str());
                        text.append("\n");
                        finish(Action::Print { text })
                    },
                    Goal::Run { args, .. } => Step {
                        pending: Pending::Launch,
                        action: Action::Launch { program: path, args },
                    },
                }
            } else {
                let next = if index < search_path.len() {
                    index + 1
                } else {
                    index
                };
                search(name, goal, search_path, next)
            }
        },
        (Pending::Launch, Reply::Launched(ok)) => {
            if ok {
                finish(Action::Prompt)
            } else {
                finish(Action::Report { text: "Failed to execute command\n".to_owned() })
            }
        },
        _ => finish(Action::Prompt),
    }
}

/// The step that is reached from `step` once the driver has given `replies`,
/// one after another.
pub open spec fn after_replies(
    step: StepView,
    replies: Seq<ReplyView>,
    dirs: Seq<Seq<char>>,
) -> StepView
    decreases replies.len(),
{
    if replies.len() == 0 {
        step
    } else {
        after_replies(on_reply(step.pending, replies[0], dirs), replies.drop_first(), dirs)
    }
}

/// What a driver replies during a search that begins at the directory number
/// `from`, where `statuses` holds the status of the candidate in each
/// directory: the statuses in order, up to the first executable one.
pub open spec fn probes(statuses: Seq<Option<u32>>, from: nat) -> Seq<ReplyView>
    decreases statuses.len() - from,
{
    if from >= statuses.len() {
        Seq::empty()
    } else if is_executable(statuses[from as int]) {
        seq![ReplyView::Probed(statuses[from as int])]
    } else {
        seq![ReplyView::Probed(statuses[from as int])] + probes(statuses, from + 1)
    }
}

/// The number of the first directory, from the directory number `from` on,
/// whose candidate is executable.
pub open spec fn first_executable(statuses: Seq<Option<u32>>, from: nat) -> Option<nat>
    decreases statuses.len() - from,
{
    if from >= statuses.len() {
        None
    } else if is_executable(statuses[from as int]) {
        Some(from)
    } else {
        first_executable(statuses, from + 1)
    }
}

/// The file that `name` resolves to, from the directory number `from` on:
/// the candidate in the first directory where it is executable.
pub open spec fn located(
    name: Seq<char>,
    dirs: Seq<Seq<char>>,
    statuses: Seq<Option<u32>>,
    from: nat,
) -> Option<Seq<char>> {
    match first_executable(statuses, from) {
        Some(k) => Some(candidate(dirs[k as int], name)),
        None => None,
    }
}

/// The first executable candidate is executable, none before it is, and
/// where there is no first one, none is executable at all.
pub proof fn lemma_first_executable(statuses: Seq<Option<u32>>, from: nat)
    ensures
        match first_executable(statuses, from) {
            Some(k) => {
                &&& from <= k < statuses.len()
                &&& is_executable(statuses[k as int])
                &&& forall|i: int| from <= i < k ==> !is_executable(#[trigger] statuses[i])
            },
            None => forall|i: int|
                from <= i < statuses.len() ==> !is_executable(#[trigger] statuses[i]),
        },
    decreases statuses.len() - from,
{
    if from < statuses.len() && !is_executable(statuses[from as int]) {
        lemma_first_executable(statuses, from + 1);
    }
}

/// A search looks into the directories in order and ends at the first that
/// holds an executable file for the name: the program found there is
/// described or launched, and no later directory is looked into. Where no
/// directory holds one, the search ends with the message for that.
pub proof fn lemma_search_ends_at_first_match(
    name: Seq<char>,
    goal: GoalView,
    dirs: Seq<Seq<char>>,
    statuses: Seq<Option<u32>>,
    from: nat,
)
    requires
        statuses.len() == dirs.len(),
    ensures
        after_replies(search_from(name, goal, dirs, from), probes(statuses, from), dirs) == (
        match located(name, dirs, statuses, from) {
            Some(path) => found(name, goal, path),
            None => done(ActionView::Print { text: not_found_text(name, goal) }),
        }),
    decreases dirs.len() - from,
{
    let start = search_from(name, goal, dirs, from);
    let replies = probes(statuses, from);
    if from < dirs.len() {
        let reply = ReplyView::Probed(statuses[from as int]);
        let next = on_reply(start.pending, reply, dirs);
        assert(replies[0] == reply);
        if is_executable(statuses[from as int]) {
            assert(replies.drop_first() =~= Seq::<ReplyView>::empty());
            assert(after_replies(next, replies.drop_first(), dirs) == next);
        } else {
            assert(replies.drop_first() =~= probes(statuses, from + 1));
            lemma_search_ends_at_first_match(name, goal, dirs, statuses, from + 1);
        }
    }
}

/// Whether a step is on the way to running a program from the search path:
/// it launches one, or looks for one in order to run it.
pub open spec fn heads_for_launch(step: StepView) -> bool {
    ||| step.action is Launch
    ||| step.pending matches PendingView::Search { goal, .. } && goal is Run
}

/// A line whose first token is the name of a builtin runs the builtin: it
/// never launches a program nor looks for one to run, whatever the search
/// path holds. Where the builtin is not `type`, the search path has no part
/// in the decision at all.
pub proof fn lemma_builtin_runs_builtin(
    tokens: Seq<Seq<char>>,
    line: Seq<char>,
    dirs: Seq<Seq<char>>,
    other_dirs: Seq<Seq<char>>,
)
    requires
        tokens.len() > 0,
        ShellCommand::named(tokens[0]) is Some,
    ensures
        on_tokens(tokens, line, dirs) == run_builtin(
            ShellCommand::named(tokens[0])->0,
            tokens.skip(1),
            line,
            dirs,
        ),
        !heads_for_launch(on_tokens(tokens, line, dirs)),
        ShellCommand::named(tokens[0]) != Some(ShellCommand::Type) ==> on_tokens(
            tokens,
            line,
            dirs,
        ) == on_tokens(tokens, line, other_dirs),
{
}

/// What does not head for a launch never comes to one, whatever the driver
/// replies.
pub proof fn lemma_no_launch_later(
    pending: PendingView,
    reply: ReplyView,
    dirs: Seq<Seq<char>>,
)
    requires
        !(pending matches PendingView::Search { goal, .. } && goal is Run),
    ensures
        !heads_for_launch(on_reply(pending, reply, dirs)),
{
}

/// `type` calls every builtin's name a builtin, whatever the search path
/// holds: no directory is looked into.
pub proof fn lemma_type_reports_builtin(
    command: ShellCommand,
    tokens: Seq<Seq<char>>,
    line: Seq<char>,
    dirs: Seq<Seq<char>>,
)
    requires
        tokens.len() >= 2,
        tokens[0] == "type"@,
        tokens[1] == command.name(),
    ensures
        on_tokens(tokens, line, dirs) == done(
            ActionView::Print { text: command.name() + " is a shell builtin\n"@ },
        ),
{
    lemma_names_identify(ShellCommand::Type, tokens[0]);
    lemma_names_identify(command, tokens[1]);
    assert(tokens.skip(1)[0] == tokens[1]);
}

/// A line of white space alone, blanks among it, and the empty line ask for
/// nothing but the next line.
pub proof fn lemma_blank_line_prompts(line: Seq<char>, dirs: Seq<Seq<char>>)
    requires
        forall|i: int| 0 <= i < line.len() ==> white_space(line[i]),
    ensures
        on_line(line, dirs) == done(ActionView::Prompt),
{
    reveal_strlit("exit 0");
    lemma_trimmed_white_space(line);
}

/// `exit 0` ends the loop whatever white space stands around it.
pub proof fn lemma_exit_0_quits(before: Seq<char>, after: Seq<char>, dirs: Seq<Seq<char>>)
    requires
        forall|i: int| 0 <= i < before.len() ==> white_space(before[i]),
        forall|i: int| 0 <= i < after.len() ==> white_space(after[i]),
    ensures
        on_line(before + "exit 0"@ + after, dirs) == done(ActionView::Quit),
{
    reveal_strlit("exit 0");
    lemma_trimmed_padding(before, "exit 0"@, after);
}

/// `type` with a name that is no builtin says where the name resolves to:
/// the first directory of the search path that holds an executable file for
/// it, or nowhere.
pub proof fn lemma_type_reports_first_match(
    name: Seq<char>,
    dirs: Seq<Seq<char>>,
    statuses: Seq<Option<u32>>,
)
    requires
        !is_builtin(name),
        statuses.len() == dirs.len(),
    ensures
        after_replies(describe(name, dirs), probes(statuses, 0), dirs) == done(
            ActionView::Print {
                text: match located(name, dirs, statuses, 0) {
                    Some(path) => name + " is "@ + path + "\n"@,
                    None => name + ": not found\n"@,
                },
            },
        ),
{
    lemma_search_ends_at_first_match(name, GoalView::Describe, dirs, statuses, 0);
}

/// A line whose first token is no builtin runs the program that the token
/// resolves to, with the other tokens as its arguments; where it resolves to
/// nothing, the whole line is reported as not found.
pub proof fn lemma_command_runs_first_match(
    tokens: Seq<Seq<char>>,
    line: Seq<char>,
    dirs: Seq<Seq<char>>,
    statuses: Seq<Option<u32>>,
)
    requires
        tokens.len() > 0,
        !is_builtin(tokens[0]),
        statuses.len() == dirs.len(),
    ensures
        after_replies(on_tokens(tokens, line, dirs), probes(statuses, 0), dirs) == (
        match located(tokens[0], dirs, statuses, 0) {
            Some(program) => StepView {
                pending: PendingView::Launch,
                action: ActionView::Launch { program, args: tokens.skip(1) },
            },
            None => done(ActionView::Print { text: line + ": command not found\n"@ }),
        }),
{
    lemma_search_ends_at_first_match(
        tokens[0],
        GoalView::Run { args: tokens.skip(1), line },
        dirs,
        statuses,
        0,
    );
}

/// The loop ends on the line that trims to `exit 0` and on no other: not
/// on `exit` with another argument or with none, not on any other argument
/// list, and not on any reply.
pub proof fn lemma_quit_only_on_exit_0(
    line: Seq<char>,
    tokens: Seq<Seq<char>>,
    pending: PendingView,
    reply: ReplyView,
    dirs: Seq<Seq<char>>,
)
    ensures
        on_line(line, dirs).action is Quit <==> trimmed(line) == "exit 0"@,
        trimmed(line) == "exit 0"@ ==> on_line(line, dirs) == done(ActionView::Quit),
        on_tokens(tokens, line, dirs).action is Quit <==> tokens.len() > 0 && tokens[0]
            == "exit"@ && line == "exit 0"@,
        !(on_reply(pending, reply, dirs).action is Quit),
{
    if tokens.len() > 0 {
        lemma_names_identify(ShellCommand::Exit, tokens[0]);
    }
}

/// A failed change of directory is reported and nothing more is asked of
/// the driver; a successful one is silent.
pub proof fn lemma_change_of_directory(path: Seq<char>, ok: bool, dirs: Seq<Seq<char>>)
    ensures
        on_reply(PendingView::Change { path }, ReplyView::Changed(ok), dirs) == done(
            if ok {
                ActionView::Prompt
            } else {
                ActionView::Print { text: "cd: "@ + path + ": No such file or directory\n"@ }
            },
        ),
{
}

} // verus!
