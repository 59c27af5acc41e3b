//! Running the script of an example: which programs to start, and what each
//! of their results means for the run.
//!
//! The revision is fetched into an empty working tree with three calls of
//! `git`, and a fourth tells which commit that was.  If the tree holds a copy
//! of the library, the copy is moved out of
//! the way, so that the script imports the library of the container instead.
//! Then the script runs in a container without network, which sees the tree
//! as `/app` and an empty directory for its log as `/log`.
//!
//! Nothing is started here.  The caller performs the [`Action`] that the
//! state of the run asks for and reports back with an [`Event`].

use vstd::prelude::*;
use vstd::string::StringExecFns;
use crate::metadata::{ExampleMetadata, OFFICIAL_REPOSITORY};
use crate::text::{find, find_from, texts, to_chars};

verus! {

/// What is being done for a run that has started.
#[derive(Clone, Copy, Debug, PartialEq, Eq, Structural)]
pub enum Stage {
    /// `git init` in the empty working tree.
    Init,
    /// `git fetch` of the one revision.
    Fetch,
    /// `git checkout` of what was fetched.
    Checkout,
    /// `git rev-parse`, to learn the commit that was checked out.
    Resolve,
    /// Looking for a copy of the library in the working tree.
    Inspect,
    /// Moving that copy out of the way.
    Shadow,
    /// The script, in its container.
    Sandbox,
}

/// The state of one run.
#[derive(Clone, Copy, Debug, PartialEq, Eq, Structural)]
pub enum RunState {
    Pending,
    Running(Stage),
    /// The script ran and exited with success.
    Succeeded,
    /// The script ran and failed, or ran out of time.
    Failed,
    /// The revision could not be brought into the working tree, so nothing is
    /// known of the script.
    FetchFailed,
    /// The container runtime could not be started.
    SandboxError,
}

/// What the caller reports back.
#[derive(Clone, Copy, Debug, PartialEq, Eq, Structural)]
pub enum Event {
    /// The run may begin.
    Start,
    /// The program ran and exited, with or without success.
    Exited { success: bool },
    /// The program could not be started.
    NotStarted,
    /// The program was stopped because it took too long.
    Expired,
    /// Whether the working tree holds a copy of the library.
    Found(bool),
}

/// What the caller is to do next.
#[derive(Clone, Copy, Debug, PartialEq, Eq, Structural)]
pub enum Action {
    /// Report `Event::Start`.
    Begin,
    /// Start the program of this stage and report how it ended.  For
    /// `Stage::Resolve`, success means that the record took the commit.
    Run(Stage),
    /// Report whether the working tree holds a copy of the library.
    ProbeLibrary,
    /// Rename the copy of the library, and report success as an exit.
    HideLibrary,
    /// The run is over.
    Stop,
}

impl RunState {
    /// The run is over.
    pub open spec fn is_terminal(self) -> bool {
        self is Succeeded || self is Failed || self is FetchFailed || self is SandboxError
    }

    /// The run ended in a way that concerns every other example too.
    pub open spec fn is_fatal(self) -> bool {
        self is SandboxError
    }

    /// The number of events that the run can still take, at most.
    pub open spec fn steps_left(self) -> nat {
        match self {
            RunState::Pending => 8,
            RunState::Running(Stage::Init) => 7,
            RunState::Running(Stage::Fetch) => 6,
            RunState::Running(Stage::Checkout) => 5,
            RunState::Running(Stage::Resolve) => 4,
            RunState::Running(Stage::Inspect) => 3,
            RunState::Running(Stage::Shadow) => 2,
            RunState::Running(Stage::Sandbox) => 1,
            _ => 0,
        }
    }

    /// Whether `event` is an answer to what the state asks for.
    pub open spec fn expects(self, event: Event) -> bool {
        match self {
            RunState::Pending => event is Start,
            RunState::Running(Stage::Inspect) => event is Found,
            RunState::Running(_) => event is Exited || event is NotStarted || event is Expired,
            _ => false,
        }
    }

    /// The state after `event`.  An event that the state does not expect
    /// changes nothing.
    pub open spec fn step(self, event: Event) -> RunState {
        if !self.expects(event) {
            self
        } else {
            match (self, event) {
                (RunState::Pending, _) => RunState::Running(Stage::Init),
                (RunState::Running(Stage::Inspect), Event::Found(true)) => RunState::Running(
                    Stage::Shadow,
                ),
                (RunState::Running(Stage::Inspect), _) => RunState::Running(Stage::Sandbox),
                (RunState::Running(Stage::Sandbox), Event::Exited { success: true }) => {
                    RunState::Succeeded
                },
                (RunState::Running(Stage::Sandbox), Event::NotStarted) => RunState::SandboxError,
                (RunState::Running(Stage::Sandbox), _) => RunState::Failed,
                (RunState::Running(stage), Event::Exited { success: true }) => RunState::Running(
                    match stage {
                        Stage::Init => Stage::Fetch,
                        Stage::Fetch => Stage::Checkout,
                        Stage::Checkout => Stage::Resolve,
                        Stage::Resolve => Stage::Inspect,
                        _ => Stage::Sandbox,
                    },
                ),
                _ => RunState::FetchFailed,
            }
        }
    }

    /// What the state asks the caller to do.
    pub open spec fn asks(self) -> Action {
        match self {
            RunState::Pending => Action::Begin,
            RunState::Running(Stage::Inspect) => Action::ProbeLibrary,
            RunState::Running(Stage::Shadow) => Action::HideLibrary,
            RunState::Running(stage) => Action::Run(stage),
            _ => Action::Stop,
        }
    }

    /// The state after a run of events, taken in order.
    pub open spec fn after(self, events: Seq<Event>) -> RunState
        decreases events.len(),
    {
        if events.len() == 0 {
            self
        } else {
            self.after(events.drop_last()).step(events.last())
        }
    }

    /// The state of a run that has not begun.
    pub fn new() -> (state: RunState)
        ensures
            state == RunState::Pending,
    {
        RunState::Pending
    }

    /// Whether the run is over.
    pub fn finished(self) -> (over: bool)
        ensures
            over == self.is_terminal(),
    {
        match self {
            RunState::Pending | RunState::Running(_) => false,
            _ => true,
        }
    }

    /// Whether the run ended in a way that must stop the whole gallery.
    pub fn fatal(self) -> (fatal: bool)
        ensures
            fatal == self.is_fatal(),
    {
        match self {
            RunState::SandboxError => true,
            _ => false,
        }
    }

    /// What to do next.
    pub fn action(self) -> (action: Action)
        ensures
            action == self.asks(),
            action is Stop <==> self.is_terminal(),
    {
        match self {
            RunState::Pending => Action::Begin,
            RunState::Running(Stage::Inspect) => Action::ProbeLibrary,
            RunState::Running(Stage::Shadow) => Action::HideLibrary,
            RunState::Running(stage) => Action::Run(stage),
            _ => Action::Stop,
        }
    }

    /// The state after `event`.
    pub fn advance(self, event: Event) -> (next: RunState)
        ensures
            next == self.step(event),
    {
        match self {
            RunState::Pending => match event {
                Event::Start => RunState::Running(Stage::Init),
                _ => self,
            },
            RunState::Running(Stage::Inspect) => match event {
                Event::Found(true) => RunState::Running(Stage::Shadow),
                Event::Found(false) => RunState::Running(Stage::Sandbox),
                _ => self,
            },
            RunState::Running(Stage::Sandbox) => match event {
                Event::Exited { success: true } => RunState::Succeeded,
                Event::Exited { success: false } | Event::Expired => RunState::Failed,
                Event::NotStarted => RunState::SandboxError,
                _ => self,
            },
            RunState::Running(stage) => match event {
                Event::Exited { success: true } => match stage {
                    Stage::Init => RunState::Running(Stage::Fetch),
                    Stage::Fetch => RunState::Running(Stage::Checkout),
                    Stage::Checkout => RunState::Running(Stage::Resolve),
                    Stage::Resolve => RunState::Running(Stage::Inspect),
                    _ => RunState::Running(Stage::Sandbox),
                },
                Event::Exited { success: false } | Event::NotStarted | Event::Expired => {
                    RunState::FetchFailed
                },
                _ => self,
            },
            _ => self,
        }
    }
}

/// A run that is over stays as it is.
pub proof fn lemma_terminal_states_are_final(state: RunState, event: Event)
    requires
        state.is_terminal(),
    ensures
        state.step(event) == state,
{
}

/// Every expected event brings the run closer to its end, and no other event
/// moves it.
pub proof fn lemma_events_make_progress(state: RunState, event: Event)
    ensures
        state.expects(event) ==> state.step(event).steps_left() < state.steps_left(),
        !state.expects(event) ==> state.step(event) == state,
        state.is_terminal() <==> state.steps_left() == 0,
        state.is_terminal() <==> state.asks() is Stop,
{
}

/// Where each end of a run comes from.  Only the script decides between
/// success and failure; only a container runtime that does not start is an
/// error of the sandbox; and whatever goes wrong before the script runs is a
/// failed fetch, never a failed script.
pub proof fn lemma_outcomes_have_one_origin(state: RunState, event: Event)
    requires
        !state.is_terminal(),
    ensures
        state.step(event) is Succeeded <==> state == RunState::Running(Stage::Sandbox) && event
            == (Event::Exited { success: true }),
        state.step(event) is Failed <==> state == RunState::Running(Stage::Sandbox) && (event == (
        Event::Exited { success: false }) || event is Expired),
        state.step(event) is SandboxError <==> state == RunState::Running(Stage::Sandbox) && event
            is NotStarted,
        state.step(event) is FetchFailed ==> state is Running && state != RunState::Running(
            Stage::Sandbox,
        ),
{
}

/// The number of events of a run that the state they met was expecting.
pub open spec fn moves(events: Seq<Event>) -> nat
    decreases events.len(),
{
    if events.len() == 0 {
        0
    } else if RunState::Pending.after(events.drop_last()).expects(events.last()) {
        moves(events.drop_last()) + 1
    } else {
        moves(events.drop_last())
    }
}

/// A run takes eight steps at most: whatever is reported, no more than eight
/// events move it, and after eight that did it is over.
pub proof fn lemma_runs_are_bounded(events: Seq<Event>)
    ensures
        RunState::Pending.after(events).steps_left() + moves(events) <= 8,
        moves(events) >= 8 ==> RunState::Pending.after(events).is_terminal(),
    decreases events.len(),
{
    if events.len() > 0 {
        lemma_runs_are_bounded(events.drop_last());
        lemma_events_make_progress(RunState::Pending.after(events.drop_last()), events.last());
    }
    lemma_events_make_progress(RunState::Pending.after(events), Event::Start);
}

/// What to do with the output that an earlier run may have left.
#[derive(Clone, Copy, Debug, PartialEq, Eq, Structural)]
pub enum CachePolicy {
    /// Run every script again.
    AlwaysRun,
    /// Skip the script of an example whose earlier run was completed.
    ReuseCompleted,
}

/// The output that an earlier run of an example left.
#[derive(Clone, Copy, Debug, PartialEq, Eq, Structural)]
pub enum PriorOutput {
    Absent,
    /// There is output, but nothing marks it as complete.
    Partial,
    /// There is output, marked as that of a completed run.
    Complete,
}

impl Default for CachePolicy {
    fn default() -> (policy: CachePolicy)
        ensures
            policy == CachePolicy::AlwaysRun,
    {
        CachePolicy::AlwaysRun
    }
}

impl CachePolicy {
    /// Whether the script has to run: always, unless completed output may be
    /// reused and is there.
    pub open spec fn requires_run(self, prior: PriorOutput) -> bool {
        !(self == CachePolicy::ReuseCompleted && prior == PriorOutput::Complete)
    }

    /// Whether the script has to run.  Output that is not marked as complete
    /// is never reused.
    pub fn should_run(self, prior: PriorOutput) -> (run: bool)
        ensures
            run == self.requires_run(prior),
            self == CachePolicy::AlwaysRun ==> run,
            prior != PriorOutput::Complete ==> run,
    {
        match (self, prior) {
            (CachePolicy::ReuseCompleted, PriorOutput::Complete) => false,
            _ => true,
        }
    }
}

/// A program with its arguments.
#[derive(Clone, Debug, PartialEq, Eq)]
pub struct Invocation {
    pub program: String,
    pub arguments: Vec<String>,
    /// Whether the program runs with the working tree as its directory.
    pub in_tree: bool,
}

/// The mathematical content of an [`Invocation`].
pub ghost struct InvocationView {
    pub program: Seq<char>,
    pub arguments: Seq<Seq<char>>,
    pub in_tree: bool,
}

impl View for Invocation {
    type V = InvocationView;

    open spec fn view(&self) -> InvocationView {
        InvocationView {
            program: self.program@,
            arguments: texts(self.arguments@),
            in_tree: self.in_tree,
        }
    }
}

/// The branch of the library whose examples are the official ones.
pub const OFFICIAL_BRANCH: &'static str = "release/7";

/// The image of the container in which scripts run.
pub const CONTAINER: &'static str = "ghcr.io/evalf/nutils:7";

/// The directory of a working tree that holds a copy of the library.
pub const LIBRARY_DIRECTORY: &'static str = "nutils";

/// The name under which that copy is out of the way.
pub const HIDDEN_DIRECTORY: &'static str = "nutils.tmp";

/// The argument that binds the directory `source` to `destination` inside
/// the container.  A source with a comma in it would read as further
/// options, so it has no such argument.
pub open spec fn mount_of(destination: Seq<char>, source: Seq<char>) -> Option<Seq<char>> {
    if find(source, ',') < source.len() {
        None
    } else {
        Some("--mount=type=bind,destination="@ + destination + ",source="@ + source)
    }
}

/// The invocation of `git` with `arguments`, inside the working tree.
pub open spec fn git_of(arguments: Seq<Seq<char>>) -> InvocationView {
    InvocationView { program: "git"@, arguments, in_tree: true }
}

/// The invocation that runs `script` in its container, with the working tree
/// at `tree` and the directory for the log at `output`.
pub open spec fn sandbox_of(script: Seq<char>, tree: Seq<char>, output: Seq<char>) -> Option<
    InvocationView,
> {
    match (mount_of("/app"@, tree), mount_of("/log"@, output)) {
        (Some(app), Some(log)) => Some(
            InvocationView {
                program: "podman"@,
                arguments: seq![
                    "run"@,
                    "--rm"@,
                    "--network=none"@,
                    app,
                    log,
                    CONTAINER@,
                    script,
                ],
                in_tree: false,
            },
        ),
        _ => None,
    }
}

/// A text with the characters of `lit`.
fn word(lit: &str) -> (text: String)
    ensures
        text@ == lit@,
{
    lit.to_owned()
}

/// `git` with `arguments`.
fn git(arguments: Vec<String>) -> (call: Invocation)
    ensures
        call@ == git_of(texts(arguments@)),
{
    Invocation { program: word("git"), arguments, in_tree: true }
}

/// Makes the empty working tree a repository.
pub fn git_init() -> (call: Invocation)
    ensures
        call@ == git_of(seq!["init"@, "-b"@, "main"@]),
{
    let mut arguments: Vec<String> = Vec::new();
    arguments.push(word("init"));
    arguments.push(word("-b"));
    arguments.push(word("main"));
    assert(texts(arguments@) =~= seq!["init"@, "-b"@, "main"@]);
    git(arguments)
}

/// Checks out what was fetched.
pub fn git_checkout() -> (call: Invocation)
    ensures
        call@ == git_of(
            seq!["-c"@, "advice.detachedHead=false"@, "checkout"@, "FETCH_HEAD"@],
        ),
{
    let mut arguments: Vec<String> = Vec::new();
    arguments.push(word("-c"));
    arguments.push(word("advice.detachedHead=false"));
    arguments.push(word("checkout"));
    arguments.push(word("FETCH_HEAD"));
    assert(texts(arguments@) =~= seq![
        "-c"@,
        "advice.detachedHead=false"@,
        "checkout"@,
        "FETCH_HEAD"@,
    ]);
    git(arguments)
}

/// Asks a checkout for its top-level directory and its commit.
pub fn git_rev_parse() -> (call: Invocation)
    ensures
        call@ == git_of(seq!["rev-parse"@, "--show-toplevel"@, "HEAD"@]),
{
    let mut arguments: Vec<String> = Vec::new();
    arguments.push(word("rev-parse"));
    arguments.push(word("--show-toplevel"));
    arguments.push(word("HEAD"));
    assert(texts(arguments@) =~= seq!["rev-parse"@, "--show-toplevel"@, "HEAD"@]);
    git(arguments)
}

/// Clones the tip of the official branch of the library into the directory
/// in which `git` runs.
pub fn git_clone_official() -> (call: Invocation)
    ensures
        call@ == git_of(
            seq![
                "clone"@,
                "--branch"@,
                OFFICIAL_BRANCH@,
                "--depth"@,
                "1"@,
                OFFICIAL_REPOSITORY@,
                "."@,
            ],
        ),
{
    let mut arguments: Vec<String> = Vec::new();
    arguments.push(word("clone"));
    arguments.push(word("--branch"));
    arguments.push(word(OFFICIAL_BRANCH));
    arguments.push(word("--depth"));
    arguments.push(word("1"));
    arguments.push(word(OFFICIAL_REPOSITORY));
    arguments.push(word("."));
    assert(texts(arguments@) =~= seq![
        "clone"@,
        "--branch"@,
        OFFICIAL_BRANCH@,
        "--depth"@,
        "1"@,
        OFFICIAL_REPOSITORY@,
        "."@,
    ]);
    git(arguments)
}

/// The argument that binds the directory `source` to `destination` inside
/// the container.
pub fn mount(destination: &str, source: &str) -> (argument: Option<String>)
    ensures
        match mount_of(destination@, source@) {
            Some(text) => argument is Some && argument->Some_0@ == text,
            None => argument is None,
        },
{
    let chars = to_chars(source);
    assert(chars@.skip(0) == chars@);
    if find_from(&chars, 0, ',') < chars.len() {
        return None;
    }
    let mut argument = word("--mount=type=bind,destination=");
    argument.append(destination);
    argument.append(",source=");
    argument.append(source);
    Some(argument)
}

impl ExampleMetadata {
    /// Fetches the revision of the example, and nothing of its history.
    pub fn git_fetch(&self) -> (call: Invocation)
        ensures
            call@ == git_of(
                seq!["fetch"@, "--depth"@, "1"@, self.repository@, self.revision@],
            ),
    {
        let mut arguments: Vec<String> = Vec::new();
        arguments.push(word("fetch"));
        arguments.push(word("--depth"));
        arguments.push(word("1"));
        arguments.push(self.repository.clone());
        arguments.push(self.revision.clone());
        assert(texts(arguments@) =~= seq![
            "fetch"@,
            "--depth"@,
            "1"@,
            self.repository@,
            self.revision@,
        ]);
        git(arguments)
    }

    /// Runs the script in its container: without network, with the working
    /// tree at `tree` and the directory for the log at `output`, and with the
    /// path of the script as the one argument.  `None` where one of the
    /// two directories cannot be bound.
    pub fn sandbox(&self, tree: &str, output: &str) -> (call: Option<Invocation>)
        ensures
            match sandbox_of(self.script@, tree@, output@) {
                Some(want) => call is Some && call->Some_0@ == want,
                None => call is None,
            },
    {
        let app = match mount("/app", tree) {
            Some(app) => app,
            None => {
                return None;
            },
        };
        let log = match mount("/log", output) {
            Some(log) => log,
            None => {
                return None;
            },
        };
        let ghost want = sandbox_of(self.script@, tree@, output@)->Some_0;
        let mut arguments: Vec<String> = Vec::new();
        arguments.push(word("run"));
        arguments.push(word("--rm"));
        arguments.push(word("--network=none"));
        arguments.push(app);
        arguments.push(log);
        arguments.push(word(CONTAINER));
        arguments.push(self.script.clone());
        assert(texts(arguments@) =~= want.arguments);
        Some(Invocation { program: word("podman"), arguments, in_tree: false })
    }
}

} // verus!
