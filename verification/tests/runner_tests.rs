use example_gallery::metadata::ExampleMetadata;
use example_gallery::runner::{
    git_checkout, git_clone_official, git_init, git_rev_parse, mount, Action, CachePolicy, Event,
    PriorOutput, RunState, Stage, CONTAINER, HIDDEN_DIRECTORY, LIBRARY_DIRECTORY, OFFICIAL_BRANCH,
};

const OK: Event = Event::Exited { success: true };
const BAD: Event = Event::Exited { success: false };

fn record() -> ExampleMetadata {
    ExampleMetadata {
        id: "user-demo".to_owned(),
        name: "Demo".to_owned(),
        authors: vec![],
        description: String::new(),
        repository: "https://github.com/o/r.git".to_owned(),
        revision: "abc123".to_owned(),
        script: "examples/demo.py".to_owned(),
        tags: vec![],
        image_names: None,
        image_index: None,
        thumbnail_index: None,
    }
}

fn run(events: &[Event]) -> RunState {
    let mut state = RunState::new();
    for event in events {
        state = state.advance(*event);
    }
    state
}

#[test]
fn a_run_without_library_copy_succeeds() {
    let mut state = RunState::new();
    assert_eq!(state.action(), Action::Begin);
    state = state.advance(Event::Start);
    assert_eq!(state.action(), Action::Run(Stage::Init));
    state = state.advance(OK);
    assert_eq!(state.action(), Action::Run(Stage::Fetch));
    state = state.advance(OK);
    assert_eq!(state.action(), Action::Run(Stage::Checkout));
    state = state.advance(OK);
    assert_eq!(state.action(), Action::Run(Stage::Resolve));
    state = state.advance(OK);
    assert_eq!(state.action(), Action::ProbeLibrary);
    state = state.advance(Event::Found(false));
    assert_eq!(state.action(), Action::Run(Stage::Sandbox));
    assert!(!state.finished());
    state = state.advance(OK);
    assert_eq!(state, RunState::Succeeded);
    assert_eq!(state.action(), Action::Stop);
    assert!(state.finished());
    assert!(!state.fatal());
}

#[test]
fn a_library_copy_is_hidden_before_the_script_runs() {
    let state = run(&[Event::Start, OK, OK, OK, OK, Event::Found(true)]);
    assert_eq!(state, RunState::Running(Stage::Shadow));
    assert_eq!(state.action(), Action::HideLibrary);
    assert_eq!(state.advance(OK), RunState::Running(Stage::Sandbox));
    assert_eq!(state.advance(BAD), RunState::FetchFailed);
    assert_eq!(state.advance(Event::NotStarted), RunState::FetchFailed);
    assert_eq!(LIBRARY_DIRECTORY, "nutils");
    assert_eq!(HIDDEN_DIRECTORY, "nutils.tmp");
    assert_eq!(OFFICIAL_BRANCH, "release/7");
    assert_eq!(CONTAINER, "ghcr.io/evalf/nutils:7");
}

#[test]
fn a_failing_script_is_failed_not_an_error() {
    let at_sandbox = run(&[Event::Start, OK, OK, OK, OK, Event::Found(false)]);
    assert_eq!(at_sandbox.advance(BAD), RunState::Failed);
    assert_eq!(at_sandbox.advance(Event::Expired), RunState::Failed);
    assert!(at_sandbox.advance(BAD).finished());
    assert!(!at_sandbox.advance(BAD).fatal());
}

#[test]
fn a_missing_runtime_is_fatal() {
    let at_sandbox = run(&[Event::Start, OK, OK, OK, OK, Event::Found(false)]);
    let state = at_sandbox.advance(Event::NotStarted);
    assert_eq!(state, RunState::SandboxError);
    assert!(state.finished());
    assert!(state.fatal());
}

#[test]
fn a_failed_fetch_is_told_apart_from_a_failed_script() {
    for failure in [BAD, Event::NotStarted, Event::Expired] {
        assert_eq!(run(&[Event::Start, failure]), RunState::FetchFailed);
        assert_eq!(run(&[Event::Start, OK, failure]), RunState::FetchFailed);
        assert_eq!(run(&[Event::Start, OK, OK, failure]), RunState::FetchFailed);
        assert_eq!(run(&[Event::Start, OK, OK, OK, failure]), RunState::FetchFailed);
    }
    assert!(RunState::FetchFailed.finished());
    assert!(!RunState::FetchFailed.fatal());
}

#[test]
fn unexpected_events_change_nothing() {
    assert_eq!(RunState::Pending.advance(OK), RunState::Pending);
    assert_eq!(RunState::Pending.advance(Event::Found(true)), RunState::Pending);
    assert_eq!(RunState::Running(Stage::Fetch).advance(Event::Start), RunState::Running(Stage::Fetch));
    assert_eq!(
        RunState::Running(Stage::Fetch).advance(Event::Found(true)),
        RunState::Running(Stage::Fetch)
    );
    assert_eq!(RunState::Running(Stage::Inspect).advance(OK), RunState::Running(Stage::Inspect));
    for done in [RunState::Succeeded, RunState::Failed, RunState::FetchFailed, RunState::SandboxError] {
        for event in [Event::Start, OK, BAD, Event::NotStarted, Event::Expired, Event::Found(true)] {
            assert_eq!(done.advance(event), done);
        }
    }
}

#[test]
fn a_run_takes_eight_events_at_most() {
    let mut state = RunState::new();
    let mut moved = 0;
    for event in [Event::Start, OK, OK, OK, OK, Event::Found(true), OK, OK, OK, Event::Start] {
        let next = state.advance(event);
        if next != state {
            moved += 1;
        }
        state = next;
    }
    assert_eq!(moved, 8);
    assert_eq!(state, RunState::Succeeded);
}

#[test]
fn git_invocations() {
    let init = git_init();
    assert_eq!(init.program, "git");
    assert_eq!(init.arguments, vec!["init", "-b", "main"]);
    assert!(init.in_tree);
    let fetch = record().git_fetch();
    assert_eq!(fetch.program, "git");
    assert_eq!(fetch.arguments, vec!["fetch", "--depth", "1", "https://github.com/o/r.git", "abc123"]);
    assert!(fetch.in_tree);
    let checkout = git_checkout();
    assert_eq!(checkout.arguments, vec!["-c", "advice.detachedHead=false", "checkout", "FETCH_HEAD"]);
    let rev_parse = git_rev_parse();
    assert_eq!(rev_parse.arguments, vec!["rev-parse", "--show-toplevel", "HEAD"]);
    let clone = git_clone_official();
    assert_eq!(
        clone.arguments,
        vec!["clone", "--branch", "release/7", "--depth", "1", "https://github.com/evalf/nutils.git", "."]
    );
}

#[test]
fn sandbox_invocation_has_no_network_and_two_mounts() {
    let call = record().sandbox("/tmp/tree", "/work/log").unwrap();
    assert_eq!(call.program, "podman");
    assert_eq!(
        call.arguments,
        vec![
            "run",
            "--rm",
            "--network=none",
            "--mount=type=bind,destination=/app,source=/tmp/tree",
            "--mount=type=bind,destination=/log,source=/work/log",
            "ghcr.io/evalf/nutils:7",
            "examples/demo.py",
        ]
    );
    assert!(!call.in_tree);
}

#[test]
fn a_directory_with_a_comma_cannot_be_mounted() {
    assert_eq!(mount("/app", "/tmp/a,ro"), None);
    assert_eq!(
        mount("/app", "/tmp/a"),
        Some("--mount=type=bind,destination=/app,source=/tmp/a".to_owned())
    );
    assert!(record().sandbox("/tmp/a,b", "/log").is_none());
    assert!(record().sandbox("/tmp/a", "/log,").is_none());
}

#[test]
fn only_completed_output_is_reused_and_only_on_request() {
    assert_eq!(CachePolicy::default(), CachePolicy::AlwaysRun);
    for prior in [PriorOutput::Absent, PriorOutput::Partial, PriorOutput::Complete] {
        assert!(CachePolicy::AlwaysRun.should_run(prior));
    }
    assert!(CachePolicy::ReuseCompleted.should_run(PriorOutput::Absent));
    assert!(CachePolicy::ReuseCompleted.should_run(PriorOutput::Partial));
    assert!(!CachePolicy::ReuseCompleted.should_run(PriorOutput::Complete));
}
