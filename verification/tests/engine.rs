use bbrew::batch::make_batches;
use bbrew::command::{CommandOutcome, CommandSpec, LaunchError, Verb, WorkItem};
use bbrew::engine::{
    failure_detail, progress_events, total_names, Action, Engine, ProgressEvent,
};
use bbrew::schedule::SlotState;

fn strings(names: &[&str]) -> Vec<String> {
    names.iter().map(|s| s.to_string()).collect()
}

fn singles(names: &[&str]) -> Vec<WorkItem> {
    names.iter().map(|s| WorkItem::Single(s.to_string())).collect()
}

fn exit(success: bool) -> Result<CommandOutcome, LaunchError> {
    Ok(CommandOutcome { success, stdout: vec![], stderr: vec![] })
}

/// Starts everything that may start and returns the indices that were started.
fn launch_all(mut engine: Engine) -> (Engine, Vec<usize>, Action) {
    let mut started = Vec::new();
    loop {
        let (next, action) = engine.poll();
        engine = next;
        match action {
            Action::Launch { index, .. } => started.push(index),
            other => return (engine, started, other),
        }
    }
}

/// Runs the engine to its end; `pick` chooses which running item ends next and
/// `ok` says how item `i` ends. Returns the engine and the largest number of
/// commands that were in flight at once.
fn drive(
    mut engine: Engine,
    pick: fn(&Vec<usize>) -> usize,
    ok: fn(usize) -> bool,
) -> (Engine, usize) {
    let mut running: Vec<usize> = Vec::new();
    let mut peak = 0;
    loop {
        let (next, action) = engine.poll();
        engine = next;
        assert!(engine.active() <= engine.limit());
        assert_eq!(engine.active(), running.len() + usize::from(matches!(action, Action::Launch { .. })));
        match action {
            Action::Launch { index, .. } => {
                running.push(index);
                peak = peak.max(running.len());
            }
            Action::Wait => {
                let at = pick(&running);
                let index = running.remove(at);
                let (next, events) = engine.complete(index, &exit(ok(index)));
                engine = next;
                assert!(events.is_some());
            }
            Action::Finish => {
                assert!(running.is_empty());
                return (engine, peak);
            }
        }
    }
}

fn first(_running: &Vec<usize>) -> usize {
    0
}

fn last(running: &Vec<usize>) -> usize {
    running.len() - 1
}

fn all_ok(_i: usize) -> bool {
    true
}

fn odd_fail(i: usize) -> bool {
    i % 2 == 0
}

#[test]
fn engine_needs_a_positive_limit() {
    assert!(Engine::new(Verb::Fetch, singles(&["a"]), 0).is_none());
    assert!(Engine::new(Verb::Fetch, singles(&["a"]), 1).is_some());
}

#[test]
fn new_engine_has_started_nothing() {
    let engine = Engine::new(Verb::Fetch, singles(&["a", "b", "c"]), 2).unwrap();
    assert_eq!(engine.len(), 3);
    assert_eq!(engine.total(), 3);
    assert_eq!(engine.limit(), 2);
    assert_eq!(engine.active(), 0);
    for i in 0..3 {
        assert_eq!(engine.state_of(i), Some(SlotState::Pending));
    }
    assert_eq!(engine.state_of(3), None);
    assert!(engine.finish().is_none());
}

#[test]
fn launches_in_order_up_to_the_limit_then_waits() {
    let engine = Engine::new(Verb::Fetch, singles(&["a", "b", "c", "d", "e"]), 2).unwrap();
    let (engine, action) = engine.poll();
    assert_eq!(
        action,
        Action::Launch {
            index: 0,
            command: CommandSpec { program: "brew".to_string(), args: strings(&["fetch", "a"]) },
        }
    );
    assert_eq!(engine.active(), 1);
    let (engine, action) = engine.poll();
    assert_eq!(
        action,
        Action::Launch {
            index: 1,
            command: CommandSpec { program: "brew".to_string(), args: strings(&["fetch", "b"]) },
        }
    );
    assert_eq!(engine.active(), 2);
    let (engine, action) = engine.poll();
    assert_eq!(action, Action::Wait);
    assert_eq!(engine.active(), 2);
    assert_eq!(engine.state_of(0), Some(SlotState::Running));
    assert_eq!(engine.state_of(1), Some(SlotState::Running));
    assert_eq!(engine.state_of(2), Some(SlotState::Pending));
    let (engine, events) = engine.complete(1, &exit(true));
    assert!(events.is_some());
    assert_eq!(engine.active(), 1);
    assert_eq!(engine.state_of(1), Some(SlotState::Succeeded));
    let (engine, action) = engine.poll();
    assert!(matches!(action, Action::Launch { index: 2, .. }));
    assert_eq!(engine.active(), 2);
}

#[test]
fn never_more_in_flight_than_the_limit() {
    for limit in 1..6usize {
        for n in 1..12usize {
            let names: Vec<String> = (0..n).map(|i| format!("p{}", i)).collect();
            let items: Vec<WorkItem> = names.iter().map(|s| WorkItem::Single(s.clone())).collect();
            let engine = Engine::new(Verb::Fetch, items, limit).unwrap();
            let (engine, peak) = drive(engine, last, odd_fail);
            assert!(peak <= limit);
            assert_eq!(peak, limit.min(n));
            let run = engine.finish().unwrap();
            assert_eq!(run.attempted(), n);
        }
    }
}

#[test]
fn limit_of_one_runs_one_at_a_time_in_order() {
    let mut engine = Engine::new(Verb::Fetch, singles(&["a", "b", "c"]), 1).unwrap();
    for expected in 0..3usize {
        let (next, action) = engine.poll();
        assert!(matches!(action, Action::Launch { index, .. } if index == expected));
        let (next, action) = next.poll();
        assert_eq!(action, Action::Wait);
        assert_eq!(next.active(), 1);
        let (next, events) = next.complete(expected, &exit(true));
        assert!(events.is_some());
        engine = next;
    }
    let (engine, action) = engine.poll();
    assert_eq!(action, Action::Finish);
    assert_eq!(engine.finish().unwrap().succeeded(), &strings(&["a", "b", "c"]));
}

#[test]
fn a_large_limit_starts_everything_at_once() {
    let engine = Engine::new(Verb::Fetch, singles(&["a", "b", "c"]), usize::MAX).unwrap();
    let (engine, started, action) = launch_all(engine);
    assert_eq!(started, vec![0, 1, 2]);
    assert_eq!(action, Action::Wait);
    assert_eq!(engine.active(), 3);
}

#[test]
fn no_items_finish_at_once() {
    let engine = Engine::new(Verb::Install, Vec::new(), 4).unwrap();
    let (engine, action) = engine.poll();
    assert_eq!(action, Action::Finish);
    let run = engine.finish().unwrap();
    assert_eq!(run.attempted(), 0);
    assert!(!run.has_failures());
}

#[test]
fn first_batch_fails_second_succeeds() {
    let input = strings(&["wget", "curl", "firefox"]);
    let items = make_batches(&input, 2);
    let engine = Engine::new(Verb::Install, items, 4).unwrap();
    let (engine, started, action) = launch_all(engine);
    assert_eq!(started, vec![0, 1]);
    assert_eq!(action, Action::Wait);
    let (engine, events) = engine.complete(0, &exit(false));
    assert_eq!(
        events.unwrap(),
        vec![
            ProgressEvent::Advance(2),
            ProgressEvent::Failed("wget".to_string()),
            ProgressEvent::Failed("curl".to_string()),
            ProgressEvent::Diagnostic(String::new()),
        ]
    );
    let (engine, events) = engine.complete(1, &exit(true));
    assert_eq!(
        events.unwrap(),
        vec![ProgressEvent::Advance(1), ProgressEvent::Succeeded("firefox".to_string())]
    );
    let (engine, action) = engine.poll();
    assert_eq!(action, Action::Finish);
    let run = engine.finish().unwrap();
    assert_eq!(run.failed(), &strings(&["wget", "curl"]));
    assert_eq!(run.succeeded(), &strings(&["firefox"]));
    assert_eq!(run.attempted(), 3);
    assert!(run.has_failures());
}

#[test]
fn a_failure_does_not_stop_the_others() {
    let engine = Engine::new(Verb::Fetch, singles(&["a", "b", "c", "d"]), 2).unwrap();
    let (engine, _) = drive(engine, first, odd_fail);
    let run = engine.finish().unwrap();
    assert_eq!(run.succeeded(), &strings(&["a", "c"]));
    assert_eq!(run.failed(), &strings(&["b", "d"]));
}

#[test]
fn a_command_that_cannot_start_fails_only_its_item() {
    let engine = Engine::new(Verb::Fetch, singles(&["a", "b"]), 2).unwrap();
    let (engine, _, _) = launch_all(engine);
    let (engine, events) =
        engine.complete(0, &Err(LaunchError { message: "permission denied".to_string() }));
    assert_eq!(
        events.unwrap(),
        vec![
            ProgressEvent::Advance(1),
            ProgressEvent::Failed("a".to_string()),
            ProgressEvent::Diagnostic("permission denied".to_string()),
        ]
    );
    assert_eq!(engine.active(), 1);
    assert_eq!(engine.state_of(0), Some(SlotState::Failed));
    let (engine, _) = engine.complete(1, &exit(true));
    let run = engine.finish().unwrap();
    assert_eq!(run.failed(), &strings(&["a"]));
    assert_eq!(run.succeeded(), &strings(&["b"]));
}

#[test]
fn the_tally_does_not_depend_on_the_order_of_completion() {
    let names = ["a", "b", "c", "d", "e", "f", "g"];
    let (one, _) = drive(Engine::new(Verb::Fetch, singles(&names), 3).unwrap(), first, odd_fail);
    let (two, _) = drive(Engine::new(Verb::Fetch, singles(&names), 3).unwrap(), last, odd_fail);
    let (three, _) = drive(Engine::new(Verb::Fetch, singles(&names), 1).unwrap(), first, odd_fail);
    let one = one.finish().unwrap();
    let two = two.finish().unwrap();
    let three = three.finish().unwrap();
    assert_eq!(one.succeeded(), &strings(&["a", "c", "e", "g"]));
    assert_eq!(one.failed(), &strings(&["b", "d", "f"]));
    assert_eq!(one.succeeded(), two.succeeded());
    assert_eq!(one.failed(), two.failed());
    assert_eq!(one.succeeded(), three.succeeded());
    assert_eq!(one.failed(), three.failed());
}

#[test]
fn there_is_no_tally_before_the_barrier() {
    let engine = Engine::new(Verb::Fetch, singles(&["a", "b"]), 2).unwrap();
    assert!(engine.finish().is_none());
    let (engine, _, _) = launch_all(engine);
    assert!(engine.finish().is_none());
    let (engine, _) = engine.complete(0, &exit(true));
    assert!(engine.finish().is_none());
    let (engine, _) = engine.complete(1, &exit(true));
    assert!(engine.finish().is_some());
}

#[test]
fn a_report_on_an_item_that_is_not_running_changes_nothing() {
    let engine = Engine::new(Verb::Fetch, singles(&["a", "b", "c"]), 1).unwrap();
    let (engine, events) = engine.complete(0, &exit(true));
    assert!(events.is_none());
    assert_eq!(engine.state_of(0), Some(SlotState::Pending));
    let (engine, events) = engine.complete(7, &exit(true));
    assert!(events.is_none());
    let (engine, _) = engine.poll();
    let (engine, events) = engine.complete(0, &exit(false));
    assert!(events.is_some());
    let (engine, events) = engine.complete(0, &exit(true));
    assert!(events.is_none());
    assert_eq!(engine.state_of(0), Some(SlotState::Failed));
    assert_eq!(engine.active(), 0);
}

#[test]
fn progress_of_an_item() {
    let item = WorkItem::Batch(strings(&["a", "b"]));
    assert_eq!(
        progress_events(&item, &exit(true)),
        vec![
            ProgressEvent::Advance(2),
            ProgressEvent::Succeeded("a".to_string()),
            ProgressEvent::Succeeded("b".to_string()),
        ]
    );
    assert_eq!(
        progress_events(&WorkItem::Single("x".to_string()), &exit(false)),
        vec![
            ProgressEvent::Advance(1),
            ProgressEvent::Failed("x".to_string()),
            ProgressEvent::Diagnostic(String::new()),
        ]
    );
    assert_eq!(
        progress_events(&WorkItem::Batch(vec![]), &exit(true)),
        vec![ProgressEvent::Advance(0)]
    );
}

#[test]
fn a_failure_shows_what_the_command_had_to_say() {
    let item = WorkItem::Batch(strings(&["a", "b"]));
    let noisy = Ok(CommandOutcome {
        success: false,
        stdout: b"ignored".to_vec(),
        stderr: b"\n  Error: no formula \xff named a \r\n\n".to_vec(),
    });
    assert_eq!(failure_detail(&noisy), "Error: no formula \u{fffd} named a");
    assert_eq!(
        progress_events(&item, &noisy),
        vec![
            ProgressEvent::Advance(2),
            ProgressEvent::Failed("a".to_string()),
            ProgressEvent::Failed("b".to_string()),
            ProgressEvent::Diagnostic("Error: no formula \u{fffd} named a".to_string()),
        ]
    );
    let unstarted = Err(LaunchError { message: " no such file ".to_string() });
    assert_eq!(failure_detail(&unstarted), " no such file ");
    let quiet = Ok(CommandOutcome { success: true, stdout: vec![], stderr: b"warning".to_vec() });
    assert_eq!(
        progress_events(&WorkItem::Single("a".to_string()), &quiet),
        vec![ProgressEvent::Advance(1), ProgressEvent::Succeeded("a".to_string())]
    );
}

#[test]
fn total_counts_every_name() {
    let items = vec![
        WorkItem::Batch(strings(&["a", "b", "c"])),
        WorkItem::Single("d".to_string()),
        WorkItem::Batch(vec![]),
    ];
    assert_eq!(total_names(&items), Some(4));
    assert_eq!(total_names(&Vec::new()), Some(0));
    assert_eq!(Engine::new(Verb::Install, items, 4).unwrap().total(), 4);
}
