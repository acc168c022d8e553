use bbrew::command::{CommandOutcome, LaunchError, WorkItem};
use bbrew::outcome::{interpret, ItemResult, RunResult};

fn strings(names: &[&str]) -> Vec<String> {
    names.iter().map(|s| s.to_string()).collect()
}

fn exit(success: bool) -> Result<CommandOutcome, LaunchError> {
    Ok(CommandOutcome { success, stdout: vec![], stderr: vec![] })
}

#[test]
fn a_good_exit_is_a_success() {
    let item = WorkItem::Batch(strings(&["wget", "curl"]));
    assert_eq!(interpret(&item, &exit(true)), ItemResult::Succeeded);
    assert!(interpret(&item, &exit(true)).is_succeeded());
}

#[test]
fn a_failing_batch_fails_every_name() {
    let item = WorkItem::Batch(strings(&["wget", "curl", "firefox"]));
    let result = interpret(&item, &exit(false));
    assert_eq!(result, ItemResult::Failed(strings(&["wget", "curl", "firefox"])));
    assert!(!result.is_succeeded());
}

#[test]
fn a_command_that_cannot_start_fails_its_item() {
    let item = WorkItem::Single("wget".to_string());
    let result = interpret(&item, &Err(LaunchError { message: "no such file".to_string() }));
    assert_eq!(result, ItemResult::Failed(strings(&["wget"])));
}

#[test]
fn empty_tally() {
    let run = RunResult::new();
    assert!(run.succeeded().is_empty());
    assert!(run.failed().is_empty());
    assert_eq!(run.attempted(), 0);
    assert!(!run.has_failures());
}

#[test]
fn record_adds_every_name_of_the_item() {
    let a = WorkItem::Batch(strings(&["a1", "a2"]));
    let b = WorkItem::Single("b".to_string());
    let run = RunResult::new()
        .record(&a, &ItemResult::Failed(strings(&["a1", "a2"])))
        .record(&b, &ItemResult::Succeeded);
    assert_eq!(run.failed(), &strings(&["a1", "a2"]));
    assert_eq!(run.succeeded(), &strings(&["b"]));
    assert_eq!(run.attempted(), 3);
    assert!(run.has_failures());
}

#[test]
fn aggregate_keeps_item_order_and_loses_nothing() {
    let items = vec![
        WorkItem::Batch(strings(&["a", "b"])),
        WorkItem::Batch(strings(&["c"])),
        WorkItem::Batch(strings(&["d", "e"])),
        WorkItem::Single("f".to_string()),
    ];
    let results = vec![
        ItemResult::Succeeded,
        ItemResult::Failed(strings(&["c"])),
        ItemResult::Failed(strings(&["d", "e"])),
        ItemResult::Succeeded,
    ];
    let run = RunResult::aggregate(&items, &results).unwrap();
    assert_eq!(run.succeeded(), &strings(&["a", "b", "f"]));
    assert_eq!(run.failed(), &strings(&["c", "d", "e"]));
    assert_eq!(run.attempted(), 6);
    let mut all: Vec<String> = run.succeeded().clone();
    all.extend(run.failed().clone());
    all.sort();
    assert_eq!(all, strings(&["a", "b", "c", "d", "e", "f"]));
    for name in run.succeeded() {
        assert!(!run.failed().contains(name));
    }
}

#[test]
fn aggregate_fails_the_whole_item_whatever_the_failure_names() {
    let items = vec![WorkItem::Batch(strings(&["a", "b"]))];
    let results = vec![ItemResult::Failed(strings(&["a"]))];
    let run = RunResult::aggregate(&items, &results).unwrap();
    assert_eq!(run.failed(), &strings(&["a", "b"]));
    assert!(run.succeeded().is_empty());
}

#[test]
fn aggregate_needs_one_result_per_item() {
    let items = vec![WorkItem::Single("a".to_string())];
    assert!(RunResult::aggregate(&items, &vec![]).is_none());
    assert!(RunResult::aggregate(&vec![], &vec![ItemResult::Succeeded]).is_none());
    let empty = RunResult::aggregate(&vec![], &vec![]).unwrap();
    assert_eq!(empty.attempted(), 0);
}

#[test]
fn a_name_attempted_twice_is_counted_twice() {
    let items = vec![WorkItem::Single("a".to_string()), WorkItem::Single("a".to_string())];
    let results = vec![ItemResult::Succeeded, ItemResult::Failed(strings(&["a"]))];
    let run = RunResult::aggregate(&items, &results).unwrap();
    assert_eq!(run.succeeded(), &strings(&["a"]));
    assert_eq!(run.failed(), &strings(&["a"]));
    assert_eq!(run.attempted(), 2);
}
