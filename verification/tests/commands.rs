use bbrew::command::{
    append_names, availability_probe, copy_names, installed_query, is_success, item_command,
    outdated_query, plain_command, CommandOutcome, CommandSpec, LaunchError, Verb, WorkItem,
};

fn strings(names: &[&str]) -> Vec<String> {
    names.iter().map(|s| s.to_string()).collect()
}

fn line(program: &str, args: &[&str]) -> CommandSpec {
    CommandSpec { program: program.to_string(), args: strings(args) }
}

#[test]
fn verb_words() {
    assert_eq!(Verb::Update.as_str(), "update");
    assert_eq!(Verb::Upgrade.as_str(), "upgrade");
    assert_eq!(Verb::Fetch.as_str(), "fetch");
    assert_eq!(Verb::Install.as_str(), "install");
    assert_eq!(Verb::Reinstall.as_str(), "reinstall");
}

#[test]
fn single_item_command_is_verb_then_name() {
    let item = WorkItem::Single("wget".to_string());
    assert_eq!(item_command(Verb::Fetch, &item), line("brew", &["fetch", "wget"]));
    assert_eq!(item.count(), 1);
    assert_eq!(item.names(), strings(&["wget"]));
}

#[test]
fn batch_command_is_verb_then_all_names_in_order() {
    let item = WorkItem::Batch(strings(&["wget", "curl", "firefox"]));
    assert_eq!(
        item_command(Verb::Install, &item),
        line("brew", &["install", "wget", "curl", "firefox"])
    );
    assert_eq!(
        item_command(Verb::Reinstall, &item),
        line("brew", &["reinstall", "wget", "curl", "firefox"])
    );
    assert_eq!(item.count(), 3);
    assert_eq!(item.names(), strings(&["wget", "curl", "firefox"]));
}

#[test]
fn empty_batch_command_has_only_the_verb() {
    let item = WorkItem::Batch(Vec::new());
    assert_eq!(item_command(Verb::Install, &item), line("brew", &["install"]));
    assert_eq!(item.count(), 0);
}

#[test]
fn plain_commands() {
    assert_eq!(plain_command(Verb::Update), line("brew", &["update"]));
    assert_eq!(plain_command(Verb::Upgrade), line("brew", &["upgrade"]));
}

#[test]
fn query_and_probe_commands() {
    assert_eq!(outdated_query(), line("brew", &["outdated", "--json"]));
    assert_eq!(installed_query(), line("brew", &["list", "--formula", "-1"]));
    assert_eq!(availability_probe(), line("which", &["brew"]));
}

#[test]
fn success_needs_a_start_and_a_good_exit() {
    let good = Ok(CommandOutcome { success: true, stdout: vec![], stderr: vec![] });
    let bad = Ok(CommandOutcome { success: false, stdout: vec![], stderr: b"boom".to_vec() });
    let unstarted = Err(LaunchError { message: "not found".to_string() });
    assert!(is_success(&good));
    assert!(!is_success(&bad));
    assert!(!is_success(&unstarted));
}

#[test]
fn names_are_copied_in_order() {
    let names = strings(&["a", "b", "c"]);
    assert_eq!(copy_names(&names), names);
    assert!(copy_names(&Vec::new()).is_empty());
    let mut out = strings(&["x"]);
    append_names(&mut out, &names);
    assert_eq!(out, strings(&["x", "a", "b", "c"]));
    append_names(&mut out, &Vec::new());
    assert_eq!(out.len(), 4);
}
