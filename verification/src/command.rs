//! Work items, the commands built from them, and what a finished command reports.

use vstd::prelude::*;

verus! {

/// The operations of the package tool that this library drives.
#[derive(Clone, Copy, Debug, PartialEq, Eq, Structural)]
pub enum Verb {
    Update,
    Upgrade,
    Fetch,
    Install,
    Reinstall,
}

impl Verb {
    /// The word that stands for this operation on the tool's command line.
    pub open spec fn word(self) -> Seq<char> {
        match self {
            Verb::Update => "update"@,
            Verb::Upgrade => "upgrade"@,
            Verb::Fetch => "fetch"@,
            Verb::Install => "install"@,
            Verb::Reinstall => "reinstall"@,
        }
    }

    /// The command-line word of this operation.
    pub fn as_str(&self) -> (s: &'static str)
        ensures
            s@ == self.word(),
    {
        match self {
            Verb::Update => "update",
            Verb::Upgrade => "upgrade",
            Verb::Fetch => "fetch",
            Verb::Install => "install",
            Verb::Reinstall => "reinstall",
        }
    }
}

/// One unit of work: a single package, or several packages that one command handles together.
#[derive(Clone, Debug, PartialEq, Eq)]
pub enum WorkItem {
    Single(String),
    Batch(Vec<String>),
}

impl DeepView for WorkItem {
    type V = Seq<Seq<char>>;

    /// The package names that the item covers, in order.
    open spec fn deep_view(&self) -> Seq<Seq<char>> {
        match self {
            WorkItem::Single(name) => seq![name@],
            WorkItem::Batch(names) => names.deep_view(),
        }
    }
}

/// A copy of `names` with the same contents.
pub fn copy_names(names: &Vec<String>) -> (r: Vec<String>)
    ensures
        r.deep_view() == names.deep_view(),
{
    let mut out: Vec<String> = Vec::new();
    let mut i: usize = 0;
    while i < names.len()
        invariant
            i <= names.len(),
            out.len() == i,
            forall|k: int| 0 <= k < i ==> out[k]@ == names[k]@,
        decreases names.len() - i,
    {
        out.push(names[i].clone());
        i += 1;
    }
    assert(out.deep_view() =~= names.deep_view());
    out
}

/// Appends a copy of every name in `names` to `out`.
pub fn append_names(out: &mut Vec<String>, names: &Vec<String>)
    ensures
        final(out).deep_view() == old(out).deep_view() + names.deep_view(),
{
    let mut i: usize = 0;
    while i < names.len()
        invariant
            i <= names.len(),
            out.len() == old(out).len() + i,
            forall|k: int| 0 <= k < old(out).len() ==> out[k]@ == old(out)[k]@,
            forall|k: int| 0 <= k < i ==> out[old(out).len() + k]@ == names[k]@,
        decreases names.len() - i,
    {
        out.push(names[i].clone());
        i += 1;
    }
    assert(out.deep_view() =~= old(out).deep_view() + names.deep_view());
}

impl WorkItem {
    /// A work item is there to do something: it covers at least one package.
    /// The items that batching makes are of this kind.
    pub open spec fn well_formed(self) -> bool {
        self.deep_view().len() >= 1
    }

    /// The number of package names that the item covers.
    pub fn count(&self) -> (n: usize)
        ensures
            n == self.deep_view().len(),
    {
        match self {
            WorkItem::Single(_) => 1,
            WorkItem::Batch(names) => names.len(),
        }
    }

    /// The package names that the item covers, in order.
    pub fn names(&self) -> (r: Vec<String>)
        ensures
            r.deep_view() == self.deep_view(),
    {
        match self {
            WorkItem::Single(name) => {
                let mut out: Vec<String> = Vec::new();
                out.push(name.clone());
                assert(out.deep_view() =~= self.deep_view());
                out
            },
            WorkItem::Batch(names) => copy_names(names),
        }
    }
}

/// A program and its arguments, as plain sequences of characters.
pub ghost struct CommandLine {
    pub program: Seq<char>,
    pub args: Seq<Seq<char>>,
}

/// A command to run: the program's name and its arguments in order.
#[derive(Clone, Debug, PartialEq, Eq)]
pub struct CommandSpec {
    pub program: String,
    pub args: Vec<String>,
}

impl DeepView for CommandSpec {
    type V = CommandLine;

    open spec fn deep_view(&self) -> CommandLine {
        CommandLine { program: self.program@, args: self.args.deep_view() }
    }
}

/// The name of the package tool's program.
pub open spec fn tool() -> Seq<char> {
    "brew"@
}

/// The command line that runs `verb` of the package tool on `names`.
pub open spec fn tool_line(verb: Verb, names: Seq<Seq<char>>) -> CommandLine {
    CommandLine { program: tool(), args: seq![verb.word()] + names }
}

/// The command line that asks which packages are outdated, in a machine-readable form.
pub open spec fn outdated_line() -> CommandLine {
    CommandLine { program: tool(), args: seq!["outdated"@, "--json"@] }
}

/// The command line that lists the installed formulae, one to a line.
pub open spec fn installed_line() -> CommandLine {
    CommandLine { program: tool(), args: seq!["list"@, "--formula"@, "-1"@] }
}

/// The command line that looks for the package tool on the search path.
pub open spec fn probe_line() -> CommandLine {
    CommandLine { program: "which"@, args: seq![tool()] }
}

/// The command that runs `verb` on the packages of `item`: the verb, then every
/// package name of the item in order.
pub fn item_command(verb: Verb, item: &WorkItem) -> (cmd: CommandSpec)
    ensures
        cmd.deep_view() == tool_line(verb, item.deep_view()),
{
    let mut args: Vec<String> = Vec::new();
    args.push(verb.as_str().to_owned());
    match item {
        WorkItem::Single(name) => {
            args.push(name.clone());
        },
        WorkItem::Batch(names) => {
            append_names(&mut args, names);
        },
    }
    assert(args.deep_view() =~= seq![verb.word()] + item.deep_view());
    CommandSpec { program: "brew".to_owned(), args }
}

/// The command that runs `verb` with no package names.
pub fn plain_command(verb: Verb) -> (cmd: CommandSpec)
    ensures
        cmd.deep_view() == tool_line(verb, Seq::empty()),
{
    let mut args: Vec<String> = Vec::new();
    args.push(verb.as_str().to_owned());
    assert(args.deep_view() =~= seq![verb.word()] + Seq::<Seq<char>>::empty());
    CommandSpec { program: "brew".to_owned(), args }
}

/// The command of the outdated query.
pub fn outdated_query() -> (cmd: CommandSpec)
    ensures
        cmd.deep_view() == outdated_line(),
{
    let mut args: Vec<String> = Vec::new();
    args.push("outdated".to_owned());
    args.push("--json".to_owned());
    assert(args.deep_view() =~= seq!["outdated"@, "--json"@]);
    CommandSpec { program: "brew".to_owned(), args }
}

/// The command of the installed-list query.
pub fn installed_query() -> (cmd: CommandSpec)
    ensures
        cmd.deep_view() == installed_line(),
{
    let mut args: Vec<String> = Vec::new();
    args.push("list".to_owned());
    args.push("--formula".to_owned());
    args.push("-1".to_owned());
    assert(args.deep_view() =~= seq!["list"@, "--formula"@, "-1"@]);
    CommandSpec { program: "brew".to_owned(), args }
}

/// The command of the availability probe.
pub fn availability_probe() -> (cmd: CommandSpec)
    ensures
        cmd.deep_view() == probe_line(),
{
    let mut args: Vec<String> = Vec::new();
    args.push("brew".to_owned());
    assert(args.deep_view() =~= seq![tool()]);
    CommandSpec { program: "which".to_owned(), args }
}

/// What a command that ran to its end reports.
#[derive(Clone, Debug, PartialEq, Eq)]
pub struct CommandOutcome {
    /// Whether the process exited with success.
    pub success: bool,
    /// What the process wrote to its standard output.
    pub stdout: Vec<u8>,
    /// What the process wrote to its standard error.
    pub stderr: Vec<u8>,
}

/// The command could not be started at all.
#[derive(Clone, Debug, PartialEq, Eq)]
pub struct LaunchError {
    /// Why the program could not be started, in words.
    pub message: String,
}

/// Whether a command was started, ran and exited with success.
pub open spec fn succeeded(result: Result<CommandOutcome, LaunchError>) -> bool {
    result matches Ok(outcome) && outcome.success
}

/// Whether a command was started, ran and exited with success. A command that
/// could not be started and one that exited with a failure both count as failed.
pub fn is_success(result: &Result<CommandOutcome, LaunchError>) -> (ok: bool)
    ensures
        ok == succeeded(*result),
{
    match result {
        Ok(outcome) => outcome.success,
        Err(_) => false,
    }
}

} // verus!
