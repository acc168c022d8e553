//! The run orchestrator: for each user command it decides, step by step, what
//! is to be done next and how the command ends. The driver does what is asked
//! and reports back.

use crate::batch::{chunked, make_batches, make_singles, singles};
use crate::command::{
    availability_probe, copy_names, installed_line, installed_query, outdated_line,
    outdated_query, plain_command, probe_line, tool_line, CommandLine, CommandOutcome,
    CommandSpec, LaunchError, Verb, WorkItem,
};
use crate::config::Config;
use crate::outcome::{lemma_no_failures_iff_all_succeeded, tally, RunResult};
use crate::query::{decode_lossy, listed_names, parse_installed, utf8_lossy, OutdatedPackages};
use vstd::prelude::*;

verus! {

/// What the user asked for.
#[derive(Clone, Debug, PartialEq, Eq)]
pub enum Command {
    /// Refresh the package definitions.
    Update,
    /// Fetch every outdated package in parallel, then upgrade.
    Upgrade,
    /// Install the named packages in parallel batches.
    Install { packages: Vec<String> },
    /// Reinstall the named packages, or with `all` every installed one, in
    /// parallel batches.
    Reinstall { all: bool, packages: Vec<String> },
}

/// How far a command has come.
#[derive(Clone, Copy, Debug, PartialEq, Eq, Structural)]
pub enum Phase {
    /// Waiting to hear whether the package tool is there.
    Probing,
    /// Waiting for the refresh of the package definitions.
    Updating,
    /// Waiting for the answer of a query.
    Querying,
    /// Waiting for the answer of the outdated query to be read.
    Parsing,
    /// Waiting for the parallel run to end.
    Running,
    /// Waiting for the warning on failed fetches to be shown.
    Warning,
    /// Waiting for the final upgrade.
    Upgrading,
    /// The command has ended.
    Done,
}

/// How a command ended.
#[derive(Clone, Debug, PartialEq, Eq)]
pub enum Verdict {
    /// The package definitions are refreshed.
    Updated,
    /// Nothing is outdated.
    UpToDate,
    /// The upgrade is done.
    Upgraded,
    /// Every package was installed or reinstalled.
    Completed { succeeded: usize },
    /// Every installed package was to be reinstalled, and none is installed.
    NothingInstalled,
    /// The package tool is not installed, or not on the search path.
    ToolMissing,
    /// A command that the run depends on could not be started.
    LaunchFailed { command: CommandSpec, message: String },
    /// A command that the run depends on exited with a failure.
    CommandFailed { command: CommandSpec },
    /// A query exited with a failure; `detail` is what it printed on its
    /// standard error.
    QueryFailed { detail: String },
    /// The answer of the outdated query could not be read.
    ParseFailed { message: String },
    /// No package was named where one is needed.
    NoPackages,
    /// Some packages could not be installed or reinstalled.
    PackagesFailed { succeeded: usize, failed: Vec<String> },
    /// The driver reported something that does not answer what was asked.
    Unexpected,
}

/// How a command ended, as plain values.
pub ghost enum VerdictView {
    Updated,
    UpToDate,
    Upgraded,
    Completed { succeeded: nat },
    NothingInstalled,
    ToolMissing,
    LaunchFailed { line: CommandLine, message: Seq<char> },
    CommandFailed { line: CommandLine },
    QueryFailed { detail: Seq<char> },
    ParseFailed { message: Seq<char> },
    NoPackages,
    PackagesFailed { succeeded: nat, failed: Seq<Seq<char>> },
    Unexpected,
}

impl VerdictView {
    /// Whether the command ended well.
    pub open spec fn is_success(self) -> bool {
        self is Updated || self is UpToDate || self is Upgraded || self is Completed
            || self is NothingInstalled
    }

    /// The exit code of the process: zero exactly when the command ended well.
    pub open spec fn exit_code(self) -> u8 {
        if self.is_success() {
            0
        } else {
            1
        }
    }
}

impl DeepView for Verdict {
    type V = VerdictView;

    open spec fn deep_view(&self) -> VerdictView {
        match self {
            Verdict::Updated => VerdictView::Updated,
            Verdict::UpToDate => VerdictView::UpToDate,
            Verdict::Upgraded => VerdictView::Upgraded,
            Verdict::Completed { succeeded } => VerdictView::Completed {
                succeeded: *succeeded as nat,
            },
            Verdict::NothingInstalled => VerdictView::NothingInstalled,
            Verdict::ToolMissing => VerdictView::ToolMissing,
            Verdict::LaunchFailed { command, message } => VerdictView::LaunchFailed {
                line: command.deep_view(),
                message: message@,
            },
            Verdict::CommandFailed { command } => VerdictView::CommandFailed {
                line: command.deep_view(),
            },
            Verdict::QueryFailed { detail } => VerdictView::QueryFailed { detail: detail@ },
            Verdict::ParseFailed { message } => VerdictView::ParseFailed { message: message@ },
            Verdict::NoPackages => VerdictView::NoPackages,
            Verdict::PackagesFailed { succeeded, failed } => VerdictView::PackagesFailed {
                succeeded: *succeeded as nat,
                failed: failed.deep_view(),
            },
            Verdict::Unexpected => VerdictView::Unexpected,
        }
    }
}

impl Verdict {
    /// Whether the command ended well.
    pub fn is_success(&self) -> (ok: bool)
        ensures
            ok == self.deep_view().is_success(),
    {
        match self {
            Verdict::Updated => true,
            Verdict::UpToDate => true,
            Verdict::Upgraded => true,
            Verdict::Completed { .. } => true,
            Verdict::NothingInstalled => true,
            _ => false,
        }
    }

    /// The exit code of the process: zero exactly when the command ended well.
    pub fn exit_code(&self) -> (code: u8)
        ensures
            code == self.deep_view().exit_code(),
    {
        if self.is_success() {
            0
        } else {
            1
        }
    }
}

/// What the orchestrator asks of its driver.
#[derive(Clone, Debug, PartialEq, Eq)]
pub enum Request {
    /// Run `command` to its end and report `Response::Ran`. With `capture` its
    /// output is kept for the report; without, it goes to the user's terminal.
    Run { command: CommandSpec, capture: bool },
    /// Read `stdout` as the answer of the outdated query and report
    /// `Response::Parsed`.
    Parse { stdout: Vec<u8> },
    /// Run `verb` on every one of `items` through an engine with at most `limit`
    /// commands in flight, and report `Response::Executed` with its tally.
    Execute { verb: Verb, items: Vec<WorkItem>, limit: usize },
    /// Warn the user that these packages could not be fetched, and report
    /// `Response::Acknowledged`.
    Warn { failed: Vec<String> },
    /// End the process with this verdict.
    Exit(Verdict),
}

/// What the orchestrator asks of its driver, as plain values.
pub ghost enum RequestView {
    Run { line: CommandLine, capture: bool },
    Parse { stdout: Seq<u8> },
    Execute { verb: Verb, items: Seq<Seq<Seq<char>>>, limit: nat },
    Warn { failed: Seq<Seq<char>> },
    Exit(VerdictView),
}

impl DeepView for Request {
    type V = RequestView;

    open spec fn deep_view(&self) -> RequestView {
        match self {
            Request::Run { command, capture } => RequestView::Run {
                line: command.deep_view(),
                capture: *capture,
            },
            Request::Parse { stdout } => RequestView::Parse { stdout: stdout@ },
            Request::Execute { verb, items, limit } => RequestView::Execute {
                verb: *verb,
                items: items.deep_view(),
                limit: *limit as nat,
            },
            Request::Warn { failed } => RequestView::Warn { failed: failed.deep_view() },
            Request::Exit(verdict) => RequestView::Exit(verdict.deep_view()),
        }
    }
}

impl RequestView {
    /// Whether this asks for a command of the package tool to be run, alone or
    /// as part of a parallel run.
    pub open spec fn invokes_tool(self) -> bool {
        match self {
            RequestView::Run { line, .. } => line.program == crate::command::tool(),
            RequestView::Execute { .. } => true,
            _ => false,
        }
    }
}

/// What the driver reports.
#[derive(Debug)]
pub enum Response {
    /// How the command of a `Request::Run` ended.
    Ran(Result<CommandOutcome, LaunchError>),
    /// The answer of the outdated query, or why it could not be read.
    Parsed(Result<OutdatedPackages, String>),
    /// The tally of the parallel run.
    Executed(RunResult),
    /// The warning was shown.
    Acknowledged,
}

/// The state of a command that is under way, as the contracts speak of it.
pub ghost struct Plan {
    /// What the user asked for.
    pub command: Command,
    /// The bound on commands in flight.
    pub concurrency: nat,
    /// The largest number of packages in one batch.
    pub batch_size: nat,
    /// How far the command has come.
    pub phase: Phase,
}

impl Plan {
    /// The state in which a command starts, and the first thing to do: look for
    /// the package tool.
    pub open spec fn start(command: Command, concurrency: nat, batch_size: nat) -> (
        Plan,
        RequestView,
    ) {
        (
            Plan { command, concurrency, batch_size, phase: Phase::Probing },
            RequestView::Run { line: probe_line(), capture: true },
        )
    }

    /// The command ends with `verdict`.
    pub open spec fn exit(self, verdict: VerdictView) -> (Plan, RequestView) {
        (Plan { phase: Phase::Done, ..self }, RequestView::Exit(verdict))
    }

    /// The command goes on in `phase` with `request`.
    pub open spec fn go(self, phase: Phase, request: RequestView) -> (Plan, RequestView) {
        (Plan { phase, ..self }, request)
    }

    /// The parallel run of `verb` over `names`, cut into batches.
    pub open spec fn run_batches(self, verb: Verb, names: Seq<Seq<char>>) -> (Plan, RequestView) {
        self.go(
            Phase::Running,
            RequestView::Execute {
                verb,
                items: chunked(names, self.batch_size),
                limit: self.concurrency,
            },
        )
    }

    /// A command that the run depends on ended with `result`: the verdict if
    /// that is fatal. `line` is the command's line.
    pub open spec fn fatal(line: CommandLine, result: Result<CommandOutcome, LaunchError>) -> Option<
        VerdictView,
    > {
        match result {
            Err(error) => Some(VerdictView::LaunchFailed { line, message: error.message@ }),
            Ok(outcome) => if outcome.success {
                None
            } else {
                Some(VerdictView::CommandFailed { line })
            },
        }
    }

    /// What follows the availability probe. Without the tool nothing goes on.
    /// With it, update and upgrade refresh the definitions; install and
    /// reinstall need package names, which reinstall with `all` asks the tool
    /// for.
    pub open spec fn after_probe(self, result: Result<CommandOutcome, LaunchError>) -> (
        Plan,
        RequestView,
    ) {
        match result {
            Err(error) => self.exit(
                VerdictView::LaunchFailed { line: probe_line(), message: error.message@ },
            ),
            Ok(outcome) => if !outcome.success {
                self.exit(VerdictView::ToolMissing)
            } else {
                match self.command {
                    Command::Update | Command::Upgrade => self.go(
                        Phase::Updating,
                        RequestView::Run {
                            line: tool_line(Verb::Update, Seq::empty()),
                            capture: false,
                        },
                    ),
                    Command::Install { packages } => if packages.len() == 0 {
                        self.exit(VerdictView::NoPackages)
                    } else {
                        self.run_batches(Verb::Install, packages.deep_view())
                    },
                    Command::Reinstall { all, packages } => if all {
                        self.go(
                            Phase::Querying,
                            RequestView::Run { line: installed_line(), capture: true },
                        )
                    } else if packages.len() == 0 {
                        self.exit(VerdictView::NoPackages)
                    } else {
                        self.run_batches(Verb::Reinstall, packages.deep_view())
                    },
                }
            },
        }
    }

    /// What follows the refresh of the definitions: update is done, upgrade
    /// asks which packages are outdated.
    pub open spec fn after_update(self, result: Result<CommandOutcome, LaunchError>) -> (
        Plan,
        RequestView,
    ) {
        match Plan::fatal(tool_line(Verb::Update, Seq::empty()), result) {
            Some(verdict) => self.exit(verdict),
            None => match self.command {
                Command::Update => self.exit(VerdictView::Updated),
                Command::Upgrade => self.go(
                    Phase::Querying,
                    RequestView::Run { line: outdated_line(), capture: true },
                ),
                _ => self.exit(VerdictView::Unexpected),
            },
        }
    }

    /// The line of the query that the command makes.
    pub open spec fn query_line(self) -> CommandLine {
        match self.command {
            Command::Reinstall { .. } => installed_line(),
            _ => outdated_line(),
        }
    }

    /// What follows once the installed packages are known to be `names`: with
    /// nothing installed the command is done, else every one of them is
    /// reinstalled. This answers only a reinstall that waits for its query.
    pub open spec fn after_listing(self, names: Seq<Seq<char>>) -> (Plan, RequestView) {
        if self.phase is Querying && self.command is Reinstall {
            if names.len() == 0 {
                self.exit(VerdictView::NothingInstalled)
            } else {
                self.run_batches(Verb::Reinstall, names)
            }
        } else {
            self.exit(VerdictView::Unexpected)
        }
    }

    /// What follows a query. A query that failed ends the command. The answer
    /// of the outdated query is handed out to be read; that of the
    /// installed-list query is read here, and every name in it is reinstalled.
    pub open spec fn after_query(self, result: Result<CommandOutcome, LaunchError>) -> (
        Plan,
        RequestView,
    ) {
        match result {
            Err(error) => self.exit(
                VerdictView::LaunchFailed { line: self.query_line(), message: error.message@ },
            ),
            Ok(outcome) => if !outcome.success {
                self.exit(VerdictView::QueryFailed { detail: utf8_lossy(outcome.stderr@) })
            } else {
                match self.command {
                    Command::Upgrade => self.go(
                        Phase::Parsing,
                        RequestView::Parse { stdout: outcome.stdout@ },
                    ),
                    Command::Reinstall { .. } => self.after_listing(
                        listed_names(utf8_lossy(outcome.stdout@)),
                    ),
                    _ => self.exit(VerdictView::Unexpected),
                }
            },
        }
    }

    /// What follows the reading of the outdated query's answer: with nothing
    /// outdated the command is done, else every outdated package is fetched,
    /// each as an item of its own.
    pub open spec fn after_parse(self, parsed: Result<OutdatedPackages, String>) -> (
        Plan,
        RequestView,
    ) {
        match parsed {
            Err(message) => self.exit(VerdictView::ParseFailed { message: message@ }),
            Ok(outdated) => if outdated.spec_names().len() == 0 {
                self.exit(VerdictView::UpToDate)
            } else {
                self.go(
                    Phase::Running,
                    RequestView::Execute {
                        verb: Verb::Fetch,
                        items: singles(outdated.spec_names()),
                        limit: self.concurrency,
                    },
                )
            },
        }
    }

    /// The final upgrade.
    pub open spec fn upgrade(self) -> (Plan, RequestView) {
        self.go(
            Phase::Upgrading,
            RequestView::Run { line: tool_line(Verb::Upgrade, Seq::empty()), capture: false },
        )
    }

    /// What follows the parallel run. Packages that could not be fetched are
    /// a warning, and the upgrade goes on; packages that could not be
    /// installed or reinstalled fail the command.
    pub open spec fn after_run(self, run: RunResult) -> (Plan, RequestView) {
        let summary = run.deep_view();
        match self.command {
            Command::Upgrade => if summary.failed.len() > 0 {
                self.go(Phase::Warning, RequestView::Warn { failed: summary.failed })
            } else {
                self.upgrade()
            },
            Command::Install { .. } | Command::Reinstall { .. } => if summary.failed.len() > 0 {
                self.exit(
                    VerdictView::PackagesFailed {
                        succeeded: summary.succeeded.len(),
                        failed: summary.failed,
                    },
                )
            } else {
                self.exit(VerdictView::Completed { succeeded: summary.succeeded.len() })
            },
            Command::Update => self.exit(VerdictView::Unexpected),
        }
    }

    /// What follows the final upgrade.
    pub open spec fn after_upgrade(self, result: Result<CommandOutcome, LaunchError>) -> (
        Plan,
        RequestView,
    ) {
        match Plan::fatal(tool_line(Verb::Upgrade, Seq::empty()), result) {
            Some(verdict) => self.exit(verdict),
            None => self.exit(VerdictView::Upgraded),
        }
    }

    /// The next state and what is to be done next, given what the driver
    /// reports. A report that does not answer what was asked ends the command.
    pub open spec fn step(self, response: Response) -> (Plan, RequestView) {
        match (self.phase, response) {
            (Phase::Probing, Response::Ran(result)) => self.after_probe(result),
            (Phase::Updating, Response::Ran(result)) => self.after_update(result),
            (Phase::Querying, Response::Ran(result)) => self.after_query(result),
            (Phase::Parsing, Response::Parsed(parsed)) => self.after_parse(parsed),
            (Phase::Running, Response::Executed(run)) => self.after_run(run),
            (Phase::Warning, Response::Acknowledged) => self.upgrade(),
            (Phase::Upgrading, Response::Ran(result)) => self.after_upgrade(result),
            _ => self.exit(VerdictView::Unexpected),
        }
    }
}

/// A command that is under way.
#[derive(Debug)]
pub struct Orchestrator {
    command: Command,
    config: Config,
    phase: Phase,
}

impl DeepView for Orchestrator {
    type V = Plan;

    closed spec fn deep_view(&self) -> Plan {
        Plan {
            command: self.command,
            concurrency: self.config.spec_concurrency(),
            batch_size: self.config.spec_batch_size(),
            phase: self.phase,
        }
    }
}

/// The command ends with `verdict`.
fn exit(command: Command, config: Config, verdict: Verdict) -> (r: (Orchestrator, Request))
    ensures
        r.0.deep_view() == (Plan {
            command,
            concurrency: config.spec_concurrency(),
            batch_size: config.spec_batch_size(),
            phase: Phase::Done,
        }),
        r.1.deep_view() == RequestView::Exit(verdict.deep_view()),
{
    (Orchestrator { command, config, phase: Phase::Done }, Request::Exit(verdict))
}

/// The command goes on in `phase` with `request`.
fn go(command: Command, config: Config, phase: Phase, request: Request) -> (r: (
    Orchestrator,
    Request,
))
    ensures
        r.0.deep_view() == (Plan {
            command,
            concurrency: config.spec_concurrency(),
            batch_size: config.spec_batch_size(),
            phase,
        }),
        r.1 == request,
{
    (Orchestrator { command, config, phase }, request)
}

/// The parallel run of `verb` over `names`, cut into batches.
fn run_batches(command: Command, config: Config, verb: Verb, names: &Vec<String>) -> (r: (
    Orchestrator,
    Request,
))
    ensures
        (r.0.deep_view(), r.1.deep_view()) == (Plan {
            command,
            concurrency: config.spec_concurrency(),
            batch_size: config.spec_batch_size(),
            phase: Phase::Probing,
        }).run_batches(verb, names.deep_view()),
{
    let items = make_batches(names, config.batch_size());
    let limit = config.concurrency();
    go(command, config, Phase::Running, Request::Execute { verb, items, limit })
}

/// The verdict on `command`, which the run depends on, if `result` is fatal.
fn fatal(command: CommandSpec, result: &Result<CommandOutcome, LaunchError>) -> (r: Option<Verdict>)
    ensures
        r.deep_view() == Plan::fatal(command.deep_view(), *result),
{
    match result {
        Err(error) => Some(Verdict::LaunchFailed { command, message: error.message.clone() }),
        Ok(outcome) => if outcome.success {
            None
        } else {
            Some(Verdict::CommandFailed { command })
        },
    }
}

impl Orchestrator {
    /// Starts `command` under the limits of `config`: the state, and the first
    /// thing to do.
    pub fn start(command: Command, config: Config) -> (r: (Orchestrator, Request))
        ensures
            (r.0.deep_view(), r.1.deep_view()) == Plan::start(
                command,
                config.spec_concurrency(),
                config.spec_batch_size(),
            ),
    {
        go(
            command,
            config,
            Phase::Probing,
            Request::Run { command: availability_probe(), capture: true },
        )
    }

    /// How far the command has come.
    pub fn phase(&self) -> (phase: Phase)
        ensures
            phase == self.deep_view().phase,
    {
        self.phase
    }

    /// The next state and what is to be done next once the installed packages
    /// are known to be `names`: with nothing installed the command is done, else
    /// every one of them is reinstalled, in batches. This answers only a
    /// reinstall that waits for its query; any other command ends.
    pub fn listed(self, names: &Vec<String>) -> (r: (Orchestrator, Request))
        ensures
            (r.0.deep_view(), r.1.deep_view()) == self.deep_view().after_listing(
                names.deep_view(),
            ),
    {
        let Orchestrator { command, config, phase } = self;
        let waiting = match (&phase, &command) {
            (Phase::Querying, Command::Reinstall { .. }) => true,
            _ => false,
        };
        if !waiting {
            exit(command, config, Verdict::Unexpected)
        } else if names.len() == 0 {
            exit(command, config, Verdict::NothingInstalled)
        } else {
            run_batches(command, config, Verb::Reinstall, names)
        }
    }

    /// The next state and what is to be done next, given what the driver reports.
    pub fn step(self, response: Response) -> (r: (Orchestrator, Request))
        ensures
            (r.0.deep_view(), r.1.deep_view()) == self.deep_view().step(response),
    {
        let Orchestrator { command, config, phase } = self;
        match (phase, response) {
            (Phase::Probing, Response::Ran(result)) => match result {
                Err(error) => exit(
                    command,
                    config,
                    Verdict::LaunchFailed { command: availability_probe(), message: error.message },
                ),
                Ok(outcome) => if !outcome.success {
                    exit(command, config, Verdict::ToolMissing)
                } else {
                    match &command {
                        Command::Update | Command::Upgrade => go(
                            command,
                            config,
                            Phase::Updating,
                            Request::Run { command: plain_command(Verb::Update), capture: false },
                        ),
                        Command::Install { packages } => if packages.len() == 0 {
                            exit(command, config, Verdict::NoPackages)
                        } else {
                            let names = copy_names(packages);
                            run_batches(command, config, Verb::Install, &names)
                        },
                        Command::Reinstall { all, packages } => if *all {
                            go(
                                command,
                                config,
                                Phase::Querying,
                                Request::Run { command: installed_query(), capture: true },
                            )
                        } else if packages.len() == 0 {
                            exit(command, config, Verdict::NoPackages)
                        } else {
                            let names = copy_names(packages);
                            run_batches(command, config, Verb::Reinstall, &names)
                        },
                    }
                },
            },
            (Phase::Updating, Response::Ran(result)) => match fatal(
                plain_command(Verb::Update),
                &result,
            ) {
                Some(verdict) => exit(command, config, verdict),
                None => match &command {
                    Command::Update => exit(command, config, Verdict::Updated),
                    Command::Upgrade => go(
                        command,
                        config,
                        Phase::Querying,
                        Request::Run { command: outdated_query(), capture: true },
                    ),
                    _ => exit(command, config, Verdict::Unexpected),
                },
            },
            (Phase::Querying, Response::Ran(result)) => match result {
                Err(error) => {
                    let query = match &command {
                        Command::Reinstall { .. } => installed_query(),
                        _ => outdated_query(),
                    };
                    exit(
                        command,
                        config,
                        Verdict::LaunchFailed { command: query, message: error.message },
                    )
                },
                Ok(outcome) => if !outcome.success {
                    let detail = decode_lossy(outcome.stderr.as_slice());
                    exit(command, config, Verdict::QueryFailed { detail })
                } else {
                    match &command {
                        Command::Upgrade => go(
                            command,
                            config,
                            Phase::Parsing,
                            Request::Parse { stdout: outcome.stdout },
                        ),
                        Command::Reinstall { .. } => {
                            let names = parse_installed(outcome.stdout.as_slice());
                            (Orchestrator { command, config, phase }).listed(&names)
                        },
                        _ => exit(command, config, Verdict::Unexpected),
                    }
                },
            },
            (Phase::Parsing, Response::Parsed(parsed)) => match parsed {
                Err(message) => exit(command, config, Verdict::ParseFailed { message }),
                Ok(outdated) => {
                    let names = outdated.names();
                    if names.len() == 0 {
                        exit(command, config, Verdict::UpToDate)
                    } else {
                        let items = make_singles(&names);
                        let limit = config.concurrency();
                        go(
                            command,
                            config,
                            Phase::Running,
                            Request::Execute { verb: Verb::Fetch, items, limit },
                        )
                    }
                },
            },
            (Phase::Running, Response::Executed(run)) => match &command {
                Command::Upgrade => if run.has_failures() {
                    let failed = copy_names(run.failed());
                    go(command, config, Phase::Warning, Request::Warn { failed })
                } else {
                    go(
                        command,
                        config,
                        Phase::Upgrading,
                        Request::Run { command: plain_command(Verb::Upgrade), capture: false },
                    )
                },
                Command::Install { .. } | Command::Reinstall { .. } => {
                    proof {
                        run.lemma_counts();
                    }
                    let succeeded = run.succeeded().len();
                    if run.has_failures() {
                        let failed = copy_names(run.failed());
                        exit(command, config, Verdict::PackagesFailed { succeeded, failed })
                    } else {
                        exit(command, config, Verdict::Completed { succeeded })
                    }
                },
                Command::Update => exit(command, config, Verdict::Unexpected),
            },
            (Phase::Warning, Response::Acknowledged) => go(
                command,
                config,
                Phase::Upgrading,
                Request::Run { command: plain_command(Verb::Upgrade), capture: false },
            ),
            (Phase::Upgrading, Response::Ran(result)) => match fatal(
                plain_command(Verb::Upgrade),
                &result,
            ) {
                Some(verdict) => exit(command, config, verdict),
                None => exit(command, config, Verdict::Upgraded),
            },
            _ => exit(command, config, Verdict::Unexpected),
        }
    }
}

/// Once a command has ended it stays ended: whatever is reported, nothing more
/// is asked but to exit.
pub proof fn lemma_done_is_final(plan: Plan, response: Response)
    requires
        plan.phase is Done,
    ensures
        plan.step(response).0.phase is Done,
        plan.step(response).1 is Exit,
{
}

/// Without the package tool every command fails before anything is run: a
/// probe that fails, or cannot be started, ends the command with a failure.
pub proof fn lemma_tool_missing_is_fatal(plan: Plan, result: Result<CommandOutcome, LaunchError>)
    requires
        plan.phase is Probing,
        !crate::command::succeeded(result),
    ensures
        plan.step(Response::Ran(result)).1 matches RequestView::Exit(verdict)
            && verdict.exit_code() != 0,
        plan.step(Response::Ran(result)).0.phase is Done,
{
}

/// A command starts by looking for the package tool, which is no command
/// of the tool itself.
pub proof fn lemma_start_probes(command: Command, concurrency: nat, batch_size: nat)
    ensures
        Plan::start(command, concurrency, batch_size).1 == (RequestView::Run {
            line: probe_line(),
            capture: true,
        }),
        !Plan::start(command, concurrency, batch_size).1.invokes_tool(),
{
    reveal_strlit("which");
    reveal_strlit("brew");
    assert("which"@.len() != "brew"@.len());
}

/// Install without a package name, and reinstall without a package name and
/// without `all`, are usage errors: once the tool is found the command fails
/// at once, and no command of the tool is run for it.
pub proof fn lemma_no_packages_is_usage_error(
    command: Command,
    concurrency: nat,
    batch_size: nat,
    result: Result<CommandOutcome, LaunchError>,
)
    requires
        match command {
            Command::Install { packages } => packages.len() == 0,
            Command::Reinstall { all, packages } => !all && packages.len() == 0,
            _ => false,
        },
        crate::command::succeeded(result),
    ensures
        !Plan::start(command, concurrency, batch_size).1.invokes_tool(),
        Plan::start(command, concurrency, batch_size).0.step(Response::Ran(result)).1
            == RequestView::Exit(VerdictView::NoPackages),
        VerdictView::NoPackages.exit_code() != 0,
{
    lemma_start_probes(command, concurrency, batch_size);
}

/// Where nothing is outdated the upgrade ends well at once: nothing is
/// fetched, no command is run, and the exit code is zero.
pub proof fn lemma_nothing_outdated_is_up_to_date(plan: Plan, outdated: OutdatedPackages)
    requires
        plan.phase is Parsing,
        outdated.spec_names().len() == 0,
    ensures
        plan.step(Response::Parsed(Ok(outdated))).1 == RequestView::Exit(VerdictView::UpToDate),
        !plan.step(Response::Parsed(Ok(outdated))).1.invokes_tool(),
        plan.step(Response::Parsed(Ok(outdated))).0.phase is Done,
        VerdictView::UpToDate.exit_code() == 0,
{
}

/// An upgrade with nothing outdated, from start to end: the tool is looked for,
/// the definitions are refreshed, the outdated query is made and its answer
/// read, and the command ends well. Nothing is fetched and nothing upgraded.
pub proof fn lemma_upgrade_with_nothing_outdated(
    concurrency: nat,
    batch_size: nat,
    probe: CommandOutcome,
    update: CommandOutcome,
    query: CommandOutcome,
    outdated: OutdatedPackages,
)
    requires
        probe.success,
        update.success,
        query.success,
        outdated.spec_names().len() == 0,
    ensures
        ({
            let first = Plan::start(Command::Upgrade, concurrency, batch_size);
            let second = first.0.step(Response::Ran(Ok(probe)));
            let third = second.0.step(Response::Ran(Ok(update)));
            let fourth = third.0.step(Response::Ran(Ok(query)));
            let last = fourth.0.step(Response::Parsed(Ok(outdated)));
            &&& first.1 == (RequestView::Run { line: probe_line(), capture: true })
            &&& second.1 == (RequestView::Run {
                line: tool_line(Verb::Update, Seq::empty()),
                capture: false,
            })
            &&& third.1 == (RequestView::Run { line: outdated_line(), capture: true })
            &&& fourth.1 == (RequestView::Parse { stdout: query.stdout@ })
            &&& last.1 == RequestView::Exit(VerdictView::UpToDate)
            &&& last.0.phase is Done
            &&& VerdictView::UpToDate.exit_code() == 0
        }),
{
}

/// What is outdated is fetched one package to an item, the formulae first:
/// the items of the fetch, laid end to end, are the outdated names.
pub proof fn lemma_outdated_are_fetched(plan: Plan, outdated: OutdatedPackages)
    requires
        plan.phase is Parsing,
        outdated.spec_names().len() > 0,
    ensures
        plan.step(Response::Parsed(Ok(outdated))).1 matches RequestView::Execute {
            verb,
            items,
            limit,
        } && verb == Verb::Fetch && limit == plan.concurrency && items.flatten()
            == outdated.formulae.deep_view() + outdated.casks.deep_view(),
{
    crate::batch::lemma_singles_partition(outdated.spec_names());
}

/// Packages that could not be fetched do not stop an upgrade: after the
/// fetches the command goes on, with a warning where one is due, and the
/// final upgrade follows.
pub proof fn lemma_fetch_failures_are_warnings(plan: Plan, run: RunResult)
    requires
        plan.phase is Running,
        plan.command is Upgrade,
    ensures
        !(plan.step(Response::Executed(run)).1 is Exit),
        run.deep_view().failed.len() > 0 ==> plan.step(Response::Executed(run)).1
            == (RequestView::Warn { failed: run.deep_view().failed }) && plan.step(
            Response::Executed(run),
        ).0.step(Response::Acknowledged) == plan.upgrade(),
        run.deep_view().failed.len() == 0 ==> plan.step(Response::Executed(run)) == plan.upgrade(),
{
}

/// Install and reinstall end well exactly when no package failed; the
/// verdict counts the packages that succeeded and names those that failed.
pub proof fn lemma_failed_packages_fail_the_command(plan: Plan, run: RunResult)
    requires
        plan.phase is Running,
        plan.command is Install || plan.command is Reinstall,
    ensures
        plan.step(Response::Executed(run)).1 matches RequestView::Exit(verdict) && (
        verdict.exit_code() == 0 <==> run.deep_view().failed.len() == 0),
        run.deep_view().failed.len() > 0 ==> plan.step(Response::Executed(run)).1
            == RequestView::Exit(
            VerdictView::PackagesFailed {
                succeeded: run.deep_view().succeeded.len(),
                failed: run.deep_view().failed,
            },
        ),
{
}

/// Install from end to end: with the tool in place and packages named, the
/// packages are cut into batches that lose none of them, and however the
/// batches end, the command ends well exactly when every batch did.
pub proof fn lemma_install_fails_iff_a_batch_fails(
    packages: Vec<String>,
    concurrency: nat,
    batch_size: nat,
    probe: Result<CommandOutcome, LaunchError>,
    oks: Seq<bool>,
    run: RunResult,
)
    requires
        batch_size >= 1,
        packages.len() > 0,
        crate::command::succeeded(probe),
        run.deep_view() == tally(chunked(packages.deep_view(), batch_size), oks),
    ensures
        ({
            let batches = chunked(packages.deep_view(), batch_size);
            let started = Plan::start(Command::Install { packages }, concurrency, batch_size).0;
            let planned = started.step(Response::Ran(probe));
            let ended = planned.0.step(Response::Executed(run));
            &&& batches.flatten() == packages.deep_view()
            &&& planned.1 == (RequestView::Execute {
                verb: Verb::Install,
                items: batches,
                limit: concurrency,
            })
            &&& ended.1 matches RequestView::Exit(verdict) && (verdict.exit_code() == 0
                <==> forall|k: int| 0 <= k < batches.len() ==> #[trigger] oks[k])
        }),
{
    let batches = chunked(packages.deep_view(), batch_size);
    crate::batch::lemma_batches_partition(packages.deep_view(), batch_size);
    lemma_no_failures_iff_all_succeeded(batches, oks);
}

} // verus!
