//! The rules by which work items are admitted, run and finished, as a state
//! machine over plain values.

use crate::command::{succeeded, tool_line, CommandLine, CommandOutcome, LaunchError, Verb};
use crate::outcome::{tally, RunSummary};
use crate::query::{trimmed, utf8_lossy};
use vstd::prelude::*;

verus! {

/// Where one work item stands.
#[derive(Clone, Copy, Debug, PartialEq, Eq, Structural)]
pub enum SlotState {
    /// Not started yet.
    Pending,
    /// Its command is in flight.
    Running,
    /// Its command ran and exited with success.
    Succeeded,
    /// Its command failed, or could not be started.
    Failed,
}

/// How many of `slots` are running.
pub open spec fn running_count(slots: Seq<SlotState>) -> nat
    decreases slots.len(),
{
    if slots.len() == 0 {
        0
    } else {
        running_count(slots.drop_last()) + if slots.last() is Running {
            1nat
        } else {
            0nat
        }
    }
}

/// What the scheduler asks of its driver.
pub ghost enum ActionView {
    /// Start the command of the item at `index`.
    Launch { index: nat, line: CommandLine },
    /// Nothing can start now: wait until a running command ends.
    Wait,
    /// Every item has ended.
    Finish,
}

/// What the scheduler tells the progress display.
pub ghost enum ProgressView {
    /// Move the progress bar on by this many packages.
    Advance(nat),
    /// Print that this package succeeded.
    Succeeded(Seq<char>),
    /// Print that this package failed.
    Failed(Seq<char>),
    /// Print what the failed command had to say.
    Diagnostic(Seq<char>),
}

/// What a failed command had to say: why it could not be started, or else
/// what it printed on its standard error, read as text, without the white
/// space at the ends.
pub open spec fn failure_text(result: Result<CommandOutcome, LaunchError>) -> Seq<char> {
    match result {
        Err(error) => error.message@,
        Ok(outcome) => trimmed(utf8_lossy(outcome.stderr@)),
    }
}

/// The line that is shown for each name of an item that ended.
pub open spec fn lines_of(names: Seq<Seq<char>>, ok: bool) -> Seq<ProgressView> {
    Seq::new(
        names.len(),
        |k: int|
            if ok {
                ProgressView::Succeeded(names[k])
            } else {
                ProgressView::Failed(names[k])
            },
    )
}

/// What is shown when the command of an item that covers `names` ends with
/// `result`: the bar moves on by the number of names, then one line follows
/// for each name, in order, and after a failure what the command had to say.
pub open spec fn progress_of(names: Seq<Seq<char>>, result: Result<CommandOutcome, LaunchError>) -> Seq<
    ProgressView,
> {
    let shown = seq![ProgressView::Advance(names.len())] + lines_of(names, succeeded(result));
    if succeeded(result) {
        shown
    } else {
        shown.push(ProgressView::Diagnostic(failure_text(result)))
    }
}

/// Something that happens to a schedule.
pub ghost enum Event {
    /// The driver asks what to do next.
    Poll,
    /// The command of the item at `index` ended; `ok` says whether with success.
    Completed { index: nat, ok: bool },
}

/// The state of a run: the items, the bound on commands in flight, and where
/// each item stands. Items start in the order of the list.
pub ghost struct Schedule {
    /// The operation that every item's command performs.
    pub verb: Verb,
    /// The package names of each item.
    pub items: Seq<Seq<Seq<char>>>,
    /// The bound on commands in flight.
    pub limit: nat,
    /// Where each item stands.
    pub slots: Seq<SlotState>,
    /// How many items have been started.
    pub launched: nat,
}

impl Schedule {
    /// The state before anything has started.
    pub open spec fn init(verb: Verb, items: Seq<Seq<Seq<char>>>, limit: nat) -> Schedule {
        Schedule {
            verb,
            items,
            limit,
            slots: Seq::new(items.len(), |i: int| SlotState::Pending),
            launched: 0,
        }
    }

    /// How many commands are in flight.
    pub open spec fn active(self) -> nat {
        running_count(self.slots)
    }

    /// The state is consistent: the first `launched` items, and only they, have
    /// left `Pending`, and no more commands are in flight than the bound allows.
    pub open spec fn wf(self) -> bool {
        &&& self.limit >= 1
        &&& self.slots.len() == self.items.len()
        &&& self.launched <= self.items.len()
        &&& forall|i: int|
            0 <= i < self.slots.len() ==> ((#[trigger] self.slots[i]) is Pending <==> i
                >= self.launched)
        &&& self.active() <= self.limit
    }

    /// Whether another item may start now: one is left, and a slot is free.
    pub open spec fn can_launch(self) -> bool {
        self.launched < self.items.len() && self.active() < self.limit
    }

    /// The state after the next item has started.
    pub open spec fn launch(self) -> Schedule {
        Schedule {
            slots: self.slots.update(self.launched as int, SlotState::Running),
            launched: self.launched + 1,
            ..self
        }
    }

    /// Whether the command of the item at `index` is in flight.
    pub open spec fn is_running(self, index: nat) -> bool {
        index < self.slots.len() && self.slots[index as int] is Running
    }

    /// The state after the command of the item at `index` has ended.
    pub open spec fn complete(self, index: nat, ok: bool) -> Schedule {
        Schedule {
            slots: self.slots.update(
                index as int,
                if ok {
                    SlotState::Succeeded
                } else {
                    SlotState::Failed
                },
            ),
            ..self
        }
    }

    /// What the driver is to do next: start the next item while one is left and
    /// a slot is free; else wait while a command is in flight; else finish.
    pub open spec fn next_action(self) -> ActionView {
        if self.can_launch() {
            ActionView::Launch {
                index: self.launched,
                line: tool_line(self.verb, self.items[self.launched as int]),
            }
        } else if self.active() > 0 {
            ActionView::Wait
        } else {
            ActionView::Finish
        }
    }

    /// The state after the driver has asked what to do next.
    pub open spec fn after_poll(self) -> Schedule {
        if self.can_launch() {
            self.launch()
        } else {
            self
        }
    }

    /// The state after the driver has reported that the command of the item at
    /// `index` ended. A report on an item that is not running changes nothing.
    pub open spec fn after_completion(self, index: nat, ok: bool) -> Schedule {
        if self.is_running(index) {
            self.complete(index, ok)
        } else {
            self
        }
    }

    /// The state after `event`.
    pub open spec fn after(self, event: Event) -> Schedule {
        match event {
            Event::Poll => self.after_poll(),
            Event::Completed { index, ok } => self.after_completion(index, ok),
        }
    }

    /// The state after all of `events`, one after the other.
    pub open spec fn after_all(self, events: Seq<Event>) -> Schedule
        decreases events.len(),
    {
        if events.len() == 0 {
            self
        } else {
            self.after_all(events.drop_last()).after(events.last())
        }
    }

    /// Whether every item has ended.
    pub open spec fn finished(self) -> bool {
        forall|i: int|
            0 <= i < self.slots.len() ==> (#[trigger] self.slots[i]) is Succeeded
                || self.slots[i] is Failed
    }

    /// For each item, whether it has ended with success.
    pub open spec fn oks(self) -> Seq<bool> {
        Seq::new(self.slots.len(), |i: int| self.slots[i] is Succeeded)
    }

    /// The tally of the run as far as it has come: an item counts as a
    /// success once it has ended with success, and as a failure until then.
    pub open spec fn result(self) -> RunSummary {
        tally(self.items, self.oks())
    }
}

/// Replacing one slot changes the number of running items by that slot alone.
pub proof fn lemma_running_count_update(slots: Seq<SlotState>, i: int, state: SlotState)
    requires
        0 <= i < slots.len(),
    ensures
        running_count(slots.update(i, state)) + (if slots[i] is Running {
            1nat
        } else {
            0nat
        }) == running_count(slots) + (if state is Running {
            1nat
        } else {
            0nat
        }),
    decreases slots.len(),
{
    let next = slots.update(i, state);
    if i == slots.len() - 1 {
        assert(next.drop_last() =~= slots.drop_last());
    } else {
        assert(next.drop_last() =~= slots.drop_last().update(i, state));
        lemma_running_count_update(slots.drop_last(), i, state);
    }
}

/// At most as many items are running as there are items, and none is running
/// exactly when no slot says so.
pub proof fn lemma_running_count_bounds(slots: Seq<SlotState>)
    ensures
        running_count(slots) <= slots.len(),
        running_count(slots) == 0 <==> forall|i: int|
            0 <= i < slots.len() ==> !((#[trigger] slots[i]) is Running),
    decreases slots.len(),
{
    if slots.len() > 0 {
        let front = slots.drop_last();
        lemma_running_count_bounds(front);
        if running_count(slots) == 0 {
            assert forall|i: int| 0 <= i < slots.len() implies !((#[trigger] slots[i]) is Running) by {
                if i < front.len() {
                    assert(front[i] == slots[i]);
                }
            }
        }
        if forall|i: int| 0 <= i < slots.len() ==> !((#[trigger] slots[i]) is Running) {
            assert forall|i: int| 0 <= i < front.len() implies !((#[trigger] front[i]) is Running) by {
                assert(front[i] == slots[i]);
            }
        }
    }
}

/// A run starts in a consistent state with no command in flight.
pub proof fn lemma_init_wf(verb: Verb, items: Seq<Seq<Seq<char>>>, limit: nat)
    requires
        limit >= 1,
    ensures
        Schedule::init(verb, items, limit).wf(),
        Schedule::init(verb, items, limit).active() == 0,
{
    let s = Schedule::init(verb, items, limit);
    lemma_running_count_bounds(s.slots);
}

/// Whatever happens to a consistent state leaves it consistent, with the same
/// items and the same bound.
pub proof fn lemma_step_wf(s: Schedule, event: Event)
    requires
        s.wf(),
    ensures
        s.after(event).wf(),
        s.after(event).items == s.items,
        s.after(event).limit == s.limit,
        s.after(event).verb == s.verb,
{
    match event {
        Event::Poll => {
            if s.can_launch() {
                lemma_running_count_update(s.slots, s.launched as int, SlotState::Running);
            }
        },
        Event::Completed { index, ok } => {
            if s.is_running(index) {
                lemma_running_count_update(
                    s.slots,
                    index as int,
                    if ok {
                        SlotState::Succeeded
                    } else {
                        SlotState::Failed
                    },
                );
            }
        },
    }
}

/// Bounded parallelism: whatever the driver does and in whatever order the
/// commands end, never more commands are in flight than the bound allows.
pub proof fn lemma_never_exceeds_limit(
    verb: Verb,
    items: Seq<Seq<Seq<char>>>,
    limit: nat,
    events: Seq<Event>,
)
    requires
        limit >= 1,
    ensures
        Schedule::init(verb, items, limit).after_all(events).wf(),
        Schedule::init(verb, items, limit).after_all(events).active() <= limit,
        Schedule::init(verb, items, limit).after_all(events).items == items,
        Schedule::init(verb, items, limit).after_all(events).limit == limit,
    decreases events.len(),
{
    let start = Schedule::init(verb, items, limit);
    if events.len() == 0 {
        lemma_init_wf(verb, items, limit);
    } else {
        lemma_never_exceeds_limit(verb, items, limit, events.drop_last());
        lemma_step_wf(start.after_all(events.drop_last()), events.last());
    }
}

/// No deadlock and no starvation: in a consistent state that is not finished,
/// either the next item can start at once or a command is in flight, whose end
/// frees a slot. So the driver is told to finish only when every item has ended,
/// and to wait only while something is in flight.
pub proof fn lemma_progress(s: Schedule)
    requires
        s.wf(),
    ensures
        s.next_action() is Finish <==> s.finished(),
        s.next_action() is Wait ==> s.active() > 0,
        s.next_action() is Launch ==> s.active() < s.limit,
        !s.finished() ==> s.can_launch() || s.active() > 0,
{
    lemma_running_count_bounds(s.slots);
    if s.finished() {
        if s.launched < s.items.len() {
            assert(s.slots[s.launched as int] is Pending);
        }
    }
    if !s.can_launch() && s.active() == 0 {
        assert(s.launched == s.items.len());
        assert forall|i: int| 0 <= i < s.slots.len() implies (#[trigger] s.slots[i]) is Succeeded
            || s.slots[i] is Failed by {
            assert(!(s.slots[i] is Pending));
            assert(!(s.slots[i] is Running));
        }
    }
}

/// The order in which two commands end does not matter.
pub proof fn lemma_completions_commute(s: Schedule, i: nat, a: bool, j: nat, b: bool)
    requires
        i != j,
    ensures
        s.after_completion(i, a).after_completion(j, b) == s.after_completion(
            j,
            b,
        ).after_completion(i, a),
{
    let left = s.after_completion(i, a).after_completion(j, b);
    let right = s.after_completion(j, b).after_completion(i, a);
    assert(left.slots =~= right.slots);
}

/// A command that ends does not disturb the start of the next item, and the
/// other way round.
pub proof fn lemma_completion_commutes_with_launch(s: Schedule, i: nat, ok: bool)
    requires
        s.wf(),
        s.is_running(i),
        s.can_launch(),
    ensures
        s.complete(i, ok).launch() == s.launch().complete(i, ok),
{
    assert(s.complete(i, ok).launch().slots =~= s.launch().complete(i, ok).slots);
}

/// How many steps a run still has before it: two for each item that has not
/// started, one for each command in flight.
pub open spec fn work_left(s: Schedule) -> nat {
    (2 * (s.items.len() - s.launched) + s.active()) as nat
}

/// Every run comes to its end: each start of an item and each end of a
/// running command takes one step off the work that is left, nothing adds to
/// it, and no work is left exactly when every item has ended.
pub proof fn lemma_work_decreases(s: Schedule, event: Event)
    requires
        s.wf(),
    ensures
        work_left(s.after(event)) <= work_left(s),
        s.after(event) != s ==> work_left(s.after(event)) + 1 == work_left(s),
        work_left(s) == 0 <==> s.finished(),
{
    lemma_progress(s);
    lemma_running_count_bounds(s.slots);
    match event {
        Event::Poll => {
            if s.can_launch() {
                lemma_running_count_update(s.slots, s.launched as int, SlotState::Running);
            }
        },
        Event::Completed { index, ok } => {
            if s.is_running(index) {
                lemma_running_count_update(
                    s.slots,
                    index as int,
                    if ok {
                        SlotState::Succeeded
                    } else {
                        SlotState::Failed
                    },
                );
            }
        },
    }
}

/// The result of an item is set once: whatever happens after the command of
/// an item has ended, the item stays as it ended.
pub proof fn lemma_results_are_final(s: Schedule, event: Event, i: int)
    requires
        s.wf(),
        0 <= i < s.slots.len(),
        s.slots[i] is Succeeded || s.slots[i] is Failed,
    ensures
        s.after(event).slots[i] == s.slots[i],
{
}

/// The end of a command changes the standing of its own item alone.
pub proof fn lemma_completion_is_local(s: Schedule, index: nat, ok: bool, i: int)
    requires
        s.wf(),
        s.is_running(index),
        0 <= i < s.slots.len(),
    ensures
        i != index ==> s.after_completion(index, ok).slots[i] == s.slots[i],
        i == index ==> s.after_completion(index, ok).slots[i] == if ok {
            SlotState::Succeeded
        } else {
            SlotState::Failed
        },
        s.after_completion(index, ok).active() + 1 == s.active(),
{
    lemma_running_count_update(
        s.slots,
        index as int,
        if ok {
            SlotState::Succeeded
        } else {
            SlotState::Failed
        },
    );
}

/// Once every item has ended nothing changes any more, and the tally stands.
pub proof fn lemma_finished_is_final(s: Schedule, event: Event)
    requires
        s.wf(),
        s.finished(),
    ensures
        s.after(event) == s,
{
    lemma_progress(s);
    match event {
        Event::Poll => {},
        Event::Completed { index, ok } => {
            if index < s.slots.len() {
                assert(s.slots[index as int] is Succeeded || s.slots[index as int] is Failed);
            }
        },
    }
}

} // verus!
