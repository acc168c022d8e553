//! The batch execution engine: it decides which command starts next, takes in
//! how each command ended, and tallies the run when every item has ended. The
//! driver starts the commands and waits for them.

use crate::command::{
    is_success, item_command, succeeded, CommandOutcome, CommandSpec, LaunchError, Verb, WorkItem,
};
use crate::limiter::Limiter;
use crate::outcome::{
    interpret, lemma_flatten_prefix_len, lemma_flatten_take, tally, ItemResult, RunResult,
};
use crate::query::{decode_lossy, trim_text};
use crate::schedule::{
    failure_text, lemma_running_count_bounds, lemma_running_count_update, lines_of, progress_of,
    running_count, ActionView, ProgressView, Schedule, SlotState,
};
use vstd::prelude::*;

verus! {

/// What the engine asks of its driver.
#[derive(Clone, Debug, PartialEq, Eq)]
pub enum Action {
    /// Start `command`, the command of the item at `index`, and report how it
    /// ended with `Engine::complete`.
    Launch { index: usize, command: CommandSpec },
    /// Nothing can start now: wait until a running command ends.
    Wait,
    /// Every item has ended: the tally can be taken.
    Finish,
}

impl DeepView for Action {
    type V = ActionView;

    open spec fn deep_view(&self) -> ActionView {
        match self {
            Action::Launch { index, command } => ActionView::Launch {
                index: *index as nat,
                line: command.deep_view(),
            },
            Action::Wait => ActionView::Wait,
            Action::Finish => ActionView::Finish,
        }
    }
}

/// What the engine tells the progress display.
#[derive(Clone, Debug, PartialEq, Eq)]
pub enum ProgressEvent {
    /// Move the progress bar on by this many packages.
    Advance(usize),
    /// Print that this package succeeded.
    Succeeded(String),
    /// Print that this package failed.
    Failed(String),
    /// Print what the failed command had to say.
    Diagnostic(String),
}

impl DeepView for ProgressEvent {
    type V = ProgressView;

    open spec fn deep_view(&self) -> ProgressView {
        match self {
            ProgressEvent::Advance(n) => ProgressView::Advance(*n as nat),
            ProgressEvent::Succeeded(name) => ProgressView::Succeeded(name@),
            ProgressEvent::Failed(name) => ProgressView::Failed(name@),
            ProgressEvent::Diagnostic(text) => ProgressView::Diagnostic(text@),
        }
    }
}

/// What a failed command had to say: why it could not be started, or else
/// what it printed on its standard error, without the white space at the ends.
pub fn failure_detail(result: &Result<CommandOutcome, LaunchError>) -> (text: String)
    ensures
        text@ == failure_text(*result),
{
    match result {
        Err(error) => error.message.clone(),
        Ok(outcome) => {
            let raw = decode_lossy(outcome.stderr.as_slice());
            trim_text(raw.as_str())
        },
    }
}

/// What is shown when the command of `item` ends with `result`: the bar moves
/// on by the number of its packages, then one line follows for each of them,
/// in order, and after a failure what the command had to say.
pub fn progress_events(item: &WorkItem, result: &Result<CommandOutcome, LaunchError>) -> (events:
    Vec<ProgressEvent>)
    ensures
        events.deep_view() == progress_of(item.deep_view(), *result),
{
    let ok = is_success(result);
    let names = item.names();
    let mut events: Vec<ProgressEvent> = Vec::new();
    events.push(ProgressEvent::Advance(names.len()));
    let mut k: usize = 0;
    while k < names.len()
        invariant
            k <= names.len(),
            names.deep_view() == item.deep_view(),
            events.len() == k + 1,
            events[0] == ProgressEvent::Advance(names.len()),
            forall|j: int|
                0 <= j < k ==> (#[trigger] events[j + 1]).deep_view() == if ok {
                    ProgressView::Succeeded(names[j]@)
                } else {
                    ProgressView::Failed(names[j]@)
                },
        decreases names.len() - k,
    {
        let name = names[k].clone();
        if ok {
            events.push(ProgressEvent::Succeeded(name));
        } else {
            events.push(ProgressEvent::Failed(name));
        }
        k += 1;
    }
    let ghost shown = seq![ProgressView::Advance(item.deep_view().len())] + lines_of(
        item.deep_view(),
        ok,
    );
    proof {
        assert(events.deep_view().len() == shown.len());
        assert forall|j: int| 0 <= j < shown.len() implies events.deep_view()[j] == shown[j] by {
            if j > 0 {
                assert(events[(j - 1) + 1].deep_view() == shown[j]);
            }
        }
        assert(events.deep_view() =~= shown);
    }
    if !ok {
        events.push(ProgressEvent::Diagnostic(failure_detail(result)));
        assert(events.deep_view() =~= shown.push(ProgressView::Diagnostic(failure_text(*result))));
    }
    events
}

/// How many package names `items` cover, if the machine can count them.
pub fn total_names(items: &Vec<WorkItem>) -> (r: Option<usize>)
    ensures
        r is Some <==> items.deep_view().flatten().len() <= usize::MAX,
        r matches Some(n) ==> n == items.deep_view().flatten().len(),
{
    let ghost all = items.deep_view();
    let mut total: usize = 0;
    let mut i: usize = 0;
    proof {
        assert(all.take(0) =~= Seq::<Seq<Seq<char>>>::empty());
        assert(all.take(0).flatten() =~= Seq::<Seq<char>>::empty());
    }
    while i < items.len()
        invariant
            i <= items.len(),
            all == items.deep_view(),
            total == all.take(i as int).flatten().len(),
        decreases items.len() - i,
    {
        proof {
            lemma_flatten_take(all, i as int);
            lemma_flatten_prefix_len(all, i + 1);
        }
        let n = items[i].count();
        if n > usize::MAX - total {
            return None;
        }
        total = total + n;
        i += 1;
    }
    proof {
        assert(all.take(i as int) =~= all);
    }
    Some(total)
}

/// Where one item stands, with its result once it has one.
#[derive(Debug)]
enum Slot {
    Pending,
    Running,
    Done(ItemResult),
}

/// The engine that drives a list of work items through the package tool, with
/// a bound on how many commands are in flight at once.
///
/// The driver asks `poll` what to do, starts the commands that `poll` hands
/// out, and reports each command's end to `complete`. When `poll` answers
/// `Finish`, `finish` gives the tally.
#[derive(Debug)]
pub struct Engine {
    verb: Verb,
    items: Vec<WorkItem>,
    limiter: Limiter,
    slots: Vec<Slot>,
    launched: usize,
    total: usize,
}

spec fn slot_state(slot: Slot) -> SlotState {
    match slot {
        Slot::Pending => SlotState::Pending,
        Slot::Running => SlotState::Running,
        Slot::Done(ItemResult::Succeeded) => SlotState::Succeeded,
        Slot::Done(ItemResult::Failed(_)) => SlotState::Failed,
    }
}

spec fn slot_states(slots: Seq<Slot>) -> Seq<SlotState> {
    Seq::new(slots.len(), |i: int| slot_state(slots[i]))
}

impl DeepView for Engine {
    type V = Schedule;

    closed spec fn deep_view(&self) -> Schedule {
        Schedule {
            verb: self.verb,
            items: self.items.deep_view(),
            limit: self.limiter.spec_limit(),
            slots: slot_states(self.slots@),
            launched: self.launched as nat,
        }
    }
}

impl Engine {
    #[verifier::type_invariant]
    spec fn inv(self) -> bool {
        &&& self.deep_view().wf()
        &&& self.limiter.spec_in_flight() == running_count(slot_states(self.slots@))
        &&& self.total == self.items.deep_view().flatten().len()
    }

    /// An engine that runs `verb` on each of `items` with at most `limit`
    /// commands in flight, before anything has started. There is none when
    /// `limit` is zero, or when the names are more than the machine can count.
    pub fn new(verb: Verb, items: Vec<WorkItem>, limit: usize) -> (r: Option<Engine>)
        ensures
            r is Some <==> limit >= 1 && items.deep_view().flatten().len() <= usize::MAX,
            r matches Some(engine) ==> engine.deep_view() == Schedule::init(
                verb,
                items.deep_view(),
                limit as nat,
            ),
    {
        let limiter = match Limiter::new(limit) {
            Some(limiter) => limiter,
            None => {
                return None;
            },
        };
        let total = match total_names(&items) {
            Some(total) => total,
            None => {
                return None;
            },
        };
        let mut slots: Vec<Slot> = Vec::new();
        let mut i: usize = 0;
        while i < items.len()
            invariant
                i <= items.len(),
                slots.len() == i,
                forall|k: int| 0 <= k < i ==> slots[k] is Pending,
            decreases items.len() - i,
        {
            slots.push(Slot::Pending);
            i += 1;
        }
        proof {
            let start = Schedule::init(verb, items.deep_view(), limit as nat);
            assert(slot_states(slots@) =~= start.slots);
            lemma_running_count_bounds(start.slots);
        }
        Some(Engine { verb, items, limiter, slots, launched: 0, total })
    }

    /// What to do next. Where the answer is `Launch`, the item counts as
    /// running from now on.
    pub fn poll(self) -> (r: (Engine, Action))
        ensures
            r.0.deep_view() == self.deep_view().after_poll(),
            r.1.deep_view() == self.deep_view().next_action(),
            r.0.deep_view().wf(),
    {
        proof {
            use_type_invariant(&self);
        }
        let ghost before = self.deep_view();
        let Engine { verb, items, mut limiter, mut slots, launched, total } = self;
        if launched < items.len() && limiter.try_acquire() {
            let command = item_command(verb, &items[launched]);
            proof {
                lemma_running_count_update(before.slots, launched as int, SlotState::Running);
            }
            slots.set(launched, Slot::Running);
            assert(slot_states(slots@) =~= before.slots.update(
                launched as int,
                SlotState::Running,
            ));
            let engine = Engine { verb, items, limiter, slots, launched: launched + 1, total };
            (engine, Action::Launch { index: launched, command })
        } else {
            let action = if limiter.in_flight() > 0 {
                Action::Wait
            } else {
                Action::Finish
            };
            (Engine { verb, items, limiter, slots, launched, total }, action)
        }
    }

    /// Takes in that the command of the item at `index` ended with `result`,
    /// frees its slot, and returns what to show of it. Where that item is not
    /// running, nothing changes and nothing is shown.
    pub fn complete(self, index: usize, result: &Result<CommandOutcome, LaunchError>) -> (r: (
        Engine,
        Option<Vec<ProgressEvent>>,
    ))
        ensures
            r.0.deep_view() == self.deep_view().after_completion(index as nat, succeeded(*result)),
            r.0.deep_view().wf(),
            r.1 is Some <==> self.deep_view().is_running(index as nat),
            r.1 matches Some(events) ==> events.deep_view() == progress_of(
                self.deep_view().items[index as int],
                *result,
            ),
    {
        proof {
            use_type_invariant(&self);
        }
        let ghost before = self.deep_view();
        let Engine { verb, items, mut limiter, mut slots, launched, total } = self;
        let running = index < slots.len() && match &slots[index] {
            Slot::Running => true,
            _ => false,
        };
        if running {
            let item_result = interpret(&items[index], result);
            let ok = item_result.is_succeeded();
            let events = progress_events(&items[index], result);
            proof {
                lemma_running_count_update(
                    before.slots,
                    index as int,
                    if ok {
                        SlotState::Succeeded
                    } else {
                        SlotState::Failed
                    },
                );
            }
            slots.set(index, Slot::Done(item_result));
            limiter.release();
            assert(slot_states(slots@) =~= before.complete(index as nat, ok).slots);
            (Engine { verb, items, limiter, slots, launched, total }, Some(events))
        } else {
            (Engine { verb, items, limiter, slots, launched, total }, None)
        }
    }

    /// The tally of the run, once every item has ended. Until then there is none.
    pub fn finish(&self) -> (r: Option<RunResult>)
        ensures
            r is Some <==> self.deep_view().finished(),
            r matches Some(run) ==> run.deep_view() == self.deep_view().result(),
    {
        proof {
            use_type_invariant(self);
            crate::schedule::lemma_progress(self.deep_view());
        }
        if self.launched < self.items.len() || self.limiter.in_flight() > 0 {
            return None;
        }
        let ghost state = self.deep_view();
        let ghost all = state.items;
        let ghost oks = state.oks();
        let mut run = RunResult::new();
        let mut i: usize = 0;
        proof {
            assert(all.take(0) =~= Seq::<Seq<Seq<char>>>::empty());
            assert(all.take(0).flatten() =~= Seq::<Seq<char>>::empty());
        }
        while i < self.items.len()
            invariant
                i <= self.items.len(),
                state == self.deep_view(),
                state.wf(),
                state.finished(),
                all == state.items,
                oks == state.oks(),
                all.flatten().len() <= usize::MAX,
                run.deep_view() == tally(all.take(i as int), oks),
            decreases self.items.len() - i,
        {
            proof {
                assert(all.take(i + 1).drop_last() =~= all.take(i as int));
                lemma_flatten_take(all, i as int);
                lemma_flatten_prefix_len(all, i + 1);
                assert(state.slots[i as int] is Succeeded || state.slots[i as int] is Failed);
            }
            match &self.slots[i] {
                Slot::Done(item_result) => {
                    run = run.record(&self.items[i], item_result);
                },
                _ => {
                    assert(false);
                },
            }
            i += 1;
        }
        proof {
            assert(all.take(i as int) =~= all);
        }
        Some(run)
    }

    /// The number of work items.
    pub fn len(&self) -> (n: usize)
        ensures
            n == self.deep_view().items.len(),
    {
        self.items.len()
    }

    /// How many package names the items cover: the length of the progress bar.
    pub fn total(&self) -> (n: usize)
        ensures
            n == self.deep_view().items.flatten().len(),
    {
        proof {
            use_type_invariant(self);
        }
        self.total
    }

    /// The bound on commands in flight, at least one.
    pub fn limit(&self) -> (n: usize)
        ensures
            n == self.deep_view().limit,
            n >= 1,
    {
        self.limiter.limit()
    }

    /// How many commands are in flight, never more than the bound.
    pub fn active(&self) -> (n: usize)
        ensures
            n == self.deep_view().active(),
            n <= self.deep_view().limit,
    {
        proof {
            use_type_invariant(self);
        }
        self.limiter.in_flight()
    }

    /// Where the item at `index` stands; `None` where there is no such item.
    pub fn state_of(&self, index: usize) -> (r: Option<SlotState>)
        ensures
            r is Some <==> index < self.deep_view().slots.len(),
            r matches Some(state) ==> state == self.deep_view().slots[index as int],
    {
        if index < self.slots.len() {
            Some(
                match &self.slots[index] {
                    Slot::Pending => SlotState::Pending,
                    Slot::Running => SlotState::Running,
                    Slot::Done(ItemResult::Succeeded) => SlotState::Succeeded,
                    Slot::Done(ItemResult::Failed(_)) => SlotState::Failed,
                },
            )
        } else {
            None
        }
    }
}

} // verus!
