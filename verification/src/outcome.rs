//! What became of each work item, and the tally over a whole run.

use crate::command::{append_names, is_success, succeeded, CommandOutcome, LaunchError, WorkItem};
use vstd::prelude::*;

verus! {

/// What became of one work item. The tool reports only whether the whole
/// command succeeded, so a failed item names all of its packages.
#[derive(Clone, Debug, PartialEq, Eq)]
pub enum ItemResult {
    Succeeded,
    Failed(Vec<String>),
}

impl ItemResult {
    /// Whether this is the result of running an item that covers `names`, given
    /// whether its command succeeded (`ok`).
    pub open spec fn is_result_of(self, names: Seq<Seq<char>>, ok: bool) -> bool {
        match self {
            ItemResult::Succeeded => ok,
            ItemResult::Failed(failed) => !ok && failed.deep_view() == names,
        }
    }

    /// Whether the item succeeded.
    pub fn is_succeeded(&self) -> (ok: bool)
        ensures
            ok == (self is Succeeded),
    {
        match self {
            ItemResult::Succeeded => true,
            ItemResult::Failed(_) => false,
        }
    }
}

/// The result of `item`, given how its command ended: `Succeeded` when the
/// command ran and exited with success, and otherwise a failure that names every
/// package of the item.
pub fn interpret(item: &WorkItem, result: &Result<CommandOutcome, LaunchError>) -> (r: ItemResult)
    ensures
        r.is_result_of(item.deep_view(), succeeded(*result)),
{
    if is_success(result) {
        ItemResult::Succeeded
    } else {
        ItemResult::Failed(item.names())
    }
}

/// The tally of a run as plain values.
pub ghost struct RunSummary {
    /// The names of the packages whose item succeeded.
    pub succeeded: Seq<Seq<char>>,
    /// The names of the packages whose item failed.
    pub failed: Seq<Seq<char>>,
    /// How many package names were attempted.
    pub attempted: nat,
}

impl RunSummary {
    /// The tally of a run in which nothing was attempted.
    pub open spec fn empty() -> RunSummary {
        RunSummary { succeeded: Seq::empty(), failed: Seq::empty(), attempted: 0 }
    }

    /// This tally after one more item that covers `names` ended; `ok` says how.
    pub open spec fn with(self, names: Seq<Seq<char>>, ok: bool) -> RunSummary {
        RunSummary {
            succeeded: if ok {
                self.succeeded + names
            } else {
                self.succeeded
            },
            failed: if ok {
                self.failed
            } else {
                self.failed + names
            },
            attempted: self.attempted + names.len(),
        }
    }
}

/// The names of the items whose flag in `oks` is `want`, item after item in
/// the order of `items`.
pub open spec fn names_where(items: Seq<Seq<Seq<char>>>, oks: Seq<bool>, want: bool) -> Seq<
    Seq<char>,
>
    decreases items.len(),
{
    if items.len() == 0 {
        Seq::empty()
    } else {
        let before = names_where(items.drop_last(), oks, want);
        if oks[items.len() - 1] == want {
            before + items.last()
        } else {
            before
        }
    }
}

/// The tally of a run over `items` in which item `i` succeeded exactly when
/// `oks[i]` holds.
pub open spec fn tally(items: Seq<Seq<Seq<char>>>, oks: Seq<bool>) -> RunSummary {
    RunSummary {
        succeeded: names_where(items, oks, true),
        failed: names_where(items, oks, false),
        attempted: items.flatten().len(),
    }
}

/// Which of `results` are successes.
pub open spec fn success_flags(results: Seq<ItemResult>) -> Seq<bool> {
    Seq::new(results.len(), |i: int| results[i] is Succeeded)
}

/// The tally of a run: the package names that succeeded and those that failed,
/// each in the order of the work items. Every attempted name is in exactly one
/// of the two lists, as often as it was attempted.
#[derive(Debug, PartialEq, Eq)]
pub struct RunResult {
    succeeded: Vec<String>,
    failed: Vec<String>,
}

impl DeepView for RunResult {
    type V = RunSummary;

    closed spec fn deep_view(&self) -> RunSummary {
        RunSummary {
            succeeded: self.succeeded.deep_view(),
            failed: self.failed.deep_view(),
            attempted: (self.succeeded.len() + self.failed.len()) as nat,
        }
    }
}

impl RunResult {
    #[verifier::type_invariant]
    spec fn inv(self) -> bool {
        self.succeeded.len() + self.failed.len() <= usize::MAX
    }

    /// Every tally counts each attempted name once, as a success or as a failure.
    pub proof fn lemma_counts(&self)
        ensures
            self.deep_view().attempted == self.deep_view().succeeded.len()
                + self.deep_view().failed.len(),
    {
    }

    /// The tally of a run in which nothing was attempted yet.
    pub fn new() -> (r: RunResult)
        ensures
            r.deep_view() == RunSummary::empty(),
    {
        let r = RunResult { succeeded: Vec::new(), failed: Vec::new() };
        assert(r.deep_view().succeeded =~= Seq::empty());
        assert(r.deep_view().failed =~= Seq::empty());
        r
    }

    /// This tally after `item` ended with `result`: every name of the item joins
    /// the successes, or every name joins the failures.
    pub fn record(self, item: &WorkItem, result: &ItemResult) -> (r: RunResult)
        requires
            self.deep_view().attempted + item.deep_view().len() <= usize::MAX,
        ensures
            r.deep_view() == self.deep_view().with(item.deep_view(), result is Succeeded),
    {
        proof {
            use_type_invariant(&self);
        }
        let ghost before = self.deep_view();
        let RunResult { mut succeeded, mut failed } = self;
        let names = item.names();
        if result.is_succeeded() {
            append_names(&mut succeeded, &names);
        } else {
            append_names(&mut failed, &names);
        }
        assert(succeeded.deep_view().len() + failed.deep_view().len() == before.attempted
            + names.deep_view().len());
        RunResult { succeeded, failed }
    }

    /// The tally of a run over `items` whose results are `results`, item by item.
    /// There is none when the two lists differ in length, or when the names are
    /// more than the machine can count.
    pub fn aggregate(items: &Vec<WorkItem>, results: &Vec<ItemResult>) -> (r: Option<RunResult>)
        ensures
            r is Some <==> items.len() == results.len() && items.deep_view().flatten().len()
                <= usize::MAX,
            r matches Some(run) ==> run.deep_view() == tally(
                items.deep_view(),
                success_flags(results@),
            ),
    {
        if items.len() != results.len() {
            return None;
        }
        let ghost all = items.deep_view();
        let ghost oks = success_flags(results@);
        let mut run = RunResult::new();
        let mut i: usize = 0;
        proof {
            assert(all.take(0) =~= Seq::<Seq<Seq<char>>>::empty());
            assert(all.take(0).flatten() =~= Seq::<Seq<char>>::empty());
        }
        while i < items.len()
            invariant
                i <= items.len(),
                items.len() == results.len(),
                all == items.deep_view(),
                oks == success_flags(results@),
                run.deep_view() == tally(all.take(i as int), oks),
            decreases items.len() - i,
        {
            let ghost done = all.take(i as int);
            let ghost next = all.take(i + 1);
            proof {
                assert(next.drop_last() =~= done);
                assert(next.last() == all[i as int]);
                assert(all[i as int] == items[i as int].deep_view());
                lemma_flatten_take(all, i as int);
                lemma_flatten_prefix_len(all, i + 1);
            }
            if items[i].count() > usize::MAX - run.attempted() {
                return None;
            }
            run = run.record(&items[i], &results[i]);
            i += 1;
        }
        proof {
            assert(all.take(i as int) =~= all);
            use_type_invariant(&run);
        }
        Some(run)
    }

    /// The names of the packages that succeeded, in the order of the work items.
    pub fn succeeded(&self) -> (names: &Vec<String>)
        ensures
            names.deep_view() == self.deep_view().succeeded,
    {
        &self.succeeded
    }

    /// The names of the packages that failed, in the order of the work items.
    pub fn failed(&self) -> (names: &Vec<String>)
        ensures
            names.deep_view() == self.deep_view().failed,
    {
        &self.failed
    }

    /// How many package names were attempted.
    pub fn attempted(&self) -> (n: usize)
        ensures
            n == self.deep_view().attempted,
    {
        proof {
            use_type_invariant(self);
        }
        self.succeeded.len() + self.failed.len()
    }

    /// Whether any package failed.
    pub fn has_failures(&self) -> (b: bool)
        ensures
            b == (self.deep_view().failed.len() > 0),
    {
        self.failed.len() > 0
    }
}

/// The names of the first `n + 1` items are those of the first `n`, then
/// those of item `n`.
pub proof fn lemma_flatten_take(items: Seq<Seq<Seq<char>>>, n: int)
    requires
        0 <= n < items.len(),
    ensures
        items.take(n + 1).flatten() == items.take(n).flatten() + items[n],
{
    assert(items.take(n + 1) =~= items.take(n).push(items[n]));
    items.take(n).lemma_flatten_push(items[n]);
}

/// A list of items has at least as many names as any of its prefixes.
pub proof fn lemma_flatten_prefix_len(items: Seq<Seq<Seq<char>>>, n: int)
    requires
        0 <= n <= items.len(),
    ensures
        items.take(n).flatten().len() <= items.flatten().len(),
    decreases items.len() - n,
{
    if n == items.len() {
        assert(items.take(n) =~= items);
    } else {
        lemma_flatten_take(items, n);
        lemma_flatten_prefix_len(items, n + 1);
    }
}

/// A name is among those of the items flagged `want` exactly when some item
/// with that flag covers it.
pub proof fn lemma_names_where_contains(
    items: Seq<Seq<Seq<char>>>,
    oks: Seq<bool>,
    want: bool,
    name: Seq<char>,
)
    ensures
        names_where(items, oks, want).contains(name) <==> exists|i: int|
            0 <= i < items.len() && oks[i] == want && (#[trigger] items[i]).contains(name),
    decreases items.len(),
{
    let all = names_where(items, oks, want);
    if items.len() == 0 {
    } else {
        let front = items.drop_last();
        let before = names_where(front, oks, want);
        let n = items.len() - 1;
        lemma_names_where_contains(front, oks, want, name);
        if all.contains(name) {
            let k = choose|k: int| 0 <= k < all.len() && all[k] == name;
            if k < before.len() {
                if oks[n] == want {
                    assert(before[k] == name);
                }
                assert(before.contains(name));
                let i = choose|i: int|
                    0 <= i < front.len() && oks[i] == want && (#[trigger] front[i]).contains(name);
                assert(items[i] == front[i]);
            } else {
                assert(items[n][k - before.len()] == name);
                assert(items[n].contains(name));
            }
        }
        if exists|i: int|
            0 <= i < items.len() && oks[i] == want && (#[trigger] items[i]).contains(name) {
            let i = choose|i: int|
                0 <= i < items.len() && oks[i] == want && (#[trigger] items[i]).contains(name);
            if i < n {
                assert(front[i] == items[i]);
                assert(before.contains(name));
                let k = choose|k: int| 0 <= k < before.len() && before[k] == name;
                assert(all[k] == name);
            } else {
                let k = choose|k: int| 0 <= k < items[n].len() && items[n][k] == name;
                assert(all[before.len() + k] == name);
            }
        }
    }
}

/// No name is lost and none is counted twice: the successes and the failures
/// of a tally, taken together, hold every attempted name exactly as often as the
/// work items do.
pub proof fn lemma_tally_covers(items: Seq<Seq<Seq<char>>>, oks: Seq<bool>)
    ensures
        tally(items, oks).succeeded.to_multiset().add(tally(items, oks).failed.to_multiset())
            == items.flatten().to_multiset(),
        tally(items, oks).succeeded.to_set().union(tally(items, oks).failed.to_set())
            == items.flatten().to_set(),
        tally(items, oks).succeeded.len() + tally(items, oks).failed.len() == tally(
            items,
            oks,
        ).attempted,
    decreases items.len(),
{
    broadcast use vstd::seq_lib::group_to_multiset_ensures;

    let good = names_where(items, oks, true);
    let bad = names_where(items, oks, false);
    items.lemma_flatten_and_flatten_alt_are_equivalent();
    if items.len() == 0 {
        assert(good.to_multiset().add(bad.to_multiset()) =~= items.flatten().to_multiset());
    } else {
        let front = items.drop_last();
        let last = items.last();
        front.lemma_flatten_and_flatten_alt_are_equivalent();
        lemma_tally_covers(front, oks);
        let good0 = names_where(front, oks, true);
        let bad0 = names_where(front, oks, false);
        assert(items.flatten() == front.flatten() + last);
        vstd::seq_lib::lemma_multiset_commutative(front.flatten(), last);
        vstd::seq_lib::lemma_multiset_commutative(good0, last);
        vstd::seq_lib::lemma_multiset_commutative(bad0, last);
        assert(good.to_multiset().add(bad.to_multiset()) =~= items.flatten().to_multiset());
    }
    assert(good.len() + bad.len() == items.flatten().len()) by {
        assert(good.to_multiset().add(bad.to_multiset()).len() == good.to_multiset().len()
            + bad.to_multiset().len());
    }
    assert forall|name: Seq<char>|
        good.to_set().union(bad.to_set()).contains(name) == items.flatten().to_set().contains(
            name,
        ) by {
        assert(good.to_multiset().add(bad.to_multiset()).count(name) == good.to_multiset().count(
            name,
        ) + bad.to_multiset().count(name));
    }
    assert(good.to_set().union(bad.to_set()) =~= items.flatten().to_set());
}

/// The successes and the failures of a tally share no name exactly when no
/// item that succeeded shares a name with an item that failed.
pub proof fn lemma_tally_disjoint(items: Seq<Seq<Seq<char>>>, oks: Seq<bool>)
    ensures
        tally(items, oks).succeeded.to_set().disjoint(tally(items, oks).failed.to_set())
            <==> forall|i: int, j: int|
            0 <= i < items.len() && 0 <= j < items.len() && oks[i] && !oks[j] ==> (
            #[trigger] items[i]).to_set().disjoint((#[trigger] items[j]).to_set()),
{
    let good = names_where(items, oks, true);
    let bad = names_where(items, oks, false);
    if good.to_set().disjoint(bad.to_set()) {
        assert forall|i: int, j: int|
            0 <= i < items.len() && 0 <= j < items.len() && oks[i] && !oks[j] implies (
        #[trigger] items[i]).to_set().disjoint((#[trigger] items[j]).to_set()) by {
            assert forall|name: Seq<char>|
                !(items[i].to_set().contains(name) && items[j].to_set().contains(name)) by {
                if items[i].contains(name) && items[j].contains(name) {
                    lemma_names_where_contains(items, oks, true, name);
                    lemma_names_where_contains(items, oks, false, name);
                    assert(good.to_set().contains(name) && bad.to_set().contains(name));
                }
            }
        }
    }
    if forall|i: int, j: int|
        0 <= i < items.len() && 0 <= j < items.len() && oks[i] && !oks[j] ==> (
        #[trigger] items[i]).to_set().disjoint((#[trigger] items[j]).to_set()) {
        assert forall|name: Seq<char>|
            !(good.to_set().contains(name) && bad.to_set().contains(name)) by {
            if good.contains(name) && bad.contains(name) {
                lemma_names_where_contains(items, oks, true, name);
                lemma_names_where_contains(items, oks, false, name);
                let i = choose|i: int|
                    0 <= i < items.len() && oks[i] == true && (#[trigger] items[i]).contains(name);
                let j = choose|j: int|
                    0 <= j < items.len() && oks[j] == false && (#[trigger] items[j]).contains(
                        name,
                    );
                assert(items[i].to_set().disjoint(items[j].to_set()));
                assert(items[i].to_set().contains(name));
                assert(items[j].to_set().contains(name));
            }
        }
    }
}

/// Where no package is named twice over all the items, no name is both among
/// the successes and among the failures.
pub proof fn lemma_tally_disjoint_when_distinct(items: Seq<Seq<Seq<char>>>, oks: Seq<bool>)
    requires
        items.flatten().no_duplicates(),
    ensures
        tally(items, oks).succeeded.to_set().disjoint(tally(items, oks).failed.to_set()),
{
    broadcast use vstd::seq_lib::group_to_multiset_ensures;

    let good = names_where(items, oks, true);
    let bad = names_where(items, oks, false);
    lemma_tally_covers(items, oks);
    items.flatten().lemma_multiset_has_no_duplicates();
    assert forall|name: Seq<char>|
        !(good.to_set().contains(name) && bad.to_set().contains(name)) by {
        assert(good.to_multiset().add(bad.to_multiset()).count(name) == good.to_multiset().count(
            name,
        ) + bad.to_multiset().count(name));
        assert(items.flatten().to_multiset().count(name) <= 1);
    }
}

/// A failing item fails as a whole: every name that it covers is among the
/// failures. In the same way every name of an item that succeeded is among the
/// successes.
pub proof fn lemma_item_counts_whole(items: Seq<Seq<Seq<char>>>, oks: Seq<bool>, i: int)
    requires
        0 <= i < items.len(),
    ensures
        !oks[i] ==> forall|k: int|
            0 <= k < items[i].len() ==> tally(items, oks).failed.contains(#[trigger] items[i][k]),
        oks[i] ==> forall|k: int|
            0 <= k < items[i].len() ==> tally(items, oks).succeeded.contains(
                #[trigger] items[i][k],
            ),
{
    assert forall|k: int| 0 <= k < items[i].len() implies names_where(
        items,
        oks,
        oks[i],
    ).contains(#[trigger] items[i][k]) by {
        assert(items[i].contains(items[i][k]));
        lemma_names_where_contains(items, oks, oks[i], items[i][k]);
    }
}

/// Where every item covers at least one name, a run has no failures exactly
/// when every item succeeded.
pub proof fn lemma_no_failures_iff_all_succeeded(items: Seq<Seq<Seq<char>>>, oks: Seq<bool>)
    requires
        forall|i: int| 0 <= i < items.len() ==> (#[trigger] items[i]).len() >= 1,
    ensures
        tally(items, oks).failed.len() == 0 <==> forall|i: int|
            0 <= i < items.len() ==> #[trigger] oks[i],
    decreases items.len(),
{
    if items.len() > 0 {
        let front = items.drop_last();
        let n = items.len() - 1;
        assert forall|i: int| 0 <= i < front.len() implies (#[trigger] front[i]).len() >= 1 by {
            assert(front[i] == items[i]);
        }
        lemma_no_failures_iff_all_succeeded(front, oks);
        assert(items[n].len() >= 1);
        if forall|i: int| 0 <= i < items.len() ==> #[trigger] oks[i] {
            assert(oks[n]);
            assert forall|i: int| 0 <= i < front.len() implies #[trigger] oks[i] by {
                assert(oks[i]);
            }
        }
        if tally(items, oks).failed.len() == 0 {
            assert forall|i: int| 0 <= i < items.len() implies #[trigger] oks[i] by {
                if i < n {
                    assert(oks[i]);
                }
            }
        }
    }
}

} // verus!
