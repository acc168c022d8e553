//! Cutting a list of package names into batches of bounded size.

use crate::command::WorkItem;
use vstd::prelude::*;

verus! {

/// `names` cut into consecutive runs of `size` names; only the last run may be
/// shorter. Nothing is cut where there are no names or where `size` is zero.
pub open spec fn chunked(names: Seq<Seq<char>>, size: nat) -> Seq<Seq<Seq<char>>>
    decreases names.len(),
{
    if names.len() == 0 || size == 0 {
        Seq::empty()
    } else if names.len() <= size {
        seq![names]
    } else {
        seq![names.take(size as int)] + chunked(names.skip(size as int), size)
    }
}

/// The names of `packages` cut into batches of `size` names each, in order; the
/// last batch holds what is left.
pub fn make_batches(packages: &Vec<String>, size: usize) -> (batches: Vec<WorkItem>)
    requires
        size >= 1,
    ensures
        batches.deep_view() == chunked(packages.deep_view(), size as nat),
        batches.deep_view().flatten() == packages.deep_view(),
        forall|k: int|
            0 <= k < batches.len() ==> (#[trigger] batches[k]) is Batch
                && batches[k].well_formed(),
        forall|k: int|
            0 <= k < batches.len() ==> 1 <= (#[trigger] batches.deep_view()[k]).len() <= size,
        forall|k: int|
            0 <= k < batches.len() - 1 ==> (#[trigger] batches.deep_view()[k]).len() == size,
{
    let ghost names = packages.deep_view();
    let mut batches: Vec<WorkItem> = Vec::new();
    let mut start: usize = 0;
    proof {
        assert(names.skip(0) =~= names);
        assert(batches.deep_view() + chunked(names, size as nat) =~= chunked(names, size as nat));
    }
    while start < packages.len()
        invariant
            size >= 1,
            names == packages.deep_view(),
            start <= packages.len(),
            chunked(names, size as nat) == batches.deep_view() + chunked(
                names.skip(start as int),
                size as nat,
            ),
            forall|k: int| 0 <= k < batches.len() ==> batches[k] is Batch,
        decreases packages.len() - start,
    {
        let end: usize = if packages.len() - start > size {
            start + size
        } else {
            packages.len()
        };
        let mut batch: Vec<String> = Vec::new();
        let mut i: usize = start;
        while i < end
            invariant
                start <= i <= end <= packages.len(),
                batch.len() == i - start,
                forall|k: int| 0 <= k < batch.len() ==> batch[k]@ == packages[start + k]@,
            decreases end - i,
        {
            batch.push(packages[i].clone());
            i += 1;
        }
        proof {
            let rest = names.skip(start as int);
            let run = names.subrange(start as int, end as int);
            assert(batch.deep_view() =~= run);
            if rest.len() <= size {
                assert(run =~= rest);
                assert(names.skip(end as int) =~= Seq::<Seq<char>>::empty());
                assert(chunked(rest, size as nat) =~= seq![run] + chunked(
                    names.skip(end as int),
                    size as nat,
                ));
            } else {
                assert(run =~= rest.take(size as int));
                assert(names.skip(end as int) =~= rest.skip(size as int));
            }
            assert(chunked(rest, size as nat) == seq![run] + chunked(
                names.skip(end as int),
                size as nat,
            ));
        }
        let ghost before = batches.deep_view();
        batches.push(WorkItem::Batch(batch));
        proof {
            assert(batches.deep_view() =~= before + seq![
                names.subrange(start as int, end as int),
            ]);
            assert(before + (seq![names.subrange(start as int, end as int)] + chunked(
                names.skip(end as int),
                size as nat,
            )) =~= batches.deep_view() + chunked(names.skip(end as int), size as nat));
        }
        start = end;
    }
    proof {
        assert(batches.deep_view() + Seq::<Seq<Seq<char>>>::empty() =~= batches.deep_view());
        lemma_batches_partition(names, size as nat);
        assert forall|k: int| 0 <= k < batches.len() implies (#[trigger] batches[k]).well_formed() by {
            assert(batches.deep_view()[k] == batches[k].deep_view());
        }
    }
    batches
}

/// Each name of `names` as a work item of its own, in order.
pub fn make_singles(names: &Vec<String>) -> (items: Vec<WorkItem>)
    ensures
        items.deep_view() == singles(names.deep_view()),
        forall|k: int|
            0 <= k < items.len() ==> (#[trigger] items[k]) is Single && items[k].well_formed(),
{
    let mut items: Vec<WorkItem> = Vec::new();
    let mut i: usize = 0;
    while i < names.len()
        invariant
            i <= names.len(),
            items.len() == i,
            forall|k: int| 0 <= k < i ==> items[k] == WorkItem::Single(names[k]),
        decreases names.len() - i,
    {
        items.push(WorkItem::Single(names[i].clone()));
        i += 1;
    }
    assert(items.deep_view() =~= singles(names.deep_view()));
    items
}

/// Every name of `names` as a run of its own.
pub open spec fn singles(names: Seq<Seq<char>>) -> Seq<Seq<Seq<char>>> {
    Seq::new(names.len(), |k: int| seq![names[k]])
}

/// Batching is a partition: the batches of a list, laid end to end, are the
/// list again; no batch is empty or longer than the bound; and every batch
/// but the last is exactly as long as the bound.
pub proof fn lemma_batches_partition(names: Seq<Seq<char>>, size: nat)
    requires
        size >= 1,
    ensures
        chunked(names, size).flatten() == names,
        forall|k: int|
            0 <= k < chunked(names, size).len() ==> 1 <= (#[trigger] chunked(names, size)[k]).len()
                <= size,
        forall|k: int|
            0 <= k < chunked(names, size).len() - 1 ==> (#[trigger] chunked(names, size)[k]).len()
                == size,
    decreases names.len(),
{
    let all = chunked(names, size);
    if names.len() == 0 {
        assert(all.flatten() =~= names);
    } else if names.len() <= size {
        all.lemma_flatten_one_element();
    } else {
        let head = names.take(size as int);
        let rest = names.skip(size as int);
        let tail = chunked(rest, size);
        lemma_batches_partition(rest, size);
        assert(all.first() == head);
        assert(all.drop_first() =~= tail);
        assert(all.flatten() == head + tail.flatten());
        assert(head + rest =~= names);
        assert forall|k: int| 0 <= k < all.len() implies 1 <= (#[trigger] all[k]).len()
            <= size by {
            if k > 0 {
                assert(all[k] == tail[k - 1]);
            }
        }
        assert forall|k: int| 0 <= k < all.len() - 1 implies (#[trigger] all[k]).len()
            == size by {
            if k > 0 {
                assert(all[k] == tail[k - 1]);
            }
        }
    }
}

/// Cutting a list into runs of one name each loses nothing either.
pub proof fn lemma_singles_partition(names: Seq<Seq<char>>)
    ensures
        singles(names).flatten() == names,
        singles(names) == chunked(names, 1),
    decreases names.len(),
{
    if names.len() == 0 {
        assert(singles(names) =~= chunked(names, 1));
        assert(singles(names).flatten() =~= names);
    } else if names.len() == 1 {
        assert(names =~= seq![names[0]]);
        assert(singles(names) =~= chunked(names, 1));
        singles(names).lemma_flatten_one_element();
    } else {
        let rest = names.skip(1);
        lemma_singles_partition(rest);
        assert(names.take(1) =~= seq![names[0]]);
        assert(singles(names) =~= seq![names.take(1)] + singles(rest));
        lemma_batches_partition(names, 1);
    }
}

} // verus!
