//! How a batch of downloads ends: what the window shows once every task has run its course, and
//! that a batch which outlives its list leaves the next one alone.
use crate::controls::{picked, Pick};
use crate::download::{
    list_of, row_of, run, settles, task_settles_its_row_once, TaskEventView, TaskView,
};
use crate::model::{AlbumFileView, FileEntryView, UiUpdateView};
use crate::state::{all_settled, completion_message, next_list, AppView};
use vstd::prelude::*;

verus! {

/// Whether the rows that a batch takes are, in increasing order, exactly those that are wanted,
/// each with its own file.
pub open spec fn lists_exactly(
    items: Seq<(usize, AlbumFileView)>,
    files: Seq<FileEntryView>,
    which: Pick,
) -> bool {
    &&& forall|k: int|
        #![trigger items[k]]
        0 <= k < items.len() ==> {
            &&& items[k].0 < files.len()
            &&& which.wants(files[items[k].0 as int])
            &&& items[k].1 == files[items[k].0 as int].file
        }
    &&& forall|k: int, l: int| 0 <= k < l < items.len() ==> (#[trigger] items[k]).0 < (#[trigger] items[l]).0
    &&& forall|i: int|
        0 <= i < files.len() && which.wants(#[trigger] files[i]) ==> exists|k: int|
            0 <= k < items.len() && (#[trigger] items[k]).0 == i
}

/// A batch takes every wanted row once, in the order of the list, and no other.
pub proof fn batch_takes_the_wanted_rows(files: Seq<FileEntryView>, which: Pick)
    requires
        files.len() <= usize::MAX,
    ensures
        lists_exactly(picked(files, which), files, which),
    decreases files.len(),
{
    if files.len() > 0 {
        let before = files.drop_last();
        let items = picked(files, which);
        let old_items = picked(before, which);
        batch_takes_the_wanted_rows(before, which);
        assert forall|i: int| 0 <= i < files.len() && which.wants(#[trigger] files[i]) implies exists|
            k: int,
        | 0 <= k < items.len() && (#[trigger] items[k]).0 == i by {
            if i < before.len() {
                assert(which.wants(before[i]));
                let k = choose|k: int| 0 <= k < old_items.len() && (#[trigger] old_items[k]).0 == i;
                assert(items[k] == old_items[k]);
            } else {
                assert(items[items.len() - 1].0 == i);
            }
        }
        assert forall|k: int| 0 <= k < items.len() implies ({
            &&& (#[trigger] items[k]).0 < files.len()
            &&& which.wants(files[items[k].0 as int])
            &&& items[k].1 == files[items[k].0 as int].file
        }) by {
            if k < old_items.len() {
                assert(items[k] == old_items[k]);
            }
        }
        assert forall|k: int, l: int| 0 <= k < l < items.len() implies (#[trigger] items[k]).0 < (
        #[trigger] items[l]).0 by {
            assert(items[k] == old_items[k]);
            if l < old_items.len() {
                assert(items[l] == old_items[l]);
            }
        }
    }
}

/// Starting a batch sets the rows it takes back to their beginning and touches no other: a row that
/// is done stays done unless it is wanted, and no row loses its file or its selection.
pub proof fn launch_resets_only_wanted_rows(v: AppView, which: Pick)
    ensures
        v.launched(which).files.len() == v.files.len(),
        forall|i: int|
            0 <= i < v.files.len() ==> {
                let after = #[trigger] v.launched(which).files[i];
                &&& after.file == v.files[i].file
                &&& after.selected == v.files[i].selected
                &&& which.wants(v.files[i]) ==> after.status is Idle && after.downloaded == 0
                &&& !which.wants(v.files[i]) ==> after == v.files[i]
                &&& v.files[i].status is Done ==> after == v.files[i]
                &&& which is Failed ==> !(after.status is Failed)
            },
{
}

/// Whether a message about row `i` is the last one that settles it, and nothing about that row
/// comes later.
pub open spec fn settles_last(updates: Seq<UiUpdateView>, i: usize, k: int) -> bool {
    &&& 0 <= k < updates.len()
    &&& row_of(updates[k]) == Some(i)
    &&& settles(updates[k])
    &&& forall|l: int| k < l < updates.len() ==> row_of(#[trigger] updates[l]) != Some(i)
}

/// Whether row `i` is settled once, by the last message about it.
pub open spec fn settled_once(updates: Seq<UiUpdateView>, i: usize) -> bool {
    &&& exists|k: int| settles_last(updates, i, k)
    &&& forall|k: int|
        0 <= k < updates.len() && row_of(#[trigger] updates[k]) == Some(i) && settles(updates[k])
            ==> settles_last(updates, i, k)
}

/// Whether every message is about a row of the batch, in the list with the number `list`.
pub open spec fn reports_on(
    updates: Seq<UiUpdateView>,
    list: u64,
    items: Seq<(usize, AlbumFileView)>,
) -> bool {
    forall|k: int|
        0 <= k < updates.len() ==> list_of(#[trigger] updates[k]) == Some(list) && exists|j: int|
            0 <= j < items.len() && row_of(updates[k]) == Some((#[trigger] items[j]).0)
}

/// The messages about rows of the list with the number `list`, in order.
pub open spec fn about_list(updates: Seq<UiUpdateView>, list: u64) -> Seq<UiUpdateView> {
    updates.filter(|u: UiUpdateView| list_of(u) == Some(list))
}

/// A message of a batch that was started on another list than the one that is shown changes
/// nothing.
pub proof fn old_batch_leaves_a_new_list_alone(v: AppView, u: UiUpdateView)
    requires
        row_of(u) is Some,
        list_of(u) != Some(v.list),
    ensures
        v.updated(u) == v,
{
}

/// The number of the list after `n` lists more.
pub open spec fn nth_list(list: u64, n: nat) -> u64
    decreases n,
{
    if n == 0 {
        list
    } else {
        next_list(nth_list(list, (n - 1) as nat))
    }
}

/// Asking for an album and getting one each give the list another number, messages about rows and
/// failed fetches keep it, and no number comes back before all of 64 bits have been used. So the
/// messages of a batch stop having an effect with the fetch that replaces its list.
pub proof fn list_numbers_are_not_reused(v: AppView, u: UiUpdateView, n: nat)
    requires
        0 < n <= u64::MAX,
    ensures
        v.fetching().list == nth_list(v.list, 1),
        v.updated(u).list == if u is AlbumFetched {
            nth_list(v.list, 1)
        } else {
            v.list
        },
        nth_list(v.list, n) != v.list,
{
    reveal_with_fuel(nth_list, 2);
    nth_list_is_a_sum(v.list, n);
}

proof fn nth_list_is_a_sum(list: u64, n: nat)
    requires
        n <= u64::MAX,
    ensures
        nth_list(list, n) == if list + n <= u64::MAX {
            list + n
        } else {
            list + n - u64::MAX - 1
        },
    decreases n,
{
    if n > 0 {
        nth_list_is_a_sum(list, (n - 1) as nat);
    }
}

/// However the messages of other lists' batches are mixed in, only those about the list that is
/// shown count.
pub proof fn only_messages_about_the_list_count(v: AppView, updates: Seq<UiUpdateView>)
    requires
        forall|k: int| 0 <= k < updates.len() ==> row_of(#[trigger] updates[k]) is Some,
    ensures
        v.updated_by(updates) == v.updated_by(about_list(updates, v.list)),
        v.updated_by(updates).list == v.list,
    decreases updates.len(),
{
    let keep = |u: UiUpdateView| list_of(u) == Some(v.list);
    if updates.len() == 0 {
        reveal(Seq::filter);
    } else {
        let before = updates.drop_last();
        let u = updates.last();
        assert forall|k: int| 0 <= k < before.len() implies row_of(#[trigger] before[k]) is Some by {
            assert(before[k] == updates[k]);
        }
        only_messages_about_the_list_count(v, before);
        assert(row_of(updates[updates.len() - 1]) is Some);
        before.lemma_filter_push(u, keep);
        assert(before.push(u) =~= updates);
        let own = before.filter(keep);
        if keep(u) {
            assert(own.push(u).drop_last() =~= own);
        }
    }
}

/// Messages about rows of the list keep the list: no row comes or goes, and each keeps its file and
/// its selection. A row that no message is about keeps its status, a row becomes settled only by a
/// message that settles it, and it stays so when nothing about it comes later.
pub proof fn messages_keep_the_list(v: AppView, updates: Seq<UiUpdateView>, i: usize)
    requires
        i < v.files.len(),
        forall|k: int| 0 <= k < updates.len() ==> list_of(#[trigger] updates[k]) == Some(v.list),
    ensures
        ({
            let end = v.updated_by(updates);
            &&& end.list == v.list
            &&& end.files.len() == v.files.len()
            &&& end.files[i as int].file == v.files[i as int].file
            &&& end.files[i as int].selected == v.files[i as int].selected
            &&& (forall|k: int| 0 <= k < updates.len() ==> row_of(#[trigger] updates[k]) != Some(i))
                ==> end.files[i as int].status == v.files[i as int].status
            &&& end.files[i as int].status.is_final() ==> v.files[i as int].status.is_final()
                || exists|k: int|
                0 <= k < updates.len() && row_of(#[trigger] updates[k]) == Some(i) && settles(
                    updates[k],
                )
            &&& (exists|k: int| settles_last(updates, i, k))
                ==> end.files[i as int].status.is_final()
        }),
    decreases updates.len(),
{
    if updates.len() > 0 {
        let before = updates.drop_last();
        let u = updates.last();
        assert forall|k: int| 0 <= k < before.len() implies list_of(#[trigger] before[k]) == Some(
            v.list,
        ) by {
            assert(before[k] == updates[k]);
        }
        messages_keep_the_list(v, before, i);
        let mid = v.updated_by(before);
        let end = v.updated_by(updates);
        assert(list_of(updates[updates.len() - 1]) == Some(v.list));
        if forall|k: int| 0 <= k < updates.len() ==> row_of(#[trigger] updates[k]) != Some(i) {
            assert forall|k: int| 0 <= k < before.len() implies row_of(#[trigger] before[k]) != Some(i) by {
                assert(before[k] == updates[k]);
            }
            assert(row_of(updates[updates.len() - 1]) != Some(i));
        }
        if end.files[i as int].status.is_final() && !v.files[i as int].status.is_final() {
            if row_of(u) == Some(i) && u is FileStatus {
                assert(settles(updates[updates.len() - 1]));
            } else {
                let k = choose|k: int|
                    0 <= k < before.len() && row_of(#[trigger] before[k]) == Some(i) && settles(
                        before[k],
                    );
                assert(updates[k] == before[k]);
            }
        }
        if exists|k: int| settles_last(updates, i, k) {
            let k = choose|k: int| settles_last(updates, i, k);
            if k < before.len() {
                assert(before[k] == updates[k]);
                assert forall|l: int| k < l < before.len() implies row_of(#[trigger] before[l]) != Some(i) by {
                    assert(before[l] == updates[l]);
                }
                assert(settles_last(before, i, k));
                assert(row_of(updates[updates.len() - 1]) != Some(i));
            }
        }
    }
}

/// After every message about a status in the list, a download goes on only while some selected row is not
/// settled.
pub proof fn session_ends_with_its_last_row(v: AppView, update: UiUpdateView)
    requires
        update is FileStatus,
        list_of(update) == Some(v.list),
    ensures
        v.updated(update).is_active() ==> !all_settled(v.updated(update).files),
{
}

/// Whether a batch settles the session: its rows are selected, and every other selected row is
/// settled already.
pub open spec fn batch_is_all_that_is_left(files: Seq<FileEntryView>, which: Pick) -> bool {
    forall|i: int|
        0 <= i < files.len() ==> {
            &&& which.wants(#[trigger] files[i]) ==> files[i].selected
            &&& files[i].selected && !which.wants(files[i]) ==> files[i].status.is_final()
        }
}

/// While a batch is reported on, the session goes on until the last message; that one settles the
/// last row, and with it the session, and the message then counts what is done and what has failed.
pub proof fn batch_ends_with_its_last_message(
    v: AppView,
    which: Pick,
    updates: Seq<UiUpdateView>,
)
    requires
        v.files.len() <= usize::MAX,
        batch_is_all_that_is_left(v.files, which),
        picked(v.files, which).len() > 0,
        reports_on(updates, v.list, picked(v.files, which)),
        forall|j: int|
            0 <= j < picked(v.files, which).len() ==> settled_once(
                updates,
                (#[trigger] picked(v.files, which)[j]).0,
            ),
    ensures
        updates.len() > 0,
        forall|m: int|
            0 <= m < updates.len() ==> (#[trigger] v.launched(which).updated_by(
                updates.take(m),
            )).status is Downloading,
        ({
            let end = v.launched(which).updated_by(updates);
            &&& all_settled(end.files)
            &&& end.status is Idle
            &&& end.status_msg == completion_message(end.files)
        }),
{
    let items = picked(v.files, which);
    let w = v.launched(which);
    let n = updates.len() as int;
    batch_takes_the_wanted_rows(v.files, which);
    assert forall|k: int| 0 <= k < n implies list_of(#[trigger] updates[k]) == Some(w.list) by {}
    assert(settled_once(updates, items[0].0));
    assert(n > 0);

    // The row that the last message is about is settled by it, and not before.
    let j = choose|j: int|
        0 <= j < items.len() && row_of(updates[n - 1]) == Some((#[trigger] items[j]).0);
    let row = items[j].0;
    assert(settled_once(updates, row));
    let k0 = choose|k: int| settles_last(updates, row, k);
    assert(k0 == n - 1);

    assert forall|m: int| 0 <= m < n implies (#[trigger] w.updated_by(updates.take(m))).status is Downloading by {
        goes_on(w, updates, row, m);
    }
    goes_on(w, updates, row, n - 1);
    assert(updates.drop_last() =~= updates.take(n - 1));
    let mid = w.updated_by(updates.drop_last());
    let end = w.updated_by(updates);
    messages_keep_the_list(w, updates, row);
    assert forall|i: int| 0 <= i < end.files.len() && (#[trigger] end.files[i]).selected implies end.files[i].status.is_final() by {
        messages_keep_the_list(w, updates, i as usize);
        assert(w.files[i].selected);
        if which.wants(v.files[i]) {
            let k = choose|k: int| 0 <= k < items.len() && (#[trigger] items[k]).0 == i;
            assert(settled_once(updates, items[k].0));
        } else {
            assert(v.files[i].selected);
            assert forall|k: int| 0 <= k < n implies row_of(#[trigger] updates[k]) != Some(i as usize) by {
                let l = choose|l: int|
                    0 <= l < items.len() && row_of(updates[k]) == Some((#[trigger] items[l]).0);
                assert(which.wants(v.files[items[l].0 as int]));
            }
        }
    }
}

/// A session goes on over the first messages of a batch while none of them settles a row that is
/// selected and not settled.
proof fn goes_on(w: AppView, updates: Seq<UiUpdateView>, row: usize, m: int)
    requires
        w.status is Downloading,
        row < w.files.len(),
        w.files[row as int].selected,
        !w.files[row as int].status.is_final(),
        0 <= m < updates.len(),
        settles_last(updates, row, updates.len() - 1),
        settled_once(updates, row),
        forall|k: int| 0 <= k < updates.len() ==> list_of(#[trigger] updates[k]) == Some(w.list),
    ensures
        w.updated_by(updates.take(m)).status is Downloading,
    decreases m,
{
    let seen = updates.take(m);
    if m > 0 {
        goes_on(w, updates, row, m - 1);
        assert(seen.drop_last() =~= updates.take(m - 1));
        assert forall|k: int| 0 <= k < seen.len() implies list_of(#[trigger] seen[k]) == Some(
            w.list,
        ) by {
            assert(seen[k] == updates[k]);
        }
        messages_keep_the_list(w, seen, row);
        let now = w.updated_by(seen);
        if now.files[row as int].status.is_final() {
            let k = choose|k: int|
                0 <= k < seen.len() && row_of(#[trigger] seen[k]) == Some(row) && settles(seen[k]);
            assert(updates[k] == seen[k]);
            assert(settles_last(updates, row, k));
            assert(row_of(updates[updates.len() - 1]) == Some(row));
            assert(false);
        }
        assert(!all_settled(now.files)) by {
            assert(now.files[row as int].selected);
        }
        assert(list_of(seen[m - 1]) == Some(w.list));
    }
}

/// Whether a task for an item of the list with the number `list` ran to its end over `events`, and
/// `updates` holds what it reported.
pub open spec fn ran_to_its_end(
    list: u64,
    item: (usize, AlbumFileView),
    events: Seq<TaskEventView>,
    updates: Seq<UiUpdateView>,
) -> bool {
    run(TaskView::queued(list, item.0, item.1), events) matches Some(end) && end.task.phase is Finished
        && updates.filter(|u: UiUpdateView| row_of(u) == Some(item.0)) == end.updates
}

proof fn last_settler_settles_once(updates: Seq<UiUpdateView>, row: usize)
    requires
        ({
            let own = updates.filter(|u: UiUpdateView| row_of(u) == Some(row));
            &&& own.len() > 0
            &&& settles(own.last())
            &&& forall|k: int| 0 <= k < own.len() - 1 ==> !settles(#[trigger] own[k])
        }),
    ensures
        settled_once(updates, row),
    decreases updates.len(),
{
    let keep = |u: UiUpdateView| row_of(u) == Some(row);
    let own = updates.filter(keep);
    reveal(Seq::filter);
    assert(updates.len() > 0);
    let before = updates.drop_last();
    let u = updates.last();
    assert(before.push(u) =~= updates);
    before.lemma_filter_push(u, keep);
    if keep(u) {
        assert(own.drop_last() =~= before.filter(keep));
        assert(settles_last(updates, row, updates.len() - 1));
        assert forall|k: int|
            0 <= k < updates.len() && row_of(#[trigger] updates[k]) == Some(row) && settles(
                updates[k],
            ) implies settles_last(updates, row, k) by {
            if k < before.len() {
                assert(before[k] == updates[k]);
                assert(keep(before[k]));
                before.lemma_filter_contains(keep, k);
                let l = choose|l: int|
                    0 <= l < before.filter(keep).len() && before.filter(keep)[l] == before[k];
                assert(own[l] == before[k]);
            }
        }
    } else {
        last_settler_settles_once(before, row);
        let k0 = choose|k: int| settles_last(before, row, k);
        assert(before[k0] == updates[k0]);
        assert forall|l: int| k0 < l < updates.len() implies row_of(#[trigger] updates[l]) != Some(row) by {
            if l < before.len() {
                assert(before[l] == updates[l]);
            }
        }
        assert(settles_last(updates, row, k0));
        assert forall|k: int|
            0 <= k < updates.len() && row_of(#[trigger] updates[k]) == Some(row) && settles(
                updates[k],
            ) implies settles_last(updates, row, k) by {
            assert(before[k] == updates[k]);
            assert(settles_last(before, row, k));
            assert forall|l: int| k < l < updates.len() implies row_of(#[trigger] updates[l]) != Some(row) by {
                if l < before.len() {
                    assert(before[l] == updates[l]);
                }
            }
        }
    }
}

/// When every task of a batch has run to its end, in whatever order their messages came in, and
/// whatever a batch of an earlier list has reported in between, the session is idle again and says
/// how many files are done and how many have failed.
///
/// This takes a batch that is not empty: where every selected row is done already, a download is
/// started for no row, nothing is reported, and the session goes on downloading. It takes that no
/// batch but this one reports on the list; one that was stopped a moment ago may still do so. And
/// for a retry it takes that every failed row is selected and every other selected row settled.
pub proof fn finished_tasks_end_the_download(
    v: AppView,
    which: Pick,
    runs: Seq<Seq<TaskEventView>>,
    updates: Seq<UiUpdateView>,
)
    requires
        v.files.len() <= usize::MAX,
        which is Failed ==> batch_is_all_that_is_left(v.files, which),
        picked(v.files, which).len() > 0,
        forall|k: int| 0 <= k < updates.len() ==> row_of(#[trigger] updates[k]) is Some,
        reports_on(about_list(updates, v.list), v.list, picked(v.files, which)),
        runs.len() == picked(v.files, which).len(),
        forall|j: int|
            0 <= j < runs.len() ==> ran_to_its_end(
                v.list,
                picked(v.files, which)[j],
                #[trigger] runs[j],
                about_list(updates, v.list),
            ),
    ensures
        ({
            let end = v.launched(which).updated_by(updates);
            &&& all_settled(end.files)
            &&& end.status is Idle
            &&& end.status_msg == completion_message(end.files)
        }),
{
    let items = picked(v.files, which);
    let own = about_list(updates, v.list);
    assert forall|j: int| 0 <= j < items.len() implies settled_once(own, (#[trigger] items[j]).0) by {
        assert(ran_to_its_end(v.list, items[j], runs[j], own));
        task_settles_its_row_once(TaskView::queued(v.list, items[j].0, items[j].1), runs[j]);
        last_settler_settles_once(own, items[j].0);
    }
    batch_ends_with_its_last_message(v, which, own);
    only_messages_about_the_list_count(v.launched(which), updates);
}

} // verus!
