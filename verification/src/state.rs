//! The state of the window: the album's rows, what the session is doing, and how user actions and
//! worker messages change them.
use crate::model::{
    album_view, updates_view, AlbumFile, AlbumFileView, AppStatus, FileEntry, FileEntryView,
    FileStatus, FileStatusView, Progress, Speed, UiUpdate, UiUpdateView,
};
use crate::text::{decimal, joined_text, to_decimal};
use vstd::prelude::*;

verus! {

/// What the window shows and edits.
#[derive(Debug)]
pub struct App {
    pub url: String,
    pub download_dir: String,
    /// The number of the list: another one whenever the list is replaced.
    pub list: u64,
    pub files: Vec<FileEntry>,
    pub status: AppStatus,
    pub status_msg: String,
}

#[verifier::ext_equal]
pub struct AppView {
    pub url: Seq<char>,
    pub download_dir: Seq<char>,
    pub list: u64,
    pub files: Seq<FileEntryView>,
    pub status: AppStatus,
    pub status_msg: Seq<char>,
}

/// The views of a list of rows.
pub open spec fn entries_view(files: Seq<FileEntry>) -> Seq<FileEntryView> {
    files.map_values(|e: FileEntry| e@)
}

impl View for App {
    type V = AppView;

    open spec fn view(&self) -> AppView {
        AppView {
            url: self.url@,
            download_dir: self.download_dir@,
            list: self.list,
            files: entries_view(self.files@),
            status: self.status,
            status_msg: self.status_msg@,
        }
    }
}

/// The number of the list that comes after the one with the number `list`.
pub open spec fn next_list(list: u64) -> u64 {
    if list == u64::MAX {
        0
    } else {
        (list + 1) as u64
    }
}

/// The row of a file that has just been listed: selected, and not touched yet.
pub open spec fn fresh_entry(file: AlbumFileView) -> FileEntryView {
    FileEntryView {
        file,
        selected: true,
        status: FileStatusView::Idle,
        progress: Progress::none(),
        downloaded: 0,
        speed: Speed::none(),
    }
}

/// The row with everything that a download put there taken back.
pub open spec fn reset_entry(e: FileEntryView) -> FileEntryView {
    FileEntryView {
        status: FileStatusView::Idle,
        progress: Progress::none(),
        downloaded: 0,
        speed: Speed::none(),
        ..e
    }
}

/// Whether every selected row is done or has failed.
pub open spec fn all_settled(files: Seq<FileEntryView>) -> bool {
    forall|i: int| 0 <= i < files.len() && (#[trigger] files[i]).selected ==> files[i].status.is_final()
}

/// A property of rows that the window counts.
#[derive(Clone, Copy)]
pub enum Tally {
    Selected,
    Done,
    Failed,
}

impl Tally {
    pub open spec fn holds(self, e: FileEntryView) -> bool {
        match self {
            Tally::Selected => e.selected,
            Tally::Done => e.status is Done,
            Tally::Failed => e.status is Failed,
        }
    }
}

/// How many rows have the property.
pub open spec fn tally(files: Seq<FileEntryView>, what: Tally) -> nat {
    files.filter(|e: FileEntryView| what.holds(e)).len()
}

/// The message shown when the last selected row settles.
pub open spec fn completion_message(files: Seq<FileEntryView>) -> Seq<char> {
    "Complete: "@ + decimal(tally(files, Tally::Done)) + " done, "@ + decimal(
        tally(files, Tally::Failed),
    ) + " failed"@
}

impl AppView {
    /// Whether a download is under way, paused or not.
    pub open spec fn is_active(self) -> bool {
        self.status is Downloading || self.status is Paused
    }

    /// The session ends when, during a download, every selected row is settled.
    pub open spec fn settle(self) -> AppView {
        if all_settled(self.files) && self.is_active() {
            AppView {
                status: AppStatus::Idle,
                status_msg: completion_message(self.files),
                ..self
            }
        } else {
            self
        }
    }

    /// The state with row `idx` in status `st`. There may be no such row.
    pub open spec fn with_status(self, idx: usize, st: FileStatusView) -> AppView {
        if idx < self.files.len() {
            AppView {
                files: self.files.update(
                    idx as int,
                    FileEntryView { status: st, ..self.files[idx as int] },
                ),
                ..self
            }
        } else {
            self
        }
    }

    /// The state with new transfer figures for row `idx`. There may be no such row.
    pub open spec fn with_progress(
        self,
        idx: usize,
        progress: Progress,
        downloaded: u64,
        speed: Speed,
    ) -> AppView {
        if idx < self.files.len() {
            AppView {
                files: self.files.update(
                    idx as int,
                    FileEntryView { progress, downloaded, speed, ..self.files[idx as int] },
                ),
                ..self
            }
        } else {
            self
        }
    }

    /// The state after one message of the worker. A message about a row of another list than the
    /// one that is shown changes nothing.
    pub open spec fn updated(self, update: UiUpdateView) -> AppView {
        match update {
            UiUpdateView::AlbumFetched(files) => AppView {
                list: next_list(self.list),
                files: files.map_values(|f: AlbumFileView| fresh_entry(f)),
                status: AppStatus::Idle,
                status_msg: decimal(files.len()) + " files loaded"@,
                ..self
            },
            UiUpdateView::FetchError(e) => AppView {
                status: AppStatus::Idle,
                status_msg: "Error: "@ + e,
                ..self
            },
            UiUpdateView::FileStatus(list, idx, st) => if list == self.list {
                self.with_status(idx, st).settle()
            } else {
                self
            },
            UiUpdateView::FileProgress(list, idx, p, d, s) => if list == self.list {
                self.with_progress(idx, p, d, s)
            } else {
                self
            },
        }
    }

    /// The state after several messages, in order.
    pub open spec fn updated_by(self, updates: Seq<UiUpdateView>) -> AppView
        decreases updates.len(),
    {
        if updates.len() == 0 {
            self
        } else {
            self.updated_by(updates.drop_last()).updated(updates.last())
        }
    }
}

pub(crate) fn count(files: &Vec<FileEntry>, what: Tally) -> (n: usize)
    ensures
        n == tally(entries_view(files@), what),
{
    let mut n: usize = 0;
    let mut i: usize = 0;
    let ghost keep = |e: FileEntryView| what.holds(e);
    let ghost rows = entries_view(files@);
    proof {
        assert(rows.take(0) =~= Seq::empty());
        reveal(Seq::filter);
    }
    while i < files.len()
        invariant
            i <= files.len(),
            n <= i,
            keep == |e: FileEntryView| what.holds(e),
            rows == entries_view(files@),
            n == rows.take(i as int).filter(keep).len(),
        decreases files.len() - i,
    {
        let e = &files[i];
        let hit = match what {
            Tally::Selected => e.selected,
            Tally::Done => e.status.is_done(),
            Tally::Failed => e.status.is_failed(),
        };
        proof {
            assert(rows[i as int] == e@);
            assert(rows.take(i + 1) =~= rows.take(i as int).push(rows[i as int]));
            rows.take(i as int).lemma_filter_push(rows[i as int], keep);
        }
        if hit {
            n += 1;
        }
        i += 1;
    }
    proof {
        assert(rows.take(i as int) =~= rows);
    }
    n
}

fn fresh_rows(album_files: Vec<AlbumFile>) -> (rows: Vec<FileEntry>)
    ensures
        entries_view(rows@) == album_view(album_files@).map_values(
            |f: AlbumFileView| fresh_entry(f),
        ),
{
    let mut rows: Vec<FileEntry> = Vec::new();
    for file in it: album_files
        invariant
            it.seq() == album_files@,
            rows@.len() == it.index(),
            forall|j: int| 0 <= j < rows@.len() ==> (#[trigger] rows@[j])@ == fresh_entry(album_files@[j]@),
    {
        rows.push(
            FileEntry {
                file,
                selected: true,
                status: FileStatus::Idle,
                progress: Progress::none(),
                downloaded: 0,
                speed: Speed::none(),
            },
        );
    }
    rows
}

impl App {
    /// An idle session without an album, which will save to `download_dir`.
    pub fn new(download_dir: String) -> (app: App)
        ensures
            app@ == (AppView {
                url: Seq::empty(),
                download_dir: download_dir@,
                list: 0,
                files: Seq::empty(),
                status: AppStatus::Idle,
                status_msg: Seq::empty(),
            }),
    {
        App {
            url: String::new(),
            download_dir,
            list: 0,
            files: Vec::new(),
            status: AppStatus::Idle,
            status_msg: String::new(),
        }
    }

    fn all_settled(&self) -> (r: bool)
        ensures
            r == all_settled(self@.files),
    {
        let mut i: usize = 0;
        while i < self.files.len()
            invariant
                i <= self.files.len(),
                forall|j: int|
                    0 <= j < i && (#[trigger] self@.files[j]).selected
                        ==> self@.files[j].status.is_final(),
            decreases self.files.len() - i,
        {
            let e = &self.files[i];
            if e.selected && !e.status.is_final() {
                assert(self@.files[i as int] == e@);
                return false;
            }
            i += 1;
        }
        true
    }

    fn settle(&mut self)
        ensures
            final(self)@ == old(self)@.settle(),
    {
        let active = matches!(self.status, AppStatus::Downloading | AppStatus::Paused);
        if self.all_settled() && active {
            self.status = AppStatus::Idle;
            let done: usize = count(&self.files, Tally::Done);
            let failed: usize = count(&self.files, Tally::Failed);
            let mut msg = "Complete: ".to_owned();
            msg.append(to_decimal(done as u64).as_str());
            msg.append(" done, ");
            msg.append(to_decimal(failed as u64).as_str());
            msg.append(" failed");
            self.status_msg = msg;
        }
    }

    pub(crate) fn renumber(&mut self)
        ensures
            final(self)@ == (AppView { list: next_list(old(self)@.list), ..old(self)@ }),
    {
        if self.list == u64::MAX {
            self.list = 0;
        } else {
            self.list = self.list + 1;
        }
    }

    /// Takes in one message of the worker.
    pub fn apply_update(&mut self, update: UiUpdate)
        ensures
            final(self)@ == old(self)@.updated(update@),
    {
        match update {
            UiUpdate::AlbumFetched(album_files) => {
                let rows = fresh_rows(album_files);
                self.renumber();
                self.files = rows;
                self.status = AppStatus::Idle;
                let mut msg = to_decimal(self.files.len() as u64);
                msg.append(" files loaded");
                self.status_msg = msg;
            },
            UiUpdate::FetchError(e) => {
                self.status = AppStatus::Idle;
                self.status_msg = joined_text("Error: ", e.as_str());
            },
            UiUpdate::FileStatus(list, idx, st) => {
                if list != self.list {
                    return;
                }
                if idx < self.files.len() {
                    self.files[idx].status = st;
                }
                assert(self@ =~~= old(self)@.with_status(idx, st@));
                self.settle();
            },
            UiUpdate::FileProgress(list, idx, progress, downloaded, speed) => {
                if list != self.list {
                    return;
                }
                if idx < self.files.len() {
                    self.files[idx].progress = progress;
                    self.files[idx].downloaded = downloaded;
                    self.files[idx].speed = speed;
                }
                assert(self@ =~~= old(self)@.with_progress(idx, progress, downloaded, speed));
            },
        }
    }

    /// Takes in the messages that have arrived from the worker, oldest first.
    pub fn process_updates(&mut self, updates: Vec<UiUpdate>)
        ensures
            final(self)@ == old(self)@.updated_by(updates_view(updates@)),
    {
        let ghost start = self@;
        for update in it: updates
            invariant
                it.seq() == updates@,
                self@ == start.updated_by(updates_view(updates@.take(it.index() as int))),
        {
            proof {
                let n = it.index() as int;
                let seen = updates_view(updates@.take(n + 1));
                assert(seen.drop_last() =~= updates_view(updates@.take(n)));
                assert(seen.last() == updates@[n]@);
            }
            self.apply_update(update);
        }
        proof {
            assert(updates@.take(updates@.len() as int) =~= updates@);
        }
    }
}

/// The view of a session shows every part of it as it is, the list row by row.
pub proof fn view_of_a_session_shows_every_part(app: App, i: int)
    ensures
        app@.url == app.url@ && app@.download_dir == app.download_dir@ && app@.status_msg
            == app.status_msg@,
        app@.list == app.list && app@.status == app.status,
        app@.files.len() == app.files@.len(),
        0 <= i < app.files@.len() ==> app@.files[i] == app.files@[i]@,
{
}

/// Counting goes row by row: a row adds one to the count of what it is, selected, done or failed,
/// and nothing to any other.
pub proof fn rows_are_counted_one_by_one(files: Seq<FileEntryView>, e: FileEntryView)
    ensures
        tally(files.push(e), Tally::Selected) == tally(files, Tally::Selected) + if e.selected {
            1nat
        } else {
            0
        },
        tally(files.push(e), Tally::Done) == tally(files, Tally::Done) + if e.status
            == FileStatusView::Done {
            1nat
        } else {
            0
        },
        tally(files.push(e), Tally::Failed) == tally(files, Tally::Failed) + if e.status
            matches FileStatusView::Failed(_) {
            1nat
        } else {
            0
        },
        forall|what: Tally| #[trigger] tally(Seq::empty(), what) == 0,
{
    reveal(Seq::filter);
    files.lemma_filter_push(e, |e: FileEntryView| Tally::Selected.holds(e));
    files.lemma_filter_push(e, |e: FileEntryView| Tally::Done.holds(e));
    files.lemma_filter_push(e, |e: FileEntryView| Tally::Failed.holds(e));
}

/// A message about the status of a row of the list gives that row the status, and changes nothing
/// else in the list. It ends a download, paused or not, exactly when it leaves no selected row that
/// is neither done nor failed, and then says how many of the rows are done and how many have failed.
pub proof fn status_message_sets_one_row(v: AppView, idx: usize, st: FileStatusView)
    ensures
        ({
            let after = v.updated(UiUpdateView::FileStatus(v.list, idx, st));
            let goes_on = exists|i: int|
                0 <= i < after.files.len() && (#[trigger] after.files[i]).selected && !(
                after.files[i].status is Done) && !(after.files[i].status is Failed);
            let active = v.status == AppStatus::Downloading || v.status == AppStatus::Paused;
            &&& after.files.len() == v.files.len()
            &&& forall|i: int|
                0 <= i < v.files.len() ==> #[trigger] after.files[i] == if i == idx {
                    FileEntryView { status: st, ..v.files[i] }
                } else {
                    v.files[i]
                }
            &&& after.url == v.url && after.download_dir == v.download_dir && after.list == v.list
            &&& active && !goes_on ==> after.status == AppStatus::Idle && after.status_msg
                == "Complete: "@ + decimal(tally(after.files, Tally::Done)) + " done, "@ + decimal(
                tally(after.files, Tally::Failed),
            ) + " failed"@
            &&& !active || goes_on ==> after.status == v.status && after.status_msg == v.status_msg
        }),
{
    let after = v.updated(UiUpdateView::FileStatus(v.list, idx, st));
    let mid = v.with_status(idx, st);
    assert(after.files == mid.files);
    if all_settled(mid.files) {
        assert forall|i: int| 0 <= i < after.files.len() && (#[trigger] after.files[i]).selected
            implies after.files[i].status is Done || after.files[i].status is Failed by {}
    } else {
        let i = choose|i: int|
            0 <= i < mid.files.len() && (#[trigger] mid.files[i]).selected
                && !mid.files[i].status.is_final();
        assert(after.files[i].selected);
    }
}

/// A message about the progress of a row of the list sets the figures of that row, and changes
/// nothing else.
pub proof fn progress_message_sets_one_row(
    v: AppView,
    idx: usize,
    progress: Progress,
    downloaded: u64,
    speed: Speed,
)
    ensures
        ({
            let after = v.updated(
                UiUpdateView::FileProgress(v.list, idx, progress, downloaded, speed),
            );
            &&& after == AppView { files: after.files, ..v }
            &&& after.files.len() == v.files.len()
            &&& forall|i: int|
                0 <= i < v.files.len() ==> #[trigger] after.files[i] == if i == idx {
                    FileEntryView { progress, downloaded, speed, ..v.files[i] }
                } else {
                    v.files[i]
                }
        }),
{
}

/// An album that has arrived fills the list: a row for each file, in order, selected and untouched.
/// The session is idle and says how many files there are.
pub proof fn album_fills_the_list(v: AppView, album: Seq<AlbumFileView>)
    ensures
        ({
            let after = v.updated(UiUpdateView::AlbumFetched(album));
            &&& after.files.len() == album.len()
            &&& forall|i: int|
                0 <= i < album.len() ==> #[trigger] after.files[i] == (FileEntryView {
                    file: album[i],
                    selected: true,
                    status: FileStatusView::Idle,
                    progress: Progress { done: 0, total: 0 },
                    downloaded: 0,
                    speed: Speed { bytes: 0, secs: 0, nanos: 0 },
                })
            &&& after.status == AppStatus::Idle
            &&& after.status_msg == decimal(album.len()) + " files loaded"@
            &&& after.url == v.url && after.download_dir == v.download_dir
            &&& after.list != v.list
        }),
{
}

/// A failed fetch leaves the list alone; the session is idle and says what went wrong.
pub proof fn failed_fetch_keeps_the_list(v: AppView, reason: Seq<char>)
    ensures
        v.updated(UiUpdateView::FetchError(reason)) == (AppView {
            url: v.url,
            download_dir: v.download_dir,
            list: v.list,
            files: v.files,
            status: AppStatus::Idle,
            status_msg: "Error: "@ + reason,
        }),
{
}

/// Messages are taken in one after the other, each exactly once: taking in some and then others is
/// taking in all of them in that order.
pub proof fn messages_are_taken_in_order(
    v: AppView,
    first: Seq<UiUpdateView>,
    then_these: Seq<UiUpdateView>,
    u: UiUpdateView,
)
    ensures
        v.updated_by(first + then_these) == v.updated_by(first).updated_by(then_these),
        v.updated_by(seq![u]) == v.updated(u),
        v.updated_by(Seq::empty()) == v,
    decreases then_these.len(),
{
    assert(seq![u].drop_last() =~= Seq::empty());
    assert(v.updated_by(seq![u].drop_last()) == v);
    if then_these.len() == 0 {
        assert(first + then_these =~= first);
    } else {
        messages_are_taken_in_order(v, first, then_these.drop_last(), u);
        assert((first + then_these).drop_last() =~= first + then_these.drop_last());
    }
}

} // verus!
