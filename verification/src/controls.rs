//! What the buttons of the window do: when each may be used, how it changes the session, and the
//! command it sends to the worker.
use crate::batch::batch_takes_the_wanted_rows;
use crate::model::{
    items_view, AlbumFile, AlbumFileView, AppStatus, Command, CommandView, FileEntry, FileEntryView,
    FileStatus, FileStatusView, Progress, Speed, UiUpdateView,
};
use crate::state::{
    entries_view, fresh_entry, next_list, reset_entry, tally, App, AppView, Tally,
};
use crate::text::decimal;
use vstd::prelude::*;

verus! {

/// Which rows a new batch of downloads takes.
#[derive(Clone, Copy)]
pub enum Pick {
    /// The selected rows that are not done.
    Pending,
    /// The rows that have failed, selected or not.
    Failed,
}

impl Pick {
    pub open spec fn wants(self, e: FileEntryView) -> bool {
        match self {
            Pick::Pending => e.selected && !(e.status is Done),
            Pick::Failed => e.status is Failed,
        }
    }
}

/// The rows that `which` takes, in the order of the list, each with its file.
pub open spec fn picked(files: Seq<FileEntryView>, which: Pick) -> Seq<(usize, AlbumFileView)>
    decreases files.len(),
{
    if files.len() == 0 {
        Seq::empty()
    } else {
        let before = picked(files.drop_last(), which);
        if which.wants(files.last()) {
            before.push(((files.len() - 1) as usize, files.last().file))
        } else {
            before
        }
    }
}

/// The list with every row that `which` takes set back to its start.
pub open spec fn reset_picked(files: Seq<FileEntryView>, which: Pick) -> Seq<FileEntryView> {
    files.map_values(
        |e: FileEntryView|
            if which.wants(e) {
                reset_entry(e)
            } else {
                e
            },
    )
}

/// The view of a command that may not have been given.
pub open spec fn command_view(command: Option<Command>) -> Option<CommandView> {
    match command {
        Some(c) => Some(c@),
        None => None,
    }
}

impl AppView {
    /// Whether the session is waiting for an album or for running downloads.
    pub open spec fn is_busy(self) -> bool {
        self.status is Fetching || self.status is Downloading
    }

    /// Whether an album can be fetched: at any time, as long as there is an address.
    pub open spec fn can_fetch(self) -> bool {
        self.url.len() > 0
    }

    /// The session while the album is being fetched: the old list is gone, and its number with it.
    pub open spec fn fetching(self) -> AppView {
        AppView {
            status: AppStatus::Fetching,
            status_msg: "Fetching album..."@,
            list: next_list(self.list),
            files: Seq::empty(),
            ..self
        }
    }

    pub open spec fn can_start(self) -> bool {
        &&& self.status is Idle
        &&& exists|i: int| 0 <= i < self.files.len() && (#[trigger] self.files[i]).selected
    }

    pub open spec fn can_retry(self) -> bool {
        &&& self.status is Idle
        &&& exists|i: int| 0 <= i < self.files.len() && (#[trigger] self.files[i]).status is Failed
    }

    /// The session with a new batch under way.
    pub open spec fn launched(self, which: Pick) -> AppView {
        AppView {
            status: AppStatus::Downloading,
            status_msg: match which {
                Pick::Pending => "Downloading..."@,
                Pick::Failed => "Retrying failed..."@,
            },
            files: reset_picked(self.files, which),
            ..self
        }
    }

    /// The command that starts that batch.
    pub open spec fn launch_command(self, which: Pick) -> CommandView {
        CommandView::StartDownload(self.list, picked(self.files, which), self.download_dir)
    }

    /// The session with another status and message, all else as it was.
    pub open spec fn turned(self, status: AppStatus, msg: Seq<char>) -> AppView {
        AppView { status, status_msg: msg, ..self }
    }

    /// The session with every row selected, or none.
    pub open spec fn with_selection(self, selected: bool) -> AppView {
        AppView {
            files: self.files.map_values(|e: FileEntryView| FileEntryView { selected, ..e }),
            ..self
        }
    }
}

fn take_picked(files: &mut Vec<FileEntry>, which: Pick) -> (items: Vec<(usize, AlbumFile)>)
    ensures
        items_view(items@) == picked(entries_view(old(files)@), which),
        entries_view(final(files)@) == reset_picked(entries_view(old(files)@), which),
{
    let ghost rows = entries_view(files@);
    let mut items: Vec<(usize, AlbumFile)> = Vec::new();
    let mut i: usize = 0;
    while i < files.len()
        invariant
            i <= files.len() == rows.len(),
            items_view(items@) == picked(rows.take(i as int), which),
            forall|j: int| 0 <= j < i ==> (#[trigger] files@[j])@ == reset_picked(rows, which)[j],
            forall|j: int| i <= j < rows.len() ==> (#[trigger] files@[j])@ == rows[j],
        decreases files.len() - i,
    {
        let wanted = match which {
            Pick::Pending => files[i].selected && !files[i].status.is_done(),
            Pick::Failed => files[i].status.is_failed(),
        };
        proof {
            assert(files@[i as int]@ == rows[i as int]);
            assert(rows.take(i + 1).drop_last() =~= rows.take(i as int));
            assert(wanted == which.wants(rows[i as int]));
        }
        if wanted {
            let ghost before = items@;
            items.push((i, files[i].file.clone()));
            files[i].status = FileStatus::Idle;
            files[i].progress = Progress::none();
            files[i].downloaded = 0;
            files[i].speed = Speed::none();
            assert(items_view(items@) =~= items_view(before).push((i, rows[i as int].file)));
        }
        i += 1;
    }
    assert(rows.take(i as int) =~= rows);
    assert(entries_view(files@) =~= reset_picked(rows, which));
    items
}

impl App {
    /// Whether the session is waiting for an album or for running downloads.
    pub fn is_busy(&self) -> (r: bool)
        ensures
            r == self@.is_busy(),
    {
        matches!(self.status, AppStatus::Fetching | AppStatus::Downloading)
    }

    /// Whether an album can be fetched now.
    pub fn can_fetch(&self) -> (r: bool)
        ensures
            r == self@.can_fetch(),
    {
        !self.url.as_str().is_empty()
    }

    /// Asks for the album at the entered address, whatever the session is doing.
    pub fn fetch(&mut self) -> (command: Option<Command>)
        ensures
            old(self)@.url.len() > 0 ==> {
                &&& final(self)@ == old(self)@.fetching()
                &&& command_view(command) == Some(CommandView::Fetch(old(self)@.url))
            },
            old(self)@.url.len() == 0 ==> final(self)@ == old(self)@ && command is None,
    {
        if !self.can_fetch() {
            return None;
        }
        self.status = AppStatus::Fetching;
        self.status_msg = "Fetching album...".to_owned();
        self.renumber();
        self.files.clear();
        assert(self@.files =~= Seq::empty());
        Some(Command::Fetch(self.url.clone()))
    }

    /// Whether some row is selected.
    pub fn any_selected(&self) -> (r: bool)
        ensures
            r <==> exists|i: int| 0 <= i < self@.files.len() && (#[trigger] self@.files[i]).selected,
    {
        let mut i: usize = 0;
        while i < self.files.len()
            invariant
                i <= self.files.len(),
                forall|j: int| 0 <= j < i ==> !(#[trigger] self@.files[j]).selected,
            decreases self.files.len() - i,
        {
            if self.files[i].selected {
                assert(self@.files[i as int].selected);
                return true;
            }
            i += 1;
        }
        false
    }

    /// Whether some row has failed.
    pub fn has_failed(&self) -> (r: bool)
        ensures
            r <==> exists|i: int|
                0 <= i < self@.files.len() && (#[trigger] self@.files[i]).status is Failed,
    {
        let mut i: usize = 0;
        while i < self.files.len()
            invariant
                i <= self.files.len(),
                forall|j: int| 0 <= j < i ==> !((#[trigger] self@.files[j]).status is Failed),
            decreases self.files.len() - i,
        {
            if self.files[i].status.is_failed() {
                assert(self@.files[i as int].status is Failed);
                return true;
            }
            i += 1;
        }
        false
    }

    /// Whether a download can be started now.
    pub fn can_start(&self) -> (r: bool)
        ensures
            r == self@.can_start(),
    {
        matches!(self.status, AppStatus::Idle) && self.any_selected()
    }

    /// Whether failed files can be tried again now.
    pub fn can_retry(&self) -> (r: bool)
        ensures
            r == self@.can_retry(),
    {
        matches!(self.status, AppStatus::Idle) && self.has_failed()
    }

    /// Downloads the selected files that are not there yet.
    pub fn start(&mut self) -> (command: Option<Command>)
        ensures
            old(self)@.can_start() ==> {
                &&& final(self)@ == old(self)@.launched(Pick::Pending)
                &&& command_view(command) == Some(old(self)@.launch_command(Pick::Pending))
            },
            !old(self)@.can_start() ==> final(self)@ == old(self)@ && command is None,
    {
        if !self.can_start() {
            return None;
        }
        self.status = AppStatus::Downloading;
        self.status_msg = "Downloading...".to_owned();
        let items = take_picked(&mut self.files, Pick::Pending);
        Some(Command::StartDownload(self.list, items, self.download_dir.clone()))
    }

    /// Tries the failed files again.
    pub fn retry_failed(&mut self) -> (command: Option<Command>)
        ensures
            old(self)@.can_retry() ==> {
                &&& final(self)@ == old(self)@.launched(Pick::Failed)
                &&& command_view(command) == Some(old(self)@.launch_command(Pick::Failed))
            },
            !old(self)@.can_retry() ==> final(self)@ == old(self)@ && command is None,
    {
        if !self.can_retry() {
            return None;
        }
        self.status = AppStatus::Downloading;
        self.status_msg = "Retrying failed...".to_owned();
        let items = take_picked(&mut self.files, Pick::Failed);
        Some(Command::StartDownload(self.list, items, self.download_dir.clone()))
    }

    /// Pauses a running download.
    pub fn pause(&mut self) -> (command: Option<Command>)
        ensures
            old(self).status is Downloading ==> {
                &&& final(self)@ == old(self)@.turned(AppStatus::Paused, "Paused"@)
                &&& command_view(command) == Some(CommandView::PauseAll)
            },
            !(old(self).status is Downloading) ==> final(self)@ == old(self)@ && command is None,
    {
        if !matches!(self.status, AppStatus::Downloading) {
            return None;
        }
        self.status = AppStatus::Paused;
        self.status_msg = "Paused".to_owned();
        Some(Command::PauseAll)
    }

    /// Goes on with a paused download.
    pub fn resume(&mut self) -> (command: Option<Command>)
        ensures
            old(self).status is Paused ==> {
                &&& final(self)@ == old(self)@.turned(AppStatus::Downloading, "Downloading..."@)
                &&& command_view(command) == Some(CommandView::ResumeAll)
            },
            !(old(self).status is Paused) ==> final(self)@ == old(self)@ && command is None,
    {
        if !matches!(self.status, AppStatus::Paused) {
            return None;
        }
        self.status = AppStatus::Downloading;
        self.status_msg = "Downloading...".to_owned();
        Some(Command::ResumeAll)
    }

    /// Gives up a download, running or paused.
    pub fn stop(&mut self) -> (command: Option<Command>)
        ensures
            old(self)@.is_active() ==> {
                &&& final(self)@ == old(self)@.turned(AppStatus::Idle, "Stopped"@)
                &&& command_view(command) == Some(CommandView::StopAll)
            },
            !old(self)@.is_active() ==> final(self)@ == old(self)@ && command is None,
    {
        if !matches!(self.status, AppStatus::Downloading | AppStatus::Paused) {
            return None;
        }
        self.status = AppStatus::Idle;
        self.status_msg = "Stopped".to_owned();
        Some(Command::StopAll)
    }

    fn select_each(&mut self, selected: bool)
        ensures
            final(self)@ == old(self)@.with_selection(selected),
    {
        let ghost start = self@;
        let mut i: usize = 0;
        while i < self.files.len()
            invariant
                i <= self.files.len() == start.files.len(),
                self@ == (AppView { files: self@.files, ..start }),
                forall|j: int|
                    0 <= j < i ==> #[trigger] self@.files[j] == (FileEntryView {
                        selected,
                        ..start.files[j]
                    }),
                forall|j: int| i <= j < start.files.len() ==> #[trigger] self@.files[j] == start.files[j],
            decreases self.files.len() - i,
        {
            let ghost before = self@.files;
            self.files[i].selected = selected;
            assert(self@.files =~= before.update(
                i as int,
                FileEntryView { selected, ..before[i as int] },
            ));
            i += 1;
        }
        assert(self@ =~~= start.with_selection(selected));
    }

    /// Selects every row, unless the session is busy.
    pub fn select_all(&mut self)
        ensures
            old(self)@.is_busy() ==> final(self)@ == old(self)@,
            !old(self)@.is_busy() ==> final(self)@ == old(self)@.with_selection(true),
    {
        if !self.is_busy() {
            self.select_each(true);
        }
    }

    /// Deselects every row, unless the session is busy.
    pub fn deselect_all(&mut self)
        ensures
            old(self)@.is_busy() ==> final(self)@ == old(self)@,
            !old(self)@.is_busy() ==> final(self)@ == old(self)@.with_selection(false),
    {
        if !self.is_busy() {
            self.select_each(false);
        }
    }

    /// Selects or deselects row `idx`, unless the session is busy.
    pub fn set_selected(&mut self, idx: usize, selected: bool)
        requires
            idx < old(self).files.len(),
        ensures
            old(self)@.is_busy() ==> final(self)@ == old(self)@,
            !old(self)@.is_busy() ==> final(self)@ == (AppView {
                files: old(self)@.files.update(
                    idx as int,
                    FileEntryView { selected, ..old(self)@.files[idx as int] },
                ),
                ..old(self)@
            }),
    {
        if self.is_busy() {
            return;
        }
        self.files[idx].selected = selected;
        assert(self@.files =~= old(self)@.files.update(
            idx as int,
            FileEntryView { selected, ..old(self)@.files[idx as int] },
        ));
    }
}

/// Pausing and resuming leaves the list, the address and the directory alone, and brings the
/// session back to downloading.
pub proof fn resuming_undoes_a_pause(v: AppView)
    requires
        v.status is Downloading,
    ensures
        v.turned(AppStatus::Paused, "Paused"@).turned(AppStatus::Downloading, "Downloading..."@)
            == v.turned(AppStatus::Downloading, "Downloading..."@),
        v.turned(AppStatus::Paused, "Paused"@).files == v.files,
        v.turned(AppStatus::Paused, "Paused"@).is_active(),
{
}

/// Fetching an album, again or for the first time, leaves exactly its files in the list, whatever
/// was there before; and while it is fetched, the list is empty.
pub proof fn fetching_replaces_the_list(v: AppView, files: Seq<AlbumFileView>)
    ensures
        v.fetching().files.len() == 0,
        v.fetching().updated(UiUpdateView::AlbumFetched(files)) == (AppView {
            url: v.url,
            download_dir: v.download_dir,
            list: next_list(next_list(v.list)),
            files: files.map_values(|f: AlbumFileView| fresh_entry(f)),
            status: AppStatus::Idle,
            status_msg: decimal(files.len()) + " files loaded"@,
        }),
{
}

/// Whether an album can be fetched depends on the address alone: it can be fetched again while one
/// is being fetched, and before, during and after a download, paused or not.
pub proof fn album_can_be_refetched_at_any_time(
    v: AppView,
    status: AppStatus,
    msg: Seq<char>,
    which: Pick,
)
    requires
        v.url.len() > 0,
    ensures
        v.can_fetch(),
        v.turned(status, msg).can_fetch(),
        v.fetching().can_fetch(),
        v.launched(which).can_fetch(),
        v.turned(status, msg).fetching() == v.fetching(),
{
}

/// A session that is active or waits for an album offers neither a start nor a retry.
pub proof fn busy_session_starts_nothing(v: AppView)
    ensures
        v.is_active() || v.is_busy() ==> !v.can_start() && !v.can_retry(),
        v.fetching().is_busy() && !v.fetching().is_active(),
        v.launched(Pick::Pending).is_active() && v.launched(Pick::Failed).is_active(),
{
}

/// After selecting all, every row is counted as selected; after deselecting all, none is. Either
/// way nothing else about a row changes, and selecting twice is selecting once.
pub proof fn selection_reaches_every_row(v: AppView, selected: bool)
    ensures
        tally(v.with_selection(selected).files, Tally::Selected) == if selected {
            v.files.len()
        } else {
            0
        },
        v.with_selection(selected).files.len() == v.files.len(),
        forall|i: int|
            0 <= i < v.files.len() ==> #[trigger] v.with_selection(selected).files[i] == (FileEntryView {
                selected,
                ..v.files[i]
            }),
        v.with_selection(!selected).with_selection(selected) == v.with_selection(selected),
{
    let rows = v.with_selection(selected).files;
    uniform_tally(rows, selected);
    assert(v.with_selection(!selected).with_selection(selected) =~~= v.with_selection(selected));
}

proof fn uniform_tally(rows: Seq<FileEntryView>, selected: bool)
    requires
        forall|i: int| 0 <= i < rows.len() ==> (#[trigger] rows[i]).selected == selected,
    ensures
        tally(rows, Tally::Selected) == if selected {
            rows.len()
        } else {
            0
        },
    decreases rows.len(),
{
    let keep = |e: FileEntryView| Tally::Selected.holds(e);
    if rows.len() == 0 {
        reveal(Seq::filter);
    } else {
        uniform_tally(rows.drop_last(), selected);
        rows.drop_last().lemma_filter_push(rows.last(), keep);
        assert(rows.drop_last().push(rows.last()) =~= rows);
    }
}

/// The command that starts a batch carries the number of the list, the folder that the user has
/// chosen, and exactly the rows that are wanted, each once, in order and with its file: for a
/// download the selected rows that are not done, and for a retry those that have failed.
pub proof fn batch_goes_to_the_chosen_folder(v: AppView, which: Pick)
    requires
        v.files.len() <= usize::MAX,
    ensures
        v.launch_command(which) matches CommandView::StartDownload(list, items, dir) && {
            &&& list == v.list
            &&& dir == v.download_dir
            &&& forall|k: int|
                0 <= k < items.len() ==> {
                    let (row, file) = #[trigger] items[k];
                    &&& row < v.files.len()
                    &&& file == v.files[row as int].file
                    &&& match which {
                        Pick::Pending => v.files[row as int].selected && v.files[row as int].status
                            != FileStatusView::Done,
                        Pick::Failed => v.files[row as int].status matches FileStatusView::Failed(_),
                    }
                }
            &&& forall|k: int, l: int|
                0 <= k < l < items.len() ==> (#[trigger] items[k]).0 < (#[trigger] items[l]).0
            &&& forall|i: int|
                0 <= i < v.files.len() && match which {
                    Pick::Pending => (#[trigger] v.files[i]).selected && v.files[i].status
                        != FileStatusView::Done,
                    Pick::Failed => v.files[i].status matches FileStatusView::Failed(_),
                } ==> exists|k: int| 0 <= k < items.len() && (#[trigger] items[k]).0 == i
        },
{
    batch_takes_the_wanted_rows(v.files, which);
    let items = picked(v.files, which);
    assert forall|i: int|
        0 <= i < v.files.len() && match which {
            Pick::Pending => (#[trigger] v.files[i]).selected && v.files[i].status
                != FileStatusView::Done,
            Pick::Failed => v.files[i].status matches FileStatusView::Failed(_),
        } implies exists|k: int| 0 <= k < items.len() && (#[trigger] items[k]).0 == i by {
        assert(which.wants(v.files[i]));
    }
}

/// A session with a batch under way is downloading, and says whether it is a download or a retry.
/// The rows of the batch are set back to their beginning; no other row changes, and neither do the
/// address, the folder and the number of the list.
pub proof fn launched_session_is_downloading(v: AppView, which: Pick)
    ensures
        ({
            let after = v.launched(which);
            &&& after.status == AppStatus::Downloading
            &&& after.status_msg == match which {
                Pick::Pending => "Downloading..."@,
                Pick::Failed => "Retrying failed..."@,
            }
            &&& after.url == v.url && after.download_dir == v.download_dir && after.list == v.list
            &&& after.files.len() == v.files.len()
            &&& forall|i: int|
                0 <= i < v.files.len() ==> {
                    let e = v.files[i];
                    let wanted = match which {
                        Pick::Pending => e.selected && e.status != FileStatusView::Done,
                        Pick::Failed => e.status matches FileStatusView::Failed(_),
                    };
                    #[trigger] after.files[i] == if wanted {
                        FileEntryView {
                            file: e.file,
                            selected: e.selected,
                            status: FileStatusView::Idle,
                            progress: Progress { done: 0, total: 0 },
                            downloaded: 0,
                            speed: Speed { bytes: 0, secs: 0, nanos: 0 },
                        }
                    } else {
                        e
                    }
                }
        }),
{
}

/// When the buttons may be used: a start in an idle session with a selected row, a retry in an idle
/// session with a failed row, a fetch with an address. A session is busy while it fetches or
/// downloads, and active while it downloads, paused or not.
pub proof fn buttons_may_be_used_when(v: AppView)
    ensures
        v.can_start() <==> v.status == AppStatus::Idle && exists|i: int|
            0 <= i < v.files.len() && (#[trigger] v.files[i]).selected,
        v.can_retry() <==> v.status == AppStatus::Idle && exists|i: int|
            0 <= i < v.files.len() && ((#[trigger] v.files[i]).status matches FileStatusView::Failed(
                _,
            )),
        v.can_fetch() <==> v.url != Seq::<char>::empty(),
        v.is_busy() <==> v.status == AppStatus::Fetching || v.status == AppStatus::Downloading,
        v.is_active() <==> v.status == AppStatus::Downloading || v.status == AppStatus::Paused,
{
    if v.url.len() == 0 {
        assert(v.url =~= Seq::empty());
    }
}

/// A session that fetches shows no list and says so; the address and the folder stay, and the list
/// has another number.
pub proof fn fetching_session_says_so(v: AppView)
    ensures
        v.fetching().status == AppStatus::Fetching,
        v.fetching().status_msg == "Fetching album..."@,
        v.fetching().files == Seq::<FileEntryView>::empty(),
        v.fetching().url == v.url,
        v.fetching().download_dir == v.download_dir,
        v.fetching().list != v.list,
{
}

/// Pausing, resuming and stopping set the status and the message, and nothing else.
pub proof fn turning_a_session_keeps_the_rest(v: AppView, status: AppStatus, msg: Seq<char>)
    ensures
        v.turned(status, msg) == (AppView {
            url: v.url,
            download_dir: v.download_dir,
            list: v.list,
            files: v.files,
            status,
            status_msg: msg,
        }),
{
}

/// Selecting keeps everything but the selection, in every row and in the session.
pub proof fn selecting_keeps_the_rest(v: AppView, selected: bool)
    ensures
        v.with_selection(selected) == (AppView { files: v.with_selection(selected).files, ..v }),
{
}

/// The view of a command that was given is that of the command.
pub proof fn view_of_a_command_that_was_given(command: Option<Command>, c: CommandView)
    ensures
        command_view(command) == Some(c) <==> command is Some && command->0@ == c,
        command_view(command) is None <==> command is None,
{
}

} // verus!
