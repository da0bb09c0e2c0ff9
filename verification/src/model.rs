//! The data of a download session: album files, their states, and the messages that the window
//! and the background worker exchange. Each type with text in it has a mathematical view, in
//! which every string is the sequence of its characters.
use vstd::prelude::*;

verus! {

/// One file of an album, as the album page lists it.
#[derive(Debug)]
pub struct AlbumFile {
    pub id: u64,
    pub original: String,
    pub size: u64,
    pub timestamp: String,
    pub extension: String,
}

#[verifier::ext_equal]
pub struct AlbumFileView {
    pub id: u64,
    pub original: Seq<char>,
    pub size: u64,
    pub timestamp: Seq<char>,
    pub extension: Seq<char>,
}

impl View for AlbumFile {
    type V = AlbumFileView;

    open spec fn view(&self) -> AlbumFileView {
        AlbumFileView {
            id: self.id,
            original: self.original@,
            size: self.size,
            timestamp: self.timestamp@,
            extension: self.extension@,
        }
    }
}

impl Clone for AlbumFile {
    fn clone(&self) -> (copy: Self)
        ensures
            copy@ == self@,
    {
        AlbumFile {
            id: self.id,
            original: self.original.clone(),
            size: self.size,
            timestamp: self.timestamp.clone(),
            extension: self.extension.clone(),
        }
    }
}

/// What the resolving service answers: a link, encrypted or not, and the time it was made at.
#[derive(Debug)]
pub struct ApiResponse {
    pub encrypted: bool,
    pub timestamp: u64,
    pub url: String,
}

#[verifier::ext_equal]
pub struct ApiResponseView {
    pub encrypted: bool,
    pub timestamp: u64,
    pub url: Seq<char>,
}

impl View for ApiResponse {
    type V = ApiResponseView;

    open spec fn view(&self) -> ApiResponseView {
        ApiResponseView { encrypted: self.encrypted, timestamp: self.timestamp, url: self.url@ }
    }
}

/// Where one file stands.
#[derive(Debug)]
pub enum FileStatus {
    Idle,
    Resolving,
    Downloading,
    Paused,
    Done,
    Failed(String),
}

#[verifier::ext_equal]
pub enum FileStatusView {
    Idle,
    Resolving,
    Downloading,
    Paused,
    Done,
    Failed(Seq<char>),
}

impl FileStatusView {
    /// Nothing more happens to a file that is done or has failed.
    pub open spec fn is_final(self) -> bool {
        self is Done || self is Failed
    }
}

impl View for FileStatus {
    type V = FileStatusView;

    open spec fn view(&self) -> FileStatusView {
        match *self {
            FileStatus::Idle => FileStatusView::Idle,
            FileStatus::Resolving => FileStatusView::Resolving,
            FileStatus::Downloading => FileStatusView::Downloading,
            FileStatus::Paused => FileStatusView::Paused,
            FileStatus::Done => FileStatusView::Done,
            FileStatus::Failed(reason) => FileStatusView::Failed(reason@),
        }
    }
}

impl Clone for FileStatus {
    fn clone(&self) -> (copy: Self)
        ensures
            copy@ == self@,
    {
        match self {
            FileStatus::Idle => FileStatus::Idle,
            FileStatus::Resolving => FileStatus::Resolving,
            FileStatus::Downloading => FileStatus::Downloading,
            FileStatus::Paused => FileStatus::Paused,
            FileStatus::Done => FileStatus::Done,
            FileStatus::Failed(reason) => FileStatus::Failed(reason.clone()),
        }
    }
}

impl FileStatus {
    /// Whether the file is done or has failed.
    pub fn is_final(&self) -> (r: bool)
        ensures
            r == self@.is_final(),
    {
        matches!(self, FileStatus::Done | FileStatus::Failed(_))
    }

    /// Whether the file is done.
    pub fn is_done(&self) -> (r: bool)
        ensures
            r == (self@ is Done),
    {
        matches!(self, FileStatus::Done)
    }

    /// Whether the file has failed.
    pub fn is_failed(&self) -> (r: bool)
        ensures
            r == (self@ is Failed),
    {
        matches!(self, FileStatus::Failed(_))
    }
}

/// The part of a file that has arrived, as the fraction `done / total`. With a total of zero the
/// fraction counts as zero.
#[derive(Debug, Clone, Copy, PartialEq, Eq, Structural)]
pub struct Progress {
    pub done: u64,
    pub total: u64,
}

impl Progress {
    /// The fraction of a file nothing of which has arrived.
    #[verifier::allow_in_spec]
    pub fn none() -> Self
        returns
            (Progress { done: 0, total: 0 }),
    {
        Progress { done: 0, total: 0 }
    }

    /// The fraction of a file that is there as a whole.
    #[verifier::allow_in_spec]
    pub fn full() -> Self
        returns
            (Progress { done: 1, total: 1 }),
    {
        Progress { done: 1, total: 1 }
    }
}

/// A transfer rate: `bytes` in a time of `secs` seconds and `nanos` nanoseconds. Over no time at
/// all the rate counts as zero.
#[derive(Debug, Clone, Copy, PartialEq, Eq, Structural)]
pub struct Speed {
    pub bytes: u64,
    pub secs: u64,
    pub nanos: u32,
}

impl Speed {
    /// The rate of a file that is not being transferred.
    #[verifier::allow_in_spec]
    pub fn none() -> Self
        returns
            (Speed { bytes: 0, secs: 0, nanos: 0 }),
    {
        Speed { bytes: 0, secs: 0, nanos: 0 }
    }
}

/// One row of the file list.
#[derive(Debug)]
pub struct FileEntry {
    pub file: AlbumFile,
    pub selected: bool,
    pub status: FileStatus,
    pub progress: Progress,
    pub downloaded: u64,
    pub speed: Speed,
}

#[verifier::ext_equal]
pub struct FileEntryView {
    pub file: AlbumFileView,
    pub selected: bool,
    pub status: FileStatusView,
    pub progress: Progress,
    pub downloaded: u64,
    pub speed: Speed,
}

impl View for FileEntry {
    type V = FileEntryView;

    open spec fn view(&self) -> FileEntryView {
        FileEntryView {
            file: self.file@,
            selected: self.selected,
            status: self.status@,
            progress: self.progress,
            downloaded: self.downloaded,
            speed: self.speed,
        }
    }
}

/// What the session as a whole is doing.
#[derive(Debug, Clone, Copy, PartialEq, Eq, Structural)]
pub enum AppStatus {
    Idle,
    Fetching,
    Downloading,
    Paused,
}

/// A message from the worker to the window. One about a row carries the number of the list that
/// the row belongs to, and then the row.
#[derive(Debug)]
pub enum UiUpdate {
    AlbumFetched(Vec<AlbumFile>),
    FetchError(String),
    FileStatus(u64, usize, FileStatus),
    FileProgress(u64, usize, Progress, u64, Speed),
}

#[verifier::ext_equal]
pub enum UiUpdateView {
    AlbumFetched(Seq<AlbumFileView>),
    FetchError(Seq<char>),
    FileStatus(u64, usize, FileStatusView),
    FileProgress(u64, usize, Progress, u64, Speed),
}

/// The views of a list of album files.
pub open spec fn album_view(files: Seq<AlbumFile>) -> Seq<AlbumFileView> {
    files.map_values(|f: AlbumFile| f@)
}

impl View for UiUpdate {
    type V = UiUpdateView;

    open spec fn view(&self) -> UiUpdateView {
        match *self {
            UiUpdate::AlbumFetched(files) => UiUpdateView::AlbumFetched(album_view(files@)),
            UiUpdate::FetchError(e) => UiUpdateView::FetchError(e@),
            UiUpdate::FileStatus(list, idx, st) => UiUpdateView::FileStatus(list, idx, st@),
            UiUpdate::FileProgress(list, idx, p, d, s) => UiUpdateView::FileProgress(
                list,
                idx,
                p,
                d,
                s,
            ),
        }
    }
}

/// The views of a list of messages.
pub open spec fn updates_view(updates: Seq<UiUpdate>) -> Seq<UiUpdateView> {
    updates.map_values(|u: UiUpdate| u@)
}

/// A message from the window to the worker. `StartDownload` carries the number of the list, the
/// files to fetch, each with its row in that list, and the directory to put them in.
#[derive(Debug)]
pub enum Command {
    Fetch(String),
    StartDownload(u64, Vec<(usize, AlbumFile)>, String),
    PauseAll,
    ResumeAll,
    StopAll,
}

#[verifier::ext_equal]
pub enum CommandView {
    Fetch(Seq<char>),
    StartDownload(u64, Seq<(usize, AlbumFileView)>, Seq<char>),
    PauseAll,
    ResumeAll,
    StopAll,
}

/// The views of a list of rows and files.
pub open spec fn items_view(items: Seq<(usize, AlbumFile)>) -> Seq<(usize, AlbumFileView)> {
    items.map_values(|item: (usize, AlbumFile)| (item.0, item.1@))
}

impl View for Command {
    type V = CommandView;

    open spec fn view(&self) -> CommandView {
        match *self {
            Command::Fetch(url) => CommandView::Fetch(url@),
            Command::StartDownload(list, items, dir) => CommandView::StartDownload(
                list,
                items_view(items@),
                dir@,
            ),
            Command::PauseAll => CommandView::PauseAll,
            Command::ResumeAll => CommandView::ResumeAll,
            Command::StopAll => CommandView::StopAll,
        }
    }
}

/// The views of files, answers, statuses and rows show every part of them as it is.
pub proof fn views_of_rows_show_every_part(
    file: AlbumFile,
    answer: ApiResponse,
    status: FileStatus,
    row: FileEntry,
)
    ensures
        file@.id == file.id && file@.size == file.size,
        file@.original == file.original@ && file@.timestamp == file.timestamp@ && file@.extension
            == file.extension@,
        answer@.encrypted == answer.encrypted && answer@.timestamp == answer.timestamp && answer@.url
            == answer.url@,
        status@ is Idle <==> status is Idle,
        status@ is Resolving <==> status is Resolving,
        status@ is Downloading <==> status is Downloading,
        status@ is Paused <==> status is Paused,
        status@ is Done <==> status is Done,
        status@ is Failed <==> status is Failed,
        status matches FileStatus::Failed(reason) ==> status@ == FileStatusView::Failed(reason@),
        row@.file == row.file@ && row@.status == row.status@,
        row@.selected == row.selected && row@.progress == row.progress && row@.downloaded
            == row.downloaded && row@.speed == row.speed,
{
}

/// The views of messages and commands show every part of them as it is, lists item by item.
pub proof fn views_of_messages_show_every_part(update: UiUpdate, command: Command, i: int)
    ensures
        match update {
            UiUpdate::AlbumFetched(files) => update@ is AlbumFetched && update@->AlbumFetched_0.len()
                == files@.len() && (0 <= i < files@.len() ==> update@->AlbumFetched_0[i]
                == files@[i]@),
            UiUpdate::FetchError(e) => update@ == UiUpdateView::FetchError(e@),
            UiUpdate::FileStatus(list, idx, st) => update@ == UiUpdateView::FileStatus(
                list,
                idx,
                st@,
            ),
            UiUpdate::FileProgress(list, idx, p, d, s) => update@ == UiUpdateView::FileProgress(
                list,
                idx,
                p,
                d,
                s,
            ),
        },
        match command {
            Command::Fetch(url) => command@ == CommandView::Fetch(url@),
            Command::StartDownload(list, items, dir) => command@ matches CommandView::StartDownload(
                l,
                rows,
                d,
            ) && l == list && d == dir@ && rows.len() == items@.len() && (0 <= i < items@.len()
                ==> rows[i] == (items@[i].0, items@[i].1@)),
            Command::PauseAll => command@ is PauseAll,
            Command::ResumeAll => command@ is ResumeAll,
            Command::StopAll => command@ is StopAll,
        },
{
}

/// A file is settled exactly when it is done or has failed.
pub proof fn settled_is_done_or_failed(status: FileStatusView, reason: Seq<char>)
    ensures
        FileStatusView::Done.is_final(),
        FileStatusView::Failed(reason).is_final(),
        status is Idle || status is Resolving || status is Downloading || status is Paused
            ==> !status.is_final(),
{
}

/// Nothing of a file is no fraction and no rate, and the whole of it is one.
pub proof fn fractions_of_none_and_all()
    ensures
        Progress::none().done == 0 && Progress::none().total == 0,
        Progress::full().done == Progress::full().total && Progress::full().total > 0,
        Speed::none().bytes == 0 && Speed::none().secs == 0 && Speed::none().nanos == 0,
{
}

} // verus!
