//! The course of one download.
//!
//! A task is driven from outside: it is told what happened, and answers with the messages to send
//! to the window and the one thing to do next. It resolves the link, skips a file that is already
//! there, and otherwise copies the response to disk chunk by chunk, holding still while the
//! session is paused and giving up when it is stopped.
use crate::model::{
    updates_view, AlbumFile, AlbumFileView, Command, CommandView, FileStatus, FileStatusView,
    Progress, Speed, UiUpdate, UiUpdateView,
};
use crate::names::{is_reserved, sanitize_filename, sanitized, sanitizing_is_stable};
use crate::text::{joined_text, result_view};
use vstd::prelude::*;

verus! {

/// How many downloads run at the same time.
pub const CONCURRENT_DOWNLOADS: usize = 3;

/// How long a paused task waits before it looks at the flags again, in milliseconds.
pub const PAUSE_POLL_MILLIS: u64 = 200;

/// The flags by which the window steers running tasks.
#[derive(Debug, Clone, Copy, PartialEq, Eq, Structural)]
pub struct SharedState {
    pub paused: bool,
    pub stopped: bool,
}

impl SharedState {
    /// The flags after a command.
    pub open spec fn after(self, command: CommandView) -> SharedState {
        match command {
            CommandView::Fetch(_) => self,
            CommandView::StartDownload(_, _, _) => SharedState { paused: false, stopped: false },
            CommandView::PauseAll => SharedState { paused: true, ..self },
            CommandView::ResumeAll => SharedState { paused: false, ..self },
            CommandView::StopAll => SharedState { paused: false, stopped: true },
        }
    }

    /// Neither paused nor stopped.
    pub fn new() -> (flags: SharedState)
        ensures
            flags == (SharedState { paused: false, stopped: false }),
    {
        SharedState { paused: false, stopped: false }
    }

    /// Sets the flags as a command asks.
    pub fn obey(&mut self, command: &Command)
        ensures
            *final(self) == old(self).after(command@),
    {
        match command {
            Command::Fetch(_) => {},
            Command::StartDownload(_, _, _) => {
                self.paused = false;
                self.stopped = false;
            },
            Command::PauseAll => {
                self.paused = true;
            },
            Command::ResumeAll => {
                self.paused = false;
            },
            Command::StopAll => {
                self.stopped = true;
                self.paused = false;
            },
        }
    }
}

/// What came out of the response body: so many bytes, or a break in the stream.
#[derive(Debug)]
pub enum Chunk {
    Data(u64),
    Broken(String),
}

#[verifier::ext_equal]
pub enum ChunkView {
    Data(u64),
    Broken(Seq<char>),
}

impl View for Chunk {
    type V = ChunkView;

    open spec fn view(&self) -> ChunkView {
        match *self {
            Chunk::Data(len) => ChunkView::Data(len),
            Chunk::Broken(e) => ChunkView::Broken(e@),
        }
    }
}

impl Clone for Chunk {
    fn clone(&self) -> (copy: Self)
        ensures
            copy@ == self@,
    {
        match self {
            Chunk::Data(len) => Chunk::Data(*len),
            Chunk::Broken(e) => Chunk::Broken(e.clone()),
        }
    }
}

/// How far a task has come.
#[derive(Debug)]
pub enum Phase {
    /// Waiting for one of the slots.
    Queued,
    /// The link is being resolved.
    Resolving,
    /// The destination is being looked at.
    Checking { url: String },
    /// The file has been requested.
    Requesting,
    /// The destination is being created for `total` bytes.
    Creating { total: u64 },
    /// Waiting for the next chunk.
    Receiving { total: u64, downloaded: u64 },
    /// Paused with a chunk in hand.
    Holding { total: u64, downloaded: u64, chunk: Chunk },
    /// `len` bytes are being written.
    Writing { total: u64, downloaded: u64, len: u64 },
    /// Done or failed.
    Finished,
}

#[verifier::ext_equal]
pub enum PhaseView {
    Queued,
    Resolving,
    Checking { url: Seq<char> },
    Requesting,
    Creating { total: u64 },
    Receiving { total: u64, downloaded: u64 },
    Holding { total: u64, downloaded: u64, chunk: ChunkView },
    Writing { total: u64, downloaded: u64, len: u64 },
    Finished,
}

impl View for Phase {
    type V = PhaseView;

    open spec fn view(&self) -> PhaseView {
        match *self {
            Phase::Queued => PhaseView::Queued,
            Phase::Resolving => PhaseView::Resolving,
            Phase::Checking { url } => PhaseView::Checking { url: url@ },
            Phase::Requesting => PhaseView::Requesting,
            Phase::Creating { total } => PhaseView::Creating { total },
            Phase::Receiving { total, downloaded } => PhaseView::Receiving { total, downloaded },
            Phase::Holding { total, downloaded, chunk } => PhaseView::Holding {
                total,
                downloaded,
                chunk: chunk@,
            },
            Phase::Writing { total, downloaded, len } => PhaseView::Writing {
                total,
                downloaded,
                len,
            },
            Phase::Finished => PhaseView::Finished,
        }
    }
}

/// What happened to a task. Flags that come with an event are those of its moment.
#[derive(Debug)]
pub enum TaskEvent {
    /// A slot came free.
    Admitted(SharedState),
    /// The link was resolved, or not.
    Resolved(Result<String, String>),
    /// The size of the file that is already at the destination, if one is there.
    Existing(Option<u64>),
    /// The server answered with a status code, its text, and the length it announced.
    Responded { code: u16, status: String, length: Option<u64> },
    /// The request failed.
    RequestFailed(String),
    /// The destination was created, or not.
    Created(Result<(), String>),
    /// A chunk arrived.
    Received(Chunk, SharedState),
    /// The response body is complete.
    Ended,
    /// The wait of a paused task is over.
    Woke(SharedState),
    /// The chunk was written, this long after the response came (seconds and nanoseconds).
    Written { secs: u64, nanos: u32 },
    /// The chunk could not be written.
    WriteFailed,
}

#[verifier::ext_equal]
pub enum TaskEventView {
    Admitted(SharedState),
    Resolved(Result<Seq<char>, Seq<char>>),
    Existing(Option<u64>),
    Responded { code: u16, status: Seq<char>, length: Option<u64> },
    RequestFailed(Seq<char>),
    Created(Result<(), Seq<char>>),
    Received(ChunkView, SharedState),
    Ended,
    Woke(SharedState),
    Written { secs: u64, nanos: u32 },
    WriteFailed,
}

impl View for TaskEvent {
    type V = TaskEventView;

    open spec fn view(&self) -> TaskEventView {
        match *self {
            TaskEvent::Admitted(flags) => TaskEventView::Admitted(flags),
            TaskEvent::Resolved(r) => TaskEventView::Resolved(result_view(r)),
            TaskEvent::Existing(size) => TaskEventView::Existing(size),
            TaskEvent::Responded { code, status, length } => TaskEventView::Responded {
                code,
                status: status@,
                length,
            },
            TaskEvent::RequestFailed(e) => TaskEventView::RequestFailed(e@),
            TaskEvent::Created(r) => TaskEventView::Created(
                match r {
                    Ok(u) => Ok(u),
                    Err(e) => Err(e@),
                },
            ),
            TaskEvent::Received(chunk, flags) => TaskEventView::Received(chunk@, flags),
            TaskEvent::Ended => TaskEventView::Ended,
            TaskEvent::Woke(flags) => TaskEventView::Woke(flags),
            TaskEvent::Written { secs, nanos } => TaskEventView::Written { secs, nanos },
            TaskEvent::WriteFailed => TaskEventView::WriteFailed,
        }
    }
}

/// What a task wants done next.
#[derive(Debug)]
pub enum TaskAction {
    /// Resolve the link of the file with this id.
    Resolve(u64),
    /// Look whether a file of this name is in the download directory.
    LookFor(String),
    /// Request this address.
    Request(String),
    /// Create a file of this name in the download directory.
    Create(String),
    /// Wait for the next chunk.
    NextChunk,
    /// Wait for `PAUSE_POLL_MILLIS`.
    Wait,
    /// Write the chunk in hand.
    WriteChunk,
    /// Nothing: the task is over.
    Finish,
}

#[verifier::ext_equal]
pub enum TaskActionView {
    Resolve(u64),
    LookFor(Seq<char>),
    Request(Seq<char>),
    Create(Seq<char>),
    NextChunk,
    Wait,
    WriteChunk,
    Finish,
}

impl View for TaskAction {
    type V = TaskActionView;

    open spec fn view(&self) -> TaskActionView {
        match *self {
            TaskAction::Resolve(id) => TaskActionView::Resolve(id),
            TaskAction::LookFor(name) => TaskActionView::LookFor(name@),
            TaskAction::Request(url) => TaskActionView::Request(url@),
            TaskAction::Create(name) => TaskActionView::Create(name@),
            TaskAction::NextChunk => TaskActionView::NextChunk,
            TaskAction::Wait => TaskActionView::Wait,
            TaskAction::WriteChunk => TaskActionView::WriteChunk,
            TaskAction::Finish => TaskActionView::Finish,
        }
    }
}

/// The answer of a task to an event.
#[derive(Debug)]
pub struct TaskStep {
    pub updates: Vec<UiUpdate>,
    pub action: TaskAction,
}

/// One download, for the row `idx` of the list with the number `list`.
#[derive(Debug)]
pub struct DownloadTask {
    pub list: u64,
    pub idx: usize,
    pub file_id: u64,
    pub filename: String,
    pub size: u64,
    pub phase: Phase,
}

#[verifier::ext_equal]
pub struct TaskView {
    pub list: u64,
    pub idx: usize,
    pub file_id: u64,
    pub filename: Seq<char>,
    pub size: u64,
    pub phase: PhaseView,
}

impl View for DownloadTask {
    type V = TaskView;

    open spec fn view(&self) -> TaskView {
        TaskView {
            list: self.list,
            idx: self.idx,
            file_id: self.file_id,
            filename: self.filename@,
            size: self.size,
            phase: self.phase@,
        }
    }
}

/// A transition: the task afterwards, the messages it sends, and what it wants done.
#[verifier::ext_equal]
pub struct Transition {
    pub task: TaskView,
    pub updates: Seq<UiUpdateView>,
    pub action: TaskActionView,
}

/// Whether a status code means success.
pub open spec fn is_success(code: u16) -> bool {
    200 <= code <= 299
}

impl TaskView {
    /// The task as it begins.
    pub open spec fn queued(list: u64, idx: usize, file: AlbumFileView) -> TaskView {
        TaskView {
            list,
            idx,
            file_id: file.id,
            filename: sanitized(file.original),
            size: file.size,
            phase: PhaseView::Queued,
        }
    }

    /// The message that the row is in status `st`.
    pub open spec fn status(self, st: FileStatusView) -> UiUpdateView {
        UiUpdateView::FileStatus(self.list, self.idx, st)
    }

    pub open spec fn goes(
        self,
        phase: PhaseView,
        updates: Seq<UiUpdateView>,
        action: TaskActionView,
    ) -> Option<Transition> {
        Some(Transition { task: TaskView { phase, ..self }, updates, action })
    }

    /// The task gives up.
    pub open spec fn fails(self, reason: Seq<char>) -> Option<Transition> {
        self.goes(
            PhaseView::Finished,
            seq![self.status(FileStatusView::Failed(reason))],
            TaskActionView::Finish,
        )
    }

    /// The whole file, of `bytes` bytes, is there.
    pub open spec fn completes(self, bytes: u64) -> Option<Transition> {
        self.goes(
            PhaseView::Finished,
            seq![
                UiUpdateView::FileProgress(
                    self.list,
                    self.idx,
                    Progress::full(),
                    bytes,
                    Speed::none(),
                ),
                self.status(FileStatusView::Done),
            ],
            TaskActionView::Finish,
        )
    }

    /// The task has a chunk in hand and looks at the flags. When stopped it gives up, when paused
    /// it holds the chunk, and otherwise it uses it.
    pub open spec fn considers(
        self,
        total: u64,
        downloaded: u64,
        chunk: ChunkView,
        flags: SharedState,
    ) -> Option<Transition> {
        if flags.stopped {
            self.fails("Stopped"@)
        } else if flags.paused {
            self.goes(
                PhaseView::Holding { total, downloaded, chunk },
                seq![self.status(FileStatusView::Paused)],
                TaskActionView::Wait,
            )
        } else {
            match chunk {
                ChunkView::Data(len) => self.goes(
                    PhaseView::Writing { total, downloaded, len },
                    seq![self.status(FileStatusView::Downloading)],
                    TaskActionView::WriteChunk,
                ),
                ChunkView::Broken(e) => self.goes(
                    PhaseView::Finished,
                    seq![
                        self.status(FileStatusView::Downloading),
                        self.status(FileStatusView::Failed("Stream: "@ + e)),
                    ],
                    TaskActionView::Finish,
                ),
            }
        }
    }

    /// What the task does on an event. `None` where the event does not belong to its phase, or
    /// where the count of bytes would pass the largest number of 64 bits.
    pub open spec fn next(self, event: TaskEventView) -> Option<Transition> {
        match (self.phase, event) {
            (PhaseView::Queued, TaskEventView::Admitted(flags)) => if flags.stopped {
                self.fails("Stopped"@)
            } else {
                self.goes(
                    PhaseView::Resolving,
                    seq![self.status(FileStatusView::Resolving)],
                    TaskActionView::Resolve(self.file_id),
                )
            },
            (PhaseView::Resolving, TaskEventView::Resolved(Ok(url))) => self.goes(
                PhaseView::Checking { url },
                seq![self.status(FileStatusView::Downloading)],
                TaskActionView::LookFor(self.filename),
            ),
            (PhaseView::Resolving, TaskEventView::Resolved(Err(e))) => self.fails(e),
            (PhaseView::Checking { url }, TaskEventView::Existing(found)) => if found == Some(
                self.size,
            ) && self.size > 0 {
                self.completes(self.size)
            } else {
                self.goes(PhaseView::Requesting, Seq::empty(), TaskActionView::Request(url))
            },
            (PhaseView::Requesting, TaskEventView::Responded { code, status, length }) =>
            if is_success(code) {
                let total = match length {
                    Some(n) => n,
                    None => self.size,
                };
                self.goes(
                    PhaseView::Creating { total },
                    Seq::empty(),
                    TaskActionView::Create(self.filename),
                )
            } else {
                self.fails("HTTP "@ + status)
            },
            (PhaseView::Requesting, TaskEventView::RequestFailed(e)) => self.fails(e),
            (PhaseView::Creating { total }, TaskEventView::Created(Ok(_))) => self.goes(
                PhaseView::Receiving { total, downloaded: 0 },
                Seq::empty(),
                TaskActionView::NextChunk,
            ),
            (PhaseView::Creating { total }, TaskEventView::Created(Err(e))) => self.fails(
                "File create: "@ + e,
            ),
            (PhaseView::Receiving { total, downloaded }, TaskEventView::Ended) => self.completes(
                downloaded,
            ),
            (
                PhaseView::Receiving { total, downloaded },
                TaskEventView::Received(chunk, flags),
            ) => self.considers(total, downloaded, chunk, flags),
            (
                PhaseView::Holding { total, downloaded, chunk },
                TaskEventView::Woke(flags),
            ) => self.considers(total, downloaded, chunk, flags),
            (
                PhaseView::Writing { total, downloaded, len },
                TaskEventView::Written { secs, nanos },
            ) => if downloaded + len <= u64::MAX {
                let sum = (downloaded + len) as u64;
                self.goes(
                    PhaseView::Receiving { total, downloaded: sum },
                    seq![
                        UiUpdateView::FileProgress(
                            self.list,
                            self.idx,
                            Progress { done: sum, total },
                            sum,
                            Speed { bytes: sum, secs, nanos },
                        ),
                    ],
                    TaskActionView::NextChunk,
                )
            } else {
                None
            },
            (PhaseView::Writing { total, downloaded, len }, TaskEventView::WriteFailed) =>
            self.fails("Write error"@),
            _ => None,
        }
    }
}

/// Whether an answer is the one that a transition calls for.
pub open spec fn step_is(step: Option<TaskStep>, task: TaskView, t: Option<Transition>) -> bool {
    match (step, t) {
        (Some(s), Some(t)) => {
            &&& updates_view(s.updates@) == t.updates
            &&& s.action@ == t.action
            &&& task == t.task
        },
        (None, None) => true,
        _ => false,
    }
}

impl DownloadTask {
    /// The task that downloads `file` for row `idx` of the list with the number `list`.
    pub fn new(list: u64, idx: usize, file: &AlbumFile) -> (task: DownloadTask)
        ensures
            task@ == TaskView::queued(list, idx, file@),
    {
        DownloadTask {
            list,
            idx,
            file_id: file.id,
            filename: sanitize_filename(file.original.as_str()),
            size: file.size,
            phase: Phase::Queued,
        }
    }

    fn enter(&mut self, phase: Phase, action: TaskAction) -> (step: Option<TaskStep>)
        ensures
            step_is(step, final(self)@, old(self)@.goes(phase@, Seq::empty(), action@)),
    {
        self.phase = phase;
        let updates: Vec<UiUpdate> = Vec::new();
        assert(updates_view(updates@) =~= Seq::empty());
        Some(TaskStep { updates, action })
    }

    fn report(&mut self, phase: Phase, status: FileStatus, action: TaskAction) -> (step: Option<
        TaskStep,
    >)
        ensures
            step_is(
                step,
                final(self)@,
                old(self)@.goes(phase@, seq![old(self)@.status(status@)], action@),
            ),
    {
        self.phase = phase;
        let mut updates: Vec<UiUpdate> = Vec::new();
        updates.push(UiUpdate::FileStatus(self.list, self.idx, status));
        assert(updates_view(updates@) =~= seq![old(self)@.status(status@)]);
        Some(TaskStep { updates, action })
    }

    fn fail(&mut self, reason: String) -> (step: Option<TaskStep>)
        ensures
            step_is(step, final(self)@, old(self)@.fails(reason@)),
    {
        self.report(Phase::Finished, FileStatus::Failed(reason), TaskAction::Finish)
    }

    fn complete(&mut self, bytes: u64) -> (step: Option<TaskStep>)
        ensures
            step_is(step, final(self)@, old(self)@.completes(bytes)),
    {
        self.phase = Phase::Finished;
        let mut updates: Vec<UiUpdate> = Vec::new();
        updates.push(
            UiUpdate::FileProgress(self.list, self.idx, Progress::full(), bytes, Speed::none()),
        );
        updates.push(UiUpdate::FileStatus(self.list, self.idx, FileStatus::Done));
        assert(updates_view(updates@) =~= old(self)@.completes(bytes)->0.updates);
        Some(TaskStep { updates, action: TaskAction::Finish })
    }

    fn consider(&mut self, total: u64, downloaded: u64, chunk: Chunk, flags: SharedState) -> (step:
        Option<TaskStep>)
        ensures
            step_is(
                step,
                final(self)@,
                old(self)@.considers(total, downloaded, chunk@, flags),
            ),
    {
        if flags.stopped {
            self.fail("Stopped".to_owned())
        } else if flags.paused {
            self.report(
                Phase::Holding { total, downloaded, chunk },
                FileStatus::Paused,
                TaskAction::Wait,
            )
        } else {
            match chunk {
                Chunk::Data(len) => self.report(
                    Phase::Writing { total, downloaded, len },
                    FileStatus::Downloading,
                    TaskAction::WriteChunk,
                ),
                Chunk::Broken(e) => {
                    self.phase = Phase::Finished;
                    let mut updates: Vec<UiUpdate> = Vec::new();
                    let reason = joined_text("Stream: ", e.as_str());
                    updates.push(UiUpdate::FileStatus(self.list, self.idx, FileStatus::Downloading));
                    updates.push(UiUpdate::FileStatus(self.list, self.idx, FileStatus::Failed(reason)));
                    assert(updates_view(updates@) =~= seq![
                        old(self)@.status(FileStatusView::Downloading),
                        old(self)@.status(FileStatusView::Failed("Stream: "@ + e@)),
                    ]);
                    Some(TaskStep { updates, action: TaskAction::Finish })
                },
            }
        }
    }

    /// Tells the task what happened. An event that does not belong to its phase is refused and
    /// leaves the task as it is.
    pub fn step(&mut self, event: TaskEvent) -> (step: Option<TaskStep>)
        ensures
            step_is(step, final(self)@, old(self)@.next(event@)),
            old(self)@.next(event@) is None ==> final(self)@ == old(self)@,
    {
        match event {
            TaskEvent::Admitted(flags) => match &self.phase {
                Phase::Queued => {
                    if flags.stopped {
                        self.fail("Stopped".to_owned())
                    } else {
                        let action = TaskAction::Resolve(self.file_id);
                        self.report(Phase::Resolving, FileStatus::Resolving, action)
                    }
                },
                _ => None,
            },
            TaskEvent::Resolved(result) => match &self.phase {
                Phase::Resolving => match result {
                    Ok(url) => {
                        let action = TaskAction::LookFor(self.filename.clone());
                        self.report(Phase::Checking { url }, FileStatus::Downloading, action)
                    },
                    Err(e) => self.fail(e),
                },
                _ => None,
            },
            TaskEvent::Existing(found) => match &self.phase {
                Phase::Checking { url } => {
                    let present = match found {
                        Some(len) => len == self.size && self.size > 0,
                        None => false,
                    };
                    if present {
                        let size: u64 = self.size;
                        self.complete(size)
                    } else {
                        let action = TaskAction::Request(url.clone());
                        self.enter(Phase::Requesting, action)
                    }
                },
                _ => None,
            },
            TaskEvent::Responded { code, status, length } => match &self.phase {
                Phase::Requesting => {
                    if 200 <= code && code <= 299 {
                        let total: u64 = match length {
                            Some(n) => n,
                            None => self.size,
                        };
                        let action = TaskAction::Create(self.filename.clone());
                        self.enter(Phase::Creating { total }, action)
                    } else {
                        self.fail(joined_text("HTTP ", status.as_str()))
                    }
                },
                _ => None,
            },
            TaskEvent::RequestFailed(e) => match &self.phase {
                Phase::Requesting => self.fail(e),
                _ => None,
            },
            TaskEvent::Created(result) => match &self.phase {
                Phase::Creating { total } => match result {
                    Ok(_) => {
                        let total: u64 = *total;
                        self.enter(Phase::Receiving { total, downloaded: 0 }, TaskAction::NextChunk)
                    },
                    Err(e) => self.fail(joined_text("File create: ", e.as_str())),
                },
                _ => None,
            },
            TaskEvent::Ended => match &self.phase {
                Phase::Receiving { total: _, downloaded } => {
                    let bytes: u64 = *downloaded;
                    self.complete(bytes)
                },
                _ => None,
            },
            TaskEvent::Received(chunk, flags) => match &self.phase {
                Phase::Receiving { total, downloaded } => {
                    let (total, downloaded): (u64, u64) = (*total, *downloaded);
                    self.consider(total, downloaded, chunk, flags)
                },
                _ => None,
            },
            TaskEvent::Woke(flags) => match &self.phase {
                Phase::Holding { total, downloaded, chunk } => {
                    let (total, downloaded): (u64, u64) = (*total, *downloaded);
                    let held = chunk.clone();
                    self.consider(total, downloaded, held, flags)
                },
                _ => None,
            },
            TaskEvent::Written { secs, nanos } => match &self.phase {
                Phase::Writing { total, downloaded, len } => {
                    let total: u64 = *total;
                    match downloaded.checked_add(*len) {
                        Some(sum) => {
                            self.phase = Phase::Receiving { total, downloaded: sum };
                            let mut updates: Vec<UiUpdate> = Vec::new();
                            updates.push(
                                UiUpdate::FileProgress(
                                    self.list,
                                    self.idx,
                                    Progress { done: sum, total },
                                    sum,
                                    Speed { bytes: sum, secs, nanos },
                                ),
                            );
                            assert(updates_view(updates@) =~= old(self)@.next(
                                event@,
                            )->0.updates);
                            Some(TaskStep { updates, action: TaskAction::NextChunk })
                        },
                        None => None,
                    }
                },
                _ => None,
            },
            TaskEvent::WriteFailed => match &self.phase {
                Phase::Writing { total: _, downloaded: _, len: _ } => self.fail(
                    "Write error".to_owned(),
                ),
                _ => None,
            },
        }
    }
}

/// A task that was fed a whole run of events: where it ended up, and all it reported on the way.
#[verifier::ext_equal]
pub struct TaskRun {
    pub task: TaskView,
    pub updates: Seq<UiUpdateView>,
}

/// The run of a task over a sequence of events. `None` where it refuses one of them.
pub open spec fn run(task: TaskView, events: Seq<TaskEventView>) -> Option<TaskRun>
    decreases events.len(),
{
    if events.len() == 0 {
        Some(TaskRun { task, updates: Seq::empty() })
    } else {
        match run(task, events.drop_last()) {
            Some(before) => match before.task.next(events.last()) {
                Some(t) => Some(TaskRun { task: t.task, updates: before.updates + t.updates }),
                None => None,
            },
            None => None,
        }
    }
}

/// The row that a message is about, if it is about a single row.
pub open spec fn row_of(update: UiUpdateView) -> Option<usize> {
    match update {
        UiUpdateView::FileStatus(_, idx, _) => Some(idx),
        UiUpdateView::FileProgress(_, idx, _, _, _) => Some(idx),
        _ => None,
    }
}

/// The number of the list that a message is about, if it is about a row.
pub open spec fn list_of(update: UiUpdateView) -> Option<u64> {
    match update {
        UiUpdateView::FileStatus(list, _, _) => Some(list),
        UiUpdateView::FileProgress(list, _, _, _, _) => Some(list),
        _ => None,
    }
}

/// Whether a message says that a row is done or has failed.
pub open spec fn settles(update: UiUpdateView) -> bool {
    match update {
        UiUpdateView::FileStatus(_, _, st) => st.is_final(),
        _ => false,
    }
}

/// The bytes that arrived in a run of events.
pub open spec fn bytes_received(events: Seq<TaskEventView>) -> nat
    decreases events.len(),
{
    if events.len() == 0 {
        0
    } else {
        bytes_received(events.drop_last()) + match events.last() {
            TaskEventView::Received(ChunkView::Data(len), _) => len as nat,
            _ => 0,
        }
    }
}

/// Whether the count that a task keeps agrees with what has arrived.
pub open spec fn count_agrees(phase: PhaseView, received: nat) -> bool {
    match phase {
        PhaseView::Receiving { total, downloaded } => downloaded == received,
        PhaseView::Holding { total, downloaded, chunk } => match chunk {
            ChunkView::Data(len) => downloaded + len == received,
            ChunkView::Broken(_) => downloaded == received,
        },
        PhaseView::Writing { total, downloaded, len } => downloaded + len == received,
        PhaseView::Finished => true,
        _ => received == 0,
    }
}

/// Over any run, a task reports on its own row of its own list only, and settles it exactly once: a message that
/// settles the row is the last one, and comes exactly when the task finishes.
pub proof fn task_settles_its_row_once(task: TaskView, events: Seq<TaskEventView>)
    requires
        task.phase is Queued,
        run(task, events) is Some,
    ensures
        ({
            let end = run(task, events)->0;
            &&& end.task == TaskView { phase: end.task.phase, ..task }
            &&& forall|k: int|
                0 <= k < end.updates.len() ==> row_of(#[trigger] end.updates[k]) == Some(task.idx)
                    && list_of(end.updates[k]) == Some(task.list)
            &&& forall|k: int|
                0 <= k < end.updates.len() && settles(#[trigger] end.updates[k]) ==> k
                    == end.updates.len() - 1 && end.task.phase is Finished
            &&& end.task.phase is Finished ==> end.updates.len() > 0 && settles(end.updates.last())
        }),
    decreases events.len(),
{
    if events.len() > 0 {
        task_settles_its_row_once(task, events.drop_last());
    }
}

/// The bytes that a task has counted are those that arrived: while it waits for the next chunk the
/// two agree, and when the response ends, the number it reports is their sum.
pub proof fn task_counts_every_byte(task: TaskView, events: Seq<TaskEventView>)
    requires
        task.phase is Queued,
        run(task, events) is Some,
    ensures
        count_agrees(run(task, events)->0.task.phase, bytes_received(events)),
        events.len() > 0 && events.last() is Ended ==> run(task, events)->0.updates.contains(
            UiUpdateView::FileProgress(
                task.list,
                task.idx,
                Progress::full(),
                bytes_received(events) as u64,
                Speed::none(),
            ),
        ),
    decreases events.len(),
{
    if events.len() > 0 {
        task_counts_every_byte(task, events.drop_last());
        task_settles_its_row_once(task, events.drop_last());
        let before = run(task, events.drop_last())->0;
        let end = run(task, events)->0;
        if events.last() is Ended {
            assert(end.updates[before.updates.len() as int] == UiUpdateView::FileProgress(
                task.list,
                task.idx,
                Progress::full(),
                bytes_received(events) as u64,
                Speed::none(),
            ));
        }
    }
}

/// The number of bytes that a message gives, if it gives one.
pub open spec fn count_of(update: UiUpdateView) -> Option<u64> {
    match update {
        UiUpdateView::FileProgress(_, _, _, downloaded, _) => Some(downloaded),
        _ => None,
    }
}

/// Whether no message gives a number of bytes above `most`.
spec fn counts_stay_within(updates: Seq<UiUpdateView>, most: u64) -> bool {
    forall|k: int|
        0 <= k < updates.len() && count_of(#[trigger] updates[k]) is Some ==> count_of(
            updates[k],
        )->0 <= most
}

/// Whether no message gives a smaller number of bytes than one before it.
pub open spec fn counts_never_fall(updates: Seq<UiUpdateView>) -> bool {
    forall|k: int, l: int|
        0 <= k < l < updates.len() && count_of(#[trigger] updates[k]) is Some && count_of(
            #[trigger] updates[l],
        ) is Some ==> count_of(updates[k])->0 <= count_of(updates[l])->0
}

/// The most bytes that a task can have reported in a phase.
spec fn reported_at_most(phase: PhaseView) -> u64 {
    match phase {
        PhaseView::Receiving { total, downloaded } => downloaded,
        PhaseView::Holding { total, downloaded, chunk } => downloaded,
        PhaseView::Writing { total, downloaded, len } => downloaded,
        PhaseView::Finished => u64::MAX,
        _ => 0,
    }
}

/// Over any run, the numbers of bytes that a task reports never fall.
pub proof fn task_counts_upwards(task: TaskView, events: Seq<TaskEventView>)
    requires
        task.phase is Queued,
        run(task, events) is Some,
    ensures
        counts_never_fall(run(task, events)->0.updates),
{
    counts_are_bounded(task, events);
}

proof fn counts_are_bounded(task: TaskView, events: Seq<TaskEventView>)
    requires
        task.phase is Queued,
        run(task, events) is Some,
    ensures
        counts_never_fall(run(task, events)->0.updates),
        counts_stay_within(
            run(task, events)->0.updates,
            reported_at_most(run(task, events)->0.task.phase),
        ),
    decreases events.len(),
{
    if events.len() > 0 {
        counts_are_bounded(task, events.drop_last());
        let before = run(task, events.drop_last())->0;
        let end = run(task, events)->0;
        let added = before.task.next(events.last())->0.updates;
        let n = before.updates.len() as int;
        assert(end.updates == before.updates + added);
        assert forall|k: int| 0 <= k < n implies #[trigger] end.updates[k] == before.updates[k] by {}
        assert forall|k: int| n <= k < end.updates.len() implies #[trigger] end.updates[k]
            == added[k - n] by {}
    }
}

/// Whether a run of messages begins by saying that the row is being resolved, and then that it is
/// being downloaded.
pub open spec fn begins_in_order(task: TaskView, updates: Seq<UiUpdateView>) -> bool {
    &&& updates.len() >= 2
    &&& updates[0] == task.status(FileStatusView::Resolving)
    &&& updates[1] == task.status(FileStatusView::Downloading)
}

/// A task reports that its row is done only after it has reported that the row is being resolved
/// and then that it is being downloaded.
pub proof fn done_follows_resolving_and_downloading(
    task: TaskView,
    events: Seq<TaskEventView>,
    k: int,
)
    requires
        task.phase is Queued,
        run(task, events) is Some,
        0 <= k < run(task, events)->0.updates.len(),
        run(task, events)->0.updates[k] == task.status(FileStatusView::Done),
    ensures
        begins_in_order(task, run(task, events)->0.updates),
        k >= 2,
{
    messages_come_in_order(task, events);
}

proof fn messages_come_in_order(task: TaskView, events: Seq<TaskEventView>)
    requires
        task.phase is Queued,
        run(task, events) is Some,
    ensures
        ({
            let end = run(task, events)->0;
            let done = task.status(FileStatusView::Done);
            &&& end.task == TaskView { phase: end.task.phase, ..task }
            &&& match end.task.phase {
                PhaseView::Queued => end.updates.len() == 0,
                PhaseView::Resolving => end.updates == seq![task.status(FileStatusView::Resolving)],
                PhaseView::Finished => begins_in_order(task, end.updates) || forall|k: int|
                    0 <= k < end.updates.len() ==> #[trigger] end.updates[k] != done,
                _ => begins_in_order(task, end.updates),
            }
        }),
    decreases events.len(),
{
    if events.len() > 0 {
        messages_come_in_order(task, events.drop_last());
        let before = run(task, events.drop_last())->0;
        let end = run(task, events)->0;
        let added = before.task.next(events.last())->0.updates;
        assert(end.updates == before.updates + added);
        if begins_in_order(task, before.updates) {
            assert(end.updates[0] == before.updates[0] && end.updates[1] == before.updates[1]);
        } else if end.task.phase is Resolving {
            assert(end.updates =~= seq![task.status(FileStatusView::Resolving)]);
        }
    }
}

/// A task touches only files of one name: what it looks for or creates is named like the album's
/// file with every reserved character replaced. No separator stands in that name, so that it is a
/// single part of a path; the names that are empty, `.` or `..` are kept as they are, and name the
/// download directory itself or its parent.
pub proof fn task_uses_a_name_without_separators(
    list: u64,
    idx: usize,
    file: AlbumFileView,
    events: Seq<TaskEventView>,
    event: TaskEventView,
    name: Seq<char>,
)
    requires
        run(TaskView::queued(list, idx, file), events) is Some,
        run(TaskView::queued(list, idx, file), events)->0.task.next(event) matches Some(t) && (t.action
            == TaskActionView::LookFor(name) || t.action == TaskActionView::Create(name)),
    ensures
        name == sanitized(file.original),
        forall|i: int| 0 <= i < name.len() ==> !is_reserved(#[trigger] name[i]),
        !name.contains('/') && !name.contains('\\'),
{
    task_settles_its_row_once(TaskView::queued(list, idx, file), events);
    sanitizing_is_stable(file.original);
}

/// The address that a task requests is the link that was resolved for its file.
pub proof fn task_requests_the_resolved_link(
    task: TaskView,
    events: Seq<TaskEventView>,
    event: TaskEventView,
    url: Seq<char>,
)
    requires
        task.phase is Queued,
        run(task, events) is Some,
        run(task, events)->0.task.next(event) matches Some(t) && t.action
            == TaskActionView::Request(url),
    ensures
        events.len() > 0,
        events.last() == TaskEventView::Resolved(Ok(url)),
{
}

/// A finished task takes no more events.
pub proof fn finished_task_is_over(task: TaskView, event: TaskEventView)
    requires
        task.phase is Finished,
    ensures
        task.next(event) is None,
{
}

/// A file that is there with the right size, and is not empty, is not requested again: the task is
/// done as soon as it finds it.
pub proof fn present_file_is_skipped(task: TaskView, url: Seq<char>)
    requires
        task.phase == (PhaseView::Checking { url }),
        task.size > 0,
    ensures
        task.next(TaskEventView::Existing(Some(task.size))) == task.completes(task.size),
{
}

/// Once the session is stopped, a task that looks at the flags fails and does nothing more.
pub proof fn stopped_task_gives_up(task: TaskView, event: TaskEventView, flags: SharedState)
    requires
        flags.stopped,
        event == TaskEventView::Admitted(flags) || event == TaskEventView::Woke(flags) || exists|
            chunk: ChunkView,
        | event == TaskEventView::Received(chunk, flags),
        task.next(event) is Some,
    ensures
        task.next(event) == task.fails("Stopped"@),
{
}

/// While the session is paused, and not stopped, a chunk that has arrived is neither written nor
/// lost: the task holds it, and waits, for as long as the pause lasts.
pub proof fn paused_task_holds_its_chunk(
    task: TaskView,
    total: u64,
    downloaded: u64,
    chunk: ChunkView,
    flags: SharedState,
)
    requires
        flags.paused,
        !flags.stopped,
    ensures
        ({
            let held = PhaseView::Holding { total, downloaded, chunk };
            let waits = task.goes(
                held,
                seq![task.status(FileStatusView::Paused)],
                TaskActionView::Wait,
            );
            &&& task.phase == (PhaseView::Receiving { total, downloaded }) ==> task.next(
                TaskEventView::Received(chunk, flags),
            ) == waits
            &&& task.phase == held ==> task.next(TaskEventView::Woke(flags)) == waits
        }),
{
}

/// Resuming undoes a pause, stopping overrides it, and starting clears both flags, whatever they
/// were. Giving a command twice is giving it once.
pub proof fn commands_set_the_flags(flags: SharedState, command: CommandView)
    ensures
        flags.after(command).after(command) == flags.after(command),
        flags.after(CommandView::PauseAll).after(CommandView::ResumeAll) == (SharedState {
            paused: false,
            ..flags
        }),
        flags.after(CommandView::PauseAll).after(CommandView::StopAll) == flags.after(
            CommandView::StopAll,
        ),
        forall|list: u64, items: Seq<(usize, AlbumFileView)>, dir: Seq<char>|
            #[trigger] flags.after(CommandView::StartDownload(list, items, dir)) == (SharedState {
                paused: false,
                stopped: false,
            }),
{
}

/// The reason that the last message of a transition gives for a failure, if it gives one.
pub open spec fn failure_of(t: Transition) -> Option<Seq<char>> {
    if t.updates.len() == 0 {
        None
    } else {
        match t.updates.last() {
            UiUpdateView::FileStatus(_, _, FileStatusView::Failed(reason)) => Some(reason),
            _ => None,
        }
    }
}

/// Whether the last message of a transition says that the row is done.
pub open spec fn says_done(t: Transition) -> bool {
    t.updates.len() > 0 && (t.updates.last() matches UiUpdateView::FileStatus(_, _, st) && st is Done)
}

/// The chunk that a task looks at on an event: the one that has arrived, or the one it holds.
pub open spec fn chunk_in_hand(task: TaskView, event: TaskEventView) -> Option<ChunkView> {
    match event {
        TaskEventView::Received(chunk, _) => Some(chunk),
        TaskEventView::Woke(_) => match task.phase {
            PhaseView::Holding { total, downloaded, chunk } => Some(chunk),
            _ => None,
        },
        _ => None,
    }
}

/// A task fails exactly when something went wrong, and says what: it was stopped, there is no link,
/// the server refused or could not be reached, the file could not be created or written, or the
/// stream broke while the session was not paused. With that it is over.
pub proof fn task_fails_for_a_reason(task: TaskView, event: TaskEventView)
    requires
        task.next(event) is Some,
    ensures
        failure_of(task.next(event)->0) == match event {
            TaskEventView::Admitted(flags) => if flags.stopped {
                Some("Stopped"@)
            } else {
                None
            },
            TaskEventView::Resolved(Err(e)) => Some(e),
            TaskEventView::Responded { code, status, length } => if 200 <= code && code <= 299 {
                None
            } else {
                Some("HTTP "@ + status)
            },
            TaskEventView::RequestFailed(e) => Some(e),
            TaskEventView::Created(Err(e)) => Some("File create: "@ + e),
            TaskEventView::WriteFailed => Some("Write error"@),
            TaskEventView::Received(_, flags) | TaskEventView::Woke(flags) => if flags.stopped {
                Some("Stopped"@)
            } else if flags.paused {
                None
            } else {
                match chunk_in_hand(task, event) {
                    Some(ChunkView::Broken(e)) => Some("Stream: "@ + e),
                    _ => None,
                }
            },
            _ => None,
        },
        failure_of(task.next(event)->0) is Some ==> task.next(event)->0.task.phase is Finished
            && task.next(event)->0.action is Finish,
{
}

/// A task is done exactly when the file is there already, with the size that the album lists and not
/// empty, or when the response has ended. It then reports the whole file, with the bytes that are
/// there, and is over.
pub proof fn task_is_done_when_the_file_is_there(task: TaskView, event: TaskEventView)
    requires
        task.next(event) is Some,
    ensures
        says_done(task.next(event)->0) <==> event is Ended || (event matches TaskEventView::Existing(
            Some(found),
        ) && found == task.size && found > 0),
        says_done(task.next(event)->0) ==> task.next(event)->0 == (Transition {
            task: TaskView { phase: PhaseView::Finished, ..task },
            updates: seq![
                UiUpdateView::FileProgress(
                    task.list,
                    task.idx,
                    Progress { done: 1, total: 1 },
                    match task.phase {
                        PhaseView::Receiving { total, downloaded } => downloaded,
                        _ => task.size,
                    },
                    Speed { bytes: 0, secs: 0, nanos: 0 },
                ),
                UiUpdateView::FileStatus(task.list, task.idx, FileStatusView::Done),
            ],
            action: TaskActionView::Finish,
        }),
{
}

/// A task that neither fails nor is done asks for the next thing: the link of its file, whether the
/// file is there, the response to the link, a file to write to, the next chunk, or to write the one
/// in hand, which a pause puts off.
pub proof fn task_asks_for_the_next_thing(task: TaskView, event: TaskEventView)
    requires
        task.next(event) is Some,
        failure_of(task.next(event)->0) is None,
        !says_done(task.next(event)->0),
    ensures
        task.next(event)->0.action == match event {
            TaskEventView::Admitted(_) => TaskActionView::Resolve(task.file_id),
            TaskEventView::Resolved(_) => TaskActionView::LookFor(task.filename),
            TaskEventView::Existing(_) => TaskActionView::Request(task.phase->Checking_url),
            TaskEventView::Responded { code, status, length } => TaskActionView::Create(
                task.filename,
            ),
            TaskEventView::Received(_, flags) | TaskEventView::Woke(flags) => if flags.paused {
                TaskActionView::Wait
            } else {
                TaskActionView::WriteChunk
            },
            _ => TaskActionView::NextChunk,
        },
        event is Created || event is Written ==> task.next(event)->0.action is NextChunk,
{
}

/// A file is created only after a successful response, for the bytes that the response announced or
/// else those that the album lists; any other response is a failure, and no file is created.
pub proof fn file_is_created_only_after_success(
    task: TaskView,
    events: Seq<TaskEventView>,
    event: TaskEventView,
)
    requires
        task.phase is Queued,
        run(task, events) is Some,
        run(task, events)->0.task.next(event) is Some,
    ensures
        ({
            let t = run(task, events)->0.task.next(event)->0;
            &&& t.action is Create <==> (event matches TaskEventView::Responded {
                code,
                status,
                length,
            } && 200 <= code && code <= 299)
            &&& t.action is Create ==> t.action == TaskActionView::Create(task.filename) && (
            event matches TaskEventView::Responded { code, status, length } && t.task.phase
                == PhaseView::Creating {
                total: match length {
                    Some(n) => n,
                    None => task.size,
                },
            })
            &&& event matches TaskEventView::Responded { code, status, length } ==> 200 <= code
                <= 299 || {
                &&& t.action is Finish
                &&& t.task.phase is Finished
                &&& t.updates == seq![
                    UiUpdateView::FileStatus(
                        task.list,
                        task.idx,
                        FileStatusView::Failed("HTTP "@ + status),
                    ),
                ]
            }
        }),
{
    task_settles_its_row_once(task, events);
}

/// What a task tells the window besides that it has failed or is done: that it resolves once it is
/// admitted, that it downloads once it has a link and whenever it goes on with a chunk, that it is
/// paused, and after each chunk that was written how much has come in what time.
pub proof fn task_reports_what_it_does(task: TaskView, event: TaskEventView)
    requires
        task.next(event) is Some,
        failure_of(task.next(event)->0) is None,
        !says_done(task.next(event)->0),
    ensures
        ({
            let updates = task.next(event)->0.updates;
            match event {
                TaskEventView::Admitted(_) => updates == seq![
                    UiUpdateView::FileStatus(task.list, task.idx, FileStatusView::Resolving),
                ],
                TaskEventView::Resolved(_) => updates == seq![
                    UiUpdateView::FileStatus(task.list, task.idx, FileStatusView::Downloading),
                ],
                TaskEventView::Received(_, flags) | TaskEventView::Woke(flags) => updates == seq![
                    UiUpdateView::FileStatus(
                        task.list,
                        task.idx,
                        if flags.paused {
                            FileStatusView::Paused
                        } else {
                            FileStatusView::Downloading
                        },
                    ),
                ],
                TaskEventView::Written { secs, nanos } => (task.phase matches PhaseView::Writing {
                    total,
                    downloaded,
                    len,
                } && updates == seq![
                    UiUpdateView::FileProgress(
                        task.list,
                        task.idx,
                        Progress { done: (downloaded + len) as u64, total },
                        (downloaded + len) as u64,
                        Speed { bytes: (downloaded + len) as u64, secs, nanos },
                    ),
                ]),
                _ => updates.len() == 0,
            }
        }),
{
}

/// A broken stream is reported as a failure of a row that is being downloaded; every other failure
/// is reported alone.
pub proof fn failure_is_reported_once(task: TaskView, event: TaskEventView)
    requires
        task.next(event) is Some,
        failure_of(task.next(event)->0) is Some,
    ensures
        ({
            let t = task.next(event)->0;
            let failed = UiUpdateView::FileStatus(
                task.list,
                task.idx,
                FileStatusView::Failed(failure_of(t)->0),
            );
            let broken = (event matches TaskEventView::Received(_, flags) && !flags.stopped) || (
            event matches TaskEventView::Woke(flags) && !flags.stopped);
            t.updates == if broken {
                seq![
                    UiUpdateView::FileStatus(task.list, task.idx, FileStatusView::Downloading),
                    failed,
                ]
            } else {
                seq![failed]
            }
        }),
{
}

/// Where a task stands after an event, if it goes on: it remembers the link until it requests it,
/// the size that was announced, the bytes that it has counted, and the chunk in hand. What it is a
/// task for never changes.
pub proof fn task_remembers_what_it_needs(task: TaskView, event: TaskEventView)
    requires
        task.next(event) is Some,
    ensures
        ({
            let after = task.next(event)->0.task;
            let goes_on = failure_of(task.next(event)->0) is None && !says_done(task.next(event)->0);
            &&& after == TaskView { phase: after.phase, ..task }
            &&& goes_on ==> match event {
                TaskEventView::Admitted(_) => after.phase is Resolving,
                TaskEventView::Resolved(link) => link is Ok && after.phase == PhaseView::Checking {
                    url: link->Ok_0,
                },
                TaskEventView::Existing(_) => after.phase is Requesting,
                TaskEventView::Responded { code, status, length } => after.phase
                    == PhaseView::Creating {
                    total: match length {
                        Some(n) => n,
                        None => task.size,
                    },
                },
                TaskEventView::Created(_) => (task.phase matches PhaseView::Creating { total }
                    && after.phase == PhaseView::Receiving { total, downloaded: 0 }),
                TaskEventView::Received(chunk, flags) => (task.phase matches PhaseView::Receiving {
                    total,
                    downloaded,
                } && after.phase == if flags.paused {
                    PhaseView::Holding { total, downloaded, chunk }
                } else {
                    PhaseView::Writing { total, downloaded, len: chunk->Data_0 }
                }),
                TaskEventView::Woke(flags) => (task.phase matches PhaseView::Holding {
                    total,
                    downloaded,
                    chunk,
                } && after.phase == if flags.paused {
                    PhaseView::Holding { total, downloaded, chunk }
                } else {
                    PhaseView::Writing { total, downloaded, len: chunk->Data_0 }
                }),
                TaskEventView::Written { secs, nanos } => (task.phase matches PhaseView::Writing {
                    total,
                    downloaded,
                    len,
                } && after.phase == PhaseView::Receiving {
                    total,
                    downloaded: (downloaded + len) as u64,
                }),
                _ => false,
            }
        }),
{
}

/// A task takes exactly the events that answer what it asked for, but for a count of bytes that would
/// not fit into 64 bits.
pub proof fn task_takes_the_events_of_its_phase(task: TaskView, event: TaskEventView)
    ensures
        task.next(event) is Some <==> match task.phase {
            PhaseView::Queued => event is Admitted,
            PhaseView::Resolving => event is Resolved,
            PhaseView::Checking { url } => event is Existing,
            PhaseView::Requesting => event is Responded || event is RequestFailed,
            PhaseView::Creating { total } => event is Created,
            PhaseView::Receiving { total, downloaded } => event is Received || event is Ended,
            PhaseView::Holding { total, downloaded, chunk } => event is Woke,
            PhaseView::Writing { total, downloaded, len } => event is WriteFailed || (event is Written
                && downloaded + len <= 0xffff_ffff_ffff_ffff),
            PhaseView::Finished => false,
        },
{
}

/// A new task waits for a slot, for the file that it was made for.
pub proof fn new_task_is_for_its_file(list: u64, idx: usize, file: AlbumFileView)
    ensures
        ({
            let task = TaskView::queued(list, idx, file);
            &&& task.list == list
            &&& task.idx == idx
            &&& task.file_id == file.id
            &&& task.filename == sanitized(file.original)
            &&& task.size == file.size
            &&& task.phase is Queued
        }),
{
}

/// What each command does to the flags: a start clears both, a pause sets the one, resuming clears
/// it, and a stop sets the other and ends a pause. Fetching an album touches neither.
pub proof fn each_command_sets_its_flag(
    flags: SharedState,
    list: u64,
    items: Seq<(usize, AlbumFileView)>,
    text: Seq<char>,
)
    ensures
        flags.after(CommandView::Fetch(text)) == flags,
        flags.after(CommandView::StartDownload(list, items, text)) == (SharedState {
            paused: false,
            stopped: false,
        }),
        flags.after(CommandView::PauseAll) == (SharedState { paused: true, stopped: flags.stopped }),
        flags.after(CommandView::ResumeAll) == (SharedState {
            paused: false,
            stopped: flags.stopped,
        }),
        flags.after(CommandView::StopAll) == (SharedState { paused: false, stopped: true }),
{
}

/// The answer that a transition calls for is that transition: the messages, the action and the task
/// agree with it, and there is an answer exactly where there is a transition.
pub proof fn answer_agrees_with_the_transition(
    step: Option<TaskStep>,
    task: TaskView,
    t: Option<Transition>,
)
    requires
        step_is(step, task, t),
    ensures
        step is Some <==> t is Some,
        t is Some ==> {
            &&& task == t->0.task
            &&& step->0.action@ == t->0.action
            &&& step->0.updates@.len() == t->0.updates.len()
            &&& forall|k: int|
                0 <= k < t->0.updates.len() ==> (#[trigger] step->0.updates@[k])@ == t->0.updates[k]
        },
{
    if t is Some {
        assert forall|k: int| 0 <= k < t->0.updates.len() implies (#[trigger] step->0.updates@[k])@
            == t->0.updates[k] by {
            assert(updates_view(step->0.updates@)[k] == step->0.updates@[k]@);
        }
    }
}

/// The views of tasks, phases and chunks show every part of them as it is.
pub proof fn views_of_tasks_show_every_part(task: DownloadTask, chunk: Chunk)
    ensures
        task@.list == task.list && task@.idx == task.idx && task@.file_id == task.file_id
            && task@.size == task.size,
        task@.filename == task.filename@,
        match task.phase {
            Phase::Queued => task@.phase is Queued,
            Phase::Resolving => task@.phase is Resolving,
            Phase::Checking { url } => task@.phase == PhaseView::Checking { url: url@ },
            Phase::Requesting => task@.phase is Requesting,
            Phase::Creating { total } => task@.phase == PhaseView::Creating { total },
            Phase::Receiving { total, downloaded } => task@.phase == PhaseView::Receiving {
                total,
                downloaded,
            },
            Phase::Holding { total, downloaded, chunk: held } => task@.phase == PhaseView::Holding {
                total,
                downloaded,
                chunk: held@,
            },
            Phase::Writing { total, downloaded, len } => task@.phase == PhaseView::Writing {
                total,
                downloaded,
                len,
            },
            Phase::Finished => task@.phase is Finished,
        },
        match chunk {
            Chunk::Data(len) => chunk@ == ChunkView::Data(len),
            Chunk::Broken(e) => chunk@ == ChunkView::Broken(e@),
        },
{
}

/// The views of what happens to a task and of what it wants done show every part of them as it is.
pub proof fn views_of_steps_show_every_part(event: TaskEvent, action: TaskAction)
    ensures
        match event {
            TaskEvent::Admitted(flags) => event@ == TaskEventView::Admitted(flags),
            TaskEvent::Resolved(Ok(url)) => event@ == TaskEventView::Resolved(Ok(url@)),
            TaskEvent::Resolved(Err(e)) => event@ == TaskEventView::Resolved(Err(e@)),
            TaskEvent::Existing(size) => event@ == TaskEventView::Existing(size),
            TaskEvent::Responded { code, status, length } => event@ == TaskEventView::Responded {
                code,
                status: status@,
                length,
            },
            TaskEvent::RequestFailed(e) => event@ == TaskEventView::RequestFailed(e@),
            TaskEvent::Created(Ok(u)) => event@ == TaskEventView::Created(Ok(u)),
            TaskEvent::Created(Err(e)) => event@ == TaskEventView::Created(Err(e@)),
            TaskEvent::Received(chunk, flags) => event@ == TaskEventView::Received(chunk@, flags),
            TaskEvent::Ended => event@ is Ended,
            TaskEvent::Woke(flags) => event@ == TaskEventView::Woke(flags),
            TaskEvent::Written { secs, nanos } => event@ == TaskEventView::Written { secs, nanos },
            TaskEvent::WriteFailed => event@ is WriteFailed,
        },
        match action {
            TaskAction::Resolve(id) => action@ == TaskActionView::Resolve(id),
            TaskAction::LookFor(name) => action@ == TaskActionView::LookFor(name@),
            TaskAction::Request(url) => action@ == TaskActionView::Request(url@),
            TaskAction::Create(name) => action@ == TaskActionView::Create(name@),
            TaskAction::NextChunk => action@ is NextChunk,
            TaskAction::Wait => action@ is Wait,
            TaskAction::WriteChunk => action@ is WriteChunk,
            TaskAction::Finish => action@ is Finish,
        },
{
}

} // verus!
