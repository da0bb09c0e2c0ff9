//! How the background worker takes its commands.
//!
//! Batches of downloads run one at a time, in the order in which they were started. Pausing,
//! resuming and stopping take effect at once, on the batch that runs and on those that wait: each
//! batch has its own flags from the moment it is started. A batch that is started while another
//! one runs also ends a pause, so that the earlier one can run out.
//!
//! Albums are fetched at any time, beside the batch that runs, one after the other in the order in
//! which they were asked for: the list that arrives last is the one that was asked for last.
//! A batch that runs when an album is fetched runs on; what it reports carries the number of its own
//! list, and the new one is not touched by it.
use crate::download::SharedState;
use crate::model::{items_view, AlbumFile, AlbumFileView, Command, CommandView};
use vstd::prelude::*;

verus! {

/// A batch that waits for its turn.
#[derive(Debug)]
pub struct Batch {
    pub list: u64,
    pub items: Vec<(usize, AlbumFile)>,
    pub dir: String,
    pub flags: SharedState,
}

#[verifier::ext_equal]
pub struct BatchView {
    pub list: u64,
    pub items: Seq<(usize, AlbumFileView)>,
    pub dir: Seq<char>,
    pub flags: SharedState,
}

impl View for Batch {
    type V = BatchView;

    open spec fn view(&self) -> BatchView {
        BatchView {
            list: self.list,
            items: items_view(self.items@),
            dir: self.dir@,
            flags: self.flags,
        }
    }
}

/// What the worker does next.
#[derive(Debug)]
pub enum WorkerAction {
    /// Fetch the album at this address.
    Fetch(String),
    /// Run these downloads, for the rows of the list with this number, into this directory.
    Run(u64, Vec<(usize, AlbumFile)>, String),
    /// Nothing now.
    Nothing,
}

#[verifier::ext_equal]
pub enum WorkerActionView {
    Fetch(Seq<char>),
    Run(u64, Seq<(usize, AlbumFileView)>, Seq<char>),
    Nothing,
}

impl View for WorkerAction {
    type V = WorkerActionView;

    open spec fn view(&self) -> WorkerActionView {
        match *self {
            WorkerAction::Fetch(url) => WorkerActionView::Fetch(url@),
            WorkerAction::Run(list, items, dir) => WorkerActionView::Run(
                list,
                items_view(items@),
                dir@,
            ),
            WorkerAction::Nothing => WorkerActionView::Nothing,
        }
    }
}

/// The worker: the flags of the batch that runs, whether one does, and the batches that wait;
/// whether an album is being fetched, and the addresses of those that wait.
#[derive(Debug)]
pub struct Worker {
    pub flags: SharedState,
    pub running: bool,
    pub waiting: Vec<Batch>,
    pub fetching: bool,
    pub addresses: Vec<String>,
}

#[verifier::ext_equal]
pub struct WorkerView {
    pub flags: SharedState,
    pub running: bool,
    pub waiting: Seq<BatchView>,
    pub fetching: bool,
    pub addresses: Seq<Seq<char>>,
}

/// The views of a list of batches.
pub open spec fn batches_view(batches: Seq<Batch>) -> Seq<BatchView> {
    batches.map_values(|b: Batch| b@)
}

/// The views of a list of addresses.
pub open spec fn addresses_view(addresses: Seq<String>) -> Seq<Seq<char>> {
    addresses.map_values(|a: String| a@)
}

impl View for Worker {
    type V = WorkerView;

    open spec fn view(&self) -> WorkerView {
        WorkerView {
            flags: self.flags,
            running: self.running,
            waiting: batches_view(self.waiting@),
            fetching: self.fetching,
            addresses: addresses_view(self.addresses@),
        }
    }
}

impl WorkerView {
    /// The worker as it begins.
    pub open spec fn idle() -> WorkerView {
        WorkerView {
            flags: SharedState { paused: false, stopped: false },
            running: false,
            waiting: Seq::empty(),
            fetching: false,
            addresses: Seq::empty(),
        }
    }

    /// The worker after a command.
    pub open spec fn after(self, command: CommandView) -> WorkerView {
        match command {
            CommandView::Fetch(url) => if self.fetching {
                WorkerView { addresses: self.addresses.push(url), ..self }
            } else {
                WorkerView { fetching: true, ..self }
            },
            CommandView::StartDownload(list, items, dir) => if self.running {
                WorkerView {
                    flags: self.flags.after(CommandView::ResumeAll),
                    waiting: self.waiting.push(
                        BatchView {
                            list,
                            items,
                            dir,
                            flags: SharedState { paused: false, stopped: false },
                        },
                    ),
                    ..self
                }
            } else {
                WorkerView { flags: self.flags.after(command), running: true, ..self }
            },
            _ => WorkerView {
                flags: self.flags.after(command),
                waiting: self.waiting.map_values(
                    |b: BatchView| BatchView { flags: b.flags.after(command), ..b },
                ),
                ..self
            },
        }
    }

    /// What the worker does after a command.
    pub open spec fn action(self, command: CommandView) -> WorkerActionView {
        match command {
            CommandView::Fetch(url) => if self.fetching {
                WorkerActionView::Nothing
            } else {
                WorkerActionView::Fetch(url)
            },
            CommandView::StartDownload(list, items, dir) => if self.running {
                WorkerActionView::Nothing
            } else {
                WorkerActionView::Run(list, items, dir)
            },
            _ => WorkerActionView::Nothing,
        }
    }

    /// The worker after the batch that ran has come to its end.
    pub open spec fn after_batch(self) -> WorkerView {
        if self.waiting.len() == 0 {
            WorkerView { running: false, ..self }
        } else {
            WorkerView {
                flags: self.waiting[0].flags,
                waiting: self.waiting.drop_first(),
                running: true,
                ..self
            }
        }
    }

    /// What the worker does then.
    pub open spec fn action_after_batch(self) -> WorkerActionView {
        if self.waiting.len() == 0 {
            WorkerActionView::Nothing
        } else {
            WorkerActionView::Run(
                self.waiting[0].list,
                self.waiting[0].items,
                self.waiting[0].dir,
            )
        }
    }

    /// The worker after the album that was being fetched has been reported on.
    pub open spec fn after_fetch(self) -> WorkerView {
        if self.addresses.len() == 0 {
            WorkerView { fetching: false, ..self }
        } else {
            WorkerView { addresses: self.addresses.drop_first(), fetching: true, ..self }
        }
    }

    /// What the worker does then.
    pub open spec fn action_after_fetch(self) -> WorkerActionView {
        if self.addresses.len() == 0 {
            WorkerActionView::Nothing
        } else {
            WorkerActionView::Fetch(self.addresses[0])
        }
    }
}

impl Worker {
    /// A worker with nothing to do.
    pub fn new() -> (worker: Worker)
        ensures
            worker@ == WorkerView::idle(),
    {
        let worker = Worker {
            flags: SharedState::new(),
            running: false,
            waiting: Vec::new(),
            fetching: false,
            addresses: Vec::new(),
        };
        assert(worker@ =~= WorkerView::idle());
        worker
    }

    fn steer(&mut self, command: &Command)
        ensures
            final(self)@ == (WorkerView {
                flags: old(self)@.flags.after(command@),
                waiting: old(self)@.waiting.map_values(
                    |b: BatchView| BatchView { flags: b.flags.after(command@), ..b },
                ),
                ..old(self)@
            }),
    {
        self.flags.obey(command);
        let ghost before = self@.waiting;
        let mut i: usize = 0;
        while i < self.waiting.len()
            invariant
                i <= self.waiting.len() == before.len(),
                self.flags == old(self).flags.after(command@),
                self.running == old(self).running,
                self.fetching == old(self).fetching,
                self.addresses == old(self).addresses,
                forall|j: int|
                    0 <= j < i ==> #[trigger] self@.waiting[j] == (BatchView {
                        flags: before[j].flags.after(command@),
                        ..before[j]
                    }),
                forall|j: int| i <= j < before.len() ==> #[trigger] self@.waiting[j] == before[j],
            decreases self.waiting.len() - i,
        {
            let ghost now = self@.waiting;
            let mut flags = self.waiting[i].flags;
            flags.obey(command);
            self.waiting[i].flags = flags;
            assert(self@.waiting =~= now.update(i as int, BatchView { flags, ..now[i as int] }));
            i += 1;
        }
        assert(self@.waiting =~= before.map_values(
            |b: BatchView| BatchView { flags: b.flags.after(command@), ..b },
        ));
    }

    /// Takes a command from the window.
    pub fn take(&mut self, command: Command) -> (action: WorkerAction)
        ensures
            final(self)@ == old(self)@.after(command@),
            action@ == old(self)@.action(command@),
    {
        match command {
            Command::Fetch(url) => {
                if self.fetching {
                    self.addresses.push(url);
                    assert(self@ =~~= old(self)@.after(command@));
                    WorkerAction::Nothing
                } else {
                    self.fetching = true;
                    WorkerAction::Fetch(url)
                }
            },
            Command::StartDownload(list, items, dir) => {
                if self.running {
                    self.flags.paused = false;
                    self.waiting.push(Batch { list, items, dir, flags: SharedState::new() });
                    assert(self@ =~~= old(self)@.after(command@));
                    WorkerAction::Nothing
                } else {
                    self.flags = SharedState::new();
                    self.running = true;
                    WorkerAction::Run(list, items, dir)
                }
            },
            Command::PauseAll => {
                self.steer(&Command::PauseAll);
                WorkerAction::Nothing
            },
            Command::ResumeAll => {
                self.steer(&Command::ResumeAll);
                WorkerAction::Nothing
            },
            Command::StopAll => {
                self.steer(&Command::StopAll);
                WorkerAction::Nothing
            },
        }
    }

    /// Tells the worker that every download of the batch that ran is over.
    pub fn batch_over(&mut self) -> (action: WorkerAction)
        ensures
            final(self)@ == old(self)@.after_batch(),
            action@ == old(self)@.action_after_batch(),
    {
        if self.waiting.len() == 0 {
            self.running = false;
            WorkerAction::Nothing
        } else {
            let batch = self.waiting.remove(0);
            self.flags = batch.flags;
            self.running = true;
            assert(self@ =~~= old(self)@.after_batch());
            WorkerAction::Run(batch.list, batch.items, batch.dir)
        }
    }

    /// Tells the worker that the album that was being fetched has been reported on.
    pub fn fetch_over(&mut self) -> (action: WorkerAction)
        ensures
            final(self)@ == old(self)@.after_fetch(),
            action@ == old(self)@.action_after_fetch(),
    {
        if self.addresses.len() == 0 {
            self.fetching = false;
            WorkerAction::Nothing
        } else {
            let url = self.addresses.remove(0);
            self.fetching = true;
            assert(self@ =~~= old(self)@.after_fetch());
            WorkerAction::Fetch(url)
        }
    }
}

/// What the worker is told: a command, that the batch that ran is over, or that an album has been
/// reported on.
pub enum WorkerInput {
    Take(CommandView),
    BatchOver,
    FetchOver,
}

/// A batch without its flags: the number of the list, the rows with their files, the directory.
pub type Job = (u64, Seq<(usize, AlbumFileView)>, Seq<char>);

/// A worker over a whole run of inputs: where it stands, the batches that were started, those that
/// it has run, and how many of them are over; the addresses that were asked for, those that it has
/// fetched, and how many of them have been reported on.
pub struct WorkerRun {
    pub worker: WorkerView,
    pub started: Seq<Job>,
    pub ran: Seq<Job>,
    pub over: nat,
    pub asked: Seq<Seq<char>>,
    pub fetched: Seq<Seq<char>>,
    pub reported: nat,
}

/// The batches that an action runs: one or none.
pub open spec fn batch_of(action: WorkerActionView) -> Seq<Job> {
    match action {
        WorkerActionView::Run(list, items, dir) => seq![(list, items, dir)],
        _ => Seq::empty(),
    }
}

/// The addresses that an action fetches: one or none.
pub open spec fn address_of(action: WorkerActionView) -> Seq<Seq<char>> {
    match action {
        WorkerActionView::Fetch(url) => seq![url],
        _ => Seq::empty(),
    }
}

/// The batches that wait, without their flags.
pub open spec fn waiting_batches(w: WorkerView) -> Seq<Job> {
    w.waiting.map_values(|b: BatchView| (b.list, b.items, b.dir))
}

impl WorkerRun {
    /// The run with one more input. `None` where a batch is said to be over while none runs, or an
    /// album to be reported on while none is fetched.
    pub open spec fn with_input(self, input: WorkerInput) -> Option<WorkerRun> {
        match input {
            WorkerInput::Take(command) => Some(
                WorkerRun {
                    worker: self.worker.after(command),
                    started: match command {
                        CommandView::StartDownload(list, items, dir) => self.started.push(
                            (list, items, dir),
                        ),
                        _ => self.started,
                    },
                    ran: self.ran + batch_of(self.worker.action(command)),
                    asked: match command {
                        CommandView::Fetch(url) => self.asked.push(url),
                        _ => self.asked,
                    },
                    fetched: self.fetched + address_of(self.worker.action(command)),
                    ..self
                },
            ),
            WorkerInput::BatchOver => if self.worker.running {
                Some(
                    WorkerRun {
                        worker: self.worker.after_batch(),
                        ran: self.ran + batch_of(self.worker.action_after_batch()),
                        over: self.over + 1,
                        ..self
                    },
                )
            } else {
                None
            },
            WorkerInput::FetchOver => if self.worker.fetching {
                Some(
                    WorkerRun {
                        worker: self.worker.after_fetch(),
                        fetched: self.fetched + address_of(self.worker.action_after_fetch()),
                        reported: self.reported + 1,
                        ..self
                    },
                )
            } else {
                None
            },
        }
    }
}

/// The run of a worker over a sequence of inputs. `None` where one of them cannot be.
pub open spec fn work(inputs: Seq<WorkerInput>) -> Option<WorkerRun>
    decreases inputs.len(),
{
    if inputs.len() == 0 {
        Some(
            WorkerRun {
                worker: WorkerView::idle(),
                started: Seq::empty(),
                ran: Seq::empty(),
                over: 0,
                asked: Seq::empty(),
                fetched: Seq::empty(),
                reported: 0,
            },
        )
    } else {
        match work(inputs.drop_last()) {
            Some(before) => before.with_input(inputs.last()),
            None => None,
        }
    }
}

/// No batch is lost, and none overtakes another: those that have run, followed by those that wait,
/// are those that were started. At most one runs at a time, and none waits while none runs.
pub proof fn batches_run_in_order(inputs: Seq<WorkerInput>)
    requires
        work(inputs) is Some,
    ensures
        ({
            let end = work(inputs)->0;
            &&& end.ran + waiting_batches(end.worker) == end.started
            &&& end.ran.len() == end.over + if end.worker.running {
                1nat
            } else {
                0
            }
            &&& !end.worker.running ==> end.worker.waiting.len() == 0
        }),
    decreases inputs.len(),
{
    if inputs.len() == 0 {
        let end = work(inputs)->0;
        assert(end.ran + waiting_batches(end.worker) =~= end.started);
    } else {
        batches_run_in_order(inputs.drop_last());
        let before = work(inputs.drop_last())->0;
        let end = work(inputs)->0;
        let w = before.worker;
        match inputs.last() {
            WorkerInput::Take(command) => {
                match command {
                    CommandView::StartDownload(list, items, dir) => {
                        if w.running {
                            assert(waiting_batches(end.worker) =~= waiting_batches(w).push(
                                (list, items, dir),
                            ));
                        } else {
                            assert(waiting_batches(w) =~= Seq::empty());
                        }
                        assert(end.ran + waiting_batches(end.worker) =~= end.started);
                    },
                    _ => {
                        assert(waiting_batches(end.worker) =~= waiting_batches(w));
                        assert(end.ran =~= before.ran);
                    },
                }
            },
            WorkerInput::BatchOver => {
                if w.waiting.len() > 0 {
                    let first = (w.waiting[0].list, w.waiting[0].items, w.waiting[0].dir);
                    assert(waiting_batches(w)[0] == first);
                    assert(waiting_batches(end.worker) =~= waiting_batches(w).drop_first());
                    assert(waiting_batches(w) =~= seq![first] + waiting_batches(w).drop_first());
                }
                assert(end.ran + waiting_batches(end.worker) =~= end.started);
            },
            WorkerInput::FetchOver => {
                assert(waiting_batches(end.worker) =~= waiting_batches(w));
            },
        }
    }
}

/// No album is left out, and none overtakes another: those that have been fetched, followed by
/// those that wait, are those that were asked for. At most one is fetched at a time, and none waits
/// while none is fetched.
pub proof fn albums_are_fetched_in_order(inputs: Seq<WorkerInput>)
    requires
        work(inputs) is Some,
    ensures
        ({
            let end = work(inputs)->0;
            &&& end.fetched + end.worker.addresses == end.asked
            &&& end.fetched.len() == end.reported + if end.worker.fetching {
                1nat
            } else {
                0
            }
            &&& !end.worker.fetching ==> end.worker.addresses.len() == 0
        }),
    decreases inputs.len(),
{
    let end = work(inputs)->0;
    if inputs.len() > 0 {
        albums_are_fetched_in_order(inputs.drop_last());
        let before = work(inputs.drop_last())->0;
        let w = before.worker;
        if inputs.last() is FetchOver && w.addresses.len() > 0 {
            assert(w.addresses =~= seq![w.addresses[0]] + w.addresses.drop_first());
        }
    }
    assert(end.fetched + end.worker.addresses =~= end.asked);
}

/// An album is fetched at once if no other one is, whether a batch runs or not, and fetching leaves
/// the batches alone.
pub proof fn fetching_waits_for_no_batch(w: WorkerView, url: Seq<char>)
    ensures
        !w.fetching ==> w.action(CommandView::Fetch(url)) == WorkerActionView::Fetch(url),
        ({
            let after = w.after(CommandView::Fetch(url));
            after.flags == w.flags && after.running == w.running && after.waiting == w.waiting
        }),
        w.after_fetch().flags == w.flags && w.after_fetch().running == w.running
            && w.after_fetch().waiting == w.waiting,
{
}

/// Pausing, resuming and stopping reach the batch that runs and every one that waits, and change
/// nothing but their flags.
pub proof fn commands_reach_every_batch(w: WorkerView, command: CommandView)
    requires
        command is PauseAll || command is ResumeAll || command is StopAll,
    ensures
        w.after(command).flags == w.flags.after(command),
        w.after(command).running == w.running,
        w.after(command).fetching == w.fetching,
        w.after(command).addresses == w.addresses,
        w.after(command).waiting.len() == w.waiting.len(),
        forall|i: int|
            0 <= i < w.waiting.len() ==> #[trigger] w.after(command).waiting[i] == (BatchView {
                flags: w.waiting[i].flags.after(command),
                ..w.waiting[i]
            }),
        w.action(command) is Nothing,
{
}

/// The views of the worker, its batches and what it does show every part of them as it is.
pub proof fn views_of_the_worker_show_every_part(w: Worker, b: Batch, action: WorkerAction, i: int)
    ensures
        w@.flags == w.flags && w@.running == w.running && w@.fetching == w.fetching,
        w@.waiting.len() == w.waiting@.len() && w@.addresses.len() == w.addresses@.len(),
        0 <= i < w.waiting@.len() ==> w@.waiting[i] == w.waiting@[i]@,
        0 <= i < w.addresses@.len() ==> w@.addresses[i] == w.addresses@[i]@,
        b@.list == b.list && b@.dir == b.dir@ && b@.flags == b.flags,
        b@.items.len() == b.items@.len(),
        0 <= i < b.items@.len() ==> b@.items[i] == (b.items@[i].0, b.items@[i].1@),
        match action {
            WorkerAction::Fetch(url) => action@ == WorkerActionView::Fetch(url@),
            WorkerAction::Run(list, items, dir) => action@ matches WorkerActionView::Run(l, rows, d)
                && l == list && d == dir@ && rows.len() == items@.len() && (0 <= i < items@.len()
                ==> rows[i] == (items@[i].0, items@[i].1@)),
            WorkerAction::Nothing => action@ is Nothing,
        },
{
}

/// A batch that is started while none runs is run at once, with clear flags; one that is started
/// while another runs waits behind all others with clear flags of its own, and ends a pause of the
/// one that runs.
pub proof fn batch_runs_at_once_or_waits(
    w: WorkerView,
    list: u64,
    items: Seq<(usize, AlbumFileView)>,
    dir: Seq<char>,
)
    ensures
        ({
            let command = CommandView::StartDownload(list, items, dir);
            let clear = SharedState { paused: false, stopped: false };
            if w.running {
                &&& w.action(command) is Nothing
                &&& w.after(command) == (WorkerView {
                    flags: SharedState { paused: false, stopped: w.flags.stopped },
                    running: true,
                    waiting: w.waiting.push(BatchView { list, items, dir, flags: clear }),
                    fetching: w.fetching,
                    addresses: w.addresses,
                })
            } else {
                &&& w.action(command) == WorkerActionView::Run(list, items, dir)
                &&& w.after(command) == (WorkerView {
                    flags: clear,
                    running: true,
                    waiting: w.waiting,
                    fetching: w.fetching,
                    addresses: w.addresses,
                })
            }
        }),
{
}

/// When a batch is over, the one that has waited longest is run, under its own flags, and leaves the
/// queue; where none waits, the worker rests.
pub proof fn next_batch_runs_under_its_own_flags(w: WorkerView, first: BatchView, others: Seq<BatchView>)
    ensures
        w.waiting == seq![first] + others ==> {
            &&& w.action_after_batch() == WorkerActionView::Run(first.list, first.items, first.dir)
            &&& w.after_batch() == (WorkerView {
                flags: first.flags,
                running: true,
                waiting: others,
                fetching: w.fetching,
                addresses: w.addresses,
            })
        },
        w.waiting == Seq::<BatchView>::empty() ==> {
            &&& w.action_after_batch() is Nothing
            &&& w.after_batch() == (WorkerView {
                flags: w.flags,
                running: false,
                waiting: w.waiting,
                fetching: w.fetching,
                addresses: w.addresses,
            })
        },
{
    if w.waiting == seq![first] + others {
        assert(w.waiting[0] == first);
        assert(w.waiting.drop_first() =~= others);
    }
}

/// An album that is asked for while none is fetched is fetched at once; one that is asked for
/// meanwhile waits behind all others, and the one that has waited longest is next.
pub proof fn album_is_fetched_at_once_or_waits(
    w: WorkerView,
    url: Seq<char>,
    others: Seq<Seq<char>>,
)
    ensures
        w.fetching ==> w.action(CommandView::Fetch(url)) is Nothing && w.after(
            CommandView::Fetch(url),
        ) == (WorkerView { addresses: w.addresses.push(url), ..w }),
        !w.fetching ==> w.action(CommandView::Fetch(url)) == WorkerActionView::Fetch(url) && w.after(
            CommandView::Fetch(url),
        ) == (WorkerView { fetching: true, ..w }),
        w.addresses == seq![url] + others ==> w.action_after_fetch() == WorkerActionView::Fetch(url)
            && w.after_fetch() == (WorkerView { addresses: others, fetching: true, ..w }),
        w.addresses == Seq::<Seq<char>>::empty() ==> w.action_after_fetch() is Nothing
            && w.after_fetch() == (WorkerView { fetching: false, ..w }),
{
    if w.addresses == seq![url] + others {
        assert(w.addresses[0] == url);
        assert(w.addresses.drop_first() =~= others);
    }
}

/// Pausing sets one flag of the batch that runs and of every one that waits, resuming clears it, and
/// stopping sets the other and ends a pause; the worker does nothing more.
pub proof fn steering_sets_flags_everywhere(w: WorkerView, i: int)
    requires
        0 <= i < w.waiting.len(),
    ensures
        ({
            let p = w.after(CommandView::PauseAll);
            &&& p.flags.paused && p.flags.stopped == w.flags.stopped
            &&& p.waiting[i].flags.paused && p.waiting[i].flags.stopped == w.waiting[i].flags.stopped
        }),
        ({
            let r = w.after(CommandView::ResumeAll);
            &&& !r.flags.paused && r.flags.stopped == w.flags.stopped
            &&& !r.waiting[i].flags.paused && r.waiting[i].flags.stopped
                == w.waiting[i].flags.stopped
        }),
        ({
            let s = w.after(CommandView::StopAll);
            &&& !s.flags.paused && s.flags.stopped
            &&& !s.waiting[i].flags.paused && s.waiting[i].flags.stopped
        }),
{
}

/// The worker begins with nothing to do.
pub proof fn worker_begins_with_nothing_to_do()
    ensures
        !WorkerView::idle().running && !WorkerView::idle().fetching,
        !WorkerView::idle().flags.paused && !WorkerView::idle().flags.stopped,
        WorkerView::idle().waiting.len() == 0 && WorkerView::idle().addresses.len() == 0,
{
}

} // verus!
