use bunkr_dl::download::SharedState;
use bunkr_dl::model::{AlbumFile, Command};
use bunkr_dl::worker::{Worker, WorkerAction};

const RUN: SharedState = SharedState { paused: false, stopped: false };
const PAUSE: SharedState = SharedState { paused: true, stopped: false };
const STOP: SharedState = SharedState { paused: false, stopped: true };

fn start(dir: &str) -> Command {
    let file = AlbumFile {
        id: 1,
        original: String::new(),
        size: 0,
        timestamp: String::new(),
        extension: String::new(),
    };
    Command::StartDownload(5, vec![(8, file)], dir.to_string())
}

fn dir_of(action: WorkerAction) -> String {
    match action {
        WorkerAction::Run(list, items, dir) => {
            assert_eq!(list, 5);
            assert_eq!(items.len(), 1);
            assert_eq!(items[0].0, 8);
            dir
        }
        other => panic!("{:?}", other),
    }
}

fn fetch(url: &str) -> Command {
    Command::Fetch(url.to_string())
}

#[test]
fn albums_are_fetched_beside_a_batch() {
    let mut worker = Worker::new();
    assert!(matches!(worker.take(fetch("x")), WorkerAction::Fetch(url) if url == "x"));
    assert!(matches!(worker.fetch_over(), WorkerAction::Nothing));
    dir_of(worker.take(start("a")));
    worker.take(Command::PauseAll);
    assert!(matches!(worker.take(fetch("y")), WorkerAction::Fetch(url) if url == "y"));
    assert!(worker.running);
    assert_eq!(worker.flags, PAUSE);
    worker.take(Command::StopAll);
    assert_eq!(worker.flags, STOP);
    assert!(matches!(worker.fetch_over(), WorkerAction::Nothing));
    assert!(worker.running && !worker.fetching);
}

#[test]
fn albums_are_fetched_in_order() {
    let mut worker = Worker::new();
    assert!(matches!(worker.take(fetch("x")), WorkerAction::Fetch(url) if url == "x"));
    assert!(matches!(worker.take(fetch("y")), WorkerAction::Nothing));
    assert!(matches!(worker.take(fetch("z")), WorkerAction::Nothing));
    assert!(matches!(worker.fetch_over(), WorkerAction::Fetch(url) if url == "y"));
    assert!(matches!(worker.fetch_over(), WorkerAction::Fetch(url) if url == "z"));
    assert!(worker.fetching);
    assert!(matches!(worker.fetch_over(), WorkerAction::Nothing));
    assert!(!worker.fetching);
    assert!(matches!(worker.take(fetch("x")), WorkerAction::Fetch(_)));
}

#[test]
fn batches_wait_for_each_other() {
    let mut worker = Worker::new();
    assert_eq!(dir_of(worker.take(start("a"))), "a");
    assert!(matches!(worker.take(start("b")), WorkerAction::Nothing));
    assert!(matches!(worker.take(start("c")), WorkerAction::Nothing));
    assert_eq!(dir_of(worker.batch_over()), "b");
    assert_eq!(dir_of(worker.batch_over()), "c");
    assert!(worker.running);
    assert!(matches!(worker.batch_over(), WorkerAction::Nothing));
    assert!(!worker.running);
    assert_eq!(dir_of(worker.take(start("d"))), "d");
}

#[test]
fn running_batch_can_be_steered() {
    let mut worker = Worker::new();
    dir_of(worker.take(start("a")));
    assert_eq!(worker.flags, RUN);
    assert!(matches!(worker.take(Command::PauseAll), WorkerAction::Nothing));
    assert_eq!(worker.flags, PAUSE);
    assert!(matches!(worker.take(Command::ResumeAll), WorkerAction::Nothing));
    assert_eq!(worker.flags, RUN);
    assert!(matches!(worker.take(Command::StopAll), WorkerAction::Nothing));
    assert_eq!(worker.flags, STOP);
    worker.batch_over();
    dir_of(worker.take(start("b")));
    assert_eq!(worker.flags, RUN);
}

#[test]
fn stopped_batch_stays_stopped_while_the_next_one_waits() {
    let mut worker = Worker::new();
    dir_of(worker.take(start("a")));
    worker.take(Command::StopAll);
    worker.take(start("b"));
    assert_eq!(worker.flags, STOP);
    assert_eq!(dir_of(worker.batch_over()), "b");
    assert_eq!(worker.flags, RUN);
}

#[test]
fn waiting_batch_ends_a_pause_and_obeys_later_commands() {
    let mut worker = Worker::new();
    dir_of(worker.take(start("a")));
    worker.take(Command::PauseAll);
    worker.take(start("b"));
    assert_eq!(worker.flags, RUN);
    worker.take(Command::StopAll);
    assert_eq!(worker.flags, STOP);
    dir_of(worker.batch_over());
    assert_eq!(worker.flags, STOP);
}
