use bunkr_dl::download::{
    Chunk, DownloadTask, Phase, SharedState, TaskAction, TaskEvent, TaskStep, CONCURRENT_DOWNLOADS,
    PAUSE_POLL_MILLIS,
};
use bunkr_dl::model::{AlbumFile, Command, FileStatus, Progress, Speed, UiUpdate};

const RUN: SharedState = SharedState { paused: false, stopped: false };
const PAUSE: SharedState = SharedState { paused: true, stopped: false };
const STOP: SharedState = SharedState { paused: false, stopped: true };

fn file(size: u64) -> AlbumFile {
    AlbumFile {
        id: 77,
        original: "a/b.mp4".to_string(),
        size,
        timestamp: "2024".to_string(),
        extension: ".mp4".to_string(),
    }
}

fn show(update: &UiUpdate) -> String {
    match update {
        UiUpdate::FileStatus(3, i, FileStatus::Failed(e)) => format!("{} failed {}", i, e),
        UiUpdate::FileStatus(3, i, st) => format!("{} {:?}", i, st),
        UiUpdate::FileProgress(3, i, p, d, s) => {
            format!("{} {}/{} {} {}@{}.{}", i, p.done, p.total, d, s.bytes, s.secs, s.nanos)
        }
        other => panic!("{:?}", other),
    }
}

fn told(step: &Option<TaskStep>) -> Vec<String> {
    step.as_ref().unwrap().updates.iter().map(show).collect()
}

fn action(step: Option<TaskStep>) -> TaskAction {
    step.unwrap().action
}

fn receiving(size: u64, length: Option<u64>) -> DownloadTask {
    let mut task = DownloadTask::new(3, 4, &file(size));
    action(task.step(TaskEvent::Admitted(RUN)));
    action(task.step(TaskEvent::Resolved(Ok("https://cdn/x".to_string()))));
    action(task.step(TaskEvent::Existing(None)));
    let status = "200 OK".to_string();
    action(task.step(TaskEvent::Responded { code: 200, status, length }));
    action(task.step(TaskEvent::Created(Ok(()))));
    task
}

#[test]
fn limits_of_the_worker() {
    assert_eq!(CONCURRENT_DOWNLOADS, 3);
    assert_eq!(PAUSE_POLL_MILLIS, 200);
}

#[test]
fn download_from_beginning_to_end() {
    let mut task = DownloadTask::new(3, 4, &file(30));
    let step = task.step(TaskEvent::Admitted(RUN));
    assert_eq!(told(&step), ["4 Resolving"]);
    assert!(matches!(action(step), TaskAction::Resolve(77)));

    let step = task.step(TaskEvent::Resolved(Ok("https://cdn/x".to_string())));
    assert_eq!(told(&step), ["4 Downloading"]);
    assert!(matches!(action(step), TaskAction::LookFor(name) if name == "a_b.mp4"));

    let step = task.step(TaskEvent::Existing(Some(29)));
    assert!(told(&step).is_empty());
    assert!(matches!(action(step), TaskAction::Request(url) if url == "https://cdn/x"));

    let status = "206 Partial Content".to_string();
    let step = task.step(TaskEvent::Responded { code: 206, status, length: Some(40) });
    assert!(told(&step).is_empty());
    assert!(matches!(action(step), TaskAction::Create(name) if name == "a_b.mp4"));

    let step = task.step(TaskEvent::Created(Ok(())));
    assert!(told(&step).is_empty());
    assert!(matches!(action(step), TaskAction::NextChunk));

    let step = task.step(TaskEvent::Received(Chunk::Data(10), RUN));
    assert_eq!(told(&step), ["4 Downloading"]);
    assert!(matches!(action(step), TaskAction::WriteChunk));
    let step = task.step(TaskEvent::Written { secs: 1, nanos: 5 });
    assert_eq!(told(&step), ["4 10/40 10 10@1.5"]);
    assert!(matches!(action(step), TaskAction::NextChunk));

    task.step(TaskEvent::Received(Chunk::Data(20), RUN)).unwrap();
    let step = task.step(TaskEvent::Written { secs: 2, nanos: 0 });
    assert_eq!(told(&step), ["4 30/40 30 30@2.0"]);

    let step = task.step(TaskEvent::Ended);
    assert_eq!(told(&step), ["4 1/1 30 0@0.0", "4 Done"]);
    assert!(matches!(action(step), TaskAction::Finish));
    assert!(matches!(task.phase, Phase::Finished));
}

#[test]
fn file_that_is_there_is_skipped() {
    let mut task = DownloadTask::new(3, 0, &file(12));
    task.step(TaskEvent::Admitted(RUN)).unwrap();
    task.step(TaskEvent::Resolved(Ok("u".to_string()))).unwrap();
    let step = task.step(TaskEvent::Existing(Some(12)));
    assert_eq!(told(&step), ["0 1/1 12 0@0.0", "0 Done"]);
    assert!(matches!(action(step), TaskAction::Finish));
}

#[test]
fn empty_file_is_never_skipped() {
    let mut task = DownloadTask::new(3, 0, &file(0));
    task.step(TaskEvent::Admitted(RUN)).unwrap();
    task.step(TaskEvent::Resolved(Ok("u".to_string()))).unwrap();
    assert!(matches!(action(task.step(TaskEvent::Existing(Some(0)))), TaskAction::Request(_)));
}

#[test]
fn listed_size_stands_in_for_a_missing_length() {
    let mut task = receiving(50, None);
    task.step(TaskEvent::Received(Chunk::Data(25), RUN)).unwrap();
    let step = task.step(TaskEvent::Written { secs: 0, nanos: 1 });
    assert_eq!(told(&step), ["4 25/50 25 25@0.1"]);
}

#[test]
fn each_failure_has_its_reason() {
    let mut task = DownloadTask::new(3, 1, &file(5));
    assert_eq!(told(&task.step(TaskEvent::Admitted(STOP))), ["1 failed Stopped"]);

    let mut task = DownloadTask::new(3, 1, &file(5));
    task.step(TaskEvent::Admitted(RUN)).unwrap();
    let step = task.step(TaskEvent::Resolved(Err("API parse: x".to_string())));
    assert_eq!(told(&step), ["1 failed API parse: x"]);

    let requesting = || {
        let mut task = DownloadTask::new(3, 1, &file(5));
        task.step(TaskEvent::Admitted(RUN)).unwrap();
        task.step(TaskEvent::Resolved(Ok("u".to_string()))).unwrap();
        task.step(TaskEvent::Existing(None)).unwrap();
        task
    };
    for code in [199u16, 300, 404, 500] {
        let status = format!("{} Text", code);
        let step = requesting().step(TaskEvent::Responded { code, status, length: Some(1) });
        assert_eq!(told(&step), [format!("1 failed HTTP {} Text", code)]);
    }
    let step = requesting().step(TaskEvent::RequestFailed("timeout".to_string()));
    assert_eq!(told(&step), ["1 failed timeout"]);

    let mut task = requesting();
    let status = "200 OK".to_string();
    task.step(TaskEvent::Responded { code: 200, status, length: None }).unwrap();
    let step = task.step(TaskEvent::Created(Err("denied".to_string())));
    assert_eq!(told(&step), ["1 failed File create: denied"]);

    let mut task = receiving(5, None);
    let step = task.step(TaskEvent::Received(Chunk::Broken("reset".to_string()), RUN));
    assert_eq!(told(&step), ["4 Downloading", "4 failed Stream: reset"]);
    assert!(matches!(action(step), TaskAction::Finish));

    let mut task = receiving(5, None);
    task.step(TaskEvent::Received(Chunk::Data(1), RUN)).unwrap();
    assert_eq!(told(&task.step(TaskEvent::WriteFailed)), ["4 failed Write error"]);
}

#[test]
fn paused_task_holds_its_chunk() {
    let mut task = receiving(5, None);
    let step = task.step(TaskEvent::Received(Chunk::Data(5), PAUSE));
    assert_eq!(told(&step), ["4 Paused"]);
    assert!(matches!(action(step), TaskAction::Wait));
    let step = task.step(TaskEvent::Woke(PAUSE));
    assert_eq!(told(&step), ["4 Paused"]);
    assert!(matches!(action(step), TaskAction::Wait));
    let step = task.step(TaskEvent::Woke(RUN));
    assert_eq!(told(&step), ["4 Downloading"]);
    assert!(matches!(action(step), TaskAction::WriteChunk));
    assert_eq!(told(&task.step(TaskEvent::Written { secs: 0, nanos: 2 })), ["4 5/5 5 5@0.2"]);
}

#[test]
fn stopping_ends_a_task() {
    let mut task = receiving(5, None);
    let step = task.step(TaskEvent::Received(Chunk::Data(5), STOP));
    assert_eq!(told(&step), ["4 failed Stopped"]);
    let both = SharedState { paused: true, stopped: true };
    let mut task = receiving(5, None);
    assert_eq!(told(&task.step(TaskEvent::Received(Chunk::Data(5), both))), ["4 failed Stopped"]);
    let mut task = receiving(5, None);
    task.step(TaskEvent::Received(Chunk::Data(5), PAUSE)).unwrap();
    let step = task.step(TaskEvent::Woke(STOP));
    assert_eq!(told(&step), ["4 failed Stopped"]);
    assert!(matches!(action(step), TaskAction::Finish));
}

#[test]
fn end_of_the_stream_is_done_even_when_stopped() {
    let mut task = receiving(5, None);
    assert_eq!(told(&task.step(TaskEvent::Ended)), ["4 1/1 0 0@0.0", "4 Done"]);
}

#[test]
fn misplaced_task_events_are_refused() {
    let mut task = DownloadTask::new(3, 2, &file(5));
    assert!(task.step(TaskEvent::Ended).is_none());
    assert!(task.step(TaskEvent::Woke(RUN)).is_none());
    assert!(matches!(task.phase, Phase::Queued));
    task.step(TaskEvent::Admitted(STOP)).unwrap();
    for event in [
        TaskEvent::Admitted(RUN),
        TaskEvent::Resolved(Ok(String::new())),
        TaskEvent::Existing(None),
        TaskEvent::RequestFailed(String::new()),
        TaskEvent::Created(Ok(())),
        TaskEvent::Received(Chunk::Data(1), RUN),
        TaskEvent::Ended,
        TaskEvent::Woke(RUN),
        TaskEvent::Written { secs: 0, nanos: 0 },
        TaskEvent::WriteFailed,
    ] {
        assert!(task.step(event).is_none());
    }
    assert!(matches!(task.phase, Phase::Finished));
}

#[test]
fn count_that_would_overflow_is_refused() {
    let mut task = receiving(5, None);
    task.step(TaskEvent::Received(Chunk::Data(u64::MAX), RUN)).unwrap();
    let step = task.step(TaskEvent::Written { secs: 0, nanos: 0 });
    assert_eq!(told(&step), [format!("4 {m}/5 {m} {m}@0.0", m = u64::MAX)]);
    task.step(TaskEvent::Received(Chunk::Data(1), RUN)).unwrap();
    assert!(task.step(TaskEvent::Written { secs: 0, nanos: 0 }).is_none());
    assert!(matches!(task.phase, Phase::Writing { downloaded: u64::MAX, len: 1, .. }));
}

#[test]
fn flags_follow_the_commands() {
    let mut flags = SharedState::new();
    assert_eq!(flags, RUN);
    flags.obey(&Command::PauseAll);
    assert_eq!(flags, PAUSE);
    flags.obey(&Command::Fetch("u".to_string()));
    assert_eq!(flags, PAUSE);
    flags.obey(&Command::ResumeAll);
    assert_eq!(flags, RUN);
    flags.obey(&Command::PauseAll);
    flags.obey(&Command::StopAll);
    assert_eq!(flags, STOP);
    flags.obey(&Command::PauseAll);
    assert_eq!(flags, SharedState { paused: true, stopped: true });
    flags.obey(&Command::StartDownload(0, Vec::new(), String::new()));
    assert_eq!(flags, RUN);
}

#[test]
fn fractions_of_nothing_and_everything() {
    assert_eq!(Progress::none(), Progress { done: 0, total: 0 });
    assert_eq!(Progress::full(), Progress { done: 1, total: 1 });
    assert_eq!(Speed::none(), Speed { bytes: 0, secs: 0, nanos: 0 });
}

#[test]
fn reports_come_in_order_and_counts_never_fall() {
    let mut task = DownloadTask::new(3, 4, &file(30));
    let status = "200 OK".to_string();
    let events = vec![
        TaskEvent::Admitted(RUN),
        TaskEvent::Resolved(Ok("u".to_string())),
        TaskEvent::Existing(Some(29)),
        TaskEvent::Responded { code: 200, status, length: Some(2) },
        TaskEvent::Created(Ok(())),
        TaskEvent::Received(Chunk::Data(5), RUN),
        TaskEvent::Written { secs: 1, nanos: 0 },
        TaskEvent::Received(Chunk::Data(0), PAUSE),
        TaskEvent::Woke(RUN),
        TaskEvent::Written { secs: 2, nanos: 0 },
        TaskEvent::Received(Chunk::Data(7), RUN),
        TaskEvent::Written { secs: 3, nanos: 0 },
        TaskEvent::Ended,
    ];
    let mut updates = Vec::new();
    for event in events {
        updates.extend(task.step(event).unwrap().updates);
    }
    let counts: Vec<u64> = updates
        .iter()
        .filter_map(|u| match u {
            UiUpdate::FileProgress(_, _, _, downloaded, _) => Some(*downloaded),
            _ => None,
        })
        .collect();
    assert_eq!(counts, [5, 5, 12, 12]);
    assert!(matches!(updates[0], UiUpdate::FileStatus(3, 4, FileStatus::Resolving)));
    assert!(matches!(updates[1], UiUpdate::FileStatus(3, 4, FileStatus::Downloading)));
    let done = |u: &UiUpdate| matches!(u, UiUpdate::FileStatus(_, _, FileStatus::Done));
    assert_eq!(updates.iter().position(done), Some(updates.len() - 1));
}
