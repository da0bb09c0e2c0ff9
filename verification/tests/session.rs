use bunkr_dl::display::{shorten_reason, Figure, Placeholder, REASON_BYTES};
use bunkr_dl::download::{Chunk, DownloadTask, SharedState, TaskEvent};
use bunkr_dl::model::{AlbumFile, AppStatus, Command, FileStatus, Progress, Speed, UiUpdate};
use bunkr_dl::state::App;

fn file(id: u64, size: u64) -> AlbumFile {
    AlbumFile {
        id,
        original: format!("file{}.jpg", id),
        size,
        timestamp: "2024-01-01".to_string(),
        extension: ".jpg".to_string(),
    }
}

fn loaded(sizes: &[u64]) -> App {
    let mut app = App::new("/tmp/x".to_string());
    app.url = "https://bunkr.pk/a/x".to_string();
    let files = sizes.iter().enumerate().map(|(i, s)| file(i as u64, *s)).collect();
    app.apply_update(UiUpdate::AlbumFetched(files));
    app
}

// The number of the list in a session that `loaded` made.
const LIST: u64 = 1;

fn status(idx: usize, st: FileStatus) -> UiUpdate {
    UiUpdate::FileStatus(LIST, idx, st)
}

fn progress(idx: usize, progress: Progress, downloaded: u64, speed: Speed) -> UiUpdate {
    UiUpdate::FileProgress(LIST, idx, progress, downloaded, speed)
}

fn failed(reason: &str) -> FileStatus {
    FileStatus::Failed(reason.to_string())
}

fn started(command: Option<Command>) -> (Vec<usize>, Vec<u64>, String) {
    match command {
        Some(Command::StartDownload(list, items, dir)) => {
            assert_eq!(list, LIST);
            (
                items.iter().map(|item| item.0).collect(),
                items.iter().map(|item| item.1.id).collect(),
                dir,
            )
        }
        other => panic!("{:?}", other),
    }
}

#[test]
fn new_session_is_empty() {
    let app = App::new("/tmp/x".to_string());
    assert_eq!(app.url, "");
    assert_eq!(app.download_dir, "/tmp/x");
    assert_eq!(app.list, 0);
    assert!(app.files.is_empty());
    assert_eq!(app.status, AppStatus::Idle);
    assert_eq!(app.status_msg, "");
    assert_eq!(app.placeholder(), Some(Placeholder::Hint));
}

#[test]
fn album_replaces_the_list() {
    let mut app = loaded(&[10, 20]);
    assert_eq!(app.status_msg, "2 files loaded");
    assert_eq!(app.files.len(), 2);
    for e in &app.files {
        assert!(e.selected);
        assert!(matches!(e.status, FileStatus::Idle));
        assert_eq!(e.progress, Progress::none());
        assert_eq!(e.downloaded, 0);
        assert_eq!(e.speed, Speed::none());
    }
    assert_eq!(app.files[1].file.id, 1);
    assert_eq!(app.files[1].file.size, 20);
    assert_eq!(app.placeholder(), None);
    app.status = AppStatus::Fetching;
    app.apply_update(UiUpdate::AlbumFetched(Vec::new()));
    assert!(app.files.is_empty());
    assert_eq!(app.status, AppStatus::Idle);
    assert_eq!(app.status_msg, "0 files loaded");
}

#[test]
fn failed_fetch_is_shown() {
    let mut app = App::new(String::new());
    app.status = AppStatus::Fetching;
    app.apply_update(UiUpdate::FetchError("Network error: x".to_string()));
    assert_eq!(app.status, AppStatus::Idle);
    assert_eq!(app.status_msg, "Error: Network error: x");
    assert_eq!(app.message_color(), (255, 100, 100));
    app.status_msg = "Erro".to_string();
    assert_eq!(app.message_color(), (150, 150, 150));
    app.status_msg = "Error".to_string();
    assert_eq!(app.message_color(), (255, 100, 100));
    app.status_msg = "no Error".to_string();
    assert_eq!(app.message_color(), (150, 150, 150));
}

#[test]
fn fetch_clears_the_list() {
    let mut app = loaded(&[1]);
    assert!(app.can_fetch());
    match app.fetch() {
        Some(Command::Fetch(url)) => assert_eq!(url, "https://bunkr.pk/a/x"),
        other => panic!("{:?}", other),
    }
    assert_eq!(app.status, AppStatus::Fetching);
    assert_eq!(app.status_msg, "Fetching album...");
    assert!(app.files.is_empty());
    assert!(app.is_busy());
    assert_eq!(app.placeholder(), Some(Placeholder::Spinner));
}

#[test]
fn fetch_needs_only_an_address() {
    let mut app = App::new(String::new());
    assert!(!app.can_fetch());
    assert!(app.fetch().is_none());
    assert_eq!((app.status, app.list), (AppStatus::Idle, 0));
    for status in [AppStatus::Idle, AppStatus::Fetching, AppStatus::Downloading, AppStatus::Paused] {
        let mut app = loaded(&[1, 2]);
        app.status = status;
        assert!(app.can_fetch());
        match app.fetch() {
            Some(Command::Fetch(url)) => assert_eq!(url, "https://bunkr.pk/a/x"),
            other => panic!("{:?}", other),
        }
        assert_eq!(app.status, AppStatus::Fetching);
        assert_eq!(app.list, LIST + 1);
        assert!(app.files.is_empty());
    }
    let mut app = loaded(&[1]);
    app.start();
    assert!(matches!(app.fetch(), Some(Command::Fetch(_))));
    assert!(matches!(app.fetch(), Some(Command::Fetch(_))));
    app.url = String::new();
    app.status = AppStatus::Downloading;
    assert!(app.fetch().is_none());
    assert_eq!(app.status, AppStatus::Downloading);
}

#[test]
fn old_batch_leaves_a_new_list_alone() {
    let mut app = loaded(&[1, 2]);
    app.start();
    app.fetch();
    app.apply_update(status(0, FileStatus::Done));
    assert_eq!(app.status, AppStatus::Fetching);
    app.apply_update(UiUpdate::AlbumFetched(vec![file(7, 70), file(8, 80)]));
    app.apply_update(status(0, FileStatus::Done));
    app.apply_update(progress(1, Progress::full(), 2, Speed::none()));
    app.apply_update(status(1, failed("Stopped")));
    for e in &app.files {
        assert!(matches!(e.status, FileStatus::Idle));
        assert_eq!(e.downloaded, 0);
    }
    let now = app.list;
    assert_ne!(now, LIST);
    match app.start() {
        Some(Command::StartDownload(list, items, _)) => {
            assert_eq!(list, now);
            assert_eq!(items.iter().map(|item| item.1.id).collect::<Vec<u64>>(), [7, 8]);
        }
        other => panic!("{:?}", other),
    }
    app.process_updates(vec![
        status(0, FileStatus::Done),
        UiUpdate::FileStatus(now, 0, FileStatus::Done),
        status(1, failed("Stopped")),
    ]);
    assert_eq!(app.status, AppStatus::Downloading);
    app.process_updates(vec![UiUpdate::FileStatus(now, 1, FileStatus::Done)]);
    assert_eq!(app.status, AppStatus::Idle);
    assert_eq!(app.status_msg, "Complete: 2 done, 0 failed");
}

#[test]
fn every_list_has_a_number_of_its_own() {
    let mut app = loaded(&[1]);
    app.fetch();
    assert_eq!(app.list, 2);
    app.apply_update(UiUpdate::FetchError("x".to_string()));
    assert_eq!(app.list, 2);
    app.apply_update(UiUpdate::AlbumFetched(Vec::new()));
    assert_eq!(app.list, 3);
    app.list = u64::MAX;
    app.fetch();
    assert_eq!(app.list, 0);
}

#[test]
fn start_takes_selected_rows_that_are_not_done() {
    let mut app = loaded(&[1, 2, 3, 4]);
    app.set_selected(1, false);
    app.apply_update(status(2, FileStatus::Done));
    app.apply_update(status(3, failed("x")));
    app.apply_update(progress(
        3,
        Progress { done: 1, total: 2 },
        1,
        Speed { bytes: 1, secs: 1, nanos: 0 },
    ));
    assert!(app.can_start());
    let (rows, ids, dir) = started(app.start());
    assert_eq!(rows, [0, 3]);
    assert_eq!(ids, [0, 3]);
    assert_eq!(dir, "/tmp/x");
    assert_eq!(app.status, AppStatus::Downloading);
    assert_eq!(app.status_msg, "Downloading...");
    assert!(matches!(app.files[3].status, FileStatus::Idle));
    assert_eq!(app.files[3].progress, Progress::none());
    assert_eq!(app.files[3].downloaded, 0);
    assert_eq!(app.files[3].speed, Speed::none());
    assert!(matches!(app.files[2].status, FileStatus::Done));
    assert!(!app.files[1].selected);
    assert!(app.start().is_none());
}

#[test]
fn start_needs_a_selected_row() {
    let mut app = loaded(&[1, 2]);
    app.deselect_all();
    assert!(!app.can_start());
    assert!(app.start().is_none());
    assert_eq!(app.status, AppStatus::Idle);
    assert!(App::new(String::new()).start().is_none());
}

#[test]
fn retry_takes_failed_rows_selected_or_not() {
    let mut app = loaded(&[1, 2, 3]);
    assert!(!app.can_retry());
    assert!(app.retry_failed().is_none());
    app.apply_update(status(0, failed("a")));
    app.apply_update(status(2, failed("b")));
    app.set_selected(2, false);
    assert!(app.has_failed() && app.can_retry());
    let (rows, ids, _) = started(app.retry_failed());
    assert_eq!(rows, [0, 2]);
    assert_eq!(ids, [0, 2]);
    assert_eq!(app.status, AppStatus::Downloading);
    assert_eq!(app.status_msg, "Retrying failed...");
    assert!(!app.has_failed());
    assert!(app.retry_failed().is_none());
}

#[test]
fn pause_resume_and_stop() {
    let mut app = loaded(&[1]);
    assert!(app.pause().is_none() && app.resume().is_none() && app.stop().is_none());
    app.start();
    assert!(app.resume().is_none());
    assert!(matches!(app.pause(), Some(Command::PauseAll)));
    assert_eq!((app.status, app.status_msg.as_str()), (AppStatus::Paused, "Paused"));
    assert!(app.pause().is_none());
    assert!(matches!(app.resume(), Some(Command::ResumeAll)));
    assert_eq!((app.status, app.status_msg.as_str()), (AppStatus::Downloading, "Downloading..."));
    app.pause();
    assert!(matches!(app.stop(), Some(Command::StopAll)));
    assert_eq!((app.status, app.status_msg.as_str()), (AppStatus::Idle, "Stopped"));
    app.start();
    assert!(matches!(app.stop(), Some(Command::StopAll)));
}

#[test]
fn download_ends_when_every_selected_row_is_settled() {
    let mut app = loaded(&[1, 2, 3]);
    app.set_selected(1, false);
    app.start();
    app.process_updates(vec![
        status(0, FileStatus::Resolving),
        status(0, FileStatus::Downloading),
        status(0, FileStatus::Done),
        status(2, FileStatus::Resolving),
    ]);
    assert_eq!(app.status, AppStatus::Downloading);
    app.process_updates(vec![status(2, failed("HTTP 404"))]);
    assert_eq!(app.status, AppStatus::Idle);
    assert_eq!(app.status_msg, "Complete: 1 done, 1 failed");
}

#[test]
fn paused_session_ends_too() {
    let mut app = loaded(&[1]);
    app.start();
    app.pause();
    app.apply_update(status(0, FileStatus::Done));
    assert_eq!(app.status, AppStatus::Idle);
    assert_eq!(app.status_msg, "Complete: 1 done, 0 failed");
}

#[test]
fn idle_session_keeps_its_message() {
    let mut app = loaded(&[1]);
    app.start();
    app.stop();
    app.apply_update(status(0, failed("Stopped")));
    assert_eq!(app.status, AppStatus::Idle);
    assert_eq!(app.status_msg, "Stopped");
    assert!(app.files[0].status.is_failed());
}

#[test]
fn messages_about_missing_rows_change_no_row() {
    let mut app = loaded(&[1, 2]);
    app.apply_update(status(2, FileStatus::Done));
    app.apply_update(progress(9, Progress::full(), 5, Speed::none()));
    for e in &app.files {
        assert!(matches!(e.status, FileStatus::Idle));
        assert_eq!(e.downloaded, 0);
    }
}

#[test]
fn progress_touches_its_row_only() {
    let mut app = loaded(&[1, 2]);
    let speed = Speed { bytes: 7, secs: 1, nanos: 9 };
    app.apply_update(progress(1, Progress { done: 7, total: 8 }, 7, speed));
    assert_eq!(app.files[1].progress, Progress { done: 7, total: 8 });
    assert_eq!(app.files[1].downloaded, 7);
    assert_eq!(app.files[1].speed, speed);
    assert!(matches!(app.files[1].status, FileStatus::Idle));
    assert_eq!(app.files[0].downloaded, 0);
}

#[test]
fn selection_reaches_every_row() {
    let mut app = loaded(&[1, 2, 3]);
    assert_eq!(app.selected_count(), 3);
    app.deselect_all();
    assert_eq!(app.selected_count(), 0);
    assert!(!app.any_selected());
    app.set_selected(2, true);
    assert_eq!(app.selected_count(), 1);
    app.select_all();
    assert_eq!(app.selected_count(), 3);
}

#[test]
fn busy_session_keeps_its_selection() {
    for busy in [AppStatus::Downloading, AppStatus::Fetching] {
        let mut app = loaded(&[1, 2]);
        app.set_selected(0, false);
        app.status = busy;
        app.select_all();
        assert_eq!(app.selected_count(), 1);
        app.deselect_all();
        assert_eq!(app.selected_count(), 1);
        app.set_selected(0, true);
        assert!(!app.files[0].selected);
        app.status = AppStatus::Paused;
        app.set_selected(0, true);
        assert!(app.files[0].selected);
    }
}

#[test]
fn figures_are_summed() {
    let mut app = loaded(&[100, 20, 3]);
    app.set_selected(1, false);
    for i in 0..3usize {
        let n = 10 * (i as u64 + 1);
        app.apply_update(progress(i, Progress::none(), n, Speed::none()));
    }
    assert_eq!(app.sum(Figure::Size), Some(123));
    assert_eq!(app.sum(Figure::SelectedSize), Some(103));
    assert_eq!(app.sum(Figure::SelectedDownloaded), Some(40));
    let mut huge = loaded(&[u64::MAX, 1]);
    assert_eq!(huge.sum(Figure::Size), None);
    assert_eq!(huge.sum(Figure::SelectedSize), None);
    huge.set_selected(1, false);
    assert_eq!(huge.sum(Figure::SelectedSize), Some(u64::MAX));
}

#[test]
fn only_running_rows_have_a_rate() {
    let mut app = loaded(&[1, 2, 3]);
    for i in 0..3usize {
        let speed = Speed { bytes: i as u64, secs: 1, nanos: 0 };
        app.apply_update(progress(i, Progress::none(), 0, speed));
    }
    app.apply_update(status(0, FileStatus::Downloading));
    app.apply_update(status(1, FileStatus::Paused));
    app.apply_update(status(2, FileStatus::Downloading));
    let bytes: Vec<u64> = app.speeds().iter().map(|s| s.bytes).collect();
    assert_eq!(bytes, [0, 2]);
}

#[test]
fn labels_of_the_window() {
    let mut app = loaded(&[1024, 1024, 512]);
    app.set_selected(2, false);
    app.apply_update(status(2, FileStatus::Done));
    assert_eq!(app.done_count(), 1);
    assert_eq!(
        app.selection_label(2048, 1536),
        "2/3 selected  •  2.00 KB  •  1/2  •  ↓ 1.50 KB/s"
    );
    assert_eq!(app.album_label(2560), "  3 files  •  2.50 KB");
}

#[test]
fn texts_and_colours_of_rows() {
    let cases = [
        (FileStatus::Idle, "—", (120, 120, 120), false),
        (FileStatus::Resolving, "resolving...", (200, 200, 100), false),
        (FileStatus::Downloading, "42%  1.00 KB/s", (100, 180, 255), true),
        (FileStatus::Paused, "paused", (255, 200, 50), true),
        (FileStatus::Done, "✓", (100, 220, 100), false),
        (failed("HTTP 404"), "✗ HTTP 404", (255, 100, 100), false),
    ];
    for (st, text, color, bar) in cases {
        assert_eq!(st.text("42", 1024), text);
        assert_eq!(st.color(), color);
        assert_eq!(st.shows_bar(), bar);
        assert_eq!(st.clone().text("42", 1024), text);
    }
}

#[test]
fn long_reasons_are_cut() {
    assert_eq!(REASON_BYTES, 30);
    assert_eq!(shorten_reason("123456789012345678901234567890"), "123456789012345678901234567890");
    assert_eq!(shorten_reason("123456789012345678901234567890x"), "123456789012345678901234567890");
    let accents = "é".repeat(20);
    assert_eq!(shorten_reason(&accents), "é".repeat(15));
    assert_eq!(shorten_reason(""), "");
}

#[test]
fn finished_tasks_end_the_download() {
    let run = SharedState::new();
    let mut app = loaded(&[5, 0, 9]);
    let command = app.start();
    let (list, items) = match command {
        Some(Command::StartDownload(list, items, _)) => (list, items),
        other => panic!("{:?}", other),
    };
    let mut tasks: Vec<DownloadTask> =
        items.iter().map(|(idx, file)| DownloadTask::new(list, *idx, file)).collect();
    let mut send = |app: &mut App, k: usize, event: TaskEvent| {
        app.process_updates(tasks[k].step(event).unwrap().updates);
    };
    for k in 0..3 {
        send(&mut app, k, TaskEvent::Admitted(run));
        send(&mut app, k, TaskEvent::Resolved(Ok("u".to_string())));
    }
    send(&mut app, 0, TaskEvent::Existing(Some(5)));
    send(&mut app, 1, TaskEvent::Existing(None));
    send(&mut app, 2, TaskEvent::Existing(None));
    send(&mut app, 2, TaskEvent::RequestFailed("no route".to_string()));
    let status = "200 OK".to_string();
    send(&mut app, 1, TaskEvent::Responded { code: 200, status, length: None });
    send(&mut app, 1, TaskEvent::Created(Ok(())));
    send(&mut app, 1, TaskEvent::Received(Chunk::Data(7), run));
    send(&mut app, 1, TaskEvent::Written { secs: 1, nanos: 0 });
    assert_eq!(app.status, AppStatus::Downloading);
    send(&mut app, 1, TaskEvent::Ended);
    assert_eq!(app.status, AppStatus::Idle);
    assert_eq!(app.status_msg, "Complete: 2 done, 1 failed");
    assert_eq!(app.files[1].downloaded, 7);
    assert_eq!(app.files[1].progress, Progress::full());
}

#[test]
fn finished_tasks_end_a_retry() {
    let run = SharedState::new();
    let mut app = loaded(&[5, 6]);
    app.start();
    app.process_updates(vec![status(0, failed("x")), status(1, FileStatus::Done)]);
    assert_eq!(app.status_msg, "Complete: 1 done, 1 failed");
    let (list, items) = match app.retry_failed() {
        Some(Command::StartDownload(list, items, _)) => (list, items),
        other => panic!("{:?}", other),
    };
    assert_eq!(items.len(), 1);
    let mut task = DownloadTask::new(list, items[0].0, &items[0].1);
    app.process_updates(task.step(TaskEvent::Admitted(run)).unwrap().updates);
    app.process_updates(task.step(TaskEvent::Resolved(Ok("u".to_string()))).unwrap().updates);
    assert_eq!(app.status, AppStatus::Downloading);
    app.process_updates(task.step(TaskEvent::Existing(Some(5))).unwrap().updates);
    assert_eq!(app.status, AppStatus::Idle);
    assert_eq!(app.status_msg, "Complete: 2 done, 0 failed");
}
