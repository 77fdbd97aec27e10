use pmvheaven::models::{SyncProgress, SyncResult};
use pmvheaven::sync::{
    begin_job, end_job, is_syncing, publish_all, push_duration, set_progress, sync_progress,
    HistoryCommand, HistoryEvent, HistoryPush, HistorySync, PushCommand, PushEvent, SyncStatus,
};

fn progress(phase: &str, processed: u64) -> SyncProgress {
    SyncProgress {
        phase: phase.to_string(),
        processed,
        total: 0,
        new_count: 0,
        total_retained: 0,
        message: None,
    }
}

#[test]
fn job_gate() {
    let mut st = SyncStatus::new();
    assert!(!is_syncing(&st));
    assert_eq!(sync_progress(&st), None);
    let r = begin_job(&mut st, false, progress("fetching", 0)).unwrap();
    assert_eq!((r.status.as_str(), r.message.as_deref()), ("skipped", Some("Not connected")));
    assert!(!is_syncing(&st));
    assert!(begin_job(&mut st, true, progress("fetching", 0)).is_none());
    assert!(is_syncing(&st));
    assert_eq!(sync_progress(&st), Some(progress("fetching", 0)));
    let again = begin_job(&mut st, true, progress("x", 1)).unwrap();
    assert_eq!(again.message.as_deref(), Some("Sync already running"));
    assert_eq!((again.new_count, again.seen_count, again.total_retained), (0, 0, 0));
    publish_all(&mut st, vec![progress("a", 1), progress("b", 2)]);
    assert_eq!(sync_progress(&st), Some(progress("b", 2)));
    publish_all(&mut st, vec![]);
    assert_eq!(sync_progress(&st), Some(progress("b", 2)));
    set_progress(&mut st, progress("c", 3));
    assert!(is_syncing(&st));
    end_job(&mut st, progress("done", 3));
    assert!(!is_syncing(&st));
    assert_eq!(sync_progress(&st), Some(progress("done", 3)));
}

fn finish_result(cmd: HistoryCommand) -> SyncResult {
    match cmd {
        HistoryCommand::Finish { result } => result,
        _ => panic!("expected the end"),
    }
}

#[test]
fn pull_with_empty_remote_history() {
    let (mut s, first) = HistorySync::start();
    assert_eq!(first.updates[0].phase, "fetching");
    assert_eq!(first.updates[0].message.as_deref(), Some("Fetching history from PMVHaven…"));
    assert!(matches!(first.command, HistoryCommand::FetchRemote));
    let step = s.step(HistoryEvent::Fetched { total: 0, total_retained: 12 });
    assert_eq!(step.updates.len(), 2);
    assert_eq!(step.updates[1].phase, "done");
    let r = finish_result(step.command);
    assert_eq!((r.status.as_str(), r.new_count, r.seen_count, r.total_retained), ("ok", 0, 0, 12));
}

#[test]
fn pull_that_fails() {
    let (mut s, _) = HistorySync::start();
    let step = s.step(HistoryEvent::FetchFailed { message: "boom".to_string() });
    assert_eq!(step.updates[0].message.as_deref(), Some("boom"));
    let r = finish_result(step.command);
    assert_eq!((r.status.as_str(), r.message.as_deref()), ("error", Some("boom")));
}

#[test]
fn pull_hydrates_in_chunks_then_saves() {
    let (mut s, _) = HistorySync::start();
    let step = s.step(HistoryEvent::Fetched { total: 3, total_retained: 40 });
    assert_eq!(step.updates[1].phase, "hydrating");
    assert_eq!(step.updates[1].total, 3);
    assert!(matches!(step.command, HistoryCommand::ListUncached));
    let uncached: Vec<String> = (0..150).map(|i| format!("id{i}")).collect();
    let step = s.step(HistoryEvent::Listed { uncached: uncached.clone() });
    match step.command {
        HistoryCommand::FetchChunk { ids } => assert_eq!(ids, uncached[..100].to_vec()),
        _ => panic!("expected a chunk"),
    }
    let step = s.step(HistoryEvent::ChunkCached);
    assert_eq!((step.updates[0].processed, step.updates[0].total), (100, 150));
    match step.command {
        HistoryCommand::FetchChunk { ids } => assert_eq!(ids, uncached[100..].to_vec()),
        _ => panic!("expected the second chunk"),
    }
    let step = s.step(HistoryEvent::ChunkCached);
    assert_eq!(step.updates[0].processed, 150);
    assert_eq!(step.updates[1].phase, "saving");
    assert!(matches!(step.command, HistoryCommand::SaveEntry { index: 0 }));
    let step = s.step(HistoryEvent::EntrySaved { cached: true, inserted: true });
    assert!(matches!(step.command, HistoryCommand::SaveEntry { index: 1 }));
    let step = s.step(HistoryEvent::EntrySaved { cached: true, inserted: false });
    assert!(matches!(step.command, HistoryCommand::SaveEntry { index: 2 }));
    let step = s.step(HistoryEvent::EntrySaved { cached: false, inserted: false });
    assert_eq!(step.updates[0].phase, "done");
    assert_eq!((step.updates[0].processed, step.updates[0].new_count), (3, 1));
    let r = finish_result(step.command);
    assert_eq!((r.status.as_str(), r.new_count, r.seen_count, r.total_retained), ("ok", 1, 1, 40));
}

#[test]
fn pull_with_everything_cached() {
    let (mut s, _) = HistorySync::start();
    s.step(HistoryEvent::Fetched { total: 1, total_retained: 1 });
    let step = s.step(HistoryEvent::Listed { uncached: vec![] });
    assert_eq!(step.updates[0].phase, "saving");
    assert!(matches!(step.command, HistoryCommand::SaveEntry { index: 0 }));
}

fn push_result(cmd: PushCommand) -> SyncResult {
    match cmd {
        PushCommand::Finish { result } => result,
        _ => panic!("expected the end"),
    }
}

#[test]
fn push_of_nothing_finishes_at_once() {
    let (p, step) = HistoryPush::start(0, 0);
    assert_eq!(p.pushed + p.failed, 0);
    assert_eq!(step.updates[0].phase, "done");
    let r = push_result(step.command);
    assert_eq!((r.status.as_str(), r.message.as_deref()), ("ok", Some("Pushed 0, failed 0")));
}

#[test]
fn push_reports_every_fifth_entry() {
    let (mut p, step) = HistoryPush::start(2, 1);
    assert_eq!(p.total, 2);
    assert!(matches!(step.command, PushCommand::Push { index: 0 }));
    let step = p.step(PushEvent::Pushed { ok: true });
    assert!(matches!(step.command, PushCommand::RecordView { index: 0 }));
    let step = p.step(PushEvent::ViewRecorded);
    assert_eq!(step.updates.len(), 1);
    assert_eq!(step.updates[0].phase, "pushing");
    assert_eq!(step.updates[0].processed, 1);
    assert_eq!(step.updates[0].message.as_deref(), Some("Pushed 1…"));
    assert!(matches!(step.command, PushCommand::Pause));
    let step = p.step(PushEvent::Paused);
    assert!(matches!(step.command, PushCommand::Push { index: 1 }));
    let step = p.step(PushEvent::Pushed { ok: false });
    assert_eq!(step.updates[0].phase, "done");
    let r = push_result(step.command);
    assert_eq!(
        (r.status.as_str(), r.new_count, r.seen_count, r.total_retained),
        ("partial", 1, 1, 2)
    );
    assert_eq!(r.message.as_deref(), Some("Pushed 1, failed 1"));
}

#[test]
fn push_duration_is_at_least_a_second() {
    assert_eq!(push_duration(0), 1);
    assert_eq!(push_duration(1), 1);
    assert_eq!(push_duration(245), 245);
}

#[test]
fn push_run_asks_for_each_entry_once_in_order() {
    let count = 12u64;
    let (mut m, mut step) = HistoryPush::start(count, 20);
    let mut asked: Vec<u64> = Vec::new();
    let mut steps = 0u64;
    loop {
        let ev = match step.command {
            PushCommand::Push { index } => {
                asked.push(index);
                PushEvent::Pushed { ok: index % 3 != 0 }
            }
            PushCommand::RecordView { .. } => PushEvent::ViewRecorded,
            PushCommand::Pause => PushEvent::Paused,
            PushCommand::Finish { result } => {
                assert_eq!(result.new_count + result.seen_count, count);
                break;
            }
        };
        step = m.step(ev);
        steps += 1;
    }
    assert_eq!(asked, (0..count).collect::<Vec<u64>>());
    assert!(steps <= 3 * count);
}

#[test]
fn pull_run_saves_each_entry_once_and_fetches_every_chunk() {
    let (mut s, mut step) = HistorySync::start();
    let uncached: Vec<String> = (0..250).map(|i| format!("v{i}")).collect();
    let mut saved: Vec<u64> = Vec::new();
    let mut fetched: Vec<String> = Vec::new();
    loop {
        let ev = match step.command {
            HistoryCommand::FetchRemote => HistoryEvent::Fetched { total: 4, total_retained: 9 },
            HistoryCommand::ListUncached => HistoryEvent::Listed { uncached: uncached.clone() },
            HistoryCommand::FetchChunk { ids } => {
                assert!(ids.len() <= 100);
                fetched.extend(ids);
                HistoryEvent::ChunkCached
            }
            HistoryCommand::SaveEntry { index } => {
                saved.push(index);
                HistoryEvent::EntrySaved { cached: true, inserted: index % 2 == 0 }
            }
            HistoryCommand::Finish { result } => {
                assert_eq!((result.new_count, result.seen_count), (2, 2));
                break;
            }
        };
        step = s.step(ev);
    }
    assert_eq!(saved, vec![0, 1, 2, 3]);
    assert_eq!(fetched, uncached);
}
