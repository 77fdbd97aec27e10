use pmvheaven::labels::{
    browse_summary, music_label, music_query, progress_line, pull_message, push_message,
    sign_in_email, sync_now_message, update_title,
};
use pmvheaven::models::{SyncProgress, SyncResult};

fn result(status: &str, new_count: u64, seen_count: u64, message: Option<&str>) -> SyncResult {
    SyncResult {
        status: status.to_string(),
        new_count,
        seen_count,
        total_retained: 0,
        message: message.map(|m| m.to_string()),
    }
}

#[test]
fn browse_subtitles() {
    assert_eq!(browse_summary("", " ", "\t"), "Explore the catalog");
    assert_eq!(browse_summary(" pov ", "", ""), "tags: pov");
    assert_eq!(browse_summary("a,b", "star", "me"), "tags: a,b · models: star · creator: me");
    assert_eq!(browse_summary("", "star", "me"), "models: star · creator: me");
}

#[test]
fn music_texts() {
    assert_eq!(music_label("Artist", "Song"), "Artist — Song");
    assert_eq!(music_label("", "Song"), "Song");
    assert_eq!(music_label("Artist", ""), "Artist");
    assert_eq!(music_query("Artist", "Song"), "Artist - Song");
    assert_eq!(music_query("Artist", ""), "Artist");
    assert_eq!(music_query("", "Song"), "Song");
    assert_eq!(music_query("", ""), "");
}

#[test]
fn update_titles() {
    assert_eq!(update_title(Some("Spring release"), "1.4.0"), "Spring release");
    assert_eq!(update_title(None, "1.4.0"), "PMVHeaven 1.4.0");
}

#[test]
fn job_reports() {
    assert_eq!(pull_message(&result("ok", 3, 12, None)), "Pull ok — +3 new, 12 seen");
    assert_eq!(push_message(&result("partial", 4, 1, Some("Pushed 4, failed 1"))), "Pushed 4, failed 1");
    assert_eq!(push_message(&result("ok", 4, 0, None)), "Push ok — 4 uploaded");
    assert_eq!(sync_now_message(&result("skipped", 0, 0, None)), "skipped (+0 new)");
    let p = SyncProgress {
        phase: "hydrating".to_string(),
        processed: 100,
        total: 150,
        new_count: 0,
        total_retained: 0,
        message: Some("Loading video details…".to_string()),
    };
    assert_eq!(progress_line(&p), "hydrating (100/150) Loading video details…");
    let q = SyncProgress { message: None, ..p };
    assert_eq!(progress_line(&q), "hydrating (100/150) ");
}

#[test]
fn sign_in_form_checks() {
    assert_eq!(sign_in_email("  me@example.com ", "pw"), Ok("me@example.com".to_string()));
    assert_eq!(sign_in_email("   ", "pw"), Err("Email and password are required".to_string()));
    assert_eq!(sign_in_email("me@example.com", ""), Err("Email and password are required".to_string()));
}
