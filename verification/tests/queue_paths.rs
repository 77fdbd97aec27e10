use pmvheaven::paths::{
    app_data_candidates, app_data_dir, legacy_db_files, now_playing_path, queue_path, v1_db_path,
    v2_db_path, DirProbe, PathStyle,
};
use pmvheaven::queue::{
    add, clear, is_queued, len, move_item, peek, play_next, remove, shift, take, QueueState,
    Queued,
};

fn q(ids: &[&str]) -> QueueState<u32> {
    QueueState {
        items: ids
            .iter()
            .enumerate()
            .map(|(i, id)| Queued { id: id.to_string(), video: i as u32 })
            .collect(),
    }
}

fn ids(s: &QueueState<u32>) -> Vec<&str> {
    s.items.iter().map(|x| x.id.as_str()).collect()
}

fn item(id: &str, video: u32) -> Queued<u32> {
    Queued { id: id.to_string(), video }
}

#[test]
fn add_appends_once() {
    let mut s = q(&["a"]);
    add(&mut s, item("b", 7));
    assert_eq!(ids(&s), vec!["a", "b"]);
    add(&mut s, item("a", 9));
    assert_eq!(ids(&s), vec!["a", "b"]);
    assert_eq!(s.items[0].video, 0);
    assert_eq!(len(&s), 2);
}

#[test]
fn play_next_moves_to_front() {
    let mut s = q(&["a", "b", "c"]);
    play_next(&mut s, item("c", 42));
    assert_eq!(ids(&s), vec!["c", "a", "b"]);
    assert_eq!(s.items[0].video, 42);
    play_next(&mut s, item("d", 1));
    assert_eq!(ids(&s), vec!["d", "c", "a", "b"]);
}

#[test]
fn play_next_then_shift_gives_it_back() {
    let mut s = q(&["a", "b"]);
    play_next(&mut s, item("x", 5));
    let got = shift(&mut s).unwrap();
    assert_eq!((got.id.as_str(), got.video), ("x", 5));
    assert_eq!(ids(&s), vec!["a", "b"]);
}

#[test]
fn remove_drops_every_match() {
    let mut s = q(&["a", "b", "a", "c"]);
    remove(&mut s, "a");
    assert_eq!(ids(&s), vec!["b", "c"]);
    remove(&mut s, "zzz");
    assert_eq!(ids(&s), vec!["b", "c"]);
}

#[test]
fn move_item_reorders_and_ignores_bad_indices() {
    let mut s = q(&["a", "b", "c", "d"]);
    assert!(move_item(&mut s, 0, 2));
    assert_eq!(ids(&s), vec!["b", "c", "a", "d"]);
    move_item(&mut s, 3, 0);
    assert_eq!(ids(&s), vec!["d", "b", "c", "a"]);
    assert!(!move_item(&mut s, 1, 1));
    assert!(!move_item(&mut s, 9, 0));
    assert!(!move_item(&mut s, 0, 4));
    assert_eq!(ids(&s), vec!["d", "b", "c", "a"]);
}

#[test]
fn shift_take_peek_clear() {
    let mut s = q(&["a", "b", "c"]);
    assert_eq!(peek(&s).map(|x| x.id.as_str()), Some("a"));
    let t = take(&mut s, "b").unwrap();
    assert_eq!(t.id, "b");
    assert!(take(&mut s, "b").is_none());
    assert_eq!(ids(&s), vec!["a", "c"]);
    assert!(is_queued(&s, "c"));
    assert!(!is_queued(&s, "b"));
    assert_eq!(shift(&mut s).unwrap().id, "a");
    clear(&mut s);
    assert_eq!(len(&s), 0);
    assert!(shift(&mut s).is_none());
    assert!(peek(&s).is_none());
}

#[test]
fn file_paths_in_data_dir() {
    assert_eq!(v1_db_path("/home/u/.local/share/x", PathStyle::Unix), "/home/u/.local/share/x/pmvheaven.db");
    assert_eq!(v2_db_path("/d/", PathStyle::Unix), "/d/pmvheaven_v2.db");
    assert_eq!(queue_path("/d", PathStyle::Unix), "/d/queue.json");
    assert_eq!(now_playing_path("./data", PathStyle::Unix), "./data/now_playing.json");
    assert_eq!(v1_db_path("", PathStyle::Unix), "pmvheaven.db");
    assert_eq!(
        v1_db_path(r"C:\Users\u\AppData\Roaming\com.pmvheaven.desktop", PathStyle::Windows),
        r"C:\Users\u\AppData\Roaming\com.pmvheaven.desktop\pmvheaven.db"
    );
    assert_eq!(queue_path("C:", PathStyle::Windows), "C:queue.json");
    assert_eq!(queue_path("D:/data/", PathStyle::Windows), "D:/data/queue.json");
}

#[test]
fn legacy_files_with_sidecars() {
    assert_eq!(
        legacy_db_files("/d", PathStyle::Unix),
        vec!["/d/pmvheaven.db", "/d/pmvheaven.db-wal", "/d/pmvheaven.db-shm"]
    );
}

#[test]
fn data_dir_choice() {
    let (c, alts) = app_data_candidates("/share", PathStyle::Unix);
    assert_eq!(c, "/share/com.pmvheaven.desktop");
    assert_eq!(alts, vec!["/share/pmvheaven", "/share/PMVHeaven"]);
    let probe = |cand: bool, ex: [bool; 2], db: [bool; 2]| DirProbe {
        candidate_exists: cand,
        legacy_exists: ex.to_vec(),
        legacy_has_db: db.to_vec(),
    };
    assert_eq!(app_data_dir(None, &probe(false, [false; 2], [false; 2]), PathStyle::Unix), "./data");
    assert_eq!(app_data_dir(None, &probe(false, [false; 2], [false; 2]), PathStyle::Windows), r".\data");
    assert_eq!(
        app_data_dir(Some(r"C:\Roaming"), &probe(false, [false; 2], [false; 2]), PathStyle::Windows),
        r"C:\Roaming\com.pmvheaven.desktop"
    );
    assert_eq!(
        app_data_dir(Some("/share"), &probe(false, [false; 2], [false; 2]), PathStyle::Unix),
        "/share/com.pmvheaven.desktop"
    );
    assert_eq!(
        app_data_dir(Some("/share"), &probe(true, [true, true], [true, true]), PathStyle::Unix),
        "/share/com.pmvheaven.desktop"
    );
    assert_eq!(
        app_data_dir(Some("/share"), &probe(false, [true, true], [false, true]), PathStyle::Unix),
        "/share/PMVHeaven"
    );
    assert_eq!(
        app_data_dir(Some("/share"), &probe(false, [true, false], [true, false]), PathStyle::Unix),
        "/share/pmvheaven"
    );
    assert_eq!(
        app_data_dir(Some("/share"), &probe(false, [true, false], [false, false]), PathStyle::Unix),
        "/share/com.pmvheaven.desktop"
    );
}
