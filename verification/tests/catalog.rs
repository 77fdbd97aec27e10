use pmvheaven::api::{
    account_user, bulk_batches, feed_needs_auth, filled, first_filled, needs_reauth,
    nonempty_or, pagination_of, search_query, sign_in_cookies, sign_in_error,
    watch_progress_percent,
    PageFields,
};
use pmvheaven::models::{ContentChip, FeedParams, Pagination, VideoSort};

fn pairs(q: &[(String, String)]) -> Vec<(&str, &str)> {
    q.iter().map(|(k, v)| (k.as_str(), v.as_str())).collect()
}

const ALL_SORTS: [VideoSort; 6] = [
    VideoSort::Newest,
    VideoSort::Oldest,
    VideoSort::MostViews,
    VideoSort::LeastViews,
    VideoSort::MostLiked,
    VideoSort::TopRated,
];

#[test]
fn sort_api_names() {
    assert_eq!(VideoSort::Newest.as_api(), "-releaseDate");
    assert_eq!(VideoSort::Oldest.as_api(), "releaseDate");
    assert_eq!(VideoSort::MostViews.as_api(), "-views");
    assert_eq!(VideoSort::LeastViews.as_api(), "views");
    assert_eq!(VideoSort::MostLiked.as_api(), "-likes");
    assert_eq!(VideoSort::TopRated.as_api(), "-bayesianRating");
}

#[test]
fn sort_labels() {
    assert_eq!(VideoSort::Newest.label(), "Newest");
    assert_eq!(VideoSort::Oldest.label(), "Oldest");
    assert_eq!(VideoSort::MostViews.label(), "Most viewed");
    assert_eq!(VideoSort::LeastViews.label(), "Least viewed");
    assert_eq!(VideoSort::MostLiked.label(), "Most liked");
    assert_eq!(VideoSort::TopRated.label(), "Most popular");
}

#[test]
fn sort_roundtrips_through_api_name() {
    for s in ALL_SORTS {
        assert_eq!(VideoSort::from_api(s.as_api()), s);
    }
}

#[test]
fn sort_from_api_aliases_and_unknown() {
    assert_eq!(VideoSort::from_api("uploadDate"), VideoSort::Oldest);
    assert_eq!(VideoSort::from_api("-uploadDate"), VideoSort::Newest);
    assert_eq!(VideoSort::from_api(""), VideoSort::Newest);
    assert_eq!(VideoSort::from_api("nonsense"), VideoSort::Newest);
}

#[test]
fn chip_cycles_off_include_exclude() {
    assert_eq!(ContentChip::Off.cycle(), ContentChip::Include);
    assert_eq!(ContentChip::Include.cycle(), ContentChip::Exclude);
    assert_eq!(ContentChip::Exclude.cycle(), ContentChip::Off);
    for c in [ContentChip::Off, ContentChip::Include, ContentChip::Exclude] {
        assert_eq!(c.cycle().cycle().cycle(), c);
    }
}

#[test]
fn default_feed_query() {
    let q = FeedParams::default().to_query();
    assert_eq!(
        pairs(&q),
        vec![
            ("page", "1"),
            ("limit", "32"),
            ("sort", "-releaseDate"),
            ("tagMode", "OR"),
            ("expandTags", "false"),
        ]
    );
}

#[test]
fn feed_query_with_filters() {
    let mut p = FeedParams::default();
    p.page = Some(3);
    p.limit = Some(48);
    p.sort = Some(VideoSort::TopRated);
    p.tags = Some("pov,music".to_string());
    p.exclude_tags = Some(String::new());
    p.creator = Some("someone".to_string());
    p.expand_tags = Some(true);
    p.duration_min = Some(60);
    p.max_views = Some(1_000_000);
    p.include_gay = true;
    p.exclude_watched = true;
    p.personalized_only = true;
    let q = p.to_query();
    assert_eq!(
        pairs(&q),
        vec![
            ("page", "3"),
            ("limit", "48"),
            ("sort", "-bayesianRating"),
            ("tags", "pov,music"),
            ("creator", "someone"),
            ("tagMode", "OR"),
            ("expandTags", "true"),
            ("durationMin", "60"),
            ("maxViews", "1000000"),
            ("includeGay", "true"),
            ("excludeWatched", "true"),
            ("personalizedOnly", "true"),
        ]
    );
}

#[test]
fn and_mode_never_expands_tags() {
    let mut p = FeedParams::default();
    p.tag_mode = Some("AND".to_string());
    p.expand_tags = Some(true);
    let q = p.to_query();
    assert_eq!(q[3], ("tagMode".to_string(), "AND".to_string()));
    assert_eq!(q[4], ("expandTags".to_string(), "false".to_string()));
}

#[test]
fn feed_auth_only_for_account_feeds() {
    let mut p = FeedParams::default();
    assert!(!feed_needs_auth(&p, true));
    p.favorites_only = true;
    assert!(feed_needs_auth(&p, true));
    assert!(!feed_needs_auth(&p, false));
    let mut w = FeedParams::default();
    w.exclude_watched = true;
    assert!(feed_needs_auth(&w, true));
}

#[test]
fn reauth_on_401_or_403_only() {
    assert!(needs_reauth(true, 401));
    assert!(needs_reauth(true, 403));
    assert!(!needs_reauth(true, 404));
    assert!(!needs_reauth(false, 401));
}

#[test]
fn pagination_defaults_when_reply_is_silent() {
    let f = PageFields {
        page: None,
        limit: None,
        total: None,
        total_videos: None,
        total_pages: None,
        has_next: None,
        has_prev: None,
    };
    assert_eq!(
        pagination_of(&f, 7),
        Pagination { page: 1, limit: 7, total: 7, total_pages: 1, has_next: false, has_prev: false }
    );
}

#[test]
fn pagination_prefers_total_over_total_videos() {
    let f = PageFields {
        page: Some(2),
        limit: Some(32),
        total: Some(Some(500)),
        total_videos: Some(900),
        total_pages: Some(16),
        has_next: Some(true),
        has_prev: Some(true),
    };
    let p = pagination_of(&f, 32);
    assert_eq!(p.total, 500);
    assert_eq!((p.page, p.limit, p.total_pages), (2, 32, 16));
    assert!(p.has_next && p.has_prev);
    let g = PageFields { total: None, ..f };
    assert_eq!(pagination_of(&g, 32).total, 900);
    let h = PageFields { total: Some(None), total_videos: Some(900), ..g };
    assert_eq!(pagination_of(&h, 32).total, 32);
}

#[test]
fn pagination_keeps_low_bits_of_wide_numbers() {
    let f = PageFields {
        page: Some((1u64 << 32) + 5),
        limit: None,
        total: None,
        total_videos: None,
        total_pages: None,
        has_next: None,
        has_prev: None,
    };
    assert_eq!(pagination_of(&f, 0).page, 5);
}

#[test]
fn search_query_pairs() {
    let q = search_query("hello world", 2, 24);
    assert_eq!(pairs(&q), vec![("q", "hello world"), ("page", "2"), ("limit", "24")]);
}

#[test]
fn bulk_batches_of_one_hundred() {
    let ids: Vec<String> = (0..205).map(|i| format!("v{i}")).collect();
    let b = bulk_batches(&ids);
    assert_eq!(b.len(), 3);
    assert_eq!(b[0], ids[..100].join(","));
    assert_eq!(b[1], ids[100..200].join(","));
    assert_eq!(b[2], "v200,v201,v202,v203,v204");
    assert!(bulk_batches(&Vec::new()).is_empty());
    let exact: Vec<String> = (0..100).map(|i| i.to_string()).collect();
    assert_eq!(bulk_batches(&exact).len(), 1);
}

#[test]
fn watch_progress_caps_at_hundred() {
    assert_eq!(watch_progress_percent(false, 50), None);
    assert_eq!(watch_progress_percent(true, 50), Some(50));
    assert_eq!(watch_progress_percent(true, 250), Some(100));
}

#[test]
fn first_filled_skips_missing_and_empty() {
    let c = vec![None, Some(String::new()), Some("b".to_string()), Some("c".to_string())];
    assert_eq!(first_filled(&c), "b");
    assert_eq!(first_filled(&vec![None, Some(String::new())]), "");
    assert_eq!(
        first_filled(&vec![Some(String::new()), Some("Untitled".to_string())]),
        "Untitled"
    );
    assert_eq!(filled(Some(String::new())), None);
    assert_eq!(filled(Some("x".to_string())), Some("x".to_string()));
}

#[test]
fn nonempty_list_or_fallback() {
    assert_eq!(nonempty_or(vec![1], vec![2, 3]), vec![1]);
    assert_eq!(nonempty_or(Vec::<u8>::new(), vec![2, 3]), vec![2, 3]);
}

#[test]
fn signed_in_user_falls_back_to_login_email() {
    let u = account_user(
        "u1".into(),
        String::new(),
        None,
        None,
        Some("img.png".into()),
        Some("me@example.com".into()),
    );
    assert_eq!(u.id, "u1");
    assert_eq!(u.username, "me@example.com");
    assert_eq!(u.email.as_deref(), Some("me@example.com"));
    assert_eq!(u.avatar_url.as_deref(), Some("img.png"));
    let p = account_user("u2".into(), "nick".into(), None, Some("a.png".into()), None, None);
    assert_eq!(p.username, "nick");
    assert_eq!(p.email, None);
    assert_eq!(p.avatar_url.as_deref(), Some("a.png"));
}

#[test]
fn bare_token_becomes_session_cookie() {
    let r = sign_in_cookies(Vec::new(), Some("tok.sig".into()));
    assert_eq!(
        r,
        vec![("__Secure-better-auth.session_token".to_string(), "tok.sig".to_string())]
    );
    let set = vec![("__Secure-better-auth.session_data".to_string(), "x".to_string())];
    assert_eq!(sign_in_cookies(set.clone(), Some("tok".into())), set);
    assert!(sign_in_cookies(Vec::new(), None).is_empty());
}

#[test]
fn sign_in_error_message() {
    assert_eq!(sign_in_error(Some("Account locked")), "Account locked");
    assert_eq!(sign_in_error(None), "Invalid email or password");
    assert_eq!(sign_in_error(Some("")), "");
}
