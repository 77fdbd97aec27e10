use pmvheaven::filters::{
    apply_chip, apply_quality, chip_class, toggle_choice, upload_from_preset, BrowseFilterState,
};
use pmvheaven::models::{ContentChip, FeedParams, HlsVariant, VideoSort};
use pmvheaven::player::{
    flag_text, hover_previews_setting, open_intent, parse_player_msg, pause_previews_setting,
    prefers_file, quality_options, queue_height_setting, queue_height_to_store,
    rail_width_setting, rail_width_to_store, session_restorable, stream_sources, trim_front,
    OpenIntent, PlayerMsg,
};

// 2024-01-08T00:00:00Z
const MONDAY: i64 = 1_704_672_000_000;

#[test]
fn date_presets() {
    assert_eq!(upload_from_preset("7days", MONDAY).as_deref(), Some("2024-01-01T00:00:00.000Z"));
    assert_eq!(
        upload_from_preset("today", MONDAY + 5 * 3_600_000 + 123).as_deref(),
        Some("2024-01-08T00:00:00.000Z")
    );
    assert_eq!(upload_from_preset("30days", MONDAY).as_deref(), Some("2023-12-09T00:00:00.000Z"));
    assert_eq!(upload_from_preset("365days", MONDAY).as_deref(), Some("2023-01-08T00:00:00.000Z"));
    assert_eq!(upload_from_preset("", MONDAY), None);
    assert_eq!(upload_from_preset("week", MONDAY), None);
}

#[test]
fn quality_bounds_cover_selection() {
    let mut p = FeedParams::default();
    apply_quality(&mut p, &["HD", "4K"]);
    assert_eq!((p.min_height, p.max_height), (Some(720), Some(1079)));
    apply_quality(&mut p, &["SD", "FHD"]);
    assert_eq!((p.min_height, p.max_height), (Some(1080), Some(1439)));
    apply_quality(&mut p, &["SD"]);
    assert_eq!((p.min_height, p.max_height), (None, Some(719)));
    apply_quality(&mut p, &["8K"]);
    assert_eq!((p.min_height, p.max_height), (None, None));
    p.min_height = Some(5);
    apply_quality(&mut p, &[]);
    assert_eq!((p.min_height, p.max_height), (Some(5), None));
}

#[test]
fn chips_set_include_or_exclude() {
    let (mut on, mut off) = (false, false);
    apply_chip(&mut on, &mut off, ContentChip::Off);
    assert!(!on && !off);
    apply_chip(&mut on, &mut off, ContentChip::Include);
    assert!(on && !off);
    apply_chip(&mut on, &mut off, ContentChip::Exclude);
    assert!(on && off);
    assert_eq!(chip_class(ContentChip::Off), "filter-chip");
    assert_eq!(chip_class(ContentChip::Include), "filter-chip on");
    assert_eq!(chip_class(ContentChip::Exclude), "filter-chip exclude");
}

#[test]
fn default_panel_counts_nothing() {
    let s = BrowseFilterState::default();
    assert_eq!(s.active_count(), 0);
    assert_eq!(s.sort, VideoSort::Newest);
    assert!(s.open);
    let q = s.to_feed_at(1, MONDAY).to_query();
    let q: Vec<(&str, &str)> = q.iter().map(|(k, v)| (k.as_str(), v.as_str())).collect();
    assert_eq!(
        q,
        vec![
            ("page", "1"),
            ("limit", "32"),
            ("sort", "-releaseDate"),
            ("tagMode", "OR"),
            ("expandTags", "false"),
        ]
    );
}

#[test]
fn panel_from_route() {
    let s = BrowseFilterState::from_route(Some("-views"), Some("pov"), None);
    assert_eq!(s.sort, VideoSort::MostViews);
    assert_eq!(s.tags, "pov");
    assert_eq!(s.creator, "");
    assert_eq!(s.active_count(), 1);
    let d = BrowseFilterState::from_route(None, None, Some("me"));
    assert_eq!(d.sort, VideoSort::Newest);
    assert_eq!(d.creator, "me");
}

#[test]
fn panel_to_feed() {
    let mut s = BrowseFilterState::default();
    s.tags = "  pov  ".to_string();
    s.exclude_mode = true;
    s.music = " artist ".to_string();
    s.creator = "maker".to_string();
    s.tag_mode_and = true;
    s.expand_tags = true;
    s.uploaded = "7days".to_string();
    s.duration_min_min = Some(2);
    s.duration_max_min = Some(10);
    s.rating_min = Some(70);
    s.views_max = Some(5000);
    s.qualities = vec!["FHD"];
    s.aspects = vec!["16:9", "9:16"];
    s.gay = ContentChip::Exclude;
    s.sfw = ContentChip::Exclude;
    s.watched = ContentChip::Include;
    s.subscriptions = ContentChip::Exclude;
    s.favorites = ContentChip::Include;
    let p = s.to_feed_at(4, MONDAY);
    assert_eq!(p.page, Some(4));
    assert_eq!(p.limit, Some(32));
    assert_eq!(p.sort, Some(VideoSort::Newest));
    assert_eq!(p.tag_mode.as_deref(), Some("AND"));
    assert_eq!(p.expand_tags, Some(false));
    assert_eq!(p.tags, None);
    assert_eq!(p.exclude_tags.as_deref(), Some("pov"));
    assert_eq!(p.music_artist.as_deref(), Some("artist"));
    assert_eq!(p.music_tags.as_deref(), Some("artist"));
    assert_eq!(p.creators.as_deref(), Some("maker"));
    assert_eq!(p.creator.as_deref(), Some("maker"));
    assert_eq!(p.upload_date_from.as_deref(), Some("2024-01-01T00:00:00.000Z"));
    assert_eq!((p.duration_min, p.duration_max), (Some(120), Some(600)));
    assert_eq!(p.min_rating, Some(70));
    assert_eq!((p.min_views, p.max_views), (None, Some(5000)));
    assert_eq!((p.min_height, p.max_height), (Some(1080), Some(1439)));
    assert_eq!(p.aspect.as_deref(), Some("16:9,9:16"));
    assert!(p.exclude_gay && !p.include_gay);
    assert!(p.include_explicit && !p.non_nude_only);
    assert!(p.watched_only && !p.exclude_watched);
    assert!(!p.subscribed_only);
    assert!(p.favorites_only);
    assert_eq!(s.active_count(), 16);
}

#[test]
fn blank_texts_are_not_filters() {
    let mut s = BrowseFilterState::default();
    s.tags = "   ".to_string();
    s.stars = "\t".to_string();
    assert_eq!(s.active_count(), 0);
    let p = s.to_feed_at(1, MONDAY);
    assert_eq!(p.tags, None);
    assert_eq!(p.stars, None);
}

#[test]
fn to_feed_uses_the_clock() {
    let mut s = BrowseFilterState::default();
    s.uploaded = "today".to_string();
    let p = s.to_feed(2);
    let from = p.upload_date_from.expect("a date");
    assert!(from.ends_with("T00:00:00.000Z"));
    assert_eq!(p.page, Some(2));
}

#[test]
fn opening_a_video() {
    assert!(matches!(open_intent("a", 1u8, None), OpenIntent::Play));
    assert!(matches!(open_intent("a", 1u8, Some("a")), OpenIntent::AlreadyPlaying));
    assert!(matches!(open_intent("a", 7u8, Some("b")), OpenIntent::Choice(7)));
}

#[test]
fn restorable_sessions() {
    assert!(session_restorable("v1", "https://x/video.m3u8"));
    assert!(!session_restorable("", "https://x"));
    assert!(!session_restorable("v1", ""));
}

#[test]
fn trim_keeps_newest() {
    let mut v = vec![1, 2, 3, 4, 5];
    trim_front(&mut v, 3);
    assert_eq!(v, vec![3, 4, 5]);
    trim_front(&mut v, 10);
    assert_eq!(v, vec![3, 4, 5]);
    trim_front(&mut v, 0);
    assert!(v.is_empty());
}

#[test]
fn layout_settings() {
    assert_eq!(rail_width_setting(Some("400")), Some(400));
    assert_eq!(rail_width_setting(Some("279")), None);
    assert_eq!(rail_width_setting(Some("1400")), Some(1400));
    assert_eq!(rail_width_setting(Some("+500")), Some(500));
    assert_eq!(rail_width_setting(Some("wide")), None);
    assert_eq!(rail_width_setting(None), None);
    assert_eq!(queue_height_setting(Some("88")), Some(88));
    assert_eq!(queue_height_setting(Some("1201")), None);
    assert_eq!(rail_width_to_store(600).as_deref(), Some("600"));
    assert_eq!(rail_width_to_store(100), None);
    assert_eq!(queue_height_to_store(1200).as_deref(), Some("1200"));
    assert_eq!(queue_height_to_store(87), None);
}

#[test]
fn preview_flags() {
    assert!(hover_previews_setting(Some("1")));
    assert!(hover_previews_setting(Some("true")));
    assert!(!hover_previews_setting(Some("yes")));
    assert!(!hover_previews_setting(None));
    assert!(pause_previews_setting(None));
    assert!(pause_previews_setting(Some("1")));
    assert!(!pause_previews_setting(Some("0")));
    assert!(!pause_previews_setting(Some("false")));
    assert_eq!(flag_text(true), "1");
    assert_eq!(flag_text(false), "0");
}

#[test]
fn player_messages() {
    assert!(matches!(parse_player_msg("ended"), PlayerMsg::Ended));
    assert!(matches!(parse_player_msg("toggle-fs"), PlayerMsg::ToggleFullscreen));
    assert!(matches!(parse_player_msg("rail|512"), PlayerMsg::RailWidth(512)));
    assert!(matches!(parse_player_msg("rail|5000"), PlayerMsg::Ignored));
    assert!(matches!(parse_player_msg("queueh|300"), PlayerMsg::QueueHeight(300)));
    assert!(matches!(parse_player_msg("queueh|x"), PlayerMsg::Ignored));
    assert!(matches!(parse_player_msg("reorder|2,0"), PlayerMsg::Reorder { from: 2, to: 0 }));
    assert!(matches!(parse_player_msg("reorder|1,2,3"), PlayerMsg::Reorder { from: 1, to: 2 }));
    assert!(matches!(parse_player_msg("reorder|3,3"), PlayerMsg::Ignored));
    assert!(matches!(parse_player_msg("reorder|3"), PlayerMsg::Ignored));
    match parse_player_msg("prog|abc|12.5|0.4") {
        PlayerMsg::Progress(rest) => assert_eq!(rest, "abc|12.5|0.4"),
        _ => panic!("expected progress"),
    }
    assert!(matches!(parse_player_msg("Ended"), PlayerMsg::Ignored));
    assert!(matches!(parse_player_msg(""), PlayerMsg::Ignored));
}

const PROXY: &str = "http://127.0.0.1:5000";

#[test]
fn stream_sources_file_and_master() {
    let s = stream_sources(
        PROXY,
        "https://cdn.pmvhaven.com/v.mp4",
        Some("https://cdn.pmvhaven.com/hls/master.m3u8"),
    );
    assert_eq!(
        s.file,
        "http://127.0.0.1:5000/stream?url=https%3A%2F%2Fcdn.pmvhaven.com%2Fv.mp4"
    );
    assert_eq!(
        s.hls,
        "http://127.0.0.1:5000/stream?url=https%3A%2F%2Fcdn.pmvhaven.com%2Fhls%2Fmaster.m3u8"
    );
}

#[test]
fn stream_sources_playlist_in_video_url() {
    let s = stream_sources(PROXY, "https://cdn.pmvhaven.com/a.m3u8?x=1", None);
    assert_eq!(s.file, "");
    assert_eq!(
        s.hls,
        "http://127.0.0.1:5000/stream?url=https%3A%2F%2Fcdn.pmvhaven.com%2Fa.m3u8%3Fx%3D1"
    );
    // An empty master playlist does not count; the playlist URL stands in.
    let t = stream_sources(PROXY, "https://cdn.pmvhaven.com/a.m3u8", Some(""));
    assert_eq!(t.hls, "http://127.0.0.1:5000/stream?url=https%3A%2F%2Fcdn.pmvhaven.com%2Fa.m3u8");
}

#[test]
fn stream_sources_missing_parts() {
    let s = stream_sources(PROXY, "https://cdn.pmvhaven.com/v.mp4", Some(""));
    assert_eq!(s.hls, "");
    assert!(!s.file.is_empty());
    let e = stream_sources(PROXY, "", None);
    assert_eq!((e.file.as_str(), e.hls.as_str()), ("", ""));
    let n = stream_sources("", "https://cdn.pmvhaven.com/v.mp4", Some("https://x/m.m3u8"));
    assert_eq!((n.file.as_str(), n.hls.as_str()), ("", ""));
}

#[test]
fn prefers_file_choices() {
    assert!(prefers_file("auto", "f", "h"));
    assert!(!prefers_file("auto", "", "h"));
    assert!(prefers_file("original", "", "h"));
    assert!(prefers_file("720", "f", ""));
    assert!(!prefers_file("720", "f", "h"));
}

fn variant(resolution: &str, height: u32) -> HlsVariant {
    HlsVariant {
        resolution: resolution.to_string(),
        width: 0,
        height,
        bandwidth: 0,
        playlist_url: String::new(),
    }
}

#[test]
fn quality_menu_order_and_labels() {
    let vs = vec![
        variant("1280x720", 720),
        variant("", 1080),
        variant("854x480", 480),
        variant("1920x1080", 1080),
    ];
    let menu: Vec<(String, String)> =
        quality_options(&vs, true).into_iter().map(|o| (o.value, o.label)).collect();
    let want: Vec<(String, String)> = [
        ("auto", "Auto"),
        ("1080", "1080p"),
        ("1080", "1920x1080"),
        ("720", "1280x720"),
        ("480", "854x480"),
        ("original", "Original"),
    ]
    .iter()
    .map(|(a, b)| (a.to_string(), b.to_string()))
    .collect();
    assert_eq!(menu, want);
    let only_auto: Vec<String> =
        quality_options(&[], false).into_iter().map(|o| o.value).collect();
    assert_eq!(only_auto, vec!["auto".to_string()]);
}

#[test]
fn quality_and_aspect_chips_toggle() {
    let mut s = BrowseFilterState::default();
    s.toggle_quality("HD");
    s.toggle_quality("4K");
    assert_eq!(s.qualities, vec!["HD", "4K"]);
    s.toggle_quality("HD");
    assert_eq!(s.qualities, vec!["4K"]);
    s.toggle_aspect("9:16");
    s.toggle_aspect("9:16");
    assert!(s.aspects.is_empty());
    let mut l = vec!["a", "b", "a"];
    toggle_choice(&mut l, "a");
    assert_eq!(l, vec!["b", "a"]);
}

#[test]
fn content_chips_cycle_by_name() {
    let mut s = BrowseFilterState::default();
    s.cycle_chip("Gay");
    assert_eq!(s.gay, ContentChip::Include);
    s.cycle_chip("Gay");
    assert_eq!(s.gay, ContentChip::Exclude);
    s.cycle_chip("Gay");
    assert_eq!(s.gay, ContentChip::Off);
    s.cycle_chip("Favorites");
    assert_eq!(s.favorites, ContentChip::Include);
    s.cycle_chip("Nope");
    assert_eq!(s.active_count(), 1);
}

#[test]
fn clear_keeps_sort_and_open() {
    let mut s = BrowseFilterState::default();
    s.sort = VideoSort::MostViews;
    s.open = false;
    s.tags = "pov".to_string();
    s.rating_min = Some(80);
    s.toggle_quality("SD");
    s.cycle_chip("SFW");
    assert_eq!(s.active_count(), 4);
    let c = s.cleared();
    assert_eq!(c.sort, VideoSort::MostViews);
    assert!(!c.open);
    assert_eq!(c.tags, "");
    assert_eq!(c.rating_min, None);
    assert!(c.qualities.is_empty());
    assert_eq!(c.sfw, ContentChip::Off);
    assert_eq!(c.active_count(), 0);
}
