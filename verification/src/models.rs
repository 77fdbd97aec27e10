//! Catalog data types and the `/api/videos` query builder.
use vstd::prelude::*;

use crate::text::{decimal, decimal_string, owned, str_eq};

verus! {

/// One HLS rendition of a video.
#[derive(Debug, Clone, PartialEq)]
pub struct HlsVariant {
    pub resolution: String,
    pub width: u32,
    pub height: u32,
    pub bandwidth: u32,
    pub playlist_url: String,
}

/// A music credit on a video.
#[derive(Debug, Clone, PartialEq)]
pub struct MusicTrack {
    pub artist: String,
    pub song: String,
}

/// Paging information returned with a list of videos.
#[derive(Debug, Clone, PartialEq)]
pub struct Pagination {
    pub page: u32,
    pub limit: u32,
    pub total: u64,
    pub total_pages: u32,
    pub has_next: bool,
    pub has_prev: bool,
}

/// A page of items with its pagination.
#[derive(Debug, Clone, PartialEq)]
pub struct Paged<T> {
    pub items: Vec<T>,
    pub pagination: Pagination,
}

/// A tag with its usage count.
#[derive(Debug, Clone, PartialEq)]
pub struct PopularTag {
    pub name: String,
    pub usage_count: u64,
}

/// The signed-in PMVHaven account.
#[derive(Debug, Clone, PartialEq)]
pub struct AccountUser {
    pub id: String,
    pub username: String,
    pub email: Option<String>,
    pub avatar_url: Option<String>,
}

/// Progress of a running history sync or push.
#[derive(Debug, Clone, PartialEq)]
pub struct SyncProgress {
    pub phase: String,
    pub processed: u64,
    pub total: u64,
    pub new_count: u64,
    pub total_retained: u64,
    pub message: Option<String>,
}

/// Outcome of a history sync or push.
#[derive(Debug, Clone, PartialEq)]
pub struct SyncResult {
    pub status: String,
    pub new_count: u64,
    pub seen_count: u64,
    pub total_retained: u64,
    pub message: Option<String>,
}

/// Sort orders offered by the catalog.
#[derive(Debug, Clone, Copy, PartialEq, Eq, Structural)]
pub enum VideoSort {
    Newest,
    Oldest,
    MostViews,
    LeastViews,
    MostLiked,
    TopRated,
}

impl VideoSort {
    /// The API `sort` parameter for this order.
    pub open spec fn spec_as_api(self) -> Seq<char> {
        match self {
            VideoSort::Newest => "-releaseDate"@,
            VideoSort::Oldest => "releaseDate"@,
            VideoSort::MostViews => "-views"@,
            VideoSort::LeastViews => "views"@,
            VideoSort::MostLiked => "-likes"@,
            VideoSort::TopRated => "-bayesianRating"@,
        }
    }

    /// The label shown in the sort menu.
    pub open spec fn spec_label(self) -> Seq<char> {
        match self {
            VideoSort::Newest => "Newest"@,
            VideoSort::Oldest => "Oldest"@,
            VideoSort::MostViews => "Most viewed"@,
            VideoSort::LeastViews => "Least viewed"@,
            VideoSort::MostLiked => "Most liked"@,
            VideoSort::TopRated => "Most popular"@,
        }
    }

    /// The order an API `sort` value names; anything unknown is `Newest`.
    pub open spec fn spec_from_api(s: Seq<char>) -> VideoSort {
        if s == "releaseDate"@ || s == "uploadDate"@ {
            VideoSort::Oldest
        } else if s == "-views"@ {
            VideoSort::MostViews
        } else if s == "views"@ {
            VideoSort::LeastViews
        } else if s == "-likes"@ {
            VideoSort::MostLiked
        } else if s == "-bayesianRating"@ {
            VideoSort::TopRated
        } else {
            VideoSort::Newest
        }
    }

    pub fn as_api(self) -> (r: &'static str)
        ensures
            r@ == self.spec_as_api(),
    {
        match self {
            VideoSort::Newest => "-releaseDate",
            VideoSort::Oldest => "releaseDate",
            VideoSort::MostViews => "-views",
            VideoSort::LeastViews => "views",
            VideoSort::MostLiked => "-likes",
            VideoSort::TopRated => "-bayesianRating",
        }
    }

    pub fn label(self) -> (r: &'static str)
        ensures
            r@ == self.spec_label(),
    {
        match self {
            VideoSort::Newest => "Newest",
            VideoSort::Oldest => "Oldest",
            VideoSort::MostViews => "Most viewed",
            VideoSort::LeastViews => "Least viewed",
            VideoSort::MostLiked => "Most liked",
            VideoSort::TopRated => "Most popular",
        }
    }

    pub fn from_api(s: &str) -> (r: VideoSort)
        ensures
            r == VideoSort::spec_from_api(s@),
    {
        if str_eq(s, "releaseDate") || str_eq(s, "uploadDate") {
            VideoSort::Oldest
        } else if str_eq(s, "-views") {
            VideoSort::MostViews
        } else if str_eq(s, "views") {
            VideoSort::LeastViews
        } else if str_eq(s, "-likes") {
            VideoSort::MostLiked
        } else if str_eq(s, "-bayesianRating") {
            VideoSort::TopRated
        } else {
            VideoSort::Newest
        }
    }
}

/// What the API receives for each sort order, and what the menu shows: newest
/// "-releaseDate", oldest "releaseDate", most viewed "-views", least viewed
/// "views", most liked "-likes", most popular "-bayesianRating". Reading an API
/// value gives its order back; "uploadDate" also reads as oldest, and any
/// other value as newest.
pub proof fn lemma_sort_values(s: Seq<char>)
    ensures
        VideoSort::Newest.spec_as_api() == "-releaseDate"@,
        VideoSort::Oldest.spec_as_api() == "releaseDate"@,
        VideoSort::MostViews.spec_as_api() == "-views"@,
        VideoSort::LeastViews.spec_as_api() == "views"@,
        VideoSort::MostLiked.spec_as_api() == "-likes"@,
        VideoSort::TopRated.spec_as_api() == "-bayesianRating"@,
        VideoSort::Newest.spec_label() == "Newest"@,
        VideoSort::Oldest.spec_label() == "Oldest"@,
        VideoSort::MostViews.spec_label() == "Most viewed"@,
        VideoSort::LeastViews.spec_label() == "Least viewed"@,
        VideoSort::MostLiked.spec_label() == "Most liked"@,
        VideoSort::TopRated.spec_label() == "Most popular"@,
        VideoSort::spec_from_api("uploadDate"@) == VideoSort::Oldest,
        s != "releaseDate"@ && s != "uploadDate"@ && s != "-views"@ && s != "views"@ && s
            != "-likes"@ && s != "-bayesianRating"@ ==> VideoSort::spec_from_api(s)
            == VideoSort::Newest,
{
    reveal_strlit("-releaseDate");
    reveal_strlit("releaseDate");
    reveal_strlit("uploadDate");
    reveal_strlit("-views");
    reveal_strlit("views");
    reveal_strlit("-likes");
    reveal_strlit("-bayesianRating");
    assert("-releaseDate"@.len() == 12);
    assert("releaseDate"@.len() == 11);
    assert("uploadDate"@.len() == 10);
    assert("-views"@.len() == 6);
    assert("views"@.len() == 5);
    assert("-likes"@.len() == 6);
    assert("-bayesianRating"@.len() == 15);
    assert("-views"@[1] != "-likes"@[1]);
    lemma_sort_api_roundtrip(VideoSort::Newest);
}

/// Reading back the API value of a sort order gives the same order.
pub proof fn lemma_sort_api_roundtrip(s: VideoSort)
    ensures
        VideoSort::spec_from_api(s.spec_as_api()) == s,
{
    reveal_strlit("-releaseDate");
    reveal_strlit("releaseDate");
    reveal_strlit("uploadDate");
    reveal_strlit("-views");
    reveal_strlit("views");
    reveal_strlit("-likes");
    reveal_strlit("-bayesianRating");
    match s {
        VideoSort::Newest => {
            assert("-releaseDate"@ != "releaseDate"@) by {
                assert("-releaseDate"@[0] != "releaseDate"@[0]);
            }
            assert("-releaseDate"@.len() != "uploadDate"@.len());
            assert("-releaseDate"@.len() != "-views"@.len());
            assert("-releaseDate"@.len() != "views"@.len());
            assert("-releaseDate"@.len() != "-likes"@.len());
            assert("-releaseDate"@.len() != "-bayesianRating"@.len());
        },
        VideoSort::Oldest => {},
        VideoSort::MostViews => {
            assert("-views"@.len() != "releaseDate"@.len());
            assert("-views"@.len() != "uploadDate"@.len());
        },
        VideoSort::LeastViews => {
            assert("views"@.len() != "releaseDate"@.len());
            assert("views"@.len() != "uploadDate"@.len());
            assert("views"@ != "-views"@) by {
                assert("views"@.len() != "-views"@.len());
            }
        },
        VideoSort::MostLiked => {
            assert("-likes"@.len() != "releaseDate"@.len());
            assert("-likes"@.len() != "uploadDate"@.len());
            assert("-likes"@ != "-views"@) by {
                assert("-likes"@[1] != "-views"@[1]);
            }
            assert("-likes"@.len() != "views"@.len());
        },
        VideoSort::TopRated => {
            assert("-bayesianRating"@.len() != "releaseDate"@.len());
            assert("-bayesianRating"@.len() != "uploadDate"@.len());
            assert("-bayesianRating"@.len() != "-views"@.len());
            assert("-bayesianRating"@.len() != "views"@.len());
            assert("-bayesianRating"@.len() != "-likes"@.len());
        },
    }
}

/// Tri-state content chip: off, then include, then exclude, then off again.
#[derive(Debug, Clone, Copy, PartialEq, Eq, Structural)]
pub enum ContentChip {
    Off,
    Include,
    Exclude,
}

impl ContentChip {
    /// The chip state after one click.
    pub open spec fn spec_cycle(self) -> ContentChip {
        match self {
            ContentChip::Off => ContentChip::Include,
            ContentChip::Include => ContentChip::Exclude,
            ContentChip::Exclude => ContentChip::Off,
        }
    }

    pub fn cycle(self) -> (r: ContentChip)
        ensures
            r == self.spec_cycle(),
    {
        match self {
            ContentChip::Off => ContentChip::Include,
            ContentChip::Include => ContentChip::Exclude,
            ContentChip::Exclude => ContentChip::Off,
        }
    }
}

/// A chip goes off, include, exclude, off: the first click on an unset chip
/// includes, the second excludes, the third clears it.
pub proof fn lemma_chip_cycle_order()
    ensures
        ContentChip::Off.spec_cycle() == ContentChip::Include,
        ContentChip::Include.spec_cycle() == ContentChip::Exclude,
        ContentChip::Exclude.spec_cycle() == ContentChip::Off,
{
}

/// Three clicks bring a chip back to where it was; fewer never do.
pub proof fn lemma_chip_cycle_period(c: ContentChip)
    ensures
        c.spec_cycle().spec_cycle().spec_cycle() == c,
        c.spec_cycle() != c,
        c.spec_cycle().spec_cycle() != c,
{
}

/// Full browse/search filter set mirroring the site's dashboard filters.
#[derive(Debug, Clone)]
pub struct FeedParams {
    pub page: Option<u32>,
    pub limit: Option<u32>,
    pub sort: Option<VideoSort>,
    /// Comma-separated tags.
    pub tags: Option<String>,
    pub exclude_tags: Option<String>,
    /// Stars / models (comma-separated).
    pub stars: Option<String>,
    pub exclude_stars: Option<String>,
    pub music_tags: Option<String>,
    pub music_artist: Option<String>,
    pub music_song: Option<String>,
    pub creators: Option<String>,
    pub exclude_creators: Option<String>,
    pub creator: Option<String>,
    pub uploader: Option<String>,
    pub featured_model: Option<String>,
    /// "OR" | "AND"
    pub tag_mode: Option<String>,
    pub expand_tags: Option<bool>,
    pub upload_date_from: Option<String>,
    pub upload_date_to: Option<String>,
    /// Duration bounds in seconds.
    pub duration_min: Option<u32>,
    pub duration_max: Option<u32>,
    pub min_rating: Option<u32>,
    pub max_rating: Option<u32>,
    pub min_views: Option<u64>,
    pub max_views: Option<u64>,
    pub min_height: Option<u32>,
    pub max_height: Option<u32>,
    /// Comma-separated aspects e.g. "16:9,9:16".
    pub aspect: Option<String>,
    pub include_gay: bool,
    pub exclude_gay: bool,
    pub include_trans: bool,
    pub exclude_trans: bool,
    pub include_voice_over: bool,
    pub exclude_voice_over: bool,
    pub include_remix: bool,
    pub exclude_remix: bool,
    pub include_extreme: bool,
    pub exclude_extreme: bool,
    pub include_promotional: bool,
    pub exclude_promotional: bool,
    pub include_explicit: bool,
    pub exclude_explicit: bool,
    pub non_nude_only: bool,
    pub watched_only: bool,
    pub exclude_watched: bool,
    pub funscript_only: bool,
    pub exclude_funscript: bool,
    pub subscribed_only: bool,
    pub favorites_only: bool,
    pub trending: bool,
    pub personalized_only: bool,
}

/// The characters of an optional string.
pub open spec fn opt_view(o: Option<String>) -> Option<Seq<char>> {
    match o {
        Some(s) => Some(s@),
        None => None,
    }
}

/// `FeedParams::default()`: nothing set, every flag off.
pub open spec fn is_default_feed(p: FeedParams) -> bool {
    &&& p.page is None && p.limit is None && p.sort is None
    &&& p.tags is None && p.exclude_tags is None && p.stars is None && p.exclude_stars is None
    &&& p.music_tags is None && p.music_artist is None && p.music_song is None
    &&& p.creators is None && p.exclude_creators is None && p.creator is None
    &&& p.uploader is None && p.featured_model is None && p.tag_mode is None
    &&& p.expand_tags is None && p.upload_date_from is None && p.upload_date_to is None
    &&& p.duration_min is None && p.duration_max is None && p.min_rating is None
    &&& p.max_rating is None && p.min_views is None && p.max_views is None
    &&& p.min_height is None && p.max_height is None && p.aspect is None
    &&& !p.include_gay && !p.exclude_gay && !p.include_trans && !p.exclude_trans
    &&& !p.include_voice_over && !p.exclude_voice_over && !p.include_remix && !p.exclude_remix
    &&& !p.include_extreme && !p.exclude_extreme && !p.include_promotional
    &&& !p.exclude_promotional && !p.include_explicit && !p.exclude_explicit
    &&& !p.non_nude_only && !p.watched_only && !p.exclude_watched && !p.funscript_only
    &&& !p.exclude_funscript && !p.subscribed_only && !p.favorites_only && !p.trending
    &&& !p.personalized_only
}

impl Default for FeedParams {
    fn default() -> (r: FeedParams)
        ensures
            is_default_feed(r),
    {
        FeedParams {
            page: None,
            limit: None,
            sort: None,
            tags: None,
            exclude_tags: None,
            stars: None,
            exclude_stars: None,
            music_tags: None,
            music_artist: None,
            music_song: None,
            creators: None,
            exclude_creators: None,
            creator: None,
            uploader: None,
            featured_model: None,
            tag_mode: None,
            expand_tags: None,
            upload_date_from: None,
            upload_date_to: None,
            duration_min: None,
            duration_max: None,
            min_rating: None,
            max_rating: None,
            min_views: None,
            max_views: None,
            min_height: None,
            max_height: None,
            aspect: None,
            include_gay: false,
            exclude_gay: false,
            include_trans: false,
            exclude_trans: false,
            include_voice_over: false,
            exclude_voice_over: false,
            include_remix: false,
            exclude_remix: false,
            include_extreme: false,
            exclude_extreme: false,
            include_promotional: false,
            exclude_promotional: false,
            include_explicit: false,
            exclude_explicit: false,
            non_nude_only: false,
            watched_only: false,
            exclude_watched: false,
            funscript_only: false,
            exclude_funscript: false,
            subscribed_only: false,
            favorites_only: false,
            trending: false,
            personalized_only: false,
        }
    }
}

/* ------------------------------ query specification ----------------------------- */

/// A query as key/value character sequences.
pub open spec fn pairs_view(q: Seq<(String, String)>) -> Seq<(Seq<char>, Seq<char>)> {
    q.map_values(|p: (String, String)| (p.0@, p.1@))
}

/// A pair for an optional text filter, when it is set and not empty.
pub open spec fn text_pair(k: Seq<char>, v: Option<String>) -> Seq<(Seq<char>, Seq<char>)> {
    match v {
        Some(s) => if s@.len() > 0 {
            seq![(k, s@)]
        } else {
            Seq::empty()
        },
        None => Seq::empty(),
    }
}

/// A pair for an optional numeric filter, in decimal.
pub open spec fn num_pair(k: Seq<char>, v: Option<u64>) -> Seq<(Seq<char>, Seq<char>)> {
    match v {
        Some(n) => seq![(k, decimal(n as nat))],
        None => Seq::empty(),
    }
}

/// A `key=true` pair for a flag that is on.
pub open spec fn flag_pair(k: Seq<char>, on: bool) -> Seq<(Seq<char>, Seq<char>)> {
    if on {
        seq![(k, "true"@)]
    } else {
        Seq::empty()
    }
}

pub open spec fn widen(v: Option<u32>) -> Option<u64> {
    match v {
        Some(n) => Some(n as u64),
        None => None,
    }
}

/// The tag mode sent: the one set, else "OR".
pub open spec fn query_tag_mode(p: FeedParams) -> Seq<char> {
    match p.tag_mode {
        Some(s) => s@,
        None => "OR"@,
    }
}

/// Tag expansion is only ever requested in OR mode.
pub open spec fn query_expand(p: FeedParams) -> bool {
    if query_tag_mode(p) == "AND"@ {
        false
    } else {
        match p.expand_tags {
            Some(b) => b,
            None => false,
        }
    }
}

pub open spec fn query_head(p: FeedParams) -> Seq<(Seq<char>, Seq<char>)> {
    let page: u32 = match p.page {
        Some(n) => n,
        None => 1,
    };
    let limit: u32 = match p.limit {
        Some(n) => n,
        None => 32,
    };
    let sort = match p.sort {
        Some(s) => s,
        None => VideoSort::Newest,
    };
    seq![
        ("page"@, decimal(page as nat)),
        ("limit"@, decimal(limit as nat)),
        ("sort"@, sort.spec_as_api()),
    ]
}

pub open spec fn query_texts(p: FeedParams) -> Seq<(Seq<char>, Seq<char>)> {
    text_pair("tags"@, p.tags) + text_pair("excludeTags"@, p.exclude_tags) + text_pair(
        "stars"@,
        p.stars,
    ) + text_pair("excludeStars"@, p.exclude_stars) + text_pair("musicTags"@, p.music_tags)
        + text_pair("musicArtist"@, p.music_artist) + text_pair("musicSong"@, p.music_song)
        + text_pair("creators"@, p.creators) + text_pair(
        "excludeCreators"@,
        p.exclude_creators,
    ) + text_pair("creator"@, p.creator) + text_pair("uploader"@, p.uploader) + text_pair(
        "featuredModel"@,
        p.featured_model,
    ) + text_pair("aspect"@, p.aspect) + text_pair("uploadDateFrom"@, p.upload_date_from)
        + text_pair("uploadDateTo"@, p.upload_date_to)
}

pub open spec fn query_mode(p: FeedParams) -> Seq<(Seq<char>, Seq<char>)> {
    seq![
        ("tagMode"@, query_tag_mode(p)),
        ("expandTags"@, if query_expand(p) { "true"@ } else { "false"@ }),
    ]
}

pub open spec fn query_numbers(p: FeedParams) -> Seq<(Seq<char>, Seq<char>)> {
    num_pair("durationMin"@, widen(p.duration_min)) + num_pair(
        "durationMax"@,
        widen(p.duration_max),
    ) + num_pair("minRating"@, widen(p.min_rating)) + num_pair(
        "maxRating"@,
        widen(p.max_rating),
    ) + num_pair("minViews"@, p.min_views) + num_pair("maxViews"@, p.max_views) + num_pair(
        "minHeight"@,
        widen(p.min_height),
    ) + num_pair("maxHeight"@, widen(p.max_height))
}

#[verifier::opaque]
pub open spec fn query_flags_1(p: FeedParams) -> Seq<(Seq<char>, Seq<char>)> {
    flag_pair("includeGay"@, p.include_gay) + flag_pair("excludeGay"@, p.exclude_gay) + flag_pair("includeTrans"@, p.include_trans) + flag_pair("excludeTrans"@, p.exclude_trans)
}

#[verifier::opaque]
pub open spec fn query_flags_2(p: FeedParams) -> Seq<(Seq<char>, Seq<char>)> {
    flag_pair("includeVoiceOver"@, p.include_voice_over) + flag_pair("excludeVoiceOver"@, p.exclude_voice_over) + flag_pair("includeRemix"@, p.include_remix) + flag_pair("excludeRemix"@, p.exclude_remix)
}

#[verifier::opaque]
pub open spec fn query_flags_3(p: FeedParams) -> Seq<(Seq<char>, Seq<char>)> {
    flag_pair("includeExtreme"@, p.include_extreme) + flag_pair("excludeExtreme"@, p.exclude_extreme) + flag_pair("includePromotional"@, p.include_promotional) + flag_pair("excludePromotional"@, p.exclude_promotional)
}

#[verifier::opaque]
pub open spec fn query_flags_4(p: FeedParams) -> Seq<(Seq<char>, Seq<char>)> {
    flag_pair("includeExplicit"@, p.include_explicit) + flag_pair("excludeExplicit"@, p.exclude_explicit) + flag_pair("nonNudeOnly"@, p.non_nude_only) + flag_pair("watchedOnly"@, p.watched_only)
}

#[verifier::opaque]
pub open spec fn query_flags_5(p: FeedParams) -> Seq<(Seq<char>, Seq<char>)> {
    flag_pair("excludeWatched"@, p.exclude_watched) + flag_pair("funscriptOnly"@, p.funscript_only) + flag_pair("excludeFunscript"@, p.exclude_funscript) + flag_pair("subscribedOnly"@, p.subscribed_only)
}

#[verifier::opaque]
pub open spec fn query_flags_6(p: FeedParams) -> Seq<(Seq<char>, Seq<char>)> {
    flag_pair("favoritesOnly"@, p.favorites_only) + flag_pair("trending"@, p.trending) + flag_pair("personalizedOnly"@, p.personalized_only)
}

/// The content flags that are on, as `key=true` pairs.
pub open spec fn query_flags(p: FeedParams) -> Seq<(Seq<char>, Seq<char>)> {
    query_flags_1(p) + query_flags_2(p) + query_flags_3(p) + query_flags_4(p) + query_flags_5(p)
        + query_flags_6(p)
}

/// The full query for `/api/videos`, in the order the pairs are sent.
pub open spec fn spec_to_query(p: FeedParams) -> Seq<(Seq<char>, Seq<char>)> {
    query_head(p) + query_texts(p) + query_mode(p) + query_numbers(p) + query_flags(p)
}

/* ------------------------------- query building -------------------------------- */

fn push_pair(q: &mut Vec<(String, String)>, k: &str, v: String)
    ensures
        pairs_view(final(q)@) == pairs_view(old(q)@).push((k@, v@)),
{
    q.push((owned(k), v));
    assert(pairs_view(q@) =~= pairs_view(old(q)@).push((k@, v@)));
}

fn push_text(q: &mut Vec<(String, String)>, k: &str, v: &Option<String>)
    ensures
        pairs_view(final(q)@) == pairs_view(old(q)@) + text_pair(k@, *v),
{
    match v {
        Some(s) => {
            if s.as_str().is_empty() {
                assert(pairs_view(q@) =~= pairs_view(q@) + text_pair(k@, *v));
            } else {
                push_pair(q, k, s.clone());
                assert(pairs_view(q@) =~= pairs_view(old(q)@) + text_pair(k@, *v));
            }
        },
        None => {
            assert(pairs_view(q@) =~= pairs_view(q@) + text_pair(k@, *v));
        },
    }
}

fn push_num(q: &mut Vec<(String, String)>, k: &str, v: Option<u64>)
    ensures
        pairs_view(final(q)@) == pairs_view(old(q)@) + num_pair(k@, v),
{
    match v {
        Some(n) => {
            push_pair(q, k, decimal_string(n));
            assert(pairs_view(q@) =~= pairs_view(old(q)@) + num_pair(k@, v));
        },
        None => {
            assert(pairs_view(q@) =~= pairs_view(q@) + num_pair(k@, v));
        },
    }
}

fn widen_exec(v: Option<u32>) -> (r: Option<u64>)
    ensures
        r == widen(v),
{
    match v {
        Some(n) => Some(n as u64),
        None => None,
    }
}

fn push_flag(q: &mut Vec<(String, String)>, on: bool, k: &str)
    ensures
        pairs_view(final(q)@) == pairs_view(old(q)@) + flag_pair(k@, on),
{
    if on {
        push_pair(q, k, owned("true"));
        assert(pairs_view(q@) =~= pairs_view(old(q)@) + flag_pair(k@, on));
    } else {
        assert(pairs_view(q@) =~= pairs_view(q@) + flag_pair(k@, on));
    }
}

impl FeedParams {
    fn push_texts(&self, q: &mut Vec<(String, String)>)
        ensures
            pairs_view(final(q)@) == pairs_view(old(q)@) + query_texts(*self),
    {
        let ghost q0 = pairs_view(q@);
        push_text(q, "tags", &self.tags);
        push_text(q, "excludeTags", &self.exclude_tags);
        push_text(q, "stars", &self.stars);
        push_text(q, "excludeStars", &self.exclude_stars);
        push_text(q, "musicTags", &self.music_tags);
        push_text(q, "musicArtist", &self.music_artist);
        push_text(q, "musicSong", &self.music_song);
        push_text(q, "creators", &self.creators);
        push_text(q, "excludeCreators", &self.exclude_creators);
        push_text(q, "creator", &self.creator);
        push_text(q, "uploader", &self.uploader);
        push_text(q, "featuredModel", &self.featured_model);
        push_text(q, "aspect", &self.aspect);
        push_text(q, "uploadDateFrom", &self.upload_date_from);
        push_text(q, "uploadDateTo", &self.upload_date_to);
        assert(pairs_view(q@) =~= q0 + query_texts(*self));
    }

    fn push_numbers(&self, q: &mut Vec<(String, String)>)
        ensures
            pairs_view(final(q)@) == pairs_view(old(q)@) + query_numbers(*self),
    {
        let ghost q0 = pairs_view(q@);
        push_num(q, "durationMin", widen_exec(self.duration_min));
        push_num(q, "durationMax", widen_exec(self.duration_max));
        push_num(q, "minRating", widen_exec(self.min_rating));
        push_num(q, "maxRating", widen_exec(self.max_rating));
        push_num(q, "minViews", self.min_views);
        push_num(q, "maxViews", self.max_views);
        push_num(q, "minHeight", widen_exec(self.min_height));
        push_num(q, "maxHeight", widen_exec(self.max_height));
        assert(pairs_view(q@) =~= q0 + query_numbers(*self));
    }

    fn push_flags_1(&self, q: &mut Vec<(String, String)>)
        ensures
            pairs_view(final(q)@) == pairs_view(old(q)@) + query_flags_1(*self),
    {
        reveal(query_flags_1);
        let ghost q0 = pairs_view(q@);
        push_flag(q, self.include_gay, "includeGay");
        push_flag(q, self.exclude_gay, "excludeGay");
        push_flag(q, self.include_trans, "includeTrans");
        push_flag(q, self.exclude_trans, "excludeTrans");
        assert(pairs_view(q@) =~= q0 + query_flags_1(*self));
    }

    fn push_flags_2(&self, q: &mut Vec<(String, String)>)
        ensures
            pairs_view(final(q)@) == pairs_view(old(q)@) + query_flags_2(*self),
    {
        reveal(query_flags_2);
        let ghost q0 = pairs_view(q@);
        push_flag(q, self.include_voice_over, "includeVoiceOver");
        push_flag(q, self.exclude_voice_over, "excludeVoiceOver");
        push_flag(q, self.include_remix, "includeRemix");
        push_flag(q, self.exclude_remix, "excludeRemix");
        assert(pairs_view(q@) =~= q0 + query_flags_2(*self));
    }

    fn push_flags_3(&self, q: &mut Vec<(String, String)>)
        ensures
            pairs_view(final(q)@) == pairs_view(old(q)@) + query_flags_3(*self),
    {
        reveal(query_flags_3);
        let ghost q0 = pairs_view(q@);
        push_flag(q, self.include_extreme, "includeExtreme");
        push_flag(q, self.exclude_extreme, "excludeExtreme");
        push_flag(q, self.include_promotional, "includePromotional");
        push_flag(q, self.exclude_promotional, "excludePromotional");
        assert(pairs_view(q@) =~= q0 + query_flags_3(*self));
    }

    fn push_flags_4(&self, q: &mut Vec<(String, String)>)
        ensures
            pairs_view(final(q)@) == pairs_view(old(q)@) + query_flags_4(*self),
    {
        reveal(query_flags_4);
        let ghost q0 = pairs_view(q@);
        push_flag(q, self.include_explicit, "includeExplicit");
        push_flag(q, self.exclude_explicit, "excludeExplicit");
        push_flag(q, self.non_nude_only, "nonNudeOnly");
        push_flag(q, self.watched_only, "watchedOnly");
        assert(pairs_view(q@) =~= q0 + query_flags_4(*self));
    }

    fn push_flags_5(&self, q: &mut Vec<(String, String)>)
        ensures
            pairs_view(final(q)@) == pairs_view(old(q)@) + query_flags_5(*self),
    {
        reveal(query_flags_5);
        let ghost q0 = pairs_view(q@);
        push_flag(q, self.exclude_watched, "excludeWatched");
        push_flag(q, self.funscript_only, "funscriptOnly");
        push_flag(q, self.exclude_funscript, "excludeFunscript");
        push_flag(q, self.subscribed_only, "subscribedOnly");
        assert(pairs_view(q@) =~= q0 + query_flags_5(*self));
    }

    fn push_flags_6(&self, q: &mut Vec<(String, String)>)
        ensures
            pairs_view(final(q)@) == pairs_view(old(q)@) + query_flags_6(*self),
    {
        reveal(query_flags_6);
        let ghost q0 = pairs_view(q@);
        push_flag(q, self.favorites_only, "favoritesOnly");
        push_flag(q, self.trending, "trending");
        push_flag(q, self.personalized_only, "personalizedOnly");
        assert(pairs_view(q@) =~= q0 + query_flags_6(*self));
    }

    fn push_flags(&self, q: &mut Vec<(String, String)>)
        ensures
            pairs_view(final(q)@) == pairs_view(old(q)@) + query_flags(*self),
    {
        let ghost q0 = pairs_view(q@);
        self.push_flags_1(q);
        self.push_flags_2(q);
        self.push_flags_3(q);
        self.push_flags_4(q);
        self.push_flags_5(q);
        self.push_flags_6(q);
        assert(pairs_view(q@) =~= q0 + query_flags(*self));
    }

    /// Query pairs for `/api/videos`: paging and sort first, then every filter
    /// that is set, in a fixed order.
    pub fn to_query(&self) -> (r: Vec<(String, String)>)
        ensures
            pairs_view(r@) == spec_to_query(*self),
    {
        let mut q: Vec<(String, String)> = Vec::new();
        let page: u32 = match self.page {
            Some(n) => n,
            None => 1,
        };
        let limit: u32 = match self.limit {
            Some(n) => n,
            None => 32,
        };
        let sort = match self.sort {
            Some(s) => s,
            None => VideoSort::Newest,
        };
        push_pair(&mut q, "page", decimal_string(page as u64));
        push_pair(&mut q, "limit", decimal_string(limit as u64));
        push_pair(&mut q, "sort", owned(sort.as_api()));
        assert(pairs_view(q@) =~= query_head(*self));
        let ghost h = pairs_view(q@);

        self.push_texts(&mut q);
        let ghost t = pairs_view(q@);

        let mode: String = match &self.tag_mode {
            Some(s) => s.clone(),
            None => owned("OR"),
        };
        let expand = if str_eq(mode.as_str(), "AND") {
            false
        } else {
            match self.expand_tags {
                Some(b) => b,
                None => false,
            }
        };
        push_pair(&mut q, "tagMode", mode);
        push_pair(&mut q, "expandTags", owned(if expand { "true" } else { "false" }));
        assert(pairs_view(q@) =~= t + query_mode(*self));
        let ghost m = pairs_view(q@);

        self.push_numbers(&mut q);
        self.push_flags(&mut q);
        assert(pairs_view(q@) =~= spec_to_query(*self));
        q
    }
}

proof fn lemma_text_pair_has(k: Seq<char>, f: Option<String>, x: (Seq<char>, Seq<char>))
    ensures
        text_pair(k, f).contains(x) <==> (f matches Some(s) && s@.len() > 0 && x == (k, s@)),
{
    broadcast use vstd::seq_lib::group_seq_properties;

    if let Some(s) = f {
        if s@.len() > 0 {
            assert(text_pair(k, f)[0] == (k, s@));
        }
    }
}

proof fn lemma_num_pair_has(k: Seq<char>, f: Option<u64>, x: (Seq<char>, Seq<char>))
    ensures
        num_pair(k, f).contains(x) <==> (f matches Some(n) && x == (k, decimal(n as nat))),
{
    broadcast use vstd::seq_lib::group_seq_properties;

    if let Some(n) = f {
        assert(num_pair(k, f)[0] == (k, decimal(n as nat)));
    }
}

proof fn lemma_flag_pair_has(k: Seq<char>, b: bool, x: (Seq<char>, Seq<char>))
    ensures
        flag_pair(k, b).contains(x) <==> (b && x == (k, "true"@)),
{
    broadcast use vstd::seq_lib::group_seq_properties;

    if b {
        assert(flag_pair(k, b)[0] == (k, "true"@));
    }
}

proof fn lemma_texts_has(p: FeedParams, x: (Seq<char>, Seq<char>))
    ensures
        query_texts(p).contains(x) <==> ((p.tags matches Some(s) && s@.len() > 0 && x == ("tags"@, s@))
            || (p.exclude_tags matches Some(s) && s@.len() > 0 && x == ("excludeTags"@, s@))
            || (p.stars matches Some(s) && s@.len() > 0 && x == ("stars"@, s@))
            || (p.exclude_stars matches Some(s) && s@.len() > 0 && x == ("excludeStars"@, s@))
            || (p.music_tags matches Some(s) && s@.len() > 0 && x == ("musicTags"@, s@))
            || (p.music_artist matches Some(s) && s@.len() > 0 && x == ("musicArtist"@, s@))
            || (p.music_song matches Some(s) && s@.len() > 0 && x == ("musicSong"@, s@))
            || (p.creators matches Some(s) && s@.len() > 0 && x == ("creators"@, s@))
            || (p.exclude_creators matches Some(s) && s@.len() > 0 && x == ("excludeCreators"@, s@))
            || (p.creator matches Some(s) && s@.len() > 0 && x == ("creator"@, s@))
            || (p.uploader matches Some(s) && s@.len() > 0 && x == ("uploader"@, s@))
            || (p.featured_model matches Some(s) && s@.len() > 0 && x == ("featuredModel"@, s@))
            || (p.aspect matches Some(s) && s@.len() > 0 && x == ("aspect"@, s@))
            || (p.upload_date_from matches Some(s) && s@.len() > 0 && x == ("uploadDateFrom"@, s@))
            || (p.upload_date_to matches Some(s) && s@.len() > 0 && x == ("uploadDateTo"@, s@))),
{
    broadcast use vstd::seq_lib::lemma_seq_concat_contains_all_elements;

    lemma_text_pair_has("tags"@, p.tags, x);
    lemma_text_pair_has("excludeTags"@, p.exclude_tags, x);
    lemma_text_pair_has("stars"@, p.stars, x);
    lemma_text_pair_has("excludeStars"@, p.exclude_stars, x);
    lemma_text_pair_has("musicTags"@, p.music_tags, x);
    lemma_text_pair_has("musicArtist"@, p.music_artist, x);
    lemma_text_pair_has("musicSong"@, p.music_song, x);
    lemma_text_pair_has("creators"@, p.creators, x);
    lemma_text_pair_has("excludeCreators"@, p.exclude_creators, x);
    lemma_text_pair_has("creator"@, p.creator, x);
    lemma_text_pair_has("uploader"@, p.uploader, x);
    lemma_text_pair_has("featuredModel"@, p.featured_model, x);
    lemma_text_pair_has("aspect"@, p.aspect, x);
    lemma_text_pair_has("uploadDateFrom"@, p.upload_date_from, x);
    lemma_text_pair_has("uploadDateTo"@, p.upload_date_to, x);
}

proof fn lemma_numbers_has(p: FeedParams, x: (Seq<char>, Seq<char>))
    ensures
        query_numbers(p).contains(x) <==> ((widen(p.duration_min) matches Some(n) && x == ("durationMin"@, decimal(n as nat)))
            || (widen(p.duration_max) matches Some(n) && x == ("durationMax"@, decimal(n as nat)))
            || (widen(p.min_rating) matches Some(n) && x == ("minRating"@, decimal(n as nat)))
            || (widen(p.max_rating) matches Some(n) && x == ("maxRating"@, decimal(n as nat)))
            || (p.min_views matches Some(n) && x == ("minViews"@, decimal(n as nat)))
            || (p.max_views matches Some(n) && x == ("maxViews"@, decimal(n as nat)))
            || (widen(p.min_height) matches Some(n) && x == ("minHeight"@, decimal(n as nat)))
            || (widen(p.max_height) matches Some(n) && x == ("maxHeight"@, decimal(n as nat)))),
{
    broadcast use vstd::seq_lib::lemma_seq_concat_contains_all_elements;

    lemma_num_pair_has("durationMin"@, widen(p.duration_min), x);
    lemma_num_pair_has("durationMax"@, widen(p.duration_max), x);
    lemma_num_pair_has("minRating"@, widen(p.min_rating), x);
    lemma_num_pair_has("maxRating"@, widen(p.max_rating), x);
    lemma_num_pair_has("minViews"@, p.min_views, x);
    lemma_num_pair_has("maxViews"@, p.max_views, x);
    lemma_num_pair_has("minHeight"@, widen(p.min_height), x);
    lemma_num_pair_has("maxHeight"@, widen(p.max_height), x);
}

proof fn lemma_flags_1_has(p: FeedParams, x: (Seq<char>, Seq<char>))
    ensures
        query_flags_1(p).contains(x) <==> ((p.include_gay && x == ("includeGay"@, "true"@))
            || (p.exclude_gay && x == ("excludeGay"@, "true"@))
            || (p.include_trans && x == ("includeTrans"@, "true"@))
            || (p.exclude_trans && x == ("excludeTrans"@, "true"@))),
{
    broadcast use vstd::seq_lib::lemma_seq_concat_contains_all_elements;

    reveal(query_flags_1);
    lemma_flag_pair_has("includeGay"@, p.include_gay, x);
    lemma_flag_pair_has("excludeGay"@, p.exclude_gay, x);
    lemma_flag_pair_has("includeTrans"@, p.include_trans, x);
    lemma_flag_pair_has("excludeTrans"@, p.exclude_trans, x);
}

proof fn lemma_flags_2_has(p: FeedParams, x: (Seq<char>, Seq<char>))
    ensures
        query_flags_2(p).contains(x) <==> ((p.include_voice_over && x == ("includeVoiceOver"@, "true"@))
            || (p.exclude_voice_over && x == ("excludeVoiceOver"@, "true"@))
            || (p.include_remix && x == ("includeRemix"@, "true"@))
            || (p.exclude_remix && x == ("excludeRemix"@, "true"@))),
{
    broadcast use vstd::seq_lib::lemma_seq_concat_contains_all_elements;

    reveal(query_flags_2);
    lemma_flag_pair_has("includeVoiceOver"@, p.include_voice_over, x);
    lemma_flag_pair_has("excludeVoiceOver"@, p.exclude_voice_over, x);
    lemma_flag_pair_has("includeRemix"@, p.include_remix, x);
    lemma_flag_pair_has("excludeRemix"@, p.exclude_remix, x);
}

proof fn lemma_flags_3_has(p: FeedParams, x: (Seq<char>, Seq<char>))
    ensures
        query_flags_3(p).contains(x) <==> ((p.include_extreme && x == ("includeExtreme"@, "true"@))
            || (p.exclude_extreme && x == ("excludeExtreme"@, "true"@))
            || (p.include_promotional && x == ("includePromotional"@, "true"@))
            || (p.exclude_promotional && x == ("excludePromotional"@, "true"@))),
{
    broadcast use vstd::seq_lib::lemma_seq_concat_contains_all_elements;

    reveal(query_flags_3);
    lemma_flag_pair_has("includeExtreme"@, p.include_extreme, x);
    lemma_flag_pair_has("excludeExtreme"@, p.exclude_extreme, x);
    lemma_flag_pair_has("includePromotional"@, p.include_promotional, x);
    lemma_flag_pair_has("excludePromotional"@, p.exclude_promotional, x);
}

proof fn lemma_flags_4_has(p: FeedParams, x: (Seq<char>, Seq<char>))
    ensures
        query_flags_4(p).contains(x) <==> ((p.include_explicit && x == ("includeExplicit"@, "true"@))
            || (p.exclude_explicit && x == ("excludeExplicit"@, "true"@))
            || (p.non_nude_only && x == ("nonNudeOnly"@, "true"@))
            || (p.watched_only && x == ("watchedOnly"@, "true"@))),
{
    broadcast use vstd::seq_lib::lemma_seq_concat_contains_all_elements;

    reveal(query_flags_4);
    lemma_flag_pair_has("includeExplicit"@, p.include_explicit, x);
    lemma_flag_pair_has("excludeExplicit"@, p.exclude_explicit, x);
    lemma_flag_pair_has("nonNudeOnly"@, p.non_nude_only, x);
    lemma_flag_pair_has("watchedOnly"@, p.watched_only, x);
}

proof fn lemma_flags_5_has(p: FeedParams, x: (Seq<char>, Seq<char>))
    ensures
        query_flags_5(p).contains(x) <==> ((p.exclude_watched && x == ("excludeWatched"@, "true"@))
            || (p.funscript_only && x == ("funscriptOnly"@, "true"@))
            || (p.exclude_funscript && x == ("excludeFunscript"@, "true"@))
            || (p.subscribed_only && x == ("subscribedOnly"@, "true"@))),
{
    broadcast use vstd::seq_lib::lemma_seq_concat_contains_all_elements;

    reveal(query_flags_5);
    lemma_flag_pair_has("excludeWatched"@, p.exclude_watched, x);
    lemma_flag_pair_has("funscriptOnly"@, p.funscript_only, x);
    lemma_flag_pair_has("excludeFunscript"@, p.exclude_funscript, x);
    lemma_flag_pair_has("subscribedOnly"@, p.subscribed_only, x);
}

proof fn lemma_flags_6_has(p: FeedParams, x: (Seq<char>, Seq<char>))
    ensures
        query_flags_6(p).contains(x) <==> ((p.favorites_only && x == ("favoritesOnly"@, "true"@))
            || (p.trending && x == ("trending"@, "true"@))
            || (p.personalized_only && x == ("personalizedOnly"@, "true"@))),
{
    broadcast use vstd::seq_lib::lemma_seq_concat_contains_all_elements;

    reveal(query_flags_6);
    lemma_flag_pair_has("favoritesOnly"@, p.favorites_only, x);
    lemma_flag_pair_has("trending"@, p.trending, x);
    lemma_flag_pair_has("personalizedOnly"@, p.personalized_only, x);
}

/// What a feed query holds, pair by pair.
proof fn lemma_query_has(p: FeedParams, x: (Seq<char>, Seq<char>))
    ensures
        spec_to_query(p).contains(x) <==> (x == query_head(p)[0]
            || x == query_head(p)[1]
            || x == query_head(p)[2]
            || (p.tags matches Some(s) && s@.len() > 0 && x == ("tags"@, s@))
            || (p.exclude_tags matches Some(s) && s@.len() > 0 && x == ("excludeTags"@, s@))
            || (p.stars matches Some(s) && s@.len() > 0 && x == ("stars"@, s@))
            || (p.exclude_stars matches Some(s) && s@.len() > 0 && x == ("excludeStars"@, s@))
            || (p.music_tags matches Some(s) && s@.len() > 0 && x == ("musicTags"@, s@))
            || (p.music_artist matches Some(s) && s@.len() > 0 && x == ("musicArtist"@, s@))
            || (p.music_song matches Some(s) && s@.len() > 0 && x == ("musicSong"@, s@))
            || (p.creators matches Some(s) && s@.len() > 0 && x == ("creators"@, s@))
            || (p.exclude_creators matches Some(s) && s@.len() > 0 && x == ("excludeCreators"@, s@))
            || (p.creator matches Some(s) && s@.len() > 0 && x == ("creator"@, s@))
            || (p.uploader matches Some(s) && s@.len() > 0 && x == ("uploader"@, s@))
            || (p.featured_model matches Some(s) && s@.len() > 0 && x == ("featuredModel"@, s@))
            || (p.aspect matches Some(s) && s@.len() > 0 && x == ("aspect"@, s@))
            || (p.upload_date_from matches Some(s) && s@.len() > 0 && x == ("uploadDateFrom"@, s@))
            || (p.upload_date_to matches Some(s) && s@.len() > 0 && x == ("uploadDateTo"@, s@))
            || x == query_mode(p)[0]
            || x == query_mode(p)[1]
            || (widen(p.duration_min) matches Some(n) && x == ("durationMin"@, decimal(n as nat)))
            || (widen(p.duration_max) matches Some(n) && x == ("durationMax"@, decimal(n as nat)))
            || (widen(p.min_rating) matches Some(n) && x == ("minRating"@, decimal(n as nat)))
            || (widen(p.max_rating) matches Some(n) && x == ("maxRating"@, decimal(n as nat)))
            || (p.min_views matches Some(n) && x == ("minViews"@, decimal(n as nat)))
            || (p.max_views matches Some(n) && x == ("maxViews"@, decimal(n as nat)))
            || (widen(p.min_height) matches Some(n) && x == ("minHeight"@, decimal(n as nat)))
            || (widen(p.max_height) matches Some(n) && x == ("maxHeight"@, decimal(n as nat)))
            || (p.include_gay && x == ("includeGay"@, "true"@))
            || (p.exclude_gay && x == ("excludeGay"@, "true"@))
            || (p.include_trans && x == ("includeTrans"@, "true"@))
            || (p.exclude_trans && x == ("excludeTrans"@, "true"@))
            || (p.include_voice_over && x == ("includeVoiceOver"@, "true"@))
            || (p.exclude_voice_over && x == ("excludeVoiceOver"@, "true"@))
            || (p.include_remix && x == ("includeRemix"@, "true"@))
            || (p.exclude_remix && x == ("excludeRemix"@, "true"@))
            || (p.include_extreme && x == ("includeExtreme"@, "true"@))
            || (p.exclude_extreme && x == ("excludeExtreme"@, "true"@))
            || (p.include_promotional && x == ("includePromotional"@, "true"@))
            || (p.exclude_promotional && x == ("excludePromotional"@, "true"@))
            || (p.include_explicit && x == ("includeExplicit"@, "true"@))
            || (p.exclude_explicit && x == ("excludeExplicit"@, "true"@))
            || (p.non_nude_only && x == ("nonNudeOnly"@, "true"@))
            || (p.watched_only && x == ("watchedOnly"@, "true"@))
            || (p.exclude_watched && x == ("excludeWatched"@, "true"@))
            || (p.funscript_only && x == ("funscriptOnly"@, "true"@))
            || (p.exclude_funscript && x == ("excludeFunscript"@, "true"@))
            || (p.subscribed_only && x == ("subscribedOnly"@, "true"@))
            || (p.favorites_only && x == ("favoritesOnly"@, "true"@))
            || (p.trending && x == ("trending"@, "true"@))
            || (p.personalized_only && x == ("personalizedOnly"@, "true"@))),
{
    broadcast use vstd::seq_lib::lemma_seq_concat_contains_all_elements;
    broadcast use vstd::seq_lib::lemma_seq_contains;

    assert(query_head(p).contains(x) <==> (x == query_head(p)[0] || x == query_head(p)[1]
        || x == query_head(p)[2]));
    assert(query_mode(p).contains(x) <==> (x == query_mode(p)[0] || x == query_mode(p)[1]));
    lemma_texts_has(p, x);
    lemma_numbers_has(p, x);
    lemma_flags_1_has(p, x);
    lemma_flags_2_has(p, x);
    lemma_flags_3_has(p, x);
    lemma_flags_4_has(p, x);
    lemma_flags_5_has(p, x);
    lemma_flags_6_has(p, x);
}

/// The spellings of the query keys: their lengths, and for two keys of the
/// same length a position where they differ; so no two keys are the same.
proof fn lemma_query_key_spellings()
    ensures
        "page"@.len() == 4,
        "limit"@.len() == 5,
        "sort"@.len() == 4,
        "tags"@.len() == 4,
        "excludeTags"@.len() == 11,
        "stars"@.len() == 5,
        "excludeStars"@.len() == 12,
        "musicTags"@.len() == 9,
        "musicArtist"@.len() == 11,
        "musicSong"@.len() == 9,
        "creators"@.len() == 8,
        "excludeCreators"@.len() == 15,
        "creator"@.len() == 7,
        "uploader"@.len() == 8,
        "featuredModel"@.len() == 13,
        "aspect"@.len() == 6,
        "uploadDateFrom"@.len() == 14,
        "uploadDateTo"@.len() == 12,
        "tagMode"@.len() == 7,
        "expandTags"@.len() == 10,
        "durationMin"@.len() == 11,
        "durationMax"@.len() == 11,
        "minRating"@.len() == 9,
        "maxRating"@.len() == 9,
        "minViews"@.len() == 8,
        "maxViews"@.len() == 8,
        "minHeight"@.len() == 9,
        "maxHeight"@.len() == 9,
        "includeGay"@.len() == 10,
        "excludeGay"@.len() == 10,
        "includeTrans"@.len() == 12,
        "excludeTrans"@.len() == 12,
        "includeVoiceOver"@.len() == 16,
        "excludeVoiceOver"@.len() == 16,
        "includeRemix"@.len() == 12,
        "excludeRemix"@.len() == 12,
        "includeExtreme"@.len() == 14,
        "excludeExtreme"@.len() == 14,
        "includePromotional"@.len() == 18,
        "excludePromotional"@.len() == 18,
        "includeExplicit"@.len() == 15,
        "excludeExplicit"@.len() == 15,
        "nonNudeOnly"@.len() == 11,
        "watchedOnly"@.len() == 11,
        "excludeWatched"@.len() == 14,
        "funscriptOnly"@.len() == 13,
        "excludeFunscript"@.len() == 16,
        "subscribedOnly"@.len() == 14,
        "favoritesOnly"@.len() == 13,
        "trending"@.len() == 8,
        "personalizedOnly"@.len() == 16,
        "page"@[0] != "sort"@[0],
        "page"@[0] != "tags"@[0],
        "limit"@[0] != "stars"@[0],
        "sort"@[0] != "tags"@[0],
        "excludeTags"@[0] != "musicArtist"@[0],
        "excludeTags"@[0] != "durationMin"@[0],
        "excludeTags"@[0] != "durationMax"@[0],
        "excludeTags"@[0] != "nonNudeOnly"@[0],
        "excludeTags"@[0] != "watchedOnly"@[0],
        "excludeStars"@[0] != "uploadDateTo"@[0],
        "excludeStars"@[0] != "includeTrans"@[0],
        "excludeStars"@[7] != "excludeTrans"@[7],
        "excludeStars"@[0] != "includeRemix"@[0],
        "excludeStars"@[7] != "excludeRemix"@[7],
        "musicTags"@[5] != "musicSong"@[5],
        "musicTags"@[1] != "minRating"@[1],
        "musicTags"@[1] != "maxRating"@[1],
        "musicTags"@[1] != "minHeight"@[1],
        "musicTags"@[1] != "maxHeight"@[1],
        "musicArtist"@[0] != "durationMin"@[0],
        "musicArtist"@[0] != "durationMax"@[0],
        "musicArtist"@[0] != "nonNudeOnly"@[0],
        "musicArtist"@[0] != "watchedOnly"@[0],
        "musicSong"@[1] != "minRating"@[1],
        "musicSong"@[1] != "maxRating"@[1],
        "musicSong"@[1] != "minHeight"@[1],
        "musicSong"@[1] != "maxHeight"@[1],
        "creators"@[0] != "uploader"@[0],
        "creators"@[0] != "minViews"@[0],
        "creators"@[0] != "maxViews"@[0],
        "creators"@[0] != "trending"@[0],
        "excludeCreators"@[0] != "includeExplicit"@[0],
        "excludeCreators"@[7] != "excludeExplicit"@[7],
        "creator"@[0] != "tagMode"@[0],
        "uploader"@[0] != "minViews"@[0],
        "uploader"@[0] != "maxViews"@[0],
        "uploader"@[0] != "trending"@[0],
        "featuredModel"@[1] != "funscriptOnly"@[1],
        "featuredModel"@[1] != "favoritesOnly"@[1],
        "uploadDateFrom"@[0] != "includeExtreme"@[0],
        "uploadDateFrom"@[0] != "excludeExtreme"@[0],
        "uploadDateFrom"@[0] != "excludeWatched"@[0],
        "uploadDateFrom"@[0] != "subscribedOnly"@[0],
        "uploadDateTo"@[0] != "includeTrans"@[0],
        "uploadDateTo"@[0] != "excludeTrans"@[0],
        "uploadDateTo"@[0] != "includeRemix"@[0],
        "uploadDateTo"@[0] != "excludeRemix"@[0],
        "expandTags"@[0] != "includeGay"@[0],
        "expandTags"@[2] != "excludeGay"@[2],
        "durationMin"@[9] != "durationMax"@[9],
        "durationMin"@[0] != "nonNudeOnly"@[0],
        "durationMin"@[0] != "watchedOnly"@[0],
        "durationMax"@[0] != "nonNudeOnly"@[0],
        "durationMax"@[0] != "watchedOnly"@[0],
        "minRating"@[1] != "maxRating"@[1],
        "minRating"@[3] != "minHeight"@[3],
        "minRating"@[1] != "maxHeight"@[1],
        "maxRating"@[1] != "minHeight"@[1],
        "maxRating"@[3] != "maxHeight"@[3],
        "minViews"@[1] != "maxViews"@[1],
        "minViews"@[0] != "trending"@[0],
        "maxViews"@[0] != "trending"@[0],
        "minHeight"@[1] != "maxHeight"@[1],
        "includeGay"@[0] != "excludeGay"@[0],
        "includeTrans"@[0] != "excludeTrans"@[0],
        "includeTrans"@[7] != "includeRemix"@[7],
        "includeTrans"@[0] != "excludeRemix"@[0],
        "excludeTrans"@[0] != "includeRemix"@[0],
        "excludeTrans"@[7] != "excludeRemix"@[7],
        "includeVoiceOver"@[0] != "excludeVoiceOver"@[0],
        "includeVoiceOver"@[0] != "excludeFunscript"@[0],
        "includeVoiceOver"@[0] != "personalizedOnly"@[0],
        "excludeVoiceOver"@[7] != "excludeFunscript"@[7],
        "excludeVoiceOver"@[0] != "personalizedOnly"@[0],
        "includeRemix"@[0] != "excludeRemix"@[0],
        "includeExtreme"@[0] != "excludeExtreme"@[0],
        "includeExtreme"@[0] != "excludeWatched"@[0],
        "includeExtreme"@[0] != "subscribedOnly"@[0],
        "excludeExtreme"@[7] != "excludeWatched"@[7],
        "excludeExtreme"@[0] != "subscribedOnly"@[0],
        "includePromotional"@[0] != "excludePromotional"@[0],
        "includeExplicit"@[0] != "excludeExplicit"@[0],
        "nonNudeOnly"@[0] != "watchedOnly"@[0],
        "excludeWatched"@[0] != "subscribedOnly"@[0],
        "funscriptOnly"@[1] != "favoritesOnly"@[1],
        "excludeFunscript"@[0] != "personalizedOnly"@[0],
{
    reveal_strlit("page");
    reveal_strlit("limit");
    reveal_strlit("sort");
    reveal_strlit("tags");
    reveal_strlit("excludeTags");
    reveal_strlit("stars");
    reveal_strlit("excludeStars");
    reveal_strlit("musicTags");
    reveal_strlit("musicArtist");
    reveal_strlit("musicSong");
    reveal_strlit("creators");
    reveal_strlit("excludeCreators");
    reveal_strlit("creator");
    reveal_strlit("uploader");
    reveal_strlit("featuredModel");
    reveal_strlit("aspect");
    reveal_strlit("uploadDateFrom");
    reveal_strlit("uploadDateTo");
    reveal_strlit("tagMode");
    reveal_strlit("expandTags");
    reveal_strlit("durationMin");
    reveal_strlit("durationMax");
    reveal_strlit("minRating");
    reveal_strlit("maxRating");
    reveal_strlit("minViews");
    reveal_strlit("maxViews");
    reveal_strlit("minHeight");
    reveal_strlit("maxHeight");
    reveal_strlit("includeGay");
    reveal_strlit("excludeGay");
    reveal_strlit("includeTrans");
    reveal_strlit("excludeTrans");
    reveal_strlit("includeVoiceOver");
    reveal_strlit("excludeVoiceOver");
    reveal_strlit("includeRemix");
    reveal_strlit("excludeRemix");
    reveal_strlit("includeExtreme");
    reveal_strlit("excludeExtreme");
    reveal_strlit("includePromotional");
    reveal_strlit("excludePromotional");
    reveal_strlit("includeExplicit");
    reveal_strlit("excludeExplicit");
    reveal_strlit("nonNudeOnly");
    reveal_strlit("watchedOnly");
    reveal_strlit("excludeWatched");
    reveal_strlit("funscriptOnly");
    reveal_strlit("excludeFunscript");
    reveal_strlit("subscribedOnly");
    reveal_strlit("favoritesOnly");
    reveal_strlit("trending");
    reveal_strlit("personalizedOnly");
}

/// Every text filter of a feed is sent under its own key with its own value,
/// when it is set and not empty, and under that key nothing else is sent:
/// models under "stars", excluded models under "excludeStars", and likewise
/// tags, music, creators, uploader, featured model, aspect and upload dates.
pub proof fn lemma_query_texts(p: FeedParams)
    ensures
        forall|v: Seq<char>| #[trigger] spec_to_query(p).contains(("tags"@, v)) <==> (p.tags matches Some(s) && s@.len() > 0 && v == s@),
        forall|v: Seq<char>| #[trigger] spec_to_query(p).contains(("excludeTags"@, v)) <==> (p.exclude_tags matches Some(s) && s@.len() > 0 && v == s@),
        forall|v: Seq<char>| #[trigger] spec_to_query(p).contains(("stars"@, v)) <==> (p.stars matches Some(s) && s@.len() > 0 && v == s@),
        forall|v: Seq<char>| #[trigger] spec_to_query(p).contains(("excludeStars"@, v)) <==> (p.exclude_stars matches Some(s) && s@.len() > 0 && v == s@),
        forall|v: Seq<char>| #[trigger] spec_to_query(p).contains(("musicTags"@, v)) <==> (p.music_tags matches Some(s) && s@.len() > 0 && v == s@),
        forall|v: Seq<char>| #[trigger] spec_to_query(p).contains(("musicArtist"@, v)) <==> (p.music_artist matches Some(s) && s@.len() > 0 && v == s@),
        forall|v: Seq<char>| #[trigger] spec_to_query(p).contains(("musicSong"@, v)) <==> (p.music_song matches Some(s) && s@.len() > 0 && v == s@),
        forall|v: Seq<char>| #[trigger] spec_to_query(p).contains(("creators"@, v)) <==> (p.creators matches Some(s) && s@.len() > 0 && v == s@),
        forall|v: Seq<char>| #[trigger] spec_to_query(p).contains(("excludeCreators"@, v)) <==> (p.exclude_creators matches Some(s) && s@.len() > 0 && v == s@),
        forall|v: Seq<char>| #[trigger] spec_to_query(p).contains(("creator"@, v)) <==> (p.creator matches Some(s) && s@.len() > 0 && v == s@),
        forall|v: Seq<char>| #[trigger] spec_to_query(p).contains(("uploader"@, v)) <==> (p.uploader matches Some(s) && s@.len() > 0 && v == s@),
        forall|v: Seq<char>| #[trigger] spec_to_query(p).contains(("featuredModel"@, v)) <==> (p.featured_model matches Some(s) && s@.len() > 0 && v == s@),
        forall|v: Seq<char>| #[trigger] spec_to_query(p).contains(("aspect"@, v)) <==> (p.aspect matches Some(s) && s@.len() > 0 && v == s@),
        forall|v: Seq<char>| #[trigger] spec_to_query(p).contains(("uploadDateFrom"@, v)) <==> (p.upload_date_from matches Some(s) && s@.len() > 0 && v == s@),
        forall|v: Seq<char>| #[trigger] spec_to_query(p).contains(("uploadDateTo"@, v)) <==> (p.upload_date_to matches Some(s) && s@.len() > 0 && v == s@),
{
    lemma_query_key_spellings();
    assert forall|v: Seq<char>| #[trigger] spec_to_query(p).contains(("tags"@, v)) <==> (p.tags matches Some(s) && s@.len() > 0 && v == s@) by {
        lemma_query_has(p, ("tags"@, v));
    }
    assert forall|v: Seq<char>| #[trigger] spec_to_query(p).contains(("excludeTags"@, v)) <==> (p.exclude_tags matches Some(s) && s@.len() > 0 && v == s@) by {
        lemma_query_has(p, ("excludeTags"@, v));
    }
    assert forall|v: Seq<char>| #[trigger] spec_to_query(p).contains(("stars"@, v)) <==> (p.stars matches Some(s) && s@.len() > 0 && v == s@) by {
        lemma_query_has(p, ("stars"@, v));
    }
    assert forall|v: Seq<char>| #[trigger] spec_to_query(p).contains(("excludeStars"@, v)) <==> (p.exclude_stars matches Some(s) && s@.len() > 0 && v == s@) by {
        lemma_query_has(p, ("excludeStars"@, v));
    }
    assert forall|v: Seq<char>| #[trigger] spec_to_query(p).contains(("musicTags"@, v)) <==> (p.music_tags matches Some(s) && s@.len() > 0 && v == s@) by {
        lemma_query_has(p, ("musicTags"@, v));
    }
    assert forall|v: Seq<char>| #[trigger] spec_to_query(p).contains(("musicArtist"@, v)) <==> (p.music_artist matches Some(s) && s@.len() > 0 && v == s@) by {
        lemma_query_has(p, ("musicArtist"@, v));
    }
    assert forall|v: Seq<char>| #[trigger] spec_to_query(p).contains(("musicSong"@, v)) <==> (p.music_song matches Some(s) && s@.len() > 0 && v == s@) by {
        lemma_query_has(p, ("musicSong"@, v));
    }
    assert forall|v: Seq<char>| #[trigger] spec_to_query(p).contains(("creators"@, v)) <==> (p.creators matches Some(s) && s@.len() > 0 && v == s@) by {
        lemma_query_has(p, ("creators"@, v));
    }
    assert forall|v: Seq<char>| #[trigger] spec_to_query(p).contains(("excludeCreators"@, v)) <==> (p.exclude_creators matches Some(s) && s@.len() > 0 && v == s@) by {
        lemma_query_has(p, ("excludeCreators"@, v));
    }
    assert forall|v: Seq<char>| #[trigger] spec_to_query(p).contains(("creator"@, v)) <==> (p.creator matches Some(s) && s@.len() > 0 && v == s@) by {
        lemma_query_has(p, ("creator"@, v));
    }
    assert forall|v: Seq<char>| #[trigger] spec_to_query(p).contains(("uploader"@, v)) <==> (p.uploader matches Some(s) && s@.len() > 0 && v == s@) by {
        lemma_query_has(p, ("uploader"@, v));
    }
    assert forall|v: Seq<char>| #[trigger] spec_to_query(p).contains(("featuredModel"@, v)) <==> (p.featured_model matches Some(s) && s@.len() > 0 && v == s@) by {
        lemma_query_has(p, ("featuredModel"@, v));
    }
    assert forall|v: Seq<char>| #[trigger] spec_to_query(p).contains(("aspect"@, v)) <==> (p.aspect matches Some(s) && s@.len() > 0 && v == s@) by {
        lemma_query_has(p, ("aspect"@, v));
    }
    assert forall|v: Seq<char>| #[trigger] spec_to_query(p).contains(("uploadDateFrom"@, v)) <==> (p.upload_date_from matches Some(s) && s@.len() > 0 && v == s@) by {
        lemma_query_has(p, ("uploadDateFrom"@, v));
    }
    assert forall|v: Seq<char>| #[trigger] spec_to_query(p).contains(("uploadDateTo"@, v)) <==> (p.upload_date_to matches Some(s) && s@.len() > 0 && v == s@) by {
        lemma_query_has(p, ("uploadDateTo"@, v));
    }
}

/// Every numeric bound of a feed that is set (duration, rating, views,
/// height) is sent in decimal under its own key, and under that key nothing
/// else is sent.
pub proof fn lemma_query_numbers(p: FeedParams)
    ensures
        forall|v: Seq<char>| #[trigger] spec_to_query(p).contains(("durationMin"@, v)) <==> (p.duration_min matches Some(n) && v == decimal(n as nat)),
        forall|v: Seq<char>| #[trigger] spec_to_query(p).contains(("durationMax"@, v)) <==> (p.duration_max matches Some(n) && v == decimal(n as nat)),
        forall|v: Seq<char>| #[trigger] spec_to_query(p).contains(("minRating"@, v)) <==> (p.min_rating matches Some(n) && v == decimal(n as nat)),
        forall|v: Seq<char>| #[trigger] spec_to_query(p).contains(("maxRating"@, v)) <==> (p.max_rating matches Some(n) && v == decimal(n as nat)),
        forall|v: Seq<char>| #[trigger] spec_to_query(p).contains(("minViews"@, v)) <==> (p.min_views matches Some(n) && v == decimal(n as nat)),
        forall|v: Seq<char>| #[trigger] spec_to_query(p).contains(("maxViews"@, v)) <==> (p.max_views matches Some(n) && v == decimal(n as nat)),
        forall|v: Seq<char>| #[trigger] spec_to_query(p).contains(("minHeight"@, v)) <==> (p.min_height matches Some(n) && v == decimal(n as nat)),
        forall|v: Seq<char>| #[trigger] spec_to_query(p).contains(("maxHeight"@, v)) <==> (p.max_height matches Some(n) && v == decimal(n as nat)),
{
    lemma_query_key_spellings();
    assert forall|v: Seq<char>| #[trigger] spec_to_query(p).contains(("durationMin"@, v)) <==> (p.duration_min matches Some(n) && v == decimal(n as nat)) by {
        lemma_query_has(p, ("durationMin"@, v));
    }
    assert forall|v: Seq<char>| #[trigger] spec_to_query(p).contains(("durationMax"@, v)) <==> (p.duration_max matches Some(n) && v == decimal(n as nat)) by {
        lemma_query_has(p, ("durationMax"@, v));
    }
    assert forall|v: Seq<char>| #[trigger] spec_to_query(p).contains(("minRating"@, v)) <==> (p.min_rating matches Some(n) && v == decimal(n as nat)) by {
        lemma_query_has(p, ("minRating"@, v));
    }
    assert forall|v: Seq<char>| #[trigger] spec_to_query(p).contains(("maxRating"@, v)) <==> (p.max_rating matches Some(n) && v == decimal(n as nat)) by {
        lemma_query_has(p, ("maxRating"@, v));
    }
    assert forall|v: Seq<char>| #[trigger] spec_to_query(p).contains(("minViews"@, v)) <==> (p.min_views matches Some(n) && v == decimal(n as nat)) by {
        lemma_query_has(p, ("minViews"@, v));
    }
    assert forall|v: Seq<char>| #[trigger] spec_to_query(p).contains(("maxViews"@, v)) <==> (p.max_views matches Some(n) && v == decimal(n as nat)) by {
        lemma_query_has(p, ("maxViews"@, v));
    }
    assert forall|v: Seq<char>| #[trigger] spec_to_query(p).contains(("minHeight"@, v)) <==> (p.min_height matches Some(n) && v == decimal(n as nat)) by {
        lemma_query_has(p, ("minHeight"@, v));
    }
    assert forall|v: Seq<char>| #[trigger] spec_to_query(p).contains(("maxHeight"@, v)) <==> (p.max_height matches Some(n) && v == decimal(n as nat)) by {
        lemma_query_has(p, ("maxHeight"@, v));
    }
}

/// Every content flag of a feed that is on is sent as `true` under its own
/// key, and a flag that is off is not sent at all.
pub proof fn lemma_query_flags(p: FeedParams)
    ensures
        forall|v: Seq<char>| #[trigger] spec_to_query(p).contains(("includeGay"@, v)) <==> (p.include_gay && v == "true"@),
        forall|v: Seq<char>| #[trigger] spec_to_query(p).contains(("excludeGay"@, v)) <==> (p.exclude_gay && v == "true"@),
        forall|v: Seq<char>| #[trigger] spec_to_query(p).contains(("includeTrans"@, v)) <==> (p.include_trans && v == "true"@),
        forall|v: Seq<char>| #[trigger] spec_to_query(p).contains(("excludeTrans"@, v)) <==> (p.exclude_trans && v == "true"@),
        forall|v: Seq<char>| #[trigger] spec_to_query(p).contains(("includeVoiceOver"@, v)) <==> (p.include_voice_over && v == "true"@),
        forall|v: Seq<char>| #[trigger] spec_to_query(p).contains(("excludeVoiceOver"@, v)) <==> (p.exclude_voice_over && v == "true"@),
        forall|v: Seq<char>| #[trigger] spec_to_query(p).contains(("includeRemix"@, v)) <==> (p.include_remix && v == "true"@),
        forall|v: Seq<char>| #[trigger] spec_to_query(p).contains(("excludeRemix"@, v)) <==> (p.exclude_remix && v == "true"@),
        forall|v: Seq<char>| #[trigger] spec_to_query(p).contains(("includeExtreme"@, v)) <==> (p.include_extreme && v == "true"@),
        forall|v: Seq<char>| #[trigger] spec_to_query(p).contains(("excludeExtreme"@, v)) <==> (p.exclude_extreme && v == "true"@),
        forall|v: Seq<char>| #[trigger] spec_to_query(p).contains(("includePromotional"@, v)) <==> (p.include_promotional && v == "true"@),
        forall|v: Seq<char>| #[trigger] spec_to_query(p).contains(("excludePromotional"@, v)) <==> (p.exclude_promotional && v == "true"@),
        forall|v: Seq<char>| #[trigger] spec_to_query(p).contains(("includeExplicit"@, v)) <==> (p.include_explicit && v == "true"@),
        forall|v: Seq<char>| #[trigger] spec_to_query(p).contains(("excludeExplicit"@, v)) <==> (p.exclude_explicit && v == "true"@),
        forall|v: Seq<char>| #[trigger] spec_to_query(p).contains(("nonNudeOnly"@, v)) <==> (p.non_nude_only && v == "true"@),
        forall|v: Seq<char>| #[trigger] spec_to_query(p).contains(("watchedOnly"@, v)) <==> (p.watched_only && v == "true"@),
        forall|v: Seq<char>| #[trigger] spec_to_query(p).contains(("excludeWatched"@, v)) <==> (p.exclude_watched && v == "true"@),
        forall|v: Seq<char>| #[trigger] spec_to_query(p).contains(("funscriptOnly"@, v)) <==> (p.funscript_only && v == "true"@),
        forall|v: Seq<char>| #[trigger] spec_to_query(p).contains(("excludeFunscript"@, v)) <==> (p.exclude_funscript && v == "true"@),
        forall|v: Seq<char>| #[trigger] spec_to_query(p).contains(("subscribedOnly"@, v)) <==> (p.subscribed_only && v == "true"@),
        forall|v: Seq<char>| #[trigger] spec_to_query(p).contains(("favoritesOnly"@, v)) <==> (p.favorites_only && v == "true"@),
        forall|v: Seq<char>| #[trigger] spec_to_query(p).contains(("trending"@, v)) <==> (p.trending && v == "true"@),
        forall|v: Seq<char>| #[trigger] spec_to_query(p).contains(("personalizedOnly"@, v)) <==> (p.personalized_only && v == "true"@),
{
    lemma_query_key_spellings();
    assert forall|v: Seq<char>| #[trigger] spec_to_query(p).contains(("includeGay"@, v)) <==> (p.include_gay && v == "true"@) by {
        lemma_query_has(p, ("includeGay"@, v));
    }
    assert forall|v: Seq<char>| #[trigger] spec_to_query(p).contains(("excludeGay"@, v)) <==> (p.exclude_gay && v == "true"@) by {
        lemma_query_has(p, ("excludeGay"@, v));
    }
    assert forall|v: Seq<char>| #[trigger] spec_to_query(p).contains(("includeTrans"@, v)) <==> (p.include_trans && v == "true"@) by {
        lemma_query_has(p, ("includeTrans"@, v));
    }
    assert forall|v: Seq<char>| #[trigger] spec_to_query(p).contains(("excludeTrans"@, v)) <==> (p.exclude_trans && v == "true"@) by {
        lemma_query_has(p, ("excludeTrans"@, v));
    }
    assert forall|v: Seq<char>| #[trigger] spec_to_query(p).contains(("includeVoiceOver"@, v)) <==> (p.include_voice_over && v == "true"@) by {
        lemma_query_has(p, ("includeVoiceOver"@, v));
    }
    assert forall|v: Seq<char>| #[trigger] spec_to_query(p).contains(("excludeVoiceOver"@, v)) <==> (p.exclude_voice_over && v == "true"@) by {
        lemma_query_has(p, ("excludeVoiceOver"@, v));
    }
    assert forall|v: Seq<char>| #[trigger] spec_to_query(p).contains(("includeRemix"@, v)) <==> (p.include_remix && v == "true"@) by {
        lemma_query_has(p, ("includeRemix"@, v));
    }
    assert forall|v: Seq<char>| #[trigger] spec_to_query(p).contains(("excludeRemix"@, v)) <==> (p.exclude_remix && v == "true"@) by {
        lemma_query_has(p, ("excludeRemix"@, v));
    }
    assert forall|v: Seq<char>| #[trigger] spec_to_query(p).contains(("includeExtreme"@, v)) <==> (p.include_extreme && v == "true"@) by {
        lemma_query_has(p, ("includeExtreme"@, v));
    }
    assert forall|v: Seq<char>| #[trigger] spec_to_query(p).contains(("excludeExtreme"@, v)) <==> (p.exclude_extreme && v == "true"@) by {
        lemma_query_has(p, ("excludeExtreme"@, v));
    }
    assert forall|v: Seq<char>| #[trigger] spec_to_query(p).contains(("includePromotional"@, v)) <==> (p.include_promotional && v == "true"@) by {
        lemma_query_has(p, ("includePromotional"@, v));
    }
    assert forall|v: Seq<char>| #[trigger] spec_to_query(p).contains(("excludePromotional"@, v)) <==> (p.exclude_promotional && v == "true"@) by {
        lemma_query_has(p, ("excludePromotional"@, v));
    }
    assert forall|v: Seq<char>| #[trigger] spec_to_query(p).contains(("includeExplicit"@, v)) <==> (p.include_explicit && v == "true"@) by {
        lemma_query_has(p, ("includeExplicit"@, v));
    }
    assert forall|v: Seq<char>| #[trigger] spec_to_query(p).contains(("excludeExplicit"@, v)) <==> (p.exclude_explicit && v == "true"@) by {
        lemma_query_has(p, ("excludeExplicit"@, v));
    }
    assert forall|v: Seq<char>| #[trigger] spec_to_query(p).contains(("nonNudeOnly"@, v)) <==> (p.non_nude_only && v == "true"@) by {
        lemma_query_has(p, ("nonNudeOnly"@, v));
    }
    assert forall|v: Seq<char>| #[trigger] spec_to_query(p).contains(("watchedOnly"@, v)) <==> (p.watched_only && v == "true"@) by {
        lemma_query_has(p, ("watchedOnly"@, v));
    }
    assert forall|v: Seq<char>| #[trigger] spec_to_query(p).contains(("excludeWatched"@, v)) <==> (p.exclude_watched && v == "true"@) by {
        lemma_query_has(p, ("excludeWatched"@, v));
    }
    assert forall|v: Seq<char>| #[trigger] spec_to_query(p).contains(("funscriptOnly"@, v)) <==> (p.funscript_only && v == "true"@) by {
        lemma_query_has(p, ("funscriptOnly"@, v));
    }
    assert forall|v: Seq<char>| #[trigger] spec_to_query(p).contains(("excludeFunscript"@, v)) <==> (p.exclude_funscript && v == "true"@) by {
        lemma_query_has(p, ("excludeFunscript"@, v));
    }
    assert forall|v: Seq<char>| #[trigger] spec_to_query(p).contains(("subscribedOnly"@, v)) <==> (p.subscribed_only && v == "true"@) by {
        lemma_query_has(p, ("subscribedOnly"@, v));
    }
    assert forall|v: Seq<char>| #[trigger] spec_to_query(p).contains(("favoritesOnly"@, v)) <==> (p.favorites_only && v == "true"@) by {
        lemma_query_has(p, ("favoritesOnly"@, v));
    }
    assert forall|v: Seq<char>| #[trigger] spec_to_query(p).contains(("trending"@, v)) <==> (p.trending && v == "true"@) by {
        lemma_query_has(p, ("trending"@, v));
    }
    assert forall|v: Seq<char>| #[trigger] spec_to_query(p).contains(("personalizedOnly"@, v)) <==> (p.personalized_only && v == "true"@) by {
        lemma_query_has(p, ("personalizedOnly"@, v));
    }
}

/// The paging, sort and tag-mode keys are always sent, each once: the page
/// (1 when unset), the page size (32 when unset), the sort order (newest when
/// unset), the tag mode ("OR" when unset) and whether similar tags are
/// expanded, which is only ever "true" outside the "AND" mode.
pub proof fn lemma_query_head(p: FeedParams)
    ensures
        forall|v: Seq<char>| #[trigger] spec_to_query(p).contains(("page"@, v)) <==> v == decimal(match p.page {
            Some(n) => n as nat,
            None => 1,
        }),
        forall|v: Seq<char>| #[trigger] spec_to_query(p).contains(("limit"@, v)) <==> v == decimal(match p.limit {
            Some(n) => n as nat,
            None => 32,
        }),
        forall|v: Seq<char>| #[trigger] spec_to_query(p).contains(("sort"@, v)) <==> v == (match p.sort {
            Some(s) => s,
            None => VideoSort::Newest,
        }).spec_as_api(),
        forall|v: Seq<char>| #[trigger] spec_to_query(p).contains(("tagMode"@, v)) <==> v == (match p.tag_mode {
            Some(s) => s@,
            None => "OR"@,
        }),
        forall|v: Seq<char>| #[trigger] spec_to_query(p).contains(("expandTags"@, v)) <==> v == (if p.expand_tags == Some(true) && (match p.tag_mode {
            Some(s) => s@ != "AND"@,
            None => true,
        }) {
            "true"@
        } else {
            "false"@
        }),
{
    lemma_query_key_spellings();
    reveal_strlit("OR");
    reveal_strlit("AND");
    assert("OR"@.len() != "AND"@.len());
    assert forall|v: Seq<char>| #[trigger] spec_to_query(p).contains(("page"@, v)) <==> v == decimal(match p.page {
                Some(n) => n as nat,
                None => 1,
            }) by {
        lemma_query_has(p, ("page"@, v));
    }
    assert forall|v: Seq<char>| #[trigger] spec_to_query(p).contains(("limit"@, v)) <==> v == decimal(match p.limit {
                Some(n) => n as nat,
                None => 32,
            }) by {
        lemma_query_has(p, ("limit"@, v));
    }
    assert forall|v: Seq<char>| #[trigger] spec_to_query(p).contains(("sort"@, v)) <==> v == (match p.sort {
                Some(s) => s,
                None => VideoSort::Newest,
            }).spec_as_api() by {
        lemma_query_has(p, ("sort"@, v));
    }
    assert forall|v: Seq<char>| #[trigger] spec_to_query(p).contains(("tagMode"@, v)) <==> v == (match p.tag_mode {
                Some(s) => s@,
                None => "OR"@,
            }) by {
        lemma_query_has(p, ("tagMode"@, v));
    }
    assert forall|v: Seq<char>| #[trigger] spec_to_query(p).contains(("expandTags"@, v)) <==> v == (if p.expand_tags == Some(true) && (match p.tag_mode {
                Some(s) => s@ != "AND"@,
                None => true,
            }) {
                "true"@
            } else {
                "false"@
            }) by {
        lemma_query_has(p, ("expandTags"@, v));
    }
}

} // verus!
