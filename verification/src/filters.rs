//! The browse filter panel's state and how it becomes a feed request.
use vstd::prelude::*;

use crate::models::{
    lemma_query_flags, lemma_query_head, lemma_query_texts, opt_view, spec_to_query, ContentChip,
    FeedParams, VideoSort,
};
use crate::text::{decimal, is_blank, join, join_strs, owned, str_eq, str_views, trim, trimmed};

verus! {

/// What the filter panel holds.
pub struct BrowseFilterState {
    pub sort: VideoSort,
    pub open: bool,
    pub tags: String,
    pub exclude_tags: String,
    pub exclude_mode: bool,
    pub stars: String,
    pub music: String,
    pub creator: String,
    pub tag_mode_and: bool,
    pub expand_tags: bool,
    /// Preset: "", "today", "7days", "30days", "365days"
    pub uploaded: String,
    pub duration_min_min: Option<u32>,
    pub duration_max_min: Option<u32>,
    pub rating_min: Option<u32>,
    pub views_min: Option<u64>,
    pub views_max: Option<u64>,
    /// Quality keys: SD HD FHD QHD 4K
    pub qualities: Vec<&'static str>,
    pub aspects: Vec<&'static str>,
    pub gay: ContentChip,
    pub trans: ContentChip,
    pub voice: ContentChip,
    pub remix: ContentChip,
    pub extreme: ContentChip,
    pub promo: ContentChip,
    pub sfw: ContentChip,
    pub watched: ContentChip,
    pub funscript: ContentChip,
    pub subscriptions: ContentChip,
    pub favorites: ContentChip,
}

/// The panel as it opens: newest first, nothing filtered.
pub open spec fn is_default_filters(s: BrowseFilterState) -> bool {
    &&& s.sort == VideoSort::Newest && s.open
    &&& s.tags@.len() == 0 && s.exclude_tags@.len() == 0 && !s.exclude_mode
    &&& s.stars@.len() == 0 && s.music@.len() == 0 && s.creator@.len() == 0
    &&& !s.tag_mode_and && !s.expand_tags && s.uploaded@.len() == 0
    &&& s.duration_min_min is None && s.duration_max_min is None && s.rating_min is None
    &&& s.views_min is None && s.views_max is None
    &&& s.qualities@.len() == 0 && s.aspects@.len() == 0
    &&& s.gay == ContentChip::Off && s.trans == ContentChip::Off && s.voice == ContentChip::Off
    &&& s.remix == ContentChip::Off && s.extreme == ContentChip::Off && s.promo == ContentChip::Off
    &&& s.sfw == ContentChip::Off && s.watched == ContentChip::Off
    &&& s.funscript == ContentChip::Off && s.subscriptions == ContentChip::Off
    &&& s.favorites == ContentChip::Off
}

impl Default for BrowseFilterState {
    fn default() -> (s: BrowseFilterState)
        ensures
            is_default_filters(s),
    {
        BrowseFilterState {
            sort: VideoSort::Newest,
            open: true,
            tags: String::new(),
            exclude_tags: String::new(),
            exclude_mode: false,
            stars: String::new(),
            music: String::new(),
            creator: String::new(),
            tag_mode_and: false,
            expand_tags: false,
            uploaded: String::new(),
            duration_min_min: None,
            duration_max_min: None,
            rating_min: None,
            views_min: None,
            views_max: None,
            qualities: Vec::new(),
            aspects: Vec::new(),
            gay: ContentChip::Off,
            trans: ContentChip::Off,
            voice: ContentChip::Off,
            remix: ContentChip::Off,
            extreme: ContentChip::Off,
            promo: ContentChip::Off,
            sfw: ContentChip::Off,
            watched: ContentChip::Off,
            funscript: ContentChip::Off,
            subscriptions: ContentChip::Off,
            favorites: ContentChip::Off,
        }
    }
}

/* --------------------------------- clock and dates -------------------------------- */

/// Milliseconds in a day.
pub const DAY_MS: i64 = 86_400_000;

/// Bound on the timestamps this module handles: every `DateTime<Utc>` chrono
/// can represent (years -262143 to 262142) lies within it.
pub const TIME_BOUND_MS: i64 = 8_400_000_000_000_000;

/// The current time in milliseconds since the Unix epoch (chrono
/// `Utc::now().timestamp_millis()`); it depends on the clock, so only its range
/// is stated: chrono's `DateTime<Utc>` range.
#[verifier::external_body]
pub(crate) fn utc_now_millis() -> (r: i64)
    ensures
        -TIME_BOUND_MS <= r <= TIME_BOUND_MS,
{
    chrono::Utc::now().timestamp_millis()
}

/// The RFC 3339 text chrono prints for the UTC instant `ms` milliseconds after
/// the epoch, with millisecond precision and a `Z` suffix; none when chrono
/// cannot represent the instant.
pub uninterp spec fn rfc3339_millis_utc(ms: int) -> Option<Seq<char>>;

/// chrono `DateTime::from_timestamp_millis(ms)` formatted with
/// `to_rfc3339_opts(SecondsFormat::Millis, true)`.
#[verifier::external_body]
pub(crate) fn format_rfc3339_millis(ms: i64) -> (r: Option<String>)
    ensures
        opt_view(r) == rfc3339_millis_utc(ms as int),
{
    match chrono::DateTime::from_timestamp_millis(ms) {
        Some(d) => Some(d.to_rfc3339_opts(chrono::SecondsFormat::Millis, true)),
        None => None,
    }
}

/// Midnight (UTC) of the day holding `ms`.
pub open spec fn day_start(ms: int) -> int {
    ms - ms % (DAY_MS as int)
}

/// The first upload instant a date preset admits, given the time now.
pub open spec fn preset_start(preset: Seq<char>, now_ms: int) -> Option<int> {
    if preset == "today"@ {
        Some(day_start(now_ms))
    } else if preset == "7days"@ {
        Some(now_ms - 7 * (DAY_MS as int))
    } else if preset == "30days"@ {
        Some(now_ms - 30 * (DAY_MS as int))
    } else if preset == "365days"@ {
        Some(now_ms - 365 * (DAY_MS as int))
    } else {
        None
    }
}

/// `uploadDateFrom` for a preset: the start instant, as RFC 3339.
pub open spec fn upload_from(preset: Seq<char>, now_ms: int) -> Option<Seq<char>> {
    match preset_start(preset, now_ms) {
        Some(ms) => rfc3339_millis_utc(ms),
        None => None,
    }
}

/// "today" starts at midnight (UTC) of the current day; "7days", "30days" and
/// "365days" start exactly that many days before now; any other preset
/// starts nowhere, so no upload date is sent.
pub proof fn lemma_date_presets(now: int, other: Seq<char>)
    ensures
        preset_start("today"@, now) matches Some(t) && t <= now < t + 86_400_000 && t
            % 86_400_000 == 0,
        preset_start("7days"@, now) == Some(now - 604_800_000),
        preset_start("30days"@, now) == Some(now - 2_592_000_000),
        preset_start("365days"@, now) == Some(now - 31_536_000_000),
        other != "today"@ && other != "7days"@ && other != "30days"@ && other != "365days"@
            ==> preset_start(other, now) is None,
{
    reveal_strlit("today");
    reveal_strlit("7days");
    reveal_strlit("30days");
    reveal_strlit("365days");
    assert("today"@.len() == 5);
    assert("7days"@.len() == 5);
    assert("30days"@.len() == 6);
    assert("365days"@.len() == 7);
    assert("today"@[0] != "7days"@[0]);
    let t = day_start(now);
    assert(t % 86_400_000 == 0) by {
        vstd::arithmetic::div_mod::lemma_fundamental_div_mod(now, 86_400_000);
        vstd::arithmetic::div_mod::lemma_mod_multiples_basic(now / 86_400_000, 86_400_000);
    }
}

fn day_start_exec(ms: i64) -> (r: i64)
    requires
        -TIME_BOUND_MS <= ms <= TIME_BOUND_MS,
    ensures
        r == day_start(ms as int),
{
    // shift by a whole number of days so the remainder is taken on a
    // non-negative value
    let shift: i64 = 100_000_000 * DAY_MS;
    let x = ms + shift;
    let rem = x % DAY_MS;
    proof {
        vstd::arithmetic::div_mod::lemma_mod_multiples_vanish(
            100_000_000,
            ms as int,
            DAY_MS as int,
        );
        assert(x as int == 100_000_000 * (DAY_MS as int) + ms as int);
        assert((x as int) % (DAY_MS as int) == (ms as int) % (DAY_MS as int));
    }
    ms - rem
}

/// `uploadDateFrom` for the panel's date preset at time `now_ms`.
pub fn upload_from_preset(preset: &str, now_ms: i64) -> (r: Option<String>)
    requires
        -TIME_BOUND_MS <= now_ms <= TIME_BOUND_MS,
    ensures
        opt_view(r) == upload_from(preset@, now_ms as int),
{
    if str_eq(preset, "today") {
        format_rfc3339_millis(day_start_exec(now_ms))
    } else if str_eq(preset, "7days") {
        format_rfc3339_millis(now_ms - 7 * DAY_MS)
    } else if str_eq(preset, "30days") {
        format_rfc3339_millis(now_ms - 30 * DAY_MS)
    } else if str_eq(preset, "365days") {
        format_rfc3339_millis(now_ms - 365 * DAY_MS)
    } else {
        None
    }
}

/* ------------------------------------ quality ------------------------------------ */

/// The height range a quality key selects: (lowest, highest), each open when
/// absent; unknown keys select nothing.
pub open spec fn quality_range(q: Seq<char>) -> Option<(Option<u32>, Option<u32>)> {
    if q == "4K"@ {
        Some((Some(2160u32), None))
    } else if q == "QHD"@ {
        Some((Some(1440u32), Some(2159u32)))
    } else if q == "FHD"@ {
        Some((Some(1080u32), Some(1439u32)))
    } else if q == "HD"@ {
        Some((Some(720u32), Some(1079u32)))
    } else if q == "SD"@ {
        Some((None, Some(719u32)))
    } else {
        None
    }
}

pub open spec fn lower_of(cur: Option<u32>, v: Option<u32>) -> Option<u32> {
    match v {
        Some(x) => match cur {
            Some(m) => Some(if m <= x { m } else { x }),
            None => Some(x),
        },
        None => cur,
    }
}

pub open spec fn higher_of(cur: Option<u32>, v: Option<u32>) -> Option<u32> {
    match v {
        Some(x) => match cur {
            Some(m) => Some(if m >= x { m } else { x }),
            None => Some(x),
        },
        None => cur,
    }
}

/// (min height, max height) covering every selected quality.
pub open spec fn quality_bounds(qs: Seq<Seq<char>>) -> (Option<u32>, Option<u32>)
    decreases qs.len(),
{
    if qs.len() == 0 {
        (None, None)
    } else {
        let b = quality_bounds(qs.drop_last());
        match quality_range(qs.last()) {
            Some((lo, hi)) => (lower_of(b.0, lo), higher_of(b.1, hi)),
            None => b,
        }
    }
}

/// Each quality key selects its own band of heights, and a panel with one key
/// selected asks for exactly that band: SD up to 719, HD 720 to 1079, FHD 1080
/// to 1439, QHD 1440 to 2159, 4K from 2160. The bands come one after another,
/// without gap or overlap.
pub proof fn lemma_quality_bands()
    ensures
        quality_bounds(seq!["SD"@]) == (None::<u32>, Some(719u32)),
        quality_bounds(seq!["HD"@]) == (Some(720u32), Some(1079u32)),
        quality_bounds(seq!["FHD"@]) == (Some(1080u32), Some(1439u32)),
        quality_bounds(seq!["QHD"@]) == (Some(1440u32), Some(2159u32)),
        quality_bounds(seq!["4K"@]) == (Some(2160u32), None::<u32>),
{
    reveal_strlit("4K");
    reveal_strlit("QHD");
    reveal_strlit("FHD");
    reveal_strlit("HD");
    reveal_strlit("SD");
    assert("4K"@.len() == 2);
    assert("QHD"@.len() == 3);
    assert("FHD"@.len() == 3);
    assert("HD"@.len() == 2);
    assert("SD"@.len() == 2);
    assert("4K"@[0] != "HD"@[0]);
    assert("4K"@[0] != "SD"@[0]);
    assert("QHD"@[0] != "FHD"@[0]);
    assert("HD"@[0] != "SD"@[0]);
    reveal_with_fuel(quality_bounds, 2);
}

/// A selection asks for heights covering every band it selects: the lowest
/// bound sent is at most each selected band's lowest height, the highest at
/// least each selected band's highest.
pub proof fn lemma_quality_bounds_cover(qs: Seq<Seq<char>>, i: int)
    requires
        0 <= i < qs.len(),
        quality_range(qs[i]) is Some,
    ensures
        ({
            let (lo, hi) = quality_range(qs[i])->0;
            let (m, mx) = quality_bounds(qs);
            &&& lo matches Some(x) ==> m matches Some(y) && y <= x
            &&& hi matches Some(x) ==> mx matches Some(y) && y >= x
        }),
    decreases qs.len(),
{
    if i < qs.len() - 1 {
        assert(qs.drop_last()[i] == qs[i]);
        lemma_quality_bounds_cover(qs.drop_last(), i);
    }
}

/// The lowest height of the band a key selects, if the band has one.
pub open spec fn band_low(q: Seq<char>) -> Option<u32> {
    match quality_range(q) {
        Some(b) => b.0,
        None => None,
    }
}

/// The highest height of the band a key selects, if the band has one.
pub open spec fn band_high(q: Seq<char>) -> Option<u32> {
    match quality_range(q) {
        Some(b) => b.1,
        None => None,
    }
}

/// The bounds sent are bounds of selected bands: the lowest is the lowest
/// height of some selected band, the highest the highest height of some
/// selected band; a selection of no known key sends no bound.
pub proof fn lemma_quality_bounds_attained(qs: Seq<Seq<char>>)
    ensures
        quality_bounds(qs).0 matches Some(y) ==> exists|i: int|
            0 <= i < qs.len() && #[trigger] band_low(qs[i]) == Some(y),
        quality_bounds(qs).1 matches Some(y) ==> exists|i: int|
            0 <= i < qs.len() && #[trigger] band_high(qs[i]) == Some(y),
        (forall|i: int| 0 <= i < qs.len() ==> quality_range(#[trigger] qs[i]) is None)
            ==> quality_bounds(qs) == (None::<u32>, None::<u32>),
    decreases qs.len(),
{
    if qs.len() > 0 {
        let init = qs.drop_last();
        lemma_quality_bounds_attained(init);
        let last = qs.len() - 1;
        if let Some(y) = quality_bounds(qs).0 {
            if quality_bounds(init).0 != Some(y) {
                assert(band_low(qs[last]) == Some(y));
            } else {
                let i = choose|i: int| 0 <= i < init.len() && #[trigger] band_low(init[i]) == Some(y);
                assert(qs[i] == init[i]);
            }
        }
        if let Some(y) = quality_bounds(qs).1 {
            if quality_bounds(init).1 != Some(y) {
                assert(band_high(qs[last]) == Some(y));
            } else {
                let i = choose|i: int| 0 <= i < init.len() && #[trigger] band_high(init[i]) == Some(y);
                assert(qs[i] == init[i]);
            }
        }
        if forall|i: int| 0 <= i < qs.len() ==> quality_range(#[trigger] qs[i]) is None {
            assert(quality_range(qs[last]) is None);
            assert forall|i: int| 0 <= i < init.len() implies quality_range(#[trigger] init[i]) is None by {
                assert(init[i] == qs[i]);
            }
        }
    }
}

fn quality_range_exec(q: &str) -> (r: Option<(Option<u32>, Option<u32>)>)
    ensures
        r == quality_range(q@),
{
    if str_eq(q, "4K") {
        Some((Some(2160), None))
    } else if str_eq(q, "QHD") {
        Some((Some(1440), Some(2159)))
    } else if str_eq(q, "FHD") {
        Some((Some(1080), Some(1439)))
    } else if str_eq(q, "HD") {
        Some((Some(720), Some(1079)))
    } else if str_eq(q, "SD") {
        Some((None, Some(719)))
    } else {
        None
    }
}

/// Sets the feed's height bounds from the selected qualities; with none
/// selected the feed is left as it is.
pub fn apply_quality(p: &mut FeedParams, qualities: &[&str])
    ensures
        qualities@.len() == 0 ==> *final(p) == *old(p),
        qualities@.len() > 0 ==> (final(p).min_height, final(p).max_height) == quality_bounds(
            str_views(qualities@),
        ),
        *final(p) == (FeedParams {
            min_height: final(p).min_height,
            max_height: final(p).max_height,
            ..*old(p)
        }),
{
    if qualities.len() == 0 {
        return;
    }
    let mut min_h: Option<u32> = None;
    let mut max_h: Option<u32> = None;
    let mut i: usize = 0;
    while i < qualities.len()
        invariant
            i <= qualities@.len(),
            (min_h, max_h) == quality_bounds(str_views(qualities@.take(i as int))),
        decreases qualities@.len() - i,
    {
        proof {
            let t = str_views(qualities@.take(i + 1));
            assert(t.drop_last() =~= str_views(qualities@.take(i as int)));
            assert(t.last() == qualities@[i as int]@);
        }
        match quality_range_exec(qualities[i]) {
            Some((lo, hi)) => {
                if let Some(lo) = lo {
                    min_h = Some(
                        match min_h {
                            Some(m) => if m <= lo {
                                m
                            } else {
                                lo
                            },
                            None => lo,
                        },
                    );
                }
                if let Some(hi) = hi {
                    max_h = Some(
                        match max_h {
                            Some(m) => if m >= hi {
                                m
                            } else {
                                hi
                            },
                            None => hi,
                        },
                    );
                }
            },
            None => {},
        }
        i += 1;
    }
    assert(qualities@.take(qualities@.len() as int) =~= qualities@);
    p.min_height = min_h;
    p.max_height = max_h;
}

/// Sets the include / exclude pair a chip controls.
pub fn apply_chip(on: &mut bool, off: &mut bool, chip: ContentChip)
    ensures
        *final(on) == (*old(on) || chip == ContentChip::Include),
        *final(off) == (*old(off) || chip == ContentChip::Exclude),
{
    match chip {
        ContentChip::Include => *on = true,
        ContentChip::Exclude => *off = true,
        ContentChip::Off => {},
    }
}

/// CSS class of a chip button.
pub fn chip_class(c: ContentChip) -> (r: &'static str)
    ensures
        r@ == match c {
            ContentChip::Off => "filter-chip"@,
            ContentChip::Include => "filter-chip on"@,
            ContentChip::Exclude => "filter-chip exclude"@,
        },
{
    match c {
        ContentChip::Off => "filter-chip",
        ContentChip::Include => "filter-chip on",
        ContentChip::Exclude => "filter-chip exclude",
    }
}

/* ------------------------------------ the feed ------------------------------------ */

/// A trimmed text filter, when anything is left of it.
pub open spec fn nonblank(s: Seq<char>) -> Option<Seq<char>> {
    if trim(s).len() > 0 {
        Some(trim(s))
    } else {
        None
    }
}

pub open spec fn minutes_to_seconds(m: Option<u32>) -> Option<u32> {
    match m {
        Some(x) => Some((x * 60) as u32),
        None => None,
    }
}

/// Minutes that fit in seconds without overflow.
pub open spec fn minutes_fit(m: Option<u32>) -> bool {
    match m {
        Some(x) => x * 60 <= u32::MAX,
        None => true,
    }
}

/// What `to_feed` builds from the panel for `page` at time `now_ms`.
pub open spec fn is_feed_of(s: BrowseFilterState, page: u32, now_ms: int, r: FeedParams) -> bool {
    let t = trim(s.tags@);
    let e = trim(s.exclude_tags@);
    &&& r.page == Some(page) && r.limit == Some(32u32) && r.sort == Some(s.sort)
    &&& opt_view(r.tag_mode) == Some(if s.tag_mode_and { "AND"@ } else { "OR"@ })
    &&& r.expand_tags == Some(s.expand_tags && !s.tag_mode_and)
    &&& opt_view(r.tags) == (if t.len() > 0 && !s.exclude_mode { Some(t) } else { None })
    &&& opt_view(r.exclude_tags) == (if e.len() > 0 {
        Some(e)
    } else if t.len() > 0 && s.exclude_mode {
        Some(t)
    } else {
        None
    })
    &&& opt_view(r.stars) == nonblank(s.stars@)
    &&& opt_view(r.music_artist) == nonblank(s.music@)
    &&& opt_view(r.music_tags) == nonblank(s.music@)
    &&& opt_view(r.creators) == nonblank(s.creator@)
    &&& opt_view(r.creator) == nonblank(s.creator@)
    &&& opt_view(r.upload_date_from) == upload_from(s.uploaded@, now_ms)
    &&& r.duration_min == minutes_to_seconds(s.duration_min_min)
    &&& r.duration_max == minutes_to_seconds(s.duration_max_min)
    &&& r.min_rating == s.rating_min && r.min_views == s.views_min && r.max_views == s.views_max
    &&& (r.min_height, r.max_height) == quality_bounds(str_views(s.qualities@))
    &&& opt_view(r.aspect) == (if s.aspects@.len() == 0 {
        None
    } else {
        Some(join(str_views(s.aspects@), ","@))
    })
    &&& r.include_gay == (s.gay == ContentChip::Include)
    &&& r.exclude_gay == (s.gay == ContentChip::Exclude)
    &&& r.include_trans == (s.trans == ContentChip::Include)
    &&& r.exclude_trans == (s.trans == ContentChip::Exclude)
    &&& r.include_voice_over == (s.voice == ContentChip::Include)
    &&& r.exclude_voice_over == (s.voice == ContentChip::Exclude)
    &&& r.include_remix == (s.remix == ContentChip::Include)
    &&& r.exclude_remix == (s.remix == ContentChip::Exclude)
    &&& r.include_extreme == (s.extreme == ContentChip::Include)
    &&& r.exclude_extreme == (s.extreme == ContentChip::Exclude)
    &&& r.include_promotional == (s.promo == ContentChip::Include)
    &&& r.exclude_promotional == (s.promo == ContentChip::Exclude)
    &&& r.non_nude_only == (s.sfw == ContentChip::Include)
    &&& r.include_explicit == (s.sfw == ContentChip::Exclude)
    &&& !r.exclude_explicit
    &&& r.watched_only == (s.watched == ContentChip::Include)
    &&& r.exclude_watched == (s.watched == ContentChip::Exclude)
    &&& r.funscript_only == (s.funscript == ContentChip::Include)
    &&& r.exclude_funscript == (s.funscript == ContentChip::Exclude)
    &&& r.subscribed_only == (s.subscriptions == ContentChip::Include)
    &&& r.favorites_only == (s.favorites == ContentChip::Include)
    &&& r.exclude_stars is None && r.music_song is None && r.exclude_creators is None
    &&& r.uploader is None && r.featured_model is None && r.upload_date_to is None
    &&& r.max_rating is None && !r.trending && !r.personalized_only
}

/// What a request built from the panel sends. Each content chip that
/// includes sends its include key as "true" and each that excludes its exclude
/// key, an unset chip neither: "includeGay" / "excludeGay", and likewise for
/// trans, voice-over, remix, extreme and promotional; the SFW chip sends
/// "nonNudeOnly" to include and "includeExplicit" to exclude ("excludeExplicit"
/// is never sent); watched sends "watchedOnly" / "excludeWatched", funscript
/// "funscriptOnly" / "excludeFunscript"; subscriptions and favorites only
/// include. The trimmed models text goes under "stars" (never under
/// "excludeStars"), the music text under "musicArtist" and "musicTags", the
/// creator under "creators" and "creator", the tags under "tags" unless they
/// are to be excluded; the sort order, the page and 32 results a page are
/// always sent.
pub proof fn lemma_panel_query(s: BrowseFilterState, page: u32, now_ms: int, r: FeedParams)
    requires
        is_feed_of(s, page, now_ms, r),
    ensures
        spec_to_query(r).contains(("includeGay"@, "true"@)) == (s.gay == ContentChip::Include),
        spec_to_query(r).contains(("excludeGay"@, "true"@)) == (s.gay == ContentChip::Exclude),
        spec_to_query(r).contains(("includeTrans"@, "true"@)) == (s.trans == ContentChip::Include),
        spec_to_query(r).contains(("excludeTrans"@, "true"@)) == (s.trans == ContentChip::Exclude),
        spec_to_query(r).contains(("includeVoiceOver"@, "true"@)) == (s.voice == ContentChip::Include),
        spec_to_query(r).contains(("excludeVoiceOver"@, "true"@)) == (s.voice == ContentChip::Exclude),
        spec_to_query(r).contains(("includeRemix"@, "true"@)) == (s.remix == ContentChip::Include),
        spec_to_query(r).contains(("excludeRemix"@, "true"@)) == (s.remix == ContentChip::Exclude),
        spec_to_query(r).contains(("includeExtreme"@, "true"@)) == (s.extreme == ContentChip::Include),
        spec_to_query(r).contains(("excludeExtreme"@, "true"@)) == (s.extreme == ContentChip::Exclude),
        spec_to_query(r).contains(("includePromotional"@, "true"@)) == (s.promo == ContentChip::Include),
        spec_to_query(r).contains(("excludePromotional"@, "true"@)) == (s.promo == ContentChip::Exclude),
        spec_to_query(r).contains(("nonNudeOnly"@, "true"@)) == (s.sfw == ContentChip::Include),
        spec_to_query(r).contains(("includeExplicit"@, "true"@)) == (s.sfw == ContentChip::Exclude),
        spec_to_query(r).contains(("watchedOnly"@, "true"@)) == (s.watched == ContentChip::Include),
        spec_to_query(r).contains(("excludeWatched"@, "true"@)) == (s.watched == ContentChip::Exclude),
        spec_to_query(r).contains(("funscriptOnly"@, "true"@)) == (s.funscript == ContentChip::Include),
        spec_to_query(r).contains(("excludeFunscript"@, "true"@)) == (s.funscript == ContentChip::Exclude),
        spec_to_query(r).contains(("subscribedOnly"@, "true"@)) == (s.subscriptions == ContentChip::Include),
        spec_to_query(r).contains(("favoritesOnly"@, "true"@)) == (s.favorites == ContentChip::Include),
        forall|v: Seq<char>| !spec_to_query(r).contains(("excludeExplicit"@, v)),
        forall|v: Seq<char>| #[trigger] spec_to_query(r).contains(("stars"@, v)) <==> (trim(s.stars@).len() > 0 && v == trim(s.stars@)),
        forall|v: Seq<char>| #[trigger] spec_to_query(r).contains(("musicArtist"@, v)) <==> (trim(s.music@).len() > 0 && v == trim(s.music@)),
        forall|v: Seq<char>| #[trigger] spec_to_query(r).contains(("musicTags"@, v)) <==> (trim(s.music@).len() > 0 && v == trim(s.music@)),
        forall|v: Seq<char>| #[trigger] spec_to_query(r).contains(("creators"@, v)) <==> (trim(s.creator@).len() > 0 && v == trim(s.creator@)),
        forall|v: Seq<char>| #[trigger] spec_to_query(r).contains(("creator"@, v)) <==> (trim(s.creator@).len() > 0 && v == trim(s.creator@)),
        forall|v: Seq<char>| #[trigger] spec_to_query(r).contains(("tags"@, v)) <==> (trim(s.tags@).len() > 0 && !s.exclude_mode && v == trim(s.tags@)),
        forall|v: Seq<char>| !spec_to_query(r).contains(("excludeStars"@, v)),
        forall|v: Seq<char>| #[trigger] spec_to_query(r).contains(("sort"@, v)) <==> v == s.sort.spec_as_api(),
        forall|v: Seq<char>| #[trigger] spec_to_query(r).contains(("page"@, v)) <==> v == decimal(page as nat),
        forall|v: Seq<char>| #[trigger] spec_to_query(r).contains(("limit"@, v)) <==> v == decimal(32),
{
    lemma_query_flags(r);
    lemma_query_texts(r);
    lemma_query_head(r);
}

/// Whether the panel can be turned into a feed: the duration bounds,
/// given in minutes, must fit in seconds.
pub open spec fn feedable(s: BrowseFilterState) -> bool {
    minutes_fit(s.duration_min_min) && minutes_fit(s.duration_max_min)
}

fn nonblank_exec(s: &String) -> (r: Option<String>)
    ensures
        opt_view(r) == nonblank(s@),
{
    let t = trimmed(s.as_str());
    if t.as_str().is_empty() {
        None
    } else {
        Some(t)
    }
}

fn minutes_exec(m: Option<u32>) -> (r: Option<u32>)
    requires
        minutes_fit(m),
    ensures
        r == minutes_to_seconds(m),
{
    match m {
        Some(x) => Some(x * 60),
        None => None,
    }
}

fn copy_opt(o: &Option<String>) -> (r: Option<String>)
    ensures
        r == *o,
{
    match o {
        Some(s) => Some(s.clone()),
        None => None,
    }
}

impl BrowseFilterState {
    /// The panel opened from a browse link: its sort, tags and creator set.
    pub fn from_route(sort: Option<&str>, tags: Option<&str>, creator: Option<&str>) -> (s:
        BrowseFilterState)
        ensures
            s.sort == (match sort {
                Some(v) => VideoSort::spec_from_api(v@),
                None => VideoSort::Newest,
            }),
            s.tags@ == (match tags {
                Some(v) => v@,
                None => Seq::<char>::empty(),
            }),
            s.creator@ == (match creator {
                Some(v) => v@,
                None => Seq::<char>::empty(),
            }),
            s.open && s.exclude_tags@.len() == 0 && !s.exclude_mode && s.stars@.len() == 0
                && s.music@.len() == 0 && !s.tag_mode_and && !s.expand_tags && s.uploaded@.len()
                == 0 && s.duration_min_min is None && s.duration_max_min is None
                && s.rating_min is None && s.views_min is None && s.views_max is None
                && s.qualities@.len() == 0 && s.aspects@.len() == 0 && s.gay == ContentChip::Off
                && s.trans == ContentChip::Off && s.voice == ContentChip::Off && s.remix
                == ContentChip::Off && s.extreme == ContentChip::Off && s.promo == ContentChip::Off
                && s.sfw == ContentChip::Off && s.watched == ContentChip::Off && s.funscript
                == ContentChip::Off && s.subscriptions == ContentChip::Off && s.favorites
                == ContentChip::Off,
    {
        let mut s = BrowseFilterState::default();
        if let Some(v) = sort {
            s.sort = VideoSort::from_api(v);
        }
        if let Some(t) = tags {
            s.tags = owned(t);
        }
        if let Some(c) = creator {
            s.creator = owned(c);
        }
        s
    }

    /// The feed request at time `now_ms` (used to resolve the date preset).
    #[verifier::rlimit(60)]
    pub fn to_feed_at(&self, page: u32, now_ms: i64) -> (r: FeedParams)
        requires
            feedable(*self),
            -TIME_BOUND_MS <= now_ms <= TIME_BOUND_MS,
        ensures
            is_feed_of(*self, page, now_ms as int, r),
    {
        let tags = nonblank_exec(&self.tags);
        let excl = nonblank_exec(&self.exclude_tags);
        let (tags, exclude_tags) = if excl.is_some() {
            (if self.exclude_mode { None } else { tags }, excl)
        } else if self.exclude_mode {
            (None, tags)
        } else {
            (tags, None)
        };
        let music = nonblank_exec(&self.music);
        let creator = nonblank_exec(&self.creator);
        let aspect = if self.aspects.len() > 0 {
            Some(join_strs(self.aspects.as_slice(), ","))
        } else {
            None
        };
        let mut gay = (false, false);
        apply_chip(&mut gay.0, &mut gay.1, self.gay);
        let mut trans = (false, false);
        apply_chip(&mut trans.0, &mut trans.1, self.trans);
        let mut voice = (false, false);
        apply_chip(&mut voice.0, &mut voice.1, self.voice);
        let mut remix = (false, false);
        apply_chip(&mut remix.0, &mut remix.1, self.remix);
        let mut extreme = (false, false);
        apply_chip(&mut extreme.0, &mut extreme.1, self.extreme);
        let mut promo = (false, false);
        apply_chip(&mut promo.0, &mut promo.1, self.promo);
        let mut p = FeedParams {
            page: Some(page),
            limit: Some(32),
            sort: Some(self.sort),
            tags,
            exclude_tags,
            stars: nonblank_exec(&self.stars),
            exclude_stars: None,
            music_tags: copy_opt(&music),
            music_artist: music,
            music_song: None,
            creators: copy_opt(&creator),
            exclude_creators: None,
            creator,
            uploader: None,
            featured_model: None,
            tag_mode: Some(owned(if self.tag_mode_and { "AND" } else { "OR" })),
            expand_tags: Some(self.expand_tags && !self.tag_mode_and),
            upload_date_from: upload_from_preset(self.uploaded.as_str(), now_ms),
            upload_date_to: None,
            duration_min: minutes_exec(self.duration_min_min),
            duration_max: minutes_exec(self.duration_max_min),
            min_rating: self.rating_min,
            max_rating: None,
            min_views: self.views_min,
            max_views: self.views_max,
            min_height: None,
            max_height: None,
            aspect,
            include_gay: gay.0,
            exclude_gay: gay.1,
            include_trans: trans.0,
            exclude_trans: trans.1,
            include_voice_over: voice.0,
            exclude_voice_over: voice.1,
            include_remix: remix.0,
            exclude_remix: remix.1,
            include_extreme: extreme.0,
            exclude_extreme: extreme.1,
            include_promotional: promo.0,
            exclude_promotional: promo.1,
            include_explicit: self.sfw == ContentChip::Exclude,
            exclude_explicit: false,
            non_nude_only: self.sfw == ContentChip::Include,
            watched_only: self.watched == ContentChip::Include,
            exclude_watched: self.watched == ContentChip::Exclude,
            funscript_only: self.funscript == ContentChip::Include,
            exclude_funscript: self.funscript == ContentChip::Exclude,
            subscribed_only: self.subscriptions == ContentChip::Include,
            favorites_only: self.favorites == ContentChip::Include,
            trending: false,
            personalized_only: false,
        };
        apply_quality(&mut p, self.qualities.as_slice());
        p
    }

    /// The feed request for `page`, with the date preset resolved against the
    /// clock.
    pub fn to_feed(&self, page: u32) -> (r: FeedParams)
        requires
            feedable(*self),
        ensures
            exists|now_ms: int|
                -TIME_BOUND_MS <= now_ms <= TIME_BOUND_MS && is_feed_of(*self, page, now_ms, r),
    {
        let now = utc_now_millis();
        self.to_feed_at(page, now)
    }

    /// Number of filters that are in effect (one per group).
    pub open spec fn spec_active_count(&self) -> nat {
        self.text_filters_on() + self.range_filters_on() + self.chips_set()
    }

    pub open spec fn text_filters_on(&self) -> nat {
        ind(trim(self.tags@).len() > 0) + ind(trim(self.exclude_tags@).len() > 0) + ind(
            trim(self.stars@).len() > 0,
        ) + ind(trim(self.music@).len() > 0) + ind(trim(self.creator@).len() > 0)
    }

    pub open spec fn range_filters_on(&self) -> nat {
        ind(self.uploaded@.len() > 0) + ind(
            self.duration_min_min is Some || self.duration_max_min is Some,
        ) + ind(self.rating_min is Some) + ind(self.views_min is Some || self.views_max is Some)
            + ind(self.qualities@.len() > 0) + ind(self.aspects@.len() > 0) + ind(
            self.tag_mode_and,
        ) + ind(self.expand_tags)
    }

    pub open spec fn chips_set(&self) -> nat {
        chip_ind(self.gay) + chip_ind(self.trans) + chip_ind(self.voice) + chip_ind(self.remix)
            + chip_ind(self.extreme) + chip_ind(self.promo) + chip_ind(self.sfw) + chip_ind(
            self.watched,
        ) + chip_ind(self.funscript) + chip_ind(self.subscriptions) + chip_ind(self.favorites)
    }

    fn text_filters_exec(&self) -> (n: u32)
        ensures
            n == self.text_filters_on(),
            n <= 5,
    {
        bit(!is_blank(self.tags.as_str())) + bit(!is_blank(self.exclude_tags.as_str())) + bit(
            !is_blank(self.stars.as_str()),
        ) + bit(!is_blank(self.music.as_str())) + bit(!is_blank(self.creator.as_str()))
    }

    fn range_filters_exec(&self) -> (n: u32)
        ensures
            n == self.range_filters_on(),
            n <= 8,
    {
        bit(!self.uploaded.as_str().is_empty()) + bit(
            self.duration_min_min.is_some() || self.duration_max_min.is_some(),
        ) + bit(self.rating_min.is_some()) + bit(self.views_min.is_some() || self.views_max.is_some())
            + bit(self.qualities.len() > 0) + bit(self.aspects.len() > 0) + bit(self.tag_mode_and)
            + bit(self.expand_tags)
    }

    fn chips_exec(&self) -> (n: u32)
        ensures
            n == self.chips_set(),
            n <= 11,
    {
        let a = chip_bit(self.gay);
        let b = chip_bit(self.trans);
        let c = chip_bit(self.voice);
        let d = chip_bit(self.remix);
        let e = chip_bit(self.extreme);
        let f = chip_bit(self.promo);
        let g = chip_bit(self.sfw);
        let h = chip_bit(self.watched);
        let i = chip_bit(self.funscript);
        let j = chip_bit(self.subscriptions);
        let k = chip_bit(self.favorites);
        a + b + c + d + e + f + g + h + i + j + k
    }

    /// Number of filters in effect, shown on the panel's badge.
    pub fn active_count(&self) -> (n: u32)
        ensures
            n == self.spec_active_count(),
    {
        self.text_filters_exec() + self.range_filters_exec() + self.chips_exec()
    }
}

/* ------------------------------ editing the panel ------------------------------ */

/// `i` is the first position of a choice equal to `x`.
pub open spec fn first_choice(s: Seq<&str>, x: Seq<char>, i: int) -> bool {
    0 <= i < s.len() && s[i]@ == x && forall|j: int| 0 <= j < i ==> s[j]@ != x
}

/// A choice list after a click on `item`: its first occurrence removed, or
/// `item` added at the end when it is not chosen.
pub open spec fn toggled(s: Seq<&'static str>, item: &'static str) -> Seq<&'static str> {
    if exists|i: int| first_choice(s, item@, i) {
        s.remove(choose|i: int| first_choice(s, item@, i))
    } else {
        s.push(item)
    }
}

/// A click on a quality or aspect chip.
pub fn toggle_choice(list: &mut Vec<&'static str>, item: &'static str)
    ensures
        final(list)@ == toggled(old(list)@, item),
{
    let mut i: usize = 0;
    while i < list.len()
        invariant
            i <= list@.len(),
            list@ == old(list)@,
            forall|j: int| 0 <= j < i ==> list@[j]@ != item@,
        decreases list@.len() - i,
    {
        if str_eq(list[i], item) {
            proof {
                assert(first_choice(old(list)@, item@, i as int));
                assert forall|k: int| first_choice(old(list)@, item@, k) implies k == i by {
                    if k < i {
                    } else if k > i {
                        assert(old(list)@[i as int]@ == item@);
                    }
                }
            }
            list.remove(i);
            return;
        }
        i += 1;
    }
    proof {
        assert forall|k: int| !first_choice(old(list)@, item@, k) by {
            if 0 <= k < old(list)@.len() {
                assert(list@[k]@ != item@);
            }
        }
    }
    list.push(item);
}

/// The position of the content chip labelled `name` in the panel's row, if
/// there is one.
pub open spec fn chip_slot(name: Seq<char>) -> Option<int> {
    if name == "Gay"@ {
        Some(0)
    } else if name == "Trans"@ {
        Some(1)
    } else if name == "Voice"@ {
        Some(2)
    } else if name == "Remix"@ {
        Some(3)
    } else if name == "Extreme"@ {
        Some(4)
    } else if name == "Promo"@ {
        Some(5)
    } else if name == "SFW"@ {
        Some(6)
    } else if name == "Watched"@ {
        Some(7)
    } else if name == "Funscript"@ {
        Some(8)
    } else if name == "Subscriptions"@ {
        Some(9)
    } else if name == "Favorites"@ {
        Some(10)
    } else {
        None
    }
}

/// The panel with the chip at position `k` of the row moved on by one state.
pub open spec fn with_slot_cycled(s: BrowseFilterState, k: int) -> BrowseFilterState {
    if k == 0 {
        BrowseFilterState { gay: s.gay.spec_cycle(), ..s }
    } else if k == 1 {
        BrowseFilterState { trans: s.trans.spec_cycle(), ..s }
    } else if k == 2 {
        BrowseFilterState { voice: s.voice.spec_cycle(), ..s }
    } else if k == 3 {
        BrowseFilterState { remix: s.remix.spec_cycle(), ..s }
    } else if k == 4 {
        BrowseFilterState { extreme: s.extreme.spec_cycle(), ..s }
    } else if k == 5 {
        BrowseFilterState { promo: s.promo.spec_cycle(), ..s }
    } else if k == 6 {
        BrowseFilterState { sfw: s.sfw.spec_cycle(), ..s }
    } else if k == 7 {
        BrowseFilterState { watched: s.watched.spec_cycle(), ..s }
    } else if k == 8 {
        BrowseFilterState { funscript: s.funscript.spec_cycle(), ..s }
    } else if k == 9 {
        BrowseFilterState { subscriptions: s.subscriptions.spec_cycle(), ..s }
    } else if k == 10 {
        BrowseFilterState { favorites: s.favorites.spec_cycle(), ..s }
    } else {
        s
    }
}

/// The panel after a click on the content chip labelled `name`: that chip
/// moves on by one state; a name that is no chip changes nothing.
pub open spec fn with_chip_cycled(s: BrowseFilterState, name: Seq<char>) -> BrowseFilterState {
    match chip_slot(name) {
        Some(k) => with_slot_cycled(s, k),
        None => s,
    }
}

impl BrowseFilterState {
    /// A click on a quality chip ("SD", "HD", "FHD", "QHD", "4K").
    pub fn toggle_quality(&mut self, q: &'static str)
        ensures
            final(self).qualities@ == toggled(old(self).qualities@, q),
            *final(self) == (BrowseFilterState { qualities: final(self).qualities, ..*old(self) }),
    {
        toggle_choice(&mut self.qualities, q);
    }

    /// A click on an aspect chip ("16:9", "9:16", "4:3", "1:1").
    pub fn toggle_aspect(&mut self, a: &'static str)
        ensures
            final(self).aspects@ == toggled(old(self).aspects@, a),
            *final(self) == (BrowseFilterState { aspects: final(self).aspects, ..*old(self) }),
    {
        toggle_choice(&mut self.aspects, a);
    }

    /// A click on the content chip labelled `name`.
    pub fn cycle_chip(&mut self, name: &str)
        ensures
            *final(self) == with_chip_cycled(*old(self), name@),
    {
        if str_eq(name, "Gay") {
            self.gay = self.gay.cycle();
        } else if str_eq(name, "Trans") {
            self.trans = self.trans.cycle();
        } else if str_eq(name, "Voice") {
            self.voice = self.voice.cycle();
        } else if str_eq(name, "Remix") {
            self.remix = self.remix.cycle();
        } else if str_eq(name, "Extreme") {
            self.extreme = self.extreme.cycle();
        } else if str_eq(name, "Promo") {
            self.promo = self.promo.cycle();
        } else if str_eq(name, "SFW") {
            self.sfw = self.sfw.cycle();
        } else if str_eq(name, "Watched") {
            self.watched = self.watched.cycle();
        } else if str_eq(name, "Funscript") {
            self.funscript = self.funscript.cycle();
        } else if str_eq(name, "Subscriptions") {
            self.subscriptions = self.subscriptions.cycle();
        } else if str_eq(name, "Favorites") {
            self.favorites = self.favorites.cycle();
        }
    }

    /// The panel after "Clear": everything back to the default but the sort
    /// order and whether the panel is open.
    pub fn cleared(&self) -> (r: BrowseFilterState)
        ensures
            r.sort == self.sort,
            r.open == self.open,
            is_default_filters((BrowseFilterState { sort: VideoSort::Newest, open: true, ..r })),
            r.spec_active_count() == 0,
    {
        let mut d = BrowseFilterState::default();
        proof {
            lemma_default_counts_nothing(d);
        }
        d.sort = self.sort;
        d.open = self.open;
        d
    }
}

/// A choice that is not chosen, clicked twice, leaves the list as it was.
pub proof fn lemma_toggle_twice_unchosen(s: Seq<&'static str>, item: &'static str)
    requires
        forall|j: int| 0 <= j < s.len() ==> s[j]@ != item@,
    ensures
        toggled(s, item) == s.push(item),
        toggled(toggled(s, item), item) == s,
{
    assert forall|k: int| !first_choice(s, item@, k) by {
        if 0 <= k < s.len() {
            assert(s[k]@ != item@);
        }
    }
    let t = s.push(item);
    assert(first_choice(t, item@, s.len() as int)) by {
        assert forall|j: int| 0 <= j < s.len() implies t[j]@ != item@ by {
            assert(t[j] == s[j]);
        }
    }
    let c = choose|i: int| first_choice(t, item@, i);
    assert(c == s.len()) by {
        if c < s.len() {
            assert(t[c] == s[c]);
        }
    }
    assert(t.remove(s.len() as int) =~= s);
}

/// A click on a content chip moves the chip of that label, and only it, one
/// state on: "Gay" the gay chip, "Trans" the trans chip, "Voice" voice-over,
/// "Remix", "Extreme", "Promo" (promotional), "SFW", "Watched", "Funscript",
/// "Subscriptions" and "Favorites" theirs; any other label changes nothing.
#[verifier::rlimit(40)]
pub proof fn lemma_chip_labels(s: BrowseFilterState, name: Seq<char>)
    ensures
        with_chip_cycled(s, "Gay"@) == (BrowseFilterState { gay: s.gay.spec_cycle(), ..s }),
        with_chip_cycled(s, "Trans"@) == (BrowseFilterState { trans: s.trans.spec_cycle(), ..s }),
        with_chip_cycled(s, "Voice"@) == (BrowseFilterState { voice: s.voice.spec_cycle(), ..s }),
        with_chip_cycled(s, "Remix"@) == (BrowseFilterState { remix: s.remix.spec_cycle(), ..s }),
        with_chip_cycled(s, "Extreme"@) == (BrowseFilterState { extreme: s.extreme.spec_cycle(), ..s }),
        with_chip_cycled(s, "Promo"@) == (BrowseFilterState { promo: s.promo.spec_cycle(), ..s }),
        with_chip_cycled(s, "SFW"@) == (BrowseFilterState { sfw: s.sfw.spec_cycle(), ..s }),
        with_chip_cycled(s, "Watched"@) == (BrowseFilterState { watched: s.watched.spec_cycle(), ..s }),
        with_chip_cycled(s, "Funscript"@) == (BrowseFilterState { funscript: s.funscript.spec_cycle(), ..s }),
        with_chip_cycled(s, "Subscriptions"@) == (BrowseFilterState { subscriptions: s.subscriptions.spec_cycle(), ..s }),
        with_chip_cycled(s, "Favorites"@) == (BrowseFilterState { favorites: s.favorites.spec_cycle(), ..s }),
        name != "Gay"@ && name != "Trans"@ && name != "Voice"@ && name != "Remix"@ && name != "Extreme"@ && name != "Promo"@ && name != "SFW"@ && name != "Watched"@ && name != "Funscript"@ && name != "Subscriptions"@ && name != "Favorites"@ ==> with_chip_cycled(s, name) == s,
{
    reveal_strlit("Gay");
    reveal_strlit("Trans");
    reveal_strlit("Voice");
    reveal_strlit("Remix");
    reveal_strlit("Extreme");
    reveal_strlit("Promo");
    reveal_strlit("SFW");
    reveal_strlit("Watched");
    reveal_strlit("Funscript");
    reveal_strlit("Subscriptions");
    reveal_strlit("Favorites");
    assert("Gay"@.len() == 3);
    assert("Trans"@.len() == 5);
    assert("Voice"@.len() == 5);
    assert("Remix"@.len() == 5);
    assert("Extreme"@.len() == 7);
    assert("Promo"@.len() == 5);
    assert("SFW"@.len() == 3);
    assert("Watched"@.len() == 7);
    assert("Funscript"@.len() == 9);
    assert("Subscriptions"@.len() == 13);
    assert("Favorites"@.len() == 9);
    assert("Gay"@[0] != "SFW"@[0]);
    assert("Trans"@[0] != "Voice"@[0]);
    assert("Trans"@[0] != "Remix"@[0]);
    assert("Trans"@[0] != "Promo"@[0]);
    assert("Voice"@[0] != "Remix"@[0]);
    assert("Voice"@[0] != "Promo"@[0]);
    assert("Remix"@[0] != "Promo"@[0]);
    assert("Extreme"@[0] != "Watched"@[0]);
    assert("Funscript"@[1] != "Favorites"@[1]);
}

/// Three clicks on the same content chip leave the panel as it was.
pub proof fn lemma_chip_three_clicks(s: BrowseFilterState, name: Seq<char>)
    ensures
        with_chip_cycled(with_chip_cycled(with_chip_cycled(s, name), name), name) == s,
{
    if let Some(k) = chip_slot(name) {
        lemma_slot_three_clicks(s, k);
    }
}

#[verifier::spinoff_prover]
#[verifier::rlimit(50)]
proof fn lemma_slot_three_clicks(s: BrowseFilterState, k: int)
    ensures
        with_slot_cycled(with_slot_cycled(with_slot_cycled(s, k), k), k) == s,
{
    if k == 0 {
        crate::models::lemma_chip_cycle_period(s.gay);
        let a = BrowseFilterState { gay: s.gay.spec_cycle(), ..s };
        let b = BrowseFilterState { gay: a.gay.spec_cycle(), ..a };
        assert(with_slot_cycled(s, k) == a);
        assert(with_slot_cycled(a, k) == b);
        assert(with_slot_cycled(b, k) == s);
    } else if k == 1 {
        crate::models::lemma_chip_cycle_period(s.trans);
        let a = BrowseFilterState { trans: s.trans.spec_cycle(), ..s };
        let b = BrowseFilterState { trans: a.trans.spec_cycle(), ..a };
        assert(with_slot_cycled(s, k) == a);
        assert(with_slot_cycled(a, k) == b);
        assert(with_slot_cycled(b, k) == s);
    } else if k == 2 {
        crate::models::lemma_chip_cycle_period(s.voice);
        let a = BrowseFilterState { voice: s.voice.spec_cycle(), ..s };
        let b = BrowseFilterState { voice: a.voice.spec_cycle(), ..a };
        assert(with_slot_cycled(s, k) == a);
        assert(with_slot_cycled(a, k) == b);
        assert(with_slot_cycled(b, k) == s);
    } else if k == 3 {
        crate::models::lemma_chip_cycle_period(s.remix);
        let a = BrowseFilterState { remix: s.remix.spec_cycle(), ..s };
        let b = BrowseFilterState { remix: a.remix.spec_cycle(), ..a };
        assert(with_slot_cycled(s, k) == a);
        assert(with_slot_cycled(a, k) == b);
        assert(with_slot_cycled(b, k) == s);
    } else if k == 4 {
        crate::models::lemma_chip_cycle_period(s.extreme);
        let a = BrowseFilterState { extreme: s.extreme.spec_cycle(), ..s };
        let b = BrowseFilterState { extreme: a.extreme.spec_cycle(), ..a };
        assert(with_slot_cycled(s, k) == a);
        assert(with_slot_cycled(a, k) == b);
        assert(with_slot_cycled(b, k) == s);
    } else if k == 5 {
        crate::models::lemma_chip_cycle_period(s.promo);
        let a = BrowseFilterState { promo: s.promo.spec_cycle(), ..s };
        let b = BrowseFilterState { promo: a.promo.spec_cycle(), ..a };
        assert(with_slot_cycled(s, k) == a);
        assert(with_slot_cycled(a, k) == b);
        assert(with_slot_cycled(b, k) == s);
    } else if k == 6 {
        crate::models::lemma_chip_cycle_period(s.sfw);
        let a = BrowseFilterState { sfw: s.sfw.spec_cycle(), ..s };
        let b = BrowseFilterState { sfw: a.sfw.spec_cycle(), ..a };
        assert(with_slot_cycled(s, k) == a);
        assert(with_slot_cycled(a, k) == b);
        assert(with_slot_cycled(b, k) == s);
    } else if k == 7 {
        crate::models::lemma_chip_cycle_period(s.watched);
        let a = BrowseFilterState { watched: s.watched.spec_cycle(), ..s };
        let b = BrowseFilterState { watched: a.watched.spec_cycle(), ..a };
        assert(with_slot_cycled(s, k) == a);
        assert(with_slot_cycled(a, k) == b);
        assert(with_slot_cycled(b, k) == s);
    } else if k == 8 {
        crate::models::lemma_chip_cycle_period(s.funscript);
        let a = BrowseFilterState { funscript: s.funscript.spec_cycle(), ..s };
        let b = BrowseFilterState { funscript: a.funscript.spec_cycle(), ..a };
        assert(with_slot_cycled(s, k) == a);
        assert(with_slot_cycled(a, k) == b);
        assert(with_slot_cycled(b, k) == s);
    } else if k == 9 {
        crate::models::lemma_chip_cycle_period(s.subscriptions);
        let a = BrowseFilterState { subscriptions: s.subscriptions.spec_cycle(), ..s };
        let b = BrowseFilterState { subscriptions: a.subscriptions.spec_cycle(), ..a };
        assert(with_slot_cycled(s, k) == a);
        assert(with_slot_cycled(a, k) == b);
        assert(with_slot_cycled(b, k) == s);
    } else if k == 10 {
        crate::models::lemma_chip_cycle_period(s.favorites);
        let a = BrowseFilterState { favorites: s.favorites.spec_cycle(), ..s };
        let b = BrowseFilterState { favorites: a.favorites.spec_cycle(), ..a };
        assert(with_slot_cycled(s, k) == a);
        assert(with_slot_cycled(a, k) == b);
        assert(with_slot_cycled(b, k) == s);
    }
}

pub open spec fn ind(b: bool) -> nat {
    if b {
        1
    } else {
        0
    }
}

pub open spec fn chip_ind(c: ContentChip) -> nat {
    ind(c != ContentChip::Off)
}

fn bit(b: bool) -> (r: u32)
    ensures
        r == ind(b),
        r <= 1,
{
    if b {
        1
    } else {
        0
    }
}

fn chip_bit(c: ContentChip) -> (r: u32)
    ensures
        r == chip_ind(c),
        r <= 1,
{
    bit(c != ContentChip::Off)
}

/// The default panel filters nothing and turns into the plain newest-first
/// feed.
pub proof fn lemma_default_counts_nothing(s: BrowseFilterState)
    requires
        is_default_filters(s),
    ensures
        s.spec_active_count() == 0,
{
    assert(trim(Seq::<char>::empty()) == Seq::<char>::empty()) by {
        reveal_with_fuel(crate::text::trim_start, 1);
        reveal_with_fuel(crate::text::trim_end, 1);
    }
    assert(s.tags@ =~= Seq::<char>::empty());
    assert(s.exclude_tags@ =~= Seq::<char>::empty());
    assert(s.stars@ =~= Seq::<char>::empty());
    assert(s.music@ =~= Seq::<char>::empty());
    assert(s.creator@ =~= Seq::<char>::empty());
}

} // verus!
