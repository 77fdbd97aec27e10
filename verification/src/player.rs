//! Player rail decisions: what a click on a video does, which stored session
//! can be restored, the layout settings, and the messages the player page
//! sends back.
use vstd::prelude::*;

use crate::models::HlsVariant;
use crate::proxy::{proxied, proxied_url};
use crate::text::{
    contains, contains_exec, decimal, decimal_string, find_exec, find_from, from_chars_range,
    lemma_decimal_digits, lemma_find_from_facts, lemma_parse_decimal, opt_str_view, parse_unsigned,
    parse_unsigned_exec, push_str, starts_with, str_eq, to_chars,
};

verus! {

/* --------------------------------- opening videos -------------------------------- */

/// What opening a video from a card does.
pub enum OpenIntent<T> {
    /// Nothing plays: play it.
    Play,
    /// It is the video playing: nothing to do.
    AlreadyPlaying,
    /// Another video plays: ask what to do with this one.
    Choice(T),
}

pub fn open_intent<T>(video_id: &str, video: T, playing_id: Option<&str>) -> (r: OpenIntent<T>)
    ensures
        match playing_id {
            None => r is Play,
            Some(p) => if p@ == video_id@ {
                r is AlreadyPlaying
            } else {
                r == OpenIntent::Choice(video)
            },
        },
{
    match playing_id {
        None => OpenIntent::Play,
        Some(p) => {
            if str_eq(p, video_id) {
                OpenIntent::AlreadyPlaying
            } else {
                OpenIntent::Choice(video)
            }
        },
    }
}

/// A saved session can be restored when it names a video and a stream.
pub fn session_restorable(video_id: &str, video_url: &str) -> (r: bool)
    ensures
        r == (video_id@.len() > 0 && video_url@.len() > 0),
{
    !video_id.is_empty() && !video_url.is_empty()
}

/// Keeps only the newest `max` items (the last ones).
pub fn trim_front<T>(items: &mut Vec<T>, max: usize)
    ensures
        old(items)@.len() > max ==> final(items)@ == old(items)@.skip(old(items)@.len() - max),
        old(items)@.len() <= max ==> final(items)@ == old(items)@,
{
    if items.len() <= max {
        return;
    }
    let excess = items.len() - max;
    let mut all: Vec<T> = Vec::new();
    std::mem::swap(&mut all, items);
    let ghost full = all@;
    let n = all.len();
    let mut i: usize = 0;

    for x in it: all
        invariant
            it.seq() == full,
            excess == full.len() - max,
            excess > 0,
            it.index() < excess ==> items@.len() == 0,
            it.index() >= excess ==> items@ == full.subrange(excess as int, it.index() as int),
            i == it.index(),
            n == full.len(),
    {
        let ghost k = it.index();
        if i >= excess {
            items.push(x);
            proof {
                assert(items@ =~= full.subrange(excess as int, k + 1));
            }
        } else {
            proof {
                if k + 1 == excess {
                    assert(full.subrange(excess as int, excess as int) =~= Seq::<T>::empty());
                }
            }
        }
        i += 1;
    }
    assert(full.skip(excess as int) =~= full.subrange(excess as int, full.len() as int));
}

/* -------------------------------- layout settings -------------------------------- */

/// Player rail widths the layout accepts, in pixels.
pub open spec fn rail_width_ok(w: nat) -> bool {
    280 <= w <= 1400
}

/// Queue panel heights the layout accepts, in pixels.
pub open spec fn queue_height_ok(h: nat) -> bool {
    88 <= h <= 1200
}

pub open spec fn setting_number(s: Option<Seq<char>>) -> Option<nat> {
    match s {
        Some(t) => parse_unsigned(t, u32::MAX as nat),
        None => None,
    }
}

/// The stored rail width, when it is a number in range.
pub fn rail_width_setting(stored: Option<&str>) -> (r: Option<u32>)
    ensures
        match setting_number(match stored {
            Some(s) => Some(s@),
            None => None,
        }) {
            Some(w) if rail_width_ok(w) => r == Some(w as u32),
            _ => r is None,
        },
{
    match stored {
        Some(s) => match parse_unsigned_exec(s, u32::MAX as u64) {
            Some(w) => if 280 <= w && w <= 1400 {
                Some(w as u32)
            } else {
                None
            },
            None => None,
        },
        None => None,
    }
}

/// The stored queue height, when it is a number in range.
pub fn queue_height_setting(stored: Option<&str>) -> (r: Option<u32>)
    ensures
        match setting_number(match stored {
            Some(s) => Some(s@),
            None => None,
        }) {
            Some(h) if queue_height_ok(h) => r == Some(h as u32),
            _ => r is None,
        },
{
    match stored {
        Some(s) => match parse_unsigned_exec(s, u32::MAX as u64) {
            Some(h) => if 88 <= h && h <= 1200 {
                Some(h as u32)
            } else {
                None
            },
            None => None,
        },
        None => None,
    }
}

/// The text to store for a rail width; none (nothing stored) when out of range.
pub fn rail_width_to_store(w: u32) -> (r: Option<String>)
    ensures
        rail_width_ok(w as nat) ==> (r matches Some(s) && s@ == decimal(w as nat)),
        !rail_width_ok(w as nat) ==> r is None,
{
    if 280 <= w && w <= 1400 {
        Some(decimal_string(w as u64))
    } else {
        None
    }
}

/// The text to store for a queue height; none when out of range.
pub fn queue_height_to_store(h: u32) -> (r: Option<String>)
    ensures
        queue_height_ok(h as nat) ==> (r matches Some(s) && s@ == decimal(h as nat)),
        !queue_height_ok(h as nat) ==> r is None,
{
    if 88 <= h && h <= 1200 {
        Some(decimal_string(h as u64))
    } else {
        None
    }
}

/// Hover previews are on only when stored as "1" or "true".
pub fn hover_previews_setting(stored: Option<&str>) -> (r: bool)
    ensures
        r == (stored matches Some(s) && (s@ == "1"@ || s@ == "true"@)),
{
    match stored {
        Some(s) => str_eq(s, "1") || str_eq(s, "true"),
        None => false,
    }
}

/// Pausing previews while playing is on unless stored as "0" or "false".
pub fn pause_previews_setting(stored: Option<&str>) -> (r: bool)
    ensures
        r == !(stored matches Some(s) && (s@ == "0"@ || s@ == "false"@)),
{
    match stored {
        Some(s) => !(str_eq(s, "0") || str_eq(s, "false")),
        None => true,
    }
}

/// How an on/off setting is stored.
pub fn flag_text(on: bool) -> (r: &'static str)
    ensures
        r@ == if on {
            "1"@
        } else {
            "0"@
        },
{
    if on {
        "1"
    } else {
        "0"
    }
}

/* --------------------------------- player messages -------------------------------- */

/// A message from the player page, decoded.
pub enum PlayerMsg {
    /// The video ended: advance the queue.
    Ended,
    /// Toggle full-screen mode.
    ToggleFullscreen,
    /// The rail was resized to this width.
    RailWidth(u32),
    /// The queue panel was resized to this height.
    QueueHeight(u32),
    /// Move the queue entry at `from` to `to`.
    Reorder { from: usize, to: usize },
    /// A playback progress report, its fields still to be read.
    Progress(String),
    /// Anything else, or a message whose values are out of range.
    Ignored,
}

/// The text after a prefix.
pub open spec fn after_prefix(s: Seq<char>, p: Seq<char>) -> Option<Seq<char>> {
    if starts_with(s, p) {
        Some(s.skip(p.len() as int))
    } else {
        None
    }
}

/// The first two `,`-separated fields, when there are two.
pub open spec fn two_fields(s: Seq<char>) -> Option<(Seq<char>, Seq<char>)> {
    match find_from(s, seq![','], 0) {
        Some(i) => {
            let rest = s.subrange(i + 1, s.len() as int);
            let b = match find_from(rest, seq![','], 0) {
                Some(j) => rest.subrange(0, j),
                None => rest,
            };
            Some((s.subrange(0, i), b))
        },
        None => None,
    }
}

pub open spec fn spec_player_msg(raw: Seq<char>) -> PlayerMsgView {
    if raw == "ended"@ {
        PlayerMsgView::Ended
    } else if raw == "toggle-fs"@ {
        PlayerMsgView::ToggleFullscreen
    } else if after_prefix(raw, "rail|"@) is Some {
        match parse_unsigned(after_prefix(raw, "rail|"@)->0, u32::MAX as nat) {
            Some(w) if rail_width_ok(w) => PlayerMsgView::RailWidth(w),
            _ => PlayerMsgView::Ignored,
        }
    } else if after_prefix(raw, "queueh|"@) is Some {
        match parse_unsigned(after_prefix(raw, "queueh|"@)->0, u32::MAX as nat) {
            Some(h) if queue_height_ok(h) => PlayerMsgView::QueueHeight(h),
            _ => PlayerMsgView::Ignored,
        }
    } else if after_prefix(raw, "reorder|"@) is Some {
        match two_fields(after_prefix(raw, "reorder|"@)->0) {
            Some((a, b)) => match (
                parse_unsigned(a, usize::MAX as nat),
                parse_unsigned(b, usize::MAX as nat),
            ) {
                (Some(f), Some(t)) if f != t => PlayerMsgView::Reorder(f, t),
                _ => PlayerMsgView::Ignored,
            },
            None => PlayerMsgView::Ignored,
        }
    } else if after_prefix(raw, "prog|"@) is Some {
        PlayerMsgView::Progress(after_prefix(raw, "prog|"@)->0)
    } else {
        PlayerMsgView::Ignored
    }
}

/// A decoded message, with texts as character sequences.
pub enum PlayerMsgView {
    Ended,
    ToggleFullscreen,
    RailWidth(nat),
    QueueHeight(nat),
    Reorder(nat, nat),
    Progress(Seq<char>),
    Ignored,
}

pub open spec fn msg_view(m: PlayerMsg) -> PlayerMsgView {
    match m {
        PlayerMsg::Ended => PlayerMsgView::Ended,
        PlayerMsg::ToggleFullscreen => PlayerMsgView::ToggleFullscreen,
        PlayerMsg::RailWidth(w) => PlayerMsgView::RailWidth(w as nat),
        PlayerMsg::QueueHeight(h) => PlayerMsgView::QueueHeight(h as nat),
        PlayerMsg::Reorder { from, to } => PlayerMsgView::Reorder(from as nat, to as nat),
        PlayerMsg::Progress(s) => PlayerMsgView::Progress(s@),
        PlayerMsg::Ignored => PlayerMsgView::Ignored,
    }
}

fn strip_prefix_exec(s: &Vec<char>, p: &str) -> (r: Option<String>)
    ensures
        match r {
            Some(t) => after_prefix(s@, p@) == Some(t@),
            None => after_prefix(s@, p@) is None,
        },
{
    let w = to_chars(p);
    let hit = crate::text::matches_at(s.as_slice(), 0, w.as_slice());
    if hit {
        assert(s@.subrange(0, w@.len() as int) =~= s@.take(w@.len() as int));
        let t = from_chars_range(s.as_slice(), w.len(), s.len());
        assert(t@ =~= s@.skip(w@.len() as int));
        Some(t)
    } else {
        proof {
            if w@.len() <= s@.len() {
                assert(s@.subrange(0, w@.len() as int) =~= s@.take(w@.len() as int));
            }
        }
        None
    }
}

fn two_fields_exec(s: &str) -> (r: Option<(String, String)>)
    ensures
        match r {
            Some((a, b)) => two_fields(s@) == Some((a@, b@)),
            None => two_fields(s@) is None,
        },
{
    let v = to_chars(s);
    let n = v.len();
    let comma: [char; 1] = [','];
    assert(comma@ =~= seq![',']);
    proof {
        lemma_find_from_facts(v@, seq![','], 0);
    }
    match find_exec(v.as_slice(), &comma, 0) {
        Some(i) => {
            let a = from_chars_range(v.as_slice(), 0, i);
            let ghost rest = v@.subrange(i + 1, n as int);
            proof {
                crate::text::lemma_find_shift(v@, seq![','], i + 1, 0);
                lemma_find_from_facts(rest, seq![','], 0);
            }
            let end = match find_exec(v.as_slice(), &comma, i + 1) {
                Some(j) => j,
                None => n,
            };
            let b = from_chars_range(v.as_slice(), i + 1, end);
            proof {
                if end < n {
                    assert(rest.subrange(0, end - (i + 1)) =~= b@);
                } else {
                    assert(rest =~= b@);
                }
            }
            Some((a, b))
        },
        None => None,
    }
}

/// Decodes a message the player page posts back.
pub fn parse_player_msg(raw: &str) -> (r: PlayerMsg)
    ensures
        msg_view(r) == spec_player_msg(raw@),
{
    if str_eq(raw, "ended") {
        return PlayerMsg::Ended;
    }
    if str_eq(raw, "toggle-fs") {
        return PlayerMsg::ToggleFullscreen;
    }
    let v = to_chars(raw);
    if let Some(rest) = strip_prefix_exec(&v, "rail|") {
        return match parse_unsigned_exec(rest.as_str(), u32::MAX as u64) {
            Some(w) => if 280 <= w && w <= 1400 {
                PlayerMsg::RailWidth(w as u32)
            } else {
                PlayerMsg::Ignored
            },
            None => PlayerMsg::Ignored,
        };
    }
    if let Some(rest) = strip_prefix_exec(&v, "queueh|") {
        return match parse_unsigned_exec(rest.as_str(), u32::MAX as u64) {
            Some(h) => if 88 <= h && h <= 1200 {
                PlayerMsg::QueueHeight(h as u32)
            } else {
                PlayerMsg::Ignored
            },
            None => PlayerMsg::Ignored,
        };
    }
    if let Some(rest) = strip_prefix_exec(&v, "reorder|") {
        return match two_fields_exec(rest.as_str()) {
            Some((a, b)) => match (
                parse_unsigned_exec(a.as_str(), usize::MAX as u64),
                parse_unsigned_exec(b.as_str(), usize::MAX as u64),
            ) {
                (Some(f), Some(t)) => if f != t {
                    PlayerMsg::Reorder { from: f as usize, to: t as usize }
                } else {
                    PlayerMsg::Ignored
                },
                _ => PlayerMsg::Ignored,
            },
            None => PlayerMsg::Ignored,
        };
    }
    if let Some(rest) = strip_prefix_exec(&v, "prog|") {
        return PlayerMsg::Progress(rest);
    }
    PlayerMsg::Ignored
}

/* ---------------------------------- stream sources --------------------------------- */

/// The two sources the player can bind for a video, both as links through the
/// local proxy: a progressive file and an HLS master playlist. Each is empty
/// where the video has none.
pub struct StreamSources {
    pub file: String,
    pub hls: String,
}

/// The progressive source: the video URL through the proxy, unless the URL is
/// empty or names a playlist.
pub open spec fn file_source(proxy: Seq<char>, video_url: Seq<char>) -> Seq<char> {
    if video_url.len() == 0 || contains(video_url, ".m3u8"@) {
        Seq::empty()
    } else {
        proxied(proxy, video_url)
    }
}

/// The playlist behind the HLS source: the master playlist when the video has a
/// non-empty one, else the video URL itself when it names a playlist.
pub open spec fn hls_playlist(video_url: Seq<char>, master: Option<Seq<char>>) -> Option<
    Seq<char>,
> {
    match master {
        Some(m) if m.len() > 0 => Some(m),
        _ => if contains(video_url, ".m3u8"@) {
            Some(video_url)
        } else {
            None
        },
    }
}

/// The HLS source: the chosen playlist through the proxy, or nothing.
pub open spec fn hls_source(proxy: Seq<char>, video_url: Seq<char>, master: Option<Seq<char>>) -> Seq<
    char,
> {
    match hls_playlist(video_url, master) {
        Some(u) => proxied(proxy, u),
        None => Seq::empty(),
    }
}

/// The sources the player binds for a video with stream URL `video_url` and
/// optional HLS master playlist `hls_master`.
pub fn stream_sources(proxy_base: &str, video_url: &str, hls_master: Option<&str>) -> (r:
    StreamSources)
    ensures
        r.file@ == file_source(proxy_base@, video_url@),
        r.hls@ == hls_source(proxy_base@, video_url@, opt_str_view(hls_master)),
{
    let is_playlist = contains_exec(video_url, ".m3u8");
    let file = if video_url.is_empty() || is_playlist {
        String::new()
    } else {
        proxied_url(proxy_base, video_url)
    };
    let chosen: Option<&str> = match hls_master {
        Some(m) if !m.is_empty() => Some(m),
        _ => if is_playlist {
            Some(video_url)
        } else {
            None
        },
    };
    let hls = match chosen {
        Some(u) => proxied_url(proxy_base, u),
        None => String::new(),
    };
    StreamSources { file, hls }
}

/// Whether the player binds the progressive file rather than HLS: always for
/// the "original" quality or when there is no HLS source, and for "auto"
/// whenever there is a file.
pub open spec fn spec_prefers_file(quality: Seq<char>, file: Seq<char>, hls: Seq<char>) -> bool {
    quality == "original"@ || hls.len() == 0 || (file.len() > 0 && quality == "auto"@)
}

pub fn prefers_file(quality: &str, file_src: &str, hls_src: &str) -> (r: bool)
    ensures
        r == spec_prefers_file(quality@, file_src@, hls_src@),
{
    str_eq(quality, "original") || hls_src.is_empty() || (!file_src.is_empty() && str_eq(
        quality,
        "auto",
    ))
}

/// A video URL that names a playlist (`.m3u8`) is never bound as a file; it
/// becomes the HLS source when the video has no master playlist of its own. A
/// non-empty master playlist is always the HLS source. Any other URL is the
/// file source, and without a master playlist there is then no HLS source.
pub proof fn lemma_stream_sources(proxy: Seq<char>, url: Seq<char>, master: Seq<char>)
    ensures
        contains(url, ".m3u8"@) ==> file_source(proxy, url).len() == 0,
        !contains(url, ".m3u8"@) ==> file_source(proxy, url) == proxied(proxy, url),
        master.len() > 0 ==> hls_source(proxy, url, Some(master)) == proxied(proxy, master),
        contains(url, ".m3u8"@) ==> hls_source(proxy, url, None) == proxied(proxy, url)
            && hls_source(proxy, url, Some(Seq::empty())) == proxied(proxy, url),
        !contains(url, ".m3u8"@) ==> hls_source(proxy, url, None).len() == 0,
{
    if url.len() == 0 {
        assert(!contains(url, ".m3u8"@)) by {
            reveal_strlit(".m3u8");
            assert(".m3u8"@.len() == 5);
        }
    }
}

/// The player binds the file for "original" and whenever there is no HLS
/// source, and for "auto" whenever there is a file; for any other quality, or
/// for "auto" without a file, it binds HLS when there is an HLS source.
pub proof fn lemma_prefers_file(quality: Seq<char>, file: Seq<char>, hls: Seq<char>)
    ensures
        quality == "original"@ ==> spec_prefers_file(quality, file, hls),
        hls.len() == 0 ==> spec_prefers_file(quality, file, hls),
        quality == "auto"@ && file.len() > 0 ==> spec_prefers_file(quality, file, hls),
        quality != "original"@ && quality != "auto"@ && hls.len() > 0 ==> !spec_prefers_file(
            quality,
            file,
            hls,
        ),
        quality != "original"@ && file.len() == 0 && hls.len() > 0 ==> !spec_prefers_file(
            quality,
            file,
            hls,
        ),
{
}

/* ---------------------------------- quality menu ---------------------------------- */

/// One entry of the quality menu: the value the player receives and its label.
pub struct QualityOption {
    pub value: String,
    pub label: String,
}

/// What the menu reads of a rendition: its height and its resolution label.
pub open spec fn rendition_key(v: HlsVariant) -> (u32, Seq<char>) {
    (v.height, v.resolution@)
}

/// `x` placed into `s` before the first entry that is lower than it, so that
/// entries of equal height keep the order in which they came.
pub open spec fn insert_by_height(s: Seq<(u32, Seq<char>)>, x: (u32, Seq<char>)) -> Seq<
    (u32, Seq<char>),
>
    decreases s.len(),
{
    if s.len() == 0 {
        seq![x]
    } else if s[0].0 < x.0 {
        seq![x] + s
    } else {
        seq![s[0]] + insert_by_height(s.drop_first(), x)
    }
}

/// The renditions from the highest to the lowest; of equal heights, the one
/// listed first stays first (a stable sort).
pub open spec fn by_height_desc(s: Seq<(u32, Seq<char>)>) -> Seq<(u32, Seq<char>)>
    decreases s.len(),
{
    if s.len() == 0 {
        s
    } else {
        insert_by_height(by_height_desc(s.drop_last()), s.last())
    }
}

/// A rendition's label: its resolution, or its height and "p" when it has none.
pub open spec fn rendition_label(k: (u32, Seq<char>)) -> Seq<char> {
    if k.1.len() == 0 {
        decimal(k.0 as nat) + "p"@
    } else {
        k.1
    }
}

/// The quality menu: "Auto", the renditions from the highest down (valued by
/// their height), and "Original" when there is a progressive file.
pub open spec fn quality_menu(variants: Seq<HlsVariant>, has_file: bool) -> Seq<
    (Seq<char>, Seq<char>),
> {
    seq![("auto"@, "Auto"@)] + by_height_desc(variants.map_values(|v: HlsVariant| rendition_key(v))).map_values(
        |k: (u32, Seq<char>)| (decimal(k.0 as nat), rendition_label(k)),
    ) + if has_file {
        seq![("original"@, "Original"@)]
    } else {
        Seq::empty()
    }
}

pub open spec fn option_views(o: Seq<QualityOption>) -> Seq<(Seq<char>, Seq<char>)> {
    o.map_values(|q: QualityOption| (q.value@, q.label@))
}

pub open spec fn key_views(s: Seq<(u32, String)>) -> Seq<(u32, Seq<char>)> {
    s.map_values(|p: (u32, String)| (p.0, p.1@))
}

/// Inserting before the first lower entry of a list ordered from the highest
/// is `insert_by_height`.
proof fn lemma_insert_at_first_lower(s: Seq<(u32, Seq<char>)>, x: (u32, Seq<char>), p: int)
    requires
        0 <= p <= s.len(),
        forall|j: int| 0 <= j < p ==> s[j].0 >= x.0,
        p < s.len() ==> s[p].0 < x.0,
    ensures
        insert_by_height(s, x) == s.insert(p, x),
    decreases s.len(),
{
    if s.len() == 0 {
        assert(s.insert(p, x) =~= seq![x]);
    } else if p == 0 {
        assert(s.insert(0, x) =~= seq![x] + s);
    } else {
        let t = s.drop_first();
        assert forall|j: int| 0 <= j < p - 1 implies t[j].0 >= x.0 by {
            assert(t[j] == s[j + 1]);
        }
        lemma_insert_at_first_lower(t, x, p - 1);
        assert(s.insert(p, x) =~= seq![s[0]] + t.insert(p - 1, x));
    }
}

/// The entries of `quality_menu`, in order.
pub fn quality_options(variants: &[HlsVariant], has_file: bool) -> (r: Vec<QualityOption>)
    ensures
        option_views(r@) == quality_menu(variants@, has_file),
{
    let ghost keys = variants@.map_values(|v: HlsVariant| rendition_key(v));
    let mut sorted: Vec<(u32, String)> = Vec::new();
    let mut i: usize = 0;
    while i < variants.len()
        invariant
            i <= variants@.len(),
            keys == variants@.map_values(|v: HlsVariant| rendition_key(v)),
            key_views(sorted@) == by_height_desc(keys.take(i as int)),
        decreases variants@.len() - i,
    {
        let h = variants[i].height;
        let res = variants[i].resolution.clone();
        let ghost before = key_views(sorted@);
        let mut p: usize = 0;
        while p < sorted.len() && sorted[p].0 >= h
            invariant
                p <= sorted@.len(),
                before == key_views(sorted@),
                forall|j: int| 0 <= j < p ==> before[j].0 >= h,
            decreases sorted@.len() - p,
        {
            p += 1;
        }
        proof {
            lemma_insert_at_first_lower(before, (h, res@), p as int);
            assert(keys.take(i + 1).drop_last() =~= keys.take(i as int));
            assert(keys.take(i + 1).last() == keys[i as int]);
        }
        sorted.insert(p, (h, res));
        proof {
            assert(key_views(sorted@) =~= before.insert(p as int, keys[i as int]));
        }
        i += 1;
    }
    proof {
        assert(keys.take(variants@.len() as int) =~= keys);
    }
    let ghost ordered = key_views(sorted@);
    let mut out: Vec<QualityOption> = Vec::new();
    out.push(QualityOption { value: String::from_str("auto"), label: String::from_str("Auto") });
    let mut k: usize = 0;
    while k < sorted.len()
        invariant
            k <= sorted@.len(),
            ordered == key_views(sorted@),
            option_views(out@) == seq![("auto"@, "Auto"@)] + ordered.take(k as int).map_values(
                |e: (u32, Seq<char>)| (decimal(e.0 as nat), rendition_label(e)),
            ),
        decreases sorted@.len() - k,
    {
        let h = sorted[k].0;
        let value = decimal_string(h as u64);
        let label = if sorted[k].1.as_str().is_empty() {
            let mut l = decimal_string(h as u64);
            push_str(&mut l, "p");
            l
        } else {
            sorted[k].1.clone()
        };
        proof {
            assert(ordered[k as int] == (h, sorted@[k as int].1@));
            assert(value@ == decimal(ordered[k as int].0 as nat));
            assert(label@ == rendition_label(ordered[k as int]));
        }
        let ghost before = out@;
        out.push(QualityOption { value, label });
        proof {
            assert(option_views(out@) =~= option_views(before).push(
                (decimal(ordered[k as int].0 as nat), rendition_label(ordered[k as int])),
            ));
            assert(ordered.take(k + 1) =~= ordered.take(k as int).push(ordered[k as int]));
            assert(option_views(out@) =~= seq![("auto"@, "Auto"@)] + ordered.take(k + 1).map_values(
                |e: (u32, Seq<char>)| (decimal(e.0 as nat), rendition_label(e)),
            ));
        }
        k += 1;
    }
    proof {
        assert(ordered.take(sorted@.len() as int) =~= ordered);
    }
    if has_file {
        out.push(QualityOption { value: String::from_str("original"), label: String::from_str("Original") });
    }
    proof {
        assert(option_views(out@) =~= quality_menu(variants@, has_file));
    }
    out
}

/// Heights never rise along the list.
pub open spec fn highest_first(s: Seq<(u32, Seq<char>)>) -> bool {
    forall|i: int, j: int| 0 <= i < j < s.len() ==> s[i].0 >= s[j].0
}

proof fn lemma_insert_by_height_facts(s: Seq<(u32, Seq<char>)>, x: (u32, Seq<char>))
    ensures
        insert_by_height(s, x).to_multiset() =~= s.to_multiset().insert(x),
        highest_first(s) ==> highest_first(insert_by_height(s, x)),
    decreases s.len(),
{
    broadcast use vstd::seq_lib::group_to_multiset_ensures;
    broadcast use vstd::multiset::group_multiset_axioms;

    let r = insert_by_height(s, x);
    if s.len() == 0 {
        assert(r =~= Seq::<(u32, Seq<char>)>::empty().push(x));
        assert(s =~= Seq::<(u32, Seq<char>)>::empty());
    } else if s[0].0 < x.0 {
        vstd::seq_lib::lemma_multiset_commutative(seq![x], s);
        assert(seq![x] =~= Seq::<(u32, Seq<char>)>::empty().push(x));
    } else {
        let t = s.drop_first();
        let rt = insert_by_height(t, x);
        lemma_insert_by_height_facts(t, x);
        vstd::seq_lib::lemma_multiset_commutative(seq![s[0]], rt);
        vstd::seq_lib::lemma_multiset_commutative(seq![s[0]], t);
        assert(seq![s[0]] + t =~= s);
        if highest_first(s) {
            assert(highest_first(t)) by {
                assert forall|i: int, j: int| 0 <= i < j < t.len() implies t[i].0 >= t[j].0 by {
                    assert(t[i] == s[i + 1] && t[j] == s[j + 1]);
                }
            }
            assert forall|i: int, j: int| 0 <= i < j < r.len() implies r[i].0 >= r[j].0 by {
                if i == 0 {
                    let e = rt[j - 1];
                    assert(r[j] == e);
                    assert(rt.to_multiset().count(e) > 0);
                    if e != x {
                        assert(t.contains(e));
                        let k = choose|k: int| 0 <= k < t.len() && t[k] == e;
                        assert(s[k + 1] == e);
                    }
                } else {
                    assert(r[i] == rt[i - 1] && r[j] == rt[j - 1]);
                }
            }
        }
    }
}

/// The menu's order lists every rendition exactly as often as the video has it,
/// from the highest to the lowest.
pub proof fn lemma_by_height_desc_ordered(s: Seq<(u32, Seq<char>)>)
    ensures
        by_height_desc(s).to_multiset() == s.to_multiset(),
        by_height_desc(s).len() == s.len(),
        highest_first(by_height_desc(s)),
    decreases s.len(),
{
    broadcast use vstd::seq_lib::group_to_multiset_ensures;

    if s.len() > 0 {
        let init = s.drop_last();
        lemma_by_height_desc_ordered(init);
        lemma_insert_by_height_facts(by_height_desc(init), s.last());
        assert(init.push(s.last()) =~= s);
        assert(by_height_desc(s).len() == by_height_desc(s).to_multiset().len());
    }
}

/// A layout size the layout accepts, stored as `rail_width_to_store` /
/// `queue_height_to_store` write it, reads back unchanged through
/// `rail_width_setting` / `queue_height_setting`.
pub proof fn lemma_layout_setting_read_back(w: u32)
    ensures
        setting_number(Some(decimal(w as nat))) == Some(w as nat),
{
    lemma_parse_decimal(w as nat, u32::MAX as nat);
}

/// An on/off setting stored as `flag_text` writes it reads back as the same
/// value, for hover previews and for pausing previews alike.
pub proof fn lemma_flag_read_back(on: bool)
    ensures
        ({
            let t = if on {
                "1"@
            } else {
                "0"@
            };
            &&& (t == "1"@ || t == "true"@) == on
            &&& !(t == "0"@ || t == "false"@) == on
        }),
{
    reveal_strlit("1");
    reveal_strlit("0");
    reveal_strlit("true");
    reveal_strlit("false");
    assert("1"@ != "0"@) by {
        assert("1"@[0] != "0"@[0]);
    }
    assert("1"@.len() != "true"@.len() && "1"@.len() != "false"@.len());
    assert("0"@.len() != "true"@.len() && "0"@.len() != "false"@.len());
}

proof fn lemma_after_prefix(p: Seq<char>, t: Seq<char>)
    ensures
        after_prefix(p + t, p) == Some(t),
{
    assert((p + t).take(p.len() as int) =~= p);
    assert((p + t).skip(p.len() as int) =~= t);
}

proof fn lemma_not_prefixed(s: Seq<char>, p: Seq<char>, i: int)
    requires
        0 <= i < p.len(),
        i < s.len(),
        s[i] != p[i],
    ensures
        after_prefix(s, p) is None,
{
    if starts_with(s, p) {
        assert(s.take(p.len() as int)[i] == s[i]);
    }
}

/// The resize messages the player page sends decode to the size it sent,
/// whenever the layout accepts that size.
pub proof fn lemma_resize_messages(w: u32)
    ensures
        rail_width_ok(w as nat) ==> spec_player_msg("rail|"@ + decimal(w as nat))
            == PlayerMsgView::RailWidth(w as nat),
        queue_height_ok(w as nat) ==> spec_player_msg("queueh|"@ + decimal(w as nat))
            == PlayerMsgView::QueueHeight(w as nat),
{
    reveal_strlit("rail|");
    reveal_strlit("queueh|");
    reveal_strlit("ended");
    reveal_strlit("toggle-fs");
    lemma_parse_decimal(w as nat, u32::MAX as nat);
    lemma_decimal_digits(w as nat);
    let rail = "rail|"@ + decimal(w as nat);
    let queue = "queueh|"@ + decimal(w as nat);
    lemma_after_prefix("rail|"@, decimal(w as nat));
    lemma_after_prefix("queueh|"@, decimal(w as nat));
    assert(rail[0] == 'r' && queue[0] == 'q');
    assert(rail != "ended"@ && rail != "toggle-fs"@) by {
        assert("ended"@[0] == 'e' && "toggle-fs"@[0] == 't');
    }
    assert(queue != "ended"@ && queue != "toggle-fs"@) by {
        assert("ended"@[0] == 'e' && "toggle-fs"@[0] == 't');
    }
    lemma_not_prefixed(queue, "rail|"@, 0);
}

/// What the player page's messages mean: "ended" advances the queue,
/// "toggle-fs" toggles full screen, "rail|W" resizes the rail to W pixels when
/// W is from 280 to 1400 and is ignored otherwise, "queueh|H" resizes the queue
/// panel to H pixels when H is from 88 to 1200 and is ignored otherwise, and
/// "prog|..." is a progress report carrying the rest of the text.
pub proof fn lemma_player_messages(w: u32, rest: Seq<char>)
    ensures
        spec_player_msg("ended"@) == PlayerMsgView::Ended,
        spec_player_msg("toggle-fs"@) == PlayerMsgView::ToggleFullscreen,
        spec_player_msg("rail|"@ + decimal(w as nat)) == if 280 <= w <= 1400 {
            PlayerMsgView::RailWidth(w as nat)
        } else {
            PlayerMsgView::Ignored
        },
        spec_player_msg("queueh|"@ + decimal(w as nat)) == if 88 <= w <= 1200 {
            PlayerMsgView::QueueHeight(w as nat)
        } else {
            PlayerMsgView::Ignored
        },
        spec_player_msg("prog|"@ + rest) == PlayerMsgView::Progress(rest),
{
    reveal_strlit("rail|");
    reveal_strlit("queueh|");
    reveal_strlit("reorder|");
    reveal_strlit("prog|");
    reveal_strlit("ended");
    reveal_strlit("toggle-fs");
    lemma_parse_decimal(w as nat, u32::MAX as nat);
    lemma_decimal_digits(w as nat);
    let rail = "rail|"@ + decimal(w as nat);
    let queue = "queueh|"@ + decimal(w as nat);
    let prog = "prog|"@ + rest;
    lemma_after_prefix("rail|"@, decimal(w as nat));
    lemma_after_prefix("queueh|"@, decimal(w as nat));
    lemma_after_prefix("prog|"@, rest);
    assert(rail[0] == 'r' && queue[0] == 'q' && prog[0] == 'p');
    assert("ended"@[0] == 'e' && "toggle-fs"@[0] == 't');
    assert(rail != "ended"@ && rail != "toggle-fs"@);
    assert(queue != "ended"@ && queue != "toggle-fs"@);
    assert(prog != "ended"@ && prog != "toggle-fs"@);
    lemma_not_prefixed(queue, "rail|"@, 0);
    lemma_not_prefixed(prog, "rail|"@, 0);
    lemma_not_prefixed(prog, "queueh|"@, 0);
    lemma_not_prefixed(prog, "reorder|"@, 0);
}

} // verus!
