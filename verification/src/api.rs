//! What the PMVHaven API client decides without the network: when a
//! request carries the session, how a reply's fields are picked, how a
//! page of results is described and how ids are batched for bulk lookups.
use vstd::prelude::*;

use crate::models::{opt_view, AccountUser, FeedParams, Pagination};
use crate::sync::{chunk, chunk_count, min_int};
use crate::text::{decimal, decimal_string, join, join_strings, owned, string_views};

verus! {

/// Whether a feed request must carry the session cookie: only when signed
/// in and the feed depends on the account.
pub open spec fn spec_feed_needs_auth(p: FeedParams, connected: bool) -> bool {
    connected && (p.watched_only || p.favorites_only || p.subscribed_only || p.personalized_only
        || p.exclude_watched)
}

pub fn feed_needs_auth(p: &FeedParams, connected: bool) -> (r: bool)
    ensures
        r == spec_feed_needs_auth(*p, connected),
{
    connected && (p.watched_only || p.favorites_only || p.subscribed_only || p.personalized_only
        || p.exclude_watched)
}

/// Signed in, every feed that depends on the account (watched only,
/// favorites, subscriptions, personalized, or hiding watched videos) goes out
/// with the session, each of them on its own; signed out no feed does, and a
/// feed that sets none of them goes out without it.
pub proof fn lemma_account_feeds_carry_session(p: FeedParams, connected: bool)
    ensures
        connected && p.watched_only ==> spec_feed_needs_auth(p, connected),
        connected && p.favorites_only ==> spec_feed_needs_auth(p, connected),
        connected && p.subscribed_only ==> spec_feed_needs_auth(p, connected),
        connected && p.personalized_only ==> spec_feed_needs_auth(p, connected),
        connected && p.exclude_watched ==> spec_feed_needs_auth(p, connected),
        !connected ==> !spec_feed_needs_auth(p, connected),
        !p.watched_only && !p.favorites_only && !p.subscribed_only && !p.personalized_only
            && !p.exclude_watched ==> !spec_feed_needs_auth(p, connected),
{
}

/// An authenticated request that came back 401 or 403 is retried once
/// after signing in again with the stored credentials.
pub fn needs_reauth(auth: bool, status: u16) -> (r: bool)
    ensures
        r == (auth && (status == 401 || status == 403)),
{
    auth && (status == 401 || status == 403)
}

/// The pagination fields of a reply, as read from its JSON: `None` where a
/// field is missing or has another type. `total` is `Some` when the key
/// `total` is present (its value then wins over `totalVideos`).
pub struct PageFields {
    pub page: Option<u64>,
    pub limit: Option<u64>,
    pub total: Option<Option<u64>>,
    pub total_videos: Option<u64>,
    pub total_pages: Option<u64>,
    pub has_next: Option<bool>,
    pub has_prev: Option<bool>,
}

pub open spec fn or_u64(o: Option<u64>, d: u64) -> u64 {
    match o {
        Some(x) => x,
        None => d,
    }
}

pub open spec fn or_bool(o: Option<bool>) -> bool {
    match o {
        Some(x) => x,
        None => false,
    }
}

/// The total a reply reports, or the number of items it holds.
pub open spec fn spec_total(f: PageFields, len: u64) -> u64 {
    match f.total {
        Some(t) => or_u64(t, len),
        None => or_u64(f.total_videos, len),
    }
}

fn value_or(o: Option<u64>, d: u64) -> (r: u64)
    ensures
        r == or_u64(o, d),
{
    match o {
        Some(x) => x,
        None => d,
    }
}

fn flag_or_false(o: Option<bool>) -> (r: bool)
    ensures
        r == or_bool(o),
{
    match o {
        Some(x) => x,
        None => false,
    }
}

/// The pagination of a page of `len` items: page 1 of 1 with `len` items
/// per page and in all where the reply says nothing; the 32-bit fields keep
/// the low 32 bits of what the reply holds.
pub fn pagination_of(f: &PageFields, len: u64) -> (r: Pagination)
    ensures
        r.page == or_u64(f.page, 1) as u32,
        r.limit == or_u64(f.limit, len) as u32,
        r.total == spec_total(*f, len),
        r.total_pages == or_u64(f.total_pages, 1) as u32,
        r.has_next == or_bool(f.has_next),
        r.has_prev == or_bool(f.has_prev),
{
    let total = match f.total {
        Some(t) => value_or(t, len),
        None => value_or(f.total_videos, len),
    };
    Pagination {
        page: value_or(f.page, 1) as u32,
        limit: value_or(f.limit, len) as u32,
        total,
        total_pages: value_or(f.total_pages, 1) as u32,
        has_next: flag_or_false(f.has_next),
        has_prev: flag_or_false(f.has_prev),
    }
}

/// The query of a text search: `q`, `page` and `limit`, in that order.
pub fn search_query(q: &str, page: u32, limit: u32) -> (r: Vec<(String, String)>)
    ensures
        r@.len() == 3,
        r@[0].0@ == "q"@,
        r@[0].1@ == q@,
        r@[1].0@ == "page"@,
        r@[1].1@ == decimal(page as nat),
        r@[2].0@ == "limit"@,
        r@[2].1@ == decimal(limit as nat),
{
    let mut r: Vec<(String, String)> = Vec::new();
    r.push((owned("q"), owned(q)));
    r.push((owned("page"), decimal_string(page as u64)));
    r.push((owned("limit"), decimal_string(limit as u64)));
    r
}

/// Bulk lookups send at most 100 ids at a time, joined by commas: one
/// string per chunk, in order.
pub fn bulk_batches(ids: &Vec<String>) -> (r: Vec<String>)
    ensures
        r@.len() == chunk_count(ids@.len()),
        forall|i: int|
            0 <= i < r@.len() ==> #[trigger] r@[i]@ == join(string_views(chunk(ids@, i)), ","@),
{
    let len = ids.len();
    let mut out: Vec<String> = Vec::new();
    let mut i: usize = 0;
    let mut lo: usize = 0;
    while lo < len
        invariant
            len == ids@.len(),
            lo as int == min_int(100 * i, len as int),
            i <= lo,
            i == 0 || 100 * (i - 1) < len,
            out@.len() == i,
            forall|j: int|
                0 <= j < i ==> #[trigger] out@[j]@ == join(string_views(chunk(ids@, j)), ","@),
        decreases len - lo,
    {
        let hi = if len - lo <= 100 {
            len
        } else {
            lo + 100
        };
        let mut part: Vec<String> = Vec::new();
        let mut k = lo;
        while k < hi
            invariant
                lo <= k <= hi <= len == ids@.len(),
                part@ == ids@.subrange(lo as int, k as int),
            decreases hi - k,
        {
            part.push(ids[k].clone());
            k += 1;
            assert(part@ =~= ids@.subrange(lo as int, k as int));
        }
        assert(part@ == chunk(ids@, i as int));
        let joined = join_strings(&part, ",");
        out.push(joined);
        i += 1;
        lo = hi;
    }
    assert(out@.len() == chunk_count(len as nat));
    out
}

/// The progress a watch-progress push sends: refused when signed out, else
/// the percentage capped at 100.
pub fn watch_progress_percent(connected: bool, pct: u32) -> (r: Option<u32>)
    ensures
        !connected ==> r is None,
        connected ==> r == Some(if pct > 100 { 100u32 } else { pct }),
{
    if !connected {
        None
    } else if pct > 100 {
        Some(100)
    } else {
        Some(pct)
    }
}

/// A text field of a reply counts only when it is not empty.
pub open spec fn spec_filled(o: Option<String>) -> Option<Seq<char>> {
    match o {
        Some(s) => if s@.len() > 0 { Some(s@) } else { None },
        None => None,
    }
}

pub fn filled(o: Option<String>) -> (r: Option<String>)
    ensures
        opt_view(r) == spec_filled(o),
{
    match o {
        Some(s) => if !s.as_str().is_empty() { Some(s) } else { None },
        None => None,
    }
}

/// The first candidate from `i` on that is present and not empty, or the
/// empty text.
pub open spec fn first_filled_from(c: Seq<Option<String>>, i: int) -> Seq<char>
    decreases c.len() - i,
{
    if i < 0 || i >= c.len() {
        Seq::empty()
    } else if spec_filled(c[i]) is Some {
        c[i]->0@
    } else {
        first_filled_from(c, i + 1)
    }
}

/// The first present, non-empty candidate (the keys of a reply are tried
/// in order), or the empty text.
pub fn first_filled(c: &Vec<Option<String>>) -> (r: String)
    ensures
        r@ == first_filled_from(c@, 0),
{
    let mut i: usize = c.len();
    let mut best = String::new();
    // walk from the back so that the earliest filled candidate wins
    while i > 0
        invariant
            i <= c@.len(),
            best@ == first_filled_from(c@, i as int),
        decreases i,
    {
        i -= 1;
        match &c[i] {
            Some(s) => {
                if !s.as_str().is_empty() {
                    best = s.clone();
                }
            },
            None => {},
        }
    }
    best
}

/// The first list when it holds anything, else the second.
pub fn nonempty_or<T>(primary: Vec<T>, fallback: Vec<T>) -> (r: Vec<T>)
    ensures
        r@ == if primary@.len() > 0 { primary@ } else { fallback@ },
{
    if primary.len() > 0 {
        primary
    } else {
        fallback
    }
}

/// The account a reply describes. After a sign-in, `login_email` is the
/// address used: it stands in for a missing name and a missing address.
/// The avatar falls back to the profile image.
pub fn account_user(
    id: String,
    name: String,
    email: Option<String>,
    avatar: Option<String>,
    image: Option<String>,
    login_email: Option<String>,
) -> (r: AccountUser)
    ensures
        r.id@ == id@,
        r.username@ == (match login_email {
            Some(l) => if name@.len() == 0 { l@ } else { name@ },
            None => name@,
        }),
        opt_view(r.email) == (match email {
            Some(e) => Some(e@),
            None => opt_view(login_email),
        }),
        opt_view(r.avatar_url) == (match avatar {
            Some(a) => Some(a@),
            None => opt_view(image),
        }),
{
    let username = match &login_email {
        Some(l) => if name.as_str().is_empty() { l.clone() } else { name },
        None => name,
    };
    let email = match email {
        Some(e) => Some(e),
        None => login_email,
    };
    let avatar_url = match avatar {
        Some(a) => Some(a),
        None => image,
    };
    AccountUser { id, username, email, avatar_url }
}

/// What a refused sign-in tells the user: the reply's own message when it has
/// one, else that the email or password is wrong.
pub fn sign_in_error(message: Option<&str>) -> (r: String)
    ensures
        r@ == (match message {
            Some(m) => m@,
            None => "Invalid email or password"@,
        }),
{
    match message {
        Some(m) => owned(m),
        None => owned("Invalid email or password"),
    }
}

/// The name of the session cookie a sign-in reply may carry as a bare token.
pub open spec fn session_cookie_name() -> Seq<char> {
    "__Secure-better-auth.session_token"@
}

/// The cookies kept after a sign-in: those the reply set, or, when it set
/// none, its bare token under the session cookie's name.
pub fn sign_in_cookies(cookies: Vec<(String, String)>, token: Option<String>) -> (r: Vec<
    (String, String),
>)
    ensures
        cookies@.len() > 0 || token is None ==> r@ == cookies@,
        cookies@.len() == 0 && token is Some ==> {
            &&& r@.len() == 1
            &&& r@[0].0@ == session_cookie_name()
            &&& r@[0].1@ == token->0@
        },
{
    if cookies.len() > 0 {
        return cookies;
    }
    match token {
        Some(t) => {
            let mut r: Vec<(String, String)> = Vec::new();
            r.push((owned("__Secure-better-auth.session_token"), t));
            r
        },
        None => cookies,
    }
}

} // verus!
