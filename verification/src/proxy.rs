//! The local media proxy's rules: which upstream URLs it may fetch, which
//! responses are HLS playlists, and how playlist entries are pointed back at
//! the proxy. Serving HTTP is the application's business.
use vstd::prelude::*;
use vstd::utf8::{encode_utf8, is_ascii_chars};

use crate::text::{
    ascii_lower, contains, contains_exec, ends_with, ends_with_exec, find_exec, find_from,
    from_chars_range, join, lemma_find_from_facts, lemma_find_shift, owned, push_char, push_str,
    occurs_at, to_chars, trim, trim_bounds,
};

verus! {

/* --------------------------------- form encoding --------------------------------- */

/// Bytes the form serializer leaves as they are.
pub open spec fn form_unchanged(b: u8) -> bool {
    b == 42 || b == 45 || b == 46 || (48 <= b <= 57) || (65 <= b <= 90) || b == 95 || (97 <= b
        <= 122)
}

/// Upper-case hexadecimal digit.
pub open spec fn hex_upper(d: nat) -> char {
    if d < 10 {
        (48 + d) as char
    } else {
        (55 + d) as char
    }
}

/// `application/x-www-form-urlencoded` serialization of one byte.
pub open spec fn form_byte(b: u8) -> Seq<char> {
    if form_unchanged(b) {
        seq![b as char]
    } else if b == 32 {
        seq!['+']
    } else {
        seq!['%', hex_upper((b / 16) as nat), hex_upper((b % 16) as nat)]
    }
}

/// `application/x-www-form-urlencoded` serialization of a byte string.
pub open spec fn form_encoded(bytes: Seq<u8>) -> Seq<char>
    decreases bytes.len(),
{
    if bytes.len() == 0 {
        Seq::empty()
    } else {
        form_byte(bytes[0]) + form_encoded(bytes.drop_first())
    }
}

/// The form serialization of the UTF-8 bytes of `s`
/// (`url::form_urlencoded::byte_serialize`): ASCII letters, digits and `*-._`
/// stay, a space becomes `+`, every other byte becomes `%XX` in upper-case hex.
#[verifier::external_body]
pub(crate) fn form_urlencode(s: &str) -> (r: String)
    ensures
        r@ == form_encoded(encode_utf8(s@)),
{
    url::form_urlencoded::byte_serialize(s.as_bytes()).collect()
}

/* ---------------------------------- URL handling ---------------------------------- */

/// The serialization of the URL that `uri` refers to relative to `base`
/// (`url::Url::parse(base)` then `join(uri)`); none when either step fails.
pub uninterp spec fn url_resolve(base: Seq<char>, uri: Seq<char>) -> Option<Seq<char>>;

/// `Url::parse(base)?.join(uri)?.to_string()`.
#[verifier::external_body]
pub(crate) fn resolve_url(base: &str, uri: &str) -> (r: Option<String>)
    ensures
        crate::models::opt_view(r) == url_resolve(base@, uri@),
{
    match url::Url::parse(base) {
        Ok(b) => match b.join(uri) {
            Ok(u) => Some(u.to_string()),
            Err(_) => None,
        },
        Err(_) => None,
    }
}

/// The link that makes the proxy fetch `target`.
pub open spec fn stream_link(proxy: Seq<char>, target: Seq<char>) -> Seq<char> {
    proxy + "/stream?url="@ + form_encoded(encode_utf8(target))
}

fn stream_link_exec(proxy: &str, target: &str) -> (r: String)
    ensures
        r@ == stream_link(proxy@, target@),
{
    let mut s = owned(proxy);
    push_str(&mut s, "/stream?url=");
    let enc = form_urlencode(target);
    push_str(&mut s, enc.as_str());
    s
}

/// The proxy link for a media URL, or nothing when either part is missing.
pub open spec fn proxied(proxy: Seq<char>, media: Seq<char>) -> Seq<char> {
    if proxy.len() == 0 || media.len() == 0 {
        Seq::empty()
    } else {
        stream_link(proxy, media)
    }
}

/// A proxy link for a media URL; empty when either part is missing.
pub fn proxied_url(proxy_base: &str, media_url: &str) -> (r: String)
    ensures
        r@ == proxied(proxy_base@, media_url@),
{
    if proxy_base.is_empty() || media_url.is_empty() {
        return String::new();
    }
    stream_link_exec(proxy_base, media_url)
}

/* -------------------------------- allowed upstreams -------------------------------- */

/// The site's own host, allowed as it is.
pub open spec fn site_host() -> Seq<char> {
    "pmvhaven.com"@
}

/// Domains whose subdomains the proxy may fetch from (each with its leading
/// dot, so only a whole label matches).
pub open spec fn allowed_domains() -> Seq<Seq<char>> {
    seq![".pmvhaven.com"@, ".io.cloud.ovh.net"@, ".r2.cloudflarestorage.com"@]
}

/// The lower-case form of `s` (std `str::to_lowercase`).
pub uninterp spec fn lowercase(s: Seq<char>) -> Seq<char>;

/// std `str::to_lowercase`. For ASCII text it maps `A-Z` to `a-z` and
/// leaves every other character as it is.
#[verifier::external_body]
pub(crate) fn to_lowercase(s: &str) -> (r: String)
    ensures
        r@ == lowercase(s@),
        is_ascii_chars(s@) ==> r@ == s@.map_values(|c: char| ascii_lower(c)),
{
    s.to_lowercase()
}

/// Whether a (lower-cased) host is the site itself or a subdomain of an
/// allowed domain.
pub open spec fn host_allowed(h: Seq<char>) -> bool {
    h == site_host() || exists|i: int|
        0 <= i < allowed_domains().len() && ends_with(h, #[trigger] allowed_domains()[i])
}

/// Whether the proxy may fetch from this host (compared in lower case).
pub fn is_allowed(host: &str) -> (r: bool)
    ensures
        r == host_allowed(lowercase(host@)),
{
    let h = to_lowercase(host);
    let hs = h.as_str();
    if crate::text::str_eq(hs, "pmvhaven.com") {
        return true;
    }
    let domains: [&str; 3] = [".pmvhaven.com", ".io.cloud.ovh.net", ".r2.cloudflarestorage.com"];
    assert(domains@.map_values(|x: &str| x@) =~= allowed_domains());
    let mut i: usize = 0;
    while i < 3
        invariant
            i <= 3,
            hs@ == lowercase(host@),
            hs@ != site_host(),
            domains@.map_values(|x: &str| x@) == allowed_domains(),
            forall|j: int| 0 <= j < i ==> !ends_with(hs@, #[trigger] allowed_domains()[j]),
        decreases 3 - i,
    {
        let s = domains[i];
        assert(s@ == allowed_domains()[i as int]);
        if ends_with_exec(hs, s) {
            return true;
        }
        i += 1;
    }
    false
}

/// The proxy fetches only `https` URLs on an allowed host; everything else
/// is refused.
pub fn may_proxy(scheme: &str, host: &str) -> (r: bool)
    ensures
        r == (scheme@ == "https"@ && host_allowed(lowercase(host@))),
{
    crate::text::str_eq(scheme, "https") && is_allowed(host)
}

/// The proxy fetches from the site itself and from any subdomain of the site,
/// of OVH object storage (`io.cloud.ovh.net`) and of Cloudflare R2
/// (`r2.cloudflarestorage.com`), and from no other host.
pub proof fn lemma_allowed_hosts(sub: Seq<char>, h: Seq<char>)
    ensures
        host_allowed("pmvhaven.com"@),
        host_allowed(sub + ".pmvhaven.com"@),
        host_allowed(sub + ".io.cloud.ovh.net"@),
        host_allowed(sub + ".r2.cloudflarestorage.com"@),
        h != "pmvhaven.com"@ && !ends_with(h, ".pmvhaven.com"@) && !ends_with(
            h,
            ".io.cloud.ovh.net"@,
        ) && !ends_with(h, ".r2.cloudflarestorage.com"@) ==> !host_allowed(h),
{
    let d = allowed_domains();
    assert(d[0] == ".pmvhaven.com"@ && d[1] == ".io.cloud.ovh.net"@ && d[2]
        == ".r2.cloudflarestorage.com"@);
    assert((sub + d[0]).skip(sub.len() as int) =~= d[0]);
    assert((sub + d[1]).skip(sub.len() as int) =~= d[1]);
    assert((sub + d[2]).skip(sub.len() as int) =~= d[2]);
    assert(ends_with(sub + d[0], d[0]));
    assert(ends_with(sub + d[1], d[1]));
    assert(ends_with(sub + d[2], d[2]));
}

/// A lookalike host that only ends in the letters of the site's name (any
/// name glued in front of `pmvhaven.com` without a dot) is refused.
pub proof fn lemma_lookalike_refused(front: Seq<char>)
    requires
        front.len() > 0,
        front.last() != '.',
    ensures
        !host_allowed(front + site_host()),
{
    reveal_strlit("pmvhaven.com");
    reveal_strlit(".pmvhaven.com");
    reveal_strlit(".io.cloud.ovh.net");
    reveal_strlit(".r2.cloudflarestorage.com");
    let h = front + site_host();
    let n = h.len();
    assert(h.len() != site_host().len());
    assert(h[n - 13] == front.last());
    assert(h[n - 12] == 'p');
    assert(h[n - 1] == 'm');
    assert forall|i: int| 0 <= i < allowed_domains().len() implies !ends_with(
        h,
        #[trigger] allowed_domains()[i],
    ) by {
        let d = allowed_domains()[i];
        if ends_with(h, d) {
            let t = h.skip(n - d.len());
            if i == 0 {
                assert(t[0] == h[n - 13]);
                assert(d[0] == '.');
            } else if i == 1 {
                assert(t[d.len() - 1] == h[n - 1]);
                assert(d[d.len() - 1] == 't');
            } else {
                assert(t[d.len() - 12] == h[n - 12]);
                assert(d[d.len() - 12] == 'e');
            }
        }
    }
}

/// The parts of a URL the proxy reads, as `url::Url::parse(raw)` gives them:
/// the scheme, the host (empty when there is none) and the serialization;
/// none when `raw` does not parse.
pub uninterp spec fn url_parts(raw: Seq<char>) -> Option<(Seq<char>, Seq<char>, Seq<char>)>;

/// `url::Url::parse(raw)`, then `scheme()`, `host_str()` and `as_str()`.
#[verifier::external_body]
fn parse_url(raw: &str) -> (r: Option<(String, String, String)>)
    ensures
        match r {
            Some((a, b, c)) => url_parts(raw@) == Some((a@, b@, c@)),
            None => url_parts(raw@) is None,
        },
{
    match url::Url::parse(raw) {
        Ok(u) => Some((u.scheme().to_string(), u.host_str().unwrap_or("").to_string(), u.as_str().to_string())),
        Err(_) => None,
    }
}

/// What the proxy does with the `url` it is asked to fetch.
pub enum ProxyTarget {
    /// It is not a URL: refused as a bad request.
    Invalid,
    /// Not `https` or not an allowed host: refused.
    Forbidden,
    /// Fetch this URL (the parsed URL's serialization).
    Allowed(String),
}

/// The stream proxy's guard on the raw `url` parameter.
pub fn proxy_target(raw: &str) -> (r: ProxyTarget)
    ensures
        match url_parts(raw@) {
            None => r is Invalid,
            Some((scheme, host, text)) => if scheme == "https"@ && host_allowed(lowercase(host)) {
                r matches ProxyTarget::Allowed(u) && u@ == text
            } else {
                r is Forbidden
            },
        },
{
    match parse_url(raw) {
        None => ProxyTarget::Invalid,
        Some((scheme, host, text)) => {
            if may_proxy(scheme.as_str(), host.as_str()) {
                ProxyTarget::Allowed(text)
            } else {
                ProxyTarget::Forbidden
            }
        },
    }
}

/* ------------------------------------ playlists ------------------------------------ */

/// The path part of a URL: everything before the first `?`.
pub open spec fn before_query(url: Seq<char>) -> Seq<char> {
    match find_from(url, seq!['?'], 0) {
        Some(i) => url.subrange(0, i),
        None => url,
    }
}

/// A response is an HLS playlist when its path ends in `.m3u8` or its
/// content type mentions `mpegurl`.
pub open spec fn spec_is_playlist(url: Seq<char>, content_type: Option<Seq<char>>) -> bool {
    ends_with(before_query(url), ".m3u8"@) || match content_type {
        Some(c) => contains(c, "mpegurl"@),
        None => false,
    }
}

/// Any response whose content type mentions "mpegurl" is a playlist, whatever
/// its URL; so is any URL whose path (the part before `?`) ends in `.m3u8`,
/// whatever its query; anything else is not.
pub proof fn lemma_playlist_detection(path: Seq<char>, query: Seq<char>, c: Seq<char>)
    ensures
        contains(c, "mpegurl"@) ==> spec_is_playlist(path, Some(c)),
        !contains(path, "?"@) && ends_with(path, ".m3u8"@) ==> spec_is_playlist(
            path + "?"@ + query,
            None,
        ) && spec_is_playlist(path, None),
        !contains(path, "?"@) && !ends_with(path, ".m3u8"@) && !contains(c, "mpegurl"@)
            ==> !spec_is_playlist(path + "?"@ + query, Some(c)) && !spec_is_playlist(
            path,
            Some(c),
        ),
{
    reveal_strlit("?");
    let u = path + "?"@ + query;
    assert("?"@ =~= seq!['?']);
    lemma_find_from_facts(path, seq!['?'], 0);
    lemma_find_from_facts(u, seq!['?'], 0);
    if !contains(path, "?"@) {
        assert forall|j: int| 0 <= j < path.len() implies u[j] != '?' by {
            assert(u[j] == path[j]);
            if path[j] == '?' {
                assert(path.subrange(j, j + 1) =~= seq!['?']);
                assert(occurs_at(path, "?"@, j));
            }
        }
        assert(u.subrange(path.len() as int, path.len() + 1 as int) =~= seq!['?']);
        assert(occurs_at(u, seq!['?'], path.len() as int));
        let f = find_from(u, seq!['?'], 0);
        assert(f == Some(path.len() as int)) by {
            if let Some(k) = f {
                if k < path.len() {
                    assert(u.subrange(k, k + 1)[0] == u[k]);
                }
            }
        }
        assert(u.subrange(0, path.len() as int) =~= path);
        assert(find_from(path, seq!['?'], 0) is None) by {
            if let Some(k) = find_from(path, seq!['?'], 0) {
                assert(occurs_at(path, "?"@, k));
            }
        }
    }
}

pub fn is_playlist(url: &str, content_type: Option<&str>) -> (r: bool)
    ensures
        r == spec_is_playlist(url@, match content_type {
            Some(c) => Some(c@),
            None => None,
        }),
{
    let v = to_chars(url);
    let q: [char; 1] = ['?'];
    assert(q@ =~= seq!['?']);
    proof {
        lemma_find_from_facts(v@, seq!['?'], 0);
    }
    let end = match find_exec(v.as_slice(), &q, 0) {
        Some(i) => i,
        None => v.len(),
    };
    let path = from_chars_range(v.as_slice(), 0, end);
    proof {
        if end == v@.len() {
            assert(v@.subrange(0, end as int) =~= v@);
        }
    }
    if ends_with_exec(path.as_str(), ".m3u8") {
        return true;
    }
    match content_type {
        Some(c) => contains_exec(c, "mpegurl"),
        None => false,
    }
}

/// A line without the `\r` that ended it.
pub open spec fn strip_cr(l: Seq<char>) -> Seq<char> {
    if l.len() > 0 && l.last() == '\r' {
        l.drop_last()
    } else {
        l
    }
}

/// The lines of a text (std `str::lines`): split at `\n`, a `\r` before the
/// `\n` dropped, no empty line after a final `\n`.
pub open spec fn lines_of(s: Seq<char>) -> Seq<Seq<char>>
    decreases s.len(),
{
    if s.len() == 0 {
        Seq::empty()
    } else {
        match find_from(s, seq!['\n'], 0) {
            Some(i) => {
                proof {
                    lemma_find_from_facts(s, seq!['\n'], 0);
                }
                seq![strip_cr(s.subrange(0, i))] + lines_of(s.subrange(i + 1, s.len() as int))
            },
            None => seq![s],
        }
    }
}

/// The attribute that introduces a URI inside a tag line.
pub open spec fn uri_marker() -> Seq<char> {
    seq!['U', 'R', 'I', '=', '"']
}

/// Where a playlist entry points, through the proxy: the entry resolved
/// against the playlist's URL (or as it is when that fails), form-encoded.
pub open spec fn entry_target(uri: Seq<char>, base: Seq<char>, proxy: Seq<char>) -> Seq<char> {
    stream_link(
        proxy,
        match url_resolve(base, uri) {
            Some(a) => a,
            None => uri,
        },
    )
}

/// A tag line with every `URI="..."` value pointed at the proxy; an
/// unterminated value is left as it is.
pub open spec fn tag_rewrite(rest: Seq<char>, base: Seq<char>, proxy: Seq<char>) -> Seq<char>
    decreases rest.len(),
{
    match find_from(rest, uri_marker(), 0) {
        None => rest,
        Some(idx) => {
            proof {
                lemma_find_from_facts(rest, uri_marker(), 0);
            }
            let after = rest.subrange(idx + 5, rest.len() as int);
            match find_from(after, seq!['"'], 0) {
                None => rest.subrange(0, idx) + uri_marker() + after,
                Some(end) => {
                    proof {
                        lemma_find_from_facts(after, seq!['"'], 0);
                    }
                    rest.subrange(0, idx) + uri_marker() + entry_target(
                        after.subrange(0, end),
                        base,
                        proxy,
                    ) + seq!['"'] + tag_rewrite(
                        after.subrange(end + 1, after.len() as int),
                        base,
                        proxy,
                    )
                },
            }
        },
    }
}

/// One playlist line rewritten: blank lines stay, tag lines (`#...`) get
/// their URIs rewritten, any other line is an entry and is replaced by its
/// proxy link.
pub open spec fn rewrite_line(line: Seq<char>, base: Seq<char>, proxy: Seq<char>) -> Seq<char> {
    let t = trim(line);
    if t.len() == 0 {
        line
    } else if t[0] == '#' {
        tag_rewrite(line, base, proxy)
    } else {
        entry_target(t, base, proxy)
    }
}

/// The playlist with every line rewritten, joined by `\n`.
pub open spec fn spec_rewrite_playlist(text: Seq<char>, base: Seq<char>, proxy: Seq<char>) -> Seq<
    char,
> {
    join(lines_of(text).map_values(|l: Seq<char>| rewrite_line(l, base, proxy)), "\n"@)
}

fn entry_target_exec(uri: &str, base: &str, proxy: &str) -> (r: String)
    ensures
        r@ == entry_target(uri@, base@, proxy@),
{
    match resolve_url(base, uri) {
        Some(a) => stream_link_exec(proxy, a.as_str()),
        None => stream_link_exec(proxy, uri),
    }
}

fn tag_rewrite_exec(v: &[char], base: &str, proxy: &str) -> (r: String)
    ensures
        r@ == tag_rewrite(v@, base@, proxy@),
{
    let n = v.len();
    let marker: [char; 5] = ['U', 'R', 'I', '=', '"'];
    assert(marker@ =~= uri_marker());
    let quote: [char; 1] = ['"'];
    assert(quote@ =~= seq!['"']);
    let mut out = String::new();
    let mut pos: usize = 0;
    assert(v@.subrange(0, n as int) =~= v@);
    loop
        invariant
            n == v@.len(),
            pos <= n,
            marker@ == uri_marker(),
            quote@ == seq!['"'],
            tag_rewrite(v@, base@, proxy@) == out@ + tag_rewrite(
                v@.subrange(pos as int, n as int),
                base@,
                proxy@,
            ),
        decreases n - pos,
    {
        let ghost rest = v@.subrange(pos as int, n as int);
        proof {
            lemma_find_shift(v@, uri_marker(), pos as int, 0);
            lemma_find_from_facts(rest, uri_marker(), 0);
        }
        match find_exec(v, &marker, pos) {
            None => {
                let tail = from_chars_range(v, pos, n);
                push_str(&mut out, tail.as_str());
                return out;
            },
            Some(i) => {
                let ghost idx = i - pos;
                let head = from_chars_range(v, pos, i);
                assert(head@ =~= rest.subrange(0, idx));
                let ghost before = out@;
                push_str(&mut out, head.as_str());
                let start = i + 5;
                let ghost after = v@.subrange(start as int, n as int);
                assert(after =~= rest.subrange(idx + 5, rest.len() as int));
                proof {
                    lemma_find_shift(v@, seq!['"'], start as int, 0);
                    lemma_find_from_facts(after, seq!['"'], 0);
                }
                let m = from_chars_range(&marker, 0, 5);
                assert(m@ =~= uri_marker());
                push_str(&mut out, m.as_str());
                match find_exec(v, &quote, start) {
                    None => {
                        let tail = from_chars_range(v, start, n);
                        push_str(&mut out, tail.as_str());
                        assert(out@ =~= before + rest.subrange(0, idx) + uri_marker() + after);
                        return out;
                    },
                    Some(j) => {
                        let ghost end = j - start;
                        let uri = from_chars_range(v, start, j);
                        assert(uri@ =~= after.subrange(0, end));
                        let t = entry_target_exec(uri.as_str(), base, proxy);
                        push_str(&mut out, t.as_str());
                        push_char(&mut out, '"');
                        assert(after.subrange(end + 1, after.len() as int) =~= v@.subrange(
                            j + 1,
                            n as int,
                        ));
                        assert(out@ =~= before + rest.subrange(0, idx) + uri_marker()
                            + entry_target(after.subrange(0, end), base@, proxy@) + seq!['"']);
                        pos = j + 1;
                    },
                }
            },
        }
    }
}

fn rewrite_line_exec(line: &[char], base: &str, proxy: &str) -> (r: String)
    ensures
        r@ == rewrite_line(line@, base@, proxy@),
{
    let (lo, hi) = trim_bounds(line);
    if lo == hi {
        let all = from_chars_range(line, 0, line.len());
        assert(all@ =~= line@);
        return all;
    }
    if line[lo] == '#' {
        tag_rewrite_exec(line, base, proxy)
    } else {
        let t = from_chars_range(line, lo, hi);
        entry_target_exec(t.as_str(), base, proxy)
    }
}

proof fn lemma_join_push(done: Seq<Seq<char>>, x: Seq<char>, sep: Seq<char>)
    ensures
        join(done.push(x), sep) == if done.len() == 0 {
            x
        } else {
            join(done, sep) + sep + x
        },
{
    assert(done.push(x).drop_last() =~= done);
}

/// The playlist with every entry pointed at the proxy at `proxy_base`; entries
/// are resolved against `base`, the playlist's own URL.
pub fn rewrite_playlist(text: &str, base: &str, proxy_base: &str) -> (r: String)
    ensures
        r@ == spec_rewrite_playlist(text@, base@, proxy_base@),
{
    let v = to_chars(text);
    let n = v.len();
    let nl: [char; 1] = ['\n'];
    assert(nl@ =~= seq!['\n']);
    let mut out = String::new();
    let mut pos: usize = 0;
    let mut first = true;
    let ghost mut done: Seq<Seq<char>> = Seq::empty();
    assert(v@.subrange(0, n as int) =~= v@);
    while pos < n
        invariant
            n == v@.len(),
            pos <= n,
            nl@ == seq!['\n'],
            first == (done.len() == 0),
            lines_of(v@) == done + lines_of(v@.subrange(pos as int, n as int)),
            out@ == join(
                done.map_values(|l: Seq<char>| rewrite_line(l, base@, proxy_base@)),
                "\n"@,
            ),
        decreases n - pos,
    {
        let ghost rest = v@.subrange(pos as int, n as int);
        proof {
            lemma_find_shift(v@, seq!['\n'], pos as int, 0);
            lemma_find_from_facts(rest, seq!['\n'], 0);
        }
        let found = find_exec(v.as_slice(), &nl, pos);
        let end = match found {
            Some(i) => i,
            None => n,
        };
        let mut stop = end;
        if found.is_some() && end > pos && v[end - 1] == '\r' {
            stop = end - 1;
        }
        let line = crate::text::chars_range(v.as_slice(), pos, stop);
        proof {
            if found.is_some() {
                assert(strip_cr(rest.subrange(0, end - pos)) =~= line@);
                assert(rest.subrange(end - pos + 1, rest.len() as int) =~= v@.subrange(
                    end + 1,
                    n as int,
                ));
                assert(lines_of(rest) == seq![line@] + lines_of(v@.subrange(end + 1, n as int)));
            } else {
                assert(line@ =~= rest);
                assert(lines_of(rest) == seq![rest]);
                assert(v@.subrange(n as int, n as int) =~= Seq::<char>::empty());
            }
        }
        let piece = rewrite_line_exec(line.as_slice(), base, proxy_base);
        let ghost prev = done.map_values(|l: Seq<char>| rewrite_line(l, base@, proxy_base@));
        if !first {
            push_str(&mut out, "\n");
        }
        push_str(&mut out, piece.as_str());
        proof {
            reveal_strlit("\n");
            lemma_join_push(prev, piece@, "\n"@);
            let nd = done.push(line@);
            assert(nd.map_values(|l: Seq<char>| rewrite_line(l, base@, proxy_base@)) =~= prev.push(
                piece@,
            ));
            assert(done + lines_of(rest) =~= nd + lines_of(
                if found.is_some() {
                    v@.subrange(end + 1, n as int)
                } else {
                    v@.subrange(n as int, n as int)
                },
            ));
            done = nd;
        }
        first = false;
        pos = if found.is_some() {
            end + 1
        } else {
            n
        };
    }
    assert(lines_of(v@.subrange(pos as int, n as int)) =~= Seq::<Seq<char>>::empty());
    assert(done + Seq::<Seq<char>>::empty() =~= done);
    out
}

} // verus!
