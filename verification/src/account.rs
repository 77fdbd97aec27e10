//! The stored account and its session cookies.
//!
//! Cookies are kept as lists of (name, value) pairs with distinct names; what
//! matters about such a list is the map it stands for (`cookie_map`).
use vstd::prelude::*;

use crate::models::AccountUser;
use crate::text::{
    find_exec, find_from, from_chars_range, join, lemma_find_from_facts, lemma_find_shift,
    occurs_at, push_str, starts_with, str_eq, to_chars, trim, trim_bounds, string_views, join_strings,
};

verus! {

/// The account row as stored.
pub struct AccountRow {
    pub username: Option<String>,
    pub email: Option<String>,
    pub avatar_url: Option<String>,
    pub pmv_user_id: Option<String>,
    pub enc_email: Option<String>,
    pub enc_password: Option<String>,
    pub cookies: Option<String>,
}

fn copy_opt(o: &Option<String>) -> (r: Option<String>)
    ensures
        r == *o,
{
    match o {
        Some(s) => Some(s.clone()),
        None => None,
    }
}

fn or_empty(o: &Option<String>) -> (r: String)
    ensures
        r@ == match o {
            Some(s) => s@,
            None => Seq::<char>::empty(),
        },
{
    match o {
        Some(s) => s.clone(),
        None => String::new(),
    }
}

/// The signed-in user as stored: only with a session (cookies) and a
/// username.
pub fn get_account_user(row: &Option<AccountRow>) -> (r: Option<AccountUser>)
    ensures
        match row {
            Some(a) if a.cookies is Some && a.username is Some => r matches Some(u) && {
                &&& u.id@ == match a.pmv_user_id {
                    Some(s) => s@,
                    None => Seq::<char>::empty(),
                }
                &&& u.username@ == a.username->0@
                &&& u.email == a.email
                &&& u.avatar_url == a.avatar_url
            },
            _ => r is None,
        },
{
    match row {
        Some(a) => {
            if a.cookies.is_none() || a.username.is_none() {
                return None;
            }
            Some(
                AccountUser {
                    id: or_empty(&a.pmv_user_id),
                    username: or_empty(&a.username),
                    email: copy_opt(&a.email),
                    avatar_url: copy_opt(&a.avatar_url),
                },
            )
        },
        None => None,
    }
}

/// Signed in: an account row with session cookies.
pub fn is_connected(row: &Option<AccountRow>) -> (r: bool)
    ensures
        r == (row matches Some(a) && a.cookies is Some),
{
    match row {
        Some(a) => a.cookies.is_some(),
        None => false,
    }
}

/* ------------------------------------ cookie maps ------------------------------------ */

pub open spec fn pair_views(v: Seq<(String, String)>) -> Seq<(Seq<char>, Seq<char>)> {
    v.map_values(|p: (String, String)| (p.0@, p.1@))
}

/// The map a list of pairs stands for; a later pair wins over an earlier
/// one with the same name.
pub open spec fn pairs_map(v: Seq<(Seq<char>, Seq<char>)>) -> Map<Seq<char>, Seq<char>>
    decreases v.len(),
{
    if v.len() == 0 {
        Map::empty()
    } else {
        pairs_map(v.drop_last()).insert(v.last().0, v.last().1)
    }
}

pub open spec fn cookie_map(v: Seq<(String, String)>) -> Map<Seq<char>, Seq<char>> {
    pairs_map(pair_views(v))
}

/// No two pairs share a name.
pub open spec fn distinct_names(v: Seq<(String, String)>) -> bool {
    forall|i: int, j: int| 0 <= i < v.len() && 0 <= j < v.len() && i != j ==> #[trigger] v[i].0@
        != #[trigger] v[j].0@
}

/// The pairs whose name is not `k`.
pub open spec fn without_name(v: Seq<(String, String)>, k: Seq<char>) -> Seq<(String, String)>
    decreases v.len(),
{
    if v.len() == 0 {
        v
    } else {
        let rest = without_name(v.drop_last(), k);
        if v.last().0@ == k {
            rest
        } else {
            rest.push(v.last())
        }
    }
}

proof fn lemma_without_name(v: Seq<(String, String)>, k: Seq<char>)
    ensures
        cookie_map(without_name(v, k)) == cookie_map(v).remove(k),
        forall|i: int|
            0 <= i < without_name(v, k).len() ==> #[trigger] without_name(v, k)[i].0@ != k,
        forall|i: int|
            0 <= i < without_name(v, k).len() ==> exists|j: int|
                0 <= j < v.len() && #[trigger] without_name(v, k)[i] == v[j],
        distinct_names(v) ==> distinct_names(without_name(v, k)),
    decreases v.len(),
{
    if v.len() > 0 {
        let d = v.drop_last();
        lemma_without_name(d, k);
        let r = without_name(d, k);
        assert(pair_views(v).drop_last() =~= pair_views(d));
        if v.last().0@ == k {
            assert(cookie_map(v).remove(k) =~= cookie_map(d).remove(k));
        } else {
            let w = r.push(v.last());
            assert(pair_views(w).drop_last() =~= pair_views(r));
            assert(cookie_map(w) =~= cookie_map(v).remove(k));
            assert forall|i: int| 0 <= i < w.len() implies exists|j: int|
                0 <= j < v.len() && #[trigger] w[i] == v[j] by {
                if i < r.len() {
                    let j = choose|j: int| 0 <= j < d.len() && #[trigger] r[i] == d[j];
                    assert(v[j] == d[j]);
                } else {
                    assert(w[i] == v[v.len() - 1]);
                }
            }
            if distinct_names(v) {
                assert forall|a: int, b: int|
                    0 <= a < w.len() && 0 <= b < w.len() && a != b implies #[trigger] w[a].0@
                    != #[trigger] w[b].0@ by {
                    if a < r.len() && b < r.len() {
                        assert(distinct_names(d)) by {
                            assert forall|x: int, y: int|
                                0 <= x < d.len() && 0 <= y < d.len() && x != y implies #[trigger] d[x].0@
                                != #[trigger] d[y].0@ by {
                                assert(d[x] == v[x] && d[y] == v[y]);
                            }
                        }
                    } else if a < r.len() {
                        let j = choose|j: int| 0 <= j < d.len() && #[trigger] r[a] == d[j];
                        assert(d[j] == v[j]);
                    } else if b < r.len() {
                        let j = choose|j: int| 0 <= j < d.len() && #[trigger] r[b] == d[j];
                        assert(d[j] == v[j]);
                    }
                }
            }
        }
        if distinct_names(v) && v.last().0@ == k {
            assert(distinct_names(d)) by {
                assert forall|x: int, y: int|
                    0 <= x < d.len() && 0 <= y < d.len() && x != y implies #[trigger] d[x].0@
                    != #[trigger] d[y].0@ by {
                    assert(d[x] == v[x] && d[y] == v[y]);
                }
            }
        }
    } else {
        assert(cookie_map(v).remove(k) =~= cookie_map(v));
    }
}

fn drop_name(v: Vec<(String, String)>, k: &str) -> (r: Vec<(String, String)>)
    ensures
        r@ == without_name(v@, k@),
{
    let ghost all = v@;
    let mut out: Vec<(String, String)> = Vec::new();
    for x in it: v
        invariant
            it.seq() == all,
            out@ == without_name(all.take(it.index() as int), k@),
    {
        let ghost i = it.index();
        proof {
            assert(all.take(i + 1).drop_last() =~= all.take(i as int));
        }
        if !str_eq(x.0.as_str(), k) {
            out.push(x);
        }
    }
    assert(all.take(all.len() as int) =~= all);
    out
}

/// Sets `name` to `value`, replacing an earlier value.
pub fn cookie_insert(v: Vec<(String, String)>, name: String, value: String) -> (r: Vec<(String, String)>)
    ensures
        cookie_map(r@) == cookie_map(v@).insert(name@, value@),
        distinct_names(v@) ==> distinct_names(r@),
{
    let ghost k = name@;
    let ghost val = value@;
    let mut w = drop_name(v, name.as_str());
    proof {
        lemma_without_name(v@, k);
    }
    let ghost before = w@;
    w.push((name, value));
    proof {
        assert(pair_views(w@).drop_last() =~= pair_views(before));
        assert(cookie_map(w@) =~= cookie_map(v@).remove(k).insert(k, val));
        assert(cookie_map(v@).remove(k).insert(k, val) =~= cookie_map(v@).insert(k, val));
        if distinct_names(v@) {
            let s = w@;
            assert forall|a: int, b: int|
                0 <= a < s.len() && 0 <= b < s.len() && a != b implies #[trigger] s[a].0@
                != #[trigger] s[b].0@ by {
                if a < before.len() && b < before.len() {
                    assert(s[a] == before[a] && s[b] == before[b]);
                } else if a < before.len() {
                    assert(s[a] == before[a]);
                } else {
                    assert(s[b] == before[b]);
                }
            }
        }
    }
    w
}

/* -------------------------------- parsing Set-Cookie -------------------------------- */

/// Names of the session cookies the site sets.
pub open spec fn is_auth_name(name: Seq<char>) -> bool {
    starts_with(name, "better-auth."@) || starts_with(name, "__Secure-better-auth."@)
}

/// The text before the first `c`, or all of it.
pub open spec fn before_char(s: Seq<char>, c: char) -> Seq<char> {
    match find_from(s, seq![c], 0) {
        Some(i) => s.subrange(0, i),
        None => s,
    }
}

/// The two sides of the first `c` (std `split_once`).
pub open spec fn split_once(s: Seq<char>, c: char) -> Option<(Seq<char>, Seq<char>)> {
    match find_from(s, seq![c], 0) {
        Some(i) => Some((s.subrange(0, i), s.subrange(i + 1, s.len() as int))),
        None => None,
    }
}

/// The session cookie a `Set-Cookie` header line sets, if it sets one:
/// the `name=value` before the first `;`, names and values trimmed.
pub open spec fn auth_cookie_of(line: Seq<char>) -> Option<(Seq<char>, Seq<char>)> {
    match split_once(before_char(line, ';'), '=') {
        Some((n, v)) => if is_auth_name(trim(n)) {
            Some((trim(n), trim(v)))
        } else {
            None
        },
        None => None,
    }
}

/// The session cookies a response's `Set-Cookie` lines set; a later line wins.
pub open spec fn auth_cookies(lines: Seq<Seq<char>>) -> Map<Seq<char>, Seq<char>>
    decreases lines.len(),
{
    if lines.len() == 0 {
        Map::empty()
    } else {
        let m = auth_cookies(lines.drop_last());
        match auth_cookie_of(lines.last()) {
            Some((n, v)) => m.insert(n, v),
            None => m,
        }
    }
}

/// The session cookies are those named "better-auth.…" or
/// "__Secure-better-auth.…"; a cookie whose name starts with neither is not
/// one.
pub proof fn lemma_auth_names(rest: Seq<char>, other: Seq<char>)
    ensures
        is_auth_name("better-auth."@ + rest),
        is_auth_name("__Secure-better-auth."@ + rest),
        !starts_with(other, "better-auth."@) && !starts_with(other, "__Secure-better-auth."@)
            ==> !is_auth_name(other),
{
    assert(("better-auth."@ + rest).take("better-auth."@.len() as int) =~= "better-auth."@);
    assert(("__Secure-better-auth."@ + rest).take("__Secure-better-auth."@.len() as int)
        =~= "__Secure-better-auth."@);
}

/// `i` is the first position of `c` in `s`.
proof fn lemma_first_char_at(s: Seq<char>, c: char, i: int)
    requires
        0 <= i < s.len(),
        s[i] == c,
        forall|j: int| 0 <= j < i ==> s[j] != c,
    ensures
        find_from(s, seq![c], 0) == Some(i),
{
    lemma_find_from_facts(s, seq![c], 0);
    assert(s.subrange(i, i + 1) =~= seq![c]);
    assert(occurs_at(s, seq![c], i));
    if let Some(k) = find_from(s, seq![c], 0) {
        assert(s.subrange(k, k + 1)[0] == s[k]);
    }
}

/// A `Set-Cookie` line `name=value; attributes` sets the cookie `name` to
/// `value` when `name` is a session cookie's, and is passed over otherwise
/// (for a name without `=` or `;`, a value without `;`, neither with spaces
/// around it).
pub proof fn lemma_set_cookie_line(n: Seq<char>, v: Seq<char>, attrs: Seq<char>)
    requires
        forall|j: int| 0 <= j < n.len() ==> n[j] != '=' && n[j] != ';',
        forall|j: int| 0 <= j < v.len() ==> v[j] != ';',
        trim(n) == n,
        trim(v) == v,
    ensures
        auth_cookie_of(n + "="@ + v + ";"@ + attrs) == if is_auth_name(n) {
            Some((n, v))
        } else {
            None
        },
{
    reveal_strlit("=");
    reveal_strlit(";");
    let line = n + "="@ + v + ";"@ + attrs;
    let head = n + "="@ + v;
    let semi = head.len() as int;
    assert(line[semi] == ';');
    assert forall|j: int| 0 <= j < semi implies line[j] != ';' by {
        if j < n.len() {
            assert(line[j] == n[j]);
        } else if j == n.len() {
            assert(line[j] == '=');
        } else {
            assert(line[j] == v[j - n.len() - 1]);
        }
    }
    lemma_first_char_at(line, ';', semi);
    assert(line.subrange(0, semi) =~= head);
    let eq = n.len() as int;
    assert(head[eq] == '=');
    assert forall|j: int| 0 <= j < eq implies head[j] != '=' by {
        assert(head[j] == n[j]);
    }
    lemma_first_char_at(head, '=', eq);
    assert(head.subrange(0, eq) =~= n);
    assert(head.subrange(eq + 1, head.len() as int) =~= v);
}

fn first_index_of(v: &Vec<char>, c: char) -> (r: Option<usize>)
    ensures
        match r {
            Some(i) => find_from(v@, seq![c], 0) == Some(i as int),
            None => find_from(v@, seq![c], 0) is None,
        },
        r matches Some(i) ==> i < v@.len(),
{
    let p: [char; 1] = [c];
    assert(p@ =~= seq![c]);
    proof {
        lemma_find_from_facts(v@, seq![c], 0);
    }
    find_exec(v.as_slice(), &p, 0)
}

/// The session cookie a `Set-Cookie` line sets, if any.
pub fn parse_auth_cookie(line: &str) -> (r: Option<(String, String)>)
    ensures
        match r {
            Some((n, v)) => auth_cookie_of(line@) == Some((n@, v@)),
            None => auth_cookie_of(line@) is None,
        },
{
    let chars = to_chars(line);
    let n = chars.len();
    let end = match first_index_of(&chars, ';') {
        Some(i) => i,
        None => n,
    };
    let first = chars_upto(&chars, end);
    assert(first@ =~= before_char(line@, ';'));
    let eq = match first_index_of(&first, '=') {
        Some(i) => i,
        None => return None,
    };
    let name_chars = chars_upto(&first, eq);
    let (nlo, nhi) = trim_bounds(name_chars.as_slice());
    let name = from_chars_range(name_chars.as_slice(), nlo, nhi);
    assert(name_chars@ =~= first@.subrange(0, eq as int));
    let (vlo, vhi) = trim_bounds_from(&first, eq + 1);
    let value = from_chars_range(first.as_slice(), vlo, vhi);
    if starts_with_str(&name, "better-auth.") || starts_with_str(&name, "__Secure-better-auth.") {
        Some((name, value))
    } else {
        None
    }
}

fn chars_upto(v: &Vec<char>, end: usize) -> (r: Vec<char>)
    requires
        end <= v@.len(),
    ensures
        r@ == v@.subrange(0, end as int),
{
    let mut out: Vec<char> = Vec::new();
    let mut i: usize = 0;
    while i < end
        invariant
            i <= end <= v@.len(),
            out@ == v@.subrange(0, i as int),
        decreases end - i,
    {
        out.push(v[i]);
        i += 1;
        assert(out@ =~= v@.subrange(0, i as int));
    }
    out
}

/// Bounds, within `v`, of the trimmed text `v[from..]`.
fn trim_bounds_from(v: &Vec<char>, from: usize) -> (r: (usize, usize))
    requires
        from <= v@.len(),
    ensures
        r.0 <= r.1 <= v@.len(),
        v@.subrange(r.0 as int, r.1 as int) == trim(v@.subrange(from as int, v@.len() as int)),
{
    let mut tail: Vec<char> = Vec::new();
    let mut i = from;
    while i < v.len()
        invariant
            from <= i <= v@.len(),
            tail@ == v@.subrange(from as int, i as int),
        decreases v@.len() - i,
    {
        tail.push(v[i]);
        i += 1;
        assert(tail@ =~= v@.subrange(from as int, i as int));
    }
    let (lo, hi) = trim_bounds(tail.as_slice());
    assert(v@.subrange(from + lo, from + hi) =~= tail@.subrange(lo as int, hi as int));
    (from + lo, from + hi)
}

fn starts_with_str(s: &String, p: &str) -> (r: bool)
    ensures
        r == starts_with(s@, p@),
{
    crate::text::starts_with_exec(s.as_str(), p)
}

/// The session cookies set by a response's `Set-Cookie` lines.
pub fn extract_auth_cookies(lines: &[String]) -> (r: Vec<(String, String)>)
    ensures
        cookie_map(r@) == auth_cookies(string_views(lines@)),
        distinct_names(r@),
{
    let mut out: Vec<(String, String)> = Vec::new();
    let mut i: usize = 0;
    while i < lines.len()
        invariant
            i <= lines@.len(),
            cookie_map(out@) == auth_cookies(string_views(lines@.take(i as int))),
            distinct_names(out@),
        decreases lines@.len() - i,
    {
        proof {
            let t = string_views(lines@.take(i + 1));
            assert(t.drop_last() =~= string_views(lines@.take(i as int)));
            assert(t.last() == lines@[i as int]@);
        }
        match parse_auth_cookie(lines[i].as_str()) {
            Some((n, v)) => {
                out = cookie_insert(out, n, v);
            },
            None => {},
        }
        i += 1;
    }
    assert(lines@.take(lines@.len() as int) =~= lines@);
    out
}

/* ---------------------------------- cookie headers ---------------------------------- */

/// `name=value`.
pub open spec fn pair_text(p: (Seq<char>, Seq<char>)) -> Seq<char> {
    p.0 + seq!['='] + p.1
}

/// A `Cookie` header for the pairs, in their order.
pub open spec fn header_text(v: Seq<(Seq<char>, Seq<char>)>) -> Seq<char> {
    join(v.map_values(|p: (Seq<char>, Seq<char>)| pair_text(p)), "; "@)
}

/// The `Cookie` header for a list of cookies: `name=value` pairs joined by
/// `; `, or none when there are none.
pub fn cookie_header(pairs: &Vec<(String, String)>) -> (r: Option<String>)
    ensures
        pairs@.len() == 0 ==> r is None,
        pairs@.len() > 0 ==> (r matches Some(h) && h@ == header_text(pair_views(pairs@))),
{
    if pairs.len() == 0 {
        return None;
    }
    let mut texts: Vec<String> = Vec::new();
    let mut i: usize = 0;
    while i < pairs.len()
        invariant
            i <= pairs@.len(),
            string_views(texts@) == pair_views(pairs@.take(i as int)).map_values(
                |p: (Seq<char>, Seq<char>)| pair_text(p),
            ),
        decreases pairs@.len() - i,
    {
        let mut t = pairs[i].0.clone();
        push_str(&mut t, "=");
        push_str(&mut t, pairs[i].1.as_str());
        proof {
            reveal_strlit("=");
        }
        let ghost before = string_views(texts@);
        texts.push(t);
        proof {
            assert(string_views(texts@) =~= before.push(t@));
            assert(pair_views(pairs@.take(i + 1)) =~= pair_views(pairs@.take(i as int)).push(
                (pairs@[i as int].0@, pairs@[i as int].1@),
            ));
            assert(t@ =~= pair_text((pairs@[i as int].0@, pairs@[i as int].1@)));
            assert(pair_views(pairs@.take(i + 1)).map_values(
                |p: (Seq<char>, Seq<char>)| pair_text(p),
            ) =~= pair_views(pairs@.take(i as int)).map_values(
                |p: (Seq<char>, Seq<char>)| pair_text(p),
            ).push(t@));
        }
        i += 1;
    }
    assert(pairs@.take(pairs@.len() as int) =~= pairs@);
    Some(join_strings(&texts, "; "))
}

/// The pieces of `s` between occurrences of `sep` (std `str::split` with a
/// string pattern); `sep` is not empty.
pub open spec fn split_text(s: Seq<char>, sep: Seq<char>) -> Seq<Seq<char>>
    decreases s.len(),
{
    if sep.len() == 0 {
        seq![s]
    } else {
        match find_from(s, sep, 0) {
            Some(i) => {
                proof {
                    lemma_find_from_facts(s, sep, 0);
                }
                seq![s.subrange(0, i)] + split_text(s.subrange(i + sep.len(), s.len() as int), sep)
            },
            None => seq![s],
        }
    }
}

/// The cookies a stored `Cookie` header holds: each `; `-separated piece
/// with an `=`, split at the first `=`; a later piece wins.
pub open spec fn header_cookies(pieces: Seq<Seq<char>>) -> Map<Seq<char>, Seq<char>>
    decreases pieces.len(),
{
    if pieces.len() == 0 {
        Map::empty()
    } else {
        let m = header_cookies(pieces.drop_last());
        match split_once(pieces.last(), '=') {
            Some((k, v)) => m.insert(k, v),
            None => m,
        }
    }
}

/// The cookies of a stored header, merged with newly set ones (new values
/// win) — what is saved after an authenticated response.
pub open spec fn merged_cookies(
    existing: Option<Seq<char>>,
    fresh: Map<Seq<char>, Seq<char>>,
) -> Map<Seq<char>, Seq<char>> {
    let old_map = match existing {
        Some(h) => header_cookies(split_text(h, "; "@)),
        None => Map::empty(),
    };
    old_map.union_prefer_right(fresh)
}

/// After a response, each cookie it set takes its new value, a stored cookie
/// it did not set keeps its stored value, and with nothing stored the result
/// is exactly what it set.
pub proof fn lemma_fresh_cookies_win(
    existing: Option<Seq<char>>,
    fresh: Map<Seq<char>, Seq<char>>,
    k: Seq<char>,
)
    ensures
        fresh.dom().contains(k) ==> merged_cookies(existing, fresh).dom().contains(k)
            && merged_cookies(existing, fresh)[k] == fresh[k],
        merged_cookies(None, fresh) == fresh,
        ({
            let stored = match existing {
                Some(h) => header_cookies(split_text(h, "; "@)),
                None => Map::empty(),
            };
            !fresh.dom().contains(k) ==> (merged_cookies(existing, fresh).dom().contains(k)
                == stored.dom().contains(k) && (stored.dom().contains(k) ==> merged_cookies(
                existing,
                fresh,
            )[k] == stored[k]))
        }),
{
    assert(merged_cookies(None, fresh) =~= fresh);
}

fn split_header(h: &str) -> (r: Vec<String>)
    ensures
        string_views(r@) == split_text(h@, "; "@),
{
    let v = to_chars(h);
    let n = v.len();
    let sep: [char; 2] = [';', ' '];
    proof {
        reveal_strlit("; ");
    }
    assert(sep@ =~= "; "@);
    let mut out: Vec<String> = Vec::new();
    let mut pos: usize = 0;
    assert(v@.subrange(0, n as int) =~= v@);
    loop
        invariant
            n == v@.len(),
            v@ == h@,
            pos <= n,
            sep@ == "; "@,
            "; "@.len() == 2,
            split_text(h@, "; "@) == string_views(out@) + split_text(
                v@.subrange(pos as int, n as int),
                "; "@,
            ),
        decreases n - pos,
    {
        let ghost rest = v@.subrange(pos as int, n as int);
        proof {
            lemma_find_shift(v@, "; "@, pos as int, 0);
            lemma_find_from_facts(rest, "; "@, 0);
        }
        match find_exec(v.as_slice(), &sep, pos) {
            Some(i) => {
                let piece = from_chars_range(v.as_slice(), pos, i);
                proof {
                    let ri = i - pos;
                    assert(rest.subrange(0, ri) =~= piece@);
                    assert(rest.subrange(ri + 2, rest.len() as int) =~= v@.subrange(
                        i + 2,
                        n as int,
                    ));
                }
                let ghost before = string_views(out@);
                out.push(piece);
                assert(string_views(out@) =~= before.push(piece@));
                pos = i + 2;
            },
            None => {
                let piece = from_chars_range(v.as_slice(), pos, n);
                let ghost before = string_views(out@);
                out.push(piece);
                assert(piece@ =~= rest);
                assert(split_text(rest, "; "@) == seq![rest]);
                assert(string_views(out@) =~= before + seq![rest]);
                return out;
            },
        }
    }
}

fn split_once_eq(s: &str) -> (r: Option<(String, String)>)
    ensures
        match r {
            Some((a, b)) => split_once(s@, '=') == Some((a@, b@)),
            None => split_once(s@, '=') is None,
        },
{
    let v = to_chars(s);
    let n = v.len();
    match first_index_of(&v, '=') {
        Some(i) => Some((from_chars_range(v.as_slice(), 0, i), from_chars_range(v.as_slice(), i + 1, n))),
        None => None,
    }
}

/// Merges the cookies a response newly set into those of the stored
/// header; the result is what gets saved.
pub fn merge_cookies(existing: Option<&str>, fresh: &Vec<(String, String)>) -> (r: Vec<(String, String)>)
    ensures
        cookie_map(r@) == merged_cookies(
            match existing {
                Some(h) => Some(h@),
                None => None,
            },
            cookie_map(fresh@),
        ),
        distinct_names(r@),
{
    let mut out: Vec<(String, String)> = Vec::new();
    let ghost base: Map<Seq<char>, Seq<char>>;
    if let Some(h) = existing {
        let pieces = split_header(h);
        let mut i: usize = 0;
        while i < pieces.len()
            invariant
                i <= pieces@.len(),
                cookie_map(out@) == header_cookies(string_views(pieces@.take(i as int))),
                distinct_names(out@),
            decreases pieces@.len() - i,
        {
            proof {
                let t = string_views(pieces@.take(i + 1));
                assert(t.drop_last() =~= string_views(pieces@.take(i as int)));
                assert(t.last() == pieces@[i as int]@);
            }
            match split_once_eq(pieces[i].as_str()) {
                Some((k, v)) => {
                    out = cookie_insert(out, k, v);
                },
                None => {},
            }
            i += 1;
        }
        assert(pieces@.take(pieces@.len() as int) =~= pieces@);
        proof {
            base = header_cookies(split_text(h@, "; "@));
        }
    } else {
        proof {
            base = Map::empty();
            assert(cookie_map(out@) =~= Map::<Seq<char>, Seq<char>>::empty());
        }
    }
    let mut j: usize = 0;
    while j < fresh.len()
        invariant
            j <= fresh@.len(),
            cookie_map(out@) == base.union_prefer_right(cookie_map(fresh@.take(j as int))),
            distinct_names(out@),
        decreases fresh@.len() - j,
    {
        let k = fresh[j].0.clone();
        let v = fresh[j].1.clone();
        out = cookie_insert(out, k, v);
        proof {
            assert(pair_views(fresh@.take(j + 1)).drop_last() =~= pair_views(fresh@.take(j as int)));
            assert(pair_views(fresh@.take(j + 1)).last() == (fresh@[j as int].0@, fresh@[j as int].1@));
            assert(base.union_prefer_right(cookie_map(fresh@.take(j + 1))) =~= base.union_prefer_right(
                cookie_map(fresh@.take(j as int)),
            ).insert(fresh@[j as int].0@, fresh@[j as int].1@));
        }
        j += 1;
    }
    assert(fresh@.take(fresh@.len() as int) =~= fresh@);
    out
}

/* ------------------------------ the stored cookie blob ------------------------------ */

/// The JSON object text serde_json writes for a string map (keys in sorted
/// order).
pub uninterp spec fn json_object_text(m: Map<Seq<char>, Seq<char>>) -> Seq<char>;

/// What serde_json reads from a text as a string-to-string map; none when the
/// text is not such an object.
pub uninterp spec fn json_object_value(text: Seq<char>) -> Option<Map<Seq<char>, Seq<char>>>;

/// `serde_json::to_string` of the pairs as a sorted map; serde_json reads
/// the text back as the same map.
#[verifier::external_body]
pub(crate) fn cookies_to_json(pairs: &Vec<(String, String)>) -> (r: String)
    requires
        distinct_names(pairs@),
    ensures
        r@ == json_object_text(cookie_map(pairs@)),
        json_object_value(r@) == Some(cookie_map(pairs@)),
{
    let map: std::collections::BTreeMap<&str, &str> = pairs.iter().map(|(k, v)| (k.as_str(), v.as_str())).collect();
    serde_json::to_string(&map).unwrap_or_default()
}

/// `serde_json::from_str::<HashMap<String, String>>`, as a list of pairs in
/// the map's iteration order.
#[verifier::external_body]
pub(crate) fn cookies_from_json(text: &str) -> (r: Option<Vec<(String, String)>>)
    ensures
        match r {
            Some(v) => json_object_value(text@) == Some(cookie_map(v@)) && distinct_names(v@),
            None => json_object_value(text@) is None,
        },
{
    match serde_json::from_str::<std::collections::HashMap<String, String>>(text) {
        Ok(m) => Some(m.into_iter().collect()),
        Err(_) => None,
    }
}

/// A `Cookie` header made of the decrypted cookie blob's JSON: none when the blob is not a JSON map or the map is
/// empty; otherwise every cookie once, as `name=value`, joined by `; `.
pub fn stored_cookie_header(plain_json: &str) -> (r: Option<String>)
    ensures
        match json_object_value(plain_json@) {
            None => r is None,
            Some(m) => if m.len() == 0 {
                r is None
            } else {
                r matches Some(h) && exists|v: Seq<(String, String)>|
                    distinct_names(v) && cookie_map(v) == m && h@ == header_text(pair_views(v))
            },
        },
{
    match cookies_from_json(plain_json) {
        None => None,
        Some(pairs) => {
            proof {
                lemma_map_len(pairs@);
            }
            let r = cookie_header(&pairs);
            r
        },
    }
}

proof fn lemma_map_len(v: Seq<(String, String)>)
    requires
        distinct_names(v),
    ensures
        cookie_map(v).dom().finite(),
        cookie_map(v).len() == v.len(),
    decreases v.len(),
{
    if v.len() > 0 {
        let d = v.drop_last();
        assert(distinct_names(d)) by {
            assert forall|x: int, y: int|
                0 <= x < d.len() && 0 <= y < d.len() && x != y implies #[trigger] d[x].0@
                != #[trigger] d[y].0@ by {
                assert(d[x] == v[x] && d[y] == v[y]);
            }
        }
        lemma_map_len(d);
        assert(pair_views(v).drop_last() =~= pair_views(d));
        assert(!cookie_map(d).dom().contains(v.last().0@)) by {
            lemma_map_keys(d);
            if cookie_map(d).dom().contains(v.last().0@) {
                let j = choose|j: int| 0 <= j < d.len() && #[trigger] d[j].0@ == v.last().0@;
                assert(d[j] == v[j]);
            }
        }
    } else {
        assert(cookie_map(v) =~= Map::<Seq<char>, Seq<char>>::empty());
    }
}

proof fn lemma_map_keys(v: Seq<(String, String)>)
    ensures
        forall|k: Seq<char>|
            #[trigger] cookie_map(v).dom().contains(k) ==> exists|j: int|
                0 <= j < v.len() && #[trigger] v[j].0@ == k,
    decreases v.len(),
{
    if v.len() > 0 {
        let d = v.drop_last();
        lemma_map_keys(d);
        assert(pair_views(v).drop_last() =~= pair_views(d));
        assert(cookie_map(v) == cookie_map(d).insert(v.last().0@, v.last().1@));
        assert forall|k: Seq<char>| #[trigger] cookie_map(v).dom().contains(k) implies exists|j: int|
            0 <= j < v.len() && #[trigger] v[j].0@ == k by {
            if k == v.last().0@ {
                assert(v[v.len() - 1].0@ == k);
            } else {
                let j = choose|j: int| 0 <= j < d.len() && #[trigger] d[j].0@ == k;
                assert(v[j] == d[j]);
            }
        }
    }
}

/// The encrypted blob to store for a cookie list: none for an empty list
/// (nothing is stored then), else the encryption of its JSON text.
pub fn cookie_blob(key: &[u8], pairs: &Vec<(String, String)>) -> (r: Option<String>)
    requires
        key@.len() == 32,
        distinct_names(pairs@),
        crate::crypto::encryptable(json_object_text(cookie_map(pairs@))),
    ensures
        pairs@.len() == 0 ==> r is None,
        pairs@.len() > 0 ==> (r matches Some(b) && crate::crypto::spec_decrypt(key@, b@)
            == Ok::<Seq<char>, Seq<char>>(json_object_text(cookie_map(pairs@)))
            && crate::crypto::decryptable(b@) && blob_cookies(key@, b@) == Some(
            cookie_map(pairs@),
        )),
{
    if pairs.len() == 0 {
        return None;
    }
    let json = cookies_to_json(pairs);
    proof {
        lemma_map_len(pairs@);
    }
    Some(crate::crypto::encrypt(key, json.as_str()))
}

/// The cookies a stored blob holds: none when it does not decrypt, is not a
/// JSON map, or the map is empty.
pub open spec fn blob_cookies(key: Seq<u8>, blob: Seq<char>) -> Option<Map<Seq<char>, Seq<char>>> {
    match crate::crypto::spec_decrypt(key, blob) {
        Ok(t) => match json_object_value(t) {
            Some(m) => if m.len() > 0 {
                Some(m)
            } else {
                None
            },
            None => None,
        },
        Err(_) => None,
    }
}

/// The `Cookie` header for the encrypted cookie blob of the account row:
/// none inside when the blob holds no
/// cookies; none at all when its nonce is not 12 bytes long.
pub fn stored_header_from_blob(key: &[u8], blob: &str) -> (r: Option<Option<String>>)
    requires
        key@.len() == 32,
    ensures
        !crate::crypto::decryptable(blob@) ==> r is None,
        crate::crypto::decryptable(blob@) ==> (r matches Some(h) && match blob_cookies(
            key@,
            blob@,
        ) {
            None => h is None,
            Some(m) => h matches Some(x) && exists|v: Seq<(String, String)>|
                distinct_names(v) && cookie_map(v) == m && x@ == header_text(pair_views(v)),
        }),
{
    match crate::crypto::try_decrypt(key, blob) {
        None => None,
        Some(Err(_)) => Some(None),
        Some(Ok(plain)) => Some(stored_cookie_header(plain.as_str())),
    }
}

/// `cookie_blob` for any cookie list: none when the list's JSON text is too
/// long for the cipher (over 2^36 bytes).
pub fn try_cookie_blob(key: &[u8], pairs: &Vec<(String, String)>) -> (r: Option<Option<String>>)
    requires
        key@.len() == 32,
        distinct_names(pairs@),
    ensures
        !crate::crypto::encryptable(json_object_text(cookie_map(pairs@))) ==> r is None,
        crate::crypto::encryptable(json_object_text(cookie_map(pairs@))) ==> (r matches Some(b)
            && (pairs@.len() == 0 ==> b is None) && (pairs@.len() > 0 ==> (b matches Some(x)
            && crate::crypto::spec_decrypt(key@, x@) == Ok::<Seq<char>, Seq<char>>(
            json_object_text(cookie_map(pairs@)),
        ) && crate::crypto::decryptable(x@) && blob_cookies(key@, x@) == Some(
            cookie_map(pairs@),
        )))),
{
    let json = cookies_to_json(pairs);
    if json.as_str().as_bytes().len() as u64 > 0x10_0000_0000u64 {
        return None;
    }
    Some(cookie_blob(key, pairs))
}

} // verus!
