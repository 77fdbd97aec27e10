//! Graphics start-up decisions on Linux: which WebKit flags a `PMV_GFX`
//! mode sets, whether the system Wayland client library is preloaded, how
//! `LD_PRELOAD` is extended and how `ldconfig -p` names the library.
use vstd::prelude::*;

use crate::text::{
    ascii_lower, ascii_lower_exec,
    find_exec, find_from, from_chars_range, lemma_find_from_facts, lemma_find_shift, owned,
    push_str, str_eq, to_chars, trim, trimmed, contains,
};

verus! {

/// The note a mode adds to the start-up message.
pub open spec fn spec_flag_note(mode: Seq<char>) -> Seq<char> {
    if mode == "dmabuf-off"@ {
        "; DMABUF renderer disabled"@
    } else if mode == "soft"@ {
        "; DMABUF+compositing disabled"@
    } else {
        "; DMABUF left enabled"@
    }
}

pub fn webkit_flag_note(mode: &str) -> (r: &'static str)
    ensures
        r@ == spec_flag_note(mode@),
{
    if str_eq(mode, "dmabuf-off") {
        "; DMABUF renderer disabled"
    } else if str_eq(mode, "soft") {
        "; DMABUF+compositing disabled"
    } else {
        "; DMABUF left enabled"
    }
}

/// The environment variables a mode sets to "1" (each only when unset).
pub open spec fn spec_webkit_flags(mode: Seq<char>) -> Seq<Seq<char>> {
    if mode == "dmabuf-off"@ {
        seq!["WEBKIT_DISABLE_DMABUF_RENDERER"@]
    } else if mode == "soft"@ {
        seq!["WEBKIT_DISABLE_DMABUF_RENDERER"@, "WEBKIT_DISABLE_COMPOSITING_MODE"@]
    } else {
        Seq::empty()
    }
}

pub fn webkit_flags(mode: &str) -> (r: Vec<&'static str>)
    ensures
        r@.map_values(|s: &'static str| s@) == spec_webkit_flags(mode@),
{
    let mut r: Vec<&'static str> = Vec::new();
    if str_eq(mode, "dmabuf-off") {
        r.push("WEBKIT_DISABLE_DMABUF_RENDERER");
    } else if str_eq(mode, "soft") {
        r.push("WEBKIT_DISABLE_DMABUF_RENDERER");
        r.push("WEBKIT_DISABLE_COMPOSITING_MODE");
    }
    assert(r@.map_values(|s: &'static str| s@) =~= spec_webkit_flags(mode@));
    r
}

/// What each graphics mode does to WebKit: "dmabuf-off" turns the DMABUF
/// renderer off, "soft" turns off both it and compositing, and "wayland" (the
/// default), "stock" or any other mode leave both on; the start-up note says
/// which.
pub proof fn lemma_gfx_modes(other: Seq<char>)
    ensures
        spec_webkit_flags("dmabuf-off"@) == seq!["WEBKIT_DISABLE_DMABUF_RENDERER"@],
        spec_webkit_flags("soft"@) == seq![
            "WEBKIT_DISABLE_DMABUF_RENDERER"@,
            "WEBKIT_DISABLE_COMPOSITING_MODE"@,
        ],
        spec_webkit_flags("wayland"@).len() == 0,
        spec_webkit_flags("stock"@).len() == 0,
        other != "dmabuf-off"@ && other != "soft"@ ==> spec_webkit_flags(other).len() == 0,
        spec_flag_note("dmabuf-off"@) == "; DMABUF renderer disabled"@,
        spec_flag_note("soft"@) == "; DMABUF+compositing disabled"@,
        other != "dmabuf-off"@ && other != "soft"@ ==> spec_flag_note(other)
            == "; DMABUF left enabled"@,
{
    reveal_strlit("dmabuf-off");
    reveal_strlit("soft");
    reveal_strlit("wayland");
    reveal_strlit("stock");
    assert("dmabuf-off"@.len() == 10);
    assert("soft"@.len() == 4);
    assert("wayland"@.len() == 7);
    assert("stock"@.len() == 5);
}

/// std `str::eq_ignore_ascii_case`.
pub open spec fn eq_ignore_ascii_case(a: Seq<char>, b: Seq<char>) -> bool {
    a.len() == b.len() && forall|i: int| 0 <= i < a.len() ==> ascii_lower(#[trigger] a[i])
        == ascii_lower(b[i])
}

fn eq_ignore_case_exec(a: &str, b: &str) -> (r: bool)
    ensures
        r == eq_ignore_ascii_case(a@, b@),
{
    let x = to_chars(a);
    let y = to_chars(b);
    if x.len() != y.len() {
        return false;
    }
    let mut i: usize = 0;
    while i < x.len()
        invariant
            i <= x@.len() == y@.len(),
            x@ == a@ && y@ == b@,
            forall|j: int| 0 <= j < i ==> ascii_lower(#[trigger] x@[j]) == ascii_lower(y@[j]),
        decreases x@.len() - i,
    {
        if ascii_lower_exec(x[i]) != ascii_lower_exec(y[i]) {
            return false;
        }
        i += 1;
    }
    true
}

/// A Wayland session: `WAYLAND_DISPLAY` is set, or `XDG_SESSION_TYPE` is
/// "wayland" in any case.
pub fn is_wayland_session(wayland_display_set: bool, session_type: Option<&str>) -> (r: bool)
    ensures
        r == (wayland_display_set || (session_type matches Some(t) && eq_ignore_ascii_case(
            t@,
            "wayland"@,
        ))),
{
    if wayland_display_set {
        return true;
    }
    match session_type {
        Some(t) => eq_ignore_case_exec(t, "wayland"),
        None => false,
    }
}

/// What start-up does after setting the mode's flags.
pub enum GfxStep {
    /// `stock`: no fixes at all.
    Stock,
    /// Not a Wayland session: nothing to preload.
    NotWayland,
    /// This process was started with the library preloaded already.
    AlreadyPreloaded,
    /// Look for the system library and start again with it preloaded.
    FindLibrary,
}

pub fn gfx_step(mode: &str, on_wayland: bool, preloaded: bool) -> (r: GfxStep)
    ensures
        mode@ == "stock"@ ==> r is Stock,
        mode@ != "stock"@ && !on_wayland ==> r is NotWayland,
        mode@ != "stock"@ && on_wayland && preloaded ==> r is AlreadyPreloaded,
        mode@ != "stock"@ && on_wayland && !preloaded ==> r is FindLibrary,
{
    if str_eq(mode, "stock") {
        GfxStep::Stock
    } else if !on_wayland {
        GfxStep::NotWayland
    } else if preloaded {
        GfxStep::AlreadyPreloaded
    } else {
        GfxStep::FindLibrary
    }
}

/// The pieces of `s` between the `:`s.
pub open spec fn colon_pieces(s: Seq<char>) -> Seq<Seq<char>>
    decreases s.len(),
{
    match find_from(s, seq![':'], 0) {
        Some(i) => {
            proof {
                lemma_find_from_facts(s, seq![':'], 0);
            }
            seq![s.subrange(0, i)] + colon_pieces(s.subrange(i + 1, s.len() as int))
        },
        None => seq![s],
    }
}

/// `LD_PRELOAD` with `lib` in front: kept as it is when it already names
/// `lib`, `lib` alone when it is unset or empty.
pub open spec fn spec_preload_value(lib: Seq<char>, existing: Option<Seq<char>>) -> Seq<char> {
    match existing {
        Some(e) if e.len() > 0 => if colon_pieces(e).contains(lib) {
            e
        } else {
            lib + seq![':'] + e
        },
        _ => lib,
    }
}

fn names_piece(v: &Vec<char>, lib: &Vec<char>) -> (r: bool)
    ensures
        r == colon_pieces(v@).contains(lib@),
{
    let n = v.len();
    let colon: [char; 1] = [':'];
    assert(colon@ =~= seq![':']);
    let mut pos: usize = 0;
    assert(v@.subrange(0, n as int) =~= v@);
    loop
        invariant
            n == v@.len(),
            pos <= n,
            colon@ == seq![':'],
            colon_pieces(v@).contains(lib@) == colon_pieces(v@.subrange(pos as int, n as int)).contains(
                lib@,
            ),
        decreases n - pos,
    {
        let ghost rest = v@.subrange(pos as int, n as int);
        proof {
            lemma_find_shift(v@, seq![':'], pos as int, 0);
            lemma_find_from_facts(rest, seq![':'], 0);
        }
        let end = match find_exec(v.as_slice(), &colon, pos) {
            Some(i) => i,
            None => n,
        };
        let piece = from_chars_range(v.as_slice(), pos, end);
        let same = eq_chars(&piece, lib);
        proof {
            let ri = end - pos;
            assert(rest.subrange(0, ri) =~= piece@);
            if end < n {
                assert(rest.subrange(ri + 1, rest.len() as int) =~= v@.subrange(end + 1, n as int));
                assert(colon_pieces(rest) == seq![piece@] + colon_pieces(
                    v@.subrange(end + 1, n as int),
                ));
            } else {
                assert(piece@ =~= rest);
                assert(colon_pieces(rest) == seq![rest]);
            }
        }
        if same {
            proof {
                assert(colon_pieces(rest)[0] == piece@);
            }
            return true;
        }
        if end == n {
            proof {
                assert(!seq![rest].contains(lib@)) by {
                    if seq![rest].contains(lib@) {
                        assert(seq![rest][0] == rest);
                    }
                }
            }
            return false;
        }
        proof {
            let tail = v@.subrange(end + 1, n as int);
            let all = seq![piece@] + colon_pieces(tail);
            assert(all.contains(lib@) == colon_pieces(tail).contains(lib@)) by {
                if all.contains(lib@) {
                    let k = choose|k: int| 0 <= k < all.len() && all[k] == lib@;
                    if k > 0 {
                        assert(colon_pieces(tail)[k - 1] == lib@);
                    }
                }
                if colon_pieces(tail).contains(lib@) {
                    let k = choose|k: int|
                        0 <= k < colon_pieces(tail).len() && colon_pieces(tail)[k] == lib@;
                    assert(all[k + 1] == lib@);
                }
            }
        }
        pos = end + 1;
    }
}

fn eq_chars(s: &String, v: &Vec<char>) -> (r: bool)
    ensures
        r == (s@ == v@),
{
    let w = to_chars(s.as_str());
    if w.len() != v.len() {
        return false;
    }
    let mut i: usize = 0;
    while i < w.len()
        invariant
            i <= w@.len() == v@.len(),
            w@ == s@,
            forall|j: int| 0 <= j < i ==> w@[j] == v@[j],
        decreases w@.len() - i,
    {
        if w[i] != v[i] {
            return false;
        }
        i += 1;
    }
    assert(w@ =~= v@);
    true
}

pub fn preload_value(lib: &str, existing: Option<&str>) -> (r: String)
    ensures
        r@ == spec_preload_value(
            lib@,
            match existing {
                Some(e) => Some(e@),
                None => None,
            },
        ),
{
    match existing {
        Some(e) => {
            if e.is_empty() {
                return owned(lib);
            }
            let v = to_chars(e);
            let l = to_chars(lib);
            if names_piece(&v, &l) {
                owned(e)
            } else {
                let mut s = owned(lib);
                push_str(&mut s, ":");
                push_str(&mut s, e);
                proof {
                    reveal_strlit(":");
                    assert(":"@ =~= seq![':']);
                }
                s
            }
        },
        None => owned(lib),
    }
}

/// The library path on a line of `ldconfig -p` output: the text after the
/// first " => ", up to the next " => ", trimmed; only on lines that mention
/// `libwayland-client.so`.
pub open spec fn spec_ldconfig_path(line: Seq<char>) -> Option<Seq<char>> {
    if !contains(line, "libwayland-client.so"@) {
        None
    } else {
        match find_from(line, " => "@, 0) {
            Some(i) => {
                let rest = line.subrange(i + 4, line.len() as int);
                Some(
                    trim(
                        match find_from(rest, " => "@, 0) {
                            Some(j) => rest.subrange(0, j),
                            None => rest,
                        },
                    ),
                )
            },
            None => None,
        }
    }
}

pub fn ldconfig_path(line: &str) -> (r: Option<String>)
    ensures
        match r {
            Some(p) => spec_ldconfig_path(line@) == Some(p@),
            None => spec_ldconfig_path(line@) is None,
        },
{
    let v = to_chars(line);
    let n = v.len();
    let name = to_chars("libwayland-client.so");
    let arrow = to_chars(" => ");
    proof {
        lemma_find_from_facts(v@, name@, 0);
        lemma_find_from_facts(v@, arrow@, 0);
    }
    if find_exec(v.as_slice(), name.as_slice(), 0).is_none() {
        return None;
    }
    match find_exec(v.as_slice(), arrow.as_slice(), 0) {
        Some(i) => {
            proof {
                reveal_strlit(" => ");
            }
            let start = i + 4;
            let ghost rest = v@.subrange(start as int, n as int);
            proof {
                lemma_find_shift(v@, arrow@, start as int, 0);
                lemma_find_from_facts(rest, arrow@, 0);
            }
            let end = match find_exec(v.as_slice(), arrow.as_slice(), start) {
                Some(j) => j,
                None => n,
            };
            let piece = from_chars_range(v.as_slice(), start, end);
            proof {
                if end < n {
                    assert(rest.subrange(0, end - start) =~= piece@);
                } else {
                    assert(rest =~= piece@);
                }
            }
            Some(trimmed(piece.as_str()))
        },
        None => None,
    }
}

} // verus!
