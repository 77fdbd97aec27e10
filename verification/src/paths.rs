//! Where the application keeps its files. Paths are text here; looking at
//! the file system (which candidates exist) is the application's business.
use vstd::prelude::*;

use crate::text::{owned, push_char, push_str, to_chars};

verus! {

/// How paths are written on the platform.
#[derive(Clone, Copy, PartialEq, Eq, Structural)]
pub enum PathStyle {
    /// `/`-separated.
    Unix,
    /// `\`-separated, `/` also read as a separator, drive prefixes such as `C:`.
    Windows,
}

/// A separator on Windows.
pub open spec fn win_sep(c: char) -> bool {
    c == '\\' || c == '/'
}

/// A bare drive prefix such as `C:`.
pub open spec fn drive_only(b: Seq<char>) -> bool {
    b.len() == 2 && b[1] == ':' && (('a' <= b[0] && b[0] <= 'z') || ('A' <= b[0] && b[0] <= 'Z'))
}

/// `base` joined with the relative `name`, as `PathBuf::join` does. On Unix a
/// separator is added unless `base` is empty or already ends with one, and
/// an absolute `name` replaces `base`. On Windows (for a `name` with neither
/// root nor drive, as every name joined here is) a `\` is added unless `base`
/// is empty, ends with a separator, or is a bare drive.
pub open spec fn path_join(base: Seq<char>, name: Seq<char>, style: PathStyle) -> Seq<char> {
    match style {
        PathStyle::Unix => if name.len() > 0 && name[0] == '/' {
            name
        } else if base.len() == 0 {
            name
        } else if base.last() == '/' {
            base + name
        } else {
            base + seq!['/'] + name
        },
        PathStyle::Windows => if base.len() == 0 || win_sep(base.last()) || drive_only(base) {
            base + name
        } else {
            base + seq!['\\'] + name
        },
    }
}

fn is_drive_letter(c: char) -> (r: bool)
    ensures
        r == (('a' <= c && c <= 'z') || ('A' <= c && c <= 'Z')),
{
    ('a' <= c && c <= 'z') || ('A' <= c && c <= 'Z')
}

pub(crate) fn join_path(base: &str, name: &str, style: PathStyle) -> (r: String)
    ensures
        r@ == path_join(base@, name@, style),
{
    let bb = to_chars(base);
    match style {
        PathStyle::Unix => {
            let nb = to_chars(name);
            if nb.len() > 0 && nb[0] == '/' {
                return owned(name);
            }
            if bb.len() == 0 {
                return owned(name);
            }
            let mut s = owned(base);
            if bb[bb.len() - 1] != '/' {
                push_char(&mut s, '/');
            }
            push_str(&mut s, name);
            s
        },
        PathStyle::Windows => {
            let mut s = owned(base);
            let bare = bb.len() == 0 || bb[bb.len() - 1] == '\\' || bb[bb.len() - 1] == '/' || (
            bb.len() == 2 && bb[1] == ':' && is_drive_letter(bb[0]));
            if !bare {
                push_char(&mut s, '\\');
            }
            push_str(&mut s, name);
            s
        },
    }
}

/// The data folder under the platform data directory.
pub open spec fn candidate_dir(data_dir: Seq<char>, style: PathStyle) -> Seq<char> {
    path_join(data_dir, "com.pmvheaven.desktop"@, style)
}

/// Folders an older build of the application used.
pub open spec fn legacy_dirs(data_dir: Seq<char>, style: PathStyle) -> Seq<Seq<char>> {
    seq![path_join(data_dir, "pmvheaven"@, style), path_join(data_dir, "PMVHeaven"@, style)]
}

/// The folders whose existence decides the data folder.
pub fn app_data_candidates(data_dir: &str, style: PathStyle) -> (r: (String, Vec<String>))
    ensures
        r.0@ == candidate_dir(data_dir@, style),
        r.1@.len() == 2,
        r.1@[0]@ == legacy_dirs(data_dir@, style)[0],
        r.1@[1]@ == legacy_dirs(data_dir@, style)[1],
{
    let c = join_path(data_dir, "com.pmvheaven.desktop", style);
    let mut alts: Vec<String> = Vec::new();
    alts.push(join_path(data_dir, "pmvheaven", style));
    alts.push(join_path(data_dir, "PMVHeaven", style));
    (c, alts)
}

/// What the file system says about the candidate folders.
pub struct DirProbe {
    pub candidate_exists: bool,
    /// For each legacy folder: whether it exists.
    pub legacy_exists: Vec<bool>,
    /// For each legacy folder: whether it holds `pmvheaven.db`.
    pub legacy_has_db: Vec<bool>,
}

pub open spec fn probe_ok(p: DirProbe) -> bool {
    p.legacy_exists@.len() == 2 && p.legacy_has_db@.len() == 2
}

/// The folder used without a platform data directory: `data` under the
/// working directory.
pub open spec fn local_data_dir(style: PathStyle) -> Seq<char> {
    path_join("."@, "data"@, style)
}

/// The data folder: the candidate when it exists or no legacy folder does;
/// else the first legacy folder holding an old database; else the candidate.
/// Without a platform data directory, `data` under the working directory.
pub open spec fn spec_app_data_dir(
    data_dir: Option<Seq<char>>,
    p: DirProbe,
    style: PathStyle,
) -> Seq<char> {
    match data_dir {
        None => local_data_dir(style),
        Some(d) => {
            let c = candidate_dir(d, style);
            if p.candidate_exists || !(p.legacy_exists@[0] || p.legacy_exists@[1]) {
                c
            } else if p.legacy_has_db@[0] {
                legacy_dirs(d, style)[0]
            } else if p.legacy_has_db@[1] {
                legacy_dirs(d, style)[1]
            } else {
                c
            }
        },
    }
}

pub fn app_data_dir(data_dir: Option<&str>, probe: &DirProbe, style: PathStyle) -> (r: String)
    requires
        probe_ok(*probe),
    ensures
        r@ == spec_app_data_dir(
            match data_dir {
                Some(d) => Some(d@),
                None => None,
            },
            *probe,
            style,
        ),
{
    match data_dir {
        None => join_path(".", "data", style),
        Some(d) => {
            let (c, alts) = app_data_candidates(d, style);
            if probe.candidate_exists || !(probe.legacy_exists[0] || probe.legacy_exists[1]) {
                c
            } else if probe.legacy_has_db[0] {
                alts[0].clone()
            } else if probe.legacy_has_db[1] {
                alts[1].clone()
            } else {
                c
            }
        },
    }
}

pub fn v1_db_path(dir: &str, style: PathStyle) -> (r: String)
    ensures
        r@ == path_join(dir@, "pmvheaven.db"@, style),
{
    join_path(dir, "pmvheaven.db", style)
}

pub fn v2_db_path(dir: &str, style: PathStyle) -> (r: String)
    ensures
        r@ == path_join(dir@, "pmvheaven_v2.db"@, style),
{
    join_path(dir, "pmvheaven_v2.db", style)
}

pub fn queue_path(dir: &str, style: PathStyle) -> (r: String)
    ensures
        r@ == path_join(dir@, "queue.json"@, style),
{
    join_path(dir, "queue.json", style)
}

pub fn now_playing_path(dir: &str, style: PathStyle) -> (r: String)
    ensures
        r@ == path_join(dir@, "now_playing.json"@, style),
{
    join_path(dir, "now_playing.json", style)
}

/// The files of the old database: itself and its WAL and shared-memory
/// sidecars.
pub fn legacy_db_files(dir: &str, style: PathStyle) -> (r: Vec<String>)
    ensures
        r@.len() == 3,
        r@[0]@ == path_join(dir@, "pmvheaven.db"@, style),
        r@[1]@ == path_join(dir@, "pmvheaven.db"@, style) + "-wal"@,
        r@[2]@ == path_join(dir@, "pmvheaven.db"@, style) + "-shm"@,
{
    let base = v1_db_path(dir, style);
    let mut wal = base.clone();
    push_str(&mut wal, "-wal");
    let mut shm = base.clone();
    push_str(&mut shm, "-shm");
    let mut out: Vec<String> = Vec::new();
    out.push(base);
    out.push(wal);
    out.push(shm);
    out
}

} // verus!
