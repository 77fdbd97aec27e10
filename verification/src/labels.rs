//! The texts the pages show: filter summaries, music links, job reports,
//! the update title, and the sign-in form's check.
use vstd::prelude::*;

use crate::models::{SyncProgress, SyncResult};
use crate::text::{decimal, join, join_strings, owned, push_decimal, push_str, string_views, trim, trimmed};

verus! {

/// `label` followed by the trimmed text, when the text is not blank.
pub open spec fn labelled(label: Seq<char>, text: Seq<char>) -> Seq<Seq<char>> {
    if trim(text).len() == 0 {
        Seq::empty()
    } else {
        seq![label + trim(text)]
    }
}

/// The browse page's subtitle: the tag, model and creator filters in effect,
/// joined by " · ", or an invitation when there are none.
pub open spec fn spec_browse_summary(tags: Seq<char>, stars: Seq<char>, creator: Seq<char>) -> Seq<
    char,
> {
    let parts = labelled("tags: "@, tags) + labelled("models: "@, stars) + labelled(
        "creator: "@,
        creator,
    );
    if parts.len() == 0 {
        "Explore the catalog"@
    } else {
        join(parts, " · "@)
    }
}

fn push_labelled(parts: &mut Vec<String>, label: &str, text: &str)
    ensures
        string_views(final(parts)@) == string_views(old(parts)@) + labelled(label@, text@),
{
    let t = trimmed(text);
    if t.as_str().is_empty() {
        assert(string_views(parts@) =~= string_views(parts@) + Seq::<Seq<char>>::empty());
        return;
    }
    let mut piece = owned(label);
    push_str(&mut piece, t.as_str());
    let ghost before = string_views(parts@);
    parts.push(piece);
    assert(string_views(parts@) =~= before + seq![label@ + trim(text@)]);
}

pub fn browse_summary(tags: &str, stars: &str, creator: &str) -> (r: String)
    ensures
        r@ == spec_browse_summary(tags@, stars@, creator@),
{
    let mut parts: Vec<String> = Vec::new();
    assert(string_views(parts@) =~= Seq::<Seq<char>>::empty());
    push_labelled(&mut parts, "tags: ", tags);
    push_labelled(&mut parts, "models: ", stars);
    push_labelled(&mut parts, "creator: ", creator);
    assert(string_views(parts@) =~= labelled("tags: "@, tags@) + labelled("models: "@, stars@)
        + labelled("creator: "@, creator@));
    if parts.len() == 0 {
        owned("Explore the catalog")
    } else {
        join_strings(&parts, " · ")
    }
}

/// How a music track is shown: "artist — song", or whichever is present.
pub open spec fn spec_music_label(artist: Seq<char>, song: Seq<char>) -> Seq<char> {
    if artist.len() == 0 {
        song
    } else if song.len() == 0 {
        artist
    } else {
        artist + " — "@ + song
    }
}

pub fn music_label(artist: &str, song: &str) -> (r: String)
    ensures
        r@ == spec_music_label(artist@, song@),
{
    if artist.is_empty() {
        owned(song)
    } else if song.is_empty() {
        owned(artist)
    } else {
        let mut s = owned(artist);
        push_str(&mut s, " — ");
        push_str(&mut s, song);
        s
    }
}

/// The music search a track links to: "artist - song", or whichever is
/// present.
pub open spec fn spec_music_query(artist: Seq<char>, song: Seq<char>) -> Seq<char> {
    if artist.len() > 0 && song.len() > 0 {
        artist + " - "@ + song
    } else if artist.len() > 0 {
        artist
    } else {
        song
    }
}

pub fn music_query(artist: &str, song: &str) -> (r: String)
    ensures
        r@ == spec_music_query(artist@, song@),
{
    if !artist.is_empty() && !song.is_empty() {
        let mut s = owned(artist);
        push_str(&mut s, " - ");
        push_str(&mut s, song);
        s
    } else if !artist.is_empty() {
        owned(artist)
    } else {
        owned(song)
    }
}

/// The update prompt's title: the release name, else "PMVHeaven {version}".
pub fn update_title(name: Option<&str>, version: &str) -> (r: String)
    ensures
        r@ == match name {
            Some(n) => n@,
            None => "PMVHeaven "@ + version@,
        },
{
    match name {
        Some(n) => owned(n),
        None => {
            let mut s = owned("PMVHeaven ");
            push_str(&mut s, version);
            s
        },
    }
}

/// The report after pulling the remote history.
pub open spec fn spec_pull_message(r: SyncResult) -> Seq<char> {
    "Pull "@ + r.status@ + " — +"@ + decimal(r.new_count as nat) + " new, "@ + decimal(
        r.seen_count as nat,
    ) + " seen"@
}

pub fn pull_message(r: &SyncResult) -> (m: String)
    ensures
        m@ == spec_pull_message(*r),
{
    let mut s = owned("Pull ");
    push_str(&mut s, r.status.as_str());
    push_str(&mut s, " — +");
    push_decimal(&mut s, r.new_count);
    push_str(&mut s, " new, ");
    push_decimal(&mut s, r.seen_count);
    push_str(&mut s, " seen");
    s
}

/// The report after pushing the local history: its own message, else
/// "Push {status} — {n} uploaded".
pub open spec fn spec_push_message(r: SyncResult) -> Seq<char> {
    match r.message {
        Some(m) => m@,
        None => "Push "@ + r.status@ + " — "@ + decimal(r.new_count as nat) + " uploaded"@,
    }
}

pub fn push_message(r: &SyncResult) -> (m: String)
    ensures
        m@ == spec_push_message(*r),
{
    match &r.message {
        Some(m) => m.clone(),
        None => {
            let mut s = owned("Push ");
            push_str(&mut s, r.status.as_str());
            push_str(&mut s, " — ");
            push_decimal(&mut s, r.new_count);
            push_str(&mut s, " uploaded");
            s
        },
    }
}

/// The report after "Sync history now": "{status} (+{n} new)".
pub open spec fn spec_sync_now_message(r: SyncResult) -> Seq<char> {
    r.status@ + " (+"@ + decimal(r.new_count as nat) + " new)"@
}

pub fn sync_now_message(r: &SyncResult) -> (m: String)
    ensures
        m@ == spec_sync_now_message(*r),
{
    let mut s = r.status.clone();
    push_str(&mut s, " (+");
    push_decimal(&mut s, r.new_count);
    push_str(&mut s, " new)");
    s
}

/// A running job's progress line: "{phase} ({processed}/{total}) {message}".
pub open spec fn spec_progress_line(p: SyncProgress) -> Seq<char> {
    p.phase@ + " ("@ + decimal(p.processed as nat) + "/"@ + decimal(p.total as nat) + ") "@
        + match p.message {
        Some(m) => m@,
        None => Seq::empty(),
    }
}

pub fn progress_line(p: &SyncProgress) -> (m: String)
    ensures
        m@ == spec_progress_line(*p),
{
    let mut s = p.phase.clone();
    push_str(&mut s, " (");
    push_decimal(&mut s, p.processed);
    push_str(&mut s, "/");
    push_decimal(&mut s, p.total);
    push_str(&mut s, ") ");
    match &p.message {
        Some(m) => push_str(&mut s, m.as_str()),
        None => {},
    }
    s
}

/// The sign-in form: the trimmed e-mail, or the error shown when the e-mail
/// or the password is missing.
pub fn sign_in_email(email: &str, password: &str) -> (r: Result<String, String>)
    ensures
        (trim(email@).len() == 0 || password@.len() == 0) ==> (r matches Err(e) && e@
            == "Email and password are required"@),
        !(trim(email@).len() == 0 || password@.len() == 0) ==> (r matches Ok(e) && e@ == trim(
            email@,
        )),
{
    let em = trimmed(email);
    if em.as_str().is_empty() || password.is_empty() {
        return Err(owned("Email and password are required"));
    }
    Ok(em)
}

} // verus!
