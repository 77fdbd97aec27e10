//! Deciding whether a published release is an update worth offering.
//! Fetching the release from GitHub is the application's business.
use vstd::prelude::*;

use crate::models::opt_view;
use crate::text::{ascii_lower, ascii_lower_exec, contains, contains_exec, ends_with, ends_with_exec, str_eq, to_chars, trim, trimmed};

verus! {

/// A release asset.
pub struct GhAsset {
    pub name: String,
    pub browser_download_url: String,
}

/// The fields of a GitHub release the update check reads.
pub struct GhRelease {
    pub tag_name: String,
    pub html_url: String,
    pub name: Option<String>,
    pub draft: bool,
    pub prerelease: bool,
    pub assets: Vec<GhAsset>,
}

/// An update to offer.
pub struct AvailableUpdate {
    pub version: String,
    pub html_url: String,
    /// Best-effort direct asset URL for this OS; falls back to release page.
    pub download_url: String,
    pub name: Option<String>,
}

/* ---------------------------------- versions ---------------------------------- */

/// The text `semver::Version::parse(s)` gives back through `Display` (the
/// version in normal form); none when `s` is not a semantic version.
pub uninterp spec fn semver_normal(s: Seq<char>) -> Option<Seq<char>>;

/// `semver::Version::parse(s)` followed by `to_string()`.
#[verifier::external_body]
pub(crate) fn normal_version(s: &str) -> (r: Option<String>)
    ensures
        opt_view(r) == semver_normal(s@),
{
    match semver::Version::parse(s) {
        Ok(v) => Some(v.to_string()),
        Err(_) => None,
    }
}

/// Whether version `a` has at most the precedence of version `b`
/// (`Version::parse(a) <= Version::parse(b)`, semver's `Ord`).
pub uninterp spec fn semver_le(a: Seq<char>, b: Seq<char>) -> bool;

/// semver's `<=` on two versions given as text that both parse.
#[verifier::external_body]
pub(crate) fn version_le(a: &str, b: &str) -> (r: bool)
    requires
        semver_normal(a@) is Some,
        semver_normal(b@) is Some,
    ensures
        r == semver_le(a@, b@),
{
    match (semver::Version::parse(a), semver::Version::parse(b)) {
        (Ok(x), Ok(y)) => x <= y,
        _ => false,
    }
}

/// Leading `v`s removed (std `trim_start_matches('v')`).
pub open spec fn strip_v(s: Seq<char>) -> Seq<char>
    decreases s.len(),
{
    if s.len() > 0 && s[0] == 'v' {
        strip_v(s.drop_first())
    } else {
        s
    }
}

/// The version text a release tag carries: trimmed, leading `v`s dropped.
pub open spec fn tag_version_text(tag: Seq<char>) -> Seq<char> {
    strip_v(trim(tag))
}

fn strip_v_exec(s: &str) -> (r: String)
    ensures
        r@ == strip_v(s@),
{
    let v = to_chars(s);
    let n = v.len();
    let mut i: usize = 0;
    assert(v@.subrange(0, n as int) =~= v@);
    while i < n && v[i] == 'v'
        invariant
            i <= n == v@.len(),
            strip_v(v@) == strip_v(v@.subrange(i as int, n as int)),
        decreases n - i,
    {
        assert(v@.subrange(i as int, n as int).drop_first() =~= v@.subrange(i + 1, n as int));
        i += 1;
    }
    crate::text::from_chars_range(v.as_slice(), i, n)
}

/// The release tag as a version string: the text after trimming and dropping
/// leading `v`s, when it parses.
pub fn tag_version(tag: &str) -> (r: Option<String>)
    ensures
        semver_normal(tag_version_text(tag@)) is Some ==> (r matches Some(s) && s@
            == tag_version_text(tag@)),
        semver_normal(tag_version_text(tag@)) is None ==> r is None,
{
    let t = trimmed(tag);
    let s = strip_v_exec(t.as_str());
    if normal_version(s.as_str()).is_some() {
        Some(s)
    } else {
        None
    }
}

/// The version a release tag names, in normal form (`parse_tag_version`).
pub fn parse_tag_version(tag: &str) -> (r: Option<String>)
    ensures
        opt_view(r) == semver_normal(tag_version_text(tag@)),
{
    let t = trimmed(tag);
    let s = strip_v_exec(t.as_str());
    normal_version(s.as_str())
}

/* ----------------------------------- assets ----------------------------------- */

/// Index of the first asset whose name satisfies `pred`.
pub open spec fn first_asset(assets: Seq<GhAsset>, pred: spec_fn(Seq<char>) -> bool) -> Option<
    int,
>
    decreases assets.len(),
{
    if assets.len() == 0 {
        None
    } else if pred(assets[0].name@) {
        Some(0)
    } else {
        match first_asset(assets.drop_first(), pred) {
            Some(i) => Some(i + 1),
            None => None,
        }
    }
}

/// The operating system the build runs on, as far as the asset choice cares.
#[derive(Clone, Copy, PartialEq, Eq, Structural)]
pub enum Os {
    Linux,
    Windows,
    Other,
}

/// ASCII lower case of a name (std `str::to_ascii_lowercase`).
pub open spec fn ascii_lowered(s: Seq<char>) -> Seq<char> {
    s.map_values(|c: char| ascii_lower(c))
}

/// A Windows installer: an `.exe` whose name says "setup" or "installer"
/// (in any ASCII case).
pub open spec fn is_windows_installer(n: Seq<char>) -> bool {
    let l = ascii_lowered(n);
    ends_with(l, ".exe"@) && (contains(l, "setup"@) || contains(l, "installer"@))
}

/// The asset offered for download: on Linux the first Flatpak bundle, else
/// the first AppImage, else the first asset with "linux" in its name; on
/// Windows the first installer `.exe`, else the first `.exe`, else the first
/// `.msi` (names compared in ASCII lower case); elsewhere none.
pub open spec fn preferred_asset(assets: Seq<GhAsset>, os: Os) -> Option<int> {
    match os {
        Os::Linux => match first_asset(assets, |n: Seq<char>| ends_with(n, ".flatpak"@)) {
            Some(i) => Some(i),
            None => match first_asset(assets, |n: Seq<char>| ends_with(n, ".AppImage"@)) {
                Some(i) => Some(i),
                None => first_asset(assets, |n: Seq<char>| contains(n, "linux"@)),
            },
        },
        Os::Windows => match first_asset(assets, |n: Seq<char>| is_windows_installer(n)) {
            Some(i) => Some(i),
            None => match first_asset(
                assets,
                |n: Seq<char>| ends_with(ascii_lowered(n), ".exe"@),
            ) {
                Some(i) => Some(i),
                None => first_asset(assets, |n: Seq<char>| ends_with(ascii_lowered(n), ".msi"@)),
            },
        },
        Os::Other => None,
    }
}

proof fn lemma_first_asset_step(assets: Seq<GhAsset>, pred: spec_fn(Seq<char>) -> bool, i: int)
    requires
        0 <= i < assets.len(),
        forall|j: int| 0 <= j < i ==> !pred(#[trigger] assets[j].name@),
    ensures
        first_asset(assets, pred) == match first_asset(assets.subrange(i, assets.len() as int), pred) {
            Some(k) => Some(k + i),
            None => None,
        },
    decreases i,
{
    if i > 0 {
        let d = assets.drop_first();
        assert forall|j: int| 0 <= j < i - 1 implies !pred(#[trigger] d[j].name@) by {
            assert(d[j] == assets[j + 1]);
        }
        lemma_first_asset_step(d, pred, i - 1);
        assert(d.subrange(i - 1, d.len() as int) =~= assets.subrange(i, assets.len() as int));
        assert(!pred(assets[0].name@));
    } else {
        assert(assets.subrange(0, assets.len() as int) =~= assets);
    }
}

/// Which test a search for an asset applies.
#[derive(Clone, Copy)]
pub enum AssetTest {
    EndsWith(&'static str),
    Contains(&'static str),
    /// Ends with the suffix once lower-cased.
    LowerEndsWith(&'static str),
    WindowsInstaller,
}

pub open spec fn asset_test_pred(t: AssetTest) -> spec_fn(Seq<char>) -> bool {
    match t {
        AssetTest::EndsWith(p) => |n: Seq<char>| ends_with(n, p@),
        AssetTest::Contains(p) => |n: Seq<char>| contains(n, p@),
        AssetTest::LowerEndsWith(p) => |n: Seq<char>| ends_with(ascii_lowered(n), p@),
        AssetTest::WindowsInstaller => |n: Seq<char>| is_windows_installer(n),
    }
}

fn ascii_lowercase(s: &str) -> (r: String)
    ensures
        r@ == ascii_lowered(s@),
{
    let v = to_chars(s);
    let mut out = String::new();
    let mut i: usize = 0;
    while i < v.len()
        invariant
            i <= v@.len(),
            v@ == s@,
            out@ == v@.take(i as int).map_values(|c: char| ascii_lower(c)),
        decreases v@.len() - i,
    {
        crate::text::push_char(&mut out, ascii_lower_exec(v[i]));
        i += 1;
        assert(out@ =~= v@.take(i as int).map_values(|c: char| ascii_lower(c)));
    }
    assert(v@.take(v@.len() as int) =~= v@);
    out
}

fn asset_hit(name: &str, test: AssetTest) -> (r: bool)
    ensures
        r == (asset_test_pred(test))(name@),
{
    match test {
        AssetTest::EndsWith(p) => ends_with_exec(name, p),
        AssetTest::Contains(p) => contains_exec(name, p),
        AssetTest::LowerEndsWith(p) => {
            let l = ascii_lowercase(name);
            ends_with_exec(l.as_str(), p)
        },
        AssetTest::WindowsInstaller => {
            let l = ascii_lowercase(name);
            ends_with_exec(l.as_str(), ".exe") && (contains_exec(l.as_str(), "setup")
                || contains_exec(l.as_str(), "installer"))
        },
    }
}

fn find_asset(assets: &[GhAsset], test: AssetTest) -> (r: Option<usize>)
    ensures
        match r {
            Some(i) => first_asset(assets@, asset_test_pred(test)) == Some(i as int),
            None => first_asset(assets@, asset_test_pred(test)) is None,
        },
{
    let pred = Ghost(asset_test_pred(test));
    let mut i: usize = 0;
    while i < assets.len()
        invariant
            i <= assets@.len(),
            pred@ == asset_test_pred(test),
            forall|j: int| 0 <= j < i ==> !(pred@)(#[trigger] assets@[j].name@),
        decreases assets@.len() - i,
    {
        let hit = asset_hit(assets[i].name.as_str(), test);
        if hit {
            proof {
                lemma_first_asset_step(assets@, pred@, i as int);
            }
            return Some(i);
        }
        i += 1;
    }
    proof {
        lemma_first_asset_none(assets@, pred@);
    }
    None
}

proof fn lemma_first_asset_none(assets: Seq<GhAsset>, pred: spec_fn(Seq<char>) -> bool)
    requires
        forall|j: int| 0 <= j < assets.len() ==> !pred(#[trigger] assets[j].name@),
    ensures
        first_asset(assets, pred) is None,
    decreases assets.len(),
{
    if assets.len() > 0 {
        let d = assets.drop_first();
        assert forall|j: int| 0 <= j < d.len() implies !pred(#[trigger] d[j].name@) by {
            assert(d[j] == assets[j + 1]);
        }
        lemma_first_asset_none(d, pred);
        assert(!pred(assets[0].name@));
    }
}

/// The asset to download on `os`, if any.
pub fn prefer_asset(assets: &[GhAsset], os: Os) -> (r: Option<&GhAsset>)
    ensures
        match preferred_asset(assets@, os) {
            Some(i) => r matches Some(a) && *a == assets@[i],
            None => r is None,
        },
{
    match os {
        Os::Linux => {
            let x = find_asset(assets, AssetTest::EndsWith(".flatpak"));
            assert(asset_test_pred(AssetTest::EndsWith(".flatpak")) == (|n: Seq<char>| ends_with(n, ".flatpak"@)));
            if let Some(i) = x {
                proof { lemma_first_asset_facts(assets@, |n: Seq<char>| ends_with(n, ".flatpak"@)); }
                return Some(&assets[i]);
            }
            let x = find_asset(assets, AssetTest::EndsWith(".AppImage"));
            assert(asset_test_pred(AssetTest::EndsWith(".AppImage")) == (|n: Seq<char>| ends_with(n, ".AppImage"@)));
            if let Some(i) = x {
                proof { lemma_first_asset_facts(assets@, |n: Seq<char>| ends_with(n, ".AppImage"@)); }
                return Some(&assets[i]);
            }
            let x = find_asset(assets, AssetTest::Contains("linux"));
            assert(asset_test_pred(AssetTest::Contains("linux")) == (|n: Seq<char>| contains(n, "linux"@)));
            if let Some(i) = x {
                proof { lemma_first_asset_facts(assets@, |n: Seq<char>| contains(n, "linux"@)); }
                return Some(&assets[i]);
            }
        },
        Os::Windows => {
            let x = find_asset(assets, AssetTest::WindowsInstaller);
            assert(asset_test_pred(AssetTest::WindowsInstaller) == (|n: Seq<char>| is_windows_installer(n)));
            if let Some(i) = x {
                proof { lemma_first_asset_facts(assets@, |n: Seq<char>| is_windows_installer(n)); }
                return Some(&assets[i]);
            }
            let x = find_asset(assets, AssetTest::LowerEndsWith(".exe"));
            assert(asset_test_pred(AssetTest::LowerEndsWith(".exe")) == (|n: Seq<char>| ends_with(ascii_lowered(n), ".exe"@)));
            if let Some(i) = x {
                proof { lemma_first_asset_facts(assets@, |n: Seq<char>| ends_with(ascii_lowered(n), ".exe"@)); }
                return Some(&assets[i]);
            }
            let x = find_asset(assets, AssetTest::LowerEndsWith(".msi"));
            assert(asset_test_pred(AssetTest::LowerEndsWith(".msi")) == (|n: Seq<char>| ends_with(ascii_lowered(n), ".msi"@)));
            if let Some(i) = x {
                proof { lemma_first_asset_facts(assets@, |n: Seq<char>| ends_with(ascii_lowered(n), ".msi"@)); }
                return Some(&assets[i]);
            }
        },
        Os::Other => {},
    }
    None
}

proof fn lemma_first_asset_facts(assets: Seq<GhAsset>, pred: spec_fn(Seq<char>) -> bool)
    ensures
        first_asset(assets, pred) matches Some(i) ==> 0 <= i < assets.len(),
    decreases assets.len(),
{
    if assets.len() > 0 {
        lemma_first_asset_facts(assets.drop_first(), pred);
    }
}

/// Some asset's name satisfies `pred`.
pub open spec fn any_asset(assets: Seq<GhAsset>, pred: spec_fn(Seq<char>) -> bool) -> bool {
    exists|j: int| 0 <= j < assets.len() && #[trigger] pred(assets[j].name@)
}

/// `k` is the first asset whose name satisfies `pred`.
pub open spec fn first_where(
    assets: Seq<GhAsset>,
    k: Option<int>,
    pred: spec_fn(Seq<char>) -> bool,
) -> bool {
    k matches Some(i) && 0 <= i < assets.len() && pred(assets[i].name@) && forall|j: int|
        0 <= j < i ==> !#[trigger] pred(assets[j].name@)
}

proof fn lemma_first_asset_exact(assets: Seq<GhAsset>, pred: spec_fn(Seq<char>) -> bool)
    ensures
        any_asset(assets, pred) ==> first_where(assets, first_asset(assets, pred), pred),
        !any_asset(assets, pred) ==> first_asset(assets, pred) is None,
    decreases assets.len(),
{
    if assets.len() > 0 {
        let d = assets.drop_first();
        lemma_first_asset_exact(d, pred);
        if pred(assets[0].name@) {
        } else {
            if any_asset(assets, pred) {
                let j = choose|j: int| 0 <= j < assets.len() && #[trigger] pred(assets[j].name@);
                assert(d[j - 1] == assets[j]);
                let i = first_asset(d, pred)->0;
                assert forall|k: int| 0 <= k < i + 1 implies !#[trigger] pred(assets[k].name@) by {
                    if k > 0 {
                        assert(d[k - 1] == assets[k]);
                    }
                }
            } else {
                assert forall|k: int| 0 <= k < d.len() implies !#[trigger] pred(d[k].name@) by {
                    assert(d[k] == assets[k + 1]);
                }
            }
        }
    }
}

/// The asset offered for download. On Linux: the first Flatpak bundle when
/// there is one, else the first AppImage, else the first asset with "linux" in
/// its name. On Windows (names compared in lower case): the first `.exe`
/// whose name says "setup" or "installer", else the first `.exe`, else the
/// first `.msi`. When no asset qualifies, and on any other system, none.
pub proof fn lemma_asset_choice(assets: Seq<GhAsset>)
    ensures
        any_asset(assets, |n: Seq<char>| ends_with(n, ".flatpak"@)) ==> first_where(assets, preferred_asset(assets, Os::Linux), |n: Seq<char>| ends_with(n, ".flatpak"@)),
        !any_asset(assets, |n: Seq<char>| ends_with(n, ".flatpak"@)) && any_asset(assets, |n: Seq<char>| ends_with(n, ".AppImage"@)) ==> first_where(assets, preferred_asset(assets, Os::Linux), |n: Seq<char>| ends_with(n, ".AppImage"@)),
        !any_asset(assets, |n: Seq<char>| ends_with(n, ".flatpak"@)) && !any_asset(assets, |n: Seq<char>| ends_with(n, ".AppImage"@)) && any_asset(assets, |n: Seq<char>| contains(n, "linux"@)) ==> first_where(assets, preferred_asset(assets, Os::Linux), |n: Seq<char>| contains(n, "linux"@)),
        !any_asset(assets, |n: Seq<char>| ends_with(n, ".flatpak"@)) && !any_asset(assets, |n: Seq<char>| ends_with(n, ".AppImage"@)) && !any_asset(assets, |n: Seq<char>| contains(n, "linux"@)) ==> preferred_asset(assets, Os::Linux) is None,
        any_asset(assets, |n: Seq<char>| ends_with(ascii_lowered(n), ".exe"@) && (contains(ascii_lowered(n), "setup"@) || contains(ascii_lowered(n), "installer"@))) ==> first_where(assets, preferred_asset(assets, Os::Windows), |n: Seq<char>| ends_with(ascii_lowered(n), ".exe"@) && (contains(ascii_lowered(n), "setup"@) || contains(ascii_lowered(n), "installer"@))),
        !any_asset(assets, |n: Seq<char>| ends_with(ascii_lowered(n), ".exe"@) && (contains(ascii_lowered(n), "setup"@) || contains(ascii_lowered(n), "installer"@))) && any_asset(assets, |n: Seq<char>| ends_with(ascii_lowered(n), ".exe"@)) ==> first_where(assets, preferred_asset(assets, Os::Windows), |n: Seq<char>| ends_with(ascii_lowered(n), ".exe"@)),
        !any_asset(assets, |n: Seq<char>| ends_with(ascii_lowered(n), ".exe"@) && (contains(ascii_lowered(n), "setup"@) || contains(ascii_lowered(n), "installer"@))) && !any_asset(assets, |n: Seq<char>| ends_with(ascii_lowered(n), ".exe"@)) && any_asset(assets, |n: Seq<char>| ends_with(ascii_lowered(n), ".msi"@)) ==> first_where(assets, preferred_asset(assets, Os::Windows), |n: Seq<char>| ends_with(ascii_lowered(n), ".msi"@)),
        !any_asset(assets, |n: Seq<char>| ends_with(ascii_lowered(n), ".exe"@) && (contains(ascii_lowered(n), "setup"@) || contains(ascii_lowered(n), "installer"@))) && !any_asset(assets, |n: Seq<char>| ends_with(ascii_lowered(n), ".exe"@)) && !any_asset(assets, |n: Seq<char>| ends_with(ascii_lowered(n), ".msi"@)) ==> preferred_asset(assets, Os::Windows) is None,
        preferred_asset(assets, Os::Other) is None,
{
    lemma_first_asset_exact(assets, |n: Seq<char>| ends_with(n, ".flatpak"@));
    lemma_first_asset_exact(assets, |n: Seq<char>| ends_with(n, ".AppImage"@));
    lemma_first_asset_exact(assets, |n: Seq<char>| contains(n, "linux"@));
    lemma_first_asset_exact(assets, |n: Seq<char>| ends_with(ascii_lowered(n), ".exe"@) && (contains(ascii_lowered(n), "setup"@) || contains(ascii_lowered(n), "installer"@)));
    lemma_first_asset_exact(assets, |n: Seq<char>| ends_with(ascii_lowered(n), ".exe"@));
    lemma_first_asset_exact(assets, |n: Seq<char>| ends_with(ascii_lowered(n), ".msi"@));
    assert((|n: Seq<char>| is_windows_installer(n)) == (|n: Seq<char>| ends_with(ascii_lowered(n), ".exe"@) && (contains(ascii_lowered(n), "setup"@) || contains(ascii_lowered(n), "installer"@))));
}

/* -------------------------------- the decision -------------------------------- */

/// What the update check offers on `os` for a fetched release, given the
/// running version and the version the user dismissed.
pub open spec fn offered(
    current: Seq<char>,
    release: GhRelease,
    dismissed: Option<Seq<char>>,
    os: Os,
    r: Option<AvailableUpdate>,
) -> bool {
    let t = tag_version_text(release.tag_name@);
    if semver_normal(current) is None || release.draft || release.prerelease || semver_normal(
        t,
    ) is None || semver_le(t, current) || dismissed == semver_normal(t) {
        r is None
    } else {
        r matches Some(u) && {
            &&& Some(u.version@) == semver_normal(t)
            &&& u.html_url@ == release.html_url@
            &&& u.download_url@ == match preferred_asset(release.assets@, os) {
                Some(i) => release.assets@[i].browser_download_url@,
                None => release.html_url@,
            }
            &&& opt_view(u.name) == opt_view(release.name)
        }
    }
}

fn copy_opt(o: &Option<String>) -> (r: Option<String>)
    ensures
        r == *o,
{
    match o {
        Some(s) => Some(s.clone()),
        None => None,
    }
}

/// The update to offer for `release` while running version `current`:
/// none for drafts, pre-releases, unparsable tags, versions not newer than
/// `current`, or the version the user dismissed.
pub fn release_update(
    current: &str,
    release: &GhRelease,
    dismissed: Option<&str>,
    os: Os,
) -> (r: Option<AvailableUpdate>)
    ensures
        offered(current@, *release, match dismissed {
            Some(d) => Some(d@),
            None => None,
        }, os, r),
{
    if normal_version(current).is_none() {
        return None;
    }
    if release.draft || release.prerelease {
        return None;
    }
    let text = match tag_version(release.tag_name.as_str()) {
        Some(t) => t,
        None => return None,
    };
    if version_le(text.as_str(), current) {
        return None;
    }
    let version = match normal_version(text.as_str()) {
        Some(v) => v,
        None => return None,
    };
    if let Some(d) = dismissed {
        if str_eq(d, version.as_str()) {
            return None;
        }
    }
    let download_url = match prefer_asset(release.assets.as_slice(), os) {
        Some(a) => a.browser_download_url.clone(),
        None => release.html_url.clone(),
    };
    Some(
        AvailableUpdate {
            version,
            html_url: release.html_url.clone(),
            download_url,
            name: copy_opt(&release.name),
        },
    )
}

/// An update is only ever offered for a version strictly newer than the one
/// running.
pub proof fn lemma_offer_is_newer(
    current: Seq<char>,
    release: GhRelease,
    dismissed: Option<Seq<char>>,
    os: Os,
    r: Option<AvailableUpdate>,
)
    requires
        offered(current, release, dismissed, os, r),
        r is Some,
    ensures
        !semver_le(tag_version_text(release.tag_name@), current),
        !release.draft && !release.prerelease,
        dismissed != semver_normal(tag_version_text(release.tag_name@)),
{
}

} // verus!
