use pmvheaven::proxy::{
    is_allowed, is_playlist, may_proxy, proxied_url, proxy_target, rewrite_playlist, ProxyTarget,
};
use pmvheaven::repo::{history_offset, watched_at_millis, watched_at_text, Bucket};
use pmvheaven::updates::{
    parse_tag_version, prefer_asset, release_update, tag_version, GhAsset, GhRelease, Os,
};

const PROXY: &str = "http://127.0.0.1:38111";

#[test]
fn proxied_urls() {
    assert_eq!(
        proxied_url(PROXY, "https://x.pmvhaven.com/a b.mp4?t=1&u=2"),
        "http://127.0.0.1:38111/stream?url=https%3A%2F%2Fx.pmvhaven.com%2Fa+b.mp4%3Ft%3D1%26u%3D2"
    );
    assert_eq!(proxied_url("", "https://x"), "");
    assert_eq!(proxied_url(PROXY, ""), "");
}

#[test]
fn allowed_hosts() {
    assert!(is_allowed("pmvhaven.com"));
    assert!(is_allowed("cdn.PMVHaven.com"));
    assert!(is_allowed("bucket.io.cloud.ovh.net"));
    assert!(is_allowed("abc.r2.cloudflarestorage.com"));
    assert!(!is_allowed("evilpmvhaven.com"));
    assert!(!is_allowed("pmvhaven.com.evil.org"));
    assert!(is_allowed("PMVHAVEN.COM"));
    assert!(!is_allowed("example.com"));
    assert!(!is_allowed("r2.cloudflarestorage.com"));
    assert!(!is_allowed(""));
}

#[test]
fn playlists() {
    assert!(is_playlist("https://x/a.m3u8?token=1", None));
    assert!(is_playlist("https://x/a.ts", Some("application/vnd.apple.mpegurl")));
    assert!(!is_playlist("https://x/a.ts?f=.m3u8", None));
    assert!(!is_playlist("https://x/a.mp4", Some("video/mp4")));
}

#[test]
fn playlist_entries_point_at_the_proxy() {
    let text = "#EXTM3U\n#EXT-X-KEY:METHOD=AES-128,URI=\"key.bin\"\nseg0.ts\n\n  https://cdn.pmvhaven.com/abs.ts  \n";
    let out = rewrite_playlist(text, "https://a.pmvhaven.com/v/master.m3u8", PROXY);
    let expected = [
        "#EXTM3U",
        "#EXT-X-KEY:METHOD=AES-128,URI=\"http://127.0.0.1:38111/stream?url=https%3A%2F%2Fa.pmvhaven.com%2Fv%2Fkey.bin\"",
        "http://127.0.0.1:38111/stream?url=https%3A%2F%2Fa.pmvhaven.com%2Fv%2Fseg0.ts",
        "",
        "http://127.0.0.1:38111/stream?url=https%3A%2F%2Fcdn.pmvhaven.com%2Fabs.ts",
    ]
    .join("\n");
    assert_eq!(out, expected);
}

#[test]
fn playlist_edge_cases() {
    assert_eq!(rewrite_playlist("", "https://a/b.m3u8", PROXY), "");
    assert_eq!(
        rewrite_playlist("#X:URI=\"open", "https://a/b.m3u8", PROXY),
        "#X:URI=\"open"
    );
    assert_eq!(
        rewrite_playlist("seg.ts\r\n", "not a url", PROXY),
        "http://127.0.0.1:38111/stream?url=seg.ts"
    );
}

fn asset(name: &str) -> GhAsset {
    GhAsset { name: name.to_string(), browser_download_url: format!("https://dl/{name}") }
}

fn release(tag: &str, assets: Vec<GhAsset>) -> GhRelease {
    GhRelease {
        tag_name: tag.to_string(),
        html_url: "https://github.com/r/releases/tag/x".to_string(),
        name: Some("Release".to_string()),
        draft: false,
        prerelease: false,
        assets,
    }
}

#[test]
fn tag_versions() {
    assert_eq!(parse_tag_version(" v1.2.3 ").as_deref(), Some("1.2.3"));
    assert_eq!(parse_tag_version("vv2.0.0").as_deref(), Some("2.0.0"));
    assert_eq!(parse_tag_version("1.2"), None);
    assert_eq!(parse_tag_version("release-1"), None);
    assert_eq!(tag_version("v0.3.0-beta.1").as_deref(), Some("0.3.0-beta.1"));
}

#[test]
fn preferred_linux_asset() {
    let assets = vec![asset("app.exe"), asset("app-linux.tar.gz"), asset("app.AppImage"), asset("app.flatpak")];
    assert_eq!(prefer_asset(&assets, Os::Linux).unwrap().name, "app.flatpak");
    assert_eq!(prefer_asset(&assets[..3], Os::Linux).unwrap().name, "app.AppImage");
    assert_eq!(prefer_asset(&assets[..2], Os::Linux).unwrap().name, "app-linux.tar.gz");
    assert!(prefer_asset(&assets[..1], Os::Linux).is_none());
}

#[test]
fn offered_updates() {
    let r = release("v1.3.0", vec![asset("x.AppImage")]);
    let u = release_update("1.2.0", &r, None, Os::Linux).unwrap();
    assert_eq!(u.version, "1.3.0");
    assert_eq!(u.download_url, "https://dl/x.AppImage");
    assert_eq!(u.html_url, r.html_url);
    assert_eq!(u.name.as_deref(), Some("Release"));
    assert!(release_update("1.3.0", &r, None, Os::Linux).is_none());
    assert!(release_update("1.4.0", &r, None, Os::Linux).is_none());
    assert!(release_update("1.2.0", &r, Some("1.3.0"), Os::Linux).is_none());
    assert!(release_update("1.2.0", &r, Some("1.2.9"), Os::Linux).is_some());
    assert!(release_update("dev", &r, None, Os::Linux).is_none());
    let mut d = release("v9.0.0", vec![]);
    d.draft = true;
    assert!(release_update("1.0.0", &d, None, Os::Linux).is_none());
    let p = GhRelease { prerelease: true, ..release("v9.0.0", vec![]) };
    assert!(release_update("1.0.0", &p, None, Os::Linux).is_none());
    let plain = release("v2.0.0", vec![asset("x.exe")]);
    assert_eq!(release_update("1.0.0", &plain, None, Os::Linux).unwrap().download_url, plain.html_url);
    assert!(release_update("1.0.0-rc.1", &release("1.0.0", vec![]), None, Os::Linux).is_some());
}

#[test]
fn history_paging() {
    assert_eq!(history_offset(0, 50), 0);
    assert_eq!(history_offset(1, 50), 0);
    assert_eq!(history_offset(3, 50), 100);
    assert_eq!(history_offset(u32::MAX, u32::MAX), (u32::MAX as u64 - 1) * u32::MAX as u64);
}

#[test]
fn watch_times() {
    assert_eq!(watched_at_millis("2024-01-08T00:00:00Z"), 1_704_672_000_000);
    assert_eq!(watched_at_millis("2024-01-08T01:00:00.250+01:00"), 1_704_672_000_250);
    let now = watched_at_millis("yesterday");
    assert!(now > 1_704_672_000_000);
    assert_eq!(watched_at_text(1_704_672_000_000), "2024-01-08T00:00:00+00:00");
    assert_eq!(watched_at_text(1_704_672_000_123), "2024-01-08T00:00:00.123+00:00");
    assert_eq!(watched_at_text(i64::MAX), "");
}

#[test]
fn bucket_tables() {
    assert_eq!(Bucket::Favorites.table(), "favorites");
    assert_eq!(Bucket::WatchLater.table(), "watch_later");
    assert!(Bucket::Favorites != Bucket::WatchLater);
}

#[test]
fn proxy_guard() {
    assert!(may_proxy("https", "cdn.pmvhaven.com"));
    assert!(!may_proxy("http", "cdn.pmvhaven.com"));
    assert!(!may_proxy("https", "169.254.169.254"));
    assert!(!may_proxy("HTTPS", "pmvhaven.com"));
}

#[test]
fn proxy_targets() {
    assert!(matches!(proxy_target("https://evilpmvhaven.com/x.m3u8"), ProxyTarget::Forbidden));
    assert!(matches!(proxy_target("http://pmvhaven.com/x"), ProxyTarget::Forbidden));
    assert!(matches!(proxy_target("not a url"), ProxyTarget::Invalid));
    assert!(matches!(proxy_target("https://169.254.169.254/latest"), ProxyTarget::Forbidden));
    match proxy_target("https://CDN.PMVHaven.com/a.m3u8?x=1") {
        ProxyTarget::Allowed(u) => assert_eq!(u, "https://cdn.pmvhaven.com/a.m3u8?x=1"),
        _ => panic!("expected an allowed target"),
    }
    match proxy_target("https://pmvhaven.com") {
        ProxyTarget::Allowed(u) => assert_eq!(u, "https://pmvhaven.com/"),
        _ => panic!("expected an allowed target"),
    }
}

#[test]
fn preferred_windows_and_other_assets() {
    let assets = vec![
        asset("app.tar.gz"),
        asset("App.MSI"),
        asset("App.EXE"),
        asset("PMVHeaven-Setup.exe"),
    ];
    assert_eq!(prefer_asset(&assets, Os::Windows).unwrap().name, "PMVHeaven-Setup.exe");
    assert_eq!(prefer_asset(&assets[..3], Os::Windows).unwrap().name, "App.EXE");
    assert_eq!(prefer_asset(&assets[..2], Os::Windows).unwrap().name, "App.MSI");
    assert!(prefer_asset(&assets[..1], Os::Windows).is_none());
    let inst = vec![asset("x.exe"), asset("my_INSTALLER.Exe")];
    assert_eq!(prefer_asset(&inst, Os::Windows).unwrap().name, "my_INSTALLER.Exe");
    assert!(prefer_asset(&assets, Os::Other).is_none());
    let r = release("v9.0.0", vec![asset("x.flatpak")]);
    assert_eq!(release_update("1.0.0", &r, None, Os::Other).unwrap().download_url, r.html_url);
}
