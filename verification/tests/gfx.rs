use pmvheaven::gfx::{
    gfx_step, is_wayland_session, ldconfig_path, preload_value, webkit_flag_note, webkit_flags,
    GfxStep,
};

const LIB: &str = "/usr/lib/libwayland-client.so.0";

#[test]
fn mode_notes_and_flags() {
    assert_eq!(webkit_flag_note("dmabuf-off"), "; DMABUF renderer disabled");
    assert_eq!(webkit_flag_note("soft"), "; DMABUF+compositing disabled");
    assert_eq!(webkit_flag_note("wayland"), "; DMABUF left enabled");
    assert_eq!(webkit_flags("dmabuf-off"), vec!["WEBKIT_DISABLE_DMABUF_RENDERER"]);
    assert_eq!(
        webkit_flags("soft"),
        vec!["WEBKIT_DISABLE_DMABUF_RENDERER", "WEBKIT_DISABLE_COMPOSITING_MODE"]
    );
    assert!(webkit_flags("stock").is_empty());
}

#[test]
fn wayland_sessions() {
    assert!(is_wayland_session(true, None));
    assert!(is_wayland_session(false, Some("WayLand")));
    assert!(is_wayland_session(false, Some("wayland")));
    assert!(!is_wayland_session(false, Some("x11")));
    assert!(!is_wayland_session(false, Some("wayland ")));
    assert!(!is_wayland_session(false, None));
}

#[test]
fn start_up_steps() {
    assert!(matches!(gfx_step("stock", true, false), GfxStep::Stock));
    assert!(matches!(gfx_step("wayland", false, false), GfxStep::NotWayland));
    assert!(matches!(gfx_step("soft", true, true), GfxStep::AlreadyPreloaded));
    assert!(matches!(gfx_step("dmabuf-off", true, false), GfxStep::FindLibrary));
}

#[test]
fn preload_values() {
    assert_eq!(preload_value(LIB, None), LIB);
    assert_eq!(preload_value(LIB, Some("")), LIB);
    assert_eq!(preload_value(LIB, Some("/a.so")), format!("{LIB}:/a.so"));
    let with = format!("/a.so:{LIB}");
    assert_eq!(preload_value(LIB, Some(&with)), with);
    let near = format!("{LIB}x:/b.so");
    assert_eq!(preload_value(LIB, Some(&near)), format!("{LIB}:{near}"));
    assert_eq!(preload_value(LIB, Some(LIB)), LIB);
}

#[test]
fn ldconfig_lines() {
    assert_eq!(
        ldconfig_path("\tlibwayland-client.so.0 (libc6,x86-64) => /usr/lib/x86_64-linux-gnu/libwayland-client.so.0")
            .as_deref(),
        Some("/usr/lib/x86_64-linux-gnu/libwayland-client.so.0")
    );
    assert_eq!(ldconfig_path("\tlibc.so.6 (libc6,x86-64) => /lib/libc.so.6"), None);
    assert_eq!(ldconfig_path("libwayland-client.so.0 (libc6)"), None);
    assert_eq!(ldconfig_path("libwayland-client.so => /x  => /y").as_deref(), Some("/x"));
}
