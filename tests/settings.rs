use tuicore::palette::{detect_from_background, detect_from_colorfgbg};
use tuicore::tui::DEFAULT_APP_NAME;
use tuicore::{
    detect_terminal_color_preference, AlternateScreenBackend, ModelInit, Preference, TuiApp,
    TuiAppBuilder, ViewportMode,
};

#[test]
fn builder_defaults() {
    let app = TuiAppBuilder::new("demo").build();
    assert_eq!(app.app_name(), "demo");
    assert!(app.use_panic_terminal_restore && app.use_color_eyre && app.use_tracing);
    assert!(app.use_disk_logs && app.capture_mouse && app.hide_cursor);
    assert_eq!(app.viewport, ViewportMode::AlternateScreen { backend: AlternateScreenBackend::Stdout });
    assert_eq!(ViewportMode::default(), app.viewport);
}

#[test]
fn builder_setters() {
    let app = TuiApp::builder("x")
        .app_name("viewer")
        .capture_mouse(false)
        .hide_cursor(false)
        .use_color_eyre(false)
        .use_panic_terminal_restore(false)
        .inline(12)
        .build();
    assert_eq!(app.app_name(), "viewer");
    assert!(!app.capture_mouse && !app.hide_cursor && !app.use_color_eyre);
    assert!(!app.use_panic_terminal_restore);
    assert_eq!(app.viewport, ViewportMode::Inline { height: 12 });
    assert!(app.viewport.is_inline());
    assert_eq!(app.viewport.inline_height(), Some(12));
}

#[test]
fn viewport_choices() {
    let b = TuiAppBuilder::new("v").inline_height(7);
    assert_eq!(
        b.build().viewport,
        ViewportMode::AlternateScreen { backend: AlternateScreenBackend::Stdout }
    );
    let b = TuiAppBuilder::new("v").inline(3).inline_height(9);
    assert_eq!(b.build().viewport, ViewportMode::Inline { height: 9 });
    let b = TuiAppBuilder::new("v").inline(3).alternate_screen_backend(AlternateScreenBackend::Stderr);
    let vp = b.build().viewport;
    assert_eq!(vp, ViewportMode::AlternateScreen { backend: AlternateScreenBackend::Stderr });
    assert!(!vp.is_inline());
    assert_eq!(vp.inline_height(), None);
    let b = TuiAppBuilder::new("v").use_backend_stdout(false).alternate_screen();
    assert_eq!(b.build().viewport, ViewportMode::AlternateScreen { backend: AlternateScreenBackend::Stdout });
    let b = TuiAppBuilder::new("v").use_backend_stdout(false);
    assert_eq!(b.build().viewport, ViewportMode::AlternateScreen { backend: AlternateScreenBackend::Stderr });
}

#[test]
fn empty_name_and_disk_logs_without_tracing() {
    let app = TuiApp::new("");
    assert_eq!(app.app_name(), DEFAULT_APP_NAME);
    assert_eq!(app.app_name(), "tuicore");
    let app = TuiAppBuilder::new("a").use_tracing(false).use_disk_logs(true).build();
    assert!(!app.use_tracing && !app.use_disk_logs);
    let app = TuiAppBuilder::new("a").use_disk_logs(false).build();
    assert!(app.use_tracing && !app.use_disk_logs);
}

#[test]
fn model_init_keeps_its_mode() {
    assert!(ModelInit::new(true).inline_mode());
    assert!(!ModelInit::new(false).inline_mode());
}

#[test]
fn palette_from_background() {
    assert_eq!(detect_from_background(b"light"), Some(Preference::Light));
    assert_eq!(detect_from_background(b"LiGhT"), Some(Preference::Light));
    assert_eq!(detect_from_background(b"DARK"), Some(Preference::Dark));
    assert_eq!(detect_from_background(b"dim"), None);
    assert_eq!(detect_from_background(b""), None);
}

#[test]
fn palette_from_colorfgbg() {
    assert_eq!(detect_from_colorfgbg(b"15;0"), Some(Preference::Dark));
    assert_eq!(detect_from_colorfgbg(b"0;15"), Some(Preference::Light));
    assert_eq!(detect_from_colorfgbg(b"0;7"), Some(Preference::Light));
    assert_eq!(detect_from_colorfgbg(b"0;default;231"), Some(Preference::Light));
    assert_eq!(detect_from_colorfgbg(b"0;12"), Some(Preference::Dark));
    assert_eq!(detect_from_colorfgbg(b"0;+6"), Some(Preference::Dark));
    assert_eq!(detect_from_colorfgbg(b"0;100"), None);
    assert_eq!(detect_from_colorfgbg(b"0;256"), None);
    assert_eq!(detect_from_colorfgbg(b"0;"), None);
    assert_eq!(detect_from_colorfgbg(b"9"), Some(Preference::Dark));
}

#[test]
fn palette_preference_order() {
    assert_eq!(detect_terminal_color_preference(None, None), Preference::Unknown);
    assert_eq!(detect_terminal_color_preference(Some(b"dark"), Some(b"0;15")), Preference::Dark);
    assert_eq!(detect_terminal_color_preference(Some(b"grey"), Some(b"0;15")), Preference::Light);
    assert_eq!(detect_terminal_color_preference(None, Some(b"0;99")), Preference::Unknown);
    assert_eq!(Preference::default(), Preference::Unknown);
}
