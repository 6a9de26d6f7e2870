//! Settings for a terminal session: how the UI takes the screen (an inline
//! viewport of some height, or the alternate screen on stdout or stderr),
//! and which facilities are switched on. Setting the terminal up and
//! restoring it is the application's.

use vstd::prelude::*;

verus! {

/// The name a session gets when none is given.
pub const DEFAULT_APP_NAME: &'static str = "tuicore";

/// The stream that the alternate screen is drawn on.
#[derive(Clone, Copy, Debug, PartialEq, Eq, Structural)]
pub enum AlternateScreenBackend {
    Stdout,
    Stderr,
}

/// How the UI takes up the terminal.
#[derive(Clone, Copy, Debug, PartialEq, Eq, Structural)]
pub enum ViewportMode {
    /// Below the cursor, `height` rows tall.
    Inline { height: u16 },
    /// The whole alternate screen, on `backend`.
    AlternateScreen { backend: AlternateScreenBackend },
}

impl Default for ViewportMode {
    fn default() -> (r: ViewportMode)
        ensures
            r == (ViewportMode::AlternateScreen { backend: AlternateScreenBackend::Stdout }),
    {
        ViewportMode::AlternateScreen { backend: AlternateScreenBackend::Stdout }
    }
}

impl ViewportMode {
    pub fn is_inline(self) -> (r: bool)
        ensures
            r == self is Inline,
    {
        match self {
            ViewportMode::Inline { .. } => true,
            ViewportMode::AlternateScreen { .. } => false,
        }
    }

    /// The height of an inline viewport.
    pub fn inline_height(self) -> (r: Option<u16>)
        ensures
            r == (match self {
                ViewportMode::Inline { height } => Some(height),
                ViewportMode::AlternateScreen { .. } => None,
            }),
    {
        match self {
            ViewportMode::Inline { height } => Some(height),
            ViewportMode::AlternateScreen { .. } => None,
        }
    }
}

/// The settings a builder holds.
pub ghost struct TuiAppBuilderView {
    pub app_name: Seq<char>,
    pub use_panic_terminal_restore: bool,
    pub use_color_eyre: bool,
    pub use_tracing: bool,
    pub use_disk_logs: bool,
    pub capture_mouse: bool,
    pub hide_cursor: bool,
    pub inline: bool,
    pub inline_height: u16,
    pub backend: AlternateScreenBackend,
}

impl TuiAppBuilderView {
    /// The viewport that the settings select.
    pub open spec fn viewport(self) -> ViewportMode {
        if self.inline {
            ViewportMode::Inline { height: self.inline_height }
        } else {
            ViewportMode::AlternateScreen { backend: self.backend }
        }
    }
}

/// The settings a builder starts from.
pub open spec fn default_settings(app_name: Seq<char>) -> TuiAppBuilderView {
    TuiAppBuilderView {
        app_name,
        use_panic_terminal_restore: true,
        use_color_eyre: true,
        use_tracing: true,
        use_disk_logs: true,
        capture_mouse: true,
        hide_cursor: true,
        inline: false,
        inline_height: 0,
        backend: AlternateScreenBackend::Stdout,
    }
}

/// Builds the settings of a session. Every facility starts switched on;
/// the viewport starts as the alternate screen on stdout, with an inline
/// height of 0 kept for when inline mode is chosen.
pub struct TuiAppBuilder {
    app_name: String,
    use_panic_terminal_restore: bool,
    use_color_eyre: bool,
    use_tracing: bool,
    use_disk_logs: bool,
    capture_mouse: bool,
    hide_cursor: bool,
    inline: bool,
    inline_height: u16,
    backend: AlternateScreenBackend,
}

impl View for TuiAppBuilder {
    type V = TuiAppBuilderView;

    closed spec fn view(&self) -> TuiAppBuilderView {
        TuiAppBuilderView {
            app_name: self.app_name@,
            use_panic_terminal_restore: self.use_panic_terminal_restore,
            use_color_eyre: self.use_color_eyre,
            use_tracing: self.use_tracing,
            use_disk_logs: self.use_disk_logs,
            capture_mouse: self.capture_mouse,
            hide_cursor: self.hide_cursor,
            inline: self.inline,
            inline_height: self.inline_height,
            backend: self.backend,
        }
    }
}

/// The settings of a session, resolved.
pub struct TuiApp {
    pub app_name: String,
    pub use_panic_terminal_restore: bool,
    pub use_color_eyre: bool,
    pub use_tracing: bool,
    pub use_disk_logs: bool,
    pub capture_mouse: bool,
    pub hide_cursor: bool,
    pub viewport: ViewportMode,
}

impl Default for TuiAppBuilder {
    /// The defaults, with an empty name (which `build` replaces by
    /// `DEFAULT_APP_NAME`).
    fn default() -> (r: TuiAppBuilder)
        ensures
            r@ == default_settings(Seq::empty()),
    {
        TuiAppBuilder {
            app_name: String::new(),
            use_panic_terminal_restore: true,
            use_color_eyre: true,
            use_tracing: true,
            use_disk_logs: true,
            capture_mouse: true,
            hide_cursor: true,
            inline: false,
            inline_height: 0,
            backend: AlternateScreenBackend::Stdout,
        }
    }
}

impl TuiAppBuilder {
    /// A builder with the defaults and the name `app_name`.
    pub fn new(app_name: &str) -> (r: TuiAppBuilder)
        ensures
            r@ == default_settings(app_name@),
    {
        TuiAppBuilder { app_name: app_name.to_owned(), ..TuiAppBuilder::default() }
    }

    pub fn app_name(self, app_name: &str) -> (r: TuiAppBuilder)
        ensures
            r@ == (TuiAppBuilderView { app_name: app_name@, ..self@ }),
    {
        TuiAppBuilder { app_name: app_name.to_owned(), ..self }
    }

    pub fn capture_mouse(self, capture_mouse: bool) -> (r: TuiAppBuilder)
        ensures
            r@ == (TuiAppBuilderView { capture_mouse, ..self@ }),
    {
        TuiAppBuilder { capture_mouse, ..self }
    }

    pub fn hide_cursor(self, hide_cursor: bool) -> (r: TuiAppBuilder)
        ensures
            r@ == (TuiAppBuilderView { hide_cursor, ..self@ }),
    {
        TuiAppBuilder { hide_cursor, ..self }
    }

    /// Inline mode, `height` rows tall.
    pub fn inline(self, height: u16) -> (r: TuiAppBuilder)
        ensures
            r@ == (TuiAppBuilderView { inline: true, inline_height: height, ..self@ }),
            r@.viewport() == (ViewportMode::Inline { height }),
    {
        TuiAppBuilder { inline: true, inline_height: height, ..self }
    }

    /// The height that inline mode uses; the mode itself is left as it is.
    pub fn inline_height(self, inline_height: u16) -> (r: TuiAppBuilder)
        ensures
            r@ == (TuiAppBuilderView { inline_height, ..self@ }),
    {
        TuiAppBuilder { inline_height, ..self }
    }

    /// The alternate screen, on stdout.
    pub fn alternate_screen(self) -> (r: TuiAppBuilder)
        ensures
            r@ == (TuiAppBuilderView {
                inline: false,
                backend: AlternateScreenBackend::Stdout,
                ..self@
            }),
    {
        TuiAppBuilder { inline: false, backend: AlternateScreenBackend::Stdout, ..self }
    }

    /// The alternate screen, on `backend`.
    pub fn alternate_screen_backend(self, backend: AlternateScreenBackend) -> (r: TuiAppBuilder)
        ensures
            r@ == (TuiAppBuilderView { inline: false, backend, ..self@ }),
    {
        TuiAppBuilder { inline: false, backend, ..self }
    }

    /// Which stream the alternate screen is drawn on: stdout if
    /// `use_backend_stdout`, else stderr. The mode itself is left as it is.
    pub fn use_backend_stdout(self, use_backend_stdout: bool) -> (r: TuiAppBuilder)
        ensures
            r@ == (TuiAppBuilderView {
                backend: if use_backend_stdout {
                    AlternateScreenBackend::Stdout
                } else {
                    AlternateScreenBackend::Stderr
                },
                ..self@
            }),
    {
        let backend = if use_backend_stdout {
            AlternateScreenBackend::Stdout
        } else {
            AlternateScreenBackend::Stderr
        };
        TuiAppBuilder { backend, ..self }
    }

    pub fn use_panic_terminal_restore(self, use_panic_terminal_restore: bool) -> (r: TuiAppBuilder)
        ensures
            r@ == (TuiAppBuilderView { use_panic_terminal_restore, ..self@ }),
    {
        TuiAppBuilder { use_panic_terminal_restore, ..self }
    }

    pub fn use_color_eyre(self, use_color_eyre: bool) -> (r: TuiAppBuilder)
        ensures
            r@ == (TuiAppBuilderView { use_color_eyre, ..self@ }),
    {
        TuiAppBuilder { use_color_eyre, ..self }
    }

    pub fn use_tracing(self, use_tracing: bool) -> (r: TuiAppBuilder)
        ensures
            r@ == (TuiAppBuilderView { use_tracing, ..self@ }),
    {
        TuiAppBuilder { use_tracing, ..self }
    }

    pub fn use_disk_logs(self, use_disk_logs: bool) -> (r: TuiAppBuilder)
        ensures
            r@ == (TuiAppBuilderView { use_disk_logs, ..self@ }),
    {
        TuiAppBuilder { use_disk_logs, ..self }
    }

    /// The resolved settings. An empty name becomes `DEFAULT_APP_NAME`;
    /// disk logs need tracing, so they are on only when both are.
    pub fn build(self) -> (r: TuiApp)
        ensures
            r.app_name@ == (if self@.app_name.len() == 0 {
                DEFAULT_APP_NAME@
            } else {
                self@.app_name
            }),
            r.use_panic_terminal_restore == self@.use_panic_terminal_restore,
            r.use_color_eyre == self@.use_color_eyre,
            r.use_tracing == self@.use_tracing,
            r.use_disk_logs == (self@.use_tracing && self@.use_disk_logs),
            r.capture_mouse == self@.capture_mouse,
            r.hide_cursor == self@.hide_cursor,
            r.viewport == self@.viewport(),
    {
        let app_name = if self.app_name.as_str().is_empty() {
            DEFAULT_APP_NAME.to_owned()
        } else {
            self.app_name
        };
        let viewport = if self.inline {
            ViewportMode::Inline { height: self.inline_height }
        } else {
            ViewportMode::AlternateScreen { backend: self.backend }
        };
        TuiApp {
            app_name,
            use_panic_terminal_restore: self.use_panic_terminal_restore,
            use_color_eyre: self.use_color_eyre,
            use_tracing: self.use_tracing,
            use_disk_logs: self.use_tracing && self.use_disk_logs,
            capture_mouse: self.capture_mouse,
            hide_cursor: self.hide_cursor,
            viewport,
        }
    }
}

impl TuiApp {
    pub fn builder(app_name: &str) -> (r: TuiAppBuilder)
        ensures
            r@ == default_settings(app_name@),
    {
        TuiAppBuilder::new(app_name)
    }

    /// The default settings under the name `app_name` (or the default name
    /// if it is empty).
    pub fn new(app_name: &str) -> (r: TuiApp)
        ensures
            r.app_name@ == (if app_name@.len() == 0 {
                DEFAULT_APP_NAME@
            } else {
                app_name@
            }),
            r.use_panic_terminal_restore && r.use_color_eyre && r.use_tracing && r.use_disk_logs,
            r.capture_mouse && r.hide_cursor,
            r.viewport == (ViewportMode::AlternateScreen { backend: AlternateScreenBackend::Stdout }),
    {
        Self::builder(app_name).build()
    }

    pub fn app_name(&self) -> (r: &str)
        ensures
            r@ == self.app_name@,
    {
        self.app_name.as_str()
    }
}

/// Start-up options of a simple key viewer.
pub struct ModelInit {
    pub init_inline_mode: bool,
}

impl ModelInit {
    pub fn new(inline_mode: bool) -> (r: ModelInit)
        ensures
            r.init_inline_mode == inline_mode,
    {
        ModelInit { init_inline_mode: inline_mode }
    }

    pub fn inline_mode(&self) -> (r: bool)
        ensures
            r == self.init_inline_mode,
    {
        self.init_inline_mode
    }
}

} // verus!
