//! The records that are kept on disk: one configuration per app, and the
//! global preferences.

use vstd::prelude::*;

verus! {

/// How an app is rendered.
#[derive(Debug, PartialEq, Eq)]
pub enum Engine {
    /// In an embedded webview.
    WebKit,
    /// In a Chromium-family browser with a profile of its own, started by the
    /// command `browser`.
    Chromium { browser: String },
}

/// An `Engine` as plain values.
pub enum EngineView {
    WebKit,
    Chromium { browser: Seq<char> },
}

impl View for Engine {
    type V = EngineView;

    open spec fn view(&self) -> EngineView {
        match self {
            Engine::WebKit => EngineView::WebKit,
            Engine::Chromium { browser } => EngineView::Chromium { browser: browser@ },
        }
    }
}

impl Clone for Engine {
    fn clone(&self) -> (r: Self)
        ensures
            r@ == self@,
    {
        match self {
            Engine::WebKit => Engine::WebKit,
            Engine::Chromium { browser } => Engine::Chromium { browser: browser.clone() },
        }
    }
}

/// The configuration of one app.
#[derive(Debug, PartialEq, Eq)]
pub struct AppConfig {
    /// The stable handle of the app: given once, never changed.
    pub id: String,
    /// The name shown to the user.
    pub name: String,
    /// The address the app opens.
    pub url: String,
    pub description: String,
    /// When the app was created.
    pub created_at: u64,
    pub engine: Engine,
    /// The directory of the app under the apps directory. It follows from
    /// name and id and is derived anew whenever the name changes.
    pub folder: String,
}

/// An `AppConfig` as plain values.
pub struct AppConfigView {
    pub id: Seq<char>,
    pub name: Seq<char>,
    pub url: Seq<char>,
    pub description: Seq<char>,
    pub created_at: u64,
    pub engine: EngineView,
    pub folder: Seq<char>,
}

impl View for AppConfig {
    type V = AppConfigView;

    open spec fn view(&self) -> AppConfigView {
        AppConfigView {
            id: self.id@,
            name: self.name@,
            url: self.url@,
            description: self.description@,
            created_at: self.created_at,
            engine: self.engine@,
            folder: self.folder@,
        }
    }
}

impl Clone for AppConfig {
    fn clone(&self) -> (r: Self)
        ensures
            r@ == self@,
    {
        AppConfig {
            id: self.id.clone(),
            name: self.name.clone(),
            url: self.url.clone(),
            description: self.description.clone(),
            created_at: self.created_at,
            engine: self.engine.clone(),
            folder: self.folder.clone(),
        }
    }
}

/// The preferences that hold for every app.
#[derive(Debug, PartialEq, Eq)]
pub struct GlobalAppConfig {
    pub view_mode: String,
    pub theme: String,
    pub default_engine: Engine,
}

/// A `GlobalAppConfig` as plain values.
pub struct GlobalAppConfigView {
    pub view_mode: Seq<char>,
    pub theme: Seq<char>,
    pub default_engine: EngineView,
}

impl View for GlobalAppConfig {
    type V = GlobalAppConfigView;

    open spec fn view(&self) -> GlobalAppConfigView {
        GlobalAppConfigView {
            view_mode: self.view_mode@,
            theme: self.theme@,
            default_engine: self.default_engine@,
        }
    }
}

/// The preferences of a fresh installation: a grid of apps, the dark theme,
/// the embedded webview.
pub open spec fn default_preferences() -> GlobalAppConfigView {
    GlobalAppConfigView {
        view_mode: "grid"@,
        theme: "dark"@,
        default_engine: EngineView::WebKit,
    }
}

impl Clone for GlobalAppConfig {
    fn clone(&self) -> (r: Self)
        ensures
            r@ == self@,
    {
        GlobalAppConfig {
            view_mode: self.view_mode.clone(),
            theme: self.theme.clone(),
            default_engine: self.default_engine.clone(),
        }
    }
}

impl Default for GlobalAppConfig {
    fn default() -> (r: Self)
        ensures
            r@ == default_preferences(),
    {
        GlobalAppConfig {
            view_mode: "grid".to_owned(),
            theme: "dark".to_owned(),
            default_engine: Engine::WebKit,
        }
    }
}

/// The preferences to work with, given what the preference file held, and
/// whether they are to be written out: a missing file gives the defaults,
/// which are then stored.
pub fn load_global_config(stored: Option<GlobalAppConfig>) -> (r: (GlobalAppConfig, bool))
    ensures
        match stored {
            Some(c) => r.0@ == c@ && !r.1,
            None => r.0@ == default_preferences() && r.1,
        },
{
    match stored {
        Some(c) => (c, false),
        None => (GlobalAppConfig::default(), true),
    }
}

} // verus!
