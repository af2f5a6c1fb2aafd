//! The state of the settings window: what it shows while the patch version
//! is looked up, the schema is updated and the cache is measured or cleared.

use crate::settings::AppSettings;
use vstd::prelude::*;
use vstd::string::*;

verus! {

/// What the settings window shows besides the settings themselves.
#[derive(Debug, Clone, PartialEq, Eq)]
pub struct SettingsWindow {
    pub open: bool,
    /// Whether the patch version is being looked up.
    pub is_fetching: bool,
    pub fetch_status_msg: Option<String>,
    /// Whether the program is asked to update the schema.
    pub request_update_schema: bool,
    pub schema_status_msg: Option<String>,
    pub cache_size_str: String,
    pub cache_status_msg: Option<String>,
}

/// `SettingsWindow` as a mathematical value.
pub struct SettingsWindowView {
    pub open: bool,
    pub is_fetching: bool,
    pub fetch_status_msg: Option<Seq<char>>,
    pub request_update_schema: bool,
    pub schema_status_msg: Option<Seq<char>>,
    pub cache_size_str: Seq<char>,
    pub cache_status_msg: Option<Seq<char>>,
}

/// The text of an optional string.
pub open spec fn message_text(s: Option<String>) -> Option<Seq<char>> {
    match s {
        Some(s) => Some(s@),
        None => None,
    }
}

impl View for SettingsWindow {
    type V = SettingsWindowView;

    open spec fn view(&self) -> SettingsWindowView {
        SettingsWindowView {
            open: self.open,
            is_fetching: self.is_fetching,
            fetch_status_msg: message_text(self.fetch_status_msg),
            request_update_schema: self.request_update_schema,
            schema_status_msg: message_text(self.schema_status_msg),
            cache_size_str: self.cache_size_str@,
            cache_status_msg: message_text(self.cache_status_msg),
        }
    }
}

/// What the lookup of the patch version has delivered since it was last
/// asked.
#[derive(Debug, Clone, PartialEq, Eq)]
pub enum FetchEvent {
    /// Nothing yet.
    Empty,
    /// The patch version.
    Version(String),
    /// The lookup failed with this error.
    Failed(String),
    /// The lookup ended without an answer.
    Disconnected,
}

/// `FetchEvent` as a mathematical value.
pub enum FetchEventView {
    Empty,
    Version(Seq<char>),
    Failed(Seq<char>),
    Disconnected,
}

impl View for FetchEvent {
    type V = FetchEventView;

    open spec fn view(&self) -> FetchEventView {
        match self {
            FetchEvent::Empty => FetchEventView::Empty,
            FetchEvent::Version(version) => FetchEventView::Version(version@),
            FetchEvent::Failed(error) => FetchEventView::Failed(error@),
            FetchEvent::Disconnected => FetchEventView::Disconnected,
        }
    }
}

impl SettingsWindowView {
    /// The window as it is first made: closed, nothing going on, the size of
    /// the cache not known.
    pub open spec fn initial() -> SettingsWindowView {
        SettingsWindowView {
            open: false,
            is_fetching: false,
            fetch_status_msg: None,
            request_update_schema: false,
            schema_status_msg: None,
            cache_size_str: "Unknown"@,
            cache_status_msg: None,
        }
    }

    /// The window after it was opened: the cache is being measured.
    pub open spec fn opened(self) -> SettingsWindowView {
        SettingsWindowView {
            open: true,
            cache_status_msg: None,
            cache_size_str: "Calculating..."@,
            ..self
        }
    }

    /// The window after the lookup of the patch version was started.
    pub open spec fn fetching(self) -> SettingsWindowView {
        SettingsWindowView { is_fetching: true, fetch_status_msg: Some("Fetching..."@), ..self }
    }

    /// The window after the lookup was asked for its answer. Only a window
    /// that is looking up takes one.
    pub open spec fn fetched(self, event: FetchEventView) -> SettingsWindowView {
        if !self.is_fetching {
            self
        } else {
            match event {
                FetchEventView::Empty => self,
                FetchEventView::Version(_) => SettingsWindowView {
                    is_fetching: false,
                    fetch_status_msg: Some("Updated!"@),
                    ..self
                },
                FetchEventView::Failed(error) => SettingsWindowView {
                    is_fetching: false,
                    fetch_status_msg: Some("Error: "@ + error),
                    ..self
                },
                FetchEventView::Disconnected => SettingsWindowView {
                    is_fetching: false,
                    fetch_status_msg: Some("Wait, thread died"@),
                    ..self
                },
            }
        }
    }

    /// The patch version of the settings after the lookup was asked for its
    /// answer: the version that it delivered, or else the one before.
    pub open spec fn fetched_version(self, event: FetchEventView, before: Seq<char>) -> Seq<char> {
        match event {
            FetchEventView::Version(version) if self.is_fetching => version,
            _ => before,
        }
    }

    /// The window after the cache was cleared, or could not be.
    pub open spec fn cache_cleared(self, error: Option<Seq<char>>) -> SettingsWindowView {
        match error {
            None => SettingsWindowView {
                cache_status_msg: Some("Cache Cleared!"@),
                cache_size_str: "0 Bytes"@,
                ..self
            },
            Some(error) => SettingsWindowView {
                cache_status_msg: Some("Error: "@ + error),
                ..self
            },
        }
    }
}

impl SettingsWindow {
    /// The window as it is first made.
    pub fn new() -> (window: SettingsWindow)
        ensures
            window@ == SettingsWindowView::initial(),
    {
        SettingsWindow {
            open: false,
            is_fetching: false,
            fetch_status_msg: None,
            request_update_schema: false,
            schema_status_msg: None,
            cache_size_str: String::from_str("Unknown"),
            cache_status_msg: None,
        }
    }

    /// Opens the window. The size of the cache is to be measured anew.
    pub fn open(&mut self)
        ensures
            final(self)@ == old(self)@.opened(),
    {
        self.open = true;
        self.cache_status_msg = None;
        self.cache_size_str = String::from_str("Calculating...");
    }

    /// Notes that the lookup of the patch version was started.
    pub fn start_fetch(&mut self)
        ensures
            final(self)@ == old(self)@.fetching(),
    {
        self.is_fetching = true;
        self.fetch_status_msg = Some(String::from_str("Fetching..."));
    }

    /// Takes in what the lookup of the patch version delivered. A version
    /// that arrives becomes the patch version of `settings`, which are then
    /// to be saved: the result says whether.
    pub fn fetch_polled(&mut self, event: FetchEvent, settings: &mut AppSettings) -> (save: bool)
        ensures
            final(self)@ == old(self)@.fetched(event@),
            final(settings)@ == (crate::settings::AppSettingsView {
                poe2_patch_version: old(self)@.fetched_version(
                    event@,
                    old(settings)@.poe2_patch_version,
                ),
                ..old(settings)@
            }),
            save == (old(self).is_fetching && event is Version),
    {
        if !self.is_fetching {
            return false;
        }
        match event {
            FetchEvent::Empty => false,
            FetchEvent::Version(version) => {
                settings.poe2_patch_version = version;
                self.fetch_status_msg = Some(String::from_str("Updated!"));
                self.is_fetching = false;
                true
            },
            FetchEvent::Failed(error) => {
                self.fetch_status_msg = Some(String::from_str("Error: ").concat(error.as_str()));
                self.is_fetching = false;
                false
            },
            FetchEvent::Disconnected => {
                self.fetch_status_msg = Some(String::from_str("Wait, thread died"));
                self.is_fetching = false;
                false
            },
        }
    }

    /// Asks the program to update the schema.
    pub fn request_schema_update(&mut self)
        ensures
            final(self)@ == (SettingsWindowView {
                schema_status_msg: Some("Updating..."@),
                request_update_schema: true,
                ..old(self)@
            }),
    {
        self.schema_status_msg = Some(String::from_str("Updating..."));
        self.request_update_schema = true;
    }

    /// Takes in how clearing the cache ended: `error` is what went wrong, if
    /// anything did.
    pub fn cache_cleared(&mut self, error: Option<String>)
        ensures
            final(self)@ == old(self)@.cache_cleared(message_text(error)),
    {
        match error {
            None => {
                self.cache_status_msg = Some(String::from_str("Cache Cleared!"));
                self.cache_size_str = String::from_str("0 Bytes");
            },
            Some(error) => {
                self.cache_status_msg = Some(String::from_str("Error: ").concat(error.as_str()));
            },
        }
    }
}

} // verus!
