//! The settings of the program and their defaults.

use vstd::prelude::*;
use vstd::string::*;

verus! {

/// What the program remembers between runs.
#[derive(Debug, Clone, PartialEq, Eq)]
pub struct AppSettings {
    /// The archive that was opened last.
    pub ggpk_path: Option<String>,
    pub recent_files: Vec<String>,
    /// The patch version under which bundles are fetched from the content
    /// server.
    pub poe2_patch_version: String,
    /// Where the current patch version is asked for.
    pub patch_version_source_url: String,
    /// A schema file on disk that takes the place of the downloaded one.
    pub schema_local_path: Option<String>,
}

/// `AppSettings` as a mathematical value.
pub struct AppSettingsView {
    pub ggpk_path: Option<Seq<char>>,
    pub recent_files: Seq<Seq<char>>,
    pub poe2_patch_version: Seq<char>,
    pub patch_version_source_url: Seq<char>,
    pub schema_local_path: Option<Seq<char>>,
}

/// The text of an optional string.
pub open spec fn optional_text(s: Option<String>) -> Option<Seq<char>> {
    match s {
        Some(s) => Some(s@),
        None => None,
    }
}

impl View for AppSettings {
    type V = AppSettingsView;

    open spec fn view(&self) -> AppSettingsView {
        AppSettingsView {
            ggpk_path: optional_text(self.ggpk_path),
            recent_files: self.recent_files@.map_values(|s: String| s@),
            poe2_patch_version: self.poe2_patch_version@,
            patch_version_source_url: self.patch_version_source_url@,
            schema_local_path: optional_text(self.schema_local_path),
        }
    }
}

/// The settings of a first run: no archive, no recent files, no local
/// schema, and the patch version and its source as they are built in.
pub open spec fn default_settings() -> AppSettingsView {
    AppSettingsView {
        ggpk_path: None,
        recent_files: Seq::empty(),
        poe2_patch_version: "4.4.0.3.7"@,
        patch_version_source_url: "https://poe-versions.obsoleet.org"@,
        schema_local_path: None,
    }
}

/// The patch version that is assumed until another one is set or detected.
pub fn default_patch_version() -> (version: String)
    ensures
        version@ == "4.4.0.3.7"@,
{
    String::from_str("4.4.0.3.7")
}

/// The address that is asked for the current patch version unless another
/// one is set.
pub fn default_patch_source() -> (url: String)
    ensures
        url@ == "https://poe-versions.obsoleet.org"@,
{
    String::from_str("https://poe-versions.obsoleet.org")
}

impl Default for AppSettings {
    fn default() -> (settings: AppSettings)
        ensures
            settings@ == default_settings(),
    {
        let settings = AppSettings {
            ggpk_path: None,
            recent_files: Vec::new(),
            poe2_patch_version: default_patch_version(),
            patch_version_source_url: default_patch_source(),
            schema_local_path: None,
        };
        assert(settings@.recent_files =~= Seq::<Seq<char>>::empty());
        settings
    }
}

} // verus!
