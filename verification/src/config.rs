//! Engine configuration and the settings-popup editing state. Loading and
//! saving the configuration file is the caller's business; the library
//! only holds the values.

use vstd::prelude::*;
use vstd::string::StringExecFns;

verus! {

/// The engine's tunables. Paths are carried as plain strings.
pub struct Config {
    pub output_dir: String,
    pub output_template: String,
    pub max_concurrent_downloads: usize,
    pub default_format: String,
}

impl Clone for Config {
    fn clone(&self) -> (r: Self)
        ensures
            r == *self,
    {
        Config {
            output_dir: self.output_dir.clone(),
            output_template: self.output_template.clone(),
            max_concurrent_downloads: self.max_concurrent_downloads,
            default_format: self.default_format.clone(),
        }
    }
}

impl Default for Config {
    /// The stock configuration: the working directory, the tool's usual
    /// title-based file template, three parallel downloads, and a
    /// best-video-plus-audio selector.
    fn default() -> (r: Self)
        ensures
            r.output_dir@ == "."@,
            r.output_template@ == "%(title)s.%(ext)s"@,
            r.max_concurrent_downloads == 3,
            r.default_format@ == "bestvideo+bestaudio/best"@,
    {
        Config {
            output_dir: String::from_str("."),
            output_template: String::from_str("%(title)s.%(ext)s"),
            max_concurrent_downloads: 3,
            default_format: String::from_str("bestvideo+bestaudio/best"),
        }
    }
}

/// Editing state of the settings popup: which field the cursor is on, the
/// two edited values, and whether the path field is in text-entry mode.
pub struct SettingsState {
    pub selected_field: usize,
    pub concurrent_downloads: usize,
    pub output_dir: String,
    pub editing_path: bool,
}

impl SettingsState {
    pub fn new(concurrent: usize, output_dir: String) -> (r: Self)
        ensures
            r.selected_field == 0,
            r.concurrent_downloads == concurrent,
            r.output_dir == output_dir,
            !r.editing_path,
    {
        SettingsState { selected_field: 0, concurrent_downloads: concurrent, output_dir, editing_path: false }
    }
}

} // verus!
