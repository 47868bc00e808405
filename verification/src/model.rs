//! Plain value types that the surrounding application shares with the
//! core: the persisted settings, the listing filters and page state, and
//! the summary of a replay file already on disk. The I/O around them
//! (settings file, directory scans, rendering) lives with the driver.

use vstd::prelude::*;
use vstd::string::*;

use crate::discovery::ReplayItem;

verus! {

/// The persisted application settings. The driver resolves the download
/// directory against its working directory; the core only carries the
/// value.
#[derive(Debug, Clone, PartialEq)]
pub struct Settings {
    pub download_dir: String,
    pub auto_refresh_enabled: bool,
    pub auto_refresh_interval_mins: u64,
    pub auto_download_enabled: bool,
    pub auto_download_trigger_user_id: String,
}

impl Default for Settings {
    /// Auto-refresh every five minutes, no auto-download, and the driver's
    /// current directory (carried as `.`) as download target.
    fn default() -> (r: Self)
        ensures
            r.download_dir@ == "."@,
            r.auto_refresh_enabled == true,
            r.auto_refresh_interval_mins == 5,
            r.auto_download_enabled == false,
            r.auto_download_trigger_user_id@ == Seq::<char>::empty(),
    {
        Settings {
            download_dir: String::from_str("."),
            auto_refresh_enabled: true,
            auto_refresh_interval_mins: 5,
            auto_download_enabled: false,
            auto_download_trigger_user_id: String::new(),
        }
    }
}

/// Which platform a listing is filtered to.
#[derive(Debug, Clone, Copy, PartialEq, Eq, Structural)]
pub enum PlatformFilter {
    All,
    Quest,
    PC,
}

impl Default for PlatformFilter {
    fn default() -> (r: Self)
        ensures
            r == PlatformFilter::All,
    {
        PlatformFilter::All
    }
}

/// The text and platform filters of the replay listing.
#[derive(Debug, Clone, PartialEq)]
pub struct ReplayFilters {
    pub game_mode: String,
    pub map_name: String,
    pub workshop_mods: String,
    pub platform: PlatformFilter,
    pub user_id: String,
}

impl Default for ReplayFilters {
    fn default() -> (r: Self)
        ensures
            r.game_mode@ == Seq::<char>::empty(),
            r.map_name@ == Seq::<char>::empty(),
            r.workshop_mods@ == Seq::<char>::empty(),
            r.platform == PlatformFilter::All,
            r.user_id@ == Seq::<char>::empty(),
    {
        ReplayFilters {
            game_mode: String::new(),
            map_name: String::new(),
            workshop_mods: String::new(),
            platform: PlatformFilter::All,
            user_id: String::new(),
        }
    }
}

/// The state of the paginated replay listing.
#[derive(Debug, Clone, PartialEq)]
pub struct ReplayListState {
    pub replays: Vec<ReplayItem>,
    pub current_page: usize,
    pub total_pages: usize,
    pub filters: ReplayFilters,
}

impl Default for ReplayListState {
    fn default() -> (r: Self)
        ensures
            r.replays@ == Seq::<ReplayItem>::empty(),
            r.current_page == 0,
            r.total_pages == 0,
    {
        ReplayListState {
            replays: Vec::new(),
            current_page: 0,
            total_pages: 0,
            filters: ReplayFilters::default(),
        }
    }
}

/// Which page of the application is shown.
#[derive(Debug, Clone, Copy, PartialEq, Eq, Structural)]
pub enum Page {
    Main,
    ProcessLocal,
    Settings,
}

/// What is known of a replay file already on disk: the id recovered from
/// its name, the name itself, its path and size, the modification time as
/// seconds since the Unix epoch when available, and the fields parsed out
/// of the file name.
#[derive(Debug, Clone, PartialEq)]
pub struct DownloadedReplayInfo {
    pub id: String,
    pub filename: String,
    pub full_path: String,
    pub file_size: u64,
    pub modified_time: Option<u64>,
    pub game_mode: Option<String>,
    pub map_name: Option<String>,
    pub date: Option<String>,
}

} // verus!
