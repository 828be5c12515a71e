//! Settings of the daemon.
use vstd::prelude::*;
use vstd::string::*;

verus! {

/// Settings of the daemon, as given on its command line.
pub struct Args {
    /// Run in daemon mode.
    pub daemon: bool,
    /// Width of the image to download.
    pub width: u32,
    /// Height of the image to download.
    pub height: u32,
    /// Directory to store downloaded images.
    pub storage_path: String,
    /// Switch desktop wallpaper interval, in seconds.
    pub interval: u64,
    /// Maximum number of images to keep in storage.
    pub max_images: usize,
    /// Refresh image list interval, in hours.
    pub refresh_interval: u64,
    /// Path of the link to the shown wallpaper's metadata; the link to the
    /// shown image sits beside it, with extension `jpg`.
    pub current_wallpaper_info: String,
}

impl Default for Args {
    /// The settings used where the command line gives none.
    fn default() -> (a: Args)
        ensures
            !a.daemon,
            a.width == 1920,
            a.height == 1080,
            a.storage_path@ == "./images"@,
            a.interval == 30,
            a.max_images == 10,
            a.refresh_interval == 6,
            a.current_wallpaper_info@ == "./current_wallpaper.json"@,
    {
        Args {
            daemon: false,
            width: 1920,
            height: 1080,
            storage_path: String::from_str("./images"),
            interval: 30,
            max_images: 10,
            refresh_interval: 6,
            current_wallpaper_info: String::from_str("./current_wallpaper.json"),
        }
    }
}

} // verus!
