use bing_hyprpaper::app::{App, AppError};
use bing_hyprpaper::args::Args;
use bing_hyprpaper::download::DownloadError;
use bing_hyprpaper::hyprpaper::Hyprpaper;
use bing_hyprpaper::model::ImageStoreItem;
use bing_hyprpaper::store::DirEntryInfo;

const SEC: u64 = 1_000_000_000;

fn item(path: &str, t: i128) -> ImageStoreItem {
    ImageStoreItem { path: path.to_string(), file_created: t }
}

#[test]
fn default_args() {
    let a = Args::default();
    assert!(!a.daemon);
    assert_eq!(a.width, 1920);
    assert_eq!(a.height, 1080);
    assert_eq!(a.storage_path, "./images");
    assert_eq!(a.interval, 30);
    assert_eq!(a.max_images, 10);
    assert_eq!(a.refresh_interval, 6);
    assert_eq!(a.current_wallpaper_info, "./current_wallpaper.json");
}

#[test]
fn schedule_follows_the_settings() {
    let mut a = Args::default();
    a.refresh_interval = 2;
    let mut app = App::new(a);
    assert_eq!(app.schedule.refresh_interval_secs, 7200);
    let removed = app.complete_refresh(Vec::new(), 10 * SEC);
    assert!(removed.is_empty());
    assert!(!app.should_refresh(10 * SEC + 7200 * SEC - 1));
    assert!(app.should_refresh(10 * SEC + 7200 * SEC));
}

#[test]
fn new_app_from_defaults() {
    let app = App::new(Args::default());
    assert_eq!(app.downloader.download_counts, 10);
    assert_eq!(app.downloader.width, 1920);
    assert_eq!(app.downloader.storage_path, "./images");
    assert_eq!(app.schedule.refresh_interval_secs, 6 * 3600);
    assert!(app.file_store.is_empty());
    assert!(app.should_refresh(0));
}

#[test]
fn request_count_follows_the_byte_of_the_limit() {
    let counts = |m: usize| {
        let mut a = Args::default();
        a.max_images = m;
        App::new(a).downloader.download_counts
    };
    assert_eq!(counts(5), 5);
    assert_eq!(counts(10), 10);
    assert_eq!(counts(11), 10);
    assert_eq!(counts(256), 0);
    assert_eq!(counts(260), 4);
    assert_eq!(counts(300), 10);
}

#[test]
fn complete_refresh_records_time_and_trims_store() {
    let mut a = Args::default();
    a.max_images = 2;
    a.refresh_interval = 1;
    let mut app = App::new(a);
    app.load_existing_images(
        vec![DirEntryInfo {
            path: "./images/old.jpg".to_string(),
            file_name: "old.jpg".to_string(),
            is_file: true,
            modified: Some(1),
        }],
        50,
    );
    let outcomes = vec![
        Ok(Some(item("n2", 20))),
        Ok(None),
        Err(DownloadError::IoError(std::io::Error::new(std::io::ErrorKind::Other, "x"))),
        Ok(Some(item("n1", 10))),
    ];
    let removed = app.complete_refresh(outcomes, 7 * SEC);
    assert_eq!(removed.len(), 1);
    assert_eq!(removed[0].path, "./images/old.jpg");
    let kept: Vec<&str> = app.file_store.items.iter().map(|i| i.path.as_str()).collect();
    assert_eq!(kept, vec!["n1", "n2"]);
    assert_eq!(app.schedule.last_download, Some(7 * SEC));
    assert!(!app.should_refresh(8 * SEC));
    assert!(app.should_refresh(7 * SEC + 3600 * SEC));
}

#[test]
fn pick_wallpaper_needs_images() {
    let mut app = App::new(Args::default());
    assert_eq!(app.pick_wallpaper(), None);
    app.file_store.push(item("only", 0));
    assert_eq!(app.pick_wallpaper(), Some(0));
}

#[test]
fn wallpaper_result_maps_failure() {
    assert!(App::wallpaper_result(Ok(())).is_ok());
    let r = App::wallpaper_result(Err(std::io::Error::new(std::io::ErrorKind::Other, "boom")));
    assert_eq!(r, Err("Failed to set wallpaper".to_string()));
    assert_eq!(App::WALLPAPER_FAILURE, "Failed to set wallpaper");
}

#[test]
fn download_error_converts() {
    let e = AppError::from(DownloadError::IoError(std::io::Error::new(
        std::io::ErrorKind::NotFound,
        "gone",
    )));
    assert!(matches!(e, AppError::DownloadError(DownloadError::IoError(_))));
}

#[test]
fn hyprctl_arguments() {
    let args = Hyprpaper::wallpaper_args("/home/u/images/a.jpg");
    assert_eq!(args, vec!["hyprpaper", "wallpaper", ",/home/u/images/a.jpg"]);
    assert_eq!(Hyprpaper::PROGRAM_NAME, "/etc/profiles/per-user/wsq/bin/hyprctl");
}

#[test]
fn hyprctl_outcome() {
    assert!(Hyprpaper::outcome(true, b"ignored").is_ok());
    assert_eq!(Hyprpaper::outcome(false, b"no such monitor"), Err("no such monitor".to_string()));
    assert_eq!(Hyprpaper::outcome(false, b"bad \xff byte"), Err("bad \u{FFFD} byte".to_string()));
    assert_eq!(Hyprpaper::outcome(false, b""), Err(String::new()));
}
