use bing_hyprpaper::download::{DownloadError, Downloader};
use bing_hyprpaper::model::{Image, ImageMetaData};

fn image() -> Image {
    Image {
        startdate: "20251011".to_string(),
        url: "/th?id=OHR.WoodDuckHen_EN-US0382439406_1920x1080.jpg&rf=LaDigue_1920x1080.jpg&pid=hp"
            .to_string(),
        copyright: "Wood duck hen (© ps50ace/iStock/Getty Images)".to_string(),
        copyrightlink: "https://www.bing.com/search?q=World+Migratory+Bird+Day".to_string(),
        title: "Nest stop, Mexico!".to_string(),
        hsh: "383a612d3d17f82b406b9bd4c16b01ef".to_string(),
    }
}

#[test]
fn new_caps_the_count() {
    let d = Downloader::new(1920, 1080, "./images".to_string(), 25);
    assert_eq!(d.download_counts, 10);
    assert_eq!(d.width, 1920);
    assert_eq!(d.height, 1080);
    assert_eq!(d.storage_path, "./images");
    assert_eq!(Downloader::new(1, 2, String::new(), 3).download_counts, 3);
    assert_eq!(Downloader::new(1, 2, String::new(), 10).download_counts, 10);
    assert_eq!(Downloader::new(1, 2, String::new(), 0).download_counts, 0);
}

#[test]
fn image_list_query() {
    let d = Downloader::new(3840, 2160, "/tmp".to_string(), 7);
    let q = d.image_list_query();
    assert_eq!(q.format, "js");
    assert_eq!(q.idx, 0);
    assert_eq!(q.n, 7);
    assert_eq!(q.mkt, "en-US");
    assert_eq!(q.uhd, 1);
    assert_eq!(q.uhdwidth, 3840);
    assert_eq!(q.uhdheight, 2160);
    assert_eq!(Downloader::BING_WALLPAPER_URL, "https://www.bing.com/HPImageArchive.aspx");
}

#[test]
fn image_url_and_file_name() {
    let d = Downloader::new(1920, 1080, "./images".to_string(), 10);
    let img = image();
    assert_eq!(
        d.image_url(&img),
        "https://www.bing.com/th?id=OHR.WoodDuckHen_EN-US0382439406_1920x1080.jpg&rf=LaDigue_1920x1080.jpg&pid=hp"
    );
    assert_eq!(d.image_file_name(&img), "20251011_383a612d3d17f82b406b9bd4c16b01ef.jpg");
}

#[test]
fn metadata_from_image() {
    let img = image();
    let m = ImageMetaData::from(&img);
    assert_eq!(m.copyright, img.copyright);
    assert_eq!(m.copyrightlink, img.copyrightlink);
    assert_eq!(m.title, "Nest stop, Mexico!");
}

#[test]
fn download_error_carries_io_error() {
    let e = DownloadError::IoError(std::io::Error::new(std::io::ErrorKind::Other, "disk full"));
    match e {
        DownloadError::IoError(inner) => assert_eq!(inner.to_string(), "disk full"),
        _ => panic!("wrong variant"),
    }
}

#[test]
fn image_path_is_in_the_storage_directory() {
    let d = Downloader::new(1920, 1080, "./images".to_string(), 10);
    assert_eq!(d.image_path(&image()), "./images/20251011_383a612d3d17f82b406b9bd4c16b01ef.jpg");
    let d = Downloader::new(1920, 1080, "/var/lib/bing/".to_string(), 10);
    assert_eq!(d.image_path(&image()), "/var/lib/bing/20251011_383a612d3d17f82b406b9bd4c16b01ef.jpg");
}
