use bing_hyprpaper::paths::{file_in_dir, metadata_path, wallpaper_link_path};

#[test]
fn metadata_beside_the_image() {
    assert_eq!(metadata_path("./images/a_b.jpg"), "./images/a_b.json");
    assert_eq!(metadata_path("/x/y/photo"), "/x/y/photo.json");
    assert_eq!(metadata_path("/x/y.z/photo.tar.jpg"), "/x/y.z/photo.tar.json");
}

#[test]
fn wallpaper_link_beside_the_info_link() {
    assert_eq!(wallpaper_link_path("./current_wallpaper.json"), "./current_wallpaper.jpg");
    assert_eq!(wallpaper_link_path("/tmp/current"), "/tmp/current.jpg");
}

#[test]
fn file_in_directory() {
    assert_eq!(file_in_dir("./images", "a.jpg"), "./images/a.jpg");
    assert_eq!(file_in_dir("./images/", "a.jpg"), "./images/a.jpg");
    assert_eq!(file_in_dir("./images", "/abs/a.jpg"), "/abs/a.jpg");
}
