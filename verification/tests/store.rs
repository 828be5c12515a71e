use bing_hyprpaper::model::ImageStoreItem;
use bing_hyprpaper::order::sort_by_created;
use bing_hyprpaper::store::{is_jpg_file_name, wallpaper_index, DirEntryInfo, FileStore};

fn item(path: &str, t: i128) -> ImageStoreItem {
    ImageStoreItem { path: path.to_string(), file_created: t }
}

fn paths(items: &[ImageStoreItem]) -> Vec<String> {
    items.iter().map(|i| i.path.clone()).collect()
}

fn entry(name: &str, is_file: bool, modified: Option<i128>) -> DirEntryInfo {
    DirEntryInfo {
        path: format!("./images/{}", name),
        file_name: name.to_string(),
        is_file,
        modified,
    }
}

#[test]
fn sort_orders_by_time_and_keeps_ties_in_order() {
    let v = vec![item("a", 3), item("b", 1), item("c", 2), item("d", 1), item("e", -7)];
    let s = sort_by_created(v);
    assert_eq!(paths(&s), vec!["e", "b", "d", "c", "a"]);
}

#[test]
fn sort_of_empty_and_sorted_input() {
    assert!(sort_by_created(Vec::new()).is_empty());
    let v = vec![item("a", 1), item("b", 1), item("c", 4)];
    assert_eq!(paths(&sort_by_created(v)), vec!["a", "b", "c"]);
}

#[test]
fn maintain_removes_the_oldest_beyond_the_limit() {
    let mut store = FileStore::new();
    for (p, t) in [("a", 3), ("b", 1), ("c", 2), ("d", 1), ("e", 5)] {
        store.push(item(p, t));
    }
    let removed = store.maintain(2);
    assert_eq!(paths(&removed), vec!["b", "d", "c"]);
    assert_eq!(paths(&store.items), vec!["a", "e"]);
    assert_eq!(store.len(), 2);
}

#[test]
fn maintain_twice_removes_nothing_more() {
    let mut store = FileStore::new();
    for (p, t) in [("a", 30), ("b", 10), ("c", 20)] {
        store.push(item(p, t));
    }
    let first = store.maintain(2);
    assert_eq!(paths(&first), vec!["b"]);
    let kept = paths(&store.items);
    let second = store.maintain(2);
    assert!(second.is_empty());
    assert_eq!(paths(&store.items), kept);
}

#[test]
fn maintain_within_limit_only_sorts() {
    let mut store = FileStore::new();
    store.push(item("new", 9));
    store.push(item("old", 2));
    let removed = store.maintain(10);
    assert!(removed.is_empty());
    assert_eq!(paths(&store.items), vec!["old", "new"]);
}

#[test]
fn maintain_with_zero_limit_removes_everything() {
    let mut store = FileStore::new();
    store.push(item("x", 1));
    store.push(item("y", 0));
    let removed = store.maintain(0);
    assert_eq!(paths(&removed), vec!["y", "x"]);
    assert!(store.is_empty());
}

#[test]
fn jpg_names() {
    assert!(is_jpg_file_name("20251011_abc.jpg"));
    assert!(is_jpg_file_name("a.jpg"));
    assert!(is_jpg_file_name("..jpg"));
    assert!(is_jpg_file_name("a.b.jpg"));
    assert!(!is_jpg_file_name(".jpg"));
    assert!(!is_jpg_file_name("jpg"));
    assert!(!is_jpg_file_name("a.JPG"));
    assert!(!is_jpg_file_name("a.jpeg"));
    assert!(!is_jpg_file_name("a.json"));
    assert!(!is_jpg_file_name(""));
    assert!(is_jpg_file_name("é.jpg"));
}

#[test]
fn load_takes_jpg_files_untimed_first_then_by_time() {
    let entries = vec![
        entry("c.jpg", true, Some(30)),
        entry("meta.json", true, Some(1)),
        entry("u1.jpg", true, None),
        entry("a.jpg", true, Some(10)),
        entry("dir.jpg", false, Some(5)),
        entry("b.jpg", true, Some(10)),
        entry("u2.jpg", true, None),
        entry(".jpg", true, Some(0)),
    ];
    let mut store = FileStore::new();
    store.load_existing(entries, 1000);
    assert_eq!(
        paths(&store.items),
        vec![
            "./images/u1.jpg",
            "./images/u2.jpg",
            "./images/a.jpg",
            "./images/b.jpg",
            "./images/c.jpg"
        ]
    );
    let times: Vec<i128> = store.items.iter().map(|i| i.file_created).collect();
    assert_eq!(times, vec![1000, 1000, 10, 10, 30]);
}

#[test]
fn load_appends_to_the_store() {
    let mut store = FileStore::new();
    store.push(item("kept", 99));
    store.load_existing(vec![entry("x.jpg", true, Some(1))], 0);
    assert_eq!(paths(&store.items), vec!["kept", "./images/x.jpg"]);
}

#[test]
fn wallpaper_index_is_the_draw_modulo_the_count() {
    assert_eq!(wallpaper_index(17, 5), 2);
    assert_eq!(wallpaper_index(0, 1), 0);
    assert_eq!(wallpaper_index(u64::MAX, 10), (u64::MAX % 10) as usize);
}

#[test]
fn pick_wallpaper_on_empty_and_filled_store() {
    let mut store = FileStore::new();
    assert_eq!(store.pick_wallpaper(), None);
    store.push(item("a", 1));
    store.push(item("b", 2));
    store.push(item("c", 3));
    for _ in 0..50 {
        let i = store.pick_wallpaper().unwrap();
        assert!(i < 3);
        assert_eq!(store.get(i).path, ["a", "b", "c"][i]);
    }
}
