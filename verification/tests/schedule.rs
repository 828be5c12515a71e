use bing_hyprpaper::schedule::RefreshSchedule;

const SEC: u64 = 1_000_000_000;

#[test]
fn first_refresh_is_due_at_once() {
    let s = RefreshSchedule::new(6);
    assert_eq!(s.refresh_interval_secs, 21_600);
    assert_eq!(s.last_download, None);
    assert!(s.should_refresh(0));
    assert!(s.should_refresh(u64::MAX));
}

#[test]
fn refresh_due_after_the_interval() {
    let mut s = RefreshSchedule::new(1);
    s.record_download(5 * SEC);
    assert_eq!(s.last_download, Some(5 * SEC));
    assert!(!s.should_refresh(5 * SEC));
    assert!(!s.should_refresh(5 * SEC + 3600 * SEC - 1));
    assert!(s.should_refresh(5 * SEC + 3600 * SEC));
    assert!(s.should_refresh(5 * SEC + 7200 * SEC));
}

#[test]
fn clock_before_last_download_counts_as_no_time() {
    let mut s = RefreshSchedule::new(1);
    s.record_download(100 * SEC);
    assert!(!s.should_refresh(SEC));
    let mut z = RefreshSchedule::new(0);
    z.record_download(100 * SEC);
    assert!(z.should_refresh(SEC));
    assert!(z.should_refresh(100 * SEC));
}

#[test]
fn large_interval_does_not_overflow() {
    let mut s = RefreshSchedule::new(u64::MAX / 3600);
    s.record_download(0);
    assert!(!s.should_refresh(u64::MAX));
}
