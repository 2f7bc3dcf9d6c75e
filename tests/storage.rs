use quest_shadowplay::storage::{
    check_storage_permission, clip_thumbnail, parse_clip_timestamp,
    request_storage_permission, ClipInfo, ClipTimestamp, StorageManager,
};
use quest_shadowplay::CapturedFrame;

fn clip(size: u64) -> ClipInfo {
    ClipInfo { path: String::new(), filename: String::new(), size_bytes: size, modified_secs: None }
}

#[test]
fn test_filename_generation() {
    let stamp = chrono::Local::now().format("%Y%m%d_%H%M%S").to_string();
    let filename = StorageManager::generate_filename("/test/", &stamp);

    assert!(filename.contains("clip_"));
    assert!(filename.ends_with(".mp4"));
    assert!(filename.contains("_202"));
}

#[test]
fn clip_path_joins_once() {
    assert_eq!(StorageManager::generate_filename("/a/", "20241227_143052"), "/a/clip_20241227_143052.mp4");
    assert_eq!(StorageManager::generate_filename("/a", "20241227_143052"), "/a/clip_20241227_143052.mp4");
    assert_eq!(StorageManager::generate_filename("", "x"), "clip_x.mp4");
}

#[test]
fn timestamp_read_from_name() {
    assert_eq!(
        parse_clip_timestamp("clip_20241227_143052.qsp"),
        Some(ClipTimestamp { year: 2024, month: 12, day: 27, hour: 14, minute: 30, second: 52 })
    );
    assert_eq!(parse_clip_timestamp("clip_2024122_143052"), None);
    assert_eq!(parse_clip_timestamp("movie_20241227_143052.qsp"), None);
    assert_eq!(parse_clip_timestamp("clip_2024a227_143052.qsp"), None);
}

#[test]
fn cleanup_removes_fewest_oldest() {
    let manager = StorageManager::new("/clips");
    let clips = vec![clip(100), clip(200), clip(300)];
    assert_eq!(manager.total_storage_used(&clips), 600);
    assert_eq!(manager.clip_count(&clips), 3);
    assert_eq!(manager.cleanup_to_limit(&clips, 600), 0);
    assert_eq!(manager.cleanup_to_limit(&clips, 350), 1);
    assert_eq!(manager.cleanup_to_limit(&clips, 300), 1);
    assert_eq!(manager.cleanup_to_limit(&clips, 299), 2);
    assert_eq!(manager.cleanup_to_limit(&clips, 50), 3);
}

#[test]
fn total_saturates() {
    let manager = StorageManager::new("/clips");
    let clips = vec![clip(u64::MAX), clip(5)];
    assert_eq!(manager.total_storage_used(&clips), u64::MAX);
}

#[test]
fn space_check_keeps_a_tenth_spare() {
    let manager = StorageManager::new("/clips");
    let avail = manager.available_storage().unwrap();
    assert_eq!(avail, 10 * 1024 * 1024 * 1024);
    assert!(manager.has_space_for(1000).unwrap());
    assert!(!manager.has_space_for(avail).unwrap());
    assert!(!manager.has_space_for(u64::MAX).unwrap());
    assert!(check_storage_permission());
    assert!(request_storage_permission().unwrap());
}

#[test]
fn manager_settings() {
    let mut manager = StorageManager::new("/clips");
    manager.set_max_storage(5);
    manager.set_auto_cleanup(false);
    assert_eq!(manager.output_directory(), "/clips");
    assert_eq!(manager.get_new_clip_path("20250101_000000"), "/clips/clip_20250101_000000.mp4");
}

#[test]
fn thumbnail_is_base64_data_url() {
    let frames = vec![CapturedFrame::with_timestamp(vec![1, 2, 3], 0, 1, 1, 0)];
    assert_eq!(clip_thumbnail(&frames), Some("data:image/jpeg;base64,AQID".to_string()));
    assert_eq!(clip_thumbnail(&[]), None);
}

fn clip_at(modified: Option<u64>) -> ClipInfo {
    ClipInfo { path: String::new(), filename: String::new(), size_bytes: 0, modified_secs: modified }
}

#[test]
fn age_in_words() {
    let now = 1_000_000;
    assert_eq!(clip_at(None).age_human(now), "unknown");
    assert_eq!(clip_at(Some(now - 30)).age_human(now), "just now");
    assert_eq!(clip_at(Some(now + 500)).age_human(now), "just now");
    assert_eq!(clip_at(Some(now - 60)).age_human(now), "1 minute ago");
    assert_eq!(clip_at(Some(now - 5 * 60 - 10)).age_human(now), "5 minutes ago");
    assert_eq!(clip_at(Some(now - 2 * 3600)).age_human(now), "2 hours ago");
    assert_eq!(clip_at(Some(now - 3600)).age_human(now), "1 hour ago");
    assert_eq!(clip_at(Some(now - 86_400 - 5)).age_human(now), "yesterday");
    assert_eq!(clip_at(Some(now - 3 * 86_400)).age_human(now), "3 days ago");
    assert_eq!(clip_at(Some(0)).age_human(now), "11 days ago");
}

#[test]
fn age_in_seconds() {
    assert_eq!(clip_at(Some(10)).age(25), Some(15));
    assert_eq!(clip_at(Some(25)).age(10), Some(-15));
    assert_eq!(clip_at(None).age(10), None);
}

#[test]
fn clips_sorted_newest_first() {
    let mut a = clip_at(Some(5));
    a.filename = "a".to_string();
    let mut b = clip_at(None);
    b.filename = "b".to_string();
    let mut c = clip_at(Some(9));
    c.filename = "c".to_string();
    let mut d = clip_at(Some(5));
    d.filename = "d".to_string();
    let sorted = quest_shadowplay::storage::sort_newest_first(vec![a, b, c, d]);
    let names: Vec<&str> = sorted.iter().map(|x| x.filename.as_str()).collect();
    assert_eq!(names, vec!["c", "a", "d", "b"]);
}
