use eilmeldung::content_images::{ContentImageCache, ContentImageState};

fn loaded(bytes: usize) -> ContentImageState {
    ContentImageState::Loaded { data: vec![0u8; bytes], width: 100, height: 100 }
}

#[test]
fn a_recorded_image_can_be_read_back() {
    let mut cache = ContentImageCache::new();
    cache.record("https://a/1.png".to_owned(), loaded(10));
    assert_eq!(Some(&[0u8; 10][..]), cache.image_data("https://a/1.png"));
    assert_eq!(10, cache.byte_count());
    assert_eq!(None, cache.image_data("https://a/2.png"));
}

#[test]
fn the_cache_keeps_at_most_sixty_four_images() {
    let mut cache = ContentImageCache::new();
    for i in 0..70 {
        cache.record(format!("u{i}"), ContentImageState::Unusable);
    }
    assert_eq!(64, cache.len());
    let urls: Vec<String> = (0..70).map(|i| format!("u{i}")).collect();
    let pending = cache.pending_urls(&urls);
    assert_eq!(vec!["u0", "u1", "u2", "u3", "u4", "u5"], pending);
}

#[test]
fn the_cache_keeps_its_bytes_bounded() {
    let mut cache = ContentImageCache::new();
    cache.record("big1".to_owned(), loaded(30 * 1024 * 1024));
    cache.record("big2".to_owned(), loaded(30 * 1024 * 1024));
    assert_eq!(1, cache.len());
    assert!(cache.image_data("big1").is_none());
    assert!(cache.image_data("big2").is_some());
    assert_eq!(30 * 1024 * 1024, cache.byte_count());
}

#[test]
fn a_batch_never_asks_for_a_known_url_and_is_bounded() {
    let mut cache = ContentImageCache::new();
    cache.record("known".to_owned(), ContentImageState::Unusable);
    let mut candidates: Vec<String> = vec!["known".to_owned()];
    for i in 0..30 {
        candidates.push(format!("new{i}"));
    }
    let batch = cache.pending_urls(&candidates);
    assert_eq!(24, batch.len());
    assert!(!batch.contains(&"known".to_owned()));
    assert_eq!("new0", batch[0]);
}

#[test]
fn aborting_forgets_only_pending_images() {
    let mut cache = ContentImageCache::new();
    cache.record("kept".to_owned(), loaded(5));
    cache.start_fetch(&["a".to_owned(), "b".to_owned()]);
    assert!(cache.fetch_running());
    assert_eq!(3, cache.len());
    cache.abort();
    assert!(!cache.fetch_running());
    assert_eq!(1, cache.len());
    assert_eq!(5, cache.byte_count());
    assert_eq!(vec![("kept".to_owned(), 100, 100)], cache.loaded_images());
}

#[test]
fn small_images_are_unusable() {
    let mut cache = ContentImageCache::new();
    assert!(cache.on_image_finished(true, "icon".to_owned(), Some(vec![1, 2, 3]), 16, 16));
    assert!(cache.image_data("icon").is_none());
    assert_eq!(1, cache.len());
    assert!(!cache.on_image_finished(false, "other".to_owned(), Some(vec![1]), 100, 100));
    assert_eq!(1, cache.len());
    assert!(cache.on_image_finished(true, "photo".to_owned(), Some(vec![7; 4]), 64, 64));
    assert_eq!(Some(&[7u8, 7, 7, 7][..]), cache.image_data("photo"));
    assert_eq!(4, loaded(4).byte_len());
    assert_eq!(0, ContentImageState::Pending.byte_len());
    cache.start_fetch(&[]);
    cache.on_images_finished(true);
    assert!(!cache.fetch_running());
}
