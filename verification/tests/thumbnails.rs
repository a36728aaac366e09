use sukusho::thumbnail::{pixel_buffer_len, swap_red_blue, ThumbnailCache, DEFAULT_CACHE_SIZE, THUMBNAIL_SIZE};

#[test]
fn default_sizes() {
    assert_eq!(THUMBNAIL_SIZE, 150);
    assert_eq!(DEFAULT_CACHE_SIZE, 500);
    let cache: ThumbnailCache<u8> = ThumbnailCache::default();
    assert_eq!(cache.len(), 0);
}

#[test]
fn buffer_has_four_bytes_to_the_pixel() {
    assert_eq!(pixel_buffer_len(0), Some(0));
    assert_eq!(pixel_buffer_len(1), Some(4));
    assert_eq!(pixel_buffer_len(150), Some(90_000));
    assert_eq!(pixel_buffer_len(32), Some(4096));
}

#[test]
fn largest_picture_fits_or_is_refused() {
    let exact = (u32::MAX as u128) * (u32::MAX as u128) * 4;
    let expected = if exact <= usize::MAX as u128 { Some(exact as usize) } else { None };
    assert_eq!(pixel_buffer_len(u32::MAX), expected);
}

#[test]
fn red_and_blue_change_places() {
    let mut pixels = vec![1, 2, 3, 4, 5, 6, 7, 8];
    swap_red_blue(&mut pixels);
    assert_eq!(pixels, vec![3, 2, 1, 4, 7, 6, 5, 8]);
}

#[test]
fn bytes_short_of_a_pixel_stay() {
    let mut pixels = vec![1, 2, 3, 4, 5, 6, 7];
    swap_red_blue(&mut pixels);
    assert_eq!(pixels, vec![3, 2, 1, 4, 5, 6, 7]);
    let mut short = vec![1, 2, 3];
    swap_red_blue(&mut short);
    assert_eq!(short, vec![1, 2, 3]);
    let mut empty: Vec<u8> = vec![];
    swap_red_blue(&mut empty);
    assert_eq!(empty, Vec::<u8>::new());
}

#[test]
fn swapping_twice_gives_the_picture_back() {
    let picture: Vec<u8> = (0..=42).collect();
    let mut pixels = picture.clone();
    swap_red_blue(&mut pixels);
    assert_ne!(pixels, picture);
    swap_red_blue(&mut pixels);
    assert_eq!(pixels, picture);
}

#[test]
fn swapping_agrees_with_chunks() {
    let picture: Vec<u8> = (0..23).map(|n| n * 7).collect();
    let mut expected = picture.clone();
    for chunk in expected.chunks_exact_mut(4) {
        chunk.swap(0, 2);
    }
    let mut pixels = picture;
    swap_red_blue(&mut pixels);
    assert_eq!(pixels, expected);
}

#[test]
fn a_stored_thumbnail_is_found() {
    let mut cache = ThumbnailCache::new(3);
    assert_eq!(cache.get(b"a.png"), None);
    cache.insert(b"a.png", 1);
    cache.insert(b"b.png", 2);
    assert_eq!(cache.get(b"a.png"), Some(&1));
    assert_eq!(cache.get(b"b.png"), Some(&2));
    assert_eq!(cache.get(b"c.png"), None);
    assert_eq!(cache.len(), 2);
}

#[test]
fn storing_again_replaces() {
    let mut cache = ThumbnailCache::new(3);
    cache.insert(b"a.png", 1);
    cache.insert(b"a.png", 9);
    assert_eq!(cache.get(b"a.png"), Some(&9));
    assert_eq!(cache.len(), 1);
}

#[test]
fn a_full_cache_loses_its_oldest_entry() {
    let mut cache = ThumbnailCache::new(2);
    cache.insert(b"a.png", 1);
    cache.insert(b"b.png", 2);
    cache.insert(b"c.png", 3);
    assert_eq!(cache.len(), 2);
    assert_eq!(cache.get(b"a.png"), None);
    assert_eq!(cache.get(b"b.png"), Some(&2));
    assert_eq!(cache.get(b"c.png"), Some(&3));
}

#[test]
fn a_full_cache_makes_room_even_for_a_known_path() {
    let mut cache = ThumbnailCache::new(2);
    cache.insert(b"a.png", 1);
    cache.insert(b"b.png", 2);
    cache.insert(b"b.png", 7);
    assert_eq!(cache.get(b"a.png"), None);
    assert_eq!(cache.get(b"b.png"), Some(&7));
    assert_eq!(cache.len(), 1);
}

#[test]
fn a_cache_of_size_zero_keeps_one() {
    let mut cache = ThumbnailCache::new(0);
    cache.insert(b"a.png", 1);
    assert_eq!(cache.len(), 1);
    cache.insert(b"b.png", 2);
    assert_eq!(cache.len(), 1);
    assert_eq!(cache.get(b"a.png"), None);
    assert_eq!(cache.get(b"b.png"), Some(&2));
}

#[test]
fn get_or_create_makes_only_what_is_missing() {
    let mut cache = ThumbnailCache::new(3);
    assert_eq!(cache.get_or_create(b"a.png", || Some(1)), Some(&1));
    assert_eq!(cache.get_or_create(b"a.png", || -> Option<i32> { panic!("asked again") }), Some(&1));
    assert_eq!(cache.get_or_create(b"b.png", || None), None);
    assert_eq!(cache.len(), 1);
    assert_eq!(cache.get(b"b.png"), None);
}

#[test]
fn get_or_create_evicts_like_insert() {
    let mut cache = ThumbnailCache::new(1);
    assert_eq!(cache.get_or_create(b"a.png", || Some(1)), Some(&1));
    assert_eq!(cache.get_or_create(b"b.png", || Some(2)), Some(&2));
    assert_eq!(cache.get(b"a.png"), None);
    assert_eq!(cache.len(), 1);
}

#[test]
fn invalidate_removes_one_path() {
    let mut cache = ThumbnailCache::new(5);
    cache.insert(b"a.png", 1);
    cache.insert(b"b.png", 2);
    cache.insert(b"c.png", 3);
    cache.invalidate(b"b.png");
    assert_eq!(cache.len(), 2);
    assert_eq!(cache.get(b"a.png"), Some(&1));
    assert_eq!(cache.get(b"b.png"), None);
    assert_eq!(cache.get(b"c.png"), Some(&3));
    cache.invalidate(b"nowhere.png");
    assert_eq!(cache.len(), 2);
}

#[test]
fn clear_removes_everything() {
    let mut cache = ThumbnailCache::new(5);
    cache.insert(b"a.png", 1);
    cache.insert(b"b.png", 2);
    cache.clear();
    assert_eq!(cache.len(), 0);
    assert_eq!(cache.get(b"a.png"), None);
    cache.insert(b"a.png", 4);
    assert_eq!(cache.get(b"a.png"), Some(&4));
}
