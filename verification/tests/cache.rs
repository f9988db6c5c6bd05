use snui::cache::{ContentCache, MAX_CAPACITY};
use snui::content::{Content, Pixel};
use snui::Error;

fn text(s: &str) -> Content {
    Content::Text(s.to_string())
}

#[test]
fn third_pending_entry_pushes_the_first_out() {
    let mut cache = ContentCache::new(2);
    assert!(cache.mark_pending(1));
    assert!(cache.mark_pending(2));
    assert!(cache.mark_pending(3));
    assert!(!cache.contains(1));
    assert!(cache.contains(2));
    assert!(cache.contains(3));
    assert_eq!(cache.len(), 2);
}

#[test]
fn cache_never_holds_more_than_its_capacity() {
    for capacity in 1..6usize {
        let mut cache = ContentCache::new(capacity);
        for index in 0..20usize {
            cache.mark_pending(index % 7);
            let _ = cache.resolve((index * 3) % 7, text("x"));
            assert!(cache.len() <= capacity);
            assert_eq!(cache.capacity(), capacity);
        }
    }
}

#[test]
fn resolve_needs_a_pending_entry() {
    let mut cache = ContentCache::new(4);
    // No entry at all.
    assert!(matches!(cache.resolve(9, text("a")), Err(Error::ProtocolViolation(9))));
    assert!(!cache.contains(9));
    assert_eq!(cache.len(), 0);
    // A pending entry.
    cache.mark_pending(9);
    assert!(cache.pending(9));
    assert!(cache.resolve(9, text("a")).is_ok());
    assert!(!cache.pending(9));
    assert!(matches!(cache.get(9), Some(Content::Text(t)) if t == "a"));
    // An entry that is resolved already.
    assert!(matches!(cache.resolve(9, text("b")), Err(Error::ProtocolViolation(9))));
    assert!(matches!(cache.get(9), Some(Content::Text(t)) if t == "a"));
}

#[test]
fn resolve_after_eviction_changes_nothing() {
    let mut cache = ContentCache::new(2);
    cache.mark_pending(1);
    cache.mark_pending(2);
    cache.mark_pending(3);
    assert!(cache.resolve(1, text("late")).is_err());
    assert!(!cache.contains(1));
    assert!(cache.contains(2) && cache.contains(3));
    assert_eq!(cache.len(), 2);
}

#[test]
fn get_of_a_pending_entry_gives_nothing_but_counts_as_use() {
    let mut cache = ContentCache::new(2);
    cache.mark_pending(1);
    cache.mark_pending(2);
    assert!(cache.get(1).is_none());
    // 2 is now the least recently used entry.
    cache.mark_pending(3);
    assert!(cache.contains(1));
    assert!(!cache.contains(2));
    assert!(cache.contains(3));
}

#[test]
fn get_of_an_absent_entry_changes_nothing() {
    let mut cache = ContentCache::new(2);
    cache.mark_pending(1);
    cache.mark_pending(2);
    assert!(cache.get(7).is_none());
    assert!(!cache.contains(7));
    cache.mark_pending(3);
    assert!(!cache.contains(1));
}

#[test]
fn resolving_counts_as_use() {
    let mut cache = ContentCache::new(2);
    cache.mark_pending(1);
    cache.mark_pending(2);
    assert!(cache.resolve(1, text("one")).is_ok());
    cache.mark_pending(3);
    assert!(cache.contains(1));
    assert!(!cache.contains(2));
}

#[test]
fn asking_whether_an_entry_is_there_does_not_count_as_use() {
    let mut cache = ContentCache::new(2);
    cache.mark_pending(1);
    cache.mark_pending(2);
    assert!(cache.contains(1));
    assert!(cache.pending(1));
    cache.mark_pending(3);
    assert!(!cache.contains(1));
}

#[test]
fn marking_an_entry_that_is_there_changes_nothing() {
    let mut cache = ContentCache::new(2);
    cache.mark_pending(1);
    cache.mark_pending(2);
    assert!(cache.resolve(1, text("one")).is_ok());
    // 2 is the least recently used entry; marking it again does not renew it.
    assert!(!cache.mark_pending(2));
    assert!(!cache.mark_pending(1));
    assert!(matches!(cache.get(1), Some(Content::Text(t)) if t == "one"));
    cache.mark_pending(3);
    assert!(!cache.contains(2));
}

#[test]
fn pending_entries_can_be_pushed_out() {
    let mut cache = ContentCache::new(1);
    cache.mark_pending(1);
    cache.mark_pending(2);
    assert!(!cache.contains(1));
    assert!(cache.pending(2));
}

#[test]
fn cache_without_room_stays_empty() {
    let mut cache = ContentCache::new(0);
    assert!(cache.mark_pending(1));
    assert!(!cache.contains(1));
    assert_eq!(cache.len(), 0);
    assert!(cache.resolve(1, text("x")).is_err());
}

#[test]
fn clear_empties_the_cache_and_keeps_its_capacity() {
    let mut cache = ContentCache::new(3);
    cache.mark_pending(1);
    cache.mark_pending(2);
    cache.clear();
    assert_eq!(cache.len(), 0);
    assert_eq!(cache.capacity(), 3);
    assert!(!cache.contains(1));
    assert!(cache.mark_pending(1));
}

#[test]
fn cache_holds_images() {
    let mut cache = ContentCache::new(3);
    cache.mark_pending(5);
    let pixel = Pixel { r: 1, g: 2, b: 3, a: 255 };
    let image = Content::Image { pixels: vec![pixel, pixel], width: 2, height: 1 };
    assert!(cache.resolve(5, image).is_ok());
    match cache.get(5) {
        Some(Content::Image { pixels, width, height }) => {
            assert_eq!(pixels.len(), 2);
            assert_eq!(pixels[1], pixel);
            assert_eq!((*width, *height), (2, 1));
        }
        _ => panic!("no image"),
    }
}

#[test]
fn cache_of_the_largest_capacity_can_be_made() {
    let cache = ContentCache::new(MAX_CAPACITY);
    assert_eq!(cache.capacity(), MAX_CAPACITY);
    assert_eq!(cache.len(), 0);
}
