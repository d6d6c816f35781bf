use cursor_overlay::cache::{CachedCursor, CursorCache};

fn entry(texture: &'static str, w: u32) -> CachedCursor<&'static str> {
    CachedCursor { texture, width: w, height: w, hotspot_x: 1, hotspot_y: 2 }
}

#[test]
fn cache_reads_back_what_was_kept() {
    let mut cache = CursorCache::new();
    assert!(!cache.contains(0x1234));
    assert!(cache.get(0x1234).is_none());
    cache.insert(0x1234, entry("arrow", 32));
    cache.insert(-7, entry("hand", 48));
    assert!(cache.contains(0x1234));
    let e = cache.get(0x1234).unwrap();
    assert_eq!((e.texture, e.width, e.hotspot_y), ("arrow", 32, 2));
    assert_eq!(cache.get(-7).unwrap().texture, "hand");
    cache.insert(0x1234, entry("beam", 16));
    assert_eq!(cache.get(0x1234).unwrap().texture, "beam");
    assert_eq!(cache.get(-7).unwrap().texture, "hand");
}
