use four_code::engine::Highlighter;
use four_code::highlight::{HighlightCache, Segment, EVICT_COUNT, MAX_CACHE_SIZE};
use four_code::language::Language;
use four_code::style::{style_for_highlight, TextStyle};

fn joined(segments: &Vec<Segment>) -> String {
    let mut out = String::new();
    for s in segments {
        out.push_str(&s.text);
    }
    out
}

#[test]
fn test_highlighter_creation() {
    let hl = Highlighter::new();
    assert!(hl.supports_language(Language::Php));
    assert!(hl.supports_language(Language::JavaScript));
    assert!(hl.supports_language(Language::Rust));
}

#[test]
fn test_highlight_cache() {
    let hl = Highlighter::new();
    let mut cache = HighlightCache::new();

    // Without language set
    let segments = cache.get_line(&hl, 0, "hello world");
    assert_eq!(segments.len(), 1);
    assert_eq!(segments[0].text, "hello world");

    // With PHP
    cache.set_language(Some(Language::Php));
    let segments = cache.get_line(&hl, 0, "<?php echo 'Hello';");
    assert!(segments.len() > 1, "PHP should be highlighted");
}

#[test]
fn test_cache_invalidation() {
    let hl = Highlighter::new();
    let mut cache = HighlightCache::new();

    cache.get_line(&hl, 0, "line 0");
    cache.get_line(&hl, 1, "line 1");
    cache.get_line(&hl, 2, "line 2");

    cache.invalidate_from(1);

    // line 0 is still cached: asking with other text returns the
    // cached segments; lines past the boundary are recomputed
    assert_eq!(joined(cache.get_line(&hl, 0, "other")), "line 0");
    assert_eq!(joined(cache.get_line(&hl, 1, "new line 1")), "new line 1");
}

#[test]
fn test_invalidate_line() {
    let hl = Highlighter::new();
    let mut cache = HighlightCache::new();
    cache.get_line(&hl, 4, "four");
    cache.get_line(&hl, 5, "five");
    cache.invalidate_line(4);
    assert_eq!(joined(cache.get_line(&hl, 4, "recomputed")), "recomputed");
    assert_eq!(joined(cache.get_line(&hl, 5, "stale")), "five");
}

#[test]
fn test_cache_eviction() {
    // fill the cache to capacity, then one more line evicts the least
    // recently used fifth
    let hl = Highlighter::new();
    let mut cache = HighlightCache::new();
    for i in 0..MAX_CACHE_SIZE {
        cache.get_line(&hl, i, &format!("line {}", i));
    }
    cache.get_line(&hl, MAX_CACHE_SIZE, "one more");

    // the oldest fifth is gone: such a line is recomputed, not returned
    // from a stale entry
    assert_eq!(joined(cache.get_line(&hl, 5, "changed")), "changed");
    assert_eq!(joined(cache.get_line(&hl, EVICT_COUNT - 1, "also changed")), "also changed");
    // entries after the evicted fifth survive with their old content
    assert_eq!(
        joined(cache.get_line(&hl, EVICT_COUNT, "ignored")),
        format!("line {}", EVICT_COUNT)
    );
    assert_eq!(
        joined(cache.get_line(&hl, MAX_CACHE_SIZE - 1, "ignored")),
        format!("line {}", MAX_CACHE_SIZE - 1)
    );
}

#[test]
fn test_language_change_clears() {
    let hl = Highlighter::new();
    let mut cache = HighlightCache::new();

    assert_eq!(joined(cache.get_line(&hl, 0, "abc")), "abc");
    // setting the same language keeps the cache
    cache.set_language(None);
    assert_eq!(joined(cache.get_line(&hl, 0, "zzz")), "abc");
    // a different language clears every cached segment: the next
    // get_line recomputes for every line
    cache.set_language(Some(Language::Json));
    assert_eq!(cache.current_language(), Some(Language::Json));
    assert!(cache.has_highlighting());
    assert_eq!(joined(cache.get_line(&hl, 0, "xyz")), "xyz");
}

#[test]
fn test_default_style_change_clears() {
    let hl = Highlighter::new();
    let mut cache = HighlightCache::new();
    assert_eq!(joined(cache.get_line(&hl, 0, "abc")), "abc");
    cache.set_default_style(TextStyle::rgb(1, 2, 3));
    let segments = cache.get_line(&hl, 0, "new text");
    assert_eq!(segments.len(), 1);
    assert_eq!(segments[0].text, "new text");
    assert_eq!(segments[0].style, TextStyle::rgb(1, 2, 3));
}

#[test]
fn test_style_table() {
    let keyword = style_for_highlight("keyword");
    assert!(keyword.bold);
    assert_eq!((keyword.red, keyword.green, keyword.blue), (198, 120, 221));
    let comment = style_for_highlight("comment");
    assert!(comment.italic && !comment.bold);
    // unknown categories fall back to the default gray
    let unknown = style_for_highlight("no-such-category");
    assert_eq!((unknown.red, unknown.green, unknown.blue), (171, 178, 191));
}

#[test]
fn test_set_language_from_path() {
    let hl = Highlighter::new();
    let mut cache = HighlightCache::new();
    cache.set_language_from_path("lib/util.ts");
    assert_eq!(cache.current_language(), Some(Language::TypeScript));
    cache.set_language_from_path("README.nope");
    assert_eq!(cache.current_language(), None);
    assert!(!cache.has_highlighting());
    let _ = hl;
}
