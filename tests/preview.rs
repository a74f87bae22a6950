use picker::picker::{Action, Key, Response};
use picker::preview::{FilePicker, PreviewCache, PreviewSource};
use std::cell::Cell;

#[test]
fn second_request_is_served_from_cache() {
    let loads = Cell::new(0u32);
    let mut cache: PreviewCache<String> = PreviewCache::new();
    let load = |p: &String| {
        loads.set(loads.get() + 1);
        Some(format!("contents of {}", p))
    };
    assert_eq!(cache.get_or_load("/a/b.rs".to_string(), false, load), PreviewSource::Loaded);
    assert_eq!(loads.get(), 1);
    let load = |p: &String| {
        loads.set(loads.get() + 1);
        Some(format!("other contents of {}", p))
    };
    assert_eq!(cache.get_or_load("/a/b.rs".to_string(), false, load), PreviewSource::Cached);
    assert_eq!(loads.get(), 1);
    assert_eq!(cache.get(&"/a/b.rs".to_string()), Some(&"contents of /a/b.rs".to_string()));
}

#[test]
fn live_document_bypasses_cache() {
    let loads = Cell::new(0u32);
    let mut cache: PreviewCache<String> = PreviewCache::new();
    let load = |_: &String| {
        loads.set(loads.get() + 1);
        Some("x".to_string())
    };
    assert_eq!(cache.get_or_load("/live.rs".to_string(), true, load), PreviewSource::Live);
    assert_eq!(loads.get(), 0);
    assert_eq!(cache.get(&"/live.rs".to_string()), None);
}

#[test]
fn failed_load_is_not_cached_and_retried() {
    let mut cache: PreviewCache<String> = PreviewCache::new();
    assert_eq!(cache.get_or_load("/gone.rs".to_string(), false, |_: &String| None), PreviewSource::Unavailable);
    assert_eq!(cache.get(&"/gone.rs".to_string()), None);
    let r = cache.get_or_load("/gone.rs".to_string(), false, |_: &String| Some("back".to_string()));
    assert_eq!(r, PreviewSource::Loaded);
    assert_eq!(cache.get(&"/gone.rs".to_string()), Some(&"back".to_string()));
}

#[test]
fn distinct_paths_get_distinct_entries() {
    let mut cache: PreviewCache<u32> = PreviewCache::new();
    cache.get_or_load("/a".to_string(), false, |_: &String| Some(1));
    cache.get_or_load("/b".to_string(), false, |_: &String| Some(2));
    assert_eq!(cache.get(&"/a".to_string()), Some(&1));
    assert_eq!(cache.get(&"/b".to_string()), Some(&2));
}

#[test]
fn file_picker_previews_highlighted_path() {
    let mut fp: FilePicker<String, String> =
        FilePicker::new(vec!["a.rs".to_string(), "b.rs".to_string()], |s: &String| s.clone());
    assert!(!fp.picker().render_centered());
    assert_eq!(fp.calculate_preview(None, false, |_: &String| Some("x".to_string())), None);
    let path = format!("/root/{}", fp.picker().selection().unwrap());
    let r = fp.calculate_preview(Some(path.clone()), false, |_: &String| Some("text a".to_string()));
    assert_eq!(r, Some(PreviewSource::Loaded));
    let r = fp.calculate_preview(Some(path.clone()), false, |_: &String| Some("again".to_string()));
    assert_eq!(r, Some(PreviewSource::Cached));
    assert_eq!(fp.preview_cache().get(&path), Some(&"text a".to_string()));
    assert_eq!(fp.handle_key(Key::Down), Response::Consumed);
    assert_eq!(fp.picker().selection(), Some(&"b.rs".to_string()));
    fp.set_query("a".to_string());
    assert_eq!(fp.handle_key(Key::Confirm(Action::HorizontalSplit)), Response::Dispatch { index: 0, action: Action::HorizontalSplit });
}

#[test]
fn file_picker_failed_load_leaves_cache_and_retries() {
    let mut fp: FilePicker<String, String> = FilePicker::new(vec!["a.rs".to_string()], |s: &String| s.clone());
    let path = "/root/a.rs".to_string();
    let r = fp.calculate_preview(Some(path.clone()), false, |_: &String| None);
    assert_eq!(r, Some(PreviewSource::Unavailable));
    assert_eq!(fp.preview_cache().get(&path), None);
    let r = fp.calculate_preview(Some(path.clone()), true, |_: &String| Some("never".to_string()));
    assert_eq!(r, Some(PreviewSource::Live));
    assert_eq!(fp.preview_cache().get(&path), None);
    let seen = std::cell::RefCell::new(Vec::new());
    let r = fp.calculate_preview(Some(path.clone()), false, |p: &String| {
        seen.borrow_mut().push(p.clone());
        Some("loaded".to_string())
    });
    assert_eq!(r, Some(PreviewSource::Loaded));
    assert_eq!(*seen.borrow(), vec![path.clone()]);
    assert_eq!(fp.preview_cache().get(&path), Some(&"loaded".to_string()));
}
