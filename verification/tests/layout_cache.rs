use dui_core::geometry::Rect;
use dui_core::layout::{same_path, Id, IdManager, Layout};

fn id(path: &[u32]) -> Id {
    Id::from(path.to_vec())
}

#[test]
fn missing_entry_reads_back_as_zero() {
    let cache = IdManager::new();
    let layout = cache.get_layout(id(&[0, 3]));
    assert_eq!(layout, Layout::zero());
    assert_eq!(layout.content_bounds, Rect::new(0, 0, 0, 0));
    assert_eq!(Layout::default(), Layout::zero());
}

#[test]
fn first_write_fills_all_three_rectangles() {
    let rect = Rect::new(1, 2, 3, 4);
    let mut cache = IdManager::new();
    assert!(cache.set_layout_content_rect(id(&[0]), rect).is_none());
    let layout = cache.get_layout(id(&[0]));
    assert_eq!(layout.border_bounds, rect);
    assert_eq!(layout.padding_bounds, rect);
    assert_eq!(layout.content_bounds, rect);

    let mut cache = IdManager::new();
    assert!(cache.set_layout_padding_rect(id(&[0]), rect).is_none());
    assert_eq!(
        cache.get_layout(id(&[0])),
        Layout { border_bounds: rect, padding_bounds: rect, content_bounds: rect }
    );

    let mut cache = IdManager::new();
    assert!(cache.set_layout_border_rect(id(&[0]), rect).is_none());
    assert_eq!(
        cache.get_layout(id(&[0])),
        Layout { border_bounds: rect, padding_bounds: rect, content_bounds: rect }
    );
}

#[test]
fn later_write_changes_only_the_named_rectangle() {
    let content = Rect::new(5, 5, 55, 55);
    let padding = Rect::new(0, 0, 60, 60);
    let border = Rect::new(-1, -1, 61, 61);
    let mut cache = IdManager::new();
    cache.set_layout_content_rect(id(&[0]), content);
    assert!(cache.set_layout_padding_rect(id(&[0]), padding).is_none());
    assert_eq!(
        cache.get_layout(id(&[0])),
        Layout { border_bounds: content, padding_bounds: padding, content_bounds: content }
    );
    assert!(cache.set_layout_border_rect(id(&[0]), border).is_none());
    assert_eq!(
        cache.get_layout(id(&[0])),
        Layout { border_bounds: border, padding_bounds: padding, content_bounds: content }
    );
    let moved = Rect::new(6, 6, 56, 56);
    assert!(cache.set_layout_content_rect(id(&[0]), moved).is_none());
    assert_eq!(
        cache.get_layout(id(&[0])),
        Layout { border_bounds: border, padding_bounds: padding, content_bounds: moved }
    );
    assert_eq!(cache.len(), 1);
}

#[test]
fn entries_are_kept_apart_by_path() {
    let mut cache = IdManager::new();
    cache.set_layout_content_rect(id(&[0, 0]), Rect::new(0, 0, 1, 1));
    cache.set_layout_content_rect(id(&[0, 1]), Rect::new(0, 0, 2, 2));
    cache.set_layout_content_rect(id(&[0]), Rect::new(0, 0, 3, 3));
    assert_eq!(cache.len(), 3);
    assert_eq!(cache.get_layout(id(&[0, 0])).content_bounds, Rect::new(0, 0, 1, 1));
    assert_eq!(cache.get_layout(id(&[0, 1])).content_bounds, Rect::new(0, 0, 2, 2));
    assert_eq!(cache.get_layout(id(&[0])).content_bounds, Rect::new(0, 0, 3, 3));
    assert_eq!(cache.get_layout(id(&[])).content_bounds, Rect::new(0, 0, 0, 0));
}

#[test]
fn remove_deletes_one_entry() {
    let mut cache = IdManager::new();
    cache.set_layout_content_rect(id(&[0, 0]), Rect::new(0, 0, 1, 1));
    cache.set_layout_content_rect(id(&[0, 1]), Rect::new(0, 0, 2, 2));
    cache.remove(id(&[0, 0]));
    assert_eq!(cache.len(), 1);
    assert_eq!(cache.get_layout(id(&[0, 0])), Layout::zero());
    assert_eq!(cache.get_layout(id(&[0, 1])).content_bounds, Rect::new(0, 0, 2, 2));
    cache.remove(id(&[7]));
    assert_eq!(cache.len(), 1);
}

#[test]
fn write_after_remove_starts_afresh() {
    let mut cache = IdManager::new();
    cache.set_layout_content_rect(id(&[0]), Rect::new(0, 0, 1, 1));
    cache.set_layout_padding_rect(id(&[0]), Rect::new(0, 0, 2, 2));
    cache.remove(id(&[0]));
    cache.set_layout_content_rect(id(&[0]), Rect::new(0, 0, 3, 3));
    assert_eq!(cache.get_layout(id(&[0])), Layout {
        border_bounds: Rect::new(0, 0, 3, 3),
        padding_bounds: Rect::new(0, 0, 3, 3),
        content_bounds: Rect::new(0, 0, 3, 3),
    });
}

#[test]
fn insert_records_zero_rectangles() {
    let mut cache = IdManager::new();
    cache.set_layout_content_rect(id(&[0]), Rect::new(0, 0, 1, 1));
    cache.insert(id(&[0]));
    cache.insert(id(&[1]));
    assert_eq!(cache.len(), 2);
    assert_eq!(cache.get_layout(id(&[0])), Layout::zero());
    assert_eq!(cache.get_layout(id(&[1])), Layout::zero());
}

#[test]
fn ids_are_equal_when_their_paths_are() {
    assert_eq!(id(&[0, 1, 2]), id(&[0, 1, 2]));
    assert_ne!(id(&[0, 1, 2]), id(&[0, 1]));
    assert_ne!(id(&[0, 1, 2]), id(&[0, 1, 3]));
    assert_eq!(id(&[]), id(&[]));
    let original = id(&[4, 5]);
    let copy = original.clone();
    assert_eq!(original, copy);
    assert_eq!(copy.segments(), &vec![4, 5]);
    assert!(same_path(&vec![1, 2], &vec![1, 2]));
    assert!(!same_path(&vec![1, 2], &vec![2, 1]));
}
