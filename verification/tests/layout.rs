use std::cell::RefCell;
use tui_widget_list::{resolve, LayoutElement, ScrollAnchor};

const SIZES: [u16; 14] = [4, 6, 5, 4, 3, 3, 6, 5, 7, 3, 6, 9, 4, 6];

fn element(index: usize, offset: i32, size: u16, full: bool) -> LayoutElement {
    LayoutElement {
        index,
        main_axis_offset: offset,
        main_axis_size: size,
        is_fully_visible: full,
    }
}

fn anchor(index: usize, offset: u16) -> ScrollAnchor {
    ScrollAnchor { index, offset }
}

fn indices(items: &[LayoutElement]) -> Vec<usize> {
    items.iter().map(|e| e.index).collect()
}

#[test]
fn window_from_the_origin_fills_the_viewport() {
    let (items, used) = resolve(20, SIZES.len(), ScrollAnchor::origin(), None, |i| SIZES[i]);
    assert_eq!(used, anchor(0, 0));
    assert_eq!(
        items,
        vec![
            element(0, 0, 4, true),
            element(1, 4, 6, true),
            element(2, 10, 5, true),
            element(3, 15, 4, true),
            element(4, 19, 3, false),
        ]
    );
}

#[test]
fn selection_past_the_window_aligns_its_trailing_edge() {
    let (items, used) = resolve(20, SIZES.len(), ScrollAnchor::origin(), Some(11), |i| SIZES[i]);
    assert_eq!(used, anchor(8, 5));
    assert_eq!(
        items,
        vec![
            element(8, -5, 7, false),
            element(9, 2, 3, true),
            element(10, 5, 6, true),
            element(11, 11, 9, true),
        ]
    );
    let last = items.last().unwrap();
    assert_eq!(last.index, 11);
    assert!(last.is_fully_visible);
    assert_eq!(last.main_axis_offset + i32::from(last.main_axis_size), 20);
}

#[test]
fn empty_list_resolves_to_nothing() {
    let (items, used) = resolve(20, 0, anchor(3, 2), None, |_| 1);
    assert!(items.is_empty());
    assert_eq!(used, ScrollAnchor::origin());
    let (items, used) = resolve(20, 0, anchor(3, 2), Some(4), |_| 1);
    assert!(items.is_empty());
    assert_eq!(used, ScrollAnchor::origin());
}

#[test]
fn viewport_without_length_shows_nothing() {
    let (items, used) = resolve(0, SIZES.len(), anchor(2, 3), Some(9), |i| SIZES[i]);
    assert!(items.is_empty());
    assert_eq!(used, anchor(2, 3));
}

#[test]
fn selection_before_the_anchor_becomes_the_anchor() {
    let (items, used) = resolve(20, SIZES.len(), anchor(5, 1), Some(2), |i| SIZES[i]);
    assert_eq!(used, anchor(2, 0));
    assert_eq!(
        items,
        vec![
            element(2, 0, 5, true),
            element(3, 5, 4, true),
            element(4, 9, 3, true),
            element(5, 12, 3, true),
            element(6, 15, 6, false),
        ]
    );
}

#[test]
fn selection_inside_the_window_keeps_the_anchor() {
    let (items, used) = resolve(20, SIZES.len(), anchor(1, 2), Some(4), |i| SIZES[i]);
    assert_eq!(used, anchor(1, 2));
    assert_eq!(
        items,
        vec![
            element(1, -2, 6, false),
            element(2, 4, 5, true),
            element(3, 9, 4, true),
            element(4, 13, 3, true),
            element(5, 16, 3, true),
            element(6, 19, 6, false),
        ]
    );
}

#[test]
fn clipped_selection_at_the_trailing_edge_counts_as_shown() {
    let (items, used) = resolve(20, SIZES.len(), ScrollAnchor::origin(), Some(4), |i| SIZES[i]);
    assert_eq!(used, anchor(0, 0));
    assert_eq!(indices(&items), vec![0, 1, 2, 3, 4]);
}

#[test]
fn selection_one_past_the_window_scrolls_forward() {
    let (items, used) = resolve(20, SIZES.len(), ScrollAnchor::origin(), Some(5), |i| SIZES[i]);
    assert_eq!(used, anchor(1, 1));
    assert_eq!(
        items,
        vec![
            element(1, -1, 6, false),
            element(2, 5, 5, true),
            element(3, 10, 4, true),
            element(4, 14, 3, true),
            element(5, 17, 3, true),
        ]
    );
}

#[test]
fn anchor_past_the_end_falls_back_to_the_last_item() {
    let (items, used) = resolve(20, SIZES.len(), anchor(40, 3), None, |i| SIZES[i]);
    assert_eq!(used, anchor(13, 0));
    assert_eq!(items, vec![element(13, 0, 6, true)]);
}

#[test]
fn offset_outside_its_item_falls_back_to_the_leading_edge() {
    let (items, used) = resolve(10, SIZES.len(), anchor(1, 6), None, |i| SIZES[i]);
    assert_eq!(used, anchor(1, 0));
    assert_eq!(items, vec![element(1, 0, 6, true), element(2, 6, 5, false)]);
    let (_, used) = resolve(10, SIZES.len(), anchor(1, 5), None, |i| SIZES[i]);
    assert_eq!(used, anchor(1, 5));
}

#[test]
fn selection_past_the_end_counts_as_the_last_item() {
    let (items, used) = resolve(20, SIZES.len(), ScrollAnchor::origin(), Some(99), |i| SIZES[i]);
    assert_eq!(used, anchor(10, 5));
    assert_eq!(
        items,
        vec![
            element(10, -5, 6, false),
            element(11, 1, 9, true),
            element(12, 10, 4, true),
            element(13, 14, 6, true),
        ]
    );
    assert_eq!(
        (items, used),
        resolve(20, SIZES.len(), ScrollAnchor::origin(), Some(13), |i| SIZES[i])
    );
}

#[test]
fn item_larger_than_the_viewport_is_clipped() {
    let (items, used) = resolve(20, 3, ScrollAnchor::origin(), Some(1), |i| [5, 30, 5][i]);
    assert_eq!(used, anchor(0, 0));
    assert_eq!(items, vec![element(0, 0, 5, true), element(1, 5, 30, false)]);
    let (items, used) = resolve(20, 3, anchor(1, 0), None, |i| [5, 30, 5][i]);
    assert_eq!(used, anchor(1, 0));
    assert_eq!(items, vec![element(1, 0, 30, false)]);
    let (items, used) = resolve(20, 3, ScrollAnchor::origin(), Some(2), |i| [5, 30, 5][i]);
    assert_eq!(used, anchor(1, 15));
    assert_eq!(items, vec![element(1, -15, 30, false), element(2, 15, 5, true)]);
    let (items, used) = resolve(20, 2, ScrollAnchor::origin(), Some(1), |i| [25, 30][i]);
    assert_eq!(used, anchor(1, 10));
    assert_eq!(items, vec![element(1, -10, 30, false)]);
}

#[test]
fn item_that_exactly_fits_is_fully_visible() {
    let (items, used) = resolve(20, 3, anchor(1, 0), Some(1), |i| [5, 20, 5][i]);
    assert_eq!(used, anchor(1, 0));
    assert_eq!(items, vec![element(1, 0, 20, true)]);
    let (items, used) = resolve(20, 3, ScrollAnchor::origin(), Some(2), |i| [25, 20, 5][i]);
    assert_eq!(used, anchor(1, 5));
    assert_eq!(items, vec![element(1, -5, 20, false), element(2, 15, 5, true)]);
    let (items, used) = resolve(20, 2, ScrollAnchor::origin(), Some(1), |i| [25, 20][i]);
    assert_eq!(used, anchor(1, 0));
    assert_eq!(items, vec![element(1, 0, 20, true)]);
}

#[test]
fn short_list_leaves_the_rest_of_the_viewport_empty() {
    let (items, used) = resolve(20, 3, ScrollAnchor::origin(), Some(2), |i| [2, 3, 4][i]);
    assert_eq!(used, anchor(0, 0));
    assert_eq!(
        items,
        vec![element(0, 0, 2, true), element(1, 2, 3, true), element(2, 5, 4, true)]
    );
}

#[test]
fn items_without_size_are_shown_before_the_trailing_edge() {
    let sizes: [u16; 5] = [0, 3, 0, 0, 2];
    let (items, used) = resolve(5, 5, ScrollAnchor::origin(), None, |i| sizes[i]);
    assert_eq!(used, anchor(0, 0));
    assert_eq!(
        items,
        vec![
            element(0, 0, 0, true),
            element(1, 0, 3, true),
            element(2, 3, 0, true),
            element(3, 3, 0, true),
            element(4, 3, 2, true),
        ]
    );
}

#[test]
fn selected_item_without_size_at_the_trailing_edge_is_not_shown() {
    let sizes: [u16; 3] = [5, 5, 0];
    let (items, used) = resolve(5, 3, ScrollAnchor::origin(), Some(2), |i| sizes[i]);
    assert_eq!(used, anchor(1, 0));
    assert_eq!(items, vec![element(1, 0, 5, true)]);
}

#[test]
fn window_overhangs_by_less_than_its_last_item() {
    for viewport in 0..40u16 {
        for start in 0..SIZES.len() {
            for offset in 0..SIZES[start] {
                let (items, used) =
                    resolve(viewport, SIZES.len(), anchor(start, offset), None, |i| SIZES[i]);
                assert_eq!(used, anchor(start, offset));
                let total: i32 = items.iter().map(|e| i32::from(e.main_axis_size)).sum();
                match items.last() {
                    Some(last) => {
                        let extent = total - i32::from(used.offset);
                        assert!(extent - i32::from(last.main_axis_size) < i32::from(viewport));
                        assert!(last.main_axis_offset < i32::from(viewport));
                    }
                    None => assert_eq!(viewport, 0),
                }
            }
        }
    }
}

#[test]
fn selected_item_is_in_the_window() {
    for viewport in 1..40u16 {
        for start in 0..SIZES.len() {
            for selected in 0..SIZES.len() {
                let (items, used) =
                    resolve(viewport, SIZES.len(), anchor(start, 0), Some(selected), |i| SIZES[i]);
                assert!(indices(&items).contains(&selected));
                assert!(used.index <= selected);
                assert!(selected < used.index + items.len());
            }
        }
    }
}

#[test]
fn resolving_from_the_returned_anchor_changes_nothing() {
    for viewport in 0..40u16 {
        for start in 0..SIZES.len() + 2 {
            for selected in [None, Some(0), Some(3), Some(7), Some(13), Some(20)] {
                let first = resolve(viewport, SIZES.len(), anchor(start, 2), selected, |i| SIZES[i]);
                let again = resolve(viewport, SIZES.len(), first.1, selected, |i| SIZES[i]);
                assert_eq!(first, again);
                let same = resolve(viewport, SIZES.len(), anchor(start, 2), selected, |i| SIZES[i]);
                assert_eq!(first, same);
            }
        }
    }
}

#[test]
fn items_follow_each_other_in_index_order() {
    let (items, used) = resolve(25, SIZES.len(), anchor(3, 1), Some(12), |i| SIZES[i]);
    for (k, item) in items.iter().enumerate() {
        assert_eq!(item.index, used.index + k);
        assert_eq!(item.main_axis_size, SIZES[item.index]);
        if k > 0 {
            let before = items[k - 1];
            assert_eq!(
                item.main_axis_offset,
                before.main_axis_offset + i32::from(before.main_axis_size)
            );
        }
    }
    assert_eq!(items[0].main_axis_offset, -i32::from(used.offset));
}

#[test]
fn each_item_is_measured_at_most_once() {
    let asked: RefCell<Vec<usize>> = RefCell::new(Vec::new());
    let size_of = |i: usize| {
        asked.borrow_mut().push(i);
        SIZES[i]
    };
    let (items, _) = resolve(20, SIZES.len(), anchor(3, 2), Some(5), size_of);
    assert_eq!(indices(&items), vec![3, 4, 5, 6, 7, 8]);
    let (_, _) = resolve(20, SIZES.len(), anchor(0, 0), Some(6), size_of);
    let (_, _) = resolve(20, SIZES.len(), anchor(9, 1), Some(7), size_of);
    let mut all = asked.borrow().clone();
    assert_eq!(&all[..6], &[3, 4, 5, 6, 7, 8]);
    all.clear();
    asked.borrow_mut().clear();
    for selected in 0..SIZES.len() {
        for start in 0..SIZES.len() {
            asked.borrow_mut().clear();
            let _ = resolve(20, SIZES.len(), anchor(start, 1), Some(selected), size_of);
            let mut seen = asked.borrow().clone();
            let calls = seen.len();
            seen.sort_unstable();
            seen.dedup();
            assert_eq!(seen.len(), calls);
        }
    }
}

#[test]
fn only_items_near_the_viewport_are_measured() {
    let asked: RefCell<Vec<usize>> = RefCell::new(Vec::new());
    let size_of = |i: usize| {
        asked.borrow_mut().push(i);
        3u16
    };
    let (items, used) = resolve(20, 1_000_000, ScrollAnchor::origin(), None, size_of);
    assert_eq!(used, anchor(0, 0));
    assert_eq!(items.len(), 7);
    assert_eq!(*asked.borrow(), vec![0, 1, 2, 3, 4, 5, 6]);
    asked.borrow_mut().clear();
    let (items, used) = resolve(20, 1_000_000, ScrollAnchor::origin(), Some(500_000), size_of);
    assert_eq!(used, anchor(499_994, 1));
    assert_eq!(items.len(), 7);
    assert!(asked.borrow().len() <= 14);
    assert!(asked.borrow().iter().all(|&i| i < 7 || (499_994..=500_000).contains(&i)));
}
