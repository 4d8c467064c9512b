use ferriswm::layout::{HorizontalLayout, Layout, Rect};
use ferriswm::workspace::Workspace;

#[test]
fn push_window_appends_and_focuses_first() {
    let mut ws = Workspace::new();
    assert_eq!(ws.num_of_windows(), 0);
    assert_eq!(ws.get_focus(), None);

    ws.push_window(10);
    ws.push_window(20);
    assert_eq!(ws.num_of_windows(), 2);
    // The first push moved the empty focus onto index 0; later pushes
    // leave it alone.
    assert_eq!(ws.get_focus(), Some(0));
    assert_eq!(ws.get_focused_window(), Some(10));
}

#[test]
fn set_focus_rejects_out_of_range() {
    let mut ws = Workspace::new();
    ws.push_window(10);
    assert!(!ws.set_focus(1));
    assert!(ws.set_focus(0));
    assert_eq!(ws.get_focused_window(), Some(10));
}

#[test]
fn remove_window_shifts_and_reclamps_focus() {
    let mut ws = Workspace::new();
    ws.push_window(10);
    ws.push_window(20);
    ws.push_window(30);
    assert!(ws.set_focus(2));

    assert_eq!(ws.remove_window(2), Some(30));
    // The focus was past the end and clamps to the new last window.
    assert_eq!(ws.get_focus(), Some(1));
    assert_eq!(ws.get_focused_window(), Some(20));

    assert_eq!(ws.remove_window(5), None);
    assert_eq!(ws.num_of_windows(), 2);
}

#[test]
fn removed_focused_window_empties_the_focus() {
    let mut ws = Workspace::new();
    ws.push_window(10);
    assert_eq!(ws.removed_focused_window(), Some(10));
    assert_eq!(ws.num_of_windows(), 0);
    assert_eq!(ws.get_focus(), None);
    assert_eq!(ws.removed_focused_window(), None);
}

#[test]
fn iter_windows_lists_in_insertion_order() {
    let mut ws = Workspace::new();
    ws.push_window(3);
    ws.push_window(1);
    ws.push_window(2);
    assert_eq!(ws.iter_windows().as_slice(), &[3, 1, 2]);
}

#[test]
fn retain_keeps_matching_windows_and_reclamps() {
    let mut ws = Workspace::new();
    ws.push_window(10);
    ws.push_window(20);
    ws.push_window(30);
    assert!(ws.set_focus(2));

    ws.retain(|w| *w != 30);
    assert_eq!(ws.iter_windows().as_slice(), &[10, 20]);
    assert_eq!(ws.get_focus(), Some(1));

    ws.retain(|_| false);
    assert_eq!(ws.num_of_windows(), 0);
    assert_eq!(ws.get_focus(), None);
}

// A horizontal layout whose cells divide evenly never overlaps.
#[test]
fn horizontal_windows_do_not_overlap() {
    let rects = HorizontalLayout.generate_layout(
        Rect { x: 0, y: 0, w: 1200, h: 700 },
        &[1, 2, 1],
        2,
        4,
    );
    for i in 0..rects.len() {
        for j in (i + 1)..rects.len() {
            let a = &rects[i];
            let b = &rects[j];
            let no_overlap = a.x + a.w as i32 <= b.x
                || b.x + b.w as i32 <= a.x
                || a.y + a.h as i32 <= b.y
                || b.y + b.h as i32 <= a.y;
            assert!(no_overlap, "window {i} ({a:?}) overlaps window {j} ({b:?})");
        }
    }
}
