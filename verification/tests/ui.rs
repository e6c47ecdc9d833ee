use cmux_mux::geometry::Rect;
use cmux_mux::node::{PaneId, SplitDir};
use cmux_mux::resize::{drag_fraction, edge_fraction, nearest_edge, SplitTarget};
use cmux_mux::scrollbar::{drag_scroll, press_track, TrackPress};
use cmux_mux::frontend::ScrollBar;
use cmux_mux::ui::{
    cell_height_width_ratio, clamp_sidebar_width, content_size_for_rect, rects_intersect,
    sidebar_drag_width, sidebar_width_for, smart_split_target, zellij_smart_direction, ContextMenu,
    MenuAction, PaneArea, PaneEdge, ScrollbarPosition, Selection, UiConfig,
};

fn rect(x: u16, y: u16, width: u16, height: u16) -> Rect {
    Rect { x, y, width, height }
}

fn area(pane: PaneId, width: u16, height: u16) -> PaneArea {
    PaneArea {
        pane,
        surface: pane,
        rect: rect(0, 0, width, height),
        bar: None,
        content: rect(0, 0, width, height),
        track: None,
    }
}

fn config(sidebar_max_width: u16) -> UiConfig {
    UiConfig { sidebar_width: 22, sidebar_max_width, scrollbar: ScrollbarPosition::Column }
}

#[test]
fn zellij_smart_direction_uses_cell_ratio_and_minimums() {
    assert_eq!(
        zellij_smart_direction(Rect { x: 0, y: 0, width: 80, height: 21 }, 4),
        Some(SplitDir::Down)
    );
    assert_eq!(
        zellij_smart_direction(Rect { x: 0, y: 0, width: 80, height: 20 }, 4),
        Some(SplitDir::Right)
    );
    assert_eq!(zellij_smart_direction(Rect { x: 0, y: 0, width: 60, height: 20 }, 4), None);
    assert_eq!(cell_height_width_ratio((0, 0)), 4);
}

#[test]
fn smart_split_falls_back_to_largest_selectable_pane() {
    let areas = [area(1, 40, 10), area(2, 80, 10), area(3, 30, 30)];
    assert_eq!(smart_split_target(&areas, Some(1), (8, 16)), Some((3, SplitDir::Down)));
}

#[test]
fn smart_split_prefers_the_focused_pane() {
    let areas = [area(1, 70, 10), area(2, 200, 60)];
    assert_eq!(smart_split_target(&areas, Some(1), (8, 16)), Some((1, SplitDir::Right)));
    assert_eq!(smart_split_target(&areas, None, (8, 16)), Some((2, SplitDir::Right)));
    assert_eq!(smart_split_target(&[area(1, 10, 10)], Some(1), (8, 16)), None);
    // Of panes of one size, the last.
    let same = [area(1, 70, 10), area(2, 70, 10)];
    assert_eq!(smart_split_target(&same, None, (8, 16)), Some((2, SplitDir::Right)));
}

#[test]
fn cell_ratios_are_rounded() {
    for (w, h) in [(8u16, 16u16), (8, 19), (8, 20), (8, 21), (7, 3), (1, 65535), (65535, 1), (2, 5)]
    {
        let rounded = ((h as f32 / w as f32).round() as u16).max(1);
        assert_eq!(cell_height_width_ratio((w, h)), rounded);
    }
    assert_eq!(cell_height_width_ratio((2, 5)), 3);
    assert_eq!(cell_height_width_ratio((0, 5)), 4);
}

#[test]
fn the_sidebar_leaves_forty_columns() {
    assert_eq!(clamp_sidebar_width(&config(0), 100, 90), Some(60));
    assert_eq!(clamp_sidebar_width(&config(30), 100, 90), Some(30));
    assert_eq!(clamp_sidebar_width(&config(0), 100, 3), Some(10));
    assert_eq!(clamp_sidebar_width(&config(0), 49, 22), None);
    assert_eq!(clamp_sidebar_width(&config(9), 100, 22), None);
    assert_eq!(sidebar_width_for(&config(0), true, 120, None), 22);
    assert_eq!(sidebar_width_for(&config(0), true, 120, Some(33)), 33);
    assert_eq!(sidebar_width_for(&config(0), false, 120, Some(33)), 0);
    assert_eq!(sidebar_width_for(&config(0), true, 45, None), 0);
    // The border is dragged to column 29.
    assert_eq!(sidebar_drag_width(&config(0), rect(22, 0, 98, 40), 22, 29), Some(30));
}

#[test]
fn boxes_take_their_borders() {
    assert_eq!(content_size_for_rect(rect(0, 0, 80, 24), ScrollbarPosition::Column), Some((77, 22)));
    assert_eq!(content_size_for_rect(rect(0, 0, 80, 24), ScrollbarPosition::Border), Some((78, 22)));
    assert_eq!(content_size_for_rect(rect(0, 0, 3, 3), ScrollbarPosition::Column), Some((1, 1)));
    assert_eq!(content_size_for_rect(rect(0, 0, 2, 9), ScrollbarPosition::Column), Some((2, 9)));
    assert_eq!(content_size_for_rect(rect(0, 0, 0, 9), ScrollbarPosition::Column), None);
}

#[test]
fn menus_fit_their_labels() {
    let menu = ContextMenu::at(5, 7, vec![MenuAction::RenameScreen(1), MenuAction::CloseScreen(1)]);
    assert_eq!(menu.items[0].label(), "Rename screen");
    assert_eq!(menu.rect, rect(4, 6, 19, 4));
    assert_eq!(menu.item_at(5, 7), Some(0));
    assert_eq!(menu.item_at(21, 8), Some(1));
    // The border.
    assert_eq!(menu.item_at(4, 7), None);
    assert_eq!(menu.item_at(22, 7), None);
    assert_eq!(menu.item_at(5, 6), None);
    assert_eq!(menu.item_at(5, 9), None);
    assert_eq!(menu.item_at(60, 7), None);
    assert_eq!(ContextMenu::at(0, 0, vec![MenuAction::ClosePane(1)]).rect, rect(0, 0, 16, 3));
    let labels = [
        (MenuAction::RenameWorkspace(1), "Rename workspace"),
        (MenuAction::CopyWorkspaceId(1), "Copy workspace id"),
        (MenuAction::CloseWorkspace(1), "Close workspace"),
        (MenuAction::CloseScreen(1), "Close screen"),
        (MenuAction::RenameTab(1), "Rename tab"),
        (MenuAction::CopyTabId(1), "Copy tab id"),
        (MenuAction::CopyPaneId(1), "Copy pane id"),
        (MenuAction::NewTab(1), "New tab"),
        (MenuAction::NewBrowserTab(1), "New browser tab"),
        (MenuAction::SplitRight(1), "Split right"),
        (MenuAction::SplitDown(1), "Split down"),
        (MenuAction::CloseTab(1), "Close tab"),
        (MenuAction::ClosePane(1), "Close pane"),
    ];
    for (action, label) in labels {
        assert_eq!(action.label(), label);
    }
}

#[test]
fn selections_read_forward() {
    let selection = Selection { surface: 1, anchor: (9, 4), head: (3, 2) };
    assert_eq!(selection.range(), ((3, 2), (9, 4)));
    let flipped = Selection { surface: 1, anchor: (3, 2), head: (9, 4) };
    assert_eq!(flipped.range(), ((3, 2), (9, 4)));
    // Scrolled by one row, the same text is selected.
    for offset in [0u64, 1] {
        let row = |absolute: u64| (absolute - offset) as u16;
        assert!(selection.contains_viewport(3, row(2), offset));
        assert!(!selection.contains_viewport(2, row(2), offset));
        assert!(selection.contains_viewport(0, row(3), offset));
        assert!(selection.contains_viewport(9, row(4), offset));
        assert!(!selection.contains_viewport(10, row(4), offset));
        assert!(!selection.contains_viewport(0, row(5), offset));
    }
    let line = Selection { surface: 1, anchor: (5, 1), head: (2, 1) };
    assert!(line.contains_viewport(2, 1, 0));
    assert!(line.contains_viewport(5, 1, 0));
    assert!(!line.contains_viewport(6, 1, 0));
}

#[test]
fn rects_meet_only_where_they_share_a_cell() {
    assert!(rects_intersect(rect(0, 0, 4, 4), rect(3, 3, 1, 1)));
    assert!(!rects_intersect(rect(0, 0, 4, 4), rect(4, 0, 4, 4)));
    assert!(!rects_intersect(rect(0, 0, 0, 4), rect(0, 0, 4, 4)));
}

#[test]
fn resizing_takes_the_innermost_split() {
    let outer = SplitTarget { area: rect(0, 0, 80, 24), set_pane: 1 };
    let inner = SplitTarget { area: rect(40, 0, 40, 24), set_pane: 2 };
    assert_eq!(nearest_edge(Some(outer), Some(inner), None, None), Some((PaneEdge::Left, inner)));
    assert_eq!(nearest_edge(None, None, Some(outer), Some(outer)), Some((PaneEdge::Bottom, outer)));
    assert_eq!(nearest_edge(None, None, None, None), None);
}

#[test]
fn edges_divide_their_region() {
    let pane = rect(20, 0, 20, 24);
    let region = rect(0, 0, 80, 24);
    let right = edge_fraction(pane, PaneEdge::Right, region);
    assert_eq!((right.num, right.den, right.dir, right.outward), (40, 80, SplitDir::Right, true));
    let left = edge_fraction(pane, PaneEdge::Left, region);
    assert_eq!((left.num, left.den, left.outward), (20, 80, false));
    // Dragged to the column that it already takes.
    assert_eq!(drag_fraction(PaneEdge::Right, region, 39, 5), Some((40, 80, SplitDir::Right)));
    assert_eq!(drag_fraction(PaneEdge::Left, region, 20, 5), Some((20, 80, SplitDir::Right)));
    assert_eq!(drag_fraction(PaneEdge::Top, region, 20, 6), Some((6, 24, SplitDir::Down)));
    assert_eq!(drag_fraction(PaneEdge::Bottom, region, 20, 6), Some((7, 24, SplitDir::Down)));
    assert_eq!(drag_fraction(PaneEdge::Bottom, rect(0, 0, 80, 0), 20, 6), None);
}

#[test]
fn a_thumb_is_held_or_jumped_to() {
    let track = rect(79, 1, 1, 22);
    assert_eq!(press_track(track, 6, (5, 3)), TrackPress::Hold);
    assert_eq!(press_track(track, 9, (5, 3)), TrackPress::Jump { num: 8, den: 21 });
    assert_eq!(press_track(track, 99, (5, 3)), TrackPress::Jump { num: 21, den: 21 });
    assert_eq!(press_track(rect(0, 0, 1, 1), 0, (1, 1)), TrackPress::Jump { num: 0, den: 1 });
}

#[test]
fn a_dragged_thumb_scrolls_in_proportion() {
    let track = rect(79, 0, 1, 22);
    let bar = ScrollBar { total: 224, len: 24, offset: 50, thumb_len: 2 };
    // Twenty rows of travel for two hundred rows of text.
    assert_eq!(drag_scroll(&bar, track, 5, 50, 5), 0);
    assert_eq!(drag_scroll(&bar, track, 5, 50, 7), 20);
    assert_eq!(drag_scroll(&bar, track, 5, 50, 4), -10);
    assert_eq!(drag_scroll(&bar, track, 5, 50, 0), -50);
    assert_eq!(drag_scroll(&bar, track, 0, 0, 20), 150);
    assert_eq!(drag_scroll(&bar, track, 0, 0, 60000), 150);
    // Not a whole row: towards the anchor.
    let coarse = ScrollBar { total: 31, len: 24, offset: 3, thumb_len: 12 };
    assert_eq!(drag_scroll(&coarse, track, 5, 3, 6), 0);
    assert_eq!(drag_scroll(&coarse, track, 5, 3, 4), 0);
    assert_eq!(drag_scroll(&coarse, track, 5, 3, 3), -1);
}
