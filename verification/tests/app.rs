use cmux_mux::app::App;
use cmux_mux::app_layout::{initial_size, GraphicPlacement};
use cmux_mux::frontend::{
    Action, AppEvent, HandleOutcome, InputEvent, KeyFacts, MouseEvent, MouseFacts, MouseKind,
    MousePhase, ScrollBar, UiEffect,
};
use cmux_mux::geometry::Rect;
use cmux_mux::input::{
    arrow_bytes, browser_key_mapping, browser_modifiers, clipboard_sequence, paste_bytes,
    pointer_sequence, KeyCode, KeyEvent, KeyKind, KeyModifiers,
};
use cmux_mux::mux::MuxEvent;
use cmux_mux::session::Request;
use cmux_mux::surface::SurfaceKind;
use cmux_mux::tree::{PaneView, ScreenView, TabView, TreeView, WorkspaceView};
use cmux_mux::turn::{Turn, TurnEnd, MAX_QUEUED};
use cmux_mux::ui::{
    Drag, Hit, PaneEdge, PromptTarget, ScrollbarPosition, Selection, UiConfig,
};

const PLAIN: KeyModifiers =
    KeyModifiers { alt: false, control: false, super_key: false, shift: false };

fn rect(x: u16, y: u16, width: u16, height: u16) -> Rect {
    Rect { x, y, width, height }
}

fn config() -> UiConfig {
    UiConfig { sidebar_width: 22, sidebar_max_width: 0, scrollbar: ScrollbarPosition::Column }
}

fn tab(surface: u64) -> TabView {
    TabView {
        surface,
        short_id: format!("t{surface}"),
        name: None,
        title: String::new(),
    }
}

fn pane(id: u64, surfaces: &[u64]) -> PaneView {
    PaneView {
        id,
        short_id: format!("p{id}"),
        name: None,
        tabs: surfaces.iter().map(|s| tab(*s)).collect(),
        active_tab: 0,
    }
}

fn tree() -> TreeView {
    TreeView {
        workspaces: vec![WorkspaceView {
            id: 50,
            short_id: "w50".to_string(),
            name: "one".to_string(),
            screens: vec![
                ScreenView {
                    id: 60,
                    name: Some("logs".to_string()),
                    active_pane: 1,
                    panes: vec![pane(1, &[11, 12]), pane(2, &[21])],
                },
                ScreenView { id: 61, name: None, active_pane: 3, panes: vec![pane(3, &[31])] },
            ],
            active_screen: 0,
        }],
        active_workspace: 0,
    }
}

/// Two panes side by side on a terminal of 122 by 41 cells.
fn app() -> App {
    let mut app = App::new(config(), (8, 16));
    let layout = vec![(1, rect(22, 0, 50, 40)), (2, rect(72, 0, 50, 40))];
    app.sync_layout((122, 41), tree(), &layout);
    app.take_effects();
    app
}

fn key(code: KeyCode) -> KeyEvent {
    KeyEvent { code, modifiers: PLAIN, kind: KeyKind::Press }
}

fn facts() -> KeyFacts {
    KeyFacts {
        modeless: None,
        is_prefix: false,
        bound: None,
        input: InputEvent::Changed,
        active_kind: Some(SurfaceKind::Pty),
        now: 1000,
    }
}

fn mouse_facts() -> MouseFacts {
    MouseFacts {
        reachable: true,
        kind: SurfaceKind::Pty,
        alternate: false,
        offset: 100,
        selection_offset: 100,
        bar: None,
        now: 1000,
    }
}

fn mouse(app: &mut App, kind: MouseKind, column: u16, row: u16) -> bool {
    app.handle_mouse(&MouseEvent { kind, column, row }, &mouse_facts())
}

fn shown(app: &mut App) -> Vec<String> {
    app.take_effects().iter().map(|effect| format!("{effect:?}")).collect()
}

#[test]
fn panes_are_laid_out_in_their_boxes() {
    let mut app = App::new(config(), (8, 16));
    assert_eq!(app.content_rect((122, 41)), rect(22, 0, 100, 40));
    let layout = vec![(1, rect(22, 0, 50, 40)), (9, rect(0, 0, 9, 9)), (2, rect(72, 0, 2, 40))];
    app.sync_layout((122, 41), tree(), &layout);
    assert_eq!(app.sidebar_width, 22);
    assert_eq!(app.content_area, rect(22, 0, 100, 40));
    // A pane that is not in the tree has no area.
    assert_eq!(app.pane_areas.len(), 2);
    let first = app.pane_areas[0];
    assert_eq!((first.pane, first.surface), (1, 11));
    assert_eq!(first.bar, Some(rect(22, 0, 50, 1)));
    assert_eq!(first.content, rect(23, 1, 47, 38));
    assert_eq!(first.track, Some(rect(70, 1, 1, 38)));
    // Too small for a box.
    let second = app.pane_areas[1];
    assert_eq!((second.bar, second.content, second.track), (None, rect(72, 0, 2, 40), None));
    // Every tab is given its size, the hidden ones too.
    assert_eq!(
        shown(&mut app),
        vec![
            "Resize { surface: 11, cols: 47, rows: 38 }",
            "Resize { surface: 12, cols: 47, rows: 38 }",
            "Resize { surface: 21, cols: 2, rows: 40 }",
        ]
    );
    app.config.scrollbar = ScrollbarPosition::Border;
    app.sync_layout((122, 41), tree(), &layout);
    assert_eq!(app.pane_areas[0].content, rect(23, 1, 48, 38));
    assert_eq!(app.pane_areas[0].track, Some(rect(71, 1, 1, 38)));
    assert_eq!(initial_size(&config(), (122, 41)), (97, 38));
    assert_eq!(initial_size(&config(), (0, 0)), (1, 1));
}

#[test]
fn keys_go_to_the_active_surface() {
    let mut app = app();
    app.selection = Some(Selection { surface: 11, anchor: (0, 0), head: (3, 0) });
    let outcome = app.handle(AppEvent::Key(key(KeyCode::Char('x')), facts()));
    assert_eq!(outcome, HandleOutcome::new(false, true));
    assert!(app.selection.is_none());
    let effects = app.take_effects();
    // The sizes of what is visible are claimed first.
    assert!(matches!(effects[0], UiEffect::Reassert { surface: 11, cols: 47, rows: 38 }));
    assert!(matches!(effects[1], UiEffect::Reassert { surface: 21, cols: 47, rows: 38 }));
    assert!(matches!(effects[2], UiEffect::TypeKey { surface: 11, .. }));
    assert_eq!(effects.len(), 3);
    // Releasing it does nothing.
    let release = KeyEvent { kind: KeyKind::Release, ..key(KeyCode::Char('x')) };
    assert_eq!(app.handle(AppEvent::Key(release, facts())), HandleOutcome::new(false, false));
    assert!(app.take_effects().is_empty());
}

#[test]
fn pages_get_text_and_named_keys() {
    let mut app = app();
    let page = KeyFacts { active_kind: Some(SurfaceKind::Browser), ..facts() };
    app.handle_key(&key(KeyCode::Char('x')), &page);
    app.handle_key(&key(KeyCode::Enter), &page);
    let held = KeyEvent { kind: KeyKind::Repeat, ..key(KeyCode::Left) };
    app.handle_key(&held, &page);
    let control = KeyModifiers { control: true, ..PLAIN };
    app.handle_key(&KeyEvent { modifiers: control, ..key(KeyCode::Char('x')) }, &page);
    let effects = app.take_effects();
    assert!(matches!(effects[0], UiEffect::BrowserChar { surface: 11, c: 'x' }));
    assert!(matches!(
        &effects[1],
        UiEffect::BrowserKey { down: true, key, modifiers: 0, .. }
            if key.key == "Enter" && key.windows_virtual_key_code == 13 && key.text == Some("\r")
    ));
    assert!(matches!(
        &effects[2],
        UiEffect::BrowserKey { down: false, key, .. } if key.text.is_none()
    ));
    assert!(matches!(
        &effects[3],
        UiEffect::BrowserKey { down: true, key, .. } if key.code == "ArrowLeft"
    ));
    assert_eq!(effects.len(), 4);
    assert_eq!(browser_key_mapping(KeyCode::BackTab).unwrap().key, "Tab");
    assert!(browser_key_mapping(KeyCode::Char('a')).is_none());
    let all = KeyModifiers { alt: true, control: true, super_key: true, shift: true };
    assert_eq!(browser_modifiers(all), 15);
    assert_eq!(browser_modifiers(KeyModifiers { super_key: true, ..PLAIN }), 4);
}

#[test]
fn the_prefix_arms_one_key() {
    let mut app = app();
    let prefix = KeyFacts { is_prefix: true, ..facts() };
    assert!(app.handle_key(&key(KeyCode::Char('b')), &prefix));
    assert!(app.prefix_armed);
    assert!(app.handle_key(&key(KeyCode::Char('b')), &prefix));
    assert!(!app.prefix_armed);
    assert!(matches!(app.take_effects()[..], [UiEffect::TypeKey { surface: 11, .. }]));
    app.handle_key(&key(KeyCode::Char('b')), &prefix);
    assert!(app.handle_key(&key(KeyCode::Char('2')), &facts()));
    assert!(matches!(
        app.take_effects()[..],
        [UiEffect::Ask(Request::SelectTab { pane: Some(1), index: Some(1), delta: None })]
    ));
    app.handle_key(&key(KeyCode::Char('b')), &prefix);
    // Unknown: swallowed.
    assert!(app.handle_key(&key(KeyCode::Char('?')), &facts()));
    assert!(app.take_effects().is_empty());
    app.handle_key(&key(KeyCode::Char('b')), &prefix);
    let bound = KeyFacts { bound: Some(Action::Detach), ..facts() };
    assert!(!app.handle_key(&key(KeyCode::Char('d')), &bound));
    assert!(app.quit);
}

#[test]
fn actions_ask_the_session() {
    let mut app = app();
    app.status_message = Some("old".to_string());
    for (action, wanted) in [
        (Action::NewTab, "[AskOrQuit(NewTab { pane: Some(1), size: None })]"),
        (
            Action::NextTab,
            "[Ask(SelectTab { pane: Some(1), index: None, delta: Some(1) })]",
        ),
        (
            Action::SplitRight,
            "[Split { pane: 1, dir: Right, rect: Some(Rect { x: 22, y: 0, width: 50, height: 40 }) }]",
        ),
        // Both panes are high enough for their width.
        (
            Action::NewPaneSmart,
            "[Split { pane: 1, dir: Down, rect: Some(Rect { x: 22, y: 0, width: 50, height: 40 }) }]",
        ),
        (
            Action::CloseTab,
            "[ForgetRender(11), Ask(CloseSurface { surface: 11 })]",
        ),
        (Action::ClosePane, "[Ask(ClosePane { pane: 1 })]"),
        (Action::CloseScreen, "[Ask(CloseScreen { screen: 60 })]"),
        (Action::NewScreen, "[AskOrQuit(NewScreen { size: Some((97, 38)) })]"),
        (Action::PrevScreen, "[Ask(SelectScreen { index: None, delta: Some(-1) })]"),
        (Action::NextWorkspace, "[Ask(SelectWorkspace { index: None, delta: Some(1) })]"),
        (Action::FocusLeft, "[MoveFocus { from: 1, dx: -1, dy: 0 }]"),
        (Action::ResizeShrink, "[ResizeFocused { grow: false }]"),
        (Action::ScrollUp, "[Scroll { surface: 11, delta: -10 }]"),
        (Action::ToggleSidebar, "[]"),
    ] {
        assert!(app.run_action(action, Some(SurfaceKind::Pty)));
        assert_eq!(format!("{:?}", app.take_effects()), wanted);
    }
    assert!(!app.sidebar_visible);
    assert!(app.status_message.is_none());
    // Pages do not scroll this way.
    app.run_action(Action::ScrollDown, Some(SurfaceKind::Browser));
    assert!(app.take_effects().is_empty());
}

#[test]
fn prompts_rename_and_open() {
    let mut app = app();
    app.run_action(Action::RenameScreen, None);
    assert_eq!(app.prompt.as_ref().unwrap().label, "Rename screen");
    assert_eq!(app.prompt.as_ref().unwrap().input, "logs");
    app.prompt.as_mut().unwrap().input = String::new();
    assert!(app.handle_prompt_key(InputEvent::Commit));
    assert!(app.prompt.is_none());
    assert!(matches!(
        &app.take_effects()[..],
        [UiEffect::Rename { target: PromptTarget::Screen(60), name }] if name.is_empty()
    ));
    // A workspace keeps its name when none is given.
    app.run_action(Action::RenameWorkspace, None);
    assert_eq!(app.prompt.as_ref().unwrap().input, "one");
    app.prompt.as_mut().unwrap().input = String::new();
    app.commit_prompt();
    assert!(app.take_effects().is_empty());
    app.run_action(Action::NewBrowserTab, None);
    assert_eq!(app.prompt.as_ref().unwrap().input, "https://");
    app.prompt.as_mut().unwrap().input = "  one.test ".to_string();
    app.commit_prompt();
    assert!(matches!(
        &app.take_effects()[..],
        [UiEffect::OpenBrowserTab { url, pane: Some(1), size: Some((47, 38)) }] if url == "one.test"
    ));
    app.browser_tab_opened(Some("no browser".to_string()));
    assert_eq!(app.status_message.as_deref(), Some("no browser"));
    app.run_action(Action::NewBrowserTab, None);
    app.prompt.as_mut().unwrap().input = " ".to_string();
    app.commit_prompt();
    assert!(app.take_effects().is_empty());
    assert_eq!(app.browser_tab_size_hint(None), Some((47, 38)));
    assert_eq!(app.browser_tab_size_hint(Some(99)), None);
}

#[test]
fn prompts_take_clicks_and_keys() {
    let mut app = app();
    app.run_action(Action::RenameTab, None);
    let prompt = app.prompt.as_mut().unwrap();
    prompt.rect = rect(10, 10, 40, 6);
    prompt.input_rect = rect(12, 12, 30, 1);
    prompt.clear = rect(12, 14, 8, 1);
    prompt.cancel = rect(22, 14, 8, 1);
    prompt.ok = rect(32, 14, 8, 1);
    prompt.input = "api".to_string();
    // A right click shakes it.
    assert!(mouse(&mut app, MouseKind::RightDown, 60, 20));
    assert_eq!(app.shake_frames, 6);
    assert!(app.menu.is_none());
    assert!(app.is_clickable(33, 14));
    assert!(!app.is_clickable(10, 10));
    mouse(&mut app, MouseKind::LeftDown, 15, 12);
    assert_eq!(shown(&mut app), vec!["PromptCursor { column: 3, width: 30 }"]);
    mouse(&mut app, MouseKind::LeftDown, 12, 14);
    assert_eq!(shown(&mut app), vec!["PromptClear"]);
    assert_eq!(app.prompt.as_ref().unwrap().input, "");
    mouse(&mut app, MouseKind::LeftDown, 11, 11);
    assert!(app.prompt.is_some());
    let pasted = app.handle(AppEvent::Paste("db".to_string(), Some(SurfaceKind::Pty)));
    assert_eq!(pasted, HandleOutcome::new(true, true));
    assert!(shown(&mut app).contains(&"PromptInsert(\"db\")".to_string()));
    app.prompt.as_mut().unwrap().input = "db".to_string();
    mouse(&mut app, MouseKind::LeftDown, 32, 14);
    assert_eq!(shown(&mut app), vec!["Rename { target: Surface(11), name: \"db\" }"]);
    assert_eq!(app.shake_frames, 0);
    app.run_action(Action::RenameTab, None);
    // Outside: dismissed.
    assert!(mouse(&mut app, MouseKind::LeftDown, 100, 30));
    assert!(app.prompt.is_none());
    app.run_action(Action::RenameTab, None);
    assert!(app.handle_key(&key(KeyCode::Esc), &KeyFacts { input: InputEvent::Cancel, ..facts() }));
    assert!(app.prompt.is_none());
    assert!(!app.handle_prompt_key(InputEvent::Commit));
}

#[test]
fn menus_are_driven_by_keys() {
    let mut app = app();
    assert!(mouse(&mut app, MouseKind::RightDown, 30, 10));
    assert_eq!(app.menu.as_ref().unwrap().items.len(), 9);
    app.handle_key(&key(KeyCode::Up), &facts());
    assert_eq!(app.menu.as_ref().unwrap().selected, 0);
    for _ in 0..20 {
        app.handle_key(&key(KeyCode::Down), &facts());
    }
    assert_eq!(app.menu.as_ref().unwrap().selected, 8);
    assert!(app.handle_key(&key(KeyCode::Char('z')), &facts()));
    app.handle_key(&key(KeyCode::Enter), &facts());
    assert!(app.menu.is_none());
    assert_eq!(shown(&mut app), vec!["Ask(ClosePane { pane: 1 })"]);
    mouse(&mut app, MouseKind::RightDown, 30, 10);
    app.handle_key(&key(KeyCode::Esc), &facts());
    assert!(app.menu.is_none());
    // Workspaces and screens have their own.
    app.hits = vec![
        (rect(0, 2, 20, 2), Hit::Workspace { index: 0, id: 50 }),
        (rect(22, 40, 9, 1), Hit::ScreenEntry { index: 0, id: 60 }),
    ];
    mouse(&mut app, MouseKind::RightDown, 3, 2);
    assert_eq!(app.menu.as_ref().unwrap().items.len(), 3);
    mouse(&mut app, MouseKind::RightDown, 23, 40);
    assert_eq!(app.menu.as_ref().unwrap().items.len(), 2);
    mouse(&mut app, MouseKind::RightDown, 200, 200);
    assert!(app.menu.is_none());
}

#[test]
fn menus_are_driven_by_the_mouse() {
    let mut app = app();
    mouse(&mut app, MouseKind::RightDown, 30, 10);
    // The click that opened it does not activate what is under it.
    assert!(mouse(&mut app, MouseKind::RightUp, 30, 10));
    assert!(app.menu.is_some());
    assert!(app.take_effects().is_empty());
    // Press, drag, release: the tab's id is the second entry.
    assert!(mouse(&mut app, MouseKind::RightDrag, 30, 11));
    assert!(!mouse(&mut app, MouseKind::RightDrag, 31, 11));
    assert!(mouse(&mut app, MouseKind::RightUp, 30, 11));
    assert!(app.menu.is_none());
    assert_eq!(shown(&mut app), vec!["Copy(\"t11\")"]);
    assert_eq!(app.toast.as_ref().unwrap().text, "Copied t11");
    assert!(!app.expire_toast(2499));
    assert!(app.expire_toast(2500));
    assert!(app.toast.is_none());
    // Hovering highlights; the border keeps the menu open; outside closes it.
    mouse(&mut app, MouseKind::RightDown, 30, 10);
    assert!(mouse(&mut app, MouseKind::Moved, 31, 13));
    assert_eq!(app.menu.as_ref().unwrap().selected, 3);
    assert_eq!(shown(&mut app), vec!["Pointer { hand: true }"]);
    mouse(&mut app, MouseKind::LeftDown, 29, 9);
    assert!(app.menu.is_some());
    mouse(&mut app, MouseKind::LeftDown, 100, 30);
    assert!(app.menu.is_none());
    assert!(app.take_effects().is_empty());
    mouse(&mut app, MouseKind::RightDown, 30, 10);
    mouse(&mut app, MouseKind::LeftDown, 31, 13);
    assert_eq!(
        shown(&mut app),
        vec!["AskOrQuit(NewTab { pane: Some(1), size: None })"]
    );
    assert!(!mouse(&mut app, MouseKind::RightUp, 1, 1));
}

#[test]
fn text_is_selected_and_copied() {
    let mut app = app();
    assert!(mouse(&mut app, MouseKind::LeftDown, 25, 3));
    assert_eq!(shown(&mut app), vec!["Ask(FocusPane { pane: 1 })"]);
    let start = app.selection.unwrap();
    assert_eq!((start.surface, start.anchor, start.head), (11, (2, 102), (2, 102)));
    assert!(app.selection_auto_scroll().is_none());
    // Past the bottom right of the content, which scrolls.
    mouse(&mut app, MouseKind::LeftDrag, 120, 60);
    assert_eq!(app.selection.unwrap().head, (46, 137));
    assert_eq!(app.selection_auto_scroll(), Some((11, 1)));
    assert_eq!(app.poll_millis(), 30);
    app.auto_scroll_selection_tick(101);
    assert_eq!(app.selection.unwrap().head, (46, 138));
    assert!(mouse(&mut app, MouseKind::LeftUp, 120, 60));
    assert_eq!(
        shown(&mut app),
        vec!["CopySelection { surface: 11, start: (2, 102), end: (46, 138) }"]
    );
    assert_eq!(app.poll_millis(), 250);
    app.selection_copied("text".to_string(), 0);
    assert_eq!(shown(&mut app), vec!["Copy(\"text\")"]);
    assert_eq!(app.toast.as_ref().unwrap().text, "Copied");
    app.selection_copied(String::new(), 0);
    assert!(app.take_effects().is_empty());
    // A plain click leaves nothing selected.
    mouse(&mut app, MouseKind::LeftDown, 25, 3);
    mouse(&mut app, MouseKind::LeftUp, 25, 3);
    assert!(app.selection.is_none());
    // The top row scrolls up.
    mouse(&mut app, MouseKind::LeftDown, 25, 3);
    mouse(&mut app, MouseKind::LeftDrag, 25, 1);
    assert_eq!(app.selection_auto_scroll(), Some((11, -1)));
}

#[test]
fn pages_get_the_mouse() {
    let mut app = app();
    let page = MouseFacts { kind: SurfaceKind::Browser, ..mouse_facts() };
    let at = |kind, column, row| MouseEvent { kind, column, row };
    app.handle_mouse(&at(MouseKind::LeftDown, 23, 1), &page);
    app.handle_mouse(&at(MouseKind::LeftDrag, 500, 2), &page);
    app.handle_mouse(&at(MouseKind::LeftUp, 24, 2), &page);
    let effects = app.take_effects();
    // Half pixels: the middle of the first cell is at 4 by 8 pixels.
    assert!(matches!(
        effects[1],
        UiEffect::BrowserMouse { surface: 11, phase: MousePhase::Pressed, half_x: 8, half_y: 16 }
    ));
    assert!(matches!(
        effects[2],
        UiEffect::BrowserMouse { phase: MousePhase::Moved, half_x: 744, half_y: 48, .. }
    ));
    assert!(matches!(
        effects[3],
        UiEffect::BrowserMouse { phase: MousePhase::Released, half_x: 24, half_y: 48, .. }
    ));
    assert_eq!(MousePhase::Pressed.as_str(), "mousePressed");
    assert_eq!(MousePhase::Moved.as_str(), "mouseMoved");
    assert_eq!(MousePhase::Released.as_str(), "mouseReleased");
    assert!(app.handle_mouse(&at(MouseKind::ScrollUp, 23, 1), &page));
    assert!(matches!(
        app.take_effects()[..],
        [UiEffect::BrowserWheel { half_x: 8, half_y: 16, delta_y: -48, .. }]
    ));
    // The border of a page takes no wheel.
    assert!(!app.handle_mouse(&at(MouseKind::ScrollUp, 22, 5), &page));
}

#[test]
fn the_wheel_scrolls_what_is_under_it() {
    let mut app = app();
    assert!(mouse(&mut app, MouseKind::ScrollDown, 80, 5));
    assert_eq!(
        shown(&mut app),
        vec!["Ask(FocusPane { pane: 2 })", "Scroll { surface: 21, delta: 3 }"]
    );
    let full = MouseFacts { alternate: true, ..mouse_facts() };
    let up = MouseEvent { kind: MouseKind::ScrollUp, column: 30, row: 5 };
    assert!(app.handle_mouse(&up, &full));
    assert_eq!(shown(&mut app), vec!["Arrows { surface: 11, down: false }"]);
    // Over the tab bar it scrolls the tabs, not below the first.
    mouse(&mut app, MouseKind::ScrollDown, 30, 0);
    mouse(&mut app, MouseKind::ScrollDown, 30, 0);
    assert_eq!(app.tab_scroll[&1], 2);
    for _ in 0..5 {
        mouse(&mut app, MouseKind::ScrollUp, 30, 0);
    }
    assert_eq!(app.tab_scroll[&1], 0);
    assert!(!mouse(&mut app, MouseKind::ScrollUp, 5, 5));
    let gone = MouseFacts { reachable: false, ..mouse_facts() };
    app.take_effects();
    assert!(!app.handle_mouse(&up, &gone));
    assert!(app.take_effects().is_empty());
}

#[test]
fn tabs_are_dragged() {
    let mut app = app();
    app.hits = vec![
        (rect(24, 0, 6, 1), Hit::Tab { pane: 1, index: 0 }),
        (rect(31, 0, 6, 1), Hit::Tab { pane: 1, index: 1 }),
        (rect(74, 0, 6, 1), Hit::Tab { pane: 2, index: 0 }),
    ];
    // A press and release selects the tab.
    mouse(&mut app, MouseKind::LeftDown, 32, 0);
    assert!(matches!(app.drag, Some(Drag::TabArm { surface: 12, at: (32, 0) })));
    mouse(&mut app, MouseKind::LeftDrag, 32, 0);
    assert!(app.tab_drag().is_none());
    assert!(mouse(&mut app, MouseKind::LeftUp, 32, 0));
    assert_eq!(
        shown(&mut app),
        vec![
            "Ask(FocusPane { pane: 1 })",
            "Ask(SelectTab { pane: Some(1), index: Some(1), delta: None })",
        ]
    );
    // Left of the middle of a tab is before it, right of it is after it.
    for (x, y, target) in [
        (24, 0, Some((1, 0))),
        (26, 0, Some((1, 0))),
        (27, 0, Some((1, 1))),
        (30, 0, Some((1, 1))),
        (34, 0, Some((1, 2))),
        (60, 0, Some((1, 2))),
        (40, 20, Some((1, 2))),
        (75, 0, Some((2, 0))),
        (78, 0, Some((2, 1))),
        (72, 20, None),
    ] {
        assert_eq!(app.tab_drop_target_at(x, y), target);
    }
    mouse(&mut app, MouseKind::LeftDown, 25, 0);
    mouse(&mut app, MouseKind::LeftDrag, 78, 0);
    let view = app.tab_drag().unwrap();
    assert_eq!((view.surface, view.target), (11, Some((2, 1))));
    mouse(&mut app, MouseKind::LeftUp, 75, 0);
    assert_eq!(shown(&mut app), vec!["Ask(MoveTab { surface: 11, pane: 2, index: 0 })"]);
    assert!(app.drag.is_none());
}

#[test]
fn workspaces_are_dragged() {
    let mut app = app();
    app.hits = vec![(rect(0, 2, 20, 2), Hit::Workspace { index: 0, id: 50 })];
    mouse(&mut app, MouseKind::LeftDown, 3, 2);
    mouse(&mut app, MouseKind::LeftUp, 3, 2);
    assert_eq!(
        shown(&mut app),
        vec!["Ask(SelectWorkspace { index: Some(0), delta: None })"]
    );
    for (x, y, target) in [
        (3, 0, Some(0)),
        (3, 2, Some(0)),
        (3, 3, Some(1)),
        (3, 30, Some(1)),
        (20, 3, Some(1)),
        (21, 3, None),
    ] {
        assert_eq!(app.workspace_drop_target_at(x, y), target);
    }
    mouse(&mut app, MouseKind::LeftDown, 3, 2);
    mouse(&mut app, MouseKind::LeftDrag, 3, 3);
    assert_eq!(app.workspace_drag(), Some((50, Some(1))));
    mouse(&mut app, MouseKind::LeftUp, 3, 3);
    assert_eq!(shown(&mut app), vec!["Ask(MoveWorkspace { workspace: 50, index: 1 })"]);
}

#[test]
fn borders_and_bars_are_dragged() {
    let mut app = app();
    app.hits = vec![
        (rect(21, 0, 1, 40), Hit::SidebarResize),
        (
            rect(71, 0, 1, 40),
            Hit::PaneResize {
                horizontal: Some((1, PaneEdge::Right)),
                vertical: Some((1, PaneEdge::Bottom)),
            },
        ),
        (rect(70, 1, 1, 38), Hit::Scrollbar { surface: 11, track: rect(70, 1, 1, 38) }),
        (rect(60, 0, 1, 1), Hit::TabScroll { pane: 1, delta: -1 }),
        (rect(62, 0, 1, 1), Hit::NewTab { pane: 2 }),
        (rect(40, 40, 1, 1), Hit::NewScreen),
        (rect(0, 9, 9, 1), Hit::NewWorkspace),
    ];
    mouse(&mut app, MouseKind::LeftDown, 21, 5);
    mouse(&mut app, MouseKind::LeftDrag, 29, 5);
    assert_eq!(app.sidebar_width_override, Some(30));
    assert!(mouse(&mut app, MouseKind::LeftUp, 29, 5));
    mouse(&mut app, MouseKind::LeftDown, 71, 5);
    mouse(&mut app, MouseKind::LeftDrag, 65, 9);
    assert_eq!(
        shown(&mut app),
        vec![
            "ResizeSplit { pane: 1, edge: Right, x: 65, y: 9 }",
            "ResizeSplit { pane: 1, edge: Bottom, x: 65, y: 9 }",
        ]
    );
    mouse(&mut app, MouseKind::LeftUp, 65, 9);
    mouse(&mut app, MouseKind::LeftDown, 70, 6);
    assert_eq!(shown(&mut app).len(), 1);
    app.start_scrollbar_drag(11, rect(70, 1, 1, 38), 6, 40);
    assert_eq!(app.dragging_scrollbar(), Some(11));
    let bar = MouseFacts {
        bar: Some(ScrollBar { total: 138, len: 38, offset: 40, thumb_len: 18 }),
        ..mouse_facts()
    };
    app.handle_mouse(&MouseEvent { kind: MouseKind::LeftDrag, column: 70, row: 8 }, &bar);
    assert_eq!(shown(&mut app), vec!["Scroll { surface: 11, delta: 10 }"]);
    app.handle_mouse(&MouseEvent { kind: MouseKind::LeftDrag, column: 70, row: 6 }, &bar);
    assert!(app.take_effects().is_empty());
    mouse(&mut app, MouseKind::LeftUp, 70, 6);
    mouse(&mut app, MouseKind::LeftDown, 60, 0);
    assert_eq!(app.tab_scroll[&1], 0);
    mouse(&mut app, MouseKind::LeftDown, 62, 0);
    mouse(&mut app, MouseKind::LeftDown, 40, 40);
    mouse(&mut app, MouseKind::LeftDown, 3, 9);
    assert_eq!(
        shown(&mut app),
        vec![
            "Ask(FocusPane { pane: 2 })",
            "AskOrQuit(NewTab { pane: Some(2), size: None })",
            "AskOrQuit(NewScreen { size: Some((97, 38)) })",
            "AskOrQuit(NewWorkspace { size: Some((97, 38)) })",
        ]
    );
    // Hovering a control is drawn once.
    assert!(mouse(&mut app, MouseKind::Moved, 62, 0));
    assert!(!mouse(&mut app, MouseKind::Moved, 62, 0));
    assert!(mouse(&mut app, MouseKind::Moved, 3, 3));
    assert_eq!(shown(&mut app), vec!["Pointer { hand: true }", "Pointer { hand: false }"]);
    assert!(!mouse(&mut app, MouseKind::LeftDrag, 3, 3));
    assert!(!mouse(&mut app, MouseKind::LeftUp, 3, 3));
    assert!(!mouse(&mut app, MouseKind::Other, 3, 3));
}

#[test]
fn session_events_are_taken_note_of() {
    let mut app = app();
    app.selection = Some(Selection { surface: 11, anchor: (0, 0), head: (1, 0) });
    let quiet = |event| AppEvent::Mux(event);
    assert_eq!(
        app.handle(quiet(MuxEvent::SurfaceExited(11))),
        HandleOutcome::new(true, false)
    );
    assert!(app.selection.is_none());
    assert_eq!(shown(&mut app), vec!["ForgetRender(11)", "ForgetSurface(11)"]);
    app.handle(quiet(MuxEvent::SurfaceResized { surface: 21, cols: 1, rows: 1 }));
    assert_eq!(shown(&mut app), vec!["ForgetRender(21)"]);
    assert_eq!(app.handle(quiet(MuxEvent::TreeChanged)), HandleOutcome::new(true, false));
    assert!(app.take_effects().is_empty());
    assert_eq!(app.handle(AppEvent::FocusGained), HandleOutcome::new(true, true));
    assert_eq!(shown(&mut app).len(), 2);
    assert_eq!(app.handle(AppEvent::Resize), HandleOutcome::new(true, true));
    assert_eq!(shown(&mut app), vec!["RefreshCellPixels", "ClearRenders"]);
    assert!(app.refresh_cell_pixels((9, 18)));
    assert!(!app.refresh_cell_pixels((9, 18)));
    assert_eq!(app.handle(AppEvent::Other), HandleOutcome::new(false, false));
    app.handle(AppEvent::Paste("x".to_string(), Some(SurfaceKind::Browser)));
    app.handle(AppEvent::Paste("y".to_string(), None));
    let shown = shown(&mut app);
    assert!(shown.contains(&"BrowserText { surface: 11, text: \"x\" }".to_string()));
    assert_eq!(app.handle(quiet(MuxEvent::Empty)), HandleOutcome::new(false, false));
    assert!(app.quit);
}

#[test]
fn turns_gather_what_came() {
    let mut app = app();
    let mut turn = Turn::start();
    assert_eq!(turn.finish(&mut app, 0), TurnEnd::Idle);
    turn.take(HandleOutcome::new(false, true));
    assert_eq!(turn.finish(&mut app, 0), TurnEnd::Idle);
    turn.take(HandleOutcome::new(true, false));
    assert_eq!(turn.finish(&mut app, 0), TurnEnd::Draw { reassert: true });
    let mut taken = 0;
    while turn.wants_queued() {
        taken += 1;
    }
    assert_eq!(taken, MAX_QUEUED);
    let mut idle = Turn::start();
    idle.timed_out(&mut app, false, 0);
    assert_eq!(idle.finish(&mut app, 0), TurnEnd::Idle);
    app.show_toast("x".to_string(), 0);
    assert_eq!(app.poll_millis(), 30);
    idle.timed_out(&mut app, false, 1500);
    assert_eq!(idle.finish(&mut app, 1500), TurnEnd::Draw { reassert: false });
    app.quit = true;
    assert_eq!(idle.finish(&mut app, 1500), TurnEnd::Quit);
}

#[test]
fn covered_pages_are_not_drawn() {
    let mut app = app();
    let frames = vec![Some(7), Some(8)];
    assert_eq!(
        app.graphic_placements(&frames),
        vec![
            GraphicPlacement { surface: 11, rect: rect(23, 1, 47, 38), seq: 7 },
            GraphicPlacement { surface: 21, rect: rect(73, 1, 47, 38), seq: 8 },
        ]
    );
    mouse(&mut app, MouseKind::RightDown, 30, 10);
    assert_eq!(app.graphic_placements(&frames).len(), 1);
    assert!(app.browser_graphic_occluded(rect(30, 10, 1, 1)));
    assert!(app.graphic_placements(&vec![None, None]).is_empty());
}

#[test]
fn terminal_sequences() {
    assert_eq!(paste_bytes("hi", false), b"hi".to_vec());
    assert_eq!(paste_bytes("hi", true), b"\x1b[200~hi\x1b[201~".to_vec());
    assert_eq!(arrow_bytes(true), b"\x1b[B\x1b[B\x1b[B".to_vec());
    assert_eq!(arrow_bytes(false), b"\x1b[A\x1b[A\x1b[A".to_vec());
    assert_eq!(clipboard_sequence("hi"), "\x1b]52;c;aGk=\x07");
    assert_eq!(pointer_sequence(true), "\x1b]22;pointer\x07");
    assert_eq!(pointer_sequence(false), "\x1b]22;default\x07");
}

#[test]
fn the_tree_is_searched() {
    let tree = tree();
    assert_eq!(tree.active_pane(), Some(1));
    assert_eq!(tree.active_surface(), Some(11));
    assert_eq!(tree.tab_location(12), Some((1, 1)));
    assert_eq!(tree.tab_location(99), None);
    assert_eq!(tree.workspace_index(50), Some(0));
    assert_eq!(tree.screen(60).unwrap().name.as_deref(), Some("logs"));
    assert!(tree.screen(62).is_none());
    assert_eq!(tree.pane(2).unwrap().short_id, "p2");
    // A pane of another screen is found, but not shown.
    assert_eq!(tree.pane(3).unwrap().short_id, "p3");
    assert_eq!(tree.tab_location(31), Some((3, 0)));
    assert!(tree.pane_shown(3).is_none());
    assert_eq!(tree.pane_shown(2).unwrap().short_id, "p2");
    let mut app = App::new(config(), (8, 16));
    let layout = vec![(3, rect(22, 0, 50, 40)), (2, rect(72, 0, 50, 40))];
    app.sync_layout((122, 41), tree, &layout);
    assert_eq!(app.pane_areas.iter().map(|area| area.pane).collect::<Vec<_>>(), vec![2]);
}
