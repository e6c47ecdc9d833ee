use cmux_mux::mux::{Effect, Mux, MuxError, MuxEvent, Place, Spawn, SpawnWork};
use cmux_mux::node::{Node, PaneId, SplitDir, SurfaceId};
use cmux_mux::ratio::Ratio;
use cmux_mux::surface::{DefaultColors, Rgb, Surface, SurfaceKind, SurfaceOptions};

fn options() -> SurfaceOptions {
    SurfaceOptions {
        command: Some(vec!["/bin/cat".to_string()]),
        cwd: None,
        cols: 80,
        rows: 24,
        term: "xterm-256color".to_string(),
        cdp_url: None,
        browser_discover: true,
        browser_discover_ports: vec![9222],
        chrome_binary: None,
        browser_ephemeral: false,
        browser_user_data_dir: None,
    }
}

fn test_mux() -> Mux {
    Mux::new("test".to_string(), options())
}

fn live(spawn: &Spawn) -> Surface {
    let (kind, cols, rows, pwd) = match &spawn.work {
        SpawnWork::Pty { cwd, cols, rows } => (SurfaceKind::Pty, *cols, *rows, cwd.clone()),
        SpawnWork::Browser { size, .. } => (SurfaceKind::Browser, size.0, size.1, None),
    };
    Surface {
        id: spawn.id,
        kind,
        browser_source: None,
        name: None,
        title: String::new(),
        cols,
        rows,
        pwd,
        dead: false,
    }
}

fn run(mux: &mut Mux, spawn: Spawn) -> SurfaceId {
    let surface = live(&spawn);
    mux.attach(spawn.place, surface).unwrap()
}

fn new_workspace(mux: &mut Mux, name: Option<&str>) -> SurfaceId {
    let spawn = mux.new_workspace(name.map(|n| n.to_string()), None);
    run(mux, spawn)
}

fn split(mux: &mut Mux, pane: PaneId, dir: SplitDir) -> SurfaceId {
    let spawn = mux.split(pane, dir, None);
    run(mux, spawn)
}

fn new_tab(mux: &mut Mux, pane: PaneId) -> SurfaceId {
    let spawn = mux.new_tab(Some(pane), None, None).unwrap();
    run(mux, spawn)
}

fn pane_of(mux: &Mux, surface: SurfaceId) -> PaneId {
    mux.with_state(|s| s.pane_of(surface).unwrap())
}

fn leaves(mux: &Mux) -> Vec<PaneId> {
    let mut ids = Vec::new();
    mux.state().workspaces[0].screens[0].root.pane_ids(&mut ids);
    ids
}

fn ratio(value: f32) -> Ratio {
    Ratio { bits: value.to_bits() }
}

fn value(ratio: &Ratio) -> f32 {
    f32::from_bits(ratio.bits)
}

fn events(mux: &mut Mux) -> Vec<MuxEvent> {
    mux.take_effects()
        .into_iter()
        .filter_map(|effect| match effect {
            Effect::Emit(event) => Some(event),
            _ => None,
        })
        .collect()
}

#[test]
fn split_and_close_collapses_tree() {
    let mut mux = test_mux();
    let s1 = new_workspace(&mut mux, None);
    let p1 = pane_of(&mux, s1);
    let s2 = split(&mut mux, p1, SplitDir::Right);
    let p2 = pane_of(&mux, s2);
    let s3 = split(&mut mux, p2, SplitDir::Down);
    let p3 = pane_of(&mux, s3);

    assert_eq!(leaves(&mux), vec![p1, p2, p3]);

    mux.close_pane(p2);
    assert_eq!(leaves(&mux), vec![p1, p3]);

    mux.close_pane(p1);
    mux.close_pane(p3);
    assert_eq!(mux.surface_count(), 0);
    mux.with_state(|s| assert!(s.workspaces.is_empty()));
}

#[test]
fn closing_active_pane_focuses_most_recent_remaining_pane() {
    let mut mux = test_mux();
    let s1 = new_workspace(&mut mux, None);
    let p1 = pane_of(&mux, s1);
    let s2 = split(&mut mux, p1, SplitDir::Right);
    let p2 = pane_of(&mux, s2);
    let s3 = split(&mut mux, p2, SplitDir::Down);
    let p3 = pane_of(&mux, s3);

    assert!(mux.focus_pane(p1));
    assert!(mux.focus_pane(p3));
    mux.close_pane(p3);

    mux.with_state(|s| {
        assert_eq!(s.workspaces[0].screens[0].active_pane, p1);
        assert!(s.panes.contains_key(&p2));
    });
}

#[test]
fn tabs_within_pane() {
    let mut mux = test_mux();
    let s1 = new_workspace(&mut mux, None);
    let pane = pane_of(&mux, s1);
    let s2 = new_tab(&mut mux, pane);

    mux.with_state(|s| {
        let p = &s.panes[&pane];
        assert_eq!(p.tabs, vec![s1, s2]);
        assert_eq!(p.active_tab, 1);
    });

    // Closing the active tab activates the previous one; the pane stays.
    mux.close_surface(s2);
    mux.with_state(|s| {
        let p = &s.panes[&pane];
        assert_eq!(p.tabs, vec![s1]);
        assert_eq!(p.active_tab, 0);
        assert_eq!(s.workspaces.len(), 1);
    });

    // Closing the last tab collapses the pane, screen, and workspace.
    mux.close_surface(s1);
    mux.with_state(|s| assert!(s.workspaces.is_empty()));
}

#[test]
fn move_tab_within_pane_clamps_and_tracks_active_tab() {
    let mut mux = test_mux();
    let s1 = new_workspace(&mut mux, None);
    let pane = pane_of(&mux, s1);
    let s2 = new_tab(&mut mux, pane);
    let s3 = new_tab(&mut mux, pane);

    assert!(mux.move_tab(s3, pane, 0));
    mux.with_state(|s| {
        let pane = &s.panes[&pane];
        assert_eq!(pane.tabs, vec![s3, s1, s2]);
        assert_eq!(pane.active_tab, 0);
    });

    assert!(mux.move_tab(s3, pane, 99));
    mux.with_state(|s| {
        let pane = &s.panes[&pane];
        assert_eq!(pane.tabs, vec![s1, s2, s3]);
        assert_eq!(pane.active_tab, 2);
    });
}

#[test]
fn move_tab_same_position_preserves_active_tab_and_emits_no_event() {
    let mut mux = test_mux();
    let s1 = new_workspace(&mut mux, None);
    let pane = pane_of(&mux, s1);
    let s2 = new_tab(&mut mux, pane);
    let s3 = new_tab(&mut mux, pane);
    mux.select_tab(Some(pane), Some(0), None);
    mux.take_effects();

    assert!(!mux.move_tab(s2, pane, 1));
    mux.with_state(|s| {
        let pane = &s.panes[&pane];
        assert_eq!(pane.tabs, vec![s1, s2, s3]);
        assert_eq!(pane.active_tab, 0);
    });
    assert!(events(&mut mux).iter().all(|event| !matches!(event, MuxEvent::TreeChanged)));
}

#[test]
fn move_tab_across_panes_collapses_empty_source_and_preserves_surface() {
    let mut mux = test_mux();
    let s1 = new_workspace(&mut mux, None);
    let p1 = pane_of(&mux, s1);
    let s2 = split(&mut mux, p1, SplitDir::Right);
    let p2 = pane_of(&mux, s2);
    let original_count = mux.surface_count();

    assert!(mux.move_tab(s1, p2, 0));
    mux.with_state(|s| {
        assert!(!s.panes.contains_key(&p1));
        let target = &s.panes[&p2];
        assert_eq!(target.tabs, vec![s1, s2]);
        assert_eq!(target.active_tab, 0);
        assert!(s.surfaces.contains_key(&s1));
        let mut ids = Vec::new();
        s.workspaces[0].screens[0].root.pane_ids(&mut ids);
        assert_eq!(ids, vec![p2]);
    });
    assert_eq!(mux.surface_count(), original_count);
}

#[test]
fn move_workspace_reorders_and_tracks_active_workspace() {
    let mut mux = test_mux();
    new_workspace(&mut mux, Some("one"));
    new_workspace(&mut mux, Some("two"));
    new_workspace(&mut mux, Some("three"));
    let (ws1, ws2, ws3) =
        mux.with_state(|s| (s.workspaces[0].id, s.workspaces[1].id, s.workspaces[2].id));

    assert!(mux.move_workspace(ws3, 0));
    mux.with_state(|s| {
        assert_eq!(s.workspaces.iter().map(|ws| ws.id).collect::<Vec<_>>(), vec![ws3, ws1, ws2]);
        assert_eq!(s.active_workspace, 0);
    });

    assert!(mux.move_workspace(ws1, 99));
    mux.with_state(|s| {
        assert_eq!(s.workspaces.iter().map(|ws| ws.id).collect::<Vec<_>>(), vec![ws3, ws2, ws1]);
        assert_eq!(s.active_workspace, 0);
    });
}

#[test]
fn set_ratio_updates_deepest_split_and_clamps() {
    let mut mux = test_mux();
    let s1 = new_workspace(&mut mux, None);
    let p1 = pane_of(&mux, s1);
    let s2 = split(&mut mux, p1, SplitDir::Right);
    let p2 = pane_of(&mux, s2);
    let s3 = split(&mut mux, p1, SplitDir::Right);
    let p3 = pane_of(&mux, s3);

    assert!(mux.set_ratio(p1, SplitDir::Right, ratio(0.8)));
    mux.with_state(|s| {
        let root = &s.workspaces[0].screens[0].root;
        let Node::Split { ratio: root_ratio, a, .. } = root else {
            panic!("root should be split");
        };
        assert_eq!(value(root_ratio), 0.5);
        let Node::Split { ratio: inner_ratio, .. } = a.as_ref() else {
            panic!("first child should be split");
        };
        assert_eq!(value(inner_ratio), 0.8);
    });

    assert!(mux.set_ratio(p2, SplitDir::Right, ratio(-1.0)));
    mux.with_state(|s| {
        let Node::Split { ratio, .. } = &s.workspaces[0].screens[0].root else {
            panic!("root should be split");
        };
        assert_eq!(value(ratio), 0.05);
    });

    assert!(mux.set_ratio(p3, SplitDir::Right, ratio(2.0)));
    mux.with_state(|s| {
        let Node::Split { a, .. } = &s.workspaces[0].screens[0].root else {
            panic!("root should be split");
        };
        let Node::Split { ratio, .. } = a.as_ref() else {
            panic!("first child should be split");
        };
        assert_eq!(value(ratio), 0.95);
    });

    assert!(!mux.set_ratio(9999, SplitDir::Right, ratio(0.4)));

    mux.close_pane(p1);
    mux.close_pane(p2);
    mux.close_pane(p3);
}

#[test]
fn screens_within_workspace() {
    let mut mux = test_mux();
    new_workspace(&mut mux, None);
    let spawn = mux.new_screen(None, None).unwrap();
    let s2 = run(&mut mux, spawn);

    let (screen1, screen2) = mux.with_state(|s| {
        let ws = &s.workspaces[0];
        assert_eq!(ws.screens.len(), 2);
        assert_eq!(ws.active_screen, 1);
        (ws.screens[0].id, ws.screens[1].id)
    });

    // Select back to screen 1; screen 2 keeps running.
    mux.select_screen(Some(0), None);
    mux.with_state(|s| assert_eq!(s.workspaces[0].active_screen, 0));

    // Renaming a screen sticks; clearing falls back.
    assert!(mux.rename_screen(screen2, "logs".into()));
    mux.with_state(|s| {
        assert_eq!(s.workspaces[0].screens[1].name.as_deref(), Some("logs"));
    });

    // Focusing a pane in screen 2 activates that screen.
    let p2 = pane_of(&mux, s2);
    assert!(mux.focus_pane(p2));
    mux.with_state(|s| assert_eq!(s.workspaces[0].active_screen, 1));

    // Closing screen 2 keeps the workspace with screen 1.
    assert!(mux.close_screen(screen2));
    mux.with_state(|s| {
        let ws = &s.workspaces[0];
        assert_eq!(ws.screens.len(), 1);
        assert_eq!(ws.screens[0].id, screen1);
        assert_eq!(ws.active_screen, 0);
    });
}

#[test]
fn workspaces_and_renames() {
    let mut mux = test_mux();
    new_workspace(&mut mux, None);
    new_workspace(&mut mux, Some("dev"));

    let (ws0, ws1, pane1, surface1) = mux.with_state(|s| {
        assert_eq!(s.workspaces.len(), 2);
        assert_eq!(s.workspaces[1].name, "dev");
        assert_eq!(s.active_workspace, 1);
        let pane = s.workspaces[1].screens[0].active_pane;
        let surface = s.panes[&pane].tabs[0];
        (s.workspaces[0].id, s.workspaces[1].id, pane, surface)
    });

    assert!(mux.rename_workspace(ws0, "ops".into()));
    assert!(mux.rename_pane(pane1, "logs".into()));
    assert!(mux.rename_surface(surface1, "api".into()));
    mux.with_state(|s| {
        assert_eq!(s.workspaces[0].name, "ops");
        assert_eq!(s.panes[&pane1].name.as_deref(), Some("logs"));
        assert_eq!(s.surfaces[&surface1].name.as_deref(), Some("api"));
    });
    // Clearing the names falls back to the generated labels.
    assert!(mux.rename_pane(pane1, String::new()));
    assert!(mux.rename_surface(surface1, String::new()));
    mux.with_state(|s| {
        assert_eq!(s.panes[&pane1].name, None);
        assert_eq!(s.surfaces[&surface1].name, None);
    });

    assert!(mux.close_workspace(ws1));
    mux.with_state(|s| {
        assert_eq!(s.workspaces.len(), 1);
        assert_eq!(s.workspaces[0].id, ws0);
        assert_eq!(s.active_workspace, 0);
    });
    assert!(!events(&mut mux).is_empty());
}

#[test]
fn workspaces_are_numbered() {
    let mut mux = test_mux();
    new_workspace(&mut mux, None);
    new_workspace(&mut mux, None);
    let names: Vec<String> = mux.state().workspaces.iter().map(|ws| ws.name.clone()).collect();
    assert_eq!(names, vec!["1".to_string(), "2".to_string()]);
}

#[test]
fn closing_a_surface_kills_it_and_tells_everybody() {
    let mut mux = test_mux();
    let s1 = new_workspace(&mut mux, None);
    let pane = pane_of(&mux, s1);
    let s2 = new_tab(&mut mux, pane);
    mux.take_effects();

    mux.close_surface(s2);
    assert_eq!(mux.take_effects(), vec![Effect::Kill(s2), Effect::Emit(MuxEvent::TreeChanged)]);
    // It is gone: closing it again does nothing.
    mux.close_surface(s2);
    assert_eq!(mux.take_effects(), vec![]);
    // The last one takes the session's last workspace along.
    mux.close_surface(s1);
    assert_eq!(
        mux.take_effects(),
        vec![
            Effect::Kill(s1),
            Effect::Emit(MuxEvent::TreeChanged),
            Effect::Emit(MuxEvent::Empty)
        ]
    );
}

#[test]
fn an_exited_surface_is_reaped() {
    let mut mux = test_mux();
    let s1 = new_workspace(&mut mux, None);
    let p1 = pane_of(&mux, s1);
    let s2 = split(&mut mux, p1, SplitDir::Down);
    mux.take_effects();
    mux.surface_exited(s2);
    assert_eq!(
        mux.take_effects(),
        vec![
            Effect::Kill(s2),
            Effect::Emit(MuxEvent::SurfaceExited(s2)),
            Effect::Emit(MuxEvent::TreeChanged)
        ]
    );
    assert_eq!(leaves(&mux), vec![p1]);
    // Nothing changes for a surface that is gone already.
    mux.surface_exited(s2);
    assert_eq!(mux.take_effects(), vec![Effect::Emit(MuxEvent::SurfaceExited(s2))]);
    mux.surface_exited(s1);
    assert_eq!(
        events(&mut mux),
        vec![MuxEvent::SurfaceExited(s1), MuxEvent::TreeChanged, MuxEvent::Empty]
    );
}

#[test]
fn a_surface_that_ended_early_is_not_kept() {
    let mut mux = test_mux();
    let s1 = new_workspace(&mut mux, None);
    let pane = pane_of(&mux, s1);
    let spawn = mux.new_tab(Some(pane), None, None).unwrap();
    let mut surface = live(&spawn);
    surface.dead = true;
    assert_eq!(mux.attach(spawn.place, surface), Ok(spawn.id));
    assert_eq!(mux.surface_count(), 1);
    assert_eq!(mux.state().panes[&pane].tabs, vec![s1]);
}

#[test]
fn a_place_can_disappear_while_a_surface_starts() {
    let mut mux = test_mux();
    let s1 = new_workspace(&mut mux, None);
    let pane = pane_of(&mux, s1);
    let tab = mux.new_tab(Some(pane), None, None).unwrap();
    let page = mux.new_browser_tab("one.test".to_string(), Some(pane), None).unwrap();
    let half = mux.split(pane, SplitDir::Right, None);
    let screen = mux.new_screen(None, None).unwrap();
    mux.close_surface(s1);
    mux.take_effects();

    let surface = live(&tab);
    assert_eq!(mux.attach(tab.place, surface), Err(MuxError::PaneDisappeared));
    let surface = live(&page);
    assert_eq!(mux.attach(page.place, surface), Err(MuxError::BrowserPaneDisappeared));
    let surface = live(&half);
    assert_eq!(mux.attach(half.place, surface), Err(MuxError::PaneNotFound(pane)));
    let surface = live(&screen);
    assert_eq!(mux.attach(screen.place, surface), Err(MuxError::WorkspaceDisappeared));
    assert_eq!(
        mux.take_effects(),
        vec![
            Effect::Kill(tab.id),
            Effect::Kill(page.id),
            Effect::Kill(half.id),
            Effect::Kill(screen.id)
        ]
    );
}

#[test]
fn refused_requests_say_why() {
    let mut mux = test_mux();
    assert_eq!(mux.new_tab(Some(7), None, None).err(), Some(MuxError::UnknownPane(7)));
    assert_eq!(mux.new_screen(Some(8), None).err(), Some(MuxError::UnknownWorkspace(8)));
    assert_eq!(
        mux.new_browser_tab("x".to_string(), Some(9), None).err(),
        Some(MuxError::UnknownPane(9))
    );
    assert_eq!(mux.resize_surface(5, 1, 1), Err(MuxError::UnknownSurface(5)));
    assert_eq!(MuxError::UnknownSurface(5).message(), "unknown surface 5");
    assert_eq!(MuxError::UnknownPane(7).message(), "unknown pane 7");
    assert_eq!(MuxError::UnknownWorkspace(0).message(), "unknown workspace 0");
    assert_eq!(MuxError::PaneNotFound(120).message(), "pane 120 not found");
    assert_eq!(
        MuxError::WorkspaceDisappeared.message(),
        "workspace disappeared while creating screen"
    );
    assert_eq!(MuxError::PaneDisappeared.message(), "pane disappeared while creating tab");
    assert_eq!(
        MuxError::BrowserPaneDisappeared.message(),
        "pane disappeared while creating browser tab"
    );
}

#[test]
fn tabs_and_splits_start_where_their_neighbor_is() {
    let mut mux = test_mux();
    let s1 = new_workspace(&mut mux, None);
    let pane = pane_of(&mux, s1);
    mux.update_surface(s1, "title".to_string(), Some("/tmp".to_string()), false);
    assert_eq!(mux.resize_surface(s1, 100, 41), Ok(true));

    let tab = mux.new_tab(Some(pane), None, None).unwrap();
    assert!(matches!(
        &tab.work,
        SpawnWork::Pty { cwd: Some(cwd), cols: 100, rows: 41 } if cwd == "/tmp"
    ));
    // A border cell, then half of the rest.
    let right = mux.split(pane, SplitDir::Right, None);
    assert!(matches!(right.work, SpawnWork::Pty { cols: 49, rows: 41, .. }));
    let down = mux.split(pane, SplitDir::Down, None);
    assert!(matches!(down.work, SpawnWork::Pty { cols: 100, rows: 20, .. }));
    let sized = mux.split(pane, SplitDir::Down, Some((0, 9)));
    assert!(matches!(sized.work, SpawnWork::Pty { cols: 1, rows: 9, .. }));
    assert!(matches!(down.place, Place::Split { dir: SplitDir::Down, .. }));
}

#[test]
fn without_a_workspace_requests_make_one() {
    let mut mux = test_mux();
    let tab = mux.new_tab(None, None, Some((30, 10))).unwrap();
    assert!(matches!(tab.place, Place::Workspace { name: None }));
    assert!(matches!(tab.work, SpawnWork::Pty { cols: 30, rows: 10, .. }));
    let screen = mux.new_screen(None, None).unwrap();
    assert!(matches!(screen.place, Place::Workspace { name: None }));
    assert!(matches!(screen.work, SpawnWork::Pty { cols: 80, rows: 24, .. }));
    let page = mux.new_browser_tab("one.test".to_string(), None, None).unwrap();
    assert!(matches!(page.place, Place::Workspace { name: None }));
    assert!(matches!(
        page.work,
        SpawnWork::Browser { size: (80, 24), cell_pixels: _, connect: true, .. }
    ));
}

#[test]
fn same_size_resizes_tell_nobody() {
    let mut mux = test_mux();
    let s1 = new_workspace(&mut mux, None);
    mux.take_effects();
    assert_eq!(mux.resize_surface(s1, 120, 0), Ok(true));
    assert_eq!(
        mux.take_effects(),
        vec![
            Effect::Resize { surface: s1, cols: 120, rows: 1 },
            Effect::Emit(MuxEvent::SurfaceResized { surface: s1, cols: 120, rows: 1 })
        ]
    );
    assert_eq!(mux.resize_surface(s1, 120, 1), Ok(false));
    assert_eq!(mux.take_effects(), vec![Effect::Resize { surface: s1, cols: 120, rows: 1 }]);
}

#[test]
fn selections_go_round() {
    let mut mux = test_mux();
    let s1 = new_workspace(&mut mux, None);
    let pane = pane_of(&mux, s1);
    new_tab(&mut mux, pane);
    new_tab(&mut mux, pane);
    assert_eq!(mux.state().panes[&pane].active_tab, 2);
    mux.select_tab(None, None, Some(1));
    assert_eq!(mux.state().panes[&pane].active_tab, 0);
    mux.select_tab(None, None, Some(-1));
    assert_eq!(mux.state().panes[&pane].active_tab, 2);
    mux.select_tab(None, Some(1), Some(5));
    assert_eq!(mux.state().panes[&pane].active_tab, 1);
    mux.select_tab(None, Some(9), None);
    assert_eq!(mux.state().panes[&pane].active_tab, 1);
    new_workspace(&mut mux, None);
    mux.select_workspace(None, Some(1));
    assert_eq!(mux.state().active_workspace, 0);
    mux.select_workspace(None, Some(-1));
    assert_eq!(mux.state().active_workspace, 1);
}

#[test]
fn moving_a_tab_keeps_the_others() {
    let mut mux = test_mux();
    let s1 = new_workspace(&mut mux, None);
    let p1 = pane_of(&mux, s1);
    let s2 = new_tab(&mut mux, p1);
    let s3 = split(&mut mux, p1, SplitDir::Right);
    let p2 = pane_of(&mux, s3);
    assert!(mux.move_tab(s2, p2, 1));
    assert_eq!(mux.state().panes[&p1].tabs, vec![s1]);
    assert_eq!(mux.state().panes[&p2].tabs, vec![s3, s2]);
    assert_eq!(mux.state().panes[&p2].active_tab, 1);
    assert_eq!(mux.state().workspaces[0].screens[0].active_pane, p2);
    assert!(!mux.move_tab(99, p2, 0));
    assert!(!mux.move_tab(s1, 99, 0));
}

#[test]
fn closing_a_split_pane_restores_the_layout() {
    let mut mux = test_mux();
    let s1 = new_workspace(&mut mux, None);
    let p1 = pane_of(&mux, s1);
    split(&mut mux, p1, SplitDir::Right);
    let before = leaves(&mux);
    let s3 = split(&mut mux, p1, SplitDir::Down);
    assert_eq!(leaves(&mux).len(), 3);
    mux.close_surface(s3);
    assert_eq!(leaves(&mux), before);
    assert!(matches!(
        &mux.state().workspaces[0].screens[0].root,
        Node::Split { dir: SplitDir::Right, .. }
    ));
}

#[test]
fn every_surface_is_told_the_colors() {
    let mut mux = test_mux();
    let s1 = new_workspace(&mut mux, None);
    mux.take_effects();
    let colors = DefaultColors { fg: Some(Rgb { r: 1, g: 2, b: 3 }), bg: None };
    mux.set_default_colors(colors);
    assert_eq!(mux.default_colors(), colors);
    assert_eq!(
        mux.take_effects(),
        vec![
            Effect::SetColors { surface: s1, colors },
            Effect::Emit(MuxEvent::SurfaceOutput(s1))
        ]
    );
    mux.set_cell_pixel_size(0, 16);
    assert_eq!(
        mux.take_effects(),
        vec![Effect::SetCellPixels { surface: s1, width: 1, height: 16 }]
    );
    mux.shutdown();
    assert_eq!(mux.take_effects(), vec![Effect::Kill(s1)]);
}
