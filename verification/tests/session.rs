use cmux_mux::json::Json;
use cmux_mux::node::SplitDir;
use cmux_mux::ratio::Ratio;
use cmux_mux::session::{
    request_json, resize_action, Reach, RemoteSurface, Request, Session, SessionError, Step,
    SurfaceHandle,
};
use cmux_mux::surface::SurfaceKind;

fn show(value: &Json) -> String {
    match value {
        Json::Null => "null".to_string(),
        Json::Bool(b) => b.to_string(),
        Json::Number(n) => n.to_string(),
        Json::Integer(n) => n.to_string(),
        Json::Ratio(r) => f32::from_bits(r.bits).to_string(),
        Json::Text(text) => format!("{text:?}"),
        Json::List(items) => format!("[{}]", items.iter().map(show).collect::<Vec<_>>().join(",")),
        Json::Record(fields) => format!(
            "{{{}}}",
            fields.iter().map(|(k, v)| format!("{k:?}:{}", show(v))).collect::<Vec<_>>().join(",")
        ),
    }
}

#[test]
fn first_layout_after_attach_sends_ordered_resize() {
    let desired = (123, 65);
    let server = (80, 24);
    assert!(resize_action(desired, None, server, false));
}

#[test]
fn already_sized_first_layout_does_not_send_redundant_resize() {
    let desired = (123, 65);
    assert!(!resize_action(desired, Some(desired), desired, false));
}

#[test]
fn remote_resize_with_no_local_change_does_not_send() {
    let desired = (123, 65);
    let server = (341, 92);
    assert!(!resize_action(desired, Some(desired), server, false));
}

#[test]
fn remote_resize_followed_by_user_interaction_sends() {
    let desired = (123, 65);
    let server = (341, 92);
    assert!(resize_action(desired, Some(desired), server, true));
}

#[test]
fn steady_state_does_not_send() {
    let desired = (123, 65);
    assert!(!resize_action(desired, Some(desired), desired, false));
    assert!(!resize_action(desired, Some(desired), desired, true));
}

#[test]
fn idle_clients_are_quiet_and_users_are_not() {
    let remote = RemoteSurface { id: 4, asserted: None, server: (80, 24), dirty: true };
    let mut handle = SurfaceHandle::Remote(remote);
    assert_eq!(handle.kind(), SurfaceKind::Pty);
    assert!(matches!(
        handle.resize(100, 0),
        Some(Request::ResizeSurface { surface: 4, cols: 100, rows: 1 })
    ));
    // The server goes elsewhere; this client stays quiet until its user acts.
    if let SurfaceHandle::Remote(remote) = &mut handle {
        remote.server = (200, 50);
    }
    assert!(handle.resize(100, 1).is_none());
    assert!(matches!(
        handle.reassert_size(100, 1),
        Some(Request::ResizeSurface { surface: 4, cols: 100, rows: 1 })
    ));
    assert!(handle.take_dirty());
    assert!(!handle.take_dirty());
    assert_eq!(handle.browser_target(), Err(SessionError::BrowserOverAttach));
}

#[test]
fn local_surfaces_and_remote_pages() {
    let mut local = SurfaceHandle::Local { surface: 3, kind: SurfaceKind::Browser, dirty: true };
    assert_eq!(local.kind(), SurfaceKind::Browser);
    assert!(matches!(
        local.resize(0, 0),
        Some(Request::ResizeSurface { surface: 3, cols: 1, rows: 1 })
    ));
    assert_eq!(local.browser_target(), Ok(3));
    assert!(local.take_dirty());
    assert!(!local.take_dirty());
    assert_eq!(local.browser_target(), Ok(3));
    let mut page = SurfaceHandle::RemoteBrowser;
    assert_eq!(page.kind(), SurfaceKind::Browser);
    assert!(page.reassert_size(80, 24).is_none());
    assert!(!page.take_dirty());
    assert_eq!(
        SessionError::BrowserOverAttach.message(),
        "browser panes are not supported over attach yet"
    );
}

#[test]
fn remote_requests_are_commands() {
    let cases = [
        (
            Request::NewTab { pane: Some(2), size: Some((80, 24)) },
            r#"{"cmd":"new-tab","pane":2,"cols":80,"rows":24}"#,
        ),
        (Request::NewWorkspace { size: None }, r#"{"cmd":"new-workspace"}"#),
        (
            Request::Split { pane: 2, dir: SplitDir::Down, size: None },
            r#"{"cmd":"split","pane":2,"dir":"down"}"#,
        ),
        (
            Request::SetRatio {
                pane: 2,
                dir: SplitDir::Right,
                ratio: Ratio { bits: 0.25f32.to_bits() },
            },
            r#"{"cmd":"set-ratio","pane":2,"dir":"right","ratio":0.25}"#,
        ),
        (
            Request::MoveTab { surface: 1, pane: 2, index: 3 },
            r#"{"cmd":"move-tab","surface":1,"pane":2,"index":3}"#,
        ),
        (
            Request::RenameScreen { screen: 5, name: "logs".to_string() },
            r#"{"cmd":"rename-screen","screen":5,"name":"logs"}"#,
        ),
        (
            Request::ResizeSurface { surface: 1, cols: 2, rows: 3 },
            r#"{"cmd":"resize-surface","surface":1,"cols":2,"rows":3}"#,
        ),
        (
            Request::SelectTab { pane: None, index: None, delta: Some(-1) },
            r#"{"cmd":"select-tab","pane":null,"index":null,"delta":-1}"#,
        ),
        (
            Request::SelectScreen { index: Some(2), delta: None },
            r#"{"cmd":"select-screen","index":2,"delta":null}"#,
        ),
        (Request::FocusPane { pane: 9 }, r#"{"cmd":"focus-pane","pane":9}"#),
        (Request::CloseWorkspace { workspace: 9 }, r#"{"cmd":"close-workspace","workspace":9}"#),
    ];
    for (request, line) in cases {
        assert_eq!(show(&request_json(&request)), line);
    }
}

#[test]
fn sessions_route_their_requests() {
    let local = Session::Local;
    let remote = Session::Remote;
    assert!(matches!(
        local.close_pane(3),
        Step::Serve(Request::ClosePane { pane: 3 })
    ));
    let Step::Send(command) = remote.close_pane(3) else {
        panic!("a remote session is sent a command");
    };
    assert_eq!(show(&command), r#"{"cmd":"close-pane","pane":3}"#);
    assert!(local.ensure_initial(None, false).is_some());
    assert!(remote.ensure_initial(None, false).is_none());
    assert!(remote.ensure_initial(None, true).is_some());
    assert!(local.new_browser_tab("x".to_string(), None, None).is_ok());
    assert_eq!(
        remote.new_browser_tab("x".to_string(), None, None).err(),
        Some(SessionError::BrowserOverAttach)
    );
    assert_eq!(local.surface_sized(true, SurfaceKind::Pty), Reach::Local);
    assert_eq!(local.surface_sized(false, SurfaceKind::Pty), Reach::Missing);
    assert_eq!(remote.surface_sized(false, SurfaceKind::Pty), Reach::Mirror);
    assert_eq!(remote.surface_sized(true, SurfaceKind::Browser), Reach::RemoteBrowser);
    assert!(remote.forget_surface());
    assert!(!local.forget_surface());
    assert!(local.set_cell_pixel_size());
    assert!(!remote.set_cell_pixel_size());
}
