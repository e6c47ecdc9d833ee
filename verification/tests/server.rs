use std::collections::HashMap;

use cmux_mux::json::Json;
use cmux_mux::mux::{Effect, Mux, MuxEvent, Spawn, SpawnWork};
use cmux_mux::node::{SplitDir, SurfaceId};
use cmux_mux::protocol::{
    bad_request, is_blank, respond, Command, CommandError, Reply, Response, Work,
};
use cmux_mux::ratio::Ratio;
use cmux_mux::server::{
    attach_json, bind_step, default_socket_path, detached_json, event_json, frame_json,
    handle_command, listed_ids, parse_hex_color, require_pty, screen_reply, surface_reply,
    vt_state_reply, AttachFrame, BindStep, Host,
};
use cmux_mux::surface::{BrowserSource, Rgb, Surface, SurfaceKind, SurfaceOptions};

fn options() -> SurfaceOptions {
    SurfaceOptions {
        command: None,
        cwd: None,
        cols: 80,
        rows: 24,
        term: "xterm-256color".to_string(),
        cdp_url: None,
        browser_discover: true,
        browser_discover_ports: vec![9222],
        chrome_binary: None,
        browser_ephemeral: false,
        browser_user_data_dir: None,
    }
}

fn host() -> Host {
    Host { version: "0.1.0".to_string(), pid: 42, short_ids: HashMap::new() }
}

fn surface(id: SurfaceId, kind: SurfaceKind) -> Surface {
    Surface {
        id,
        kind,
        browser_source: if kind == SurfaceKind::Browser {
            Some(BrowserSource::Launched)
        } else {
            None
        },
        name: None,
        title: "sh".to_string(),
        cols: 80,
        rows: 24,
        pwd: None,
        dead: false,
    }
}

fn perform(mux: &mut Mux, reply: Result<Reply, CommandError>) -> SurfaceId {
    let Ok(Reply::Perform(Work::Spawn(Spawn { id, work, place }))) = reply else {
        panic!("a surface should be asked for");
    };
    let kind = match work {
        SpawnWork::Pty { .. } => SurfaceKind::Pty,
        SpawnWork::Browser { .. } => SurfaceKind::Browser,
    };
    mux.attach(place, surface(id, kind)).unwrap()
}

fn session() -> (Mux, SurfaceId) {
    let mut mux = Mux::new("main".to_string(), options());
    let reply = handle_command(
        &mut mux,
        Command::NewWorkspace { name: None, cols: None, rows: None },
        &host(),
    );
    let id = perform(&mut mux, reply);
    mux.take_effects();
    (mux, id)
}

fn show(value: &Json) -> String {
    match value {
        Json::Null => "null".to_string(),
        Json::Bool(b) => b.to_string(),
        Json::Number(n) => n.to_string(),
        Json::Integer(n) => n.to_string(),
        Json::Ratio(r) => f32::from_bits(r.bits).to_string(),
        Json::Text(text) => format!("{text:?}"),
        Json::List(items) => format!("[{}]", items.iter().map(show).collect::<Vec<_>>().join(",")),
        Json::Record(fields) => format!(
            "{{{}}}",
            fields.iter().map(|(k, v)| format!("{k:?}:{}", show(v))).collect::<Vec<_>>().join(",")
        ),
    }
}

fn answer(mux: &mut Mux, cmd: Command) -> String {
    match handle_command(mux, cmd, &host()) {
        Ok(Reply::Done(value)) => show(&value),
        Ok(Reply::Perform(work)) => format!("{work:?}"),
        Err(error) => error.message(),
    }
}

#[test]
fn sessions_identify_themselves() {
    let (mut mux, _) = session();
    assert_eq!(
        answer(&mut mux, Command::Identify),
        r#"{"app":"cmux-mux","version":"0.1.0","protocol":6,"session":"main","pid":42}"#
    );
}

#[test]
fn workspaces_are_listed_with_everything_in_them() {
    let (mut mux, s1) = session();
    let pane = mux.state().pane_of(s1).unwrap();
    let reply = handle_command(
        &mut mux,
        Command::Split { pane, dir: "right".to_string(), cols: None, rows: None },
        &host(),
    );
    let s2 = perform(&mut mux, reply);
    let ids = listed_ids(&mux);
    assert_eq!(ids.len(), 6);
    assert!(ids.contains(&s1) && ids.contains(&s2) && ids.contains(&pane));
    let listing = answer(&mut mux, Command::ListWorkspaces);
    assert!(listing.contains(r#""kind":"pty""#));
    assert!(listing.contains(r#""dir":"right","ratio":0.5"#));
    assert!(listing.contains(r#""name":"1""#));
}

#[test]
fn requests_are_refused_with_a_reason() {
    let (mut mux, s1) = session();
    let pane = mux.state().pane_of(s1).unwrap();
    let cases = vec![
        (Command::ReadScreen { surface: 77 }, "unknown surface 77"),
        (Command::ClosePane { pane: 77 }, "unknown pane 77"),
        (Command::CloseScreen { screen: 77 }, "unknown screen 77"),
        (Command::CloseWorkspace { workspace: 77 }, "unknown workspace 77"),
        (Command::FocusPane { pane: 77 }, "unknown pane 77"),
        (Command::MoveTab { surface: s1, pane: 77, index: 0 }, "unknown surface/pane"),
        (Command::MoveWorkspace { workspace: 77, index: 0 }, "unknown workspace"),
        (
            Command::SetRatio {
                pane,
                dir: "down".to_string(),
                ratio: Ratio { bits: 0.5f32.to_bits() },
            },
            "unknown pane/split",
        ),
        (
            Command::Split { pane, dir: "up\n".to_string(), cols: None, rows: None },
            r#"bad dir "up\n" (want "right" or "down")"#,
        ),
        (
            Command::SetDefaultColors { fg: None, bg: Some("red".to_string()) },
            r##"bad color "red" (want "#rrggbb")"##,
        ),
    ];
    for (cmd, error) in cases {
        let told = answer(&mut mux, cmd);
        assert!(told.starts_with(error), "{told} is not {error}");
        assert_eq!(mux.take_effects(), vec![]);
    }
}

#[test]
fn pages_take_no_terminal_commands() {
    let (mut mux, _) = session();
    let reply = handle_command(
        &mut mux,
        Command::NewBrowserTab { url: "one.test".to_string(), pane: None, cols: None, rows: None },
        &host(),
    );
    let page = perform(&mut mux, reply);
    let refusal = "browser surface does not support PTY/VT socket commands";
    for cmd in [
        Command::Send { surface: page, text: Some("x".to_string()), bytes: None },
        Command::ReadScreen { surface: page },
        Command::VtState { surface: page },
        Command::ScrollSurface { surface: page, delta: 3 },
    ] {
        assert_eq!(answer(&mut mux, cmd), refusal);
    }
    assert_eq!(
        answer(&mut mux, Command::AttachSurface { surface: page }),
        "browser panes are not supported over attach yet"
    );
    assert!(require_pty(mux.surface(page).unwrap()).is_err());
    assert!(answer(&mut mux, Command::ListWorkspaces).contains(r#""browser_source":"launched""#));
}

#[test]
fn bytes_travel_as_base64() {
    let (mut mux, s1) = session();
    let send = |bytes: &str| Command::Send {
        surface: s1,
        text: Some("ls".to_string()),
        bytes: Some(bytes.to_string()),
    };
    let Ok(Reply::Perform(Work::Write { surface, text, bytes })) =
        handle_command(&mut mux, send("aGk="), &host())
    else {
        panic!("the bytes should be written");
    };
    assert_eq!((surface, text.as_deref()), (s1, Some("ls")));
    assert_eq!(bytes.unwrap().unwrap(), b"hi".to_vec());
    for (bad, error) in [
        ("a*==", "Invalid symbol 42, offset 1."),
        ("aGk", "Invalid padding"),
        ("a", "Invalid input length: 1"),
        ("aGl=", "Invalid last symbol 108, offset 2."),
    ] {
        let Ok(Reply::Perform(Work::Write { bytes: Some(Err(fault)), .. })) =
            handle_command(&mut mux, send(bad), &host())
        else {
            panic!("{bad} should be refused");
        };
        assert_eq!(fault.message(), error);
        assert_eq!(CommandError::BadBase64(fault).message(), error);
    }
    assert_eq!(show(&vt_state_reply(80, 24, b"hi")), r#"{"cols":80,"rows":24,"data":"aGk="}"#);
    assert_eq!(
        show(&attach_json(7, 80, 24, b"")),
        r#"{"event":"vt-state","surface":7,"cols":80,"rows":24,"data":""}"#
    );
    assert_eq!(
        show(&frame_json(7, &AttachFrame::Output(b"hi".to_vec()))),
        r#"{"event":"output","surface":7,"data":"aGk="}"#
    );
    assert_eq!(
        show(&frame_json(
            7,
            &AttachFrame::Resized { cols: 1, rows: 2, replay: b"hi".to_vec() }
        )),
        r#"{"event":"resized","surface":7,"cols":1,"rows":2,"data":"aGk="}"#
    );
}

#[test]
fn requests_turn_into_work() {
    let (mut mux, s1) = session();
    let pane = mux.state().pane_of(s1).unwrap();
    assert!(matches!(
        handle_command(&mut mux, Command::ReadScreen { surface: s1 }, &host()),
        Ok(Reply::Perform(Work::ReadScreen(id))) if id == s1
    ));
    assert!(matches!(
        handle_command(&mut mux, Command::AttachSurface { surface: s1 }, &host()),
        Ok(Reply::Perform(Work::Attach(id))) if id == s1
    ));
    assert!(matches!(
        handle_command(&mut mux, Command::ScrollSurface { surface: s1, delta: -2 }, &host()),
        Ok(Reply::Perform(Work::Scroll { delta: -2, .. }))
    ));
    assert!(matches!(
        handle_command(&mut mux, Command::Subscribe, &host()),
        Ok(Reply::Perform(Work::Subscribe))
    ));
    // A size counts only when both sides are given.
    let Ok(Reply::Perform(Work::Spawn(spawn))) = handle_command(
        &mut mux,
        Command::NewTab { pane: Some(pane), cwd: None, cols: Some(5), rows: None },
        &host(),
    ) else {
        panic!("a tab should be asked for");
    };
    assert!(matches!(spawn.work, SpawnWork::Pty { cols: 80, rows: 24, .. }));
    assert_eq!(
        answer(&mut mux, Command::RenameSurface { surface: s1, name: "api".to_string() }),
        "{}"
    );
    assert_eq!(mux.take_effects(), vec![Effect::Emit(MuxEvent::TreeChanged)]);
    assert_eq!(mux.surface(s1).unwrap().name.as_deref(), Some("api"));
    assert_eq!(
        answer(&mut mux, Command::ResizeSurface { surface: s1, cols: 9, rows: 9 }),
        "{}"
    );
    assert_eq!(
        answer(
            &mut mux,
            Command::SetDefaultColors { fg: Some("#0a0B0c".to_string()), bg: None }
        ),
        "{}"
    );
    assert_eq!(mux.default_colors().fg, Some(Rgb { r: 10, g: 11, b: 12 }));
    assert_eq!(mux.default_colors().bg, None);
}

#[test]
fn colors_are_six_hex_digits() {
    assert_eq!(parse_hex_color("#ff8000").unwrap(), Rgb { r: 255, g: 128, b: 0 });
    for bad in ["ff8000", "#ff800", "#ff80000", "#gg8000", "", "#"] {
        assert!(parse_hex_color(bad).is_err());
    }
    assert_eq!(
        parse_hex_color("x\"").unwrap_err().message(),
        r##"bad color "x\"" (want "#rrggbb")"##
    );
}

#[test]
fn events_are_lines() {
    let cases = [
        (MuxEvent::SurfaceOutput(3), r#"{"event":"surface-output","surface":3}"#),
        (
            MuxEvent::SurfaceResized { surface: 1, cols: 120, rows: 40 },
            r#"{"event":"surface-resized","surface":1,"cols":120,"rows":40}"#,
        ),
        (MuxEvent::SurfaceExited(3), r#"{"event":"surface-exited","surface":3}"#),
        (MuxEvent::TitleChanged(3), r#"{"event":"title-changed","surface":3}"#),
        (MuxEvent::Bell(3), r#"{"event":"bell","surface":3}"#),
        (MuxEvent::TreeChanged, r#"{"event":"tree-changed"}"#),
        (MuxEvent::Empty, r#"{"event":"empty"}"#),
    ];
    for (event, line) in cases {
        assert_eq!(show(&event_json(&event)), line);
    }
    assert_eq!(show(&detached_json(3)), r#"{"event":"detached","surface":3}"#);
    assert_eq!(show(&surface_reply(3)), r#"{"surface":3}"#);
    assert_eq!(show(&screen_reply("a\nb")), r#"{"text":"a\nb"}"#);
}

#[test]
fn responses_leave_out_what_is_absent() {
    let fine: Response<u64> = respond(Some(1), Ok(Json::Null));
    let (id, fields) = fine.into_parts();
    assert_eq!(id, Some(1));
    assert_eq!(show(&fields.record()), r#"{"ok":true,"data":null}"#);
    let refused: Response<u64> = respond(None, Err("no".to_string()));
    assert_eq!(show(&refused.into_parts().1.record()), r#"{"ok":false,"error":"no"}"#);
    let bad: Response<u64> = bad_request("expected value");
    assert_eq!(
        show(&bad.into_parts().1.record()),
        r#"{"ok":false,"error":"bad request: expected value"}"#
    );
    assert!(is_blank(" \t"));
    assert!(!is_blank(" x "));
}

#[test]
fn sockets_have_a_place() {
    assert_eq!(default_socket_path("/run/cmux-mux-1", "main"), "/run/cmux-mux-1/main.sock");
    assert_eq!(default_socket_path("/run/", "main"), "/run/main.sock");
    assert_eq!(default_socket_path("/run", "/tmp/x"), "/tmp/x.sock");
    assert!(matches!(bind_step("/s", false, false), BindStep::Bind));
    assert!(matches!(bind_step("/s", true, false), BindStep::RemoveStale));
    assert!(matches!(
        bind_step("/s", true, true),
        BindStep::Refuse(error)
            if error == "session socket /s is already in use (another instance running?)"
    ));
}

#[test]
fn splits_ask_for_a_direction() {
    let (mut mux, s1) = session();
    let pane = mux.state().pane_of(s1).unwrap();
    let reply = handle_command(
        &mut mux,
        Command::Split { pane, dir: "down".to_string(), cols: Some(9), rows: Some(4) },
        &host(),
    );
    let Ok(Reply::Perform(Work::Spawn(spawn))) = reply else {
        panic!("a pane should be asked for");
    };
    assert!(matches!(spawn.work, SpawnWork::Pty { cols: 9, rows: 4, .. }));
    assert!(matches!(
        spawn.place,
        cmux_mux::mux::Place::Split { dir: SplitDir::Down, .. }
    ));
}
