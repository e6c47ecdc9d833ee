use cmux_mux::browser::{
    launch_profile, normalize_url, resolve_chrome_binary, resolve_chrome_user_data_dir,
    runtime_endpoint, BrowserError, BrowserFrame, BrowserRuntime, BrowserSurface, CdpEvent,
    EndpointStep, Reaction, TargetInfo,
};
use cmux_mux::mux::{Effect, Mux, SpawnWork};
use cmux_mux::surface::{BrowserSource, Surface, SurfaceKind, SurfaceOptions};

fn options() -> SurfaceOptions {
    SurfaceOptions {
        command: None,
        cwd: None,
        cols: 80,
        rows: 24,
        term: "xterm-256color".to_string(),
        cdp_url: None,
        browser_discover: false,
        browser_discover_ports: Vec::new(),
        chrome_binary: None,
        browser_ephemeral: false,
        browser_user_data_dir: None,
    }
}

fn frame(session: &str, seq: u64) -> BrowserFrame {
    BrowserFrame {
        session_id: session.to_string(),
        data_b64: format!("png-{seq}"),
        css_width: 80,
        css_height: 40,
        seq,
    }
}

fn info(target: &str, title: &str, url: &str) -> CdpEvent {
    CdpEvent::TargetInfoChanged(TargetInfo {
        target_id: target.to_string(),
        title: title.to_string(),
        url: url.to_string(),
    })
}

#[test]
fn normalizes_browser_urls() {
    assert_eq!(normalize_url("example.com"), "https://example.com");
    assert_eq!(normalize_url(" https://example.com "), "https://example.com");
    assert_eq!(normalize_url("about:blank"), "about:blank");
    assert_eq!(normalize_url("file:///tmp/test.html"), "file:///tmp/test.html");
}

#[test]
fn explicit_schemes_pass_unchanged() {
    for url in [
        "mailto:me@example.com",
        "javascript:void(0)",
        "view-source:https://example.com",
        "Git+SSH.2:x",
        "x:",
        "tel:+1-555",
        "host:80a",
        "about:9",
    ] {
        assert_eq!(normalize_url(url), url);
    }
    assert_eq!(normalize_url(" mailto:me@example.com "), "mailto:me@example.com");
}

#[test]
fn hosts_with_ports_are_bare() {
    for url in [
        "localhost:3000",
        "example.com:8080/path",
        "host:1?q",
        "host:1#f",
        "127.0.0.1:80",
        "[::1]:80",
        "example.com",
        "a b:c",
        ":x",
        "",
    ] {
        assert_eq!(normalize_url(url), format!("https://{url}"));
    }
}

#[test]
fn normalizing_again_changes_nothing() {
    for url in [
        "mailto:x",
        "localhost:3000",
        "example.com",
        " x ",
        "",
        "data:text/html,x",
        "chrome:gpu",
        "devtools:x",
        "a://b",
    ] {
        let once = normalize_url(url);
        assert_eq!(normalize_url(&once), once);
    }
    assert_eq!(normalize_url("data:text/html,x"), "data:text/html,x");
    assert_eq!(normalize_url("chrome:gpu"), "chrome:gpu");
    assert_eq!(normalize_url("devtools:x"), "devtools:x");
}

#[test]
fn two_pages_share_a_connection_and_get_their_own_frames() {
    let mut opts = options();
    opts.cdp_url = Some("ws://127.0.0.1/devtools/browser/fake".to_string());
    let mut mux = Mux::new("browser-runtime-test".to_string(), opts);
    let mut pages: Vec<BrowserSurface> = Vec::new();
    for (n, url) in [(1, "one.test"), (2, "two.test")] {
        let spawn = mux.new_browser_tab(url.to_string(), None, Some((10, 5))).unwrap();
        let SpawnWork::Browser { url, size, cell_pixels, connect } = &spawn.work else {
            panic!("a page should be asked for");
        };
        // The connection is made once.
        assert_eq!(*connect, n == 1);
        if *connect {
            mux.set_browser_runtime(BrowserRuntime::connect(BrowserSource::External));
        }
        let plan = mux.browser_runtime().unwrap().spawn_surface(url, *size, *cell_pixels).unwrap();
        let (target, session) = (format!("target-{n}"), format!("session-{n}"));
        mux.register_page(&target, &session, spawn.id);
        let page = BrowserSurface::new(spawn.id, BrowserSource::External, target, session, plan);
        let surface = Surface {
            id: page.id,
            kind: SurfaceKind::Browser,
            browser_source: Some(page.source()),
            name: None,
            title: page.title(),
            cols: page.size().0,
            rows: page.size().1,
            pwd: None,
            dead: false,
        };
        mux.attach(spawn.place, surface).unwrap();
        pages.push(page);
    }
    let (first, second) = (pages[0].id, pages[1].id);
    for id in [first, second] {
        let surface = mux.surface(id).unwrap();
        assert_eq!(surface.kind, SurfaceKind::Browser);
        assert_eq!(surface.browser_source.unwrap().as_str(), "external");
    }

    for (session, seq) in [("session-1", 101), ("session-2", 202)] {
        let event = CdpEvent::ScreencastFrame(frame(session, seq));
        for id in mux.route_event(&event) {
            let page = pages.iter_mut().find(|page| page.id == id).unwrap();
            page.handle(CdpEvent::ScreencastFrame(frame(session, seq)));
        }
    }
    let first_frame = pages[0].latest_frame().unwrap();
    let second_frame = pages[1].latest_frame().unwrap();
    assert_eq!(first_frame.session_id, "session-1");
    assert_eq!(first_frame.seq, 101);
    assert_eq!(second_frame.session_id, "session-2");
    assert_eq!(second_frame.seq, 202);

    mux.take_effects();
    mux.close_surface(first);
    assert!(mux.take_effects().contains(&Effect::Kill(first)));
    assert!(pages[0].kill());
    assert!(!pages[0].kill());
    assert!(mux.close_page("target-1", "session-1"));
    assert!(mux.route_event(&CdpEvent::ScreencastFrame(frame("session-1", 1))).is_empty());
    assert_eq!(mux.route_event(&CdpEvent::ScreencastFrame(frame("session-2", 1))), vec![second]);
    mux.close_surface(second);
    assert!(mux.close_page("target-2", "session-2"));
    mux.take_effects();
    // Only a browser that was launched for the session is stopped.
    mux.shutdown();
    assert!(!mux.take_effects().contains(&Effect::StopBrowser));
}

#[test]
fn events_find_their_page() {
    let mut runtime = BrowserRuntime::connect(BrowserSource::Launched);
    runtime.register("t1", "s1", 1);
    runtime.register("t2", "s2", 2);
    assert_eq!(runtime.route(&info("t2", "", "")), vec![2]);
    let other = |session: Option<&str>| CdpEvent::Other {
        method: "Page.loadEventFired".to_string(),
        session_id: session.map(|s| s.to_string()),
    };
    assert_eq!(runtime.route(&other(Some("s1"))), vec![1]);
    assert!(runtime.route(&other(Some("s9"))).is_empty());
    assert!(runtime.route(&other(None)).is_empty());
    assert!(runtime.close_surface("t1", "s1"));
    assert!(runtime.route(&other(Some("s1"))).is_empty());
    runtime.register("t1", "s1", 3);
    let mut told = runtime.route(&CdpEvent::Closed("gone".to_string()));
    told.sort();
    assert_eq!(told, vec![2, 3]);
    assert!(runtime.is_closed());
    assert!(runtime.route(&other(Some("s2"))).is_empty());
    assert!(!runtime.close_surface("t2", "s2"));
    assert_eq!(
        runtime.spawn_surface("x", (1, 1), (1, 1)).unwrap_err().message(),
        "CDP browser connection is closed"
    );
    assert!(runtime.shutdown());
}

#[test]
fn a_page_reports_what_changed() {
    let runtime = BrowserRuntime::connect(BrowserSource::External);
    let plan = runtime.spawn_surface("one.test", (10, 0), (0, 16)).unwrap();
    assert_eq!(plan.url, "https://one.test");
    assert_eq!(plan.size, (10, 1));
    assert_eq!(plan.cell_pixels, (1, 16));
    assert_eq!(plan.pixels, (10, 16));
    let mut page =
        BrowserSurface::new(1, BrowserSource::External, "t".to_string(), "s".to_string(), plan);
    assert!(page.take_dirty());
    assert_eq!(page.handle(CdpEvent::ScreencastFrame(frame("s", 1))), Reaction::Output);
    assert_eq!(page.handle(CdpEvent::ScreencastFrame(frame("s", 2))), Reaction::Quiet);
    assert_eq!(page.latest_frame().unwrap().seq, 2);
    assert_eq!(page.handle(info("t", "One", "https://one.test/")), Reaction::TitleChanged);
    assert_eq!(page.title(), "One");
    assert_eq!(page.url(), "https://one.test/");
    assert_eq!(page.handle(info("t", "One", "")), Reaction::Quiet);
    assert_eq!(page.url(), "https://one.test/");
    // A page without a title goes by its URL.
    assert_eq!(page.handle(info("t", "", "about:blank")), Reaction::TitleChanged);
    assert_eq!(page.title(), "about:blank");

    assert_eq!(page.resize(10, 1), (false, None));
    assert_eq!(page.resize(20, 2), (true, Some((20, 32))));
    assert_eq!(page.set_cell_pixel_size(8, 16), Some((160, 32)));
    assert_eq!(page.set_cell_pixel_size(8, 16), None);
    assert_eq!(page.size(), (20, 2));
    page.navigated(" two.test ");
    assert_eq!(page.title(), "https://two.test");
    assert_eq!(page.handle(CdpEvent::Closed("gone".to_string())), Reaction::Exited);
    assert!(page.is_dead());
    assert!(!page.kill());
}

#[test]
fn browsers_are_looked_for_in_order() {
    let mut opts = options();
    opts.browser_discover = true;
    opts.cdp_url = Some("http://configured".to_string());
    assert!(matches!(
        runtime_endpoint(Some("http://env"), &opts, None),
        EndpointStep::Resolve(url) if url == "http://env"
    ));
    assert!(matches!(
        runtime_endpoint(Some("  "), &opts, None),
        EndpointStep::Resolve(url) if url == "http://configured"
    ));
    opts.cdp_url = None;
    assert!(matches!(
        runtime_endpoint(None, &opts, None),
        EndpointStep::Discover(ports) if ports == vec![9222]
    ));
    opts.browser_discover_ports = vec![1, 2];
    assert!(matches!(
        runtime_endpoint(None, &opts, None),
        EndpointStep::Discover(ports) if ports == vec![1, 2]
    ));
    assert!(matches!(
        runtime_endpoint(None, &opts, Some(Some("ws://found".to_string()))),
        EndpointStep::Connect(url) if url == "ws://found"
    ));
    assert!(matches!(
        runtime_endpoint(None, &opts, Some(None)),
        EndpointStep::Launch { ephemeral: false }
    ));
    let found = Some(Some("ws://found".to_string()));
    assert_eq!(runtime_endpoint(Some("x"), &opts, None).source(), BrowserSource::External);
    assert_eq!(runtime_endpoint(None, &opts, None).source(), BrowserSource::External);
    assert_eq!(runtime_endpoint(None, &opts, found).source(), BrowserSource::External);
    assert_eq!(runtime_endpoint(None, &opts, Some(None)).source(), BrowserSource::Launched);
    opts.browser_discover = false;
    opts.browser_ephemeral = true;
    assert!(matches!(runtime_endpoint(None, &opts, None), EndpointStep::Launch { ephemeral: true }));
}

#[test]
fn binaries_and_profiles_are_resolved() {
    let candidates =
        vec![("/a".to_string(), false), ("/b".to_string(), true), ("/c".to_string(), true)];
    assert_eq!(resolve_chrome_binary(Some("/x"), true, &candidates, None).unwrap(), "/x");
    assert_eq!(resolve_chrome_binary(Some(" "), false, &candidates, None).unwrap(), "/b");
    assert!(matches!(
        resolve_chrome_binary(Some("/x"), false, &candidates, None),
        Err(BrowserError::BadBinary(path)) if path == "/x"
    ));
    let none = resolve_chrome_binary(None, false, &Vec::new(), Some("/cfg".to_string()));
    assert!(matches!(&none, Err(BrowserError::NoBinary(Some(path))) if path == "/cfg"));
    assert!(none.unwrap_err().message().contains("browser.chrome_binary"));
    assert_eq!(
        BrowserError::BadBinary("/x".to_string()).message(),
        "configured browser.chrome_binary does not point to an executable file: /x"
    );
    let platform = Some("/p".to_string());
    assert_eq!(resolve_chrome_user_data_dir(Some("/d"), platform.clone()).unwrap(), "/d");
    assert_eq!(resolve_chrome_user_data_dir(None, platform.clone()).unwrap(), "/p");
    assert_eq!(launch_profile(true, Some("/d"), platform.clone()).unwrap(), None);
    assert_eq!(
        launch_profile(false, Some("/d"), platform.clone()).unwrap(),
        Some("/d".to_string())
    );
    assert_eq!(launch_profile(false, Some(" "), platform).unwrap(), Some("/p".to_string()));
    assert!(matches!(launch_profile(false, None, None), Err(BrowserError::NoProfileDir)));
    assert_eq!(launch_profile(true, None, None).unwrap(), None);
    assert!(matches!(
        resolve_chrome_user_data_dir(Some(""), None),
        Err(BrowserError::NoProfileDir)
    ));
}
