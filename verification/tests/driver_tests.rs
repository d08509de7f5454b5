use appshell::config::{parse_config, snapshot_config, window_setup};
use appshell::driver::{BridgeResponse, DriverState, SurfaceDims, WindowEventKind};

fn quiet() -> BridgeResponse {
    BridgeResponse { consumed: false, repaint: false }
}

#[test]
fn zero_size_resize_leaves_surface_unchanged() {
    let mut d = DriverState::new(1920, 1080, Vec::new());
    let dir = d.on_window_event(WindowEventKind::Resized { width: 0, height: 600 }, quiet());
    assert_eq!(d.screen_size(), SurfaceDims { width: 1920, height: 1080 });
    assert!(!dir.reconfigure_surface);
    let dir = d.on_window_event(WindowEventKind::Resized { width: 800, height: 0 }, quiet());
    assert_eq!(d.screen_size(), SurfaceDims { width: 1920, height: 1080 });
    assert!(!dir.reconfigure_surface);
    let dir = d.on_window_event(WindowEventKind::Resized { width: 0, height: 0 }, quiet());
    assert_eq!(d.screen_size(), SurfaceDims { width: 1920, height: 1080 });
    assert!(!dir.reconfigure_surface);
}

#[test]
fn positive_resize_is_applied_exactly() {
    let mut d = DriverState::new(1920, 1080, Vec::new());
    let dir = d.on_window_event(WindowEventKind::Resized { width: 800, height: 600 }, quiet());
    assert!(dir.reconfigure_surface);
    assert_eq!(d.screen_size(), SurfaceDims { width: 800, height: 600 });
}

#[test]
fn consumed_event_is_not_propagated() {
    let mut d = DriverState::new(1920, 1080, Vec::new());
    let resp = BridgeResponse { consumed: true, repaint: true };
    let dir = d.on_window_event(WindowEventKind::Resized { width: 800, height: 600 }, resp);
    assert!(dir.request_redraw);
    assert!(!dir.reconfigure_surface);
    assert!(!dir.persist_and_exit);
    assert_eq!(d.screen_size(), SurfaceDims { width: 1920, height: 1080 });
}

#[test]
fn repaint_verdict_requests_redraw() {
    let mut d = DriverState::new(1920, 1080, Vec::new());
    let resp = BridgeResponse { consumed: false, repaint: true };
    let dir = d.on_window_event(WindowEventKind::Other, resp);
    assert!(dir.request_redraw);
    let dir = d.on_window_event(WindowEventKind::Other, quiet());
    assert!(!dir.request_redraw);
}

#[test]
fn events_cleared_always_redraws() {
    let d = DriverState::new(1920, 1080, Vec::new());
    assert!(d.on_events_cleared());
}

#[test]
fn close_request_persists_and_exits() {
    let mut d = DriverState::new(1920, 1080, Vec::new());
    let dir = d.on_window_event(WindowEventKind::CloseRequested, quiet());
    assert!(dir.persist_and_exit);
    assert!(!dir.reconfigure_surface);
}

#[test]
fn first_run_resize_close_saves_new_geometry() {
    // No config file present: the window opens at the default size.
    let setup = window_setup(&None);
    assert_eq!((setup.width, setup.height), (1920, 1080));
    let mut d = DriverState::new(setup.width, setup.height, Vec::new());

    // The user resizes the window to 800 x 600.
    let dir = d.on_window_event(WindowEventKind::Resized { width: 800, height: 600 }, quiet());
    assert!(dir.reconfigure_surface);

    // The user closes the window: the loop persists the snapshot.
    let dir = d.on_window_event(WindowEventKind::CloseRequested, quiet());
    assert!(dir.persist_and_exit);
    let size = d.screen_size();
    let memory = b"current ui memory".to_vec();
    let saved = snapshot_config(Some((10, 20)), size.width, size.height, memory.clone());
    let doc = appshell::config::render_config(&saved);

    // The document now carries the new geometry and the memory snapshot.
    let back = parse_config(&doc).expect("saved document must parse");
    assert_eq!(back.window_attributes.width, 800);
    assert_eq!(back.window_attributes.height, 600);
    assert_eq!(back.memory, memory);
}

#[test]
fn style_poll_applies_fresh_document() {
    let mut d = DriverState::new(1920, 1080, b"old style".to_vec());
    let applied = d.apply_style_poll(true, Some(b"new style".to_vec()));
    assert!(applied);
    assert_eq!(d.style, b"new style".to_vec());
}

#[test]
fn style_poll_keeps_prior_style_when_reload_fails() {
    let mut d = DriverState::new(1920, 1080, b"old style".to_vec());
    let applied = d.apply_style_poll(true, None);
    assert!(!applied);
    assert_eq!(d.style, b"old style".to_vec());
}

#[test]
fn style_poll_without_signal_changes_nothing() {
    let mut d = DriverState::new(1920, 1080, b"old style".to_vec());
    let applied = d.apply_style_poll(false, None);
    assert!(!applied);
    assert_eq!(d.style, b"old style".to_vec());
}
