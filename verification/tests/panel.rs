use ccorral::embed::{Embedded, PtyDims, Target};
use ccorral::keys::{Key, KeyCode};
use ccorral::layout::{Area, RowSpan};
use ccorral::pane::Pane;
use ccorral::panel::{Action, Attach, Event, Panel};

const MS: u64 = 1_000_000;

fn pane(id: &str) -> Pane {
    Pane {
        id: id.to_string(),
        session: "s".to_string(),
        window: "@2".to_string(),
        name: "s:1.0".to_string(),
        path: "/a/b".to_string(),
        status: "idle".to_string(),
    }
}

fn panes(n: usize) -> Vec<Pane> {
    (0..n).map(|i| pane(&format!("%{}", i))).collect()
}

fn client_for(pane: &Pane) -> Embedded {
    let dims = PtyDims { rows: 10, cols: 30 };
    Embedded::new(dims, false, "/dev/pts/1".to_string(), Target::of(pane))
}

/// The pane to which the client is attached.
fn shown(p: &Panel) -> Option<&str> {
    p.embedded.as_ref().map(|e| e.target.id.as_str())
}

/// A panel past its first frame, with a client.
fn running(n: usize) -> Panel {
    let mut p = Panel::new(panes(n), 0);
    p.attach_due(0);
    p.attached(client_for(&pane("%0")), 0);
    p
}

fn press(p: &mut Panel, code: KeyCode, ctrl: bool, now: u64) -> Action {
    p.on_event(Event::Key { key: Key { code, ctrl }, press: true }, now)
}

#[test]
fn a_new_panel_selects_the_first_pane() {
    let p = Panel::new(panes(2), 7);
    assert_eq!(p.selection.index, Some(0));
    assert_eq!(p.selected_pane().unwrap().id, "%0");
    assert!(p.mouse_on);
    assert!(p.embedded.is_none());
    let p = Panel::new(panes(0), 7);
    assert_eq!(p.selection.index, None);
    assert!(p.selected_pane().is_none());
}

#[test]
fn the_list_is_refreshed_every_300_ms() {
    let p = Panel::new(panes(1), 5 * MS);
    assert!(!p.refresh_due(5 * MS));
    assert!(!p.refresh_due(305 * MS - 1));
    assert!(p.refresh_due(305 * MS));
    assert!(!p.refresh_due(0));
}

#[test]
fn the_selection_follows_the_list() {
    let mut p = running(3);
    press(&mut p, KeyCode::Up, true, 0);
    assert_eq!(p.selection.index, Some(2));
    p.set_panes(panes(4), 1);
    assert_eq!(p.selection.index, Some(2));
    p.set_panes(panes(2), 2);
    assert_eq!(p.selection.index, Some(0));
    p.set_panes(panes(0), 3);
    assert_eq!(p.selection.index, None);
    p.set_panes(panes(2), 4);
    assert_eq!(p.selection.index, None);
    assert!(!p.refresh_due(300 * MS));
    assert!(p.refresh_due(300 * MS + 4));
}

#[test]
fn refreshing_marks_crashed_panes() {
    let mut p = running(2);
    p.refresh(
        Some(b"%5\tx\t@1\tx:0.0\t/p\n%6\town\t@1\town:0.0\t/p\n"),
        &Some("own".to_string()),
        &Vec::new(),
        Some(b"%1\n%5\n%6\n"),
        9,
    );
    let ids: Vec<&str> = p.panes.iter().map(|q| q.id.as_str()).collect();
    assert_eq!(ids, vec!["%5", "%1"]);
    assert_eq!(p.panes[1].status, "dead");
}

#[test]
fn the_first_pane_is_attached_at_once() {
    let mut p = Panel::new(panes(2), 0);
    assert!(matches!(p.attach_due(0), Attach::Open(0)));
    assert!(matches!(p.attach_due(0), Attach::Wait));
    assert!(matches!(p.attach_due(u64::MAX), Attach::Wait));
    let mut p = Panel::new(panes(0), 0);
    assert!(matches!(p.attach_due(0), Attach::Close));
    assert!(matches!(p.attach_due(1), Attach::Wait));
}

#[test]
fn switching_waits_until_the_selection_settles() {
    let mut p = running(3);
    assert!(matches!(press(&mut p, KeyCode::Down, true, 1000 * MS), Action::Idle));
    assert!(matches!(p.attach_due(1100 * MS), Attach::Wait));
    press(&mut p, KeyCode::Down, true, 1100 * MS);
    assert!(matches!(p.attach_due(1250 * MS - 1), Attach::Wait));
    assert_eq!(shown(&p), Some("%0"));
    assert!(matches!(p.attach_due(1250 * MS), Attach::Open(2)));
    assert!(p.embedded.is_none());
    p.attached(client_for(&pane("%2")), 1260 * MS);
    assert_eq!(shown(&p), Some("%2"));
    assert!(matches!(p.attach_due(9000 * MS), Attach::Wait));
}

#[test]
fn the_client_follows_the_list() {
    let mut p = running(3);
    p.set_panes(panes(2), 300 * MS);
    assert!(matches!(p.attach_due(9000 * MS), Attach::Wait));
    p.set_panes(vec![pane("%7"), pane("%0")], 600 * MS);
    assert_eq!(p.selected_pane().unwrap().id, "%7");
    assert_eq!(shown(&p), Some("%0"));
    assert!(matches!(p.attach_due(600 * MS), Attach::Open(0)));
    p.attached(client_for(&pane("%7")), 610 * MS);
    assert_eq!(shown(&p), Some("%7"));
    assert!(matches!(p.attach_due(9000 * MS), Attach::Wait));
    p.set_panes(panes(0), 900 * MS);
    assert!(matches!(p.attach_due(900 * MS), Attach::Close));
    assert!(p.embedded.is_none());
}

#[test]
fn a_refresh_does_not_hurry_a_switch() {
    let mut p = running(3);
    press(&mut p, KeyCode::Down, true, 500 * MS);
    p.set_panes(vec![pane("%7"), pane("%8")], 600 * MS);
    assert!(matches!(p.attach_due(649 * MS), Attach::Wait));
    assert!(matches!(p.attach_due(650 * MS), Attach::Open(1)));
}

#[test]
fn a_refresh_right_at_the_start() {
    let mut p = running(1);
    p.set_panes(vec![pane("%7")], 0);
    assert!(matches!(p.attach_due(0), Attach::Open(0)));
}

#[test]
fn output_of_the_client_is_shown() {
    let mut p = running(1);
    assert!(p.feed(b"hi"));
    assert_eq!(p.embedded.as_ref().unwrap().emulator.parser.screen().contents(), "hi");
    p.fit(Area { x: 0, y: 0, width: 25, height: 10 });
    assert!(!p.feed(b"!"));
    assert_eq!(p.embedded.as_ref().unwrap().emulator.parser.screen().contents(), "hi");
    let mut p = Panel::new(panes(1), 0);
    assert!(!p.feed(b"hi"));
}

#[test]
fn the_client_follows_a_pane_to_another_window_or_session() {
    let mut moved = pane("%0");
    moved.window = "@9".to_string();
    let mut p = running(1);
    p.set_panes(vec![moved], 300 * MS);
    assert!(matches!(p.attach_due(300 * MS), Attach::Open(0)));
    let mut moved = pane("%0");
    moved.session = "t".to_string();
    let mut p = running(1);
    p.set_panes(vec![moved], 300 * MS);
    assert!(matches!(p.attach_due(300 * MS), Attach::Open(0)));
    let mut busy = pane("%0");
    busy.status = "active".to_string();
    let mut p = running(1);
    p.set_panes(vec![busy], 300 * MS);
    assert!(matches!(p.attach_due(450 * MS), Attach::Wait));
}

#[test]
fn a_client_of_another_pane_is_replaced() {
    let mut p = Panel::new(panes(2), 0);
    p.attach_due(0);
    p.attached(client_for(&pane("%1")), 10 * MS);
    assert!(matches!(p.attach_due(10 * MS), Attach::Open(0)));
}

#[test]
fn a_pane_in_the_own_session_is_left() {
    let mut p = running(1);
    p.refresh(
        Some(b"%5\ts\t@2\ts:1.0\t/p\n%0\town\t@1\town:0.0\t/p\n"),
        &Some("own".to_string()),
        &Vec::new(),
        Some(b"%0\n%5\n"),
        300 * MS,
    );
    let ids: Vec<&str> = p.panes.iter().map(|q| q.id.as_str()).collect();
    assert_eq!(ids, vec!["%5"]);
    assert!(matches!(p.attach_due(300 * MS), Attach::Open(0)));
}

#[test]
fn switching_without_panes_closes_the_client() {
    let mut p = running(1);
    p.set_panes(panes(0), 0);
    press(&mut p, KeyCode::Up, true, 0);
    assert_eq!(p.selection.index, None);
    assert!(matches!(p.attach_due(150 * MS), Attach::Close));
    assert!(p.embedded.is_none());
}

#[test]
fn up_and_down_again() {
    let mut p = running(3);
    press(&mut p, KeyCode::Up, true, 0);
    press(&mut p, KeyCode::Down, true, 0);
    assert_eq!(p.selection.index, Some(0));
    press(&mut p, KeyCode::Down, true, 0);
    press(&mut p, KeyCode::Up, true, 0);
    assert_eq!(p.selection.index, Some(0));
}

#[test]
fn ctrl_q_quits() {
    let mut p = running(1);
    assert!(matches!(press(&mut p, KeyCode::Char('q'), true, 0), Action::Quit));
    assert!(matches!(press(&mut p, KeyCode::Char('q'), false, 0), Action::Forward { .. }));
    let released = Event::Key { key: Key { code: KeyCode::Char('q'), ctrl: true }, press: false };
    assert!(matches!(p.on_event(released, 0), Action::Idle));
}

#[test]
fn ctrl_g_goes_to_the_pane() {
    let mut p = running(2);
    match press(&mut p, KeyCode::Char('g'), true, 0) {
        Action::Tmux(commands) => {
            assert_eq!(commands.len(), 3);
            assert_eq!(commands[2], vec!["select-pane", "-t", "%0"]);
        }
        _ => panic!("commands for tmux"),
    }
    let mut p = running(0);
    assert!(matches!(press(&mut p, KeyCode::Char('g'), true, 0), Action::Idle));
}

#[test]
fn f6_and_f7_restart() {
    let mut p = running(2);
    for (n, danger) in [(6u8, false), (7, true)] {
        for ctrl in [false, true] {
            match press(&mut p, KeyCode::F(n), ctrl, 0) {
                Action::Restart { id, path, dangerous } => {
                    assert_eq!(id, "%0");
                    assert_eq!(path, "/a/b");
                    assert_eq!(dangerous, danger);
                }
                _ => panic!("a restart"),
            }
        }
    }
    let mut p = running(0);
    assert!(matches!(press(&mut p, KeyCode::F(6), false, 0), Action::Idle));
}

#[test]
fn refresh_keys_repaint() {
    for (code, ctrl) in [
        (KeyCode::F(5), false),
        (KeyCode::Char('l'), true),
        (KeyCode::Char('L'), true),
    ] {
        let mut p = running(1);
        match press(&mut p, code, ctrl, 0) {
            Action::Repaint(dims) => assert_eq!(dims, Some(PtyDims { rows: 8, cols: 30 })),
            _ => panic!("a repaint"),
        }
        let inner = Area { x: 0, y: 0, width: 30, height: 10 };
        assert_eq!(p.fit(inner), Some(PtyDims { rows: 10, cols: 30 }));
        assert_eq!(p.fit(inner), None);
    }
    let mut p = Panel::new(panes(1), 0);
    assert!(matches!(press(&mut p, KeyCode::F(5), false, 0), Action::Repaint(None)));
}

#[test]
fn f2_toggles_the_mouse() {
    let mut p = running(1);
    assert!(matches!(press(&mut p, KeyCode::F(2), false, 0), Action::Mouse(false)));
    assert!(matches!(press(&mut p, KeyCode::F(2), false, 0), Action::Mouse(true)));
    assert!(p.mouse_on);
}

#[test]
fn the_wheel_scrolls_the_selected_pane() {
    let mut p = running(1);
    match p.on_event(Event::Wheel { up: false }, 0) {
        Action::Tmux(commands) => {
            assert_eq!(commands[0], vec!["copy-mode", "-e", "-t", "%0"]);
            assert_eq!(commands[1][6], "scroll-down");
        }
        _ => panic!("commands for tmux"),
    }
    let mut p = running(0);
    assert!(matches!(p.on_event(Event::Wheel { up: true }, 0), Action::Idle));
    assert!(matches!(p.on_event(Event::Other, 0), Action::Idle));
}

#[test]
fn other_keys_go_to_the_pane() {
    let mut p = running(1);
    match press(&mut p, KeyCode::Up, false, 0) {
        Action::Forward { bytes, interrupted } => {
            assert_eq!(bytes, b"\x1b[A");
            assert_eq!(interrupted, None);
        }
        _ => panic!("a forwarded key"),
    }
    for code in [KeyCode::Insert, KeyCode::F(1), KeyCode::F(12)] {
        match press(&mut p, code, false, 0) {
            Action::Forward { bytes, .. } => assert!(!bytes.is_empty()),
            _ => panic!("a forwarded key"),
        }
    }
    match press(&mut p, KeyCode::Char('l'), false, 0) {
        Action::Forward { bytes, .. } => assert_eq!(bytes, b"l"),
        _ => panic!("a forwarded key"),
    }
    let mut p = Panel::new(panes(1), 0);
    assert!(matches!(press(&mut p, KeyCode::Char('x'), false, 0), Action::Idle));
}

#[test]
fn escape_interrupts_the_selected_pane() {
    let mut p = running(2);
    match press(&mut p, KeyCode::Esc, false, 0) {
        Action::Forward { bytes, interrupted } => {
            assert_eq!(bytes, b"\x1b");
            assert_eq!(interrupted, Some("%0".to_string()));
        }
        _ => panic!("a forwarded key"),
    }
    let mut p = running(0);
    match press(&mut p, KeyCode::Esc, false, 0) {
        Action::Forward { interrupted, .. } => assert_eq!(interrupted, None),
        _ => panic!("a forwarded key"),
    }
}

#[test]
fn ctrl_d_is_never_forwarded() {
    let mut p = running(1);
    for c in ['d', 'D'] {
        match press(&mut p, KeyCode::Char(c), true, 0) {
            Action::Forward { bytes, .. } => assert!(bytes.is_empty()),
            _ => panic!("a forwarded key"),
        }
    }
}

#[test]
fn a_frame_shows_everything() {
    let mut p = running(2);
    let inner = Area { x: 33, y: 1, width: 30, height: 10 };
    let f = p.frame(0, inner);
    assert_eq!(f.entries.len(), 2);
    assert_eq!(f.help.len(), 6);
    assert_eq!(f.title[2].text, " s:1.0  ");
    assert_eq!(f.blank, Some(RowSpan { y: 10, from: 33, to: 63 }));
    p.set_panes(panes(0), 0);
    assert_eq!(p.frame(0, inner).title[0].text, " terminal ");
    let p = Panel::new(panes(1), 0);
    assert_eq!(p.frame(0, inner).blank, None);
}

#[test]
fn fitting_without_a_client_does_nothing() {
    let mut p = Panel::new(panes(1), 0);
    assert_eq!(p.fit(Area { x: 0, y: 0, width: 1, height: 1 }), None);
}
