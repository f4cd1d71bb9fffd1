use ccorral::embed::{
    attach_script, err, spawn_embedded, tty_file, Embedded, PtyDims, Target, TtyStep, TtyWait,
    MAX_COLS,
};
use ccorral::layout::Area;
use ccorral::pane::Pane;

fn pane() -> Pane {
    Pane {
        id: "%12".to_string(),
        session: "work".to_string(),
        window: "@3".to_string(),
        name: "work:1.0".to_string(),
        path: "/w".to_string(),
        status: String::new(),
    }
}

fn client(rows: u16, cols: u16) -> Embedded {
    Embedded::new(PtyDims { rows, cols }, true, "/dev/pts/3".to_string(), Target::of(&pane()))
}

fn inner(width: u16, height: u16) -> Area {
    Area { x: 33, y: 1, width, height }
}

fn cell(e: &Embedded, row: u16, col: u16) -> String {
    e.emulator.parser.screen().cell(row, col).unwrap().contents().to_string()
}

const SCRIPT: &str = "unset TMUX; tty > '/tmp/ccview-12.tty'; tmux select-window -t '@3'; tmux select-pane -t '%12'; [ \"$(tmux display -pt '%12' '#{window_zoomed_flag}')\" = 1 ] || tmux resize-pane -Z -t '%12'; exec tmux attach -t 'work'";

#[test]
fn terminal_files_have_no_percent_sign() {
    assert_eq!(tty_file("%12"), "/tmp/ccview-12.tty");
    assert_eq!(tty_file("%%1%"), "/tmp/ccview-1.tty");
    assert_eq!(tty_file(""), "/tmp/ccview-.tty");
}

#[test]
fn the_script_of_a_client() {
    assert_eq!(attach_script(&pane(), "/tmp/ccview-12.tty"), SCRIPT);
}

#[test]
fn plan_of_a_client() {
    let p = spawn_embedded(&pane(), 22, 46);
    assert_eq!(p.dims, PtyDims { rows: 22, cols: 46 });
    assert_eq!(p.tty_file, "/tmp/ccview-12.tty");
    assert_eq!(p.command, vec!["sh", "-c", SCRIPT]);
    assert!(p.target.is_of(&pane()));
}

#[test]
fn targets_tell_panes_apart() {
    let t = Target::of(&pane());
    assert_eq!((t.id.as_str(), t.session.as_str(), t.window.as_str()), ("%12", "work", "@3"));
    assert!(t.is_of(&Pane { name: "x".to_string(), path: String::new(), ..pane() }));
    assert!(!t.is_of(&Pane { id: "%1".to_string(), ..pane() }));
    assert!(!t.is_of(&Pane { session: "x".to_string(), ..pane() }));
    assert!(!t.is_of(&Pane { window: "@4".to_string(), ..pane() }));
}

#[test]
fn clients_are_never_tiny() {
    assert_eq!(spawn_embedded(&pane(), 0, 0).dims, PtyDims { rows: 4, cols: 20 });
    assert_eq!(spawn_embedded(&pane(), 3, 46).dims, PtyDims { rows: 4, cols: 46 });
    assert_eq!(spawn_embedded(&pane(), 4, 19).dims, PtyDims { rows: 4, cols: 20 });
}

#[test]
fn a_new_client_is_empty() {
    let e = client(5, 30);
    assert_eq!(e.emulator.parser.screen().size(), (5, 30));
    assert_eq!(e.emulator.parser.screen().contents(), "");
    assert_eq!((e.rows, e.cols), (5, 30));
    assert!(e.status_top);
    assert_eq!(e.tty, "/dev/pts/3");
    assert_eq!(e.target.id, "%12");
}

#[test]
fn a_client_keeps_no_scrollback() {
    let mut e = client(4, 20);
    assert!(e.feed(b"1\r\n2\r\n3\r\n4\r\n5\r\n6"));
    e.emulator.parser.screen_mut().set_scrollback(9);
    assert_eq!(e.emulator.parser.screen().scrollback(), 0);
    assert_eq!(e.emulator.parser.screen().contents(), "3\n4\n5\n6");
}

#[test]
fn fitting_a_client() {
    let mut e = client(5, 30);
    assert_eq!(e.fit(inner(30, 5)), None);
    assert_eq!(e.fit(inner(40, 12)), Some(PtyDims { rows: 12, cols: 40 }));
    assert_eq!(e.emulator.parser.screen().size(), (12, 40));
    assert_eq!(e.fit(inner(40, 12)), None);
    assert_eq!(e.fit(inner(5, 2)), Some(PtyDims { rows: 4, cols: 20 }));
    assert_eq!(e.emulator.parser.screen().size(), (4, 20));
    assert_eq!(e.fit(inner(5, 2)), Some(PtyDims { rows: 4, cols: 20 }));
    assert_eq!(e.tty, "/dev/pts/3");
}

#[test]
fn cells_keep_their_text_while_they_are_there() {
    let mut e = client(6, 30);
    assert!(e.feed(b"abc\r\nd\r\n\r\n\r\n\r\nlast"));
    assert!(e.feed(b"\x1b[1;25Hx"));
    assert_eq!(e.fit(inner(20, 5)), Some(PtyDims { rows: 5, cols: 20 }));
    assert_eq!(cell(&e, 0, 0), "a");
    assert_eq!(cell(&e, 0, 2), "c");
    assert_eq!(cell(&e, 1, 0), "d");
    assert_eq!(e.fit(inner(30, 6)), Some(PtyDims { rows: 6, cols: 30 }));
    assert_eq!(cell(&e, 0, 1), "b");
    assert_eq!(cell(&e, 0, 24), "");
    assert_eq!(cell(&e, 5, 0), "");
}

#[test]
fn cells_of_the_alternate_screen_keep_their_text() {
    let mut e = client(6, 30);
    assert!(e.feed(b"\x1b[?1049hzz\r\ny"));
    assert_eq!(e.shrink(), PtyDims { rows: 4, cols: 30 });
    assert_eq!(cell(&e, 0, 1), "z");
    assert_eq!(cell(&e, 1, 0), "y");
    assert_eq!(cell(&e, 3, 29), "");
}

#[test]
fn output_does_not_change_the_size() {
    let mut e = client(6, 30);
    assert!(e.feed(b"\x1b[8;50;100t\x1bc\x1b[?1049h\x1b[?1049l"));
    assert_eq!(e.emulator.parser.screen().size(), (6, 30));
}

#[test]
fn output_is_shown() {
    let mut e = client(6, 30);
    assert!(e.feed("h\u{e9}llo \u{6f22}".as_bytes()));
    assert_eq!(e.emulator.parser.screen().contents(), "h\u{e9}llo \u{6f22}");
    assert_eq!(cell(&e, 0, 1), "\u{e9}");
    assert!(e.feed(b"\x1b[2;3Hx\xe6"));
    assert!(e.feed(b"\xbc\xa2"));
    assert_eq!(cell(&e, 1, 2), "x");
    assert_eq!(cell(&e, 1, 3), "\u{6f22}");
    assert!(e.feed(b"\x1b[2J"));
    assert_eq!(e.emulator.parser.screen().contents(), "");
}

#[test]
fn a_client_that_lost_columns_takes_no_output() {
    let mut e = client(6, 30);
    e.shrink();
    e.fit(inner(31, 8));
    e.fit(inner(31, 5));
    assert!(!e.cut);
    assert!(e.feed(b"a"));
    e.fit(inner(30, 5));
    assert!(e.cut);
    assert!(!e.feed(b"b"));
    assert_eq!(e.emulator.parser.screen().contents(), "a");
    e.fit(inner(40, 5));
    e.shrink();
    assert!(!e.feed(b"c"));
    assert_eq!(e.emulator.parser.screen().contents(), "a");
}

#[test]
fn a_client_with_too_many_columns_takes_no_output() {
    let mut e = client(4, MAX_COLS);
    assert!(e.feed(b"\x1b[1;65527Hx\t\ty"));
    assert_eq!(cell(&e, 0, MAX_COLS - 1), "y");
    let mut e = client(4, MAX_COLS + 1);
    assert!(!e.feed(b"a"));
    assert_eq!(cell(&e, 0, 0), "");
}

/// Whether each glyph on the screen that takes two columns has both.
fn is_whole(e: &Embedded) -> bool {
    let at = |r, c| e.emulator.parser.screen().cell(r, c);
    (0..e.rows).all(|r| {
        (0..=e.cols).all(|c| {
            let glyph = c > 0 && at(r, c - 1).is_some_and(|x| x.is_wide());
            glyph == at(r, c).is_some_and(|x| x.is_wide_continuation())
        })
    })
}

#[test]
fn glyphs_stay_whole() {
    let mut seed: u64 = 12345;
    let mut random = move |n: u64| {
        seed ^= seed << 13;
        seed ^= seed >> 7;
        seed ^= seed << 17;
        seed % n
    };
    for _ in 0..20 {
        let mut e = client(4, 20);
        for _ in 0..100 {
            let mut bytes = Vec::new();
            if random(2) == 0 {
                let texts = ["a", "\u{6f22}\u{6f22}", "\u{301}", "\u{17d8}", "\t", "\n", "\x08", "\x1bM"];
                bytes.extend(texts[random(8) as usize].as_bytes());
            } else {
                let ends = b"@ABCDGHJKLMPSTXdr";
                let end = ends[random(ends.len() as u64) as usize] as char;
                bytes.extend(format!("\x1b[{};{}{}", random(22), random(22), end).as_bytes());
            }
            if random(30) == 0 {
                e.fit(inner(e.cols + random(2) as u16, 4 + random(3) as u16));
            }
            assert!(e.feed(&bytes));
            assert!(is_whole(&e));
            assert_eq!(e.emulator.parser.screen().size(), (e.rows, e.cols));
        }
    }
}

#[test]
fn shrinking_and_fitting_repaints() {
    for h in 5..30u16 {
        let mut e = client(h, 30);
        let less = e.shrink();
        assert_eq!(less, PtyDims { rows: (h - 2).max(4), cols: 30 });
        assert!(less.rows < h);
        assert_eq!(e.emulator.parser.screen().size(), (less.rows, 30));
        assert_eq!(e.fit(inner(30, h)), Some(PtyDims { rows: h, cols: 30 }));
    }
    let mut e = client(4, 30);
    assert_eq!(e.shrink(), PtyDims { rows: 4, cols: 30 });
    assert_eq!(e.fit(inner(30, 4)), None);
}

#[test]
fn a_client_names_its_terminal() {
    let mut w = TtyWait::new();
    assert!(matches!(w.read(None), TtyStep::Again));
    assert!(matches!(w.read(Some("")), TtyStep::Again));
    assert!(matches!(w.read(Some("not a tty\n")), TtyStep::Again));
    match w.read(Some(" /dev/pts/7\n")) {
        TtyStep::Found(tty) => assert_eq!(tty, "/dev/pts/7"),
        _ => panic!("the terminal is named"),
    }
    assert_eq!(w.left, 20);
}

#[test]
fn waiting_for_a_terminal_ends() {
    let mut w = TtyWait::new();
    for _ in 0..23 {
        assert!(matches!(w.read(None), TtyStep::Again));
    }
    assert!(matches!(w.read(Some("x")), TtyStep::GiveUp));
    let mut w = TtyWait { left: 1 };
    assert!(matches!(w.read(Some("/dev/x")), TtyStep::Found(_)));
}

#[test]
fn failures_keep_their_words() {
    assert_eq!(err("no more PTYs").message, "no more PTYs");
}
