use ccorral::paint::{
    entries, help_lines, highlight, list_title, name_line, path_line, shimmer, short_path, spinner,
    title, Color, Segment, Style, HELP_TITLE,
};
use ccorral::pane::Pane;

const ORANGE: Color = Color { r: 215, g: 119, b: 87 };
const HALF: Color = Color { r: 230, g: 134, b: 102 };
const FULL: Color = Color { r: 245, g: 149, b: 117 };
const YELLOW: Color = Color { r: 240, g: 200, b: 40 };
const RED: Color = Color { r: 230, g: 80, b: 80 };
const GREEN: Color = Color { r: 166, g: 227, b: 161 };

fn in_color(c: Color) -> Style {
    Style { fg: Some(c), dim: false }
}

fn own_color() -> Style {
    Style { fg: None, dim: false }
}

fn dim() -> Style {
    Style { fg: None, dim: true }
}

fn parts(line: &Vec<Segment>) -> Vec<(&str, Style)> {
    line.iter().map(|s| (s.text.as_str(), s.style)).collect()
}

fn colors(line: &Vec<Segment>) -> Vec<Color> {
    line.iter().map(|s| s.style.fg.unwrap()).collect()
}

fn pane(status: &str) -> Pane {
    Pane {
        id: "%1".to_string(),
        session: "s".to_string(),
        window: "@1".to_string(),
        name: "s:1.0".to_string(),
        path: "/home/me/src/".to_string(),
        status: status.to_string(),
    }
}

#[test]
fn short_paths() {
    assert_eq!(short_path("/home/me/src"), "me/src");
    assert_eq!(short_path("/home/me/src/"), "me/src");
    assert_eq!(short_path("//a///b//"), "a/b");
    assert_eq!(short_path("/src"), "src");
    assert_eq!(short_path("src"), "src");
    assert_eq!(short_path("a/b"), "a/b");
    assert_eq!(short_path("/"), "");
    assert_eq!(short_path(""), "");
    assert_eq!(short_path("/ä/ö/ü"), "ö/ü");
}

#[test]
fn short_paths_are_stable() {
    for p in ["", "/", "/a", "/a/b", "/a/b/c", "a//b"] {
        assert_eq!(short_path(&short_path(p)), short_path(p));
    }
}

#[test]
fn shimmer_starts_in_front_of_the_text() {
    assert_eq!(colors(&shimmer("abc", 0)), vec![ORANGE; 3]);
    assert_eq!(colors(&shimmer("abc", 140 * 9)), vec![HALF, ORANGE, ORANGE]);
    assert_eq!(colors(&shimmer("abc", 140 * 10)), vec![FULL, HALF, ORANGE]);
    assert_eq!(colors(&shimmer("abc", 140 * 11)), vec![HALF, FULL, HALF]);
    assert_eq!(colors(&shimmer("abc", 140 * 12 + 139)), vec![ORANGE, HALF, FULL]);
    assert_eq!(colors(&shimmer("abc", 140 * 13)), vec![ORANGE, ORANGE, HALF]);
    assert_eq!(colors(&shimmer("abc", 140 * 22)), vec![ORANGE; 3]);
}

#[test]
fn shimmer_comes_back() {
    for k in 0..30u128 {
        let now = shimmer("abc", 140 * k);
        let later = shimmer("abc", 140 * (k + 23));
        assert_eq!(colors(&now), colors(&later));
        assert!(colors(&now).iter().filter(|c| **c == FULL).count() <= 1);
    }
}

#[test]
fn shimmer_comes_back_as_long_as_the_time_counts() {
    let last = isize::MAX as u128 * 140 + 139;
    assert_eq!(colors(&shimmer("abc", last - 140 * 23)), colors(&shimmer("abc", last)));
}

#[test]
fn shimmer_keeps_the_text() {
    let line = shimmer("aé✳", 1400);
    let all: String = line.iter().map(|s| s.text.as_str()).collect();
    assert_eq!(all, "aé✳");
    assert_eq!(line.len(), 3);
    assert!(line.iter().all(|s| !s.style.dim));
    assert!(shimmer("", 0).is_empty());
}

#[test]
fn shimmer_long_after_the_start() {
    let position = (u128::MAX / 140) as isize as i128;
    let at = position % 23 - 10;
    let expected: Vec<Color> = (0..3i128)
        .map(|i| match (i - at).abs() {
            0 => FULL,
            1 => HALF,
            _ => ORANGE,
        })
        .collect();
    assert_eq!(colors(&shimmer("abc", u128::MAX)), expected);
}

#[test]
fn shimmer_colors_are_what_the_mix_gives() {
    for (t, c) in [(0.0f64, ORANGE), (0.5, HALF), (1.0, FULL)] {
        assert_eq!((215.0 + 30.0 * t) as u8, c.r);
        assert_eq!((119.0 + 30.0 * t) as u8, c.g);
        assert_eq!((87.0 + 30.0 * t) as u8, c.b);
    }
}

#[test]
fn spinner_pictures() {
    let expected = ["·", "✢", "✳", "✶", "✻", "✽", "✽", "✻", "✶", "✳", "✢", "·"];
    for k in 0..36u128 {
        assert_eq!(spinner(120 * k), expected[(k % 12) as usize]);
        assert_eq!(spinner(120 * k + 119), expected[(k % 12) as usize]);
    }
}

#[test]
fn entry_of_a_pane_at_work() {
    let line = name_line(&pane("active"), 140 * 10);
    let first = parts(&line);
    assert_eq!(first[0], (spinner(1400), in_color(ORANGE)));
    assert_eq!(first[1], (" ", own_color()));
    assert_eq!(first[2], ("s", in_color(FULL)));
    assert_eq!(first[3], (":", in_color(HALF)));
    assert_eq!(first.len(), 7);
}

#[test]
fn entries_of_other_panes() {
    assert_eq!(
        parts(&name_line(&pane("perm"), 0)),
        vec![("●", in_color(YELLOW)), (" s:1.0", in_color(YELLOW))]
    );
    assert_eq!(
        parts(&name_line(&pane("dead"), 0)),
        vec![("✖", in_color(RED)), (" s:1.0 (crashed)", in_color(RED))]
    );
    for status in ["idle", "", "done"] {
        assert_eq!(
            parts(&name_line(&pane(status), 0)),
            vec![("●", in_color(GREEN)), (" s:1.0", own_color())]
        );
    }
    assert_eq!(parts(&path_line(&pane("idle"))), vec![("  me/src", dim())]);
}

#[test]
fn one_entry_for_each_pane() {
    let r = entries(&vec![pane("dead"), pane("idle")], 0);
    assert_eq!(r.len(), 2);
    assert_eq!(parts(&r[0].name)[0], ("✖", in_color(RED)));
    assert_eq!(parts(&r[1].name)[0], ("●", in_color(GREEN)));
    assert_eq!(parts(&r[1].path), vec![("  me/src", dim())]);
}

#[test]
fn titles() {
    assert_eq!(
        parts(&title(Some(&pane("perm")), 0)),
        vec![
            (" ", own_color()),
            ("●", in_color(YELLOW)),
            (" s:1.0  ", own_color()),
            ("me/src", dim()),
            (" ", own_color()),
        ]
    );
    assert_eq!(parts(&title(Some(&pane("active")), 240))[1], ("✳", in_color(ORANGE)));
    assert_eq!(parts(&title(Some(&pane("dead")), 0))[1], ("✖", in_color(RED)));
    assert_eq!(parts(&title(Some(&pane("idle")), 0))[1], ("●", in_color(GREEN)));
    assert_eq!(parts(&title(None, 0)), vec![(" terminal ", own_color())]);
    assert_eq!(list_title("shell"), " shell ");
    assert_eq!(HELP_TITLE, " keys ");
    assert_eq!(highlight(), Color { r: 69, g: 71, b: 90 });
}

#[test]
fn help_names_the_shortcuts() {
    let lines = help_lines();
    let texts: Vec<&str> = lines.iter().map(|s| s.text.as_str()).collect();
    assert_eq!(
        texts,
        vec![
            "Ctrl+↑/↓  switch",
            "Ctrl+G    go to window",
            "F6 / F7   restart / danger",
            "Ctrl+L    refresh",
            "F2        mouse toggle",
            "Ctrl+Q    quit · Esc stop",
        ]
    );
    assert!(lines.iter().all(|s| s.style == dim()));
}
