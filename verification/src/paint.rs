//! What the panel shows: texts with their colours.

use vstd::prelude::*;

use crate::pane;
use crate::pane::Pane;
use crate::text;
use crate::text::{chars_of, same, split};

verus! {

/// A colour by its red, green and blue parts.
#[derive(Clone, Copy, Debug, PartialEq, Eq, Structural)]
pub struct Color {
    pub r: u8,
    pub g: u8,
    pub b: u8,
}

/// How a text is shown: in a colour or in the terminal's own, dimmed or not.
#[derive(Clone, Copy, Debug, PartialEq, Eq, Structural)]
pub struct Style {
    pub fg: Option<Color>,
    pub dim: bool,
}

/// The title of the help box.
pub const HELP_TITLE: &'static str = " keys ";

/// A piece of a line in one style.
pub struct Segment {
    pub text: String,
    pub style: Style,
}

/// What a segment holds.
#[verifier::ext_equal]
pub struct SegmentView {
    pub text: Seq<char>,
    pub style: Style,
}

impl View for Segment {
    type V = SegmentView;

    open spec fn view(&self) -> SegmentView {
        SegmentView { text: self.text@, style: self.style }
    }
}

/// A line as the contracts see it.
pub open spec fn line_view(line: Seq<Segment>) -> Seq<SegmentView> {
    line.map_values(|s: Segment| s@)
}

/// A text in the terminal's own colour.
pub open spec fn plain(s: Seq<char>) -> SegmentView {
    SegmentView { text: s, style: Style { fg: None, dim: false } }
}

/// A dimmed text in the terminal's own colour.
pub open spec fn dimmed(s: Seq<char>) -> SegmentView {
    SegmentView { text: s, style: Style { fg: None, dim: true } }
}

/// A text in the given colour.
pub open spec fn colored(s: Seq<char>, c: Color) -> SegmentView {
    SegmentView { text: s, style: Style { fg: Some(c), dim: false } }
}

fn plain_segment(s: &str) -> (r: Segment)
    ensures
        r@ == plain(s@),
{
    Segment { text: s.to_owned(), style: Style { fg: None, dim: false } }
}

fn dimmed_segment(s: &str) -> (r: Segment)
    ensures
        r@ == dimmed(s@),
{
    Segment { text: s.to_owned(), style: Style { fg: None, dim: true } }
}

fn colored_segment(s: &str, c: Color) -> (r: Segment)
    ensures
        r@ == colored(s@, c),
{
    Segment { text: s.to_owned(), style: Style { fg: Some(c), dim: false } }
}

/// The remainder of `a` by `b` with the sign of `a`.
pub open spec fn signed_remainder(a: int, b: int) -> int {
    if a >= 0 {
        a % b
    } else {
        -((-a) % b)
    }
}

/// How far the glimmer has come since the start: one character every 140 ms.
pub open spec fn cycle_position(tick: u128) -> int {
    ((tick / 140) as isize) as int
}

/// The length of one run of the glimmer over a text of `n` characters.
pub open spec fn cycle_length(n: int) -> int {
    (if n > 1 { n } else { 1 }) + 20
}

/// Where in a text of `n` characters the glimmer is: it starts ten characters in
/// front and runs ten behind the end.
pub open spec fn glimmer(n: int, tick: u128) -> int {
    signed_remainder(cycle_position(tick), cycle_length(n)) - 10
}

/// How much brighter a character is at this distance from the glimmer.
pub open spec fn glow(distance: int) -> int {
    if distance == 0 {
        30
    } else if distance == 1 || distance == -1 {
        15
    } else {
        0
    }
}

/// The colour of the `i`-th character.
pub open spec fn shimmer_color(i: int, n: int, tick: u128) -> Color {
    let t = glow(i - glimmer(n, tick));
    Color { r: (215 + t) as u8, g: (119 + t) as u8, b: (87 + t) as u8 }
}

/// The text, one segment for each character, with a glimmer running over it.
pub open spec fn shimmered(s: Seq<char>, tick: u128) -> Seq<SegmentView> {
    Seq::new(s.len(), |i: int| colored(seq![s[i]], shimmer_color(i, s.len() as int, tick)))
}

/// The text with a glimmer running over it, `tick` milliseconds after the start.
pub fn shimmer(text: &str, tick: u128) -> (r: Vec<Segment>)
    ensures
        line_view(r@) == shimmered(text@, tick),
{
    let cs = chars_of(text);
    let n: i128 = if cs.len() > 1 {
        cs.len() as i128
    } else {
        1
    };
    let position: i128 = ((tick / 140) as isize) as i128;
    let cycle: i128 = n + 20;
    let run: i128 = if position >= 0 {
        position % cycle
    } else {
        -((-position) % cycle)
    };
    let at: i128 = run - 10;
    assert(at == glimmer(text@.len() as int, tick));
    let mut r: Vec<Segment> = Vec::new();
    let mut i: usize = 0;
    while i < cs.len()
        invariant
            i <= cs@.len(),
            cs@ == text@,
            at == glimmer(text@.len() as int, tick),
            -cycle - 10 < at < cycle,
            cycle == cycle_length(text@.len() as int),
            line_view(r@) == shimmered(text@, tick).take(i as int),
        decreases cs@.len() - i,
    {
        let d: i128 = i as i128 - at;
        let t: u8 = if d == 0 {
            30
        } else if d == 1 || d == -1 {
            15
        } else {
            0
        };
        let mut s = String::new();
        s.push(cs[i]);
        let seg = colored_segment(s.as_str(), Color { r: 215 + t, g: 119 + t, b: 87 + t });
        let ghost before = line_view(r@);
        r.push(seg);
        proof {
            assert(s@ == seq![text@[i as int]]);
            assert(line_view(r@) == before.push(seg@));
            assert(seg@ == shimmered(text@, tick)[i as int]);
            assert(shimmered(text@, tick).take(i + 1) == before.push(seg@));
        }
        i += 1;
    }
    assert(shimmered(text@, tick).take(i as int) == shimmered(text@, tick));
    r
}

/// The text of the `k`-th picture of the spinner, which runs to and fro.
pub open spec fn spinner_picture(k: int) -> Seq<char> {
    let j = if k < 6 { k } else { 11 - k };
    if j == 0 {
        "·"@
    } else if j == 1 {
        "✢"@
    } else if j == 2 {
        "✳"@
    } else if j == 3 {
        "✶"@
    } else if j == 4 {
        "✻"@
    } else {
        "✽"@
    }
}

/// What the spinner shows `tick` milliseconds after the start: each of its twelve
/// pictures for 120 ms.
pub open spec fn spun(tick: u128) -> Seq<char> {
    spinner_picture(((tick / 120) as usize % 12) as int)
}

/// What the spinner shows `tick` milliseconds after the start.
pub fn spinner(tick: u128) -> (r: &'static str)
    ensures
        r@ == spun(tick),
{
    let k: usize = (tick / 120) as usize % 12;
    let j: usize = if k < 6 {
        k
    } else {
        11 - k
    };
    match j {
        0 => "·",
        1 => "✢",
        2 => "✳",
        3 => "✶",
        4 => "✻",
        _ => "✽",
    }
}

/// The names in a path, from the root on.
pub open spec fn path_names(path: Seq<char>) -> Seq<Seq<char>> {
    text::split_of(path, '/').filter(|s: Seq<char>| s.len() > 0)
}

/// The last two names of a path, or what there is of them.
pub open spec fn shortened(path: Seq<char>) -> Seq<char> {
    let names = path_names(path);
    let n = names.len();
    if n == 0 {
        seq![]
    } else if n == 1 {
        names[0]
    } else {
        names[n - 2] + "/"@ + names[n - 1]
    }
}

/// The last two names of a path.
pub fn short_path(path: &str) -> (r: String)
    ensures
        r@ == shortened(path@),
{
    let parts = split(path, '/');
    let ghost all = text::split_of(path@, '/');
    let ghost pred = |s: Seq<char>| s.len() > 0;
    let mut names: Vec<String> = Vec::new();
    let mut i: usize = 0;
    while i < parts.len()
        invariant
            i <= parts@.len(),
            text::texts(parts@) == all,
            pred == |s: Seq<char>| s.len() > 0,
            text::texts(names@) == all.take(i as int).filter(pred),
        decreases parts@.len() - i,
    {
        let ghost before = text::texts(names@);
        proof {
            reveal_with_fuel(Seq::filter, 1);
            assert(all[i as int] == parts@[i as int]@);
            assert(all.take(i + 1).drop_last() == all.take(i as int));
        }
        if !parts[i].as_str().is_empty() {
            names.push(parts[i].clone());
            assert(text::texts(names@) == before.push(parts@[i as int]@));
        }
        i += 1;
    }
    assert(all.take(i as int) == all);
    let n = names.len();
    assert(n > 0 ==> path_names(path@)[n - 1] == names@[n - 1]@);
    assert(n > 1 ==> path_names(path@)[n - 2] == names@[n - 2]@);
    if n == 0 {
        String::new()
    } else if n == 1 {
        names[0].clone()
    } else {
        let mut r = names[n - 2].clone();
        r.append("/");
        r.append(names[n - 1].as_str());
        r
    }
}

/// The colour that stands for a status.
pub open spec fn status_color(status: Seq<char>) -> Color {
    if status == "active"@ {
        Color { r: 215, g: 119, b: 87 }
    } else if status == "perm"@ {
        Color { r: 240, g: 200, b: 40 }
    } else if status == "dead"@ {
        Color { r: 230, g: 80, b: 80 }
    } else {
        Color { r: 166, g: 227, b: 161 }
    }
}

/// The sign that stands for a status.
pub open spec fn status_sign(status: Seq<char>, tick: u128) -> Seq<char> {
    if status == "active"@ {
        spun(tick)
    } else if status == "perm"@ {
        "●"@
    } else if status == "dead"@ {
        "✖"@
    } else {
        "●"@
    }
}

/// The sign of a status in its colour.
pub open spec fn status_mark(status: Seq<char>, tick: u128) -> SegmentView {
    colored(status_sign(status, tick), status_color(status))
}

fn mark(status: &str, tick: u128) -> (r: Segment)
    ensures
        r@ == status_mark(status@, tick),
{
    if same(status, "active") {
        colored_segment(spinner(tick), Color { r: 215, g: 119, b: 87 })
    } else if same(status, "perm") {
        colored_segment("●", Color { r: 240, g: 200, b: 40 })
    } else if same(status, "dead") {
        colored_segment("✖", Color { r: 230, g: 80, b: 80 })
    } else {
        colored_segment("●", Color { r: 166, g: 227, b: 161 })
    }
}

/// The first line of a pane's entry: the sign of its status and its name. A name at
/// work shimmers, one that waits or has crashed takes the colour of its status.
pub open spec fn name_line_of(p: pane::PaneView, tick: u128) -> Seq<SegmentView> {
    let first = status_mark(p.status, tick);
    let color = status_color(p.status);
    if p.status == "active"@ {
        seq![first, plain(" "@)] + shimmered(p.name, tick)
    } else if p.status == "perm"@ {
        seq![first, colored(" "@ + p.name, color)]
    } else if p.status == "dead"@ {
        seq![first, colored(" "@ + p.name + " (crashed)"@, color)]
    } else {
        seq![first, plain(" "@ + p.name)]
    }
}

/// The second line of a pane's entry: where it works.
pub open spec fn path_line_of(p: pane::PaneView) -> Seq<SegmentView> {
    seq![dimmed("  "@ + shortened(p.path))]
}

/// The first line of a pane's entry in the list.
pub fn name_line(p: &Pane, tick: u128) -> (r: Vec<Segment>)
    ensures
        line_view(r@) == name_line_of(p@, tick),
{
    let mut r: Vec<Segment> = Vec::new();
    r.push(mark(p.status.as_str(), tick));
    let mut label = " ".to_owned();
    if same(p.status.as_str(), "active") {
        r.push(plain_segment(label.as_str()));
        let ghost head = line_view(r@);
        assert(head == seq![status_mark(p.status@, tick), plain(" "@)]);
        let mut rest = shimmer(p.name.as_str(), tick);
        let ghost tail = line_view(rest@);
        r.append(&mut rest);
        assert(line_view(r@) == head + tail);
        return r;
    }
    label.append(p.name.as_str());
    if same(p.status.as_str(), "perm") {
        r.push(colored_segment(label.as_str(), Color { r: 240, g: 200, b: 40 }));
    } else if same(p.status.as_str(), "dead") {
        label.append(" (crashed)");
        r.push(colored_segment(label.as_str(), Color { r: 230, g: 80, b: 80 }));
    } else {
        r.push(plain_segment(label.as_str()));
    }
    assert(line_view(r@) == name_line_of(p@, tick));
    r
}

/// The second line of a pane's entry in the list.
pub fn path_line(p: &Pane) -> (r: Vec<Segment>)
    ensures
        line_view(r@) == path_line_of(p@),
{
    let mut label = "  ".to_owned();
    let path = short_path(p.path.as_str());
    label.append(path.as_str());
    let r = vec![dimmed_segment(label.as_str())];
    assert(line_view(r@) == path_line_of(p@));
    r
}

/// The title of the list: the program that the panes run.
pub fn list_title(program: &str) -> (r: String)
    ensures
        r@ == " "@ + program@ + " "@,
{
    let mut r = " ".to_owned();
    r.append(program);
    r.append(" ");
    r
}

/// What lies behind the selected entry of the list.
pub fn highlight() -> (r: Color)
    ensures
        r == (Color { r: 69, g: 71, b: 90 }),
{
    Color { r: 69, g: 71, b: 90 }
}

/// A pane's entry in the list.
pub struct Entry {
    pub name: Vec<Segment>,
    pub path: Vec<Segment>,
}

/// What an entry shows on its two lines.
#[verifier::ext_equal]
pub struct EntryView {
    pub name: Seq<SegmentView>,
    pub path: Seq<SegmentView>,
}

impl View for Entry {
    type V = EntryView;

    open spec fn view(&self) -> EntryView {
        EntryView { name: line_view(self.name@), path: line_view(self.path@) }
    }
}

/// The entry of a pane.
pub open spec fn entry_of(p: pane::PaneView, tick: u128) -> EntryView {
    EntryView { name: name_line_of(p, tick), path: path_line_of(p) }
}

/// The entries of the list as the contracts see them.
pub open spec fn entries_view(entries: Seq<Entry>) -> Seq<EntryView> {
    entries.map_values(|e: Entry| e@)
}

/// The entries of the list, one for each pane, in order.
pub fn entries(panes: &Vec<Pane>, tick: u128) -> (r: Vec<Entry>)
    ensures
        entries_view(r@) == pane::panes_view(panes@).map_values(
            |p: pane::PaneView| entry_of(p, tick),
        ),
{
    let ghost all = pane::panes_view(panes@).map_values(|p: pane::PaneView| entry_of(p, tick));
    let mut r: Vec<Entry> = Vec::new();
    let mut i: usize = 0;
    while i < panes.len()
        invariant
            i <= panes@.len(),
            all == pane::panes_view(panes@).map_values(|p: pane::PaneView| entry_of(p, tick)),
            entries_view(r@) == all.take(i as int),
        decreases panes@.len() - i,
    {
        let e = Entry { name: name_line(&panes[i], tick), path: path_line(&panes[i]) };
        let ghost before = entries_view(r@);
        r.push(e);
        proof {
            assert(e@ == all[i as int]);
            assert(entries_view(r@) == before.push(e@));
            assert(all.take(i + 1) == all.take(i as int).push(all[i as int]));
        }
        i += 1;
    }
    assert(all.take(i as int) == all);
    r
}

/// The title of the right panel: the selected pane, if there is one.
pub open spec fn title_of(p: Option<pane::PaneView>, tick: u128) -> Seq<SegmentView> {
    match p {
        Some(p) => seq![
            plain(" "@),
            status_mark(p.status, tick),
            plain(" "@ + p.name + "  "@),
            dimmed(shortened(p.path)),
            plain(" "@),
        ],
        None => seq![plain(" terminal "@)],
    }
}

/// The title of the right panel.
pub fn title(p: Option<&Pane>, tick: u128) -> (r: Vec<Segment>)
    ensures
        line_view(r@) == title_of(
            match p {
                Some(p) => Some(p@),
                None => None,
            },
            tick,
        ),
{
    match p {
        Some(p) => {
            let mut label = " ".to_owned();
            label.append(p.name.as_str());
            label.append("  ");
            let path = short_path(p.path.as_str());
            let r = vec![
                plain_segment(" "),
                mark(p.status.as_str(), tick),
                plain_segment(label.as_str()),
                dimmed_segment(path.as_str()),
                plain_segment(" "),
            ];
            assert(line_view(r@) == title_of(Some(p@), tick));
            r
        },
        None => {
            let r = vec![plain_segment(" terminal ")];
            assert(line_view(r@) == title_of(None, tick));
            r
        },
    }
}

/// The shortcuts that the help box names.
pub open spec fn help_texts() -> Seq<Seq<char>> {
    seq![
        "Ctrl+↑/↓  switch"@,
        "Ctrl+G    go to window"@,
        "F6 / F7   restart / danger"@,
        "Ctrl+L    refresh"@,
        "F2        mouse toggle"@,
        "Ctrl+Q    quit · Esc stop"@,
    ]
}

/// The lines of the help box.
pub fn help_lines() -> (r: Vec<Segment>)
    ensures
        line_view(r@) == help_texts().map_values(|s: Seq<char>| dimmed(s)),
{
    let r = vec![
        dimmed_segment("Ctrl+↑/↓  switch"),
        dimmed_segment("Ctrl+G    go to window"),
        dimmed_segment("F6 / F7   restart / danger"),
        dimmed_segment("Ctrl+L    refresh"),
        dimmed_segment("F2        mouse toggle"),
        dimmed_segment("Ctrl+Q    quit · Esc stop"),
    ];
    assert(line_view(r@) == help_texts().map_values(|s: Seq<char>| dimmed(s)));
    r
}

/// What a shimmering text says is the text itself, whatever the time.
pub proof fn law_shimmer_keeps_text(s: Seq<char>, tick: u128)
    ensures
        shimmered(s, tick).map_values(|g: SegmentView| g.text).flatten() == s,
{
    let ones = shimmered(s, tick).map_values(|g: SegmentView| g.text);
    assert(ones == s.map_values(|c: char| seq![c]));
    lemma_flatten_singles(s);
}

proof fn lemma_flatten_singles(s: Seq<char>)
    ensures
        s.map_values(|c: char| seq![c]).flatten() == s,
    decreases s.len(),
{
    let ones = s.map_values(|c: char| seq![c]);
    if s.len() > 0 {
        lemma_flatten_singles(s.drop_first());
        assert(ones.drop_first() == s.drop_first().map_values(|c: char| seq![c]));
        assert(seq![s[0]] + s.drop_first() == s);
    }
}

/// The glimmer comes back: one run later, the text looks the same again, as long as
/// the time counts that far.
pub proof fn law_shimmer_repeats(s: Seq<char>, tick: u128)
    requires
        tick / 140 + cycle_length(s.len() as int) <= isize::MAX,
    ensures
        shimmered(s, (tick + 140 * cycle_length(s.len() as int)) as u128) == shimmered(s, tick),
{
    let n = s.len() as int;
    let c = cycle_length(n);
    let later = (tick + 140 * c) as u128;
    assert(later == tick + 140 * c);
    assert(later / 140 == tick / 140 + c);
    assert(cycle_position(later) == cycle_position(tick) + c);
    vstd::arithmetic::div_mod::lemma_mod_add_multiples_vanish(cycle_position(tick), c);
    assert((c + cycle_position(tick)) % c == cycle_position(tick) % c);
    assert(glimmer(n, later) == glimmer(n, tick));
    assert(shimmered(s, later) == shimmered(s, tick));
}

/// At most one character is lit in full.
pub proof fn law_one_bright_character(n: int, tick: u128, i: int, j: int)
    requires
        0 <= i < n,
        0 <= j < n,
        shimmer_color(i, n, tick) == (Color { r: 245, g: 149, b: 117 }),
        shimmer_color(j, n, tick) == (Color { r: 245, g: 149, b: 117 }),
    ensures
        i == j,
{
}

/// What is kept of some texts by leaving out the empty ones is not empty, and is one of
/// them.
proof fn lemma_kept(all: Seq<Seq<char>>, i: int)
    requires
        0 <= i < all.filter(|s: Seq<char>| s.len() > 0).len(),
    ensures
        all.filter(|s: Seq<char>| s.len() > 0)[i].len() > 0,
        all.contains(all.filter(|s: Seq<char>| s.len() > 0)[i]),
    decreases all.len(),
{
    reveal_with_fuel(Seq::filter, 1);
    let pred = |s: Seq<char>| s.len() > 0;
    let rest = all.drop_last();
    if i < rest.filter(pred).len() {
        lemma_kept(rest, i);
        let j = rest.index_of(rest.filter(pred)[i]);
        assert(all[j] == rest[j]);
    } else {
        assert(all[all.len() - 1] == all.last());
    }
}

/// The names in a path are not empty and hold no slash.
proof fn lemma_path_names(path: Seq<char>)
    ensures
        forall|i: int|
            0 <= i < path_names(path).len() ==> (#[trigger] path_names(path)[i]).len() > 0
                && !path_names(path)[i].contains('/'),
{
    let all = text::split_of(path, '/');
    text::lemma_split_pieces(path, '/');
    assert forall|i: int| 0 <= i < path_names(path).len() implies (#[trigger] path_names(
        path,
    )[i]).len() > 0 && !path_names(path)[i].contains('/') by {
        lemma_kept(all, i);
        let j = all.index_of(path_names(path)[i]);
        assert(!all[j].contains('/'));
    }
}

/// A short path is not shortened any further.
pub proof fn law_short_path_is_stable(path: Seq<char>)
    ensures
        shortened(shortened(path)) == shortened(path),
{
    reveal_with_fuel(Seq::filter, 3);
    reveal_strlit("/");
    let names = path_names(path);
    let n = names.len();
    let short = shortened(path);
    let pred = |s: Seq<char>| s.len() > 0;
    lemma_path_names(path);
    assert("/"@ == seq!['/']);
    if n == 0 {
        text::lemma_split_off(short, short, '/');
        assert(seq![short].drop_last() == Seq::<Seq<char>>::empty());
        assert(path_names(short) == Seq::<Seq<char>>::empty());
    } else if n == 1 {
        text::lemma_split_off(short, short, '/');
        assert(seq![short].drop_last() == Seq::<Seq<char>>::empty());
        assert(path_names(short) == seq![short]);
    } else {
        let a = names[n - 2];
        let b = names[n - 1];
        text::lemma_split_off(a, b, '/');
        text::lemma_split_off(b, b, '/');
        let both = seq![a, b];
        assert(seq![a] + seq![b] == both);
        assert(both.drop_last() == seq![a]);
        assert(seq![a].drop_last() == Seq::<Seq<char>>::empty());
        assert(path_names(short) == both);
    }
}

/// The names in a path that is put together at a slash are those in front of it and those
/// behind it.
proof fn lemma_names_join(front: Seq<char>, back: Seq<char>)
    ensures
        path_names(front + seq!['/'] + back) == path_names(front) + path_names(back),
    decreases front.len(),
{
    let pred = |s: Seq<char>| s.len() > 0;
    let all = front + seq!['/'] + back;
    if front.contains('/') {
        let k = choose|k: int| 0 <= k < front.len() && front[k] == '/' && !front.take(k).contains(
            '/',
        );
        assert(exists|k: int|
            0 <= k < front.len() && front[k] == '/' && !front.take(k).contains('/')) by {
            lemma_first_slash(front);
        }
        let head = front.take(k);
        let tail = front.skip(k + 1);
        assert(front == head + seq!['/'] + tail);
        assert(all == head + seq!['/'] + (tail + seq!['/'] + back));
        text::lemma_split_off(head, tail, '/');
        text::lemma_split_off(head, tail + seq!['/'] + back, '/');
        lemma_names_join(tail, back);
        Seq::filter_distributes_over_add(seq![head], text::split_of(tail, '/'), pred);
        Seq::filter_distributes_over_add(
            seq![head],
            text::split_of(tail + seq!['/'] + back, '/'),
            pred,
        );
        assert(path_names(all) == seq![head].filter(pred) + (path_names(tail) + path_names(back)));
        assert(path_names(all) == path_names(front) + path_names(back));
    } else {
        text::lemma_split_off(front, back, '/');
        Seq::filter_distributes_over_add(seq![front], text::split_of(back, '/'), pred);
    }
}

proof fn lemma_first_slash(s: Seq<char>)
    requires
        s.contains('/'),
    ensures
        exists|k: int| 0 <= k < s.len() && s[k] == '/' && !s.take(k).contains('/'),
    decreases s.len(),
{
    let i = s.index_of('/');
    let t = s.take(i);
    if t.contains('/') {
        lemma_first_slash(t);
        let k = choose|k: int| 0 <= k < t.len() && t[k] == '/' && !t.take(k).contains('/');
        assert(t.take(k) == s.take(k));
        assert(s[k] == '/');
    }
}

/// A name without a slash is all there is in it, and slashes alone hold no name.
proof fn lemma_single_names(name: Seq<char>, slashes: Seq<char>)
    requires
        !name.contains('/'),
        forall|i: int| 0 <= i < slashes.len() ==> #[trigger] slashes[i] == '/',
    ensures
        name.len() > 0 ==> path_names(name) == seq![name],
        path_names(slashes) == Seq::<Seq<char>>::empty(),
    decreases slashes.len(),
{
    reveal_with_fuel(Seq::filter, 2);
    text::lemma_split_off(name, name, '/');
    assert(seq![name].drop_last() == Seq::<Seq<char>>::empty());
    let none = Seq::<char>::empty();
    if slashes.len() > 0 {
        let rest = slashes.drop_first();
        assert(slashes == none + seq!['/'] + rest);
        lemma_single_names(name, rest);
        lemma_single_names(name, none);
        lemma_names_join(none, rest);
    } else {
        assert(slashes == none);
        text::lemma_split_off(none, none, '/');
        assert(seq![none].drop_last() == Seq::<Seq<char>>::empty());
    }
}

/// Slashes between two parts of a path part their names, however many there are.
proof fn lemma_names_join_at_slashes(front: Seq<char>, slashes: Seq<char>, back: Seq<char>)
    requires
        slashes.len() > 0,
        forall|i: int| 0 <= i < slashes.len() ==> #[trigger] slashes[i] == '/',
    ensures
        path_names(front + slashes + back) == path_names(front) + path_names(back),
{
    let rest = slashes.drop_first();
    assert(front + slashes + back == front + seq!['/'] + (rest + back));
    lemma_names_join(front, rest + back);
    if rest.len() > 0 {
        let most = rest.drop_last();
        assert(rest + back == most + seq!['/'] + back);
        lemma_names_join(most, back);
        lemma_single_names(Seq::empty(), most);
        assert(path_names(most) + path_names(back) == path_names(back));
    } else {
        assert(rest + back == back);
    }
}

/// Slashes behind a path add no name.
proof fn lemma_names_with_slashes_behind(path: Seq<char>, slashes: Seq<char>)
    requires
        forall|i: int| 0 <= i < slashes.len() ==> #[trigger] slashes[i] == '/',
    ensures
        path_names(path + slashes) == path_names(path),
{
    let none = Seq::<char>::empty();
    if slashes.len() > 0 {
        lemma_names_join_at_slashes(path, slashes, none);
        assert(path + slashes + none == path + slashes);
        lemma_single_names(none, none);
        assert(path_names(path) + path_names(none) == path_names(path));
    } else {
        assert(path + slashes == path);
    }
}

/// What stands in front of a path, up to a slash, leaves its names at the end.
proof fn lemma_names_behind(front: Seq<char>, slashes: Seq<char>, path: Seq<char>)
    requires
        forall|i: int| 0 <= i < slashes.len() ==> #[trigger] slashes[i] == '/',
        front.len() > 0 ==> slashes.len() > 0,
    ensures
        slashes.len() > 0 ==> path_names(front + slashes + path) == path_names(front) + path_names(
            path,
        ),
        slashes.len() == 0 ==> path_names(front + slashes + path) == path_names(path),
{
    if slashes.len() > 0 {
        lemma_names_join_at_slashes(front, slashes, path);
    } else {
        assert(front + slashes + path == path);
    }
}

proof fn lemma_shortened_two(names: Seq<Seq<char>>, path: Seq<char>, a: Seq<char>, b: Seq<char>)
    requires
        path_names(path) == names + seq![a, b],
    ensures
        shortened(path) == a + seq!['/'] + b,
{
    reveal_strlit("/");
    assert("/"@ == seq!['/']);
    let all = names + seq![a, b];
    assert(all[all.len() - 2] == a);
    assert(all[all.len() - 1] == b);
}

/// A short path is made of the last two names: whatever stands in front of them, and
/// however many slashes stand between them or at the end, they come out with one slash in
/// between.
pub proof fn law_short_path_is_the_last_two_names(
    path: &str,
    r: String,
    front: Seq<char>,
    before: Seq<char>,
    a: Seq<char>,
    between: Seq<char>,
    b: Seq<char>,
    after: Seq<char>,
)
    requires
        call_ensures(short_path, (path,), r),
        path@ == front + before + a + between + b + after,
        a.len() > 0,
        b.len() > 0,
        !a.contains('/'),
        !b.contains('/'),
        front.len() > 0 ==> before.len() > 0,
        between.len() > 0,
        forall|i: int| 0 <= i < before.len() ==> #[trigger] before[i] == '/',
        forall|i: int| 0 <= i < between.len() ==> #[trigger] between[i] == '/',
        forall|i: int| 0 <= i < after.len() ==> #[trigger] after[i] == '/',
    ensures
        r@ == a + seq!['/'] + b,
{
    let end = b + after;
    let two = a + between + end;
    assert(path@ == front + before + two);
    assert(path_names(two) == seq![a, b]) by {
        lemma_single_names(a, after);
        lemma_single_names(b, after);
        lemma_names_with_slashes_behind(b, after);
        lemma_names_join_at_slashes(a, between, end);
        assert(seq![a] + seq![b] == seq![a, b]);
    }
    lemma_names_behind(front, before, two);
    let names = if before.len() > 0 {
        path_names(front)
    } else {
        Seq::<Seq<char>>::empty()
    };
    assert(path_names(path@) == names + seq![a, b]);
    lemma_shortened_two(names, path@, a, b);
}

/// A path of one name is shortened to it, and slashes alone to nothing.
pub proof fn law_short_path_of_less_than_two_names(
    path: &str,
    r: String,
    before: Seq<char>,
    a: Seq<char>,
    after: Seq<char>,
)
    requires
        call_ensures(short_path, (path,), r),
        path@ == before + a + after,
        !a.contains('/'),
        forall|i: int| 0 <= i < before.len() ==> #[trigger] before[i] == '/',
        forall|i: int| 0 <= i < after.len() ==> #[trigger] after[i] == '/',
    ensures
        r@ == a,
{
    let none = Seq::<char>::empty();
    let end = a + after;
    assert(path@ == none + before + end);
    lemma_names_with_slashes_behind(a, after);
    lemma_names_behind(none, before, end);
    assert(path_names(none) == Seq::<Seq<char>>::empty()) by {
        lemma_single_names(none, none);
    }
    assert(path_names(path@) == path_names(a));
    lemma_single_names(a, none);
    if a.len() == 0 {
        assert(a == none);
    } else {
        assert(path_names(path@) == seq![a]);
    }
}

/// The glimmer lights one character in full and its neighbours by half; all others keep
/// their colour. It starts ten characters in front of the text, goes on by one character
/// every 140 ms, and starts anew ten characters behind the end.
pub proof fn law_glimmer_runs_over_the_text(text: &str, tick: u128, r: Vec<Segment>, i: int)
    requires
        call_ensures(shimmer, (text, tick), r),
        0 <= i < text@.len(),
        tick / 140 <= isize::MAX,
    ensures
        r@.len() == text@.len(),
        r@[i].text@ == seq![text@[i]],
        !r@[i].style.dim,
        ({
            let at = (tick / 140) as int % (text@.len() as int + 20) - 10;
            r@[i].style.fg == Some(
                if i == at {
                    Color { r: 245, g: 149, b: 117 }
                } else if i == at - 1 || i == at + 1 {
                    Color { r: 230, g: 134, b: 102 }
                } else {
                    Color { r: 215, g: 119, b: 87 }
                },
            )
        }),
{
    assert(line_view(r@).len() == r@.len());
    assert(line_view(r@)[i] == r@[i]@);
    assert(shimmered(text@, tick).len() == text@.len());
    assert(shimmered(text@, tick)[i] == colored(
        seq![text@[i]],
        shimmer_color(i, text@.len() as int, tick),
    ));
    assert(cycle_position(tick) == tick / 140);
}

/// The spinner shows its twelve pictures one after another, each for 120 ms, and then
/// starts anew: the first six, and the same six backwards.
pub proof fn law_spinner_runs_to_and_fro(tick: u128, r: &'static str)
    requires
        call_ensures(spinner, (tick,), r),
        tick / 120 <= usize::MAX,
    ensures
        r@ == seq![
            "·"@,
            "✢"@,
            "✳"@,
            "✶"@,
            "✻"@,
            "✽"@,
            "✽"@,
            "✻"@,
            "✶"@,
            "✳"@,
            "✢"@,
            "·"@,
        ][(tick / 120) as int % 12],
{
    assert((tick / 120) as usize as int == (tick / 120) as int);
}

/// The text of a line, whatever its styles.
pub open spec fn line_text(line: Seq<Segment>) -> Seq<char> {
    line.map_values(|s: Segment| s.text@).flatten()
}

proof fn lemma_line_text(line: Seq<Segment>)
    ensures
        line_text(line) == line_view(line).map_values(|g: SegmentView| g.text).flatten(),
        line.len() == line_view(line).len(),
        forall|i: int| 0 <= i < line.len() ==> line_view(line)[i] == (#[trigger] line[i])@,
{
    assert(line.map_values(|s: Segment| s.text@) == line_view(line).map_values(
        |g: SegmentView| g.text,
    ));
}

/// The text of two segments is that of the one and of the other.
proof fn lemma_flatten_two(a: Seq<char>, b: Seq<char>)
    ensures
        seq![a, b].flatten() == a + b,
{
    reveal_with_fuel(Seq::flatten, 3);
    assert(seq![a, b].drop_first() == seq![b]);
    assert(seq![b].drop_first() == Seq::<Seq<char>>::empty());
}

/// The name line reads: a sign, a blank and the name, and behind that of a crashed session
/// that it has crashed.
pub proof fn law_name_line_tells_the_name(p: &Pane, tick: u128, r: Vec<Segment>)
    requires
        call_ensures(name_line, (p, tick), r),
    ensures
        r@.len() > 0,
        p.status@ != "dead"@ ==> line_text(r@) == r@[0].text@ + seq![' '] + p.name@,
        p.status@ == "dead"@ ==> line_text(r@) == r@[0].text@ + seq![' '] + p.name@
            + " (crashed)"@,
{
    reveal_strlit(" ");
    reveal_strlit("active");
    reveal_strlit("dead");
    reveal_strlit("perm");
    assert("active"@.len() != "dead"@.len() && "perm"@[0] != "dead"@[0]);
    assert(" "@ == seq![' ']);
    lemma_line_text(r@);
    let all = name_line_of(p@, tick);
    let first = status_mark(p.status@, tick);
    let said = all.map_values(|g: SegmentView| g.text);
    if p.status@ == "active"@ {
        let tail = shimmered(p.name@, tick).map_values(|g: SegmentView| g.text);
        law_shimmer_keeps_text(p.name@, tick);
        assert(said == seq![first.text, " "@] + tail);
        vstd::seq_lib::lemma_flatten_concat(seq![first.text, " "@], tail);
        lemma_flatten_two(first.text, " "@);
        assert(line_text(r@) == first.text + " "@ + p.name@);
        assert(r@[0]@ == all[0]);
    } else {
        assert(said == seq![first.text, all[1].text]);
        lemma_flatten_two(first.text, all[1].text);
        assert(r@[0]@ == all[0]);
        assert(line_text(r@) =~= first.text + all[1].text);
        if p.status@ == "dead"@ {
            assert(first.text + all[1].text =~= first.text + seq![' '] + p.name@ + " (crashed)"@);
        } else {
            assert(first.text + all[1].text =~= first.text + seq![' '] + p.name@);
        }
    }
}

/// The sign and its colour tell the status: a spinner at work, a yellow dot for a session
/// that waits for a permission, a red cross for one that has crashed, and a green dot
/// otherwise. The name takes the colour where somebody has to do something about it.
pub proof fn law_name_line_shows_the_status(
    p: &Pane,
    tick: u128,
    r: Vec<Segment>,
    spinning: &'static str,
)
    requires
        call_ensures(name_line, (p, tick), r),
        call_ensures(spinner, (tick,), spinning),
    ensures
        p.status@ == "active"@ ==> r@[0].text@ == spinning@ && r@[0].style == (Style {
            fg: Some(Color { r: 215, g: 119, b: 87 }),
            dim: false,
        }) && r@[1].style == (Style { fg: None, dim: false }),
        p.status@ == "perm"@ ==> r@.len() == 2 && r@[0].text@ == "●"@ && r@[0].style == (Style {
            fg: Some(Color { r: 240, g: 200, b: 40 }),
            dim: false,
        }) && r@[1].style == r@[0].style,
        p.status@ == "dead"@ ==> r@.len() == 2 && r@[0].text@ == "✖"@ && r@[0].style == (Style {
            fg: Some(Color { r: 230, g: 80, b: 80 }),
            dim: false,
        }) && r@[1].style == r@[0].style,
        p.status@ != "active"@ && p.status@ != "perm"@ && p.status@ != "dead"@ ==> r@.len() == 2
            && r@[0].text@ == "●"@ && r@[0].style == (Style {
            fg: Some(Color { r: 166, g: 227, b: 161 }),
            dim: false,
        }) && r@[1].style == (Style { fg: None, dim: false }),
{
    reveal_strlit("active");
    reveal_strlit("dead");
    reveal_strlit("perm");
    assert("active"@.len() != "dead"@.len() && "active"@.len() != "perm"@.len());
    assert("perm"@[0] != "dead"@[0]);
    lemma_line_text(r@);
    let all = name_line_of(p@, tick);
    assert(r@[0]@ == all[0] && r@[1]@ == all[1]);
}

/// The name of a session at work shimmers behind its sign and a blank.
pub proof fn law_name_at_work_shimmers(
    p: &Pane,
    name: &str,
    tick: u128,
    r: Vec<Segment>,
    lit: Vec<Segment>,
    i: int,
)
    requires
        call_ensures(name_line, (p, tick), r),
        call_ensures(shimmer, (name, tick), lit),
        p.status@ == "active"@,
        p.name@ == name@,
        0 <= i < lit@.len(),
    ensures
        r@.len() == lit@.len() + 2,
        r@[i + 2]@ == lit@[i]@,
{
    lemma_line_text(r@);
    lemma_line_text(lit@);
    let all = name_line_of(p@, tick);
    assert(all[i + 2] == shimmered(p.name@, tick)[i]);
}

/// The path line is the short path, dimmed and indented by two blanks.
pub proof fn law_path_line_tells_the_short_path(
    p: &Pane,
    path: &str,
    r: Vec<Segment>,
    short: String,
)
    requires
        call_ensures(path_line, (p,), r),
        call_ensures(short_path, (path,), short),
        p.path@ == path@,
    ensures
        r@.len() == 1,
        r@[0].text@ == seq![' ', ' '] + short@,
        r@[0].style == (Style { fg: None, dim: true }),
{
    reveal_strlit("  ");
    assert("  "@ == seq![' ', ' ']);
    lemma_line_text(r@);
    assert(r@[0]@ == path_line_of(p@)[0]);
}

/// The list has an entry for each pane, in the order of the panes: its name line and its
/// path line.
pub proof fn law_entries_follow_the_panes(panes: &Vec<Pane>, tick: u128, r: Vec<Entry>, i: int)
    requires
        call_ensures(entries, (panes, tick), r),
        0 <= i < panes@.len(),
    ensures
        r@.len() == panes@.len(),
        forall|name: Vec<Segment>| #[trigger]
            call_ensures(name_line, (&panes@[i], tick), name) ==> line_view(name@) == line_view(
                r@[i].name@,
            ),
        forall|path: Vec<Segment>| #[trigger]
            call_ensures(path_line, (&panes@[i],), path) ==> line_view(path@) == line_view(
                r@[i].path@,
            ),
{
    assert(entries_view(r@).len() == r@.len());
    let all = pane::panes_view(panes@).map_values(|p: pane::PaneView| entry_of(p, tick));
    assert(all.len() == panes@.len());
    assert(entries_view(r@)[i] == r@[i]@);
    assert(all[i] == entry_of(panes@[i]@, tick));
}

/// The title of the right panel shows the sign of the selected pane as the list does, its
/// name, and dimmed its short path; without a pane it is the word "terminal".
pub proof fn law_title_tells_the_selected_pane(
    p: &Pane,
    path: &str,
    tick: u128,
    r: Vec<Segment>,
    listed: Vec<Segment>,
    short: String,
    none: Vec<Segment>,
)
    requires
        call_ensures(title, (Some(p), tick), r),
        call_ensures(title, (None, tick), none),
        call_ensures(name_line, (p, tick), listed),
        call_ensures(short_path, (path,), short),
        p.path@ == path@,
    ensures
        r@.len() == 5,
        r@[0].text@ == seq![' '],
        r@[1].text@ == listed@[0].text@,
        r@[1].style == listed@[0].style,
        r@[2].text@ == seq![' '] + p.name@ + seq![' ', ' '],
        r@[3].text@ == short@,
        r@[4].text@ == seq![' '],
        r@[0].style == (Style { fg: None, dim: false }),
        r@[2].style == r@[0].style,
        r@[3].style == (Style { fg: None, dim: true }),
        r@[4].style == r@[0].style,
        none@.len() == 1,
        none@[0].text@ == " terminal "@,
        none@[0].style == r@[0].style,
{
    reveal_strlit(" ");
    reveal_strlit("  ");
    assert(" "@ == seq![' ']);
    assert("  "@ == seq![' ', ' ']);
    lemma_line_text(r@);
    lemma_line_text(listed@);
    lemma_line_text(none@);
    assert(line_view(listed@)[0] == status_mark(p.status@, tick));
    assert(listed@[0]@ == status_mark(p.status@, tick));
    let all = title_of(Some(p@), tick);
    assert(r@[0]@ == all[0] && r@[1]@ == all[1] && r@[2]@ == all[2] && r@[3]@ == all[3] && r@[4]@
        == all[4]);
    assert(none@[0]@ == title_of(None, tick)[0]);
}

/// The list is headed by the program's name between blanks.
pub proof fn law_list_is_headed_by_the_program(program: &str, r: String)
    requires
        call_ensures(list_title, (program,), r),
    ensures
        r@ == seq![' '] + program@ + seq![' '],
{
    reveal_strlit(" ");
    assert(" "@ == seq![' ']);
}

} // verus!
