//! The session shown in the right panel: a tmux client that renders at the panel's
//! size.

use vstd::prelude::*;

use crate::layout::Area;
use crate::pane;
use crate::pane::Pane;
use crate::text;
use crate::text::{chars_of, owned, same, starts_with, trim};

verus! {

/// A client is never smaller than this many rows.
pub const MIN_ROWS: u16 = 4;

/// A client is never smaller than this many columns.
pub const MIN_COLS: u16 = 20;

/// With more columns than this, an emulator cannot count the place behind the last tab.
pub const MAX_COLS: u16 = 65527;

/// `n`, but no less than `least`.
pub open spec fn at_least(n: u16, least: u16) -> u16 {
    if n < least {
        least
    } else {
        n
    }
}

fn floor(n: u16, least: u16) -> (r: u16)
    ensures
        r == at_least(n, least),
{
    if n < least {
        least
    } else {
        n
    }
}

/// A terminal emulator: a grid of cells that the client's output fills.
#[verifier::external_body]
pub struct Emulator {
    pub parser: vt100::Parser,
}

/// The text in each cell that an emulator shows, by row and column.
pub uninterp spec fn cells(emulator: Emulator) -> Map<(int, int), Seq<char>>;

/// How many lines an emulator keeps that have left its screen.
pub uninterp spec fn scrollback_limit(emulator: Emulator) -> usize;

/// Whether each double-width glyph that an emulator holds, on the screen that is shown
/// and on the one that is not, has its second half in the next column, and there is no
/// second half without its glyph.
pub uninterp spec fn whole(emulator: Emulator) -> bool;

/// The text in each cell that an emulator shows after it has processed these bytes.
pub uninterp spec fn fed(emulator: Emulator, bytes: Seq<u8>) -> Map<(int, int), Seq<char>>;

/// The places of a grid with so many rows and columns.
pub open spec fn grid(rows: int, cols: int) -> Set<(int, int)> {
    Set::new(|at: (int, int)| 0 <= at.0 < rows && 0 <= at.1 < cols)
}

/// The cells of `before` in a grid of another size: cells that fall out of it are lost,
/// and those that come in are empty.
pub open spec fn regridded(
    before: Map<(int, int), Seq<char>>,
    rows: int,
    cols: int,
) -> Map<(int, int), Seq<char>> {
    Map::new(
        |at: (int, int)| grid(rows, cols).contains(at),
        |at: (int, int)|
            if before.dom().contains(at) {
                before[at]
            } else {
                Seq::<char>::empty()
            },
    )
}

/// A grid of another size covers just the places of that size, and a grid of its own
/// size is the same.
proof fn lemma_regridded(before: Map<(int, int), Seq<char>>, rows: int, cols: int)
    ensures
        regridded(before, rows, cols).dom() == grid(rows, cols),
        before.dom() == grid(rows, cols) ==> regridded(before, rows, cols) == before,
{
    assert(regridded(before, rows, cols).dom() == grid(rows, cols));
    if before.dom() == grid(rows, cols) {
        assert(regridded(before, rows, cols) == before);
    }
}

/// `vt100::Parser::new`: an emulator with empty cells in a grid of that size, and with
/// that much scrollback. It holds no glyphs yet.
#[verifier::external_body]
fn new_emulator(rows: u16, cols: u16, scrollback: usize) -> (r: Emulator)
    requires
        rows > 0,
        cols > 0,
    ensures
        cells(r) == regridded(Map::empty(), rows as int, cols as int),
        scrollback_limit(r) == scrollback,
        whole(r),
{
    Emulator { parser: vt100::Parser::new(rows, cols, scrollback) }
}

/// `vt100::Screen::set_size` without scrollback: the grid has that size afterwards.
/// Cells keep their text as far as they are still there; the others are empty. Glyphs
/// stay whole unless columns are lost: then one may lose its second half, and columns
/// that are added later do not bring it back. What it does to the cursor, to the scroll
/// region and to the text on the screen that is not shown is not stated.
#[verifier::external_body]
fn resize_emulator(emulator: &mut Emulator, rows: u16, cols: u16)
    requires
        rows > 0,
        cols > 0,
        cells(*old(emulator)).dom().contains((0, 0)),
        scrollback_limit(*old(emulator)) == 0,
    ensures
        cells(*final(emulator)) == regridded(cells(*old(emulator)), rows as int, cols as int),
        scrollback_limit(*final(emulator)) == scrollback_limit(*old(emulator)),
        whole(*old(emulator)) && !cells(*old(emulator)).dom().contains((0, cols as int)) ==> whole(
            *final(emulator),
        ),
{
    emulator.parser.screen_mut().set_size(rows, cols);
}

/// `vt100::Parser::process`: the emulator takes in what a client printed. That changes
/// the text in the cells, but neither the size of the grid nor the scrollback, and
/// glyphs stay whole. It can panic where a glyph is not whole, in a grid of one row or of
/// fewer than three columns, and beyond `MAX_COLS`. What it does to the cursor, to
/// attributes and to the screen that is not shown is not stated, and the text that comes
/// out is only named.
#[verifier::external_body]
fn process_emulator(emulator: &mut Emulator, bytes: &[u8])
    requires
        whole(*old(emulator)),
        cells(*old(emulator)).dom().contains((1, 0)),
        cells(*old(emulator)).dom().contains((0, 2)),
        !cells(*old(emulator)).dom().contains((0, MAX_COLS as int)),
    ensures
        cells(*final(emulator)) == fed(*old(emulator), bytes@),
        cells(*final(emulator)).dom() == cells(*old(emulator)).dom(),
        scrollback_limit(*final(emulator)) == scrollback_limit(*old(emulator)),
        whole(*final(emulator)),
{
    emulator.parser.process(bytes);
}

/// The rows and columns of a PTY.
#[derive(Clone, Copy, Debug, PartialEq, Eq, Structural)]
pub struct PtyDims {
    pub rows: u16,
    pub cols: u16,
}

/// The size of a client in an area of so many rows and columns.
pub open spec fn client_dims(height: u16, width: u16) -> PtyDims {
    PtyDims { rows: at_least(height, MIN_ROWS), cols: at_least(width, MIN_COLS) }
}

/// Whether a size is just that of an area.
pub open spec fn fits(d: PtyDims, height: u16, width: u16) -> bool {
    d.rows == height && d.cols == width
}

/// The size that a client takes in an area: its own where that is the area's, else the
/// nearest to the area's that is not too small.
pub open spec fn fitted(d: PtyDims, height: u16, width: u16) -> PtyDims {
    if fits(d, height, width) {
        d
    } else {
        client_dims(height, width)
    }
}

/// What a client is attached to: a pane, in its window and session.
pub struct Target {
    pub id: String,
    pub session: String,
    pub window: String,
}

/// What the fields of a target hold.
#[verifier::ext_equal]
pub struct TargetView {
    pub id: Seq<char>,
    pub session: Seq<char>,
    pub window: Seq<char>,
}

impl View for Target {
    type V = TargetView;

    open spec fn view(&self) -> TargetView {
        TargetView { id: self.id@, session: self.session@, window: self.window@ }
    }
}

/// What a client for this pane is attached to.
pub open spec fn target_of(p: pane::PaneView) -> TargetView {
    TargetView { id: p.id, session: p.session, window: p.window }
}

impl Target {
    /// What a client for this pane is attached to.
    pub fn of(pane: &Pane) -> (r: Self)
        ensures
            r@ == target_of(pane@),
    {
        Target { id: pane.id.clone(), session: pane.session.clone(), window: pane.window.clone() }
    }

    /// Whether this is what a client for the pane is attached to.
    pub fn is_of(&self, pane: &Pane) -> (r: bool)
        ensures
            r == (self@ == target_of(pane@)),
    {
        same(self.id.as_str(), pane.id.as_str()) && same(
            self.session.as_str(),
            pane.session.as_str(),
        ) && same(self.window.as_str(), pane.window.as_str())
    }
}

/// The embedded client, as far as the panel keeps track of it.
pub struct Embedded {
    pub emulator: Emulator,
    pub rows: u16,
    pub cols: u16,
    /// tmux shows its status line at the top.
    pub status_top: bool,
    /// The client's terminal, by which it is detached.
    pub tty: String,
    /// What it is attached to.
    pub target: Target,
    /// It has lost columns, so that a double-width glyph may have been cut.
    pub cut: bool,
}

impl Embedded {
    /// The client is not too small, and the emulator is of its size, with no scrollback:
    /// tmux does the scrolling. Unless columns were lost, its glyphs are whole.
    pub open spec fn wf(&self) -> bool {
        &&& self.rows >= MIN_ROWS
        &&& self.cols >= MIN_COLS
        &&& cells(self.emulator).dom() == grid(self.rows as int, self.cols as int)
        &&& scrollback_limit(self.emulator) == 0
        &&& !self.cut ==> whole(self.emulator)
    }

    /// The client's size.
    pub open spec fn dims(&self) -> PtyDims {
        PtyDims { rows: self.rows, cols: self.cols }
    }

    /// A client of the given size that has just been attached.
    pub fn new(dims: PtyDims, status_top: bool, tty: String, target: Target) -> (r: Self)
        requires
            dims.rows >= MIN_ROWS,
            dims.cols >= MIN_COLS,
        ensures
            r.wf(),
            r.dims() == dims,
            cells(r.emulator) == regridded(Map::empty(), dims.rows as int, dims.cols as int),
            r.status_top == status_top,
            r.tty@ == tty@,
            r.target@ == target@,
            !r.cut,
    {
        proof {
            lemma_regridded(Map::empty(), dims.rows as int, dims.cols as int);
        }
        Embedded {
            emulator: new_emulator(dims.rows, dims.cols, 0),
            rows: dims.rows,
            cols: dims.cols,
            status_top,
            tty,
            target,
            cut: false,
        }
    }

    /// Fits the client into an area. Where its size is not the area's, it takes the
    /// nearest that is not too small, and the PTY has to follow.
    pub fn fit(&mut self, inner: Area) -> (r: Option<PtyDims>)
        requires
            old(self).wf(),
        ensures
            final(self).wf(),
            final(self).status_top == old(self).status_top,
            final(self).tty@ == old(self).tty@,
            final(self).target@ == old(self).target@,
            final(self).cut == (old(self).cut || final(self).cols < old(self).cols),
            final(self).dims() == fitted(old(self).dims(), inner.height, inner.width),
            cells(final(self).emulator) == regridded(
                cells(old(self).emulator),
                final(self).rows as int,
                final(self).cols as int,
            ),
            fits(old(self).dims(), inner.height, inner.width) ==> final(self).emulator == old(
                self,
            ).emulator,
            r == if fits(old(self).dims(), inner.height, inner.width) {
                None
            } else {
                Some(final(self).dims())
            },
    {
        proof {
            let d = fitted(self.dims(), inner.height, inner.width);
            lemma_regridded(cells(self.emulator), d.rows as int, d.cols as int);
        }
        if inner.width != self.cols || inner.height != self.rows {
            let cols = floor(inner.width, MIN_COLS);
            self.cut = self.cut || cols < self.cols;
            self.rows = floor(inner.height, MIN_ROWS);
            self.cols = cols;
            resize_emulator(&mut self.emulator, self.rows, self.cols);
            Some(PtyDims { rows: self.rows, cols: self.cols })
        } else {
            None
        }
    }

    /// Makes the client two rows shorter, as far as it may be, so that fitting it
    /// again forces a repaint. The PTY has to follow.
    pub fn shrink(&mut self) -> (r: PtyDims)
        requires
            old(self).wf(),
        ensures
            final(self).wf(),
            final(self).status_top == old(self).status_top,
            final(self).tty@ == old(self).tty@,
            final(self).target@ == old(self).target@,
            final(self).cut == old(self).cut,
            final(self).dims() == shrunk(old(self).dims()),
            cells(final(self).emulator) == regridded(
                cells(old(self).emulator),
                final(self).rows as int,
                final(self).cols as int,
            ),
            r == final(self).dims(),
    {
        let rows = floor(self.rows - 2, MIN_ROWS);
        self.rows = rows;
        proof {
            lemma_regridded(cells(self.emulator), rows as int, self.cols as int);
        }
        resize_emulator(&mut self.emulator, rows, self.cols);
        PtyDims { rows, cols: self.cols }
    }

    /// Shows what the client printed. That is not done, and the answer is `false`, where
    /// the emulator could not take it for sure: once columns were lost, or with too many
    /// of them.
    pub fn feed(&mut self, bytes: &[u8]) -> (r: bool)
        requires
            old(self).wf(),
        ensures
            final(self).wf(),
            r == takes_output(old(self).cut, old(self).dims()),
            r ==> cells(final(self).emulator) == fed(old(self).emulator, bytes@),
            !r ==> *final(self) == *old(self),
            final(self).dims() == old(self).dims(),
            final(self).status_top == old(self).status_top,
            final(self).tty@ == old(self).tty@,
            final(self).target@ == old(self).target@,
            final(self).cut == old(self).cut,
    {
        if self.cut || self.cols > MAX_COLS {
            return false;
        }
        process_emulator(&mut self.emulator, bytes);
        true
    }
}

/// Whether a client of this size takes what it is fed, given whether it has lost columns.
pub open spec fn takes_output(cut: bool, d: PtyDims) -> bool {
    !cut && d.cols <= MAX_COLS
}

/// Two rows less, but not too few.
pub open spec fn shrunk(d: PtyDims) -> PtyDims {
    PtyDims { rows: at_least((d.rows - 2) as u16, MIN_ROWS), cols: d.cols }
}

/// The file into which a new client writes the name of its terminal.
pub open spec fn tty_file_of(id: Seq<char>) -> Seq<char> {
    "/tmp/ccview-"@ + id.filter(|c: char| c != '%') + ".tty"@
}

/// The shell script that turns into a client. It names its terminal in `tty_file`,
/// goes to the pane's window, zooms in on the pane unless something there is zoomed
/// already, and attaches to the session.
pub open spec fn attach_script_of(
    session: Seq<char>,
    window: Seq<char>,
    id: Seq<char>,
    tty_file: Seq<char>,
) -> Seq<char> {
    "unset TMUX; tty > '"@ + tty_file + "'; tmux select-window -t '"@ + window
        + "'; tmux select-pane -t '"@ + id + "'; [ \"$(tmux display -pt '"@ + id
        + "' '#{window_zoomed_flag}')\" = 1 ] || tmux resize-pane -Z -t '"@ + id
        + "'; exec tmux attach -t '"@ + session + "'"@
}

/// The file into which a new client writes the name of its terminal.
pub fn tty_file(id: &str) -> (r: String)
    ensures
        r@ == tty_file_of(id@),
{
    let cs = chars_of(id);
    let ghost pred = |c: char| c != '%';
    let mut plain = String::new();
    let mut i: usize = 0;
    while i < cs.len()
        invariant
            i <= cs@.len(),
            cs@ == id@,
            pred == |c: char| c != '%',
            plain@ == cs@.take(i as int).filter(pred),
        decreases cs@.len() - i,
    {
        proof {
            reveal_with_fuel(Seq::filter, 1);
            assert(cs@.take(i + 1).drop_last() == cs@.take(i as int));
        }
        if cs[i] != '%' {
            plain.push(cs[i]);
        }
        i += 1;
    }
    assert(cs@.take(i as int) == cs@);
    let mut r = "/tmp/ccview-".to_owned();
    r.append(plain.as_str());
    r.append(".tty");
    r
}

/// The shell script that turns into a client.
pub fn attach_script(pane: &Pane, tty_file: &str) -> (r: String)
    ensures
        r@ == attach_script_of(pane.session@, pane.window@, pane.id@, tty_file@),
{
    let mut r = "unset TMUX; tty > '".to_owned();
    r.append(tty_file);
    r.append("'; tmux select-window -t '");
    r.append(pane.window.as_str());
    r.append("'; tmux select-pane -t '");
    r.append(pane.id.as_str());
    r.append("'; [ \"$(tmux display -pt '");
    r.append(pane.id.as_str());
    r.append("' '#{window_zoomed_flag}')\" = 1 ] || tmux resize-pane -Z -t '");
    r.append(pane.id.as_str());
    r.append("'; exec tmux attach -t '");
    r.append(pane.session.as_str());
    r.append("'");
    r
}

/// How to start a client: what it is attached to, the size of its PTY, the command that
/// turns into it, and the file in which it names its terminal.
pub struct SpawnPlan {
    pub target: Target,
    pub dims: PtyDims,
    pub tty_file: String,
    pub command: Vec<String>,
}

/// How to start a client for a pane in an area of so many rows and columns.
pub fn spawn_embedded(pane: &Pane, rows: u16, cols: u16) -> (r: SpawnPlan)
    ensures
        r.target@ == target_of(pane@),
        r.dims == client_dims(rows, cols),
        r.tty_file@ == tty_file_of(pane.id@),
        text::texts(r.command@) == seq![
            "sh"@,
            "-c"@,
            attach_script_of(pane.session@, pane.window@, pane.id@, r.tty_file@),
        ],
{
    let file = tty_file(pane.id.as_str());
    let script = attach_script(pane, file.as_str());
    let command = owned(vec!["sh", "-c", script.as_str()]);
    assert(text::texts(command@) == seq!["sh"@, "-c"@, script@]);
    SpawnPlan {
        target: Target::of(pane),
        dims: PtyDims { rows: floor(rows, MIN_ROWS), cols: floor(cols, MIN_COLS) },
        tty_file: file,
        command,
    }
}

/// What a client's terminal file tells: the name of a device, or nothing yet.
pub open spec fn tty_named(contents: Option<Seq<char>>) -> Option<Seq<char>> {
    match contents {
        Some(s) => if "/dev/"@.is_prefix_of(text::trimmed(s)) {
            Some(text::trimmed(s))
        } else {
            None
        },
        None => None,
    }
}

/// How often the terminal file is read before the panel goes on without it.
pub const TTY_READS: u32 = 24;

/// What to do after a read of the terminal file.
pub enum TtyStep {
    /// The client's terminal is known.
    Found(String),
    /// Wait a little and read again.
    Again,
    /// Go on without it.
    GiveUp,
}

/// Waiting for a client to name its terminal.
pub struct TtyWait {
    pub left: u32,
}

impl TtyWait {
    /// All the reads are still to come.
    pub fn new() -> (r: Self)
        ensures
            r.left == TTY_READS,
    {
        TtyWait { left: TTY_READS }
    }

    /// One read of the file, with what it held, if it could be read.
    pub fn read(&mut self, contents: Option<&str>) -> (r: TtyStep)
        requires
            old(self).left > 0,
        ensures
            final(self).left == old(self).left - 1,
            ({
                let named = tty_named(
                    match contents {
                        Some(s) => Some(s@),
                        None => None,
                    },
                );
                match r {
                    TtyStep::Found(tty) => named == Some(tty@),
                    TtyStep::Again => named is None && final(self).left > 0,
                    TtyStep::GiveUp => named is None && final(self).left == 0,
                }
            }),
    {
        self.left = self.left - 1;
        if let Some(s) = contents {
            let tty = trim(s);
            if starts_with(tty.as_str(), "/dev/") {
                return TtyStep::Found(tty);
            }
        }
        if self.left > 0 {
            TtyStep::Again
        } else {
            TtyStep::GiveUp
        }
    }
}

/// A failure to start a client, in words.
pub struct Failure {
    pub message: String,
}

/// The failure that these words tell.
pub fn err(message: &str) -> (r: Failure)
    ensures
        r.message@ == message@,
{
    Failure { message: message.to_owned() }
}

/// A client never gets smaller than four rows by twenty columns.
pub proof fn law_client_is_never_tiny(height: u16, width: u16, d: PtyDims)
    requires
        d.rows >= MIN_ROWS,
        d.cols >= MIN_COLS,
    ensures
        client_dims(height, width).rows >= 4,
        client_dims(height, width).cols >= 20,
        shrunk(d).rows >= 4,
        shrunk(d).cols >= 20,
{
}

/// Fitting a client gives it back the size that it had in the area before it shrank.
pub proof fn law_shrinking_is_undone(height: u16, width: u16)
    ensures
        fitted(shrunk(client_dims(height, width)), height, width) == client_dims(height, width),
{
}

/// A refresh repaints: in an area of at least five rows a client changes its size by
/// shrinking, and again by being fitted.
pub proof fn law_shrinking_repaints(height: u16, width: u16)
    requires
        height > MIN_ROWS,
    ensures
        shrunk(client_dims(height, width)) != client_dims(height, width),
        !fits(shrunk(client_dims(height, width)), height, width),
{
}

/// Shrinking and fitting a client again keeps the text in its cells, but for the rows
/// at the bottom that were lost in between.
pub proof fn law_shrinking_keeps_text(
    before: Map<(int, int), Seq<char>>,
    height: u16,
    width: u16,
    at: (int, int),
)
    requires
        before.dom() == grid(
            client_dims(height, width).rows as int,
            client_dims(height, width).cols as int,
        ),
        before.dom().contains(at),
    ensures
        ({
            let d = client_dims(height, width);
            let less = regridded(before, shrunk(d).rows as int, shrunk(d).cols as int);
            let again = regridded(less, d.rows as int, d.cols as int);
            &&& again.dom().contains(at)
            &&& at.0 < shrunk(d).rows ==> again[at] == before[at]
            &&& at.0 >= shrunk(d).rows ==> again[at] == Seq::<char>::empty()
        }),
{
}

/// Fitting a client twice into one area does no more than fitting it once.
pub proof fn law_fitting_settles(d: PtyDims, height: u16, width: u16)
    ensures
        fitted(fitted(d, height, width), height, width) == fitted(d, height, width),
{
}

/// A client is started at the size of its area: as many rows and as many columns, but no
/// fewer than four rows and twenty columns.
pub proof fn law_started_client_fills_its_area(pane: &Pane, rows: u16, cols: u16, r: SpawnPlan)
    requires
        call_ensures(spawn_embedded, (pane, rows, cols), r),
    ensures
        rows >= 4 ==> r.dims.rows == rows,
        rows < 4 ==> r.dims.rows == 4,
        cols >= 20 ==> r.dims.cols == cols,
        cols < 20 ==> r.dims.cols == 20,
{
}

/// A client that was fitted has the size of its area, but no fewer than four rows and
/// twenty columns, whatever size it had before. That is the size at which it would be
/// started.
pub proof fn law_fitted_client_fills_its_area(
    d: PtyDims,
    height: u16,
    width: u16,
    pane: &Pane,
    started: SpawnPlan,
)
    requires
        d.rows >= 4,
        d.cols >= 20,
        call_ensures(spawn_embedded, (pane, height, width), started),
    ensures
        height >= 4 ==> fitted(d, height, width).rows == height,
        height < 4 ==> fitted(d, height, width).rows == 4,
        width >= 20 ==> fitted(d, height, width).cols == width,
        width < 20 ==> fitted(d, height, width).cols == 20,
        fitted(d, height, width) == started.dims,
        fits(d, height, width) <==> d.rows == height && d.cols == width,
{
}

/// Shrinking takes two rows away, but leaves four, and leaves the columns alone.
pub proof fn law_shrinking_takes_two_rows(d: PtyDims)
    requires
        d.rows >= 4,
    ensures
        d.rows >= 6 ==> shrunk(d).rows == d.rows - 2,
        d.rows < 6 ==> shrunk(d).rows == 4,
        shrunk(d).cols == d.cols,
{
}

/// In a grid of another size there are just the places of that size. Those that there were
/// before keep their text, and the others are empty.
pub proof fn law_resizing_keeps_text_in_its_place(
    before: Map<(int, int), Seq<char>>,
    rows: int,
    cols: int,
    row: int,
    col: int,
)
    ensures
        regridded(before, rows, cols).dom().contains((row, col)) <==> 0 <= row < rows && 0 <= col
            < cols,
        0 <= row < rows && 0 <= col < cols && before.dom().contains((row, col)) ==> regridded(
            before,
            rows,
            cols,
        )[(row, col)] == before[(row, col)],
        0 <= row < rows && 0 <= col < cols && !before.dom().contains((row, col)) ==> regridded(
            before,
            rows,
            cols,
        )[(row, col)].len() == 0,
{
}

/// A client takes what it is fed as long as it has lost no columns and has at most 65527.
pub proof fn law_whole_clients_take_output(cut: bool, d: PtyDims)
    ensures
        takes_output(cut, d) <==> !cut && d.cols <= 65527,
{
}

/// A client is started for its pane: it is attached to the pane's session, in the pane's
/// window, by the script that the shell runs.
pub proof fn law_client_is_started_for_its_pane(
    pane: &Pane,
    rows: u16,
    cols: u16,
    r: SpawnPlan,
    file: &str,
    script: String,
    id: &str,
    named: String,
)
    requires
        call_ensures(spawn_embedded, (pane, rows, cols), r),
        call_ensures(attach_script, (pane, file), script),
        call_ensures(tty_file, (id,), named),
        file@ == r.tty_file@,
        id@ == pane.id@,
    ensures
        r.target.id@ == pane.id@,
        r.target.session@ == pane.session@,
        r.target.window@ == pane.window@,
        r.tty_file@ == named@,
        r.command@.len() == 3,
        r.command@[0]@ == "sh"@,
        r.command@[1]@ == "-c"@,
        r.command@[2]@ == script@,
{
    let c = text::texts(r.command@);
    assert(c.len() == r.command@.len());
    assert(c[0] == r.command@[0]@ && c[1] == r.command@[1]@ && c[2] == r.command@[2]@);
}

/// A command of the script that names a target, with what stands in front of it.
pub open spec fn on_target(command: Seq<char>, target: Seq<char>) -> Seq<char> {
    command + seq!['\''] + target + seq!['\'']
}

/// The script runs six commands one after another: it leaves the outer tmux, writes the
/// terminal's name to the file, selects the window, selects the pane, zooms in on it unless
/// it is zoomed, and turns into a client of the session.
pub proof fn law_script_attaches_to_the_pane(pane: &Pane, file: &str, r: String)
    requires
        call_ensures(attach_script, (pane, file), r),
    ensures
        r@ == "unset TMUX; "@ + on_target("tty > "@, file@) + "; "@ + on_target(
            "tmux select-window -t "@,
            pane.window@,
        ) + "; "@ + on_target("tmux select-pane -t "@, pane.id@) + "; [ \"$("@ + on_target(
            "tmux display -pt "@,
            pane.id@,
        ) + " '#{window_zoomed_flag}')\" = 1 ] || "@ + on_target(
            "tmux resize-pane -Z -t "@,
            pane.id@,
        ) + "; "@ + on_target("exec tmux attach -t "@, pane.session@),
{
    reveal_strlit("unset TMUX; ");
    reveal_strlit("tty > ");
    reveal_strlit("; ");
    reveal_strlit("tmux select-window -t ");
    reveal_strlit("tmux select-pane -t ");
    reveal_strlit("; [ \"$(");
    reveal_strlit("tmux display -pt ");
    reveal_strlit(" '#{window_zoomed_flag}')\" = 1 ] || ");
    reveal_strlit("tmux resize-pane -Z -t ");
    reveal_strlit("exec tmux attach -t ");
    reveal_strlit("unset TMUX; tty > '");
    reveal_strlit("'; tmux select-window -t '");
    reveal_strlit("'; tmux select-pane -t '");
    reveal_strlit("'; [ \"$(tmux display -pt '");
    reveal_strlit("' '#{window_zoomed_flag}')\" = 1 ] || tmux resize-pane -Z -t '");
    reveal_strlit("'; exec tmux attach -t '");
    reveal_strlit("'");
    let q = seq!['\''];
    assert("'"@ == q);
    assert("unset TMUX; tty > '"@ == "unset TMUX; "@ + "tty > "@ + q);
    assert("'; tmux select-window -t '"@ == q + "; "@ + "tmux select-window -t "@ + q);
    assert("'; tmux select-pane -t '"@ == q + "; "@ + "tmux select-pane -t "@ + q);
    assert("'; [ \"$(tmux display -pt '"@ == q + "; [ \"$("@ + "tmux display -pt "@ + q);
    assert("' '#{window_zoomed_flag}')\" = 1 ] || tmux resize-pane -Z -t '"@ == q
        + " '#{window_zoomed_flag}')\" = 1 ] || "@ + "tmux resize-pane -Z -t "@ + q);
    assert("'; exec tmux attach -t '"@ == q + "; "@ + "exec tmux attach -t "@ + q);
    let w = pane.window@;
    let id = pane.id@;
    let s = pane.session@;
    let a = "unset TMUX; "@ + on_target("tty > "@, file@);
    let b = "; "@ + on_target("tmux select-window -t "@, w);
    let c = "; "@ + on_target("tmux select-pane -t "@, id);
    let d = "; [ \"$("@ + on_target("tmux display -pt "@, id);
    let e = " '#{window_zoomed_flag}')\" = 1 ] || "@ + on_target("tmux resize-pane -Z -t "@, id);
    let f = "; "@ + on_target("exec tmux attach -t "@, s);
    assert("unset TMUX; tty > '"@ + file@ + q == a);
    assert("unset TMUX; tty > '"@ + file@ + "'; tmux select-window -t '"@ + w + q == a + b);
    assert("unset TMUX; tty > '"@ + file@ + "'; tmux select-window -t '"@ + w
        + "'; tmux select-pane -t '"@ + id + q == a + b + c);
    assert("unset TMUX; tty > '"@ + file@ + "'; tmux select-window -t '"@ + w
        + "'; tmux select-pane -t '"@ + id + "'; [ \"$(tmux display -pt '"@ + id + q == a + b + c
        + d);
    assert("unset TMUX; tty > '"@ + file@ + "'; tmux select-window -t '"@ + w
        + "'; tmux select-pane -t '"@ + id + "'; [ \"$(tmux display -pt '"@ + id
        + "' '#{window_zoomed_flag}')\" = 1 ] || tmux resize-pane -Z -t '"@ + id + q == a + b + c + d
        + e);
    assert(r@ == a + b + c + d + e + f);
}

/// The file of a client's terminal is named after its pane, without percent signs: one in
/// the id, wherever it stands, makes no difference.
pub proof fn law_tty_file_is_named_by_the_pane(
    id: &str,
    r: String,
    front: Seq<char>,
    back: Seq<char>,
    other: &str,
    ro: String,
)
    requires
        call_ensures(tty_file, (id,), r),
        call_ensures(tty_file, (other,), ro),
        id@ == front + seq!['%'] + back,
        other@ == front + back,
    ensures
        r@ == ro@,
        !other@.contains('%') ==> ro@ == "/tmp/ccview-"@ + other@ + ".tty"@,
{
    let pred = |c: char| c != '%';
    let mark = seq!['%'];
    assert(mark.filter(pred) == Seq::<char>::empty()) by {
        reveal_with_fuel(Seq::filter, 2);
        assert(mark.drop_last() == Seq::<char>::empty());
    }
    Seq::filter_distributes_over_add(front, mark, pred);
    Seq::filter_distributes_over_add(front + mark, back, pred);
    Seq::filter_distributes_over_add(front, back, pred);
    assert(id@.filter(pred) == other@.filter(pred));
    if !other@.contains('%') {
        assert forall|i: int| 0 <= i < other@.len() implies other@[i] != '%' by {
            assert(other@.contains(other@[i]));
        }
        lemma_filter_keeps_all(other@);
    }
}

proof fn lemma_filter_keeps_all(s: Seq<char>)
    requires
        forall|i: int| 0 <= i < s.len() ==> s[i] != '%',
    ensures
        s.filter(|c: char| c != '%') == s,
    decreases s.len(),
{
    reveal_with_fuel(Seq::filter, 1);
    if s.len() > 0 {
        lemma_filter_keeps_all(s.drop_last());
        assert(s.drop_last().push(s.last()) == s);
    }
}

/// A terminal is named by a text that starts with `/dev/`, but for the white space around
/// it, and by no other. There are 24 reads to wait for one.
pub proof fn law_terminals_are_devices(contents: Seq<char>, wait: TtyWait)
    requires
        call_ensures(TtyWait::new, (), wait),
    ensures
        tty_named(None) is None,
        ({
            let s = text::trimmed(contents);
            if s.len() >= 5 && s[0] == '/' && s[1] == 'd' && s[2] == 'e' && s[3] == 'v' && s[4]
                == '/' {
                tty_named(Some(contents)) == Some(s)
            } else {
                tty_named(Some(contents)) is None
            }
        }),
        wait.left == 24,
{
    reveal_strlit("/dev/");
    let dev = "/dev/"@;
    let s = text::trimmed(contents);
    assert(dev.len() == 5);
    if s.len() >= 5 {
        if s[0] == '/' && s[1] == 'd' && s[2] == 'e' && s[3] == 'v' && s[4] == '/' {
            assert(dev == s.subrange(0, 5));
        } else if dev.is_prefix_of(s) {
            assert(s.subrange(0, 5)[0] == s[0] && s.subrange(0, 5)[1] == s[1] && s.subrange(
                0,
                5,
            )[2] == s[2] && s.subrange(0, 5)[3] == s[3] && s.subrange(0, 5)[4] == s[4]);
        }
    }
}

/// A target is a pane's just where id, session and window are the same.
pub proof fn law_targets_are_told_apart(pane: &Pane, other: &Pane, t: Target, r: bool)
    requires
        call_ensures(Target::of, (pane,), t),
        call_ensures(Target::is_of, (&t, other), r),
    ensures
        t.id@ == pane.id@,
        t.session@ == pane.session@,
        t.window@ == pane.window@,
        r == (pane.id@ == other.id@ && pane.session@ == other.session@ && pane.window@
            == other.window@),
{
}

/// After a fit the client has the size of its area, but no fewer than four rows and twenty
/// columns, and the PTY is told so unless it had that size. The text in the places that it
/// still has stays, and the client stays the pane's.
pub proof fn law_fit_makes_the_client_fill_its_area(
    e: &mut Embedded,
    inner: Area,
    r: Option<PtyDims>,
    row: int,
    col: int,
)
    requires
        old(e).wf(),
        call_ensures(Embedded::fit, (e, inner), r),
    ensures
        inner.height >= 4 ==> final(e).rows == inner.height,
        inner.height < 4 ==> final(e).rows == 4,
        inner.width >= 20 ==> final(e).cols == inner.width,
        inner.width < 20 ==> final(e).cols == 20,
        old(e).rows == inner.height && old(e).cols == inner.width ==> r is None,
        old(e).rows != inner.height || old(e).cols != inner.width ==> (r matches Some(d) && d.rows
            == final(e).rows && d.cols == final(e).cols),
        0 <= row < old(e).rows && 0 <= col < old(e).cols && row < final(e).rows && col
            < final(e).cols ==> cells(final(e).emulator)[(row, col)] == cells(old(e).emulator)[(
            row,
            col,
        )],
        final(e).target@ == old(e).target@,
        final(e).tty@ == old(e).tty@,
        final(e).status_top == old(e).status_top,
{
    assert(cells(old(e).emulator).dom() == grid(old(e).rows as int, old(e).cols as int));
}

/// Shrinking takes two rows from the client, but leaves four, and tells the PTY so. The text
/// in the rows that are left stays, and the client stays the pane's.
pub proof fn law_shrink_takes_two_rows(e: &mut Embedded, r: PtyDims, row: int, col: int)
    requires
        old(e).wf(),
        call_ensures(Embedded::shrink, (e,), r),
    ensures
        old(e).rows >= 6 ==> final(e).rows == old(e).rows - 2,
        old(e).rows < 6 ==> final(e).rows == 4,
        final(e).cols == old(e).cols,
        r.rows == final(e).rows,
        r.cols == final(e).cols,
        0 <= row < final(e).rows && 0 <= col < final(e).cols ==> cells(final(e).emulator)[(row, col)]
            == cells(old(e).emulator)[(row, col)],
        final(e).target@ == old(e).target@,
        final(e).tty@ == old(e).tty@,
        final(e).status_top == old(e).status_top,
{
    assert(cells(old(e).emulator).dom() == grid(old(e).rows as int, old(e).cols as int));
}

/// A new client is empty, of the size that it is given, and attached to what it is given.
pub proof fn law_new_client_is_empty(
    dims: PtyDims,
    status_top: bool,
    tty: String,
    target: Target,
    r: Embedded,
    row: int,
    col: int,
)
    requires
        dims.rows >= 4,
        dims.cols >= 20,
        call_ensures(Embedded::new, (dims, status_top, tty, target), r),
    ensures
        r.rows == dims.rows,
        r.cols == dims.cols,
        r.status_top == status_top,
        r.tty@ == tty@,
        r.target@ == target@,
        0 <= row < dims.rows && 0 <= col < dims.cols ==> cells(r.emulator)[(row, col)].len() == 0,
{
}

/// A read of the terminal file finds the terminal just where the file names a device. Else
/// there is another read, until none is left.
pub proof fn law_reads_find_a_device(w: &mut TtyWait, contents: Option<&str>, r: TtyStep)
    requires
        old(w).left > 0,
        call_ensures(TtyWait::read, (w, contents), r),
    ensures
        final(w).left == old(w).left - 1,
        r is Found <==> (contents matches Some(s) && "/dev/"@.is_prefix_of(text::trimmed(s@))),
        r matches TtyStep::Found(tty) ==> tty@ == text::trimmed(contents->0@),
        r is Again ==> old(w).left > 1,
        r is GiveUp ==> old(w).left == 1,
{
}

} // verus!
