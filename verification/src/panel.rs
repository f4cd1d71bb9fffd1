//! The panel itself: what it remembers between two frames, and what it does about the
//! time and about events.

use vstd::prelude::*;

use crate::embed;
use crate::embed::{Embedded, PtyDims};
use crate::keys;
use crate::keys::{key_to_bytes, Key, KeyCode};
use crate::layout;
use crate::layout::{status_row, Area, RowSpan};
use crate::paint;
use crate::paint::{entries, help_lines, title, Entry, Segment};
use crate::pane;
use crate::pane::{refresh_panes, Pane};
use crate::selection;
use crate::selection::{step, Selection};
use crate::status;
use crate::status::StatusFile;
use crate::text;
use crate::tmux;
use crate::tmux::{go_to, scroll};

verus! {

/// The list is refreshed this often, in nanoseconds.
pub const REFRESH_EVERY: i128 = 300_000_000;

/// The selection has to stay for this long, in nanoseconds, before its pane is
/// attached.
pub const SETTLE: i128 = 150_000_000;

/// The first pane is attached as if it had been selected this long ago.
pub const HEAD_START: i128 = 1_000_000_000;

/// What the panel remembers. Times are nanoseconds since it started.
pub struct Panel {
    pub panes: Vec<Pane>,
    pub selection: Selection,
    pub mouse_on: bool,
    pub started: bool,
    /// When the selection last changed, while its pane is not attached yet. Where a
    /// refresh has put another pane in its place, it seems to have settled already.
    pub pending_switch: Option<i128>,
    /// When the list was last refreshed.
    pub last_list: i128,
    pub embedded: Option<Embedded>,
}

/// What the panel remembers of the embedded client.
#[verifier::ext_equal]
pub struct ClientView {
    pub cells: Map<(int, int), Seq<char>>,
    pub dims: PtyDims,
    pub status_top: bool,
    pub tty: Seq<char>,
    pub target: embed::TargetView,
    pub cut: bool,
}

/// What the panel remembers, as the contracts see it.
#[verifier::ext_equal]
pub struct PanelView {
    pub panes: Seq<pane::PaneView>,
    pub selection: Selection,
    pub mouse_on: bool,
    pub started: bool,
    pub pending_switch: Option<int>,
    pub last_list: int,
    pub client: Option<ClientView>,
}

/// The client as the contracts see it.
pub open spec fn client_view(e: Embedded) -> ClientView {
    ClientView {
        cells: embed::cells(e.emulator),
        dims: e.dims(),
        status_top: e.status_top,
        tty: e.tty@,
        target: e.target@,
        cut: e.cut,
    }
}

impl View for Panel {
    type V = PanelView;

    open spec fn view(&self) -> PanelView {
        PanelView {
            panes: pane::panes_view(self.panes@),
            selection: self.selection,
            mouse_on: self.mouse_on,
            started: self.started,
            pending_switch: match self.pending_switch {
                Some(t) => Some(t as int),
                None => None,
            },
            last_list: self.last_list as int,
            client: match self.embedded {
                Some(e) => Some(client_view(e)),
                None => None,
            },
        }
    }
}

impl PanelView {
    /// The selected pane, if there is one.
    pub open spec fn selected_pane(self) -> Option<pane::PaneView> {
        match self.selection.index {
            Some(i) => if i < self.panes.len() {
                Some(self.panes[i as int])
            } else {
                None
            },
            None => None,
        }
    }

    /// What a client for the selected pane is attached to.
    pub open spec fn selected_target(self) -> Option<embed::TargetView> {
        match self.selected_pane() {
            Some(p) => Some(embed::target_of(p)),
            None => None,
        }
    }

    /// What the client is attached to, if there is one.
    pub open spec fn attached(self) -> Option<embed::TargetView> {
        match self.client {
            Some(c) => Some(c.target),
            None => None,
        }
    }

    /// The selected pane has a place in the list.
    pub open spec fn selects_listed(self) -> bool {
        selection::within(self.selection, self.panes.len() as int)
    }

    /// The client is the selected pane's, unless a switch is pending.
    pub open spec fn shows_selected(self) -> bool {
        self.client is Some && self.pending_switch is None ==> self.selected_target() is Some
            && self.attached() == self.selected_target()
    }
}

/// A time that `now` counts, or the head start before the first.
pub open spec fn on_clock(t: i128) -> bool {
    -HEAD_START <= t <= u64::MAX
}

/// The panel before its first frame.
pub open spec fn fresh(panes: Seq<pane::PaneView>, now: int) -> PanelView {
    PanelView {
        panes,
        selection: Selection { index: if panes.len() > 0 { Some(0usize) } else { None } },
        mouse_on: true,
        started: false,
        pending_switch: None,
        last_list: now,
        client: None,
    }
}

/// The panel with a switch pending, if the client is not the selected pane's and no
/// switch is pending yet. Nobody is moving the selection then, so that it counts as
/// settled at `now`.
pub open spec fn following(v: PanelView, now: int) -> PanelView {
    if v.pending_switch is None && v.attached() != v.selected_target() {
        PanelView { pending_switch: Some(now - SETTLE), ..v }
    } else {
        v
    }
}

/// The panel with a new list: the selection falls back to the first pane where the
/// list has become too short for it, or none is left. Where another pane is selected
/// by that, the client has to follow.
pub open spec fn with_panes(v: PanelView, panes: Seq<pane::PaneView>, now: int) -> PanelView {
    following(
        PanelView {
            panes,
            selection: if selection::current(v.selection) >= panes.len() {
                Selection { index: if panes.len() > 0 { Some(0usize) } else { None } }
            } else {
                v.selection
            },
            last_list: now,
            ..v
        },
        now,
    )
}

/// The panel with a client that was attached.
pub open spec fn with_client(v: PanelView, client: ClientView, now: int) -> PanelView {
    following(PanelView { client: Some(client), ..v }, now)
}

/// What to do about the embedded client.
pub enum Attach {
    /// Leave it as it is.
    Wait,
    /// Close it: no pane is selected.
    Close,
    /// Attach one to the pane with this place in the list.
    Open(usize),
}

/// Since when the selection waits for its pane to be attached. At the start it seems
/// to have waited long enough already.
pub open spec fn waiting_since(v: PanelView, now: int) -> Option<int> {
    if v.started {
        v.pending_switch
    } else {
        Some(now - HEAD_START)
    }
}

/// Whether the selection has settled, so that its pane is to be attached.
pub open spec fn settled(v: PanelView, now: int) -> bool {
    waiting_since(v, now) matches Some(t) && now - t >= SETTLE
}

/// What to do about the embedded client at this time.
pub open spec fn attach_at(v: PanelView, now: int) -> Attach {
    if settled(v, now) {
        match (v.selection.index, v.selected_pane()) {
            (Some(i), Some(_)) => Attach::Open(i),
            _ => Attach::Close,
        }
    } else {
        Attach::Wait
    }
}

/// The panel after it has looked at the time. When the selection has settled, the client
/// that there was makes room.
pub open spec fn after_attach(v: PanelView, now: int) -> PanelView {
    PanelView {
        started: true,
        pending_switch: if settled(v, now) { None } else { waiting_since(v, now) },
        client: if settled(v, now) { None } else { v.client },
        ..v
    }
}

/// Something that the terminal reports.
pub enum Event {
    /// A key, and whether it was pressed rather than repeated or released.
    Key { key: Key, press: bool },
    /// The wheel was turned.
    Wheel { up: bool },
    /// Anything else.
    Other,
}

/// What to do about an event.
pub enum Action {
    /// Nothing.
    Idle,
    /// End the program.
    Quit,
    /// Run these tmux commands.
    Tmux(Vec<Vec<String>>),
    /// Restart the session in the pane `id`, which works in `path`.
    Restart { id: String, path: String, dangerous: bool },
    /// Give the PTY this size, if there is one, and clear the terminal.
    Repaint(Option<PtyDims>),
    /// Report mouse events, or stop doing so.
    Mouse(bool),
    /// Write these bytes to the PTY, and then set the status of the interrupted pane,
    /// if any, to idle.
    Forward { bytes: Vec<u8>, interrupted: Option<String> },
}

/// What to do about an event, as the contracts see it.
pub enum ActionView {
    Idle,
    Quit,
    Tmux(Seq<Seq<Seq<char>>>),
    Restart { id: Seq<char>, path: Seq<char>, dangerous: bool },
    Repaint(Option<PtyDims>),
    Mouse(bool),
    Forward { bytes: Seq<u8>, interrupted: Option<Seq<char>> },
}

impl View for Action {
    type V = ActionView;

    open spec fn view(&self) -> ActionView {
        match *self {
            Action::Idle => ActionView::Idle,
            Action::Quit => ActionView::Quit,
            Action::Tmux(commands) => ActionView::Tmux(tmux::commands_view(commands@)),
            Action::Restart { id, path, dangerous } => ActionView::Restart {
                id: id@,
                path: path@,
                dangerous,
            },
            Action::Repaint(dims) => ActionView::Repaint(dims),
            Action::Mouse(on) => ActionView::Mouse(on),
            Action::Forward { bytes, interrupted } => ActionView::Forward {
                bytes: bytes@,
                interrupted: text::option_view(interrupted),
            },
        }
    }
}

/// Ctrl and the character `c`.
pub open spec fn ctrl_char(key: Key, c: char) -> bool {
    key.ctrl && key.code == KeyCode::Char(c)
}

/// The keys that quit.
pub open spec fn is_quit(key: Key) -> bool {
    ctrl_char(key, 'q')
}

/// The keys that move the selection.
pub open spec fn is_switch(key: Key) -> bool {
    key.ctrl && (key.code == KeyCode::Up || key.code == KeyCode::Down)
}

/// The keys that go to the selected pane.
pub open spec fn is_go_to(key: Key) -> bool {
    ctrl_char(key, 'g')
}

/// The keys that restart a session.
pub open spec fn is_restart(key: Key) -> bool {
    key.code == KeyCode::F(6) || key.code == KeyCode::F(7)
}

/// The keys that repaint.
pub open spec fn is_refresh(key: Key) -> bool {
    key.code == KeyCode::F(5) || ctrl_char(key, 'l') || ctrl_char(key, 'L')
}

/// The keys that switch the mouse on and off.
pub open spec fn is_mouse_toggle(key: Key) -> bool {
    key.code == KeyCode::F(2)
}

/// The keys that the panel keeps for itself.
pub open spec fn is_shortcut(key: Key) -> bool {
    ||| is_quit(key)
    ||| is_switch(key)
    ||| is_go_to(key)
    ||| is_restart(key)
    ||| is_refresh(key)
    ||| is_mouse_toggle(key)
}

/// What a pressed key does.
pub open spec fn key_action(v: PanelView, key: Key) -> ActionView {
    if is_quit(key) {
        ActionView::Quit
    } else if is_switch(key) {
        ActionView::Idle
    } else if is_go_to(key) {
        match v.selected_pane() {
            Some(p) => ActionView::Tmux(tmux::go_to_commands(p.session, p.window, p.id)),
            None => ActionView::Idle,
        }
    } else if is_restart(key) {
        match v.selected_pane() {
            Some(p) => ActionView::Restart {
                id: p.id,
                path: p.path,
                dangerous: key.code == KeyCode::F(7),
            },
            None => ActionView::Idle,
        }
    } else if is_refresh(key) {
        ActionView::Repaint(
            match v.client {
                Some(c) => Some(embed::shrunk(c.dims)),
                None => None,
            },
        )
    } else if is_mouse_toggle(key) {
        ActionView::Mouse(!v.mouse_on)
    } else if v.client is Some {
        ActionView::Forward {
            bytes: keys::key_bytes(key),
            interrupted: match (key.code, v.selected_pane()) {
                (KeyCode::Esc, Some(p)) => Some(p.id),
                _ => None,
            },
        }
    } else {
        ActionView::Idle
    }
}

/// The client with another size.
pub open spec fn resized_client(c: ClientView, dims: PtyDims) -> ClientView {
    ClientView {
        cells: embed::regridded(c.cells, dims.rows as int, dims.cols as int),
        dims,
        cut: c.cut || dims.cols < c.dims.cols,
        ..c
    }
}

/// The client after a repaint.
pub open spec fn shrunk_client(c: ClientView) -> ClientView {
    resized_client(c, embed::shrunk(c.dims))
}

/// The panel after a key was pressed.
pub open spec fn after_key(v: PanelView, key: Key, now: int) -> PanelView {
    if is_quit(key) {
        v
    } else if is_switch(key) {
        PanelView {
            selection: selection::stepped(
                v.selection,
                v.panes.len() as int,
                if key.code == KeyCode::Up { -1int } else { 1int },
            ),
            pending_switch: Some(now),
            ..v
        }
    } else if is_refresh(key) {
        PanelView {
            client: match v.client {
                Some(c) => Some(shrunk_client(c)),
                None => None,
            },
            ..v
        }
    } else if is_mouse_toggle(key) {
        PanelView { mouse_on: !v.mouse_on, ..v }
    } else {
        v
    }
}

/// What an event does.
pub open spec fn event_action(v: PanelView, event: Event) -> ActionView {
    match event {
        Event::Key { key, press } => if press {
            key_action(v, key)
        } else {
            ActionView::Idle
        },
        Event::Wheel { up } => match v.selected_pane() {
            Some(p) => ActionView::Tmux(tmux::scroll_commands(p.id, up)),
            None => ActionView::Idle,
        },
        Event::Other => ActionView::Idle,
    }
}

/// The panel after an event.
pub open spec fn after_event(v: PanelView, event: Event, now: int) -> PanelView {
    match event {
        Event::Key { key, press } => if press {
            after_key(v, key, now)
        } else {
            v
        },
        _ => v,
    }
}

/// The client after it was fitted into an area.
pub open spec fn fitted_client(c: ClientView, inner: Area) -> ClientView {
    resized_client(c, embed::fitted(c.dims, inner.height, inner.width))
}

/// What is drawn in one frame.
pub struct Frame {
    /// The entries of the list.
    pub entries: Vec<Entry>,
    /// The lines of the help box.
    pub help: Vec<Segment>,
    /// The title of the right panel.
    pub title: Vec<Segment>,
    /// The cells of the session that are blanked.
    pub blank: Option<RowSpan>,
}

/// What is drawn in one frame, as the contracts see it.
#[verifier::ext_equal]
pub struct FrameView {
    pub entries: Seq<paint::EntryView>,
    pub help: Seq<paint::SegmentView>,
    pub title: Seq<paint::SegmentView>,
    pub blank: Option<RowSpan>,
}

impl View for Frame {
    type V = FrameView;

    open spec fn view(&self) -> FrameView {
        FrameView {
            entries: paint::entries_view(self.entries@),
            help: paint::line_view(self.help@),
            title: paint::line_view(self.title@),
            blank: self.blank,
        }
    }
}

/// What the panel shows.
pub open spec fn frame_of(v: PanelView, tick: u128, inner: Area) -> FrameView {
    FrameView {
        entries: v.panes.map_values(|p: pane::PaneView| paint::entry_of(p, tick)),
        help: paint::help_texts().map_values(|s: Seq<char>| paint::dimmed(s)),
        title: paint::title_of(v.selected_pane(), tick),
        blank: match v.client {
            Some(c) => layout::status_row_of(inner, c.status_top),
            None => None,
        },
    }
}

impl Panel {
    /// The selection has its place in the list, the times are on the clock, and the
    /// client is not too small.
    pub open spec fn sound(&self) -> bool {
        &&& self@.selects_listed()
        &&& on_clock(self.last_list)
        &&& self.pending_switch matches Some(t) ==> on_clock(t)
        &&& self.embedded matches Some(e) ==> e.wf()
    }

    /// The parts are sound, and the client is the selected pane's unless a switch is
    /// pending.
    pub open spec fn wf(&self) -> bool {
        &&& self.sound()
        &&& self@.shows_selected()
    }

    /// The panel before its first frame, with the list as it was read at `now`.
    pub fn new(panes: Vec<Pane>, now: u64) -> (r: Self)
        ensures
            r.wf(),
            r@ == fresh(pane::panes_view(panes@), now as int),
    {
        let index = if panes.len() > 0 {
            Some(0usize)
        } else {
            None
        };
        Panel {
            panes,
            selection: Selection { index },
            mouse_on: true,
            started: false,
            pending_switch: None,
            last_list: now as i128,
            embedded: None,
        }
    }

    /// The selected pane.
    pub fn selected_pane(&self) -> (r: Option<&Pane>)
        ensures
            (match r {
                Some(p) => Some(p@),
                None => None,
            }) == self@.selected_pane(),
    {
        match self.selection.index {
            Some(i) => if i < self.panes.len() {
                Some(&self.panes[i])
            } else {
                None
            },
            None => None,
        }
    }

    /// Whether it is time to read the list anew.
    pub fn refresh_due(&self, now: u64) -> (r: bool)
        requires
            self.wf(),
        ensures
            r == (now - self@.last_list >= REFRESH_EVERY),
    {
        now as i128 - self.last_list >= REFRESH_EVERY
    }

    /// Makes a switch pending where the client is not the selected pane's.
    fn follow(&mut self, now: u64)
        requires
            old(self).sound(),
        ensures
            final(self).wf(),
            final(self)@ == following(old(self)@, now as int),
    {
        if self.pending_switch.is_none() {
            let shown = match (&self.embedded, self.selected_pane()) {
                (Some(e), Some(p)) => e.target.is_of(p),
                (None, None) => true,
                _ => false,
            };
            if !shown {
                self.pending_switch = Some(now as i128 - SETTLE);
            }
        }
    }

    /// Takes over a list that was read at `now`.
    pub fn set_panes(&mut self, panes: Vec<Pane>, now: u64)
        requires
            old(self).wf(),
        ensures
            final(self).wf(),
            final(self)@ == with_panes(old(self)@, pane::panes_view(panes@), now as int),
    {
        let current: usize = match self.selection.index {
            Some(i) => i,
            None => 0,
        };
        if current >= panes.len() {
            let index = if panes.len() > 0 {
                Some(0usize)
            } else {
                None
            };
            self.selection = Selection { index };
        }
        self.panes = panes;
        self.last_list = now as i128;
        self.follow(now);
    }

    /// Refreshes the list from what tmux printed and the status files tell.
    pub fn refresh(
        &mut self,
        listing: Option<&[u8]>,
        own: &Option<String>,
        files: &Vec<StatusFile>,
        all: Option<&[u8]>,
        now: u64,
    )
        requires
            old(self).wf(),
        ensures
            final(self).wf(),
            final(self)@ == with_panes(
                old(self)@,
                pane::refreshed(
                    old(self)@.panes,
                    listing,
                    text::option_view(*own),
                    status::files_view(files@),
                    pane::alive_ids(all),
                ),
                now as int,
            ),
    {
        let panes = refresh_panes(&self.panes, listing, own, files, all);
        self.set_panes(panes, now);
    }

    /// Looks at the time: whether the selected pane is to be attached now.
    pub fn attach_due(&mut self, now: u64) -> (r: Attach)
        requires
            old(self).wf(),
        ensures
            final(self).wf(),
            final(self)@ == after_attach(old(self)@, now as int),
            r == attach_at(old(self)@, now as int),
    {
        if !self.started {
            self.started = true;
            self.pending_switch = Some(now as i128 - HEAD_START);
        }
        if let Some(t) = self.pending_switch {
            if now as i128 - t >= SETTLE {
                self.pending_switch = None;
                self.embedded = None;
                match self.selection.index {
                    Some(i) => {
                        if i < self.panes.len() {
                            return Attach::Open(i);
                        }
                    },
                    None => {},
                }
                return Attach::Close;
            }
        }
        Attach::Wait
    }

    /// Takes over a client that was attached. Should it not be the selected pane's, a
    /// switch is pending.
    pub fn attached(&mut self, client: Embedded, now: u64)
        requires
            old(self).wf(),
            client.wf(),
        ensures
            final(self).wf(),
            final(self)@ == with_client(old(self)@, client_view(client), now as int),
    {
        self.embedded = Some(client);
        self.follow(now);
    }

    /// Fits the client into its area. Where that changes its size, the PTY has to
    /// follow.
    pub fn fit(&mut self, inner: Area) -> (r: Option<PtyDims>)
        requires
            old(self).wf(),
        ensures
            final(self).wf(),
            final(self)@ == (PanelView {
                client: match old(self)@.client {
                    Some(c) => Some(fitted_client(c, inner)),
                    None => None,
                },
                ..old(self)@
            }),
            r == match old(self)@.client {
                Some(c) => if embed::fits(c.dims, inner.height, inner.width) {
                    None
                } else {
                    Some(embed::client_dims(inner.height, inner.width))
                },
                None => None,
            },
    {
        match &mut self.embedded {
            Some(e) => e.fit(inner),
            None => None,
        }
    }

    /// Shows what the client printed. The answer is `false`, and nothing is done, where
    /// there is no client or its emulator could not take it for sure.
    pub fn feed(&mut self, bytes: &[u8]) -> (r: bool)
        requires
            old(self).wf(),
        ensures
            final(self).wf(),
            r == (old(self)@.client matches Some(c) && embed::takes_output(c.cut, c.dims)),
            r ==> final(self)@ == (PanelView {
                client: Some(
                    ClientView {
                        cells: embed::fed(old(self).embedded->0.emulator, bytes@),
                        ..old(self)@.client->0
                    },
                ),
                ..old(self)@
            }),
            !r ==> *final(self) == *old(self),
    {
        match &mut self.embedded {
            Some(e) => e.feed(bytes),
            None => false,
        }
    }

    /// What to draw, `tick` milliseconds after the start, with the session in `inner`.
    pub fn frame(&self, tick: u128, inner: Area) -> (r: Frame)
        requires
            inner.wf(),
        ensures
            r@ == frame_of(self@, tick, inner),
    {
        let blank = match &self.embedded {
            Some(e) => status_row(inner, e.status_top),
            None => None,
        };
        Frame {
            entries: entries(&self.panes, tick),
            help: help_lines(),
            title: title(self.selected_pane(), tick),
            blank,
        }
    }

    /// What to do about a pressed key.
    fn on_key(&mut self, key: Key, now: u64) -> (r: Action)
        requires
            old(self).wf(),
        ensures
            final(self).wf(),
            final(self)@ == after_key(old(self)@, key, now as int),
            r@ == key_action(old(self)@, key),
    {
        if key.ctrl && key.code == KeyCode::Char('q') {
            return Action::Quit;
        }
        if key.ctrl && (key.code == KeyCode::Up || key.code == KeyCode::Down) {
            let delta: isize = if key.code == KeyCode::Up {
                -1
            } else {
                1
            };
            let len = self.panes.len();
            proof {
                if len > 0 {
                    selection::law_step_stays_within(self.selection, len as int, delta as int);
                }
            }
            step(&mut self.selection, len, delta);
            self.pending_switch = Some(now as i128);
            return Action::Idle;
        }
        if key.ctrl && key.code == KeyCode::Char('g') {
            return match self.selected_pane() {
                Some(p) => Action::Tmux(go_to(p)),
                None => Action::Idle,
            };
        }
        if key.code == KeyCode::F(6) || key.code == KeyCode::F(7) {
            let dangerous = key.code == KeyCode::F(7);
            return match self.selected_pane() {
                Some(p) => Action::Restart { id: p.id.clone(), path: p.path.clone(), dangerous },
                None => Action::Idle,
            };
        }
        if key.code == KeyCode::F(5) || (key.ctrl && (key.code == KeyCode::Char('l') || key.code
            == KeyCode::Char('L'))) {
            let dims = match &mut self.embedded {
                Some(e) => Some(e.shrink()),
                None => None,
            };
            return Action::Repaint(dims);
        }
        if key.code == KeyCode::F(2) {
            self.mouse_on = !self.mouse_on;
            return Action::Mouse(self.mouse_on);
        }
        if self.embedded.is_some() {
            let interrupted = if key.code == KeyCode::Esc {
                match self.selected_pane() {
                    Some(p) => Some(p.id.clone()),
                    None => None,
                }
            } else {
                None
            };
            return Action::Forward { bytes: key_to_bytes(key), interrupted };
        }
        Action::Idle
    }

    /// What to do about an event.
    pub fn on_event(&mut self, event: Event, now: u64) -> (r: Action)
        requires
            old(self).wf(),
        ensures
            final(self).wf(),
            final(self)@ == after_event(old(self)@, event, now as int),
            r@ == event_action(old(self)@, event),
    {
        match event {
            Event::Key { key, press } => {
                if press {
                    self.on_key(key, now)
                } else {
                    Action::Idle
                }
            },
            Event::Wheel { up } => match self.selected_pane() {
                Some(p) => Action::Tmux(scroll(p.id.as_str(), up)),
                None => Action::Idle,
            },
            Event::Other => Action::Idle,
        }
    }
}

/// Ctrl-D never reaches the pane, whatever the event.
pub proof fn law_never_forwards_eot(v: PanelView, event: Event)
    ensures
        event_action(v, event) matches ActionView::Forward { bytes, .. } ==> !bytes.contains(
            keys::EOT,
        ),
{
    if let Event::Key { key, press } = event {
        keys::law_never_sends_eot(key);
    }
}

/// While a client is attached, every pressed key that is no shortcut is forwarded to
/// it, and nothing else is. Something is sent for each of them but Ctrl-D, if the key has
/// bytes to send at all.
pub proof fn law_other_keys_are_forwarded(v: PanelView, event: Event)
    requires
        v.client is Some,
    ensures
        event_action(v, event) is Forward <==> (event matches Event::Key { key, press } && press
            && !is_shortcut(key)),
        event matches Event::Key { key, press } ==> (press && !is_shortcut(key) ==> (event_action(
            v,
            event,
        ) matches ActionView::Forward { bytes, .. } && bytes == keys::key_bytes(key) && (bytes.len()
            > 0 <==> keys::has_bytes(key.code) && !keys::is_ctrl_d(key)))),
{
    if let Event::Key { key, press } = event {
        keys::law_keys_are_sent(key);
    }
}

/// The function keys that send nothing for the panel's sake are shortcuts.
pub proof fn law_own_function_keys_are_shortcuts(n: u8, ctrl: bool)
    ensures
        keys::is_own_function(n) <==> is_shortcut(Key { code: KeyCode::F(n), ctrl }),
{
}

/// Nothing but Ctrl+Q quits.
pub proof fn law_only_ctrl_q_quits(v: PanelView, event: Event)
    ensures
        event_action(v, event) is Quit <==> (event matches Event::Key { key, press } && press
            && is_quit(key)),
{
}

/// Whatever happens, the selected pane keeps a place in the list.
pub proof fn law_selection_stays_in_list(
    v: PanelView,
    event: Event,
    panes: Seq<pane::PaneView>,
    client: ClientView,
    now: int,
)
    requires
        v.selects_listed(),
        v.panes.len() <= usize::MAX,
    ensures
        after_event(v, event, now).selects_listed(),
        after_attach(v, now).selects_listed(),
        with_panes(v, panes, now).selects_listed(),
        with_client(v, client, now).selects_listed(),
        fresh(panes, now).selects_listed(),
{
    if v.panes.len() > 0 {
        selection::law_step_stays_within(v.selection, v.panes.len() as int, -1);
        selection::law_step_stays_within(v.selection, v.panes.len() as int, 1);
    }
}

/// Whatever happens, the client is attached to the selected pane, unless a switch is
/// pending.
pub proof fn law_client_is_the_selected_panes(
    v: PanelView,
    event: Event,
    panes: Seq<pane::PaneView>,
    client: ClientView,
    now: int,
)
    requires
        v.shows_selected(),
    ensures
        after_event(v, event, now).shows_selected(),
        after_attach(v, now).shows_selected(),
        with_panes(v, panes, now).shows_selected(),
        with_client(v, client, now).shows_selected(),
        fresh(panes, now).shows_selected(),
        v.client is Some && v.pending_switch is None ==> (v.selected_pane() matches Some(p)
            && v.client->0.target.id == p.id),
{
}

/// The client follows the list: unless the selection was moved just before, a refresh and
/// a look at the time leave a client only for the pane that is selected then. Where
/// that pane is not attached yet, it is to be attached at once, and where no pane is left,
/// the client is closed.
pub proof fn law_client_follows_the_list(
    v: PanelView,
    panes: Seq<pane::PaneView>,
    client: ClientView,
    now: int,
    later: int,
)
    requires
        v.started,
        v.pending_switch matches Some(t) ==> now - t >= SETTLE,
    ensures
        ({
            let w = with_panes(v, panes, now);
            let x = after_attach(w, now);
            let y = with_client(x, client, later);
            &&& x.pending_switch is None
            &&& v.pending_switch is None && w.selected_target() == v.attached() ==> attach_at(
                w,
                now,
            ) is Wait
            &&& match attach_at(w, now) {
                Attach::Wait => x == w && x.attached() == x.selected_target(),
                Attach::Close => x.client is None && x.selected_pane() is None,
                Attach::Open(i) => x.client is None && x.selection.index == Some(i)
                    && x.selected_pane() is Some && (Some(client.target) == x.selected_target()
                    ==> y.attached() == y.selected_target() && y.pending_switch is None),
            }
        }),
{
}

/// Switching is debounced: moving the selection only remembers the time. The client
/// stays as it is until the selection has been left alone for long enough; then the
/// pane that is selected is attached.
pub proof fn law_switching_is_debounced(v: PanelView, key: Key, at: int, now: int)
    requires
        is_switch(key),
        v.started,
        v.panes.len() <= usize::MAX,
    ensures
        ({
            let w = after_key(v, key, at);
            &&& key_action(v, key) is Idle
            &&& w.client == v.client
            &&& now - at < SETTLE ==> attach_at(w, now) is Wait && after_attach(w, now) == w
            &&& now - at >= SETTLE && v.panes.len() > 0 ==> attach_at(w, now) == Attach::Open(
                w.selection.index->0,
            )
            &&& now - at >= SETTLE && v.panes.len() == 0 && v.selects_listed() ==> attach_at(
                w,
                now,
            ) is Close
        }),
{
    if v.panes.len() > 0 {
        selection::law_step_stays_within(v.selection, v.panes.len() as int, -1);
        selection::law_step_stays_within(v.selection, v.panes.len() as int, 1);
    }
}

/// Of two moves of the selection, only the last one counts for when a pane is attached.
pub proof fn law_last_switch_counts(v: PanelView, first: Key, second: Key, at: int, later: int)
    requires
        is_switch(first),
        is_switch(second),
        v.started,
    ensures
        waiting_since(after_key(after_key(v, first, at), second, later), later) == Some(later),
{
}

/// The first frame attaches the selected pane at once, or finds that there is none.
pub proof fn law_first_pane_is_attached_at_once(panes: Seq<pane::PaneView>, read: int, now: int)
    ensures
        panes.len() > 0 ==> attach_at(fresh(panes, read), now) == Attach::Open(0),
        panes.len() == 0 ==> attach_at(fresh(panes, read), now) is Close,
{
}

/// A pane is attached once: afterwards nothing is due until the selection moves or a
/// refresh puts another pane in its place.
pub proof fn law_attached_once(
    v: PanelView,
    client: ClientView,
    panes: Seq<pane::PaneView>,
    now: int,
    refresh: int,
    later: int,
)
    requires
        settled(v, now),
        v.selected_target() == Some(client.target),
    ensures
        ({
            let w = with_client(after_attach(v, now), client, now);
            let x = with_panes(w, panes, refresh);
            &&& attach_at(w, later) is Wait
            &&& after_attach(w, later) == w
            &&& x.selected_target() == w.selected_target() ==> attach_at(x, later) is Wait
                && after_attach(x, later) == x
        }),
{
}

/// Switching the mouse twice leaves it as it was.
pub proof fn law_mouse_toggles(v: PanelView, at: int, later: int)
    ensures
        ({
            let f2 = Key { code: KeyCode::F(2), ctrl: false };
            after_key(after_key(v, f2, at), f2, later) == v
        }),
{
}

/// Moving the selection up and down again, or down and up, selects the same pane.
pub proof fn law_up_and_down(v: PanelView, at: int, later: int)
    requires
        v.selects_listed(),
        0 < v.panes.len() <= usize::MAX,
        v.selection.index is Some,
    ensures
        ({
            let up = Key { code: KeyCode::Up, ctrl: true };
            let down = Key { code: KeyCode::Down, ctrl: true };
            &&& after_key(after_key(v, up, at), down, later).selection == v.selection
            &&& after_key(after_key(v, down, at), up, later).selection == v.selection
        }),
{
    let n = v.panes.len() as int;
    selection::law_step_back(v.selection, n, -1);
    selection::law_step_back(v.selection, n, 1);
}

/// The panel never shows itself: no pane of its own session is in the list at the start
/// or comes in by a refresh, and so none is attached. That holds of the session that is
/// on record for a pane, and of the one in which the program runs now, unless the pane
/// is listed in another session too.
pub proof fn law_own_session_is_never_attached(
    v: PanelView,
    listing: Option<&[u8]>,
    files: Seq<status::StatusFileView>,
    all: Option<&[u8]>,
    own: Seq<char>,
    now: int,
)
    requires
        pane::none_in_session(v.panes, own),
    ensures
        ({
            let live = pane::live_panes(listing, Some(own), files);
            let running = pane::live_panes(listing, None, files);
            let panes = pane::refreshed(v.panes, listing, Some(own), files, pane::alive_ids(all));
            let w = with_panes(v, panes, now);
            &&& pane::none_in_session(fresh(live, now).panes, own)
            &&& pane::none_in_session(w.panes, own)
            &&& attach_at(w, now) matches Attach::Open(i) ==> w.panes[i as int].session != own
            &&& forall|id: Seq<char>|
                pane::has_id(running, id) && pane::only_in_session(running, id, own)
                    ==> !#[trigger] pane::has_id(w.panes, id)
        }),
        attach_at(v, now) matches Attach::Open(i) ==> v.panes[i as int].session != own,
{
    let running = pane::live_panes(listing, None, files);
    let alive = pane::alive_ids(all);
    let panes = pane::refreshed(v.panes, listing, Some(own), files, alive);
    pane::law_own_session_is_left_out(listing, own, files);
    pane::law_refresh_leaves_out_own_session(v.panes, listing, own, files, alive);
    let w = with_panes(v, panes, now);
    assert forall|id: Seq<char>|
        pane::has_id(running, id) && pane::only_in_session(
            running,
            id,
            own,
        ) implies !#[trigger] pane::has_id(w.panes, id) by {
        pane::law_panes_moved_to_own_session_leave(v.panes, listing, own, files, alive, id);
    }
}

/// A new panel holds the list as it was read, selects its first pane, reports the mouse,
/// and has no client yet.
pub proof fn law_new_panel_selects_the_first_pane(panes: Vec<Pane>, now: u64, r: Panel)
    requires
        call_ensures(Panel::new, (panes, now), r),
    ensures
        pane::panes_view(r.panes@) == pane::panes_view(panes@),
        panes@.len() > 0 ==> r.selection.index == Some(0usize),
        panes@.len() == 0 ==> r.selection.index is None,
        r.mouse_on,
        !r.started,
        r.pending_switch is None,
        r.last_list == now,
        r.embedded is None,
{
    assert(pane::panes_view(panes@).len() == panes@.len());
    assert(r@.client is None);
    assert(r@.pending_switch is None);
}

/// The list is due 300 ms after it was last read.
pub proof fn law_list_is_due_after_300_ms(p: &Panel, now: u64, r: bool)
    requires
        p.wf(),
        call_ensures(Panel::refresh_due, (p, now), r),
    ensures
        r <==> now - p.last_list >= 300_000_000,
{
}

/// The selected pane is the one in the selected place, if there is one there.
pub proof fn law_selected_pane_is_in_its_place(p: &Panel, i: usize, r: Option<&Pane>)
    requires
        call_ensures(Panel::selected_pane, (p,), r),
    ensures
        p.selection.index == Some(i) && i < p.panes@.len() ==> (r matches Some(q) && q@
            == p.panes@[i as int]@),
        p.selection.index == Some(i) && i >= p.panes@.len() ==> r is None,
        p.selection.index is None ==> r is None,
{
    assert(pane::panes_view(p.panes@).len() == p.panes@.len());
    if i < p.panes@.len() {
        assert(pane::panes_view(p.panes@)[i as int] == p.panes@[i as int]@);
    }
}

/// A new list is taken over as it is. The selected place stays where the list still has it;
/// else the first one is selected, or none in an empty list. Nothing else changes but that a
/// switch may become due.
pub proof fn law_new_list_keeps_the_selected_place(
    v: PanelView,
    panes: Seq<pane::PaneView>,
    now: int,
    i: usize,
)
    ensures
        ({
            let w = with_panes(v, panes, now);
            &&& w.panes == panes
            &&& w.last_list == now
            &&& w.mouse_on == v.mouse_on
            &&& w.started == v.started
            &&& w.client == v.client
            &&& v.pending_switch is Some ==> w.pending_switch == v.pending_switch
            &&& v.selection.index == Some(i) && i < panes.len() ==> w.selection.index == Some(i)
            &&& v.selection.index == Some(i) && i >= panes.len() && panes.len() > 0
                ==> w.selection.index == Some(0usize)
            &&& v.selection.index is None && panes.len() > 0 ==> w.selection.index is None
            &&& panes.len() == 0 ==> w.selection.index is None
        }),
{
}

/// A new list makes a switch due just where it puts another pane, or none, in the selected
/// place, by its id, session or window.
pub proof fn law_new_list_switches_to_another_pane(
    v: PanelView,
    panes: Seq<pane::PaneView>,
    now: int,
    i: usize,
)
    requires
        v.pending_switch is None,
        v.selection.index == Some(i),
        i < panes.len(),
        v.client is Some,
    ensures
        ({
            let w = with_panes(v, panes, now);
            let p = panes[i as int];
            let t = v.client->0.target;
            &&& p.id == t.id && p.session == t.session && p.window == t.window
                ==> w.pending_switch is None
            &&& p.id != t.id || p.session != t.session || p.window != t.window
                ==> w.pending_switch == Some(now - 150_000_000)
        }),
{
}

/// A pane is attached when its selection is 150 ms old, and the first one at once. It is the
/// one in the selected place; where there is none, the client is closed.
pub proof fn law_selection_is_attached_after_150_ms(v: PanelView, now: int, t: int, i: usize)
    ensures
        v.started && v.pending_switch is None ==> attach_at(v, now) is Wait,
        v.started && v.pending_switch == Some(t) && now - t < 150_000_000 ==> attach_at(v, now) is Wait,
        !v.started || (v.pending_switch == Some(t) && now - t >= 150_000_000) ==> (if v.selection.index
            == Some(i) && i < v.panes.len() {
            attach_at(v, now) == Attach::Open(i)
        } else {
            attach_at(v, now) !is Wait && attach_at(v, now) != Attach::Open(i)
        }),
        attach_at(v, now) is Open ==> v.selection.index == Some(attach_at(v, now)->Open_0)
            && attach_at(v, now)->Open_0 < v.panes.len(),
        ({
            let w = after_attach(v, now);
            &&& w.panes == v.panes
            &&& w.selection == v.selection
            &&& w.mouse_on == v.mouse_on
            &&& w.last_list == v.last_list
            &&& w.started
            &&& attach_at(v, now) is Wait ==> w.client == v.client && w.pending_switch
                == v.pending_switch
            &&& attach_at(v, now) !is Wait ==> w.client is None && w.pending_switch is None
        }),
{
}

/// A client that was attached is kept as it is, and nothing else changes but that a switch
/// may become due.
pub proof fn law_attached_client_is_kept(v: PanelView, client: ClientView, now: int)
    ensures
        ({
            let w = with_client(v, client, now);
            &&& w.client == Some(client)
            &&& w.panes == v.panes
            &&& w.selection == v.selection
            &&& w.mouse_on == v.mouse_on
            &&& w.started == v.started
            &&& w.last_list == v.last_list
        }),
{
}

/// No event touches the list. Only Ctrl+Up and Ctrl+Down move the selection, only F5 and
/// Ctrl+L touch the client, and only F2 the mouse; what is no pressed key changes nothing.
pub proof fn law_events_change_only_what_is_theirs(v: PanelView, event: Event, now: int)
    ensures
        ({
            let w = after_event(v, event, now);
            &&& w.panes == v.panes
            &&& w.started == v.started
            &&& w.last_list == v.last_list
            &&& match event {
                Event::Key { key, press } => {
                    &&& !press ==> w == v
                    &&& !(key.ctrl && (key.code is Up || key.code is Down)) ==> w.selection
                        == v.selection && w.pending_switch == v.pending_switch
                    &&& key.code != KeyCode::F(5) && !(key.ctrl && (key.code == KeyCode::Char('l')
                        || key.code == KeyCode::Char('L'))) ==> w.client == v.client
                    &&& key.code != KeyCode::F(2) ==> w.mouse_on == v.mouse_on
                },
                _ => w == v,
            }
        }),
{
}

/// Ctrl+Down and Ctrl+Up go to the next pane and to the one before, round the list, and
/// start the wait for the selection to settle. The client stays as it is meanwhile.
pub proof fn law_switch_keys_go_to_neighbours(v: PanelView, i: usize, now: int)
    requires
        v.selection.index == Some(i),
        i < v.panes.len() <= usize::MAX,
    ensures
        ({
            let down = Event::Key { key: Key { code: KeyCode::Down, ctrl: true }, press: true };
            let up = Event::Key { key: Key { code: KeyCode::Up, ctrl: true }, press: true };
            let d = after_event(v, down, now);
            let u = after_event(v, up, now);
            &&& event_action(v, down) is Idle && event_action(v, up) is Idle
            &&& d.selection.index == Some(
                if i + 1 < v.panes.len() {
                    (i + 1) as usize
                } else {
                    0
                },
            )
            &&& u.selection.index == Some(
                if i > 0 {
                    (i - 1) as usize
                } else {
                    (v.panes.len() - 1) as usize
                },
            )
            &&& d.pending_switch == Some(now) && u.pending_switch == Some(now)
            &&& d.client == v.client && u.client == v.client
        }),
{
    selection::law_single_steps_go_to_neighbours(i, v.panes.len() as int);
}

/// What a shortcut does it does to the pane in the selected place: Ctrl+G goes there, F6 and
/// F7 restart it in its directory, the latter dangerously, and the wheel scrolls it.
pub proof fn law_shortcuts_act_on_the_selected_pane(v: PanelView, i: usize, ctrl: bool, up: bool)
    requires
        v.selection.index == Some(i),
        i < v.panes.len(),
    ensures
        ({
            let p = v.panes[i as int];
            let g = Event::Key { key: Key { code: KeyCode::Char('g'), ctrl: true }, press: true };
            let f6 = Event::Key { key: Key { code: KeyCode::F(6), ctrl }, press: true };
            let f7 = Event::Key { key: Key { code: KeyCode::F(7), ctrl }, press: true };
            &&& event_action(v, g) == ActionView::Tmux(
                seq![
                    seq!["switch-client"@, "-t"@, p.session],
                    seq!["select-window"@, "-t"@, p.window],
                    seq!["select-pane"@, "-t"@, p.id],
                ],
            )
            &&& event_action(v, f6) == (ActionView::Restart {
                id: p.id,
                path: p.path,
                dangerous: false,
            })
            &&& event_action(v, f7) == (ActionView::Restart {
                id: p.id,
                path: p.path,
                dangerous: true,
            })
            &&& event_action(v, Event::Wheel { up }) == ActionView::Tmux(
                seq![
                    seq!["copy-mode"@, "-e"@, "-t"@, p.id],
                    seq![
                        "send-keys"@,
                        "-X"@,
                        "-t"@,
                        p.id,
                        "-N"@,
                        "3"@,
                        if up {
                            "scroll-up"@
                        } else {
                            "scroll-down"@
                        },
                    ],
                ],
            )
        }),
{
}

/// Where no pane is selected, those shortcuts do nothing.
pub proof fn law_shortcuts_need_a_selected_pane(v: PanelView, ctrl: bool, up: bool)
    requires
        v.selection.index matches Some(i) ==> i >= v.panes.len(),
    ensures
        event_action(
            v,
            Event::Key { key: Key { code: KeyCode::Char('g'), ctrl: true }, press: true },
        ) is Idle,
        event_action(v, Event::Key { key: Key { code: KeyCode::F(6), ctrl }, press: true }) is Idle,
        event_action(v, Event::Key { key: Key { code: KeyCode::F(7), ctrl }, press: true }) is Idle,
        event_action(v, Event::Wheel { up }) is Idle,
{
}

/// F5 and Ctrl+L give the PTY two rows less, but four, so that it is repainted when it is
/// fitted again; the client keeps the text in the rows that are left, and all else. Without
/// a client only the terminal is cleared.
pub proof fn law_refresh_keys_shrink_the_client(v: PanelView, key: Key, now: int, row: int, col: int)
    requires
        key.code == KeyCode::F(5) || (key.ctrl && (key.code == KeyCode::Char('l') || key.code
            == KeyCode::Char('L'))),
    ensures
        v.client is None ==> event_action(v, Event::Key { key, press: true })
            == ActionView::Repaint(None) && after_event(v, Event::Key { key, press: true }, now) == v,
        v.client matches Some(c) ==> (c.dims.rows >= 4 ==> ({
            let rows: int = if c.dims.rows >= 6 {
                c.dims.rows - 2
            } else {
                4
            };
            let w = after_event(v, Event::Key { key, press: true }, now);
            &&& event_action(v, Event::Key { key, press: true }) == ActionView::Repaint(
                Some(PtyDims { rows: rows as u16, cols: c.dims.cols }),
            )
            &&& w.client matches Some(d) && d.dims == (PtyDims {
                rows: rows as u16,
                cols: c.dims.cols,
            }) && d.status_top == c.status_top && d.tty == c.tty && d.target == c.target && d.cut
                == c.cut && (0 <= row < rows && 0 <= col < c.dims.cols && c.cells.dom().contains(
                (row, col),
            ) ==> d.cells.dom().contains((row, col)) && d.cells[(row, col)] == c.cells[(row, col)])
        })),
{
}

/// F2 turns the mouse on where it is off, and off where it is on.
pub proof fn law_f2_turns_the_mouse_on_and_off(v: PanelView, ctrl: bool, now: int)
    ensures
        ({
            let f2 = Event::Key { key: Key { code: KeyCode::F(2), ctrl }, press: true };
            &&& event_action(v, f2) == ActionView::Mouse(!v.mouse_on)
            &&& after_event(v, f2, now).mouse_on == !v.mouse_on
        }),
{
}

/// The panel ends by Ctrl+Q and by nothing else.
pub proof fn law_quits_by_ctrl_q(v: PanelView, event: Event)
    ensures
        event_action(v, event) is Quit <==> event == (Event::Key {
            key: Key { code: KeyCode::Char('q'), ctrl: true },
            press: true,
        }),
{
}

/// Every other key that is pressed sends the client what it sends, and changes nothing in
/// the panel. Esc sets the pane in the selected place to idle too, and no other key does.
pub proof fn law_other_keys_send_their_bytes(
    v: PanelView,
    key: Key,
    now: int,
    i: usize,
    sent: Vec<u8>,
)
    requires
        call_ensures(keys::key_to_bytes, (key,), sent),
        key.ctrl ==> key.code !is Up && key.code !is Down && key.code != KeyCode::Char('q')
            && key.code != KeyCode::Char('g') && key.code != KeyCode::Char('l') && key.code
            != KeyCode::Char('L'),
        key.code != KeyCode::F(2) && key.code != KeyCode::F(5) && key.code != KeyCode::F(6)
            && key.code != KeyCode::F(7),
    ensures
        ({
            let pressed = Event::Key { key, press: true };
            &&& after_event(v, pressed, now) == v
            &&& v.client is None ==> event_action(v, pressed) is Idle
            &&& v.client is Some ==> (event_action(v, pressed) matches ActionView::Forward {
                bytes,
                interrupted,
            } && bytes == sent@ && (key.code !is Esc ==> interrupted is None) && (key.code is Esc
                && v.selection.index == Some(i) && i < v.panes.len() ==> interrupted == Some(
                v.panes[i as int].id,
            )) && (key.code is Esc && v.selection.index is None ==> interrupted is None))
        }),
{
}

/// A client that was fitted has the size of its area, but no fewer than four rows and twenty
/// columns. It keeps the text in the places that it still has, and all else; losing columns
/// is remembered.
pub proof fn law_fitting_keeps_the_client(c: ClientView, inner: Area, row: int, col: int)
    requires
        c.dims.rows >= 4,
        c.dims.cols >= 20,
    ensures
        ({
            let d = fitted_client(c, inner);
            &&& d.dims.rows == (if inner.height >= 4 {
                inner.height
            } else {
                4
            })
            &&& d.dims.cols == (if inner.width >= 20 {
                inner.width
            } else {
                20
            })
            &&& d.status_top == c.status_top && d.tty == c.tty && d.target == c.target
            &&& d.cut <==> c.cut || d.dims.cols < c.dims.cols
            &&& d.cells.dom().contains((row, col)) <==> 0 <= row < d.dims.rows && 0 <= col
                < d.dims.cols
            &&& d.cells.dom().contains((row, col)) && c.cells.dom().contains((row, col))
                ==> d.cells[(row, col)] == c.cells[(row, col)]
        }),
{
}

/// A frame shows the entries of the panel's own panes, the title of the selected one, and
/// blanks the status line of the client where there is one.
pub proof fn law_frame_shows_the_panel(
    p: &Panel,
    tick: u128,
    inner: Area,
    r: Frame,
    chosen: Option<&Pane>,
    listed: Vec<Entry>,
    headed: Vec<Segment>,
    helped: Vec<Segment>,
    row: Option<RowSpan>,
)
    requires
        inner.wf(),
        call_ensures(Panel::frame, (p, tick, inner), r),
        call_ensures(Panel::selected_pane, (p,), chosen),
        call_ensures(entries, (&p.panes, tick), listed),
        call_ensures(title, (chosen, tick), headed),
        call_ensures(help_lines, (), helped),
        p.embedded matches Some(e) ==> call_ensures(status_row, (inner, e.status_top), row),
    ensures
        paint::entries_view(r.entries@) == paint::entries_view(listed@),
        paint::line_view(r.title@) == paint::line_view(headed@),
        paint::line_view(r.help@) == paint::line_view(helped@),
        p.embedded is Some ==> r.blank == row,
        p.embedded is None ==> r.blank is None,
{
}

/// A refresh takes over the list that the replies make of the list before, and keeps the
/// selected place where the new list still has it.
pub proof fn law_refresh_takes_over_the_refreshed_list(
    p: &mut Panel,
    listing: Option<&[u8]>,
    own: &Option<String>,
    files: &Vec<StatusFile>,
    all: Option<&[u8]>,
    now: u64,
    panes: Vec<Pane>,
    i: usize,
)
    requires
        old(p).wf(),
        call_ensures(Panel::refresh, (p, listing, own, files, all, now), ()),
        call_ensures(refresh_panes, (&old(p).panes, listing, own, files, all), panes),
    ensures
        pane::panes_view(final(p).panes@) == pane::panes_view(panes@),
        final(p).last_list == now,
        final(p).mouse_on == old(p).mouse_on,
        old(p).selection.index == Some(i) && i < panes@.len() ==> final(p).selection.index == Some(i),
        old(p).selection.index == Some(i) && i >= panes@.len() && panes@.len() > 0
            ==> final(p).selection.index == Some(0usize),
        panes@.len() == 0 ==> final(p).selection.index is None,
{
    assert(final(p)@.panes == pane::panes_view(final(p).panes@));
    assert(pane::panes_view(panes@).len() == panes@.len());
}

/// The panel says which pane to attach when its selection is 150 ms old, and the first one
/// at once.
pub proof fn law_panel_attaches_after_150_ms(p: &mut Panel, now: u64, r: Attach, t: i128, i: usize)
    requires
        old(p).wf(),
        call_ensures(Panel::attach_due, (p, now), r),
    ensures
        final(p).started,
        old(p).started && old(p).pending_switch is None ==> r is Wait,
        old(p).started && old(p).pending_switch == Some(t) ==> (r is Wait <==> now - t
            < 150_000_000),
        !old(p).started ==> r !is Wait,
        r == Attach::Open(i) ==> old(p).selection.index == Some(i) && i < old(p).panes@.len(),
        r is Close ==> old(p).selection.index is None,
        r !is Wait ==> final(p).embedded is None && final(p).pending_switch is None,
{
    assert(pane::panes_view(old(p).panes@).len() == old(p).panes@.len());
    assert(final(p)@.client is None ==> final(p).embedded is None);
    assert(final(p)@.pending_switch is None ==> final(p).pending_switch is None);
}

/// The panel acts on events as they are told here, and changes by them as is told here.
pub proof fn law_panel_acts_on_events(p: &mut Panel, event: Event, now: u64, r: Action)
    requires
        old(p).wf(),
        call_ensures(Panel::on_event, (p, event, now), r),
    ensures
        final(p).wf(),
        r is Quit <==> event == (Event::Key {
            key: Key { code: KeyCode::Char('q'), ctrl: true },
            press: true,
        }),
        r@ == event_action(old(p)@, event),
        final(p)@ == after_event(old(p)@, event, now as int),
{
}

} // verus!
