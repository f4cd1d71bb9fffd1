//! The panes of the sessions, as tmux lists them, and how the list is kept.

use vstd::prelude::*;

use crate::status;
use crate::status::{find_status, StatusFile};
use crate::text;
use crate::text::{from_utf8_lossy, lines, same, split_at_most, trim};

verus! {

/// A pane of the list.
pub struct Pane {
    pub id: String,
    pub session: String,
    pub window: String,
    pub name: String,
    pub path: String,
    pub status: String,
}

/// What the fields of a pane hold.
#[verifier::ext_equal]
pub struct PaneView {
    pub id: Seq<char>,
    pub session: Seq<char>,
    pub window: Seq<char>,
    pub name: Seq<char>,
    pub path: Seq<char>,
    pub status: Seq<char>,
}

impl View for Pane {
    type V = PaneView;

    open spec fn view(&self) -> PaneView {
        PaneView {
            id: self.id@,
            session: self.session@,
            window: self.window@,
            name: self.name@,
            path: self.path@,
            status: self.status@,
        }
    }
}

/// The panes of a list as the contracts see them.
pub open spec fn panes_view(panes: Seq<Pane>) -> Seq<PaneView> {
    panes.map_values(|p: Pane| p@)
}

/// Whether some pane of the list has this id.
pub open spec fn has_id(panes: Seq<PaneView>, id: Seq<char>) -> bool {
    exists|i: int| 0 <= i < panes.len() && #[trigger] panes[i].id == id
}

/// The pane that a line of tmux's listing tells: id, session, window, name and path,
/// with a tab between each two. There is none on a line with fewer fields, and none
/// that counts in the panel's own session.
pub open spec fn pane_on(
    line: Seq<char>,
    own: Option<Seq<char>>,
    files: Seq<status::StatusFileView>,
) -> Option<PaneView> {
    let f = text::pieces_of(line, 5, '\t');
    if f.len() == 5 && own != Some(f[1]) {
        Some(
            PaneView {
                id: f[0],
                session: f[1],
                window: f[2],
                name: f[3],
                path: f[4],
                status: status::status_in(files, f[0]),
            },
        )
    } else {
        None
    }
}

/// The panes that these lines of the listing tell, in their order.
pub open spec fn panes_on(
    lines: Seq<Seq<char>>,
    own: Option<Seq<char>>,
    files: Seq<status::StatusFileView>,
) -> Seq<PaneView>
    decreases lines.len(),
{
    if lines.len() == 0 {
        seq![]
    } else {
        let before = panes_on(lines.drop_last(), own, files);
        match pane_on(lines.last(), own, files) {
            Some(p) => before.push(p),
            None => before,
        }
    }
}

/// The panes of a whole listing.
pub open spec fn panes_listed(
    listing: Seq<char>,
    own: Option<Seq<char>>,
    files: Seq<status::StatusFileView>,
) -> Seq<PaneView> {
    panes_on(text::lines_of(listing), own, files)
}

/// The panes of a listing, with the status that the files tell of each.
pub fn panes_in(listing: &str, own: &Option<String>, files: &Vec<StatusFile>) -> (r: Vec<Pane>)
    ensures
        panes_view(r@) == panes_listed(listing@, text::option_view(*own), status::files_view(files@)),
{
    let ls = lines(listing);
    let ghost all = text::lines_of(listing@);
    let ghost fv = status::files_view(files@);
    let mut r: Vec<Pane> = Vec::new();
    let mut i: usize = 0;
    while i < ls.len()
        invariant
            i <= ls@.len(),
            text::texts(ls@) == all,
            fv == status::files_view(files@),
            panes_view(r@) == panes_on(all.take(i as int), text::option_view(*own), fv),
        decreases ls@.len() - i,
    {
        let ghost before = panes_view(r@);
        let f = split_at_most(ls[i].as_str(), 5, '\t');
        let ghost fields = text::texts(f@);
        assert(all[i as int] == ls@[i as int]@);
        assert(all.take(i + 1).drop_last() == all.take(i as int));
        assert(fields == text::pieces_of(all[i as int], 5, '\t'));
        if f.len() == 5 {
            assert(fields[1] == f@[1]@);
            let ours = match own {
                Some(s) => same(s.as_str(), f[1].as_str()),
                None => false,
            };
            if !ours {
                let p = Pane {
                    id: f[0].clone(),
                    session: f[1].clone(),
                    window: f[2].clone(),
                    name: f[3].clone(),
                    path: f[4].clone(),
                    status: find_status(files, f[0].as_str()),
                };
                assert(pane_on(all[i as int], text::option_view(*own), fv) == Some(p@));
                r.push(p);
                assert(panes_view(r@) == before.push(p@));
            }
        }
        i += 1;
    }
    assert(all.take(i as int) == all);
    r
}

/// The panes of the sessions according to what `tmux list-panes` printed; none where
/// it could not be run.
pub open spec fn live_panes(
    stdout: Option<&[u8]>,
    own: Option<Seq<char>>,
    files: Seq<status::StatusFileView>,
) -> Seq<PaneView> {
    match stdout {
        Some(bytes) => panes_listed(text::utf8_lossy(bytes@), own, files),
        None => seq![],
    }
}

/// The panes of the sessions, from what `tmux list-panes` printed.
pub fn list_claude_panes(
    stdout: Option<&[u8]>,
    own: &Option<String>,
    files: &Vec<StatusFile>,
) -> (r: Vec<Pane>)
    ensures
        panes_view(r@) == live_panes(
            stdout,
            text::option_view(*own),
            status::files_view(files@),
        ),
        stdout matches Some(bytes) ==> (vstd::utf8::valid_utf8(bytes@) ==> panes_view(r@)
            == panes_listed(
            vstd::utf8::decode_utf8(bytes@),
            text::option_view(*own),
            status::files_view(files@),
        )),
{
    match stdout {
        Some(bytes) => {
            let listing = from_utf8_lossy(bytes);
            panes_in(listing.as_str(), own, files)
        },
        None => {
            let r: Vec<Pane> = Vec::new();
            assert(panes_view(r@) == Seq::<PaneView>::empty());
            r
        },
    }
}

/// A set of pane ids.
pub struct PaneIds {
    ids: Vec<String>,
}

impl View for PaneIds {
    type V = Set<Seq<char>>;

    closed spec fn view(&self) -> Set<Seq<char>> {
        text::texts(self.ids@).to_set()
    }
}

impl PaneIds {
    /// No id is held twice.
    pub closed spec fn wf(&self) -> bool {
        text::texts(self.ids@).no_duplicates()
    }

    /// The empty set.
    pub fn new() -> (r: Self)
        ensures
            r.wf(),
            r@ == Set::<Seq<char>>::empty(),
    {
        let r = PaneIds { ids: Vec::new() };
        assert(r@ == Set::<Seq<char>>::empty());
        r
    }

    /// Whether the set holds this id.
    pub fn contains(&self, id: &str) -> (r: bool)
        ensures
            r == self@.contains(id@),
    {
        let mut i: usize = 0;
        while i < self.ids.len()
            invariant
                i <= self.ids@.len(),
                forall|j: int| 0 <= j < i ==> self.ids@[j]@ != id@,
            decreases self.ids@.len() - i,
        {
            if same(self.ids[i].as_str(), id) {
                assert(text::texts(self.ids@)[i as int] == id@);
                return true;
            }
            i += 1;
        }
        proof {
            let all = text::texts(self.ids@);
            if all.contains(id@) {
                let j = choose|j: int| 0 <= j < all.len() && all[j] == id@;
                assert(self.ids@[j]@ == id@);
            }
        }
        false
    }

    /// Adds an id.
    pub fn insert(&mut self, id: String)
        requires
            old(self).wf(),
        ensures
            final(self).wf(),
            final(self)@ == old(self)@.insert(id@),
    {
        let ghost before = text::texts(self.ids@);
        if self.contains(id.as_str()) {
            assert(self@.insert(id@) == self@);
        } else {
            self.ids.push(id);
            proof {
                assert(text::texts(self.ids@) == before.push(id@));
                before.lemma_push_to_set_commute(id@);
            }
        }
    }
}

/// The ids that a listing of all panes tells, one on each line.
pub open spec fn ids_listed(listing: Seq<char>) -> Set<Seq<char>> {
    text::lines_of(listing).map_values(|l: Seq<char>| text::trimmed(l)).to_set()
}

/// The ids of a listing of all panes.
pub fn ids_in(listing: &str) -> (r: PaneIds)
    ensures
        r.wf(),
        r@ == ids_listed(listing@),
{
    let ls = lines(listing);
    let ghost all = text::lines_of(listing@);
    let ghost ids = all.map_values(|l: Seq<char>| text::trimmed(l));
    let mut r = PaneIds::new();
    let mut i: usize = 0;
    assert(ids.take(0).to_set() == Set::<Seq<char>>::empty());
    while i < ls.len()
        invariant
            i <= ls@.len(),
            text::texts(ls@) == all,
            ids == all.map_values(|l: Seq<char>| text::trimmed(l)),
            r.wf(),
            r@ == ids.take(i as int).to_set(),
        decreases ls@.len() - i,
    {
        let id = trim(ls[i].as_str());
        proof {
            assert(all[i as int] == ls@[i as int]@);
            assert(ids.take(i + 1) == ids.take(i as int).push(id@));
            ids.take(i as int).lemma_push_to_set_commute(id@);
        }
        r.insert(id);
        i += 1;
    }
    assert(ids.take(i as int) == ids);
    r
}

/// The ids of all panes that there are according to what tmux printed; none where it
/// could not be run.
pub open spec fn alive_ids(stdout: Option<&[u8]>) -> Set<Seq<char>> {
    match stdout {
        Some(bytes) => ids_listed(text::utf8_lossy(bytes@)),
        None => Set::empty(),
    }
}

/// The ids of all panes that there are, from what tmux printed.
pub fn alive_pane_ids(stdout: Option<&[u8]>) -> (r: PaneIds)
    ensures
        r.wf(),
        r@ == alive_ids(stdout),
        stdout matches Some(bytes) ==> (vstd::utf8::valid_utf8(bytes@) ==> r@ == ids_listed(
            vstd::utf8::decode_utf8(bytes@),
        )),
{
    match stdout {
        Some(bytes) => {
            let listing = from_utf8_lossy(bytes);
            ids_in(listing.as_str())
        },
        None => PaneIds::new(),
    }
}

/// A pane in which the session has ended.
pub open spec fn dead(p: PaneView) -> PaneView {
    PaneView { status: "dead"@, ..p }
}

/// The panes of `prev` in which the program no longer runs but which still exist, marked
/// dead. All panes that run it count, those of the panel's own session too.
pub open spec fn crashed(
    prev: Seq<PaneView>,
    running: Seq<PaneView>,
    alive: Set<Seq<char>>,
) -> Seq<PaneView> {
    prev.filter(|p: PaneView| !has_id(running, p.id) && alive.contains(p.id)).map_values(
        |p: PaneView| dead(p),
    )
}

/// The list after a refresh: the live panes, and behind them the crashed ones of the
/// list before, so that a crashed session stays in the list. The live panes are those
/// that run the program outside the panel's own session.
pub open spec fn refreshed(
    prev: Seq<PaneView>,
    listing: Option<&[u8]>,
    own: Option<Seq<char>>,
    files: Seq<status::StatusFileView>,
    alive: Set<Seq<char>>,
) -> Seq<PaneView> {
    live_panes(listing, own, files) + crashed(prev, live_panes(listing, None, files), alive)
}

/// Whether some pane of the list has this id.
pub fn any_has_id(panes: &Vec<Pane>, id: &str) -> (r: bool)
    ensures
        r == has_id(panes_view(panes@), id@),
{
    let ghost all = panes_view(panes@);
    let mut i: usize = 0;
    while i < panes.len()
        invariant
            i <= panes@.len(),
            all == panes_view(panes@),
            forall|j: int| 0 <= j < i ==> #[trigger] all[j].id != id@,
        decreases panes@.len() - i,
    {
        assert(all[i as int] == panes@[i as int]@);
        if same(panes[i].id.as_str(), id) {
            assert(panes_view(panes@)[i as int].id == id@);
            return true;
        }
        i += 1;
    }
    false
}

/// The live panes and the crashed ones of the list before.
pub fn merge_panes(
    prev: &Vec<Pane>,
    live: Vec<Pane>,
    running: &Vec<Pane>,
    alive: &PaneIds,
) -> (r: Vec<Pane>)
    ensures
        panes_view(r@) == panes_view(live@) + crashed(
            panes_view(prev@),
            panes_view(running@),
            alive@,
        ),
{
    let ghost pv = panes_view(prev@);
    let ghost rv = panes_view(running@);
    let ghost pred = |p: PaneView| !has_id(rv, p.id) && alive@.contains(p.id);
    let mut gone: Vec<Pane> = Vec::new();
    let mut i: usize = 0;
    assert(panes_view(gone@) == crashed(pv.take(0), rv, alive@)) by {
        reveal_with_fuel(Seq::filter, 1);
    }
    while i < prev.len()
        invariant
            i <= prev@.len(),
            pv == panes_view(prev@),
            rv == panes_view(running@),
            pred == |p: PaneView| !has_id(rv, p.id) && alive@.contains(p.id),
            panes_view(gone@) == crashed(pv.take(i as int), rv, alive@),
        decreases prev@.len() - i,
    {
        let p = &prev[i];
        let ghost before = panes_view(gone@);
        proof {
            reveal_with_fuel(Seq::filter, 1);
            assert(pv.take(i + 1).drop_last() == pv.take(i as int));
            assert(pv.take(i + 1).last() == p@);
        }
        if !any_has_id(running, p.id.as_str()) && alive.contains(p.id.as_str()) {
            let d = Pane {
                id: p.id.clone(),
                session: p.session.clone(),
                window: p.window.clone(),
                name: p.name.clone(),
                path: p.path.clone(),
                status: "dead".to_owned(),
            };
            gone.push(d);
            proof {
                assert(d@ == dead(p@));
                assert(panes_view(gone@) == before.push(d@));
                assert(pred(p@));
                assert(pv.take(i + 1).filter(pred) == pv.take(i as int).filter(pred).push(p@));
                assert(crashed(pv.take(i + 1), rv, alive@) == before.push(dead(p@)));
            }
        } else {
            assert(pv.take(i + 1).filter(pred) == pv.take(i as int).filter(pred));
        }
        i += 1;
    }
    assert(pv.take(i as int) == pv);
    let ghost lv = panes_view(live@);
    let mut r = live;
    r.append(&mut gone);
    assert(panes_view(r@) == lv + crashed(pv, rv, alive@));
    r
}

/// The list after a refresh: what the listing of the sessions' panes tells, and the
/// crashed panes of the list before.
pub fn refresh_panes(
    prev: &Vec<Pane>,
    listing: Option<&[u8]>,
    own: &Option<String>,
    files: &Vec<StatusFile>,
    all: Option<&[u8]>,
) -> (r: Vec<Pane>)
    ensures
        panes_view(r@) == refreshed(
            panes_view(prev@),
            listing,
            text::option_view(*own),
            status::files_view(files@),
            alive_ids(all),
        ),
{
    let live = list_claude_panes(listing, own, files);
    let running = list_claude_panes(listing, &None, files);
    let alive = alive_pane_ids(all);
    merge_panes(prev, live, &running, &alive)
}

/// No pane of the list is in this session.
pub open spec fn none_in_session(panes: Seq<PaneView>, session: Seq<char>) -> bool {
    forall|i: int| 0 <= i < panes.len() ==> #[trigger] panes[i].session != session
}

/// Where panes of the list have this id, they are in this session.
pub open spec fn only_in_session(
    panes: Seq<PaneView>,
    id: Seq<char>,
    session: Seq<char>,
) -> bool {
    forall|i: int|
        0 <= i < panes.len() && (#[trigger] panes[i]).id == id ==> panes[i].session == session
}

/// No two panes of the list have the same id.
pub open spec fn unique_ids(panes: Seq<PaneView>) -> bool {
    forall|i: int, j: int|
        0 <= i < j < panes.len() ==> #[trigger] panes[i].id != #[trigger] panes[j].id
}

proof fn lemma_own_session_on_no_line(
    lines: Seq<Seq<char>>,
    own: Seq<char>,
    files: Seq<status::StatusFileView>,
)
    ensures
        none_in_session(panes_on(lines, Some(own), files), own),
    decreases lines.len(),
{
    if lines.len() > 0 {
        lemma_own_session_on_no_line(lines.drop_last(), own, files);
    }
}

/// No pane of the panel's own session is listed, whatever tmux prints.
pub proof fn law_own_session_is_left_out(
    stdout: Option<&[u8]>,
    own: Seq<char>,
    files: Seq<status::StatusFileView>,
)
    ensures
        none_in_session(live_panes(stdout, Some(own), files), own),
{
    if let Some(bytes) = stdout {
        lemma_own_session_on_no_line(text::lines_of(text::utf8_lossy(bytes@)), own, files);
    }
}

/// Each line that tells a pane puts it into the list.
pub proof fn law_every_line_counts(
    lines: Seq<Seq<char>>,
    own: Option<Seq<char>>,
    files: Seq<status::StatusFileView>,
    k: int,
)
    requires
        0 <= k < lines.len(),
        pane_on(lines[k], own, files) is Some,
    ensures
        panes_on(lines, own, files).contains(pane_on(lines[k], own, files)->0),
    decreases lines.len(),
{
    let p = pane_on(lines[k], own, files)->0;
    let all = panes_on(lines, own, files);
    let before = panes_on(lines.drop_last(), own, files);
    if k == lines.len() - 1 {
        assert(all[before.len() as int] == p);
    } else {
        assert(lines.drop_last()[k] == lines[k]);
        law_every_line_counts(lines.drop_last(), own, files, k);
        let j = before.index_of(p);
        assert(all[j] == p);
    }
}

/// A line that joins five fields with tabs is read as those fields: only the last one
/// may hold a tab itself.
pub proof fn law_fields_are_read_back(
    p: PaneView,
    own: Option<Seq<char>>,
    files: Seq<status::StatusFileView>,
)
    requires
        !p.id.contains('\t'),
        !p.session.contains('\t'),
        !p.window.contains('\t'),
        !p.name.contains('\t'),
        own != Some(p.session),
        p.status == status::status_in(files, p.id),
    ensures
        pane_on(
            p.id + seq!['\t'] + p.session + seq!['\t'] + p.window + seq!['\t'] + p.name
                + seq!['\t'] + p.path,
            own,
            files,
        ) == Some(p),
{
    let t = seq!['\t'];
    let r3 = p.name + t + p.path;
    let r2 = p.window + t + r3;
    let r1 = p.session + t + r2;
    let line = p.id + t + r1;
    assert(p.id + t + p.session + t + p.window + t + p.name + t + p.path == line);
    text::lemma_cut(p.name, p.path, 2, '\t');
    text::lemma_cut(p.window, r3, 3, '\t');
    text::lemma_cut(p.session, r2, 4, '\t');
    text::lemma_cut(p.id, r1, 5, '\t');
    reveal_with_fuel(text::pieces_of, 2);
    assert(text::pieces_of(p.path, 1, '\t') == seq![p.path]);
    assert(text::pieces_of(line, 5, '\t') == seq![p.id, p.session, p.window, p.name, p.path]);
}

/// A refresh keeps the live panes as they are listed, at the front.
pub proof fn law_live_panes_come_first(
    prev: Seq<PaneView>,
    listing: Option<&[u8]>,
    own: Option<Seq<char>>,
    files: Seq<status::StatusFileView>,
    alive: Set<Seq<char>>,
)
    ensures
        ({
            let live = live_panes(listing, own, files);
            refreshed(prev, listing, own, files, alive).take(live.len() as int) == live
        }),
{
    let live = live_panes(listing, own, files);
    assert(refreshed(prev, listing, own, files, alive).take(live.len() as int) == live);
}

proof fn lemma_lines_without_own(
    lines: Seq<Seq<char>>,
    own: Option<Seq<char>>,
    files: Seq<status::StatusFileView>,
    i: int,
)
    requires
        0 <= i < panes_on(lines, own, files).len(),
    ensures
        panes_on(lines, None, files).contains(panes_on(lines, own, files)[i]),
    decreases lines.len(),
{
    let rest = lines.drop_last();
    let p = panes_on(lines, own, files)[i];
    let all = panes_on(lines, None, files);
    let before = panes_on(rest, None, files);
    if i < panes_on(rest, own, files).len() {
        lemma_lines_without_own(rest, own, files, i);
        let j = before.index_of(p);
        assert(all[j] == p);
    } else {
        assert(all[before.len() as int] == p);
    }
}

/// The live panes are among all that run the program.
proof fn lemma_live_panes_run(
    listing: Option<&[u8]>,
    own: Option<Seq<char>>,
    files: Seq<status::StatusFileView>,
)
    ensures
        forall|i: int|
            0 <= i < live_panes(listing, own, files).len() ==> live_panes(
                listing,
                None,
                files,
            ).contains(#[trigger] live_panes(listing, own, files)[i]),
        forall|id: Seq<char>|
            has_id(live_panes(listing, own, files), id) ==> #[trigger] has_id(
                live_panes(listing, None, files),
                id,
            ),
{
    let live = live_panes(listing, own, files);
    let running = live_panes(listing, None, files);
    assert forall|i: int| 0 <= i < live.len() implies running.contains(#[trigger] live[i]) by {
        if let Some(bytes) = listing {
            lemma_lines_without_own(text::lines_of(text::utf8_lossy(bytes@)), own, files, i);
        }
    }
    assert forall|id: Seq<char>| has_id(live, id) implies #[trigger] has_id(running, id) by {
        let i = choose|i: int| 0 <= i < live.len() && #[trigger] live[i].id == id;
        let j = running.index_of(live[i]);
        assert(running[j].id == id);
    }
}

/// Which panes `crashed` holds.
proof fn lemma_crashed(prev: Seq<PaneView>, running: Seq<PaneView>, alive: Set<Seq<char>>)
    ensures
        forall|i: int|
            0 <= i < crashed(prev, running, alive).len() ==> ({
                let c = #[trigger] crashed(prev, running, alive)[i];
                &&& c.status == "dead"@
                &&& !has_id(running, c.id)
                &&& alive.contains(c.id)
                &&& exists|j: int| 0 <= j < prev.len() && c == dead(#[trigger] prev[j])
            }),
        forall|j: int|
            0 <= j < prev.len() && !has_id(running, (#[trigger] prev[j]).id) && alive.contains(
                prev[j].id,
            ) ==> crashed(prev, running, alive).contains(dead(prev[j])),
        unique_ids(prev) ==> unique_ids(crashed(prev, running, alive)),
    decreases prev.len(),
{
    reveal_with_fuel(Seq::filter, 1);
    let pred = |p: PaneView| !has_id(running, p.id) && alive.contains(p.id);
    let all = crashed(prev, running, alive);
    if prev.len() > 0 {
        let rest = prev.drop_last();
        let last = prev.last();
        let before = crashed(rest, running, alive);
        lemma_crashed(rest, running, alive);
        if pred(last) {
            assert(all == before.push(dead(last)));
        } else {
            assert(all == before);
        }
        assert forall|i: int| 0 <= i < all.len() implies ({
            let c = #[trigger] all[i];
            &&& c.status == "dead"@
            &&& !has_id(running, c.id)
            &&& alive.contains(c.id)
            &&& exists|j: int| 0 <= j < prev.len() && c == dead(#[trigger] prev[j])
        }) by {
            if i < before.len() {
                assert(all[i] == before[i]);
                let j = choose|j: int| 0 <= j < rest.len() && before[i] == dead(#[trigger] rest[j]);
                assert(prev[j] == rest[j]);
            } else {
                assert(all[i] == dead(prev[prev.len() - 1]));
            }
        }
        assert forall|j: int|
            0 <= j < prev.len() && !has_id(running, (#[trigger] prev[j]).id) && alive.contains(
                prev[j].id,
            ) implies all.contains(dead(prev[j])) by {
            if j < rest.len() {
                assert(rest[j] == prev[j]);
                let i = before.index_of(dead(prev[j]));
                assert(all[i] == dead(prev[j]));
            } else {
                assert(all[before.len() as int] == dead(prev[j]));
            }
        }
        if unique_ids(prev) {
            assert(unique_ids(rest)) by {
                assert forall|i: int, j: int| 0 <= i < j < rest.len() implies #[trigger] rest[i].id
                    != #[trigger] rest[j].id by {
                    assert(rest[i] == prev[i] && rest[j] == prev[j]);
                }
            }
            assert forall|i: int, j: int| 0 <= i < j < all.len() implies #[trigger] all[i].id
                != #[trigger] all[j].id by {
                assert(all[i] == before[i]);
                if j < before.len() {
                    assert(all[j] == before[j]);
                } else {
                    let k = choose|k: int|
                        0 <= k < rest.len() && before[i] == dead(#[trigger] rest[k]);
                    assert(prev[k] == rest[k]);
                    assert(prev[k].id != prev[prev.len() - 1].id);
                }
            }
        }
    }
}

/// A crashed session does not vanish: a pane of the list in which the program no longer
/// runs but which still exists is in the list after a refresh, marked dead.
pub proof fn law_crashed_panes_stay(
    prev: Seq<PaneView>,
    listing: Option<&[u8]>,
    own: Option<Seq<char>>,
    files: Seq<status::StatusFileView>,
    alive: Set<Seq<char>>,
    k: int,
)
    requires
        0 <= k < prev.len(),
        !has_id(live_panes(listing, None, files), prev[k].id),
        alive.contains(prev[k].id),
    ensures
        refreshed(prev, listing, own, files, alive).contains(dead(prev[k])),
{
    let live = live_panes(listing, own, files);
    let running = live_panes(listing, None, files);
    lemma_crashed(prev, running, alive);
    let c = crashed(prev, running, alive);
    let i = c.index_of(dead(prev[k]));
    assert(refreshed(prev, listing, own, files, alive)[live.len() + i] == dead(prev[k]));
}

/// Only a pane in which the program no longer runs is marked dead: one that runs it is
/// in the list just as it is listed, or not at all.
pub proof fn law_running_panes_are_not_marked_dead(
    prev: Seq<PaneView>,
    listing: Option<&[u8]>,
    own: Option<Seq<char>>,
    files: Seq<status::StatusFileView>,
    alive: Set<Seq<char>>,
    i: int,
)
    requires
        0 <= i < refreshed(prev, listing, own, files, alive).len(),
        has_id(
            live_panes(listing, None, files),
            refreshed(prev, listing, own, files, alive)[i].id,
        ),
    ensures
        i < live_panes(listing, own, files).len(),
        refreshed(prev, listing, own, files, alive)[i] == live_panes(listing, own, files)[i],
{
    let live = live_panes(listing, own, files);
    let running = live_panes(listing, None, files);
    lemma_crashed(prev, running, alive);
    if i >= live.len() {
        assert(refreshed(prev, listing, own, files, alive)[i] == crashed(prev, running, alive)[i
            - live.len()]);
    }
}

/// A pane that no longer exists leaves the list.
pub proof fn law_closed_panes_leave(
    prev: Seq<PaneView>,
    listing: Option<&[u8]>,
    own: Option<Seq<char>>,
    files: Seq<status::StatusFileView>,
    alive: Set<Seq<char>>,
    id: Seq<char>,
)
    requires
        !has_id(live_panes(listing, own, files), id),
        !alive.contains(id),
    ensures
        !has_id(refreshed(prev, listing, own, files, alive), id),
{
    let live = live_panes(listing, own, files);
    let running = live_panes(listing, None, files);
    lemma_crashed(prev, running, alive);
    let all = refreshed(prev, listing, own, files, alive);
    assert forall|i: int| 0 <= i < all.len() implies #[trigger] all[i].id != id by {
        if i < live.len() {
            assert(all[i] == live[i]);
        } else {
            assert(all[i] == crashed(prev, running, alive)[i - live.len()]);
        }
    }
}

/// A refresh lists no pane twice, if neither the listing nor the list before did.
pub proof fn law_refresh_keeps_ids_unique(
    prev: Seq<PaneView>,
    listing: Option<&[u8]>,
    own: Option<Seq<char>>,
    files: Seq<status::StatusFileView>,
    alive: Set<Seq<char>>,
)
    requires
        unique_ids(prev),
        unique_ids(live_panes(listing, own, files)),
    ensures
        unique_ids(refreshed(prev, listing, own, files, alive)),
{
    let live = live_panes(listing, own, files);
    let running = live_panes(listing, None, files);
    lemma_live_panes_run(listing, own, files);
    lemma_crashed(prev, running, alive);
    let all = refreshed(prev, listing, own, files, alive);
    let c = crashed(prev, running, alive);
    assert forall|i: int, j: int| 0 <= i < j < all.len() implies #[trigger] all[i].id
        != #[trigger] all[j].id by {
        if j < live.len() {
            assert(all[i] == live[i] && all[j] == live[j]);
        } else if i < live.len() {
            assert(all[i] == live[i] && all[j] == c[j - live.len()]);
            assert(has_id(live, live[i].id));
            assert(has_id(running, live[i].id));
        } else {
            assert(all[i] == c[i - live.len()] && all[j] == c[j - live.len()]);
        }
    }
}

/// A refresh brings in no pane of the panel's own session, if the list before had none.
pub proof fn law_refresh_leaves_out_own_session(
    prev: Seq<PaneView>,
    listing: Option<&[u8]>,
    own: Seq<char>,
    files: Seq<status::StatusFileView>,
    alive: Set<Seq<char>>,
)
    requires
        none_in_session(prev, own),
    ensures
        none_in_session(refreshed(prev, listing, Some(own), files, alive), own),
{
    let live = live_panes(listing, Some(own), files);
    let running = live_panes(listing, None, files);
    law_own_session_is_left_out(listing, own, files);
    lemma_crashed(prev, running, alive);
    let all = refreshed(prev, listing, Some(own), files, alive);
    let c = crashed(prev, running, alive);
    assert forall|i: int| 0 <= i < all.len() implies #[trigger] all[i].session != own by {
        if i < live.len() {
            assert(all[i] == live[i]);
        } else {
            assert(all[i] == c[i - live.len()]);
            let j = choose|j: int|
                0 <= j < prev.len() && c[i - live.len()] == dead(#[trigger] prev[j]);
            assert(prev[j].session != own);
        }
    }
}

/// A pane that runs the program in the panel's own session is not in the list after a
/// refresh, wherever it was before, unless it is listed in another session too.
pub proof fn law_panes_moved_to_own_session_leave(
    prev: Seq<PaneView>,
    listing: Option<&[u8]>,
    own: Seq<char>,
    files: Seq<status::StatusFileView>,
    alive: Set<Seq<char>>,
    id: Seq<char>,
)
    requires
        has_id(live_panes(listing, None, files), id),
        only_in_session(live_panes(listing, None, files), id, own),
    ensures
        !has_id(refreshed(prev, listing, Some(own), files, alive), id),
{
    let live = live_panes(listing, Some(own), files);
    let running = live_panes(listing, None, files);
    let all = refreshed(prev, listing, Some(own), files, alive);
    law_own_session_is_left_out(listing, own, files);
    lemma_live_panes_run(listing, Some(own), files);
    assert forall|i: int| 0 <= i < all.len() implies #[trigger] all[i].id != id by {
        if all[i].id == id {
            law_running_panes_are_not_marked_dead(prev, listing, Some(own), files, alive, i);
            let j = running.index_of(live[i]);
            assert(running[j] == live[i]);
        }
    }
}

proof fn lemma_panes_on_first(
    line: Seq<char>,
    rest: Seq<Seq<char>>,
    own: Option<Seq<char>>,
    files: Seq<status::StatusFileView>,
)
    ensures
        panes_on(seq![line] + rest, own, files) == panes_on(seq![line], own, files) + panes_on(
            rest,
            own,
            files,
        ),
    decreases rest.len(),
{
    let all = seq![line] + rest;
    if rest.len() > 0 {
        lemma_panes_on_first(line, rest.drop_last(), own, files);
        assert(all.drop_last() == seq![line] + rest.drop_last());
        assert(all.last() == rest.last());
    } else {
        assert(all == seq![line]);
    }
}

/// A listing is read line by line: a line that tells a pane puts it in front of those that
/// the rest tells, and one that tells none is passed over.
pub proof fn law_listing_is_read_line_by_line(
    line: Seq<char>,
    rest: Seq<char>,
    own: Option<Seq<char>>,
    files: Seq<status::StatusFileView>,
)
    requires
        !line.contains('\n'),
        line.len() > 0 ==> line.last() != '\r',
    ensures
        panes_listed(Seq::empty(), own, files) == Seq::<PaneView>::empty(),
        pane_on(line, own, files) matches Some(p) ==> panes_listed(
            line + seq!['\n'] + rest,
            own,
            files,
        ) == seq![p] + panes_listed(rest, own, files),
        pane_on(line, own, files) is None ==> panes_listed(line + seq!['\n'] + rest, own, files)
            == panes_listed(rest, own, files),
{
    text::law_lines_end_at_line_feeds(line, rest);
    lemma_panes_on_first(line, text::lines_of(rest), own, files);
    reveal_with_fuel(panes_on, 2);
    assert(seq![line].drop_last() == Seq::<Seq<char>>::empty());
    assert(seq![line].last() == line);
    if let Some(p) = pane_on(line, own, files) {
        assert(panes_on(seq![line], own, files) == seq![p]);
    } else {
        assert(panes_on(seq![line], own, files) == Seq::<PaneView>::empty());
    }
}

/// A line tells no pane where it has fewer than five fields, or where its second field is
/// the panel's own session.
pub proof fn law_other_lines_tell_nothing(
    a: Seq<char>,
    b: Seq<char>,
    c: Seq<char>,
    d: Seq<char>,
    e: Seq<char>,
    own: Option<Seq<char>>,
    files: Seq<status::StatusFileView>,
)
    requires
        !a.contains('\t'),
        !b.contains('\t'),
        !c.contains('\t'),
        !d.contains('\t'),
    ensures
        pane_on(a, own, files) is None,
        pane_on(a + seq!['\t'] + b, own, files) is None,
        pane_on(a + seq!['\t'] + b + seq!['\t'] + c, own, files) is None,
        pane_on(a + seq!['\t'] + b + seq!['\t'] + c + seq!['\t'] + d, own, files) is None,
        own == Some(b) ==> pane_on(
            a + seq!['\t'] + b + seq!['\t'] + c + seq!['\t'] + d + seq!['\t'] + e,
            own,
            files,
        ) is None,
{
    let t = seq!['\t'];
    text::law_pieces_are_cut_at_first_separators(a, b, 5, '\t');
    text::law_pieces_are_cut_at_first_separators(b, c, 4, '\t');
    text::law_pieces_are_cut_at_first_separators(c, d, 3, '\t');
    text::law_pieces_are_cut_at_first_separators(d, e, 2, '\t');
    let cd = c + t + d;
    let bcd = b + t + cd;
    let bc = b + t + c;
    text::law_pieces_are_cut_at_first_separators(b, cd, 4, '\t');
    text::law_pieces_are_cut_at_first_separators(a, bc, 5, '\t');
    text::law_pieces_are_cut_at_first_separators(a, bcd, 5, '\t');
    assert(a + t + b + t + c == a + t + bc);
    assert(a + t + b + t + c + t + d == a + t + bcd);
    let de = d + t + e;
    let cde = c + t + de;
    let bcde = b + t + cde;
    text::law_pieces_are_cut_at_first_separators(c, de, 3, '\t');
    text::law_pieces_are_cut_at_first_separators(b, cde, 4, '\t');
    text::law_pieces_are_cut_at_first_separators(a, bcde, 5, '\t');
    text::law_pieces_are_cut_at_first_separators(d, e, 1, '\t');
    assert(a + t + b + t + c + t + d + t + e == a + t + bcde);
    assert(text::pieces_of(a + t + bcde, 5, '\t')[1] == b);
}

/// A listing of all ids holds just what stands on its lines, without white space around.
pub proof fn law_ids_are_read_line_by_line(line: Seq<char>, rest: Seq<char>)
    requires
        !line.contains('\n'),
        line.len() > 0 ==> line.last() != '\r',
    ensures
        ids_listed(Seq::empty()) == Set::<Seq<char>>::empty(),
        ids_listed(line + seq!['\n'] + rest) == ids_listed(rest).insert(text::trimmed(line)),
{
    text::law_lines_end_at_line_feeds(line, rest);
    let f = |l: Seq<char>| text::trimmed(l);
    let none = Seq::<Seq<char>>::empty();
    assert(none.map_values(f).to_set() == Set::<Seq<char>>::empty());
    let some = text::lines_of(rest).map_values(f);
    let all = (seq![line] + text::lines_of(rest)).map_values(f);
    assert(all == seq![text::trimmed(line)] + some);
    assert forall|id: Seq<char>| #[trigger] all.to_set().contains(id) == some.to_set().insert(
        text::trimmed(line),
    ).contains(id) by {
        if all.contains(id) {
            let i = all.index_of(id);
            if i > 0 {
                assert(some[i - 1] == id);
            }
        }
        if some.contains(id) {
            let i = some.index_of(id);
            assert(all[i + 1] == id);
        }
        assert(all[0] == text::trimmed(line));
    }
    assert(all.to_set() == some.to_set().insert(text::trimmed(line)));
}

/// Without a reply from tmux there are no live panes and no ids.
pub proof fn law_no_reply_lists_nothing(
    own: &Option<String>,
    files: &Vec<StatusFile>,
    panes: Vec<Pane>,
    ids: PaneIds,
)
    requires
        call_ensures(list_claude_panes, (None, own, files), panes),
        call_ensures(alive_pane_ids, (None,), ids),
    ensures
        panes@.len() == 0,
        ids@ == Set::<Seq<char>>::empty(),
{
    assert(panes_view(panes@).len() == panes@.len());
}

/// A reply in UTF-8 is read as the text that it encodes.
pub proof fn law_replies_are_read_as_utf8(
    text: Seq<char>,
    stdout: &[u8],
    own: &Option<String>,
    files: &Vec<StatusFile>,
    panes: Vec<Pane>,
    ids: PaneIds,
)
    requires
        stdout@ == vstd::utf8::encode_utf8(text),
        call_ensures(list_claude_panes, (Some(stdout), own, files), panes),
        call_ensures(alive_pane_ids, (Some(stdout),), ids),
    ensures
        panes_view(panes@) == panes_listed(
            text,
            text::option_view(*own),
            status::files_view(files@),
        ),
        ids@ == ids_listed(text),
{
    vstd::utf8::encode_utf8_valid_utf8(text);
    vstd::utf8::encode_utf8_decode_utf8(text);
}

/// The panes of a list as they are seen are those of the list, field by field.
proof fn lemma_panes_view(panes: Seq<Pane>)
    ensures
        panes_view(panes).len() == panes.len(),
        forall|i: int| 0 <= i < panes.len() ==> panes_view(panes)[i] == (#[trigger] panes[i])@,
{
}

/// A crashed pane stays as it was: a pane of the list before which no line of the listing
/// names, but which still exists, is in the list after a refresh, behind the live ones, with
/// the same id, session, window, name and path, and with the status "dead".
pub proof fn law_crashed_pane_keeps_its_fields(
    prev: &Vec<Pane>,
    listing: Option<&[u8]>,
    own: &Option<String>,
    files: &Vec<StatusFile>,
    all: Option<&[u8]>,
    r: Vec<Pane>,
    running: Vec<Pane>,
    live: Vec<Pane>,
    alive: PaneIds,
    k: int,
)
    requires
        call_ensures(refresh_panes, (prev, listing, own, files, all), r),
        call_ensures(list_claude_panes, (listing, own, files), live),
        call_ensures(list_claude_panes, (listing, &None::<String>, files), running),
        call_ensures(alive_pane_ids, (all,), alive),
        0 <= k < prev@.len(),
        forall|j: int| 0 <= j < running@.len() ==> (#[trigger] running@[j]).id@ != prev@[k].id@,
        alive@.contains(prev@[k].id@),
    ensures
        exists|i: int|
            live@.len() <= i < r@.len() && (#[trigger] r@[i]).id@ == prev@[k].id@
                && r@[i].session@ == prev@[k].session@ && r@[i].window@ == prev@[k].window@
                && r@[i].name@ == prev@[k].name@ && r@[i].path@ == prev@[k].path@
                && r@[i].status@ == "dead"@,
{
    let fv = status::files_view(files@);
    let lv = live_panes(listing, text::option_view(*own), fv);
    let rv = live_panes(listing, None, fv);
    let pv = panes_view(prev@);
    lemma_panes_view(prev@);
    lemma_panes_view(r@);
    lemma_panes_view(running@);
    lemma_panes_view(live@);
    assert(pv[k] == prev@[k]@);
    assert(!has_id(rv, pv[k].id)) by {
        assert forall|j: int| 0 <= j < rv.len() implies #[trigger] rv[j].id != pv[k].id by {
            assert(rv[j] == running@[j]@);
        }
    }
    lemma_crashed(pv, rv, alive@);
    let c = crashed(pv, rv, alive@);
    let i = c.index_of(dead(pv[k]));
    assert(panes_view(r@)[lv.len() + i] == dead(pv[k]));
    assert(r@[lv.len() + i]@ == dead(pv[k]));
}

/// Nothing else is in the list after a refresh: in front the live panes as they are listed,
/// behind them only panes of the list before which no line of the listing names and which
/// still exist, each with its fields and with the status "dead".
pub proof fn law_refreshed_list_holds_nothing_else(
    prev: &Vec<Pane>,
    listing: Option<&[u8]>,
    own: &Option<String>,
    files: &Vec<StatusFile>,
    all: Option<&[u8]>,
    r: Vec<Pane>,
    running: Vec<Pane>,
    live: Vec<Pane>,
    alive: PaneIds,
    i: int,
)
    requires
        call_ensures(refresh_panes, (prev, listing, own, files, all), r),
        call_ensures(list_claude_panes, (listing, own, files), live),
        call_ensures(list_claude_panes, (listing, &None::<String>, files), running),
        call_ensures(alive_pane_ids, (all,), alive),
        0 <= i < r@.len(),
    ensures
        live@.len() <= r@.len() <= live@.len() + prev@.len(),
        i < live@.len() ==> r@[i].id@ == live@[i].id@ && r@[i].session@ == live@[i].session@
            && r@[i].window@ == live@[i].window@ && r@[i].name@ == live@[i].name@ && r@[i].path@
            == live@[i].path@ && r@[i].status@ == live@[i].status@,
        i >= live@.len() ==> r@[i].status@ == "dead"@ && alive@.contains(r@[i].id@) && (forall|j: int|
            0 <= j < running@.len() ==> (#[trigger] running@[j]).id@ != r@[i].id@) && (exists|k: int|
            0 <= k < prev@.len() && r@[i].id@ == (#[trigger] prev@[k]).id@ && r@[i].session@
                == prev@[k].session@ && r@[i].window@ == prev@[k].window@ && r@[i].name@
                == prev@[k].name@ && r@[i].path@ == prev@[k].path@),
{
    let fv = status::files_view(files@);
    let lv = live_panes(listing, text::option_view(*own), fv);
    let rv = live_panes(listing, None, fv);
    let pv = panes_view(prev@);
    lemma_panes_view(prev@);
    lemma_panes_view(r@);
    lemma_panes_view(running@);
    lemma_panes_view(live@);
    lemma_crashed(pv, rv, alive@);
    let c = crashed(pv, rv, alive@);
    pv.lemma_filter_len(|p: PaneView| !has_id(rv, p.id) && alive@.contains(p.id));
    assert(panes_view(r@)[i] == r@[i]@);
    if i < lv.len() {
        assert(panes_view(live@)[i] == live@[i]@);
    } else {
        let d = c[i - lv.len()];
        assert(r@[i]@ == d);
        let k = choose|k: int| 0 <= k < pv.len() && d == dead(#[trigger] pv[k]);
        assert(pv[k] == prev@[k]@);
        assert(!has_id(rv, d.id));
        assert forall|j: int| 0 <= j < running@.len() implies (#[trigger] running@[j]).id@
            != r@[i].id@ by {
            assert(rv[j] == running@[j]@);
            assert(rv[j].id != d.id);
        }
    }
}

proof fn lemma_crashed_order(
    prev: Seq<PaneView>,
    running: Seq<PaneView>,
    alive: Set<Seq<char>>,
    i: int,
    j: int,
)
    requires
        0 <= i < j < crashed(prev, running, alive).len(),
    ensures
        exists|k: int, l: int|
            0 <= k < l < prev.len() && crashed(prev, running, alive)[i] == dead(#[trigger] prev[k])
                && crashed(prev, running, alive)[j] == dead(#[trigger] prev[l]),
    decreases prev.len(),
{
    reveal_with_fuel(Seq::filter, 1);
    let pred = |p: PaneView| !has_id(running, p.id) && alive.contains(p.id);
    let rest = prev.drop_last();
    let all = crashed(prev, running, alive);
    let before = crashed(rest, running, alive);
    if pred(prev.last()) {
        assert(all == before.push(dead(prev.last())));
    } else {
        assert(all == before);
    }
    if j < before.len() {
        lemma_crashed_order(rest, running, alive, i, j);
        let (k, l) = choose|k: int, l: int|
            0 <= k < l < rest.len() && before[i] == dead(#[trigger] rest[k]) && before[j] == dead(
                #[trigger] rest[l],
            );
        assert(prev[k] == rest[k] && prev[l] == rest[l]);
    } else {
        lemma_crashed(rest, running, alive);
        let k = choose|k: int| 0 <= k < rest.len() && before[i] == dead(#[trigger] rest[k]);
        assert(prev[k] == rest[k]);
        assert(prev[prev.len() - 1] == prev.last());
    }
}

/// Crashed panes keep their order.
pub proof fn law_crashed_panes_keep_their_order(
    prev: &Vec<Pane>,
    listing: Option<&[u8]>,
    own: &Option<String>,
    files: &Vec<StatusFile>,
    all: Option<&[u8]>,
    r: Vec<Pane>,
    live: Vec<Pane>,
    i: int,
    j: int,
)
    requires
        call_ensures(refresh_panes, (prev, listing, own, files, all), r),
        call_ensures(list_claude_panes, (listing, own, files), live),
        live@.len() <= i < j < r@.len(),
    ensures
        exists|k: int, l: int|
            0 <= k < l < prev@.len() && r@[i].id@ == (#[trigger] prev@[k]).id@ && r@[i].path@
                == prev@[k].path@ && r@[j].id@ == (#[trigger] prev@[l]).id@ && r@[j].path@
                == prev@[l].path@,
{
    let fv = status::files_view(files@);
    let rv = live_panes(listing, None, fv);
    let pv = panes_view(prev@);
    let n = live@.len() as int;
    lemma_panes_view(prev@);
    lemma_panes_view(r@);
    lemma_panes_view(live@);
    let c = crashed(pv, rv, alive_ids(all));
    lemma_crashed_order(pv, rv, alive_ids(all), i - n, j - n);
    assert(r@[i]@ == c[i - n] && r@[j]@ == c[j - n]);
    let (k, l) = choose|k: int, l: int|
        0 <= k < l < pv.len() && c[i - n] == dead(#[trigger] pv[k]) && c[j - n] == dead(
            #[trigger] pv[l],
        );
    assert(pv[k] == prev@[k]@ && pv[l] == prev@[l]@);
}

/// Looking for an id finds it just where some pane has it.
pub proof fn law_ids_are_found_where_they_are(panes: &Vec<Pane>, id: &str, r: bool)
    requires
        call_ensures(any_has_id, (panes, id), r),
    ensures
        r == exists|i: int| 0 <= i < panes@.len() && (#[trigger] panes@[i]).id@ == id@,
{
    lemma_panes_view(panes@);
    let all = panes_view(panes@);
    if r {
        let i = choose|i: int| 0 <= i < all.len() && #[trigger] all[i].id == id@;
        assert(panes@[i].id@ == id@);
    } else {
        assert forall|i: int| 0 <= i < panes@.len() implies (#[trigger] panes@[i]).id@ != id@ by {
            assert(all[i].id == panes@[i].id@);
        }
    }
}

} // verus!
