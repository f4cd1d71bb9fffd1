//! The status files that the sessions' hooks write under `~/.cc-status`.

use vstd::prelude::*;

use crate::text;
use crate::text::{same, trim};

verus! {

/// For how long an unfinished status is believed, in nanoseconds.
pub const STALE_AFTER: u128 = 150_000_000_000;

/// The directory of the status files.
pub open spec fn status_dir_of(home: Seq<char>) -> Seq<char> {
    home + "/.cc-status"@
}

/// The status file of a pane.
pub open spec fn status_path_of(home: Seq<char>, id: Seq<char>) -> Seq<char> {
    status_dir_of(home) + "/"@ + id
}

/// The file that holds the session id of the conversation in a pane.
pub open spec fn sid_path_of(home: Seq<char>, id: Seq<char>) -> Seq<char> {
    status_path_of(home, id) + ".sid"@
}

/// A status is stale when it is older than `STALE_AFTER`, or of unknown age.
pub open spec fn stale(age: Option<u128>) -> bool {
    match age {
        Some(nanos) => nanos > STALE_AFTER,
        None => true,
    }
}

/// The status that a file tells: what it holds, trimmed. A session that claims to
/// be at work, or to wait for a permission, but has not said so for long, is idle.
pub open spec fn status_of(contents: Seq<char>, age: Option<u128>) -> Seq<char> {
    let s = text::trimmed(contents);
    if (s == "active"@ || s == "perm"@) && stale(age) {
        "idle"@
    } else {
        s
    }
}

/// The directory of the status files.
pub fn status_dir(home: &str) -> (r: String)
    ensures
        r@ == status_dir_of(home@),
{
    let mut r = home.to_owned();
    r.append("/.cc-status");
    r
}

/// The status file of a pane.
pub fn status_path(home: &str, id: &str) -> (r: String)
    ensures
        r@ == status_path_of(home@, id@),
{
    let mut r = status_dir(home);
    r.append("/");
    r.append(id);
    r
}

/// The file that holds the session id of the conversation in a pane.
pub fn sid_path(home: &str, id: &str) -> (r: String)
    ensures
        r@ == sid_path_of(home@, id@),
{
    let mut r = status_path(home, id);
    r.append(".sid");
    r
}

/// A status on its way to disk: `dir` has to exist before `path` is written.
pub struct StatusWrite {
    pub dir: String,
    pub path: String,
    pub contents: String,
}

/// What to write, and where, to set the status of a pane.
pub fn write_status(home: &str, id: &str, state: &str) -> (r: StatusWrite)
    ensures
        r.dir@ == status_dir_of(home@),
        r.path@ == status_path_of(home@, id@),
        r.contents@ == state@,
{
    StatusWrite {
        dir: status_dir(home),
        path: status_path(home, id),
        contents: state.to_owned(),
    }
}

/// What to write, and where, when a pane was interrupted: it is idle.
pub fn write_idle(home: &str, id: &str) -> (r: StatusWrite)
    ensures
        r.dir@ == status_dir_of(home@),
        r.path@ == status_path_of(home@, id@),
        r.contents@ == "idle"@,
{
    write_status(home, id, "idle")
}

/// The session id that a `.sid` file tells; nothing from an empty or missing one.
pub fn read_sid(contents: Option<&str>) -> (r: String)
    ensures
        r@ == match contents {
            Some(s) => text::trimmed(s@),
            None => Seq::<char>::empty(),
        },
{
    match contents {
        Some(s) => trim(s),
        None => String::new(),
    }
}

/// The status that a file tells, given how long ago it was written, in
/// nanoseconds, where that is known. A missing file reads as an empty one.
pub fn read_status(contents: Option<&str>, age: Option<u128>) -> (r: String)
    ensures
        r@ == status_of(
            match contents {
                Some(s) => s@,
                None => Seq::<char>::empty(),
            },
            age,
        ),
{
    let s = match contents {
        Some(s) => trim(s),
        None => trim(""),
    };
    proof {
        reveal_strlit("");
        assert(""@ == Seq::<char>::empty());
    }
    if same(s.as_str(), "active") || same(s.as_str(), "perm") {
        let old = match age {
            Some(nanos) => nanos > STALE_AFTER,
            None => true,
        };
        if old {
            return "idle".to_owned();
        }
    }
    s
}

/// The contents of a status file, and how long ago it was written, in nanoseconds,
/// where that is known.
pub struct StatusFile {
    pub id: String,
    pub contents: String,
    pub age: Option<u128>,
}

/// What a status file tells of which pane.
pub struct StatusFileView {
    pub id: Seq<char>,
    pub contents: Seq<char>,
    pub age: Option<u128>,
}

impl View for StatusFile {
    type V = StatusFileView;

    open spec fn view(&self) -> StatusFileView {
        StatusFileView { id: self.id@, contents: self.contents@, age: self.age }
    }
}

/// The status files as the contracts see them.
pub open spec fn files_view(files: Seq<StatusFile>) -> Seq<StatusFileView> {
    files.map_values(|f: StatusFile| f@)
}

/// The status of the pane `id`: that of the first file for it, and that of an empty
/// file where there is none.
pub open spec fn status_in(files: Seq<StatusFileView>, id: Seq<char>) -> Seq<char>
    decreases files.len(),
{
    if files.len() == 0 {
        status_of(Seq::empty(), None)
    } else if files.first().id == id {
        status_of(files.first().contents, files.first().age)
    } else {
        status_in(files.drop_first(), id)
    }
}

/// The status of the pane `id` according to the files that were read.
pub fn find_status(files: &Vec<StatusFile>, id: &str) -> (r: String)
    ensures
        r@ == status_in(files_view(files@), id@),
{
    let ghost all = files_view(files@);
    let mut i: usize = 0;
    assert(all.skip(0) == all);
    while i < files.len()
        invariant
            i <= files@.len(),
            all == files_view(files@),
            status_in(all, id@) == status_in(all.skip(i as int), id@),
        decreases files@.len() - i,
    {
        assert(all.skip(i as int).first() == files@[i as int]@);
        if same(files[i].id.as_str(), id) {
            return read_status(Some(files[i].contents.as_str()), files[i].age);
        }
        assert(all.skip(i as int).drop_first() == all.skip(i + 1));
        i += 1;
    }
    read_status(None, None)
}

/// A session counts as at work, or as waiting for a permission, only while its file is
/// fresh.
pub proof fn law_stale_status_is_not_shown(contents: Seq<char>, age: Option<u128>)
    requires
        stale(age),
    ensures
        status_of(contents, age) != "active"@,
        status_of(contents, age) != "perm"@,
{
    reveal_strlit("active");
    reveal_strlit("perm");
    reveal_strlit("idle");
    assert("idle"@.len() != "active"@.len());
    assert("idle"@[0] != "perm"@[0]);
}

/// Any other status is shown whatever its age.
pub proof fn law_settled_status_does_not_age(
    contents: Seq<char>,
    age: Option<u128>,
    later: Option<u128>,
)
    requires
        text::trimmed(contents) != "active"@,
        text::trimmed(contents) != "perm"@,
    ensures
        status_of(contents, age) == status_of(contents, later),
{
}

/// A status that is no older than 150 seconds is shown as it stands in the file, whatever
/// it is. A file that is not there tells nothing.
pub proof fn law_fresh_status_is_shown(contents: Option<&str>, nanos: u128, r: String)
    requires
        call_ensures(read_status, (contents, Some(nanos)), r),
        nanos <= 150_000_000_000,
    ensures
        contents matches Some(s) ==> r@ == text::trimmed(s@),
        contents is None ==> r@.len() == 0,
{
    assert(Seq::<char>::empty() + Seq::<char>::empty() + Seq::<char>::empty() == Seq::<
        char,
    >::empty());
    text::law_trimming_keeps_what_is_between(Seq::empty(), Seq::empty(), Seq::empty());
}

/// Of a status that is older than 150 seconds, or of unknown age, "active" and "perm" turn
/// into "idle", and every other is shown as it stands in the file.
pub proof fn law_old_status_is_idle(contents: &str, age: Option<u128>, r: String)
    requires
        call_ensures(read_status, (Some(contents), age), r),
        age matches Some(nanos) ==> nanos > 150_000_000_000,
    ensures
        text::trimmed(contents@) == "active"@ ==> r@ == "idle"@,
        text::trimmed(contents@) == "perm"@ ==> r@ == "idle"@,
        text::trimmed(contents@) != "active"@ && text::trimmed(contents@) != "perm"@ ==> r@
            == text::trimmed(contents@),
{
}

proof fn lemma_first_file(files: Seq<StatusFileView>, id: Seq<char>, k: int)
    requires
        0 <= k <= files.len(),
        forall|j: int| 0 <= j < k ==> (#[trigger] files[j]).id != id,
        k < files.len() ==> files[k].id == id,
    ensures
        k < files.len() ==> status_in(files, id) == status_of(files[k].contents, files[k].age),
        k == files.len() ==> status_in(files, id) == status_of(Seq::empty(), None),
    decreases k,
{
    if k > 0 {
        let rest = files.drop_first();
        assert(files[0].id != id);
        assert forall|j: int| 0 <= j < k - 1 implies (#[trigger] rest[j]).id != id by {
            assert(rest[j] == files[j + 1]);
        }
        lemma_first_file(rest, id, k - 1);
    }
}

/// The status of a pane is the one that the first file with its id tells.
pub proof fn law_first_file_tells_the_status(
    files: &Vec<StatusFile>,
    id: &str,
    k: int,
    r: String,
)
    requires
        call_ensures(find_status, (files, id), r),
        0 <= k < files@.len(),
        files@[k].id@ == id@,
        forall|j: int| 0 <= j < k ==> (#[trigger] files@[j]).id@ != id@,
    ensures
        files@[k].age matches Some(nanos) && nanos <= 150_000_000_000 ==> r@ == text::trimmed(
            files@[k].contents@,
        ),
        text::trimmed(files@[k].contents@) != "active"@ && text::trimmed(files@[k].contents@)
            != "perm"@ ==> r@ == text::trimmed(files@[k].contents@),
        (text::trimmed(files@[k].contents@) == "active"@ || text::trimmed(files@[k].contents@)
            == "perm"@) && (files@[k].age matches Some(nanos) ==> nanos > 150_000_000_000) ==> r@
            == "idle"@,
{
    let all = files_view(files@);
    assert(all[k] == files@[k]@);
    assert forall|j: int| 0 <= j < k implies (#[trigger] all[j]).id != id@ by {
        assert(all[j] == files@[j]@);
    }
    lemma_first_file(all, id@, k);
}

/// A pane without a file has no status.
pub proof fn law_no_file_tells_no_status(files: &Vec<StatusFile>, id: &str, r: String)
    requires
        call_ensures(find_status, (files, id), r),
        forall|j: int| 0 <= j < files@.len() ==> (#[trigger] files@[j]).id@ != id@,
    ensures
        r@.len() == 0,
{
    let all = files_view(files@);
    assert forall|j: int| 0 <= j < all.len() implies (#[trigger] all[j]).id != id@ by {
        assert(all[j] == files@[j]@);
    }
    lemma_first_file(all, id@, all.len() as int);
    reveal_strlit("active");
    reveal_strlit("perm");
    assert(Seq::<char>::empty() + Seq::<char>::empty() + Seq::<char>::empty() == Seq::<
        char,
    >::empty());
    text::law_trimming_keeps_what_is_between(Seq::empty(), Seq::empty(), Seq::empty());
    assert("active"@.len() == 6 && "perm"@.len() == 4);
}

/// The files lie under `.cc-status` in the home directory. The status of a pane is in the
/// file that has its id for a name, the session id beside it.
pub proof fn law_status_files_are_named_by_pane(
    home: &str,
    id: &str,
    dir: String,
    path: String,
    sid: String,
)
    requires
        call_ensures(status_dir, (home,), dir),
        call_ensures(status_path, (home, id), path),
        call_ensures(sid_path, (home, id), sid),
    ensures
        dir@ == home@ + "/.cc-status"@,
        path@ == home@ + "/.cc-status/"@ + id@,
        path@ == dir@ + seq!['/'] + id@,
        sid@ == path@ + ".sid"@,
{
    reveal_strlit("/.cc-status");
    reveal_strlit("/.cc-status/");
    reveal_strlit("/");
    assert("/"@ == seq!['/']);
    assert("/.cc-status/"@ == "/.cc-status"@ + seq!['/']);
    assert(path@ == home@ + "/.cc-status/"@ + id@);
}

/// What is written for a pane goes to the file from which its status is read, and is read
/// back as it was written, but for white space around it, while it is fresh.
pub proof fn law_written_status_is_read_back(
    home: &str,
    id: &str,
    state: &str,
    w: StatusWrite,
    path: String,
    nanos: u128,
    r: String,
)
    requires
        call_ensures(write_status, (home, id, state), w),
        call_ensures(status_path, (home, id), path),
        call_ensures(read_status, (Some(state), Some(nanos)), r),
        nanos <= 150_000_000_000,
    ensures
        w.path@ == path@,
        path@ == w.dir@ + seq!['/'] + id@,
        w.contents@ == state@,
        r@ == text::trimmed(w.contents@),
{
    reveal_strlit("/");
    assert("/"@ == seq!['/']);
    law_fresh_status_is_shown(Some(state), nanos, r);
}

/// An interrupted pane is idle: that is what is written for it.
pub proof fn law_interrupted_pane_is_idle(home: &str, id: &str, w: StatusWrite, path: String)
    requires
        call_ensures(write_idle, (home, id), w),
        call_ensures(status_path, (home, id), path),
    ensures
        w.path@ == path@,
        w.contents@ == "idle"@,
{
}

/// A session id is read as it stands in its file, without the white space around it, and
/// is empty where there is no file.
pub proof fn law_session_id_is_read_trimmed(contents: Option<&str>, r: String)
    requires
        call_ensures(read_sid, (contents,), r),
    ensures
        contents matches Some(s) ==> r@ == text::trimmed(s@),
        contents is None ==> r@.len() == 0,
{
}

} // verus!
