//! The tmux commands that the panel runs, as argument lists, and what their replies
//! tell.

use vstd::prelude::*;

use crate::pane::Pane;
use crate::text;
use crate::text::{from_utf8_lossy, owned, same, trim};

verus! {

/// A list of commands as the contracts see it.
pub open spec fn commands_view(commands: Seq<Vec<String>>) -> Seq<Seq<Seq<char>>> {
    commands.map_values(|c: Vec<String>| text::texts(c@))
}

/// The condition on a pane that it runs `program`.
pub open spec fn runs_filter(program: Seq<char>) -> Seq<char> {
    "#{==:#{pane_current_command},"@ + program + "}"@
}

/// The format of a line of the listing: id, session, window, name and path, with tabs
/// between them.
pub const LIST_FORMAT: &'static str = "#{pane_id}\t#{session_name}\t#{window_id}\t#{session_name}:#{window_index}.#{pane_index}\t#{pane_current_path}";

/// The arguments that list the panes that run `program`, one on a line.
pub fn list_claude_args(program: &str) -> (r: Vec<String>)
    ensures
        text::texts(r@) == seq![
            "list-panes"@,
            "-a"@,
            "-f"@,
            runs_filter(program@),
            "-F"@,
            LIST_FORMAT@,
        ],
{
    let mut filter = "#{==:#{pane_current_command},".to_owned();
    filter.append(program);
    filter.append("}");
    let r = owned(vec!["list-panes", "-a", "-f", filter.as_str(), "-F", LIST_FORMAT]);
    assert(text::texts(r@) == seq![
        "list-panes"@,
        "-a"@,
        "-f"@,
        runs_filter(program@),
        "-F"@,
        LIST_FORMAT@,
    ]);
    r
}

/// The arguments that list the ids of all panes, one on a line.
pub fn list_all_args() -> (r: Vec<String>)
    ensures
        text::texts(r@) == seq!["list-panes"@, "-a"@, "-F"@, "#{pane_id}"@],
{
    let r = owned(vec!["list-panes", "-a", "-F", "#{pane_id}"]);
    assert(text::texts(r@) == seq!["list-panes"@, "-a"@, "-F"@, "#{pane_id}"@]);
    r
}

/// The arguments that tell the session of a pane.
pub fn session_of_args(pane: &str) -> (r: Vec<String>)
    ensures
        text::texts(r@) == seq!["display"@, "-pt"@, pane@, "#{session_name}"@],
{
    let r = owned(vec!["display", "-pt", pane, "#{session_name}"]);
    assert(text::texts(r@) == seq!["display"@, "-pt"@, pane@, "#{session_name}"@]);
    r
}

/// The arguments that tell where a session shows its status line.
pub fn session_status_args(session: &str) -> (r: Vec<String>)
    ensures
        text::texts(r@) == seq![
            "show-options"@,
            "-t"@,
            session@,
            "-v"@,
            "status-position"@,
        ],
{
    let r = owned(vec!["show-options", "-t", session, "-v", "status-position"]);
    assert(text::texts(r@) == seq!["show-options"@, "-t"@, session@, "-v"@, "status-position"@]);
    r
}

/// The arguments that tell where sessions show their status line unless they say
/// otherwise.
pub fn global_status_args() -> (r: Vec<String>)
    ensures
        text::texts(r@) == seq!["show-options"@, "-gv"@, "status-position"@],
{
    let r = owned(vec!["show-options", "-gv", "status-position"]);
    assert(text::texts(r@) == seq!["show-options"@, "-gv"@, "status-position"@]);
    r
}

/// What a printed reply says: its text without the white space around it, and nothing
/// where that is all it has.
pub open spec fn reply_of(printed: Seq<char>) -> Option<Seq<char>> {
    if text::trimmed(printed).len() > 0 {
        Some(text::trimmed(printed))
    } else {
        None
    }
}

/// What a printed reply says.
pub fn reply_in(printed: &str) -> (r: Option<String>)
    ensures
        text::option_view(r) == reply_of(printed@),
{
    let s = trim(printed);
    if s.as_str().is_empty() {
        None
    } else {
        Some(s)
    }
}

/// What a command replied; nothing where it could not be run.
pub fn reply(stdout: Option<&[u8]>) -> (r: Option<String>)
    ensures
        text::option_view(r) == match stdout {
            Some(bytes) => reply_of(text::utf8_lossy(bytes@)),
            None => None,
        },
        stdout matches Some(bytes) ==> (vstd::utf8::valid_utf8(bytes@) ==> text::option_view(r)
            == reply_of(vstd::utf8::decode_utf8(bytes@))),
{
    match stdout {
        Some(bytes) => {
            let printed = from_utf8_lossy(bytes);
            reply_in(printed.as_str())
        },
        None => None,
    }
}

/// The panel's own session, from the reply to `session_of_args`. Its panes cannot be
/// embedded: tmux keeps all clients of a session on one window, so the panel would
/// show itself.
pub fn own_session(stdout: Option<&[u8]>) -> (r: Option<String>)
    ensures
        text::option_view(r) == match stdout {
            Some(bytes) => reply_of(text::utf8_lossy(bytes@)),
            None => None,
        },
        stdout matches Some(bytes) ==> (vstd::utf8::valid_utf8(bytes@) ==> text::option_view(r)
            == reply_of(vstd::utf8::decode_utf8(bytes@))),
{
    reply(stdout)
}

/// Whether the status line is at the top: as the session says, or else as all
/// sessions do.
pub fn status_at_top(session: &Option<String>, global: &Option<String>) -> (r: bool)
    ensures
        r == ((match text::option_view(*session) {
            Some(s) => Some(s),
            None => text::option_view(*global),
        }) == Some("top"@)),
{
    match session {
        Some(s) => same(s.as_str(), "top"),
        None => match global {
            Some(s) => same(s.as_str(), "top"),
            None => false,
        },
    }
}

/// The command that detaches a client before its PTY closes, which would kill what
/// runs in the pane; none where its terminal is not known.
pub fn detach_args(tty: &str) -> (r: Option<Vec<String>>)
    ensures
        tty@.len() == 0 ==> r is None,
        tty@.len() > 0 ==> (r matches Some(c) && text::texts(c@) == seq![
            "detach-client"@,
            "-t"@,
            tty@,
        ]),
{
    if tty.is_empty() {
        None
    } else {
        let c = owned(vec!["detach-client", "-t", tty]);
        assert(text::texts(c@) == seq!["detach-client"@, "-t"@, tty@]);
        Some(c)
    }
}

/// The commands that scroll a pane by three lines.
pub open spec fn scroll_commands(pane: Seq<char>, up: bool) -> Seq<Seq<Seq<char>>> {
    seq![
        seq!["copy-mode"@, "-e"@, "-t"@, pane],
        seq![
            "send-keys"@,
            "-X"@,
            "-t"@,
            pane,
            "-N"@,
            "3"@,
            if up { "scroll-up"@ } else { "scroll-down"@ },
        ],
    ]
}

/// The commands that scroll a pane by three lines.
pub fn scroll(pane: &str, up: bool) -> (r: Vec<Vec<String>>)
    ensures
        commands_view(r@) == scroll_commands(pane@, up),
{
    let dir = if up {
        "scroll-up"
    } else {
        "scroll-down"
    };
    let enter = owned(vec!["copy-mode", "-e", "-t", pane]);
    let turn = owned(vec!["send-keys", "-X", "-t", pane, "-N", "3", dir]);
    assert(text::texts(enter@) == scroll_commands(pane@, up)[0]);
    assert(text::texts(turn@) == scroll_commands(pane@, up)[1]);
    let r = vec![enter, turn];
    assert(commands_view(r@) == scroll_commands(pane@, up));
    r
}

/// The commands that take the user's own terminal to a pane.
pub open spec fn go_to_commands(
    session: Seq<char>,
    window: Seq<char>,
    id: Seq<char>,
) -> Seq<Seq<Seq<char>>> {
    seq![
        seq!["switch-client"@, "-t"@, session],
        seq!["select-window"@, "-t"@, window],
        seq!["select-pane"@, "-t"@, id],
    ]
}

/// The commands that take the user's own terminal to a pane.
pub fn go_to(pane: &Pane) -> (r: Vec<Vec<String>>)
    ensures
        commands_view(r@) == go_to_commands(pane.session@, pane.window@, pane.id@),
{
    let ghost all = go_to_commands(pane.session@, pane.window@, pane.id@);
    let session = owned(vec!["switch-client", "-t", pane.session.as_str()]);
    let window = owned(vec!["select-window", "-t", pane.window.as_str()]);
    let id = owned(vec!["select-pane", "-t", pane.id.as_str()]);
    assert(text::texts(session@) == all[0]);
    assert(text::texts(window@) == all[1]);
    assert(text::texts(id@) == all[2]);
    let r = vec![session, window, id];
    assert(commands_view(r@) == all);
    r
}

/// The command line by which `program` takes up a conversation again: by its session
/// id where that is known, else the latest one; without asking for permissions where
/// that is wished.
pub open spec fn resume_line(program: Seq<char>, sid: Seq<char>, dangerous: bool) -> Seq<char> {
    let start = if sid.len() == 0 {
        program + " --continue"@
    } else {
        program + " --resume "@ + sid
    };
    if dangerous {
        start + " --dangerously-skip-permissions"@
    } else {
        start
    }
}

/// The commands that restart `program` in a pane: what runs there is killed, and the
/// command line typed into the shell that takes its place.
pub open spec fn restart_commands(
    program: Seq<char>,
    id: Seq<char>,
    path: Seq<char>,
    sid: Seq<char>,
    dangerous: bool,
) -> Seq<Seq<Seq<char>>> {
    seq![
        seq!["respawn-pane"@, "-k"@, "-c"@, path, "-t"@, id],
        seq!["send-keys"@, "-t"@, id, "-l"@, resume_line(program, sid, dangerous)],
        seq!["send-keys"@, "-t"@, id, "Enter"@],
    ]
}

/// The commands that restart `program` in a pane.
pub fn restart(program: &str, id: &str, path: &str, sid: &str, dangerous: bool) -> (r: Vec<
    Vec<String>,
>)
    ensures
        commands_view(r@) == restart_commands(program@, id@, path@, sid@, dangerous),
{
    let ghost all = restart_commands(program@, id@, path@, sid@, dangerous);
    let mut line = program.to_owned();
    if sid.is_empty() {
        line.append(" --continue");
    } else {
        line.append(" --resume ");
        line.append(sid);
    }
    if dangerous {
        line.append(" --dangerously-skip-permissions");
    }
    let kill = owned(vec!["respawn-pane", "-k", "-c", path, "-t", id]);
    let typed = owned(vec!["send-keys", "-t", id, "-l", line.as_str()]);
    let enter = owned(vec!["send-keys", "-t", id, "Enter"]);
    assert(text::texts(kill@) == all[0]);
    assert(text::texts(typed@) == all[1]);
    assert(text::texts(enter@) == all[2]);
    let r = vec![kill, typed, enter];
    assert(commands_view(r@) == all);
    r
}

/// Restarting in danger differs by one flag and by nothing else.
pub proof fn law_restart_in_danger_adds_one_flag(program: Seq<char>, sid: Seq<char>)
    ensures
        resume_line(program, sid, true) == resume_line(program, sid, false)
            + " --dangerously-skip-permissions"@,
{
}

/// The text of an argument list.
proof fn lemma_texts(list: Seq<String>)
    ensures
        text::texts(list).len() == list.len(),
        forall|i: int| 0 <= i < list.len() ==> text::texts(list)[i] == (#[trigger] list[i])@,
{
}

proof fn lemma_commands(commands: Seq<Vec<String>>)
    ensures
        commands_view(commands).len() == commands.len(),
        forall|i: int|
            0 <= i < commands.len() ==> commands_view(commands)[i] == text::texts(
                (#[trigger] commands[i])@,
            ),
{
}

/// Listing, and asking for a session, differ only in what is asked for: the program, the
/// pane or the session, which stands in its place as it is given.
pub proof fn law_questions_name_what_they_ask_for(
    program: &str,
    pane: &str,
    session: &str,
    listing: Vec<String>,
    owner: Vec<String>,
    position: Vec<String>,
)
    requires
        call_ensures(list_claude_args, (program,), listing),
        call_ensures(session_of_args, (pane,), owner),
        call_ensures(session_status_args, (session,), position),
    ensures
        text::texts(listing@) == seq![
            "list-panes"@,
            "-a"@,
            "-f"@,
            "#{==:#{pane_current_command},"@ + program@ + seq!['}'],
            "-F"@,
            "#{pane_id}\t#{session_name}\t#{window_id}\t#{session_name}:#{window_index}.#{pane_index}\t#{pane_current_path}"@,
        ],
        owner@.len() == 4,
        owner@[0]@ == "display"@,
        owner@[1]@ == "-pt"@,
        owner@[2]@ == pane@,
        owner@[3]@ == "#{session_name}"@,
        position@.len() == 5,
        position@[0]@ == "show-options"@,
        position@[1]@ == "-t"@,
        position@[2]@ == session@,
        position@[3]@ == "-v"@,
        position@[4]@ == "status-position"@,
{
    reveal_strlit("}");
    assert("}"@ == seq!['}']);
    lemma_texts(owner@);
    lemma_texts(position@);
    assert(text::texts(listing@)[3] == "#{==:#{pane_current_command},"@ + program@ + seq!['}']);
}

/// A reply is what was printed, without the white space around it; there is none where
/// nothing else was printed, or where nothing was.
pub proof fn law_replies_are_read_trimmed(
    printed: &str,
    r: Option<String>,
    before: Seq<char>,
    middle: Seq<char>,
    after: Seq<char>,
)
    requires
        call_ensures(reply_in, (printed,), r),
        printed@ == before + middle + after,
        forall|i: int| 0 <= i < before.len() ==> text::white_space(#[trigger] before[i]),
        forall|i: int| 0 <= i < after.len() ==> text::white_space(#[trigger] after[i]),
        middle.len() > 0 ==> !text::white_space(middle.first()) && !text::white_space(
            middle.last(),
        ),
    ensures
        middle.len() > 0 ==> (r matches Some(s) && s@ == middle),
        middle.len() == 0 ==> r is None,
{
    text::law_trimming_keeps_what_is_between(before, middle, after);
}

/// What tmux prints is taken as a reply, and as the name of the panel's own session; where
/// it prints nothing, there is none.
pub proof fn law_own_session_is_the_reply(
    text: Seq<char>,
    stdout: &[u8],
    printed: &str,
    r: Option<String>,
    own: Option<String>,
    read: Option<String>,
    none: Option<String>,
)
    requires
        stdout@ == vstd::utf8::encode_utf8(text),
        printed@ == text,
        call_ensures(reply, (Some(stdout),), r),
        call_ensures(own_session, (Some(stdout),), own),
        call_ensures(own_session, (None,), none),
        call_ensures(reply_in, (printed,), read),
    ensures
        text::option_view(r) == text::option_view(read),
        text::option_view(own) == text::option_view(read),
        none is None,
{
    vstd::utf8::encode_utf8_valid_utf8(text);
    vstd::utf8::encode_utf8_decode_utf8(text);
}

/// The status line is at the top just where the session says "top", or says nothing and
/// all sessions do.
pub proof fn law_session_decides_on_its_status_line(
    session: &Option<String>,
    global: &Option<String>,
    r: bool,
)
    requires
        call_ensures(status_at_top, (session, global), r),
    ensures
        session matches Some(s) ==> r == (s@ == "top"@),
        session is None ==> (global matches Some(s) ==> r == (s@ == "top"@)),
        session is None && global is None ==> !r,
{
}

/// A client is detached by its terminal, where that is known.
pub proof fn law_clients_are_detached_by_terminal(tty: &str, r: Option<Vec<String>>)
    requires
        call_ensures(detach_args, (tty,), r),
    ensures
        r is None <==> tty@.len() == 0,
        r matches Some(c) ==> c@.len() == 3 && c@[0]@ == "detach-client"@ && c@[1]@ == "-t"@
            && c@[2]@ == tty@,
{
    if let Some(c) = r {
        lemma_texts(c@);
    }
}

/// Scrolling enters copy mode in the pane and turns its text by three lines, up or down.
pub proof fn law_scrolling_turns_the_pane(pane: &str, up: bool, r: Vec<Vec<String>>)
    requires
        call_ensures(scroll, (pane, up), r),
    ensures
        r@.len() == 2,
        text::texts(r@[0]@) == seq!["copy-mode"@, "-e"@, "-t"@, pane@],
        up ==> text::texts(r@[1]@) == seq![
            "send-keys"@,
            "-X"@,
            "-t"@,
            pane@,
            "-N"@,
            "3"@,
            "scroll-up"@,
        ],
        !up ==> text::texts(r@[1]@) == seq![
            "send-keys"@,
            "-X"@,
            "-t"@,
            pane@,
            "-N"@,
            "3"@,
            "scroll-down"@,
        ],
{
    lemma_commands(r@);
}

/// Going to a pane goes to its session, to its window and to itself, in this order.
pub proof fn law_going_to_a_pane_selects_it(pane: &Pane, r: Vec<Vec<String>>)
    requires
        call_ensures(go_to, (pane,), r),
    ensures
        r@.len() == 3,
        text::texts(r@[0]@) == seq!["switch-client"@, "-t"@, pane.session@],
        text::texts(r@[1]@) == seq!["select-window"@, "-t"@, pane.window@],
        text::texts(r@[2]@) == seq!["select-pane"@, "-t"@, pane.id@],
{
    lemma_commands(r@);
}

/// A restart kills what runs in the pane, with the pane's directory to work in, and types
/// one line there: the program's name, then `--resume` and the session id where there is
/// one, else `--continue`, and the flag where that is wished.
pub proof fn law_restart_resumes_in_the_pane(
    program: &str,
    id: &str,
    path: &str,
    sid: &str,
    dangerous: bool,
    r: Vec<Vec<String>>,
)
    requires
        call_ensures(restart, (program, id, path, sid, dangerous), r),
    ensures
        r@.len() == 3,
        text::texts(r@[0]@) == seq!["respawn-pane"@, "-k"@, "-c"@, path@, "-t"@, id@],
        text::texts(r@[2]@) == seq!["send-keys"@, "-t"@, id@, "Enter"@],
        r@[1]@.len() == 5,
        r@[1]@[0]@ == "send-keys"@,
        r@[1]@[1]@ == "-t"@,
        r@[1]@[2]@ == id@,
        r@[1]@[3]@ == "-l"@,
        sid@.len() == 0 && !dangerous ==> r@[1]@[4]@ == program@ + " --continue"@,
        sid@.len() > 0 && !dangerous ==> r@[1]@[4]@ == program@ + " --resume "@ + sid@,
        sid@.len() == 0 && dangerous ==> r@[1]@[4]@ == program@ + " --continue"@
            + " --dangerously-skip-permissions"@,
        sid@.len() > 0 && dangerous ==> r@[1]@[4]@ == program@ + " --resume "@ + sid@
            + " --dangerously-skip-permissions"@,
{
    lemma_commands(r@);
    lemma_texts(r@[1]@);
}

} // verus!
