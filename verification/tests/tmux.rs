use ccorral::pane::Pane;
use ccorral::tmux::{
    detach_args, global_status_args, go_to, list_all_args, list_claude_args, own_session, reply,
    reply_in, restart, scroll, session_of_args, session_status_args, status_at_top,
};

#[test]
fn listing_commands() {
    assert_eq!(
        list_claude_args("prog"),
        vec![
            "list-panes",
            "-a",
            "-f",
            "#{==:#{pane_current_command},prog}",
            "-F",
            "#{pane_id}\t#{session_name}\t#{window_id}\t#{session_name}:#{window_index}.#{pane_index}\t#{pane_current_path}",
        ]
    );
    assert_eq!(list_all_args(), vec!["list-panes", "-a", "-F", "#{pane_id}"]);
}

#[test]
fn asking_commands() {
    assert_eq!(session_of_args("%0"), vec!["display", "-pt", "%0", "#{session_name}"]);
    assert_eq!(
        session_status_args("work"),
        vec!["show-options", "-t", "work", "-v", "status-position"]
    );
    assert_eq!(global_status_args(), vec!["show-options", "-gv", "status-position"]);
}

#[test]
fn replies_are_trimmed() {
    assert_eq!(reply(Some(b" top\n")), Some("top".to_string()));
    assert_eq!(reply(Some(b" \n")), None);
    assert_eq!(reply(Some(b"")), None);
    assert_eq!(reply(None), None);
    assert_eq!(reply(Some(b"\xffx")), Some("\u{fffd}x".to_string()));
    assert_eq!(reply_in("\tx y\r\n"), Some("x y".to_string()));
}

#[test]
fn own_session_from_the_reply() {
    assert_eq!(own_session(Some(b"panel\n")), Some("panel".to_string()));
    assert_eq!(own_session(Some(b"\n")), None);
    assert_eq!(own_session(None), None);
}

#[test]
fn where_the_status_line_is() {
    let top = Some("top".to_string());
    let bottom = Some("bottom".to_string());
    assert!(status_at_top(&top, &bottom));
    assert!(status_at_top(&top, &None));
    assert!(!status_at_top(&bottom, &top));
    assert!(status_at_top(&None, &top));
    assert!(!status_at_top(&None, &bottom));
    assert!(!status_at_top(&None, &None));
}

#[test]
fn detaching_needs_a_terminal() {
    assert_eq!(
        detach_args("/dev/pts/3"),
        Some(vec!["detach-client".to_string(), "-t".to_string(), "/dev/pts/3".to_string()])
    );
    assert_eq!(detach_args(""), None);
}

#[test]
fn scrolling_commands() {
    assert_eq!(
        scroll("%1", true),
        vec![
            vec!["copy-mode", "-e", "-t", "%1"],
            vec!["send-keys", "-X", "-t", "%1", "-N", "3", "scroll-up"],
        ]
    );
    assert_eq!(scroll("%1", false)[1][6], "scroll-down");
}

#[test]
fn going_to_a_pane() {
    let p = Pane {
        id: "%1".to_string(),
        session: "s".to_string(),
        window: "@2".to_string(),
        name: String::new(),
        path: String::new(),
        status: String::new(),
    };
    assert_eq!(
        go_to(&p),
        vec![
            vec!["switch-client", "-t", "s"],
            vec!["select-window", "-t", "@2"],
            vec!["select-pane", "-t", "%1"],
        ]
    );
}

#[test]
fn restarting_a_session() {
    assert_eq!(
        restart("prog", "%1", "/w", "abc-1", false),
        vec![
            vec!["respawn-pane", "-k", "-c", "/w", "-t", "%1"],
            vec!["send-keys", "-t", "%1", "-l", "prog --resume abc-1"],
            vec!["send-keys", "-t", "%1", "Enter"],
        ]
    );
    assert_eq!(restart("prog", "%1", "/w", "", false)[1][4], "prog --continue");
    assert_eq!(
        restart("prog", "%1", "/w", "", true)[1][4],
        "prog --continue --dangerously-skip-permissions"
    );
    assert_eq!(
        restart("prog", "%1", "/w", "x", true)[1][4],
        "prog --resume x --dangerously-skip-permissions"
    );
}
