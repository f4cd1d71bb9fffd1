use ccorral::status::{
    find_status, read_sid, read_status, sid_path, status_dir, status_path, write_idle,
    write_status, StatusFile,
};

const LIMIT: u128 = 150_000_000_000;

#[test]
fn paths_of_the_status_files() {
    assert_eq!(status_dir("/home/me"), "/home/me/.cc-status");
    assert_eq!(status_path("/home/me", "%3"), "/home/me/.cc-status/%3");
    assert_eq!(sid_path("/home/me", "%3"), "/home/me/.cc-status/%3.sid");
    assert_eq!(status_path("", "%3"), "/.cc-status/%3");
}

#[test]
fn writing_a_status() {
    let w = write_status("/h", "%1", "active");
    assert_eq!(w.dir, "/h/.cc-status");
    assert_eq!(w.path, "/h/.cc-status/%1");
    assert_eq!(w.contents, "active");
    let w = write_idle("/h", "%1");
    assert_eq!(w.path, "/h/.cc-status/%1");
    assert_eq!(w.contents, "idle");
}

#[test]
fn session_ids_are_trimmed() {
    assert_eq!(read_sid(Some(" 1f2e-77 \n")), "1f2e-77");
    assert_eq!(read_sid(Some("\n")), "");
    assert_eq!(read_sid(None), "");
}

#[test]
fn fresh_status_is_believed() {
    assert_eq!(read_status(Some("active\n"), Some(0)), "active");
    assert_eq!(read_status(Some("active"), Some(LIMIT)), "active");
    assert_eq!(read_status(Some(" perm "), Some(LIMIT)), "perm");
}

#[test]
fn stale_status_is_idle() {
    assert_eq!(read_status(Some("active\n"), Some(LIMIT + 1)), "idle");
    assert_eq!(read_status(Some("perm"), Some(u128::MAX)), "idle");
    assert_eq!(read_status(Some("active"), None), "idle");
    assert_eq!(read_status(Some("perm"), None), "idle");
}

#[test]
fn other_status_does_not_age() {
    for s in ["idle", "dead", "done", ""] {
        for age in [None, Some(0), Some(LIMIT + 1)] {
            assert_eq!(read_status(Some(s), age), s);
        }
    }
    assert_eq!(read_status(None, None), "");
    assert_eq!(read_status(Some("Active"), None), "Active");
}

#[test]
fn the_first_file_of_a_pane_counts() {
    let file = |id: &str, contents: &str, age: Option<u128>| StatusFile {
        id: id.to_string(),
        contents: contents.to_string(),
        age,
    };
    let files = vec![
        file("%1", "active", Some(1)),
        file("%2", "perm\n", None),
        file("%1", "dead", Some(1)),
    ];
    assert_eq!(find_status(&files, "%1"), "active");
    assert_eq!(find_status(&files, "%2"), "idle");
    assert_eq!(find_status(&files, "%3"), "");
    assert_eq!(find_status(&Vec::new(), "%1"), "");
}
