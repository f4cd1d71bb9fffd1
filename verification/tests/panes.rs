use ccorral::pane::{
    alive_pane_ids, any_has_id, ids_in, list_claude_panes, merge_panes, panes_in, refresh_panes,
    Pane, PaneIds,
};
use ccorral::status::StatusFile;

fn fields(p: &Pane) -> Vec<&str> {
    vec![&p.id, &p.session, &p.window, &p.name, &p.path, &p.status]
}

fn pane(id: &str, status: &str) -> Pane {
    Pane {
        id: id.to_string(),
        session: "s".to_string(),
        window: "@1".to_string(),
        name: "s:1.0".to_string(),
        path: "/w".to_string(),
        status: status.to_string(),
    }
}

fn ids(panes: &Vec<Pane>) -> Vec<&str> {
    panes.iter().map(|p| p.id.as_str()).collect()
}

const LISTING: &str = "%1\twork\t@3\twork:1.0\t/home/me/src\n%2\town\t@4\town:0.0\t/tmp\n%7\tlab\t@9\tlab:2.1\t/odd\tpath\n";

#[test]
fn a_line_tells_a_pane() {
    let r = panes_in(LISTING, &None, &Vec::new());
    assert_eq!(r.len(), 3);
    assert_eq!(fields(&r[0]), vec!["%1", "work", "@3", "work:1.0", "/home/me/src", ""]);
    assert_eq!(fields(&r[2]), vec!["%7", "lab", "@9", "lab:2.1", "/odd\tpath", ""]);
}

#[test]
fn own_session_is_left_out() {
    let r = panes_in(LISTING, &Some("own".to_string()), &Vec::new());
    assert_eq!(ids(&r), vec!["%1", "%7"]);
    let r = panes_in(LISTING, &Some("nobody".to_string()), &Vec::new());
    assert_eq!(ids(&r), vec!["%1", "%2", "%7"]);
}

#[test]
fn short_lines_tell_nothing() {
    assert!(panes_in("a\tb\tc\td\n\nx\n", &None, &Vec::new()).is_empty());
    let r = panes_in("\t\t\t\t\r\n", &None, &Vec::new());
    assert_eq!(fields(&r[0]), vec!["", "", "", "", "", ""]);
}

#[test]
fn panes_get_their_status() {
    let files = vec![
        StatusFile { id: "%7".to_string(), contents: "active\n".to_string(), age: Some(1) },
        StatusFile { id: "%1".to_string(), contents: "perm".to_string(), age: None },
    ];
    let r = panes_in(LISTING, &None, &files);
    let statuses: Vec<&str> = r.iter().map(|p| p.status.as_str()).collect();
    assert_eq!(statuses, vec!["idle", "", "active"]);
}

#[test]
fn listing_as_bytes() {
    let r = list_claude_panes(Some(LISTING.as_bytes()), &None, &Vec::new());
    assert_eq!(ids(&r), vec!["%1", "%2", "%7"]);
    assert!(list_claude_panes(None, &None, &Vec::new()).is_empty());
    let r = list_claude_panes(Some(b"%1\ts\t@1\tn\xff\t/p\xc3\xa9\n"), &None, &Vec::new());
    assert_eq!(fields(&r[0]), vec!["%1", "s", "@1", "n\u{fffd}", "/p\u{e9}", ""]);
}

#[test]
fn alive_ids_are_trimmed_lines() {
    let r = alive_pane_ids(Some(b"%1\n %2 \r\n%1\n"));
    assert!(r.contains("%1"));
    assert!(r.contains("%2"));
    assert!(!r.contains("%3"));
    assert!(!r.contains(" %2 "));
    assert!(!r.contains(""));
    assert!(!alive_pane_ids(None).contains("%1"));
    assert!(ids_in("%1\n\n").contains(""));
    assert!(alive_pane_ids(Some(b"\xff\n")).contains("\u{fffd}"));
}

#[test]
fn a_set_of_ids() {
    let mut s = PaneIds::new();
    assert!(!s.contains("%1"));
    s.insert("%1".to_string());
    s.insert("%1".to_string());
    s.insert("%2".to_string());
    assert!(s.contains("%1"));
    assert!(s.contains("%2"));
    assert!(!s.contains("%"));
}

#[test]
fn crashed_panes_stay_and_are_dead() {
    let prev = vec![pane("%1", "active"), pane("%2", "perm"), pane("%3", "idle"), pane("%4", "dead")];
    let live = vec![pane("%3", "active"), pane("%5", "")];
    let alive = ids_in("%1\n%3\n%4\n%5\n");
    let running = vec![pane("%3", "active"), pane("%5", "")];
    let r = merge_panes(&prev, live, &running, &alive);
    assert_eq!(ids(&r), vec!["%3", "%5", "%1", "%4"]);
    let statuses: Vec<&str> = r.iter().map(|p| p.status.as_str()).collect();
    assert_eq!(statuses, vec!["active", "", "dead", "dead"]);
    assert_eq!(fields(&r[2]), vec!["%1", "s", "@1", "s:1.0", "/w", "dead"]);
}

#[test]
fn a_session_that_comes_back_is_no_longer_dead() {
    let prev = vec![pane("%1", "dead")];
    let running = vec![pane("%1", "active")];
    let r = merge_panes(&prev, vec![pane("%1", "active")], &running, &ids_in("%1"));
    assert_eq!(ids(&r), vec!["%1"]);
    assert_eq!(r[0].status, "active");
}

#[test]
fn refresh_from_what_tmux_printed() {
    let prev = vec![pane("%1", "active"), pane("%8", "active"), pane("%9", "active")];
    let r = refresh_panes(
        &prev,
        Some(LISTING.as_bytes()),
        &Some("own".to_string()),
        &Vec::new(),
        Some(b"%1\n%2\n%7\n%9\n"),
    );
    assert_eq!(ids(&r), vec!["%1", "%7", "%9"]);
    assert_eq!(r[2].status, "dead");
    assert_eq!(r[0].status, "");
}

#[test]
fn a_pane_that_moved_to_the_own_session_leaves() {
    let prev = vec![pane("%2", "active"), pane("%9", "active")];
    let r = refresh_panes(
        &prev,
        Some(LISTING.as_bytes()),
        &Some("own".to_string()),
        &Vec::new(),
        Some(b"%1\n%2\n%7\n%9\n"),
    );
    assert_eq!(ids(&r), vec!["%1", "%7", "%9"]);
    let statuses: Vec<&str> = r.iter().map(|p| p.status.as_str()).collect();
    assert_eq!(statuses, vec!["", "", "dead"]);
    let live = vec![pane("%1", "active")];
    let running = vec![pane("%1", "active"), pane("%2", "active")];
    let r = merge_panes(&prev, live, &running, &ids_in("%1\n%2\n%9\n"));
    assert_eq!(ids(&r), vec!["%1", "%9"]);
}

#[test]
fn a_pane_listed_twice_in_the_own_session_leaves() {
    let own = Some("own".to_string());
    let twice = b"%2\town\t@4\town:0.0\t/tmp\n%2\town\t@4\town:1.0\t/tmp\n";
    let prev = vec![pane("%2", "active")];
    assert!(refresh_panes(&prev, Some(twice), &own, &Vec::new(), Some(b"%2\n")).is_empty());
}

#[test]
fn refresh_without_tmux_is_empty() {
    let prev = vec![pane("%1", "active")];
    assert!(refresh_panes(&prev, None, &None, &Vec::new(), None).is_empty());
    let r = refresh_panes(&prev, None, &None, &Vec::new(), Some(b"%1\n"));
    assert_eq!(r[0].status, "dead");
}

#[test]
fn looking_for_an_id() {
    let v = vec![pane("%1", ""), pane("%2", "")];
    assert!(any_has_id(&v, "%2"));
    assert!(!any_has_id(&v, "%22"));
}
