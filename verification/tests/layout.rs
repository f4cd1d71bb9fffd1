use ccorral::layout::{
    columns, left_rows, places, session_area, status_row, terminal_area, Area, RowSpan,
};

fn area(x: u16, y: u16, width: u16, height: u16) -> Area {
    Area { x, y, width, height }
}

#[test]
fn the_whole_terminal() {
    assert_eq!(terminal_area(Some((80, 24))), area(0, 0, 80, 24));
    assert_eq!(terminal_area(None), area(0, 0, 0, 0));
}

#[test]
fn columns_of_a_wide_terminal() {
    assert_eq!(columns(area(0, 0, 80, 24)), (area(0, 0, 32, 24), area(32, 0, 48, 24)));
    assert_eq!(columns(area(0, 0, 42, 24)), (area(0, 0, 32, 24), area(32, 0, 10, 24)));
}

#[test]
fn columns_of_a_narrow_terminal() {
    assert_eq!(columns(area(0, 0, 41, 24)), (area(0, 0, 31, 24), area(31, 0, 10, 24)));
    assert_eq!(columns(area(0, 0, 10, 24)), (area(0, 0, 0, 24), area(0, 0, 10, 24)));
    assert_eq!(columns(area(0, 0, 4, 24)), (area(0, 0, 0, 24), area(0, 0, 4, 24)));
    assert_eq!(columns(area(0, 0, 0, 0)), (area(0, 0, 0, 0), area(0, 0, 0, 0)));
}

#[test]
fn columns_share_every_width() {
    let widths = (0..600u16).chain([1000, 4321, 32767, 32768, 40000, 65000, 65528]);
    for w in widths {
        for x in [0u16, 7] {
            let right = if w >= 42 { w - 32 } else { w.min(10) };
            let left = w - right;
            assert_eq!(
                columns(area(x, 3, w, 5)),
                (area(x, 3, left, 5), area(x + left, 3, right, 5))
            );
        }
    }
}

#[test]
fn rows_share_every_height() {
    let heights = (0..300u16).chain([1000, 32767, 32768, 65000, 65530]);
    for h in heights {
        for y in [0u16, 5] {
            let list = if h >= 11 { h - 8 } else { h.min(3) };
            let help = h - list;
            assert_eq!(
                left_rows(area(2, y, 32, h)),
                (area(2, y, 32, list), area(2, y + list, 32, help))
            );
        }
    }
}

#[test]
fn inside_the_border() {
    assert_eq!(session_area(area(32, 0, 48, 24)), area(33, 1, 46, 22));
    assert_eq!(session_area(area(5, 6, 2, 2)), area(6, 7, 0, 0));
    assert_eq!(session_area(area(5, 6, 1, 1)), area(6, 7, 0, 0));
    assert_eq!(session_area(area(5, 6, 0, 0)), area(5, 6, 0, 0));
    assert_eq!(session_area(area(65535, 65535, 0, 0)), area(65535, 65535, 0, 0));
    assert_eq!(session_area(area(65534, 0, 1, 3)), area(65535, 1, 0, 1));
}

#[test]
fn all_the_places() {
    let p = places(terminal_area(Some((100, 40))));
    assert_eq!(p.list, area(0, 0, 32, 32));
    assert_eq!(p.help, area(0, 32, 32, 8));
    assert_eq!(p.right, area(32, 0, 68, 40));
    assert_eq!(p.inner, area(33, 1, 66, 38));
}

#[test]
fn the_status_row_is_the_first_or_the_last() {
    let inner = area(33, 1, 46, 22);
    assert_eq!(status_row(inner, true), Some(RowSpan { y: 1, from: 33, to: 79 }));
    assert_eq!(status_row(inner, false), Some(RowSpan { y: 22, from: 33, to: 79 }));
    assert_eq!(status_row(area(3, 4, 1, 1), false), Some(RowSpan { y: 4, from: 3, to: 4 }));
    assert_eq!(status_row(area(0, 0, 0, 5), true), None);
    assert_eq!(status_row(area(0, 0, 5, 0), false), None);
    assert_eq!(
        status_row(area(65534, 65534, 1, 1), false),
        Some(RowSpan { y: 65534, from: 65534, to: 65535 })
    );
}
