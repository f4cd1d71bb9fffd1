use ccorral::selection::{step, Selection};

fn stepped(index: Option<usize>, len: usize, delta: isize) -> Option<usize> {
    let mut s = Selection { index };
    step(&mut s, len, delta);
    s.index
}

#[test]
fn step_moves_by_one() {
    assert_eq!(stepped(Some(1), 3, 1), Some(2));
    assert_eq!(stepped(Some(1), 3, -1), Some(0));
}

#[test]
fn step_goes_round_the_ends() {
    assert_eq!(stepped(Some(2), 3, 1), Some(0));
    assert_eq!(stepped(Some(0), 3, -1), Some(2));
    assert_eq!(stepped(Some(0), 1, 1), Some(0));
}

#[test]
fn step_without_selection_starts_at_the_first() {
    assert_eq!(stepped(None, 3, 1), Some(1));
    assert_eq!(stepped(None, 3, -1), Some(2));
}

#[test]
fn step_in_an_empty_list_changes_nothing() {
    assert_eq!(stepped(None, 0, 1), None);
    assert_eq!(stepped(Some(7), 0, -1), Some(7));
}

#[test]
fn step_by_any_distance() {
    assert_eq!(stepped(Some(1), 5, 13), Some(4));
    assert_eq!(stepped(Some(1), 5, -13), Some(3));
    assert_eq!(stepped(Some(9), 4, 0), Some(1));
    assert_eq!(stepped(Some(0), 3, isize::MAX), Some((isize::MAX as usize) % 3));
}

#[test]
fn step_there_and_back() {
    for len in 1..8usize {
        for i in 0..len {
            for delta in -9..10isize {
                let there = stepped(Some(i), len, delta);
                assert!(there.unwrap() < len);
                assert_eq!(stepped(there, len, -delta), Some(i));
            }
            assert_eq!(stepped(Some(i), len, len as isize), Some(i));
            assert_eq!(stepped(Some(i), len, -(len as isize)), Some(i));
        }
    }
}
