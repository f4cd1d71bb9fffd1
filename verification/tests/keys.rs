use ccorral::keys::{key_to_bytes, Key, KeyCode, EOT};

fn plain(code: KeyCode) -> Vec<u8> {
    key_to_bytes(Key { code, ctrl: false })
}

fn ctrl(c: char) -> Vec<u8> {
    key_to_bytes(Key { code: KeyCode::Char(c), ctrl: true })
}

#[test]
fn characters_are_sent_in_utf8() {
    assert_eq!(plain(KeyCode::Char('a')), b"a");
    assert_eq!(plain(KeyCode::Char('d')), b"d");
    assert_eq!(plain(KeyCode::Char('é')), "é".as_bytes());
    assert_eq!(plain(KeyCode::Char('✳')), "✳".as_bytes());
    assert_eq!(plain(KeyCode::Char('😀')), "😀".as_bytes());
    assert_eq!(plain(KeyCode::Char('\u{104}')), "\u{104}".as_bytes());
}

#[test]
fn control_characters() {
    assert_eq!(ctrl('a'), vec![1]);
    assert_eq!(ctrl('A'), vec![1]);
    assert_eq!(ctrl('c'), vec![3]);
    assert_eq!(ctrl('z'), vec![26]);
    assert_eq!(ctrl('['), vec![27]);
    assert_eq!(ctrl(' '), vec![0]);
    assert_eq!(ctrl('_'), vec![31]);
    assert_eq!(ctrl('é'), vec![9]);
}

#[test]
fn ctrl_d_is_never_sent() {
    assert!(ctrl('d').is_empty());
    assert!(ctrl('D').is_empty());
    assert!(ctrl('$').is_empty());
    assert!(ctrl('\u{104}').is_empty());
    assert!(plain(KeyCode::Char('\u{4}')).is_empty());
}

#[test]
fn no_key_sends_end_of_transmission() {
    for n in 0..=0x10ffffu32 {
        if let Some(c) = char::from_u32(n) {
            assert!(!ctrl(c).contains(&EOT));
            assert!(!plain(KeyCode::Char(c)).contains(&EOT));
        }
    }
}

#[test]
fn control_byte_is_the_low_five_bits() {
    for n in 0..0x3000u32 {
        if let Some(c) = char::from_u32(n) {
            let byte = (c.to_ascii_uppercase() as u8).wrapping_sub(0x40) & 0x1f;
            if byte != EOT {
                assert_eq!(ctrl(c), vec![byte]);
            }
        }
    }
}

#[test]
fn keys_with_sequences() {
    assert_eq!(plain(KeyCode::Enter), b"\r");
    assert_eq!(plain(KeyCode::Backspace), b"\x7f");
    assert_eq!(plain(KeyCode::Tab), b"\t");
    assert_eq!(plain(KeyCode::BackTab), b"\x1b[Z");
    assert_eq!(plain(KeyCode::Esc), b"\x1b");
    assert_eq!(plain(KeyCode::Up), b"\x1b[A");
    assert_eq!(plain(KeyCode::Down), b"\x1b[B");
    assert_eq!(plain(KeyCode::Right), b"\x1b[C");
    assert_eq!(plain(KeyCode::Left), b"\x1b[D");
    assert_eq!(plain(KeyCode::Home), b"\x1b[H");
    assert_eq!(plain(KeyCode::End), b"\x1b[F");
    assert_eq!(plain(KeyCode::Insert), b"\x1b[2~");
    assert_eq!(plain(KeyCode::Delete), b"\x1b[3~");
    assert_eq!(plain(KeyCode::PageUp), b"\x1b[5~");
    assert_eq!(plain(KeyCode::PageDown), b"\x1b[6~");
}

#[test]
fn function_keys() {
    assert_eq!(plain(KeyCode::F(1)), b"\x1bOP");
    assert_eq!(plain(KeyCode::F(3)), b"\x1bOR");
    assert_eq!(plain(KeyCode::F(4)), b"\x1bOS");
    let numbers = [19, 20, 21, 23, 24, 25, 26, 28, 29, 31, 32, 33, 34];
    for (i, n) in numbers.iter().enumerate() {
        assert_eq!(plain(KeyCode::F(8 + i as u8)), format!("\x1b[{}~", n).into_bytes());
    }
}

#[test]
fn keys_without_a_sequence_send_nothing() {
    for n in [0, 2, 5, 6, 7, 21, 255] {
        assert!(plain(KeyCode::F(n)).is_empty());
    }
    assert!(plain(KeyCode::Other).is_empty());
}

#[test]
fn every_other_key_sends_something() {
    for n in 0..=0x10ffffu32 {
        if let Some(c) = char::from_u32(n) {
            assert_eq!(plain(KeyCode::Char(c)).is_empty(), n == 4);
            assert_eq!(ctrl(c).is_empty(), n % 32 == 4);
        }
    }
}

#[test]
fn control_changes_only_characters() {
    let key = Key { code: KeyCode::Left, ctrl: true };
    assert_eq!(key_to_bytes(key), b"\x1b[D");
}
