//! Keys, and the bytes that they send to the pane.

use vstd::prelude::*;

verus! {

/// A key, as far as the panel tells keys apart.
#[derive(Clone, Copy, Debug, PartialEq, Eq, Structural)]
pub enum KeyCode {
    Char(char),
    Enter,
    Backspace,
    Tab,
    BackTab,
    Esc,
    Up,
    Down,
    Right,
    Left,
    Home,
    End,
    Insert,
    Delete,
    PageUp,
    PageDown,
    F(u8),
    /// A key that sends nothing by itself, such as a modifier.
    Other,
}

/// A key, and whether it is held together with Control.
#[derive(Clone, Copy, Debug, PartialEq, Eq, Structural)]
pub struct Key {
    pub code: KeyCode,
    pub ctrl: bool,
}

/// End of transmission, which is what Ctrl-D sends: it would end the session.
pub const EOT: u8 = 4;

/// The control character that Control makes of `c`: its low five bits.
pub open spec fn control_byte(c: char) -> u8 {
    (c as u32 % 32) as u8
}

/// Whether a key is Ctrl-D, by whatever character it is entered.
pub open spec fn is_ctrl_d(key: Key) -> bool {
    key.code matches KeyCode::Char(c) && (if key.ctrl {
        control_byte(c) == EOT
    } else {
        c == '\u{4}'
    })
}

/// The function keys that the panel keeps for itself.
pub open spec fn is_own_function(n: u8) -> bool {
    n == 2 || 5 <= n <= 7
}

/// The VT sequence of a function key. Those that the panel keeps for itself send
/// nothing, and there are none beyond F20.
pub open spec fn function_bytes(n: u8) -> Seq<u8> {
    match n {
        1 => seq![0x1bu8, 0x4f, 0x50],  // ESC O P
        3 => seq![0x1bu8, 0x4f, 0x52],  // ESC O R
        4 => seq![0x1bu8, 0x4f, 0x53],  // ESC O S
        8 => seq![0x1bu8, 0x5b, 0x31, 0x39, 0x7e],  // ESC [ 19 ~
        9 => seq![0x1bu8, 0x5b, 0x32, 0x30, 0x7e],  // ESC [ 20 ~
        10 => seq![0x1bu8, 0x5b, 0x32, 0x31, 0x7e],  // ESC [ 21 ~
        11 => seq![0x1bu8, 0x5b, 0x32, 0x33, 0x7e],  // ESC [ 23 ~
        12 => seq![0x1bu8, 0x5b, 0x32, 0x34, 0x7e],  // ESC [ 24 ~
        13 => seq![0x1bu8, 0x5b, 0x32, 0x35, 0x7e],  // ESC [ 25 ~
        14 => seq![0x1bu8, 0x5b, 0x32, 0x36, 0x7e],  // ESC [ 26 ~
        15 => seq![0x1bu8, 0x5b, 0x32, 0x38, 0x7e],  // ESC [ 28 ~
        16 => seq![0x1bu8, 0x5b, 0x32, 0x39, 0x7e],  // ESC [ 29 ~
        17 => seq![0x1bu8, 0x5b, 0x33, 0x31, 0x7e],  // ESC [ 31 ~
        18 => seq![0x1bu8, 0x5b, 0x33, 0x32, 0x7e],  // ESC [ 32 ~
        19 => seq![0x1bu8, 0x5b, 0x33, 0x33, 0x7e],  // ESC [ 33 ~
        20 => seq![0x1bu8, 0x5b, 0x33, 0x34, 0x7e],  // ESC [ 34 ~
        _ => seq![],
    }
}

/// Whether a key has something to send: all have but the function keys that the panel
/// keeps for itself or that have no sequence, and what is no key by itself.
pub open spec fn has_bytes(code: KeyCode) -> bool {
    match code {
        KeyCode::F(n) => 1 <= n <= 20 && !is_own_function(n),
        KeyCode::Other => false,
        _ => true,
    }
}

/// The bytes that a key sends: a control character for a character with Control, a
/// character in UTF-8 without, a VT sequence for a key that has one, and nothing
/// otherwise. Ctrl-D sends nothing, by whatever character it is entered.
pub open spec fn key_bytes(key: Key) -> Seq<u8> {
    match key.code {
        KeyCode::Char(c) => if key.ctrl {
            if control_byte(c) == EOT {
                seq![]
            } else {
                seq![control_byte(c)]
            }
        } else if c == '\u{4}' {
            seq![]
        } else {
            vstd::utf8::encode_utf8(seq![c])
        },
        KeyCode::Enter => seq![0x0du8],
        KeyCode::Backspace => seq![0x7fu8],
        KeyCode::Tab => seq![0x09u8],
        KeyCode::BackTab => seq![0x1bu8, 0x5b, 0x5a],  // ESC [ Z
        KeyCode::Esc => seq![0x1bu8],
        KeyCode::Up => seq![0x1bu8, 0x5b, 0x41],  // ESC [ A
        KeyCode::Down => seq![0x1bu8, 0x5b, 0x42],  // ESC [ B
        KeyCode::Right => seq![0x1bu8, 0x5b, 0x43],  // ESC [ C
        KeyCode::Left => seq![0x1bu8, 0x5b, 0x44],  // ESC [ D
        KeyCode::Home => seq![0x1bu8, 0x5b, 0x48],  // ESC [ H
        KeyCode::End => seq![0x1bu8, 0x5b, 0x46],  // ESC [ F
        KeyCode::Insert => seq![0x1bu8, 0x5b, 0x32, 0x7e],  // ESC [ 2 ~
        KeyCode::Delete => seq![0x1bu8, 0x5b, 0x33, 0x7e],  // ESC [ 3 ~
        KeyCode::PageUp => seq![0x1bu8, 0x5b, 0x35, 0x7e],  // ESC [ 5 ~
        KeyCode::PageDown => seq![0x1bu8, 0x5b, 0x36, 0x7e],  // ESC [ 6 ~
        KeyCode::F(n) => function_bytes(n),
        KeyCode::Other => seq![],
    }
}

fn function_to_bytes(n: u8) -> (r: Vec<u8>)
    ensures
        r@ == function_bytes(n),
{
    match n {
        1 => vec![0x1b, 0x4f, 0x50],
        3 => vec![0x1b, 0x4f, 0x52],
        4 => vec![0x1b, 0x4f, 0x53],
        8 => vec![0x1b, 0x5b, 0x31, 0x39, 0x7e],
        9 => vec![0x1b, 0x5b, 0x32, 0x30, 0x7e],
        10 => vec![0x1b, 0x5b, 0x32, 0x31, 0x7e],
        11 => vec![0x1b, 0x5b, 0x32, 0x33, 0x7e],
        12 => vec![0x1b, 0x5b, 0x32, 0x34, 0x7e],
        13 => vec![0x1b, 0x5b, 0x32, 0x35, 0x7e],
        14 => vec![0x1b, 0x5b, 0x32, 0x36, 0x7e],
        15 => vec![0x1b, 0x5b, 0x32, 0x38, 0x7e],
        16 => vec![0x1b, 0x5b, 0x32, 0x39, 0x7e],
        17 => vec![0x1b, 0x5b, 0x33, 0x31, 0x7e],
        18 => vec![0x1b, 0x5b, 0x33, 0x32, 0x7e],
        19 => vec![0x1b, 0x5b, 0x33, 0x33, 0x7e],
        20 => vec![0x1b, 0x5b, 0x33, 0x34, 0x7e],
        _ => Vec::new(),
    }
}

/// The bytes that a key sends to the pane.
pub fn key_to_bytes(key: Key) -> (r: Vec<u8>)
    ensures
        r@ == key_bytes(key),
{
    match key.code {
        KeyCode::Char(c) => {
            if key.ctrl {
                let b: u8 = (c as u32 % 32) as u8;
                if b == EOT {
                    Vec::new()
                } else {
                    vec![b]
                }
            } else if c == '\u{4}' {
                Vec::new()
            } else {
                let mut s = String::new();
                s.push(c);
                assert(s@ == seq![c]);
                s.as_str().as_bytes_vec()
            }
        },
        KeyCode::Enter => vec![0x0d],
        KeyCode::Backspace => vec![0x7f],
        KeyCode::Tab => vec![0x09],
        KeyCode::BackTab => vec![0x1b, 0x5b, 0x5a],
        KeyCode::Esc => vec![0x1b],
        KeyCode::Up => vec![0x1b, 0x5b, 0x41],
        KeyCode::Down => vec![0x1b, 0x5b, 0x42],
        KeyCode::Right => vec![0x1b, 0x5b, 0x43],
        KeyCode::Left => vec![0x1b, 0x5b, 0x44],
        KeyCode::Home => vec![0x1b, 0x5b, 0x48],
        KeyCode::End => vec![0x1b, 0x5b, 0x46],
        KeyCode::Insert => vec![0x1b, 0x5b, 0x32, 0x7e],
        KeyCode::Delete => vec![0x1b, 0x5b, 0x33, 0x7e],
        KeyCode::PageUp => vec![0x1b, 0x5b, 0x35, 0x7e],
        KeyCode::PageDown => vec![0x1b, 0x5b, 0x36, 0x7e],
        KeyCode::F(n) => function_to_bytes(n),
        KeyCode::Other => Vec::new(),
    }
}

/// The encoding of one character: not empty, and without the byte of Ctrl-D unless the
/// character is just that.
proof fn lemma_encoded(c: char)
    ensures
        vstd::utf8::encode_utf8(seq![c]).len() > 0,
        c != '\u{4}' ==> !vstd::utf8::encode_utf8(seq![c]).contains(EOT),
{
    let u = c as u32;
    let one = seq![c];
    vstd::utf8::char_is_scalar(c);
    assert(one.drop_first() == Seq::<char>::empty());
    assert(vstd::utf8::encode_utf8(one.drop_first()) == Seq::<u8>::empty());
    assert(vstd::utf8::encode_utf8(one) == vstd::utf8::encode_scalar(u));
    assert(u != 4 && u <= 0x7f ==> (u & 0x7f) as u8 != 4) by (bit_vector);
    assert((0xc0 | ((u >> 6) & 0x1f) as u8) >= 0x80) by (bit_vector);
    assert((0xe0 | ((u >> 12) & 0x0f) as u8) >= 0x80) by (bit_vector);
    assert((0xf0 | ((u >> 18) & 0x7) as u8) >= 0x80) by (bit_vector);
    assert((0x80 | (u & 0x3f) as u8) >= 0x80) by (bit_vector);
    assert((0x80 | ((u >> 6) & 0x3f) as u8) >= 0x80) by (bit_vector);
    assert((0x80 | ((u >> 12) & 0x3f) as u8) >= 0x80) by (bit_vector);
}

/// Ctrl-D never reaches the pane: no key sends that byte.
pub proof fn law_never_sends_eot(key: Key)
    ensures
        !key_bytes(key).contains(EOT),
{
    if let KeyCode::Char(c) = key.code {
        lemma_encoded(c);
    }
}

/// Every key but Ctrl-D sends something, if it has bytes to send at all; Ctrl-D sends
/// nothing.
pub proof fn law_keys_are_sent(key: Key)
    ensures
        key_bytes(key).len() > 0 <==> has_bytes(key.code) && !is_ctrl_d(key),
{
    if let KeyCode::Char(c) = key.code {
        lemma_encoded(c);
    }
}

/// A character is sent as it is typed: without Control, what arrives is valid UTF-8 and
/// decodes to just that character.
pub proof fn law_characters_are_sent_as_typed(c: char, r: Vec<u8>)
    requires
        call_ensures(key_to_bytes, (Key { code: KeyCode::Char(c), ctrl: false },), r),
        c as u32 != 4,
    ensures
        vstd::utf8::valid_utf8(r@),
        vstd::utf8::decode_utf8(r@) == seq![c],
{
    vstd::utf8::encode_utf8_valid_utf8(seq![c]);
    vstd::utf8::encode_utf8_decode_utf8(seq![c]);
}

/// With Control, a character sends the one control character that agrees with it in the
/// low five bits, so that upper and lower case do the same. That of Ctrl-D is never sent.
pub proof fn law_control_keeps_the_low_bits(c: char, r: Vec<u8>)
    requires
        call_ensures(key_to_bytes, (Key { code: KeyCode::Char(c), ctrl: true },), r),
    ensures
        c as u32 % 32 != 4 ==> r@.len() == 1 && r@[0] < 32 && (c as int - r@[0]) % 32 == 0,
        c as u32 % 32 == 4 ==> r@.len() == 0,
{
}

/// Control makes a difference for characters only.
pub proof fn law_control_changes_only_characters(code: KeyCode, with: Vec<u8>, without: Vec<u8>)
    requires
        code !is Char,
        call_ensures(key_to_bytes, (Key { code, ctrl: true },), with),
        call_ensures(key_to_bytes, (Key { code, ctrl: false },), without),
    ensures
        with@ == without@,
{
}

/// The keys that move the cursor send `ESC [` and one letter, or a number and `~`; the
/// keys that a typewriter has send their control character, and Shift+Tab `ESC [ Z`.
pub proof fn law_named_keys_send_their_sequences(code: KeyCode, ctrl: bool, r: Vec<u8>)
    requires
        call_ensures(key_to_bytes, (Key { code, ctrl },), r),
    ensures
        code is Enter ==> r@ == seq![13u8],
        code is Tab ==> r@ == seq![9u8],
        code is Esc ==> r@ == seq![27u8],
        code is Backspace ==> r@ == seq![127u8],
        code is Up ==> r@ == seq![27u8, 91, 'A' as u8],
        code is Down ==> r@ == seq![27u8, 91, 'B' as u8],
        code is Right ==> r@ == seq![27u8, 91, 'C' as u8],
        code is Left ==> r@ == seq![27u8, 91, 'D' as u8],
        code is Home ==> r@ == seq![27u8, 91, 'H' as u8],
        code is End ==> r@ == seq![27u8, 91, 'F' as u8],
        code is BackTab ==> r@ == seq![27u8, 91, 'Z' as u8],
        code is Insert ==> r@ == seq![27u8, 91, '2' as u8, '~' as u8],
        code is Delete ==> r@ == seq![27u8, 91, '3' as u8, '~' as u8],
        code is PageUp ==> r@ == seq![27u8, 91, '5' as u8, '~' as u8],
        code is PageDown ==> r@ == seq![27u8, 91, '6' as u8, '~' as u8],
        code is Other ==> r@.len() == 0,
{
}

/// The function keys send `ESC O` and a letter up to F4, and beyond F5 `ESC [`, a number
/// of two digits and `~`. F2, F5, F6 and F7 are the panel's own and send nothing, nor does
/// anything that is no function key of a VT.
pub proof fn law_function_keys_send_their_sequences(n: u8, ctrl: bool, r: Vec<u8>)
    requires
        call_ensures(key_to_bytes, (Key { code: KeyCode::F(n), ctrl },), r),
    ensures
        n == 1 || n == 3 || n == 4 ==> r@ == seq![27u8, 'O' as u8, ('P' as u8 + n - 1) as u8],
        8 <= n <= 20 ==> r@.len() == 5 && r@[0] == 27 && r@[1] == 91 && r@[4] == '~' as u8 && 48
            <= r@[2] < 58 && 48 <= r@[3] < 58,
        8 <= n <= 10 ==> 10 * (r@[2] - 48) + (r@[3] - 48) == n + 11,
        11 <= n <= 14 ==> 10 * (r@[2] - 48) + (r@[3] - 48) == n + 12,
        15 <= n <= 16 ==> 10 * (r@[2] - 48) + (r@[3] - 48) == n + 13,
        17 <= n <= 20 ==> 10 * (r@[2] - 48) + (r@[3] - 48) == n + 14,
        n == 0 || n == 2 || 5 <= n <= 7 || n > 20 ==> r@.len() == 0,
{
}

/// Keys are told apart: no two that are named send the same bytes, but for those that send
/// nothing.
pub proof fn law_keys_are_told_apart(a: KeyCode, b: KeyCode, ctrl: bool, ra: Vec<u8>, rb: Vec<u8>)
    requires
        a !is Char,
        b !is Char,
        a != b,
        call_ensures(key_to_bytes, (Key { code: a, ctrl },), ra),
        call_ensures(key_to_bytes, (Key { code: b, ctrl },), rb),
        ra@.len() > 0,
    ensures
        ra@ != rb@,
{
    if ra@ == rb@ {
        if ra@.len() == 1 {
            assert(ra@[0] == rb@[0]);
        } else if ra@.len() == 3 {
            assert(ra@[1] == rb@[1] && ra@[2] == rb@[2]);
        } else if ra@.len() == 4 {
            assert(ra@[2] == rb@[2]);
        } else {
            assert(ra@[2] == rb@[2] && ra@[3] == rb@[3]);
        }
    }
}

} // verus!
