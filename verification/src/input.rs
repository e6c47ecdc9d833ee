//! Keys and the byte sequences of a terminal frontend.

use vstd::prelude::*;

use crate::encoding;
use crate::text;

verus! {

#[derive(Debug, Clone, Copy, PartialEq, Eq, Structural)]
pub enum KeyCode {
    Enter,
    Backspace,
    Tab,
    BackTab,
    Esc,
    Left,
    Up,
    Right,
    Down,
    Home,
    End,
    PageUp,
    PageDown,
    Delete,
    Char(char),
    Other,
}

#[derive(Debug, Clone, Copy, PartialEq, Eq, Structural)]
pub struct KeyModifiers {
    pub alt: bool,
    pub control: bool,
    pub super_key: bool,
    pub shift: bool,
}

#[derive(Debug, Clone, Copy, PartialEq, Eq, Structural)]
pub enum KeyKind {
    Press,
    Repeat,
    Release,
}

#[derive(Debug, Clone, Copy, PartialEq, Eq, Structural)]
pub struct KeyEvent {
    pub code: KeyCode,
    pub modifiers: KeyModifiers,
    pub kind: KeyKind,
}

/// A modifier's bit.
pub open spec fn bit(set: bool, value: u32) -> u32 {
    if set {
        value
    } else {
        0
    }
}

/// The modifiers, as a page's key events number them.
pub open spec fn modifier_bits(modifiers: KeyModifiers) -> int {
    bit(modifiers.alt, 1) + bit(modifiers.control, 2) + bit(modifiers.super_key, 4) + bit(
        modifiers.shift,
        8,
    )
}

pub fn browser_modifiers(modifiers: KeyModifiers) -> (bits: u32)
    ensures
        bits == modifier_bits(modifiers),
{
    let mut bits: u32 = 0;
    if modifiers.alt {
        bits = bits + 1;
    }
    if modifiers.control {
        bits = bits + 2;
    }
    if modifiers.super_key {
        bits = bits + 4;
    }
    if modifiers.shift {
        bits = bits + 8;
    }
    bits
}

/// A key, as a page's key events name it.
#[derive(Debug, Clone, Copy)]
pub struct BrowserKey {
    pub key: &'static str,
    pub code: &'static str,
    pub windows_virtual_key_code: u32,
    pub text: Option<&'static str>,
}

pub open spec fn plain_key(name: &'static str, vk: u32) -> Option<BrowserKey> {
    Some(BrowserKey { key: name, code: name, windows_virtual_key_code: vk, text: None })
}

/// The keys that pages are sent by name.
pub open spec fn browser_key(code: KeyCode) -> Option<BrowserKey> {
    match code {
        KeyCode::Enter => Some(
            BrowserKey {
                key: "Enter",
                code: "Enter",
                windows_virtual_key_code: 13,
                text: Some("\r"),
            },
        ),
        KeyCode::Backspace => plain_key("Backspace", 8),
        KeyCode::Tab => plain_key("Tab", 9),
        KeyCode::BackTab => plain_key("Tab", 9),
        KeyCode::Esc => plain_key("Escape", 27),
        KeyCode::Left => plain_key("ArrowLeft", 37),
        KeyCode::Up => plain_key("ArrowUp", 38),
        KeyCode::Right => plain_key("ArrowRight", 39),
        KeyCode::Down => plain_key("ArrowDown", 40),
        KeyCode::Home => plain_key("Home", 36),
        KeyCode::End => plain_key("End", 35),
        KeyCode::PageUp => plain_key("PageUp", 33),
        KeyCode::PageDown => plain_key("PageDown", 34),
        KeyCode::Delete => plain_key("Delete", 46),
        KeyCode::Char(_) => None,
        KeyCode::Other => None,
    }
}

fn named(name: &'static str, vk: u32) -> (key: Option<BrowserKey>)
    ensures
        key == plain_key(name, vk),
{
    Some(BrowserKey { key: name, code: name, windows_virtual_key_code: vk, text: None })
}

pub fn browser_key_mapping(code: KeyCode) -> (key: Option<BrowserKey>)
    ensures
        key == browser_key(code),
{
    match code {
        KeyCode::Enter => Some(
            BrowserKey {
                key: "Enter",
                code: "Enter",
                windows_virtual_key_code: 13,
                text: Some("\r"),
            },
        ),
        KeyCode::Backspace => named("Backspace", 8),
        KeyCode::Tab | KeyCode::BackTab => named("Tab", 9),
        KeyCode::Esc => named("Escape", 27),
        KeyCode::Left => named("ArrowLeft", 37),
        KeyCode::Up => named("ArrowUp", 38),
        KeyCode::Right => named("ArrowRight", 39),
        KeyCode::Down => named("ArrowDown", 40),
        KeyCode::Home => named("Home", 36),
        KeyCode::End => named("End", 35),
        KeyCode::PageUp => named("PageUp", 33),
        KeyCode::PageDown => named("PageDown", 34),
        KeyCode::Delete => named("Delete", 46),
        KeyCode::Char(_) => None,
        KeyCode::Other => None,
    }
}

/// The bytes that pasting types: framed where the application asks for it.
pub open spec fn pasted(text: Seq<char>, bracketed: bool) -> Seq<u8> {
    let raw = vstd::utf8::encode_utf8(text);
    if bracketed {
        seq![0x1bu8, 0x5b, 0x32, 0x30, 0x30, 0x7e] + raw + seq![
            0x1bu8,
            0x5b,
            0x32,
            0x30,
            0x31,
            0x7e,
        ]
    } else {
        raw
    }
}

/// `ESC [ 2 0 n ~`
fn push_mark(bytes: &mut Vec<u8>, n: u8)
    ensures
        final(bytes)@ == old(bytes)@ + seq![0x1bu8, 0x5b, 0x32, 0x30, n, 0x7e],
{
    bytes.push(0x1b);
    bytes.push(0x5b);
    bytes.push(0x32);
    bytes.push(0x30);
    bytes.push(n);
    bytes.push(0x7e);
    assert(bytes@ =~= old(bytes)@ + seq![0x1bu8, 0x5b, 0x32, 0x30, n, 0x7e]);
}

pub fn paste_bytes(text: &str, bracketed: bool) -> (bytes: Vec<u8>)
    ensures
        bytes@ == pasted(text@, bracketed),
{
    let mut bytes: Vec<u8> = Vec::new();
    if bracketed {
        push_mark(&mut bytes, 0x30);
    }
    let ghost start = bytes@;
    bytes.extend_from_slice(text.as_bytes());
    assert(bytes@ =~= start + vstd::utf8::encode_utf8(text@));
    if bracketed {
        push_mark(&mut bytes, 0x31);
    }
    assert(bytes@ =~= pasted(text@, bracketed));
    bytes
}

/// Three arrow keys, for applications on the alternate screen.
pub fn arrow_bytes(down: bool) -> (bytes: Vec<u8>)
    ensures
        bytes@ == ({
            let last = if down { 0x42u8 } else { 0x41u8 };
            seq![0x1bu8, 0x5b, last, 0x1b, 0x5b, last, 0x1b, 0x5b, last]
        }),
{
    let last: u8 = if down {
        0x42
    } else {
        0x41
    };
    let mut bytes: Vec<u8> = Vec::new();
    bytes.push(0x1b);
    bytes.push(0x5b);
    bytes.push(last);
    bytes.push(0x1b);
    bytes.push(0x5b);
    bytes.push(last);
    bytes.push(0x1b);
    bytes.push(0x5b);
    bytes.push(last);
    assert(bytes@ =~= seq![0x1bu8, 0x5b, last, 0x1b, 0x5b, last, 0x1b, 0x5b, last]);
    bytes
}

/// The sequence that hands `text` to the host terminal's clipboard. What the
/// host decodes is the text itself.
pub fn clipboard_sequence(text: &str) -> (sequence: String)
    requires
        vstd::utf8::encode_utf8(text@).len() <= usize::MAX / 4,
    ensures
        sequence@ == "\x1b]52;c;"@ + encoding::encoded(vstd::utf8::encode_utf8(text@)) + "\x07"@,
        encoding::decodes_to(
            encoding::encoded(vstd::utf8::encode_utf8(text@)),
            vstd::utf8::encode_utf8(text@),
        ),
{
    let encoded = encoding::encode(text.as_bytes());
    text::concat(text::concat("\x1b]52;c;", encoded.as_str()).as_str(), "\x07")
}

/// The sequence that sets the shape of the host terminal's pointer.
pub fn pointer_sequence(hand: bool) -> (sequence: &'static str)
    ensures
        sequence@ == if hand {
            "\x1b]22;pointer\x07"@
        } else {
            "\x1b]22;default\x07"@
        },
{
    if hand {
        "\x1b]22;pointer\x07"
    } else {
        "\x1b]22;default\x07"
    }
}

/// Every modifier has a bit of its own.
pub proof fn law_modifier_bits(m: KeyModifiers)
    ensures
        ({
            let bits = modifier_bits(m);
            &&& 0 <= bits < 16
            &&& bits % 2 == 1 <==> m.alt
            &&& (bits / 2) % 2 == 1 <==> m.control
            &&& (bits / 4) % 2 == 1 <==> m.super_key
            &&& (bits / 8) % 2 == 1 <==> m.shift
        }),
{
}

/// Pasted text is typed as it is, between marks where the application asks
/// for them.
pub proof fn law_pasted(text: Seq<char>)
    ensures
        ({
            let raw = vstd::utf8::encode_utf8(text);
            let framed = pasted(text, true);
            &&& pasted(text, false) == raw
            &&& framed.len() == raw.len() + 12
            &&& framed.subrange(6, 6 + raw.len() as int) == raw
            &&& framed.subrange(0, 6) == seq![0x1bu8, 0x5b, 0x32, 0x30, 0x30, 0x7e]
            &&& framed.subrange(6 + raw.len() as int, framed.len() as int) == seq![
                0x1bu8,
                0x5b,
                0x32,
                0x30,
                0x31,
                0x7e,
            ]
        }),
{
    let raw = vstd::utf8::encode_utf8(text);
    let framed = pasted(text, true);
    assert(framed.subrange(6, 6 + raw.len() as int) =~= raw);
    assert(framed.subrange(0, 6) =~= seq![0x1bu8, 0x5b, 0x32, 0x30, 0x30, 0x7e]);
}

/// The keys that pages know by name, and their numbers there. The arrows and
/// the keys around them have numbers of their own; only the tab key has two.
pub proof fn law_key_names(a: KeyCode, b: KeyCode)
    requires
        browser_key(a) is Some,
        browser_key(b) is Some,
    ensures
        browser_key(a)->0.windows_virtual_key_code == browser_key(b)->0.windows_virtual_key_code
            ==> a == b || (a is Tab || a is BackTab) && (b is Tab || b is BackTab),
        browser_key(KeyCode::Enter)->0.windows_virtual_key_code == 13,
        browser_key(KeyCode::Backspace)->0.windows_virtual_key_code == 8,
        browser_key(KeyCode::Esc)->0.windows_virtual_key_code == 27,
        browser_key(KeyCode::PageUp)->0.windows_virtual_key_code == 33,
        browser_key(KeyCode::PageDown)->0.windows_virtual_key_code == 34,
        browser_key(KeyCode::End)->0.windows_virtual_key_code == 35,
        browser_key(KeyCode::Home)->0.windows_virtual_key_code == 36,
        browser_key(KeyCode::Left)->0.windows_virtual_key_code == 37,
        browser_key(KeyCode::Up)->0.windows_virtual_key_code == 38,
        browser_key(KeyCode::Right)->0.windows_virtual_key_code == 39,
        browser_key(KeyCode::Down)->0.windows_virtual_key_code == 40,
        browser_key(KeyCode::Delete)->0.windows_virtual_key_code == 46,
        browser_key(KeyCode::Left)->0.key@ == "ArrowLeft"@,
        browser_key(KeyCode::Up)->0.key@ == "ArrowUp"@,
        browser_key(KeyCode::Right)->0.key@ == "ArrowRight"@,
        browser_key(KeyCode::Down)->0.key@ == "ArrowDown"@,
        browser_key(a)->0.key@ == browser_key(a)->0.code@,
{
}

} // verus!
