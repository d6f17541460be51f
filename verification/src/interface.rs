//! Keyboards and other human-interface devices: key codes, device
//! identities, and the tracking of held keys from keyboard reports.

use vstd::prelude::*;

use crate::text::{append_decimal, decimal, push_char};
use vstd::wrapping::u32_specs;

verus! {

/// A keyboard key, by its USB HID usage.
#[derive(Clone, Copy, Debug, PartialEq, Eq)]
pub enum Key {
    Unknown,
    A,
    B,
    C,
    D,
    E,
    F,
    G,
    H,
    I,
    J,
    K,
    L,
    M,
    N,
    O,
    P,
    Q,
    R,
    S,
    T,
    U,
    V,
    W,
    X,
    Y,
    Z,
    Num1,
    Num2,
    Num3,
    Num4,
    Num5,
    Num6,
    Num7,
    Num8,
    Num9,
    Num0,
    Enter,
    Escape,
    Backspace,
    Tab,
    Space,
    Minus,
    Equals,
    LeftBracket,
    RightBracket,
    Backslash,
    NonUsHash,
    Semicolon,
    Apostrophe,
    Grave,
    Comma,
    Period,
    Slash,
    CapsLock,
    F1,
    F2,
    F3,
    F4,
    F5,
    F6,
    F7,
    F8,
    F9,
    F10,
    F11,
    F12,
}

/// The USB HID usage code of a key (`Unknown` has code 0).
pub open spec fn key_code(k: Key) -> u8 {
    match k {
        Key::Unknown => 0,
        Key::A => 4,
        Key::B => 5,
        Key::C => 6,
        Key::D => 7,
        Key::E => 8,
        Key::F => 9,
        Key::G => 10,
        Key::H => 11,
        Key::I => 12,
        Key::J => 13,
        Key::K => 14,
        Key::L => 15,
        Key::M => 16,
        Key::N => 17,
        Key::O => 18,
        Key::P => 19,
        Key::Q => 20,
        Key::R => 21,
        Key::S => 22,
        Key::T => 23,
        Key::U => 24,
        Key::V => 25,
        Key::W => 26,
        Key::X => 27,
        Key::Y => 28,
        Key::Z => 29,
        Key::Num1 => 30,
        Key::Num2 => 31,
        Key::Num3 => 32,
        Key::Num4 => 33,
        Key::Num5 => 34,
        Key::Num6 => 35,
        Key::Num7 => 36,
        Key::Num8 => 37,
        Key::Num9 => 38,
        Key::Num0 => 39,
        Key::Enter => 40,
        Key::Escape => 41,
        Key::Backspace => 42,
        Key::Tab => 43,
        Key::Space => 44,
        Key::Minus => 45,
        Key::Equals => 46,
        Key::LeftBracket => 47,
        Key::RightBracket => 48,
        Key::Backslash => 49,
        Key::NonUsHash => 50,
        Key::Semicolon => 51,
        Key::Apostrophe => 52,
        Key::Grave => 53,
        Key::Comma => 54,
        Key::Period => 55,
        Key::Slash => 56,
        Key::CapsLock => 57,
        Key::F1 => 58,
        Key::F2 => 59,
        Key::F3 => 60,
        Key::F4 => 61,
        Key::F5 => 62,
        Key::F6 => 63,
        Key::F7 => 64,
        Key::F8 => 65,
        Key::F9 => 66,
        Key::F10 => 67,
        Key::F11 => 68,
        Key::F12 => 69,
    }
}

/// The key with a USB HID usage code; codes without a key give `Unknown`.
pub open spec fn key_from_code(code: u8) -> Key {
    match code {
        4 => Key::A,
        5 => Key::B,
        6 => Key::C,
        7 => Key::D,
        8 => Key::E,
        9 => Key::F,
        10 => Key::G,
        11 => Key::H,
        12 => Key::I,
        13 => Key::J,
        14 => Key::K,
        15 => Key::L,
        16 => Key::M,
        17 => Key::N,
        18 => Key::O,
        19 => Key::P,
        20 => Key::Q,
        21 => Key::R,
        22 => Key::S,
        23 => Key::T,
        24 => Key::U,
        25 => Key::V,
        26 => Key::W,
        27 => Key::X,
        28 => Key::Y,
        29 => Key::Z,
        30 => Key::Num1,
        31 => Key::Num2,
        32 => Key::Num3,
        33 => Key::Num4,
        34 => Key::Num5,
        35 => Key::Num6,
        36 => Key::Num7,
        37 => Key::Num8,
        38 => Key::Num9,
        39 => Key::Num0,
        40 => Key::Enter,
        41 => Key::Escape,
        42 => Key::Backspace,
        43 => Key::Tab,
        44 => Key::Space,
        45 => Key::Minus,
        46 => Key::Equals,
        47 => Key::LeftBracket,
        48 => Key::RightBracket,
        49 => Key::Backslash,
        50 => Key::NonUsHash,
        51 => Key::Semicolon,
        52 => Key::Apostrophe,
        53 => Key::Grave,
        54 => Key::Comma,
        55 => Key::Period,
        56 => Key::Slash,
        57 => Key::CapsLock,
        58 => Key::F1,
        59 => Key::F2,
        60 => Key::F3,
        61 => Key::F4,
        62 => Key::F5,
        63 => Key::F6,
        64 => Key::F7,
        65 => Key::F8,
        66 => Key::F9,
        67 => Key::F10,
        68 => Key::F11,
        69 => Key::F12,
        _ => Key::Unknown,
    }
}

/// The name of a key, as it is displayed.
pub open spec fn key_name(k: Key) -> Seq<char> {
    match k {
        Key::Unknown => "Unknown"@,
        Key::A => "A"@,
        Key::B => "B"@,
        Key::C => "C"@,
        Key::D => "D"@,
        Key::E => "E"@,
        Key::F => "F"@,
        Key::G => "G"@,
        Key::H => "H"@,
        Key::I => "I"@,
        Key::J => "J"@,
        Key::K => "K"@,
        Key::L => "L"@,
        Key::M => "M"@,
        Key::N => "N"@,
        Key::O => "O"@,
        Key::P => "P"@,
        Key::Q => "Q"@,
        Key::R => "R"@,
        Key::S => "S"@,
        Key::T => "T"@,
        Key::U => "U"@,
        Key::V => "V"@,
        Key::W => "W"@,
        Key::X => "X"@,
        Key::Y => "Y"@,
        Key::Z => "Z"@,
        Key::Num1 => "Num1"@,
        Key::Num2 => "Num2"@,
        Key::Num3 => "Num3"@,
        Key::Num4 => "Num4"@,
        Key::Num5 => "Num5"@,
        Key::Num6 => "Num6"@,
        Key::Num7 => "Num7"@,
        Key::Num8 => "Num8"@,
        Key::Num9 => "Num9"@,
        Key::Num0 => "Num0"@,
        Key::Enter => "Enter"@,
        Key::Escape => "Escape"@,
        Key::Backspace => "Backspace"@,
        Key::Tab => "Tab"@,
        Key::Space => "Space"@,
        Key::Minus => "Minus"@,
        Key::Equals => "Equals"@,
        Key::LeftBracket => "LeftBracket"@,
        Key::RightBracket => "RightBracket"@,
        Key::Backslash => "Backslash"@,
        Key::NonUsHash => "NonUsHash"@,
        Key::Semicolon => "Semicolon"@,
        Key::Apostrophe => "Apostrophe"@,
        Key::Grave => "Grave"@,
        Key::Comma => "Comma"@,
        Key::Period => "Period"@,
        Key::Slash => "Slash"@,
        Key::CapsLock => "CapsLock"@,
        Key::F1 => "F1"@,
        Key::F2 => "F2"@,
        Key::F3 => "F3"@,
        Key::F4 => "F4"@,
        Key::F5 => "F5"@,
        Key::F6 => "F6"@,
        Key::F7 => "F7"@,
        Key::F8 => "F8"@,
        Key::F9 => "F9"@,
        Key::F10 => "F10"@,
        Key::F11 => "F11"@,
        Key::F12 => "F12"@,
    }
}

impl Key {
    /// The key with a USB HID usage code; codes without a key give `Unknown`.
    pub fn from(code: u8) -> (k: Key)
        ensures
            k == key_from_code(code),
    {
        match code {
            4 => Key::A,
            5 => Key::B,
            6 => Key::C,
            7 => Key::D,
            8 => Key::E,
            9 => Key::F,
            10 => Key::G,
            11 => Key::H,
            12 => Key::I,
            13 => Key::J,
            14 => Key::K,
            15 => Key::L,
            16 => Key::M,
            17 => Key::N,
            18 => Key::O,
            19 => Key::P,
            20 => Key::Q,
            21 => Key::R,
            22 => Key::S,
            23 => Key::T,
            24 => Key::U,
            25 => Key::V,
            26 => Key::W,
            27 => Key::X,
            28 => Key::Y,
            29 => Key::Z,
            30 => Key::Num1,
            31 => Key::Num2,
            32 => Key::Num3,
            33 => Key::Num4,
            34 => Key::Num5,
            35 => Key::Num6,
            36 => Key::Num7,
            37 => Key::Num8,
            38 => Key::Num9,
            39 => Key::Num0,
            40 => Key::Enter,
            41 => Key::Escape,
            42 => Key::Backspace,
            43 => Key::Tab,
            44 => Key::Space,
            45 => Key::Minus,
            46 => Key::Equals,
            47 => Key::LeftBracket,
            48 => Key::RightBracket,
            49 => Key::Backslash,
            50 => Key::NonUsHash,
            51 => Key::Semicolon,
            52 => Key::Apostrophe,
            53 => Key::Grave,
            54 => Key::Comma,
            55 => Key::Period,
            56 => Key::Slash,
            57 => Key::CapsLock,
            58 => Key::F1,
            59 => Key::F2,
            60 => Key::F3,
            61 => Key::F4,
            62 => Key::F5,
            63 => Key::F6,
            64 => Key::F7,
            65 => Key::F8,
            66 => Key::F9,
            67 => Key::F10,
            68 => Key::F11,
            69 => Key::F12,
            _ => Key::Unknown,
        }
    }

    /// The USB HID usage code of the key (`Unknown` has code 0).
    pub fn code(&self) -> (c: u8)
        ensures
            c == key_code(*self),
    {
        match self {
            Key::Unknown => 0,
            Key::A => 4,
            Key::B => 5,
            Key::C => 6,
            Key::D => 7,
            Key::E => 8,
            Key::F => 9,
            Key::G => 10,
            Key::H => 11,
            Key::I => 12,
            Key::J => 13,
            Key::K => 14,
            Key::L => 15,
            Key::M => 16,
            Key::N => 17,
            Key::O => 18,
            Key::P => 19,
            Key::Q => 20,
            Key::R => 21,
            Key::S => 22,
            Key::T => 23,
            Key::U => 24,
            Key::V => 25,
            Key::W => 26,
            Key::X => 27,
            Key::Y => 28,
            Key::Z => 29,
            Key::Num1 => 30,
            Key::Num2 => 31,
            Key::Num3 => 32,
            Key::Num4 => 33,
            Key::Num5 => 34,
            Key::Num6 => 35,
            Key::Num7 => 36,
            Key::Num8 => 37,
            Key::Num9 => 38,
            Key::Num0 => 39,
            Key::Enter => 40,
            Key::Escape => 41,
            Key::Backspace => 42,
            Key::Tab => 43,
            Key::Space => 44,
            Key::Minus => 45,
            Key::Equals => 46,
            Key::LeftBracket => 47,
            Key::RightBracket => 48,
            Key::Backslash => 49,
            Key::NonUsHash => 50,
            Key::Semicolon => 51,
            Key::Apostrophe => 52,
            Key::Grave => 53,
            Key::Comma => 54,
            Key::Period => 55,
            Key::Slash => 56,
            Key::CapsLock => 57,
            Key::F1 => 58,
            Key::F2 => 59,
            Key::F3 => 60,
            Key::F4 => 61,
            Key::F5 => 62,
            Key::F6 => 63,
            Key::F7 => 64,
            Key::F8 => 65,
            Key::F9 => 66,
            Key::F10 => 67,
            Key::F11 => 68,
            Key::F12 => 69,
        }
    }

    /// The name of the key, as it is displayed.
    pub fn to_string(&self) -> (s: String)
        ensures
            s@ == key_name(*self),
    {
        match self {
            Key::Unknown => "Unknown".to_owned(),
            Key::A => "A".to_owned(),
            Key::B => "B".to_owned(),
            Key::C => "C".to_owned(),
            Key::D => "D".to_owned(),
            Key::E => "E".to_owned(),
            Key::F => "F".to_owned(),
            Key::G => "G".to_owned(),
            Key::H => "H".to_owned(),
            Key::I => "I".to_owned(),
            Key::J => "J".to_owned(),
            Key::K => "K".to_owned(),
            Key::L => "L".to_owned(),
            Key::M => "M".to_owned(),
            Key::N => "N".to_owned(),
            Key::O => "O".to_owned(),
            Key::P => "P".to_owned(),
            Key::Q => "Q".to_owned(),
            Key::R => "R".to_owned(),
            Key::S => "S".to_owned(),
            Key::T => "T".to_owned(),
            Key::U => "U".to_owned(),
            Key::V => "V".to_owned(),
            Key::W => "W".to_owned(),
            Key::X => "X".to_owned(),
            Key::Y => "Y".to_owned(),
            Key::Z => "Z".to_owned(),
            Key::Num1 => "Num1".to_owned(),
            Key::Num2 => "Num2".to_owned(),
            Key::Num3 => "Num3".to_owned(),
            Key::Num4 => "Num4".to_owned(),
            Key::Num5 => "Num5".to_owned(),
            Key::Num6 => "Num6".to_owned(),
            Key::Num7 => "Num7".to_owned(),
            Key::Num8 => "Num8".to_owned(),
            Key::Num9 => "Num9".to_owned(),
            Key::Num0 => "Num0".to_owned(),
            Key::Enter => "Enter".to_owned(),
            Key::Escape => "Escape".to_owned(),
            Key::Backspace => "Backspace".to_owned(),
            Key::Tab => "Tab".to_owned(),
            Key::Space => "Space".to_owned(),
            Key::Minus => "Minus".to_owned(),
            Key::Equals => "Equals".to_owned(),
            Key::LeftBracket => "LeftBracket".to_owned(),
            Key::RightBracket => "RightBracket".to_owned(),
            Key::Backslash => "Backslash".to_owned(),
            Key::NonUsHash => "NonUsHash".to_owned(),
            Key::Semicolon => "Semicolon".to_owned(),
            Key::Apostrophe => "Apostrophe".to_owned(),
            Key::Grave => "Grave".to_owned(),
            Key::Comma => "Comma".to_owned(),
            Key::Period => "Period".to_owned(),
            Key::Slash => "Slash".to_owned(),
            Key::CapsLock => "CapsLock".to_owned(),
            Key::F1 => "F1".to_owned(),
            Key::F2 => "F2".to_owned(),
            Key::F3 => "F3".to_owned(),
            Key::F4 => "F4".to_owned(),
            Key::F5 => "F5".to_owned(),
            Key::F6 => "F6".to_owned(),
            Key::F7 => "F7".to_owned(),
            Key::F8 => "F8".to_owned(),
            Key::F9 => "F9".to_owned(),
            Key::F10 => "F10".to_owned(),
            Key::F11 => "F11".to_owned(),
            Key::F12 => "F12".to_owned(),
        }
    }
}

/// Law: reading a key back from its code gives the key.
pub proof fn lemma_key_code_roundtrip(k: Key)
    ensures
        key_from_code(key_code(k)) == k,
{
}

/// Law: a code that names a key is the code of the key read from it; every
/// other code reads as `Unknown`.
pub proof fn lemma_code_key_roundtrip(code: u8)
    ensures
        (4 <= code <= 69) ==> key_code(key_from_code(code)) == code,
        !(4 <= code <= 69) ==> key_from_code(code) == Key::Unknown,
{
}


/// A modifier key, by its bit in the modifier byte of a keyboard report.
#[derive(Clone, Copy, Debug, PartialEq, Eq)]
pub enum Mod {
    LeftControl,
    LeftShift,
    RightShift,
    LeftAlt,
    RightAlt,
    LeftSuper,
    RightSuper,
}

/// The bit of a modifier key in the modifier byte.
pub open spec fn mod_mask(m: Mod) -> u8 {
    match m {
        Mod::LeftControl => 1,
        Mod::LeftShift => 2,
        Mod::RightShift => 32,
        Mod::LeftAlt => 4,
        Mod::RightAlt => 64,
        Mod::LeftSuper => 8,
        Mod::RightSuper => 128,
    }
}

/// The name of a modifier key, as it is displayed.
pub open spec fn mod_name(m: Mod) -> Seq<char> {
    match m {
        Mod::LeftControl => "LeftControl"@,
        Mod::LeftShift => "LeftShift"@,
        Mod::RightShift => "RightShift"@,
        Mod::LeftAlt => "LeftAlt"@,
        Mod::RightAlt => "RightAlt"@,
        Mod::LeftSuper => "LeftSuper"@,
        Mod::RightSuper => "RightSuper"@,
    }
}

impl Mod {
    /// The bit of the modifier key in the modifier byte.
    pub fn mask(&self) -> (r: u8)
        ensures
            r == mod_mask(*self),
    {
        match self {
            Mod::LeftControl => 1,
            Mod::LeftShift => 2,
            Mod::RightShift => 32,
            Mod::LeftAlt => 4,
            Mod::RightAlt => 64,
            Mod::LeftSuper => 8,
            Mod::RightSuper => 128,
        }
    }

    /// The name of the modifier key, as it is displayed.
    pub fn to_string(&self) -> (s: String)
        ensures
            s@ == mod_name(*self),
    {
        match self {
            Mod::LeftControl => "LeftControl".to_owned(),
            Mod::LeftShift => "LeftShift".to_owned(),
            Mod::RightShift => "RightShift".to_owned(),
            Mod::LeftAlt => "LeftAlt".to_owned(),
            Mod::RightAlt => "RightAlt".to_owned(),
            Mod::LeftSuper => "LeftSuper".to_owned(),
            Mod::RightSuper => "RightSuper".to_owned(),
        }
    }
}

/// The identifier hash of a text: starting from 0, each character in turn
/// multiplies the hash by 31 and adds the character's code, wrapping at
/// 2^32.
pub open spec fn hash_spec(s: Seq<char>) -> u32
    decreases s.len(),
{
    if s.len() == 0 {
        0
    } else {
        u32_specs::wrapping_add(u32_specs::wrapping_mul(hash_spec(s.drop_last()), 31), s.last() as u32)
    }
}

/// The identifier hash of a text (see [`hash_spec`]).
pub fn hash(string: String) -> (r: u32)
    ensures
        r == hash_spec(string@),
{
    let chars = crate::text::chars_of(string.as_str());
    let mut h: u32 = 0;
    let mut i: usize = 0;
    while i < chars.len()
        invariant
            i <= chars@.len(),
            chars@ == string@,
            h == hash_spec(chars@.take(i as int)),
        decreases chars@.len() - i,
    {
        assert(chars@.take(i + 1).drop_last() =~= chars@.take(i as int));
        let c = chars[i];
        h = h.wrapping_mul(31).wrapping_add(c as u32);
        i = i + 1;
    }
    assert(chars@.take(chars@.len() as int) =~= chars@);
    h
}

/// A human-interface device, identified by its manufacturer, product and
/// serial number; its id is the hash of the three joined together.
#[derive(Clone, Debug)]
pub struct Interface {
    id: u32,
    manufacturer: String,
    product: String,
    serial: String,
}

/// What an [`Interface`] holds.
pub struct InterfaceView {
    pub id: u32,
    pub manufacturer: Seq<char>,
    pub product: Seq<char>,
    pub serial: Seq<char>,
}

impl View for Interface {
    type V = InterfaceView;

    closed spec fn view(&self) -> InterfaceView {
        InterfaceView {
            id: self.id,
            manufacturer: self.manufacturer@,
            product: self.product@,
            serial: self.serial@,
        }
    }
}

/// Whether two interfaces are the same device.
pub open spec fn same_device(a: InterfaceView, b: InterfaceView) -> bool {
    a.manufacturer == b.manufacturer && a.product == b.product && a.serial == b.serial && a.id == b.id
}

/// `"<manufacturer>:<product>"`, the name an interface is listed and found by.
pub open spec fn interface_name(i: InterfaceView) -> Seq<char> {
    i.manufacturer + seq![':'] + i.product
}

/// `"(<id>) <manufacturer>:<product>"`, the label an interface is listed by.
pub open spec fn interface_label(i: InterfaceView) -> Seq<char> {
    seq!['('] + decimal(i.id as nat) + seq![')', ' '] + interface_name(i)
}

/// `"(<id>) <manufacturer>: <product>"`, the text an interface is shown as.
pub open spec fn interface_text(i: InterfaceView) -> Seq<char> {
    seq!['('] + decimal(i.id as nat) + seq![')', ' '] + i.manufacturer + seq![':', ' '] + i.product
}

fn append_str(s: &mut String, t: &str)
    ensures
        final(s)@ == old(s)@ + t@,
{
    let chars = crate::text::chars_of(t);
    let mut i: usize = 0;
    let ghost start = s@;
    while i < chars.len()
        invariant
            i <= chars@.len(),
            chars@ == t@,
            s@ == start + chars@.take(i as int),
        decreases chars@.len() - i,
    {
        push_char(s, chars[i]);
        i = i + 1;
        assert(s@ =~= start + chars@.take(i as int));
    }
    assert(chars@.take(chars@.len() as int) =~= chars@);
}

impl Interface {
    /// The interface for a device with these manufacturer, product and serial
    /// strings.
    pub fn new(manufacturer: String, product: String, serial: String) -> (r: Interface)
        ensures
            r@.manufacturer == manufacturer@,
            r@.product == product@,
            r@.serial == serial@,
            r@.id == hash_spec(manufacturer@ + product@ + serial@),
    {
        let mut combo = manufacturer.clone();
        append_str(&mut combo, product.as_str());
        append_str(&mut combo, serial.as_str());
        let id = hash(combo);
        Interface { id, manufacturer, product, serial }
    }

    pub fn id(&self) -> (r: u32)
        ensures
            r == self@.id,
    {
        self.id
    }

    pub fn manufacturer(&self) -> (r: &str)
        ensures
            r@ == self@.manufacturer,
    {
        self.manufacturer.as_str()
    }

    pub fn product(&self) -> (r: &str)
        ensures
            r@ == self@.product,
    {
        self.product.as_str()
    }

    pub fn serial(&self) -> (r: &str)
        ensures
            r@ == self@.serial,
    {
        self.serial.as_str()
    }

    /// Whether `other` is the same device.
    pub fn eq(&self, other: &Interface) -> (r: bool)
        ensures
            r == same_device(self@, other@),
    {
        self.manufacturer == other.manufacturer && self.product == other.product
            && self.serial == other.serial && self.id == other.id
    }

    /// `"<manufacturer>:<product>"`.
    pub fn name(&self) -> (r: String)
        ensures
            r@ == interface_name(self@),
    {
        let mut s = self.manufacturer.clone();
        push_char(&mut s, ':');
        append_str(&mut s, self.product.as_str());
        s
    }

    /// `"(<id>) <manufacturer>:<product>"`.
    pub fn label(&self) -> (r: String)
        ensures
            r@ == interface_label(self@),
    {
        let mut s = String::new();
        push_char(&mut s, '(');
        append_decimal(&mut s, self.id as u64);
        push_char(&mut s, ')');
        push_char(&mut s, ' ');
        append_str(&mut s, self.manufacturer.as_str());
        push_char(&mut s, ':');
        append_str(&mut s, self.product.as_str());
        assert(s@ =~= interface_label(self@));
        s
    }

    /// `"(<id>) <manufacturer>: <product>"`, the text the interface is shown as.
    pub fn to_string(&self) -> (r: String)
        ensures
            r@ == interface_text(self@),
    {
        let mut s = String::new();
        push_char(&mut s, '(');
        append_decimal(&mut s, self.id as u64);
        push_char(&mut s, ')');
        push_char(&mut s, ' ');
        append_str(&mut s, self.manufacturer.as_str());
        push_char(&mut s, ':');
        push_char(&mut s, ' ');
        append_str(&mut s, self.product.as_str());
        assert(s@ =~= interface_text(self@));
        s
    }
}

/// The labels of the interfaces, in order.
pub fn list_interfaces(interfaces: &Vec<Interface>) -> (r: Vec<String>)
    ensures
        r@.len() == interfaces@.len(),
        forall|i: int| 0 <= i < r@.len() ==> #[trigger] r@[i]@ == interface_label(interfaces@[i]@),
{
    let mut out: Vec<String> = Vec::new();
    let mut i: usize = 0;
    while i < interfaces.len()
        invariant
            i <= interfaces@.len(),
            out@.len() == i,
            forall|k: int| 0 <= k < i ==> #[trigger] out@[k]@ == interface_label(interfaces@[k]@),
        decreases interfaces@.len() - i,
    {
        out.push(interfaces[i].label());
        i = i + 1;
    }
    out
}

/// The ids of the interfaces, in order.
pub fn list_interfaces_id(interfaces: &Vec<Interface>) -> (r: Vec<u32>)
    ensures
        r@.len() == interfaces@.len(),
        forall|i: int| 0 <= i < r@.len() ==> #[trigger] r@[i] == interfaces@[i]@.id,
{
    let mut out: Vec<u32> = Vec::new();
    let mut i: usize = 0;
    while i < interfaces.len()
        invariant
            i <= interfaces@.len(),
            out@.len() == i,
            forall|k: int| 0 <= k < i ==> #[trigger] out@[k] == interfaces@[k]@.id,
        decreases interfaces@.len() - i,
    {
        out.push(interfaces[i].id());
        i = i + 1;
    }
    out
}

/// The names of the interfaces, in order.
pub fn list_interfaces_name(interfaces: &Vec<Interface>) -> (r: Vec<String>)
    ensures
        r@.len() == interfaces@.len(),
        forall|i: int| 0 <= i < r@.len() ==> #[trigger] r@[i]@ == interface_name(interfaces@[i]@),
{
    let mut out: Vec<String> = Vec::new();
    let mut i: usize = 0;
    while i < interfaces.len()
        invariant
            i <= interfaces@.len(),
            out@.len() == i,
            forall|k: int| 0 <= k < i ==> #[trigger] out@[k]@ == interface_name(interfaces@[k]@),
        decreases interfaces@.len() - i,
    {
        out.push(interfaces[i].name());
        i = i + 1;
    }
    out
}

/// The first interface with the id `id`, if any.
pub fn get_interface_by_id(interfaces: Vec<Interface>, id: u32) -> (r: Option<Interface>)
    ensures
        match r {
            Some(x) => exists|i: int| 0 <= i < interfaces@.len() && interfaces@[i] == x && x@.id == id
                && forall|j: int| 0 <= j < i ==> (#[trigger] interfaces@[j])@.id != id,
            None => forall|j: int| 0 <= j < interfaces@.len() ==> (#[trigger] interfaces@[j])@.id != id,
        },
{
    let mut i: usize = 0;
    while i < interfaces.len()
        invariant
            i <= interfaces@.len(),
            forall|j: int| 0 <= j < i ==> (#[trigger] interfaces@[j])@.id != id,
        decreases interfaces@.len() - i,
    {
        if interfaces[i].id == id {
            let ghost all = interfaces@;
            let mut list = interfaces;
            let x = list.swap_remove(i);
            assert(all[i as int] == x);
            return Some(x);
        }
        i = i + 1;
    }
    None
}

/// The first interface named `name` (`"<manufacturer>:<product>"`), if any.
pub fn get_interface_by_name(interfaces: Vec<Interface>, name: String) -> (r: Option<Interface>)
    ensures
        match r {
            Some(x) => exists|i: int| 0 <= i < interfaces@.len() && interfaces@[i] == x
                && interface_name(x@) == name@
                && forall|j: int| 0 <= j < i ==> interface_name((#[trigger] interfaces@[j])@) != name@,
            None => forall|j: int| 0 <= j < interfaces@.len() ==> interface_name((#[trigger] interfaces@[j])@) != name@,
        },
{
    let mut i: usize = 0;
    while i < interfaces.len()
        invariant
            i <= interfaces@.len(),
            forall|j: int| 0 <= j < i ==> interface_name((#[trigger] interfaces@[j])@) != name@,
        decreases interfaces@.len() - i,
    {
        if interfaces[i].name() == name {
            let ghost all = interfaces@;
            let mut list = interfaces;
            let x = list.swap_remove(i);
            assert(all[i as int] == x);
            return Some(x);
        }
        i = i + 1;
    }
    None
}


/// The identifying strings a human-interface device reports.
pub struct DeviceInfo {
    pub manufacturer: String,
    pub product: String,
    pub serial: String,
}

pub open spec fn device_view(d: DeviceInfo) -> (Seq<char>, Seq<char>, Seq<char>) {
    (d.manufacturer@, d.product@, d.serial@)
}

pub open spec fn interface_strings(i: InterfaceView) -> (Seq<char>, Seq<char>, Seq<char>) {
    (i.manufacturer, i.product, i.serial)
}

/// The distinct members of `ds`, in the order of their first appearance.
pub open spec fn firsts(ds: Seq<(Seq<char>, Seq<char>, Seq<char>)>) -> Seq<(Seq<char>, Seq<char>, Seq<char>)>
    decreases ds.len(),
{
    if ds.len() == 0 {
        Seq::empty()
    } else {
        let prev = firsts(ds.drop_last());
        if prev.contains(ds.last()) { prev } else { prev.push(ds.last()) }
    }
}

/// Law: the interfaces of a device list are distinct devices.
pub proof fn lemma_firsts_distinct(ds: Seq<(Seq<char>, Seq<char>, Seq<char>)>)
    ensures
        forall|i: int, j: int| 0 <= i < j < firsts(ds).len() ==> firsts(ds)[i] != firsts(ds)[j],
        forall|k: int| 0 <= k < ds.len() ==> firsts(ds).contains(#[trigger] ds[k]),
    decreases ds.len(),
{
    if ds.len() > 0 {
        let p = ds.drop_last();
        lemma_firsts_distinct(p);
        assert forall|k: int| 0 <= k < ds.len() implies firsts(ds).contains(#[trigger] ds[k]) by {
            if k < p.len() {
                assert(p[k] == ds[k]);
                let x = choose|x: int| 0 <= x < firsts(p).len() && firsts(p)[x] == p[k];
                assert(firsts(ds)[x] == ds[k]);
            } else {
                if firsts(p).contains(ds.last()) {
                } else {
                    assert(firsts(ds)[firsts(p).len() as int] == ds[k]);
                }
            }
        }
    }
}

fn find_interface(interfaces: &Vec<Interface>, d: &DeviceInfo) -> (r: Option<usize>)
    ensures
        match r {
            Some(x) => x < interfaces@.len() && interface_strings(interfaces@[x as int]@) == device_view(*d),
            None => forall|x: int| 0 <= x < interfaces@.len() ==> interface_strings(#[trigger] interfaces@[x]@) != device_view(*d),
        },
{
    let mut j: usize = 0;
    while j < interfaces.len()
        invariant
            j <= interfaces@.len(),
            forall|x: int| 0 <= x < j ==> interface_strings(#[trigger] interfaces@[x]@) != device_view(*d),
        decreases interfaces@.len() - j,
    {
        let it = &interfaces[j];
        if it.manufacturer == d.manufacturer && it.product == d.product && it.serial == d.serial {
            return Some(j);
        }
        j = j + 1;
    }
    None
}

/// The interfaces of a list of devices: a device reporting the same strings
/// as an earlier one is another handle of the same interface. Gives the
/// interfaces, in the order they first appear, and for each device the
/// position of its interface.
pub fn interfaces_from_devices(devices: &Vec<DeviceInfo>) -> (r: (Vec<Interface>, Vec<usize>))
    ensures
        ({
            let dv = Seq::new(devices@.len(), |k: int| device_view(devices@[k]));
            let f = firsts(dv);
            &&& r.0@.len() == f.len()
            &&& forall|j: int| 0 <= j < f.len() ==> interface_strings(#[trigger] r.0@[j]@) == f[j]
                && r.0@[j]@.id == hash_spec(f[j].0 + f[j].1 + f[j].2)
            &&& r.1@.len() == devices@.len()
            &&& forall|k: int| 0 <= k < devices@.len() ==> #[trigger] r.1@[k] < f.len()
                && f[r.1@[k] as int] == dv[k]
        }),
{
    let ghost dv = Seq::new(devices@.len(), |k: int| device_view(devices@[k]));
    let mut interfaces: Vec<Interface> = Vec::new();
    let mut owners: Vec<usize> = Vec::new();
    let mut k: usize = 0;
    while k < devices.len()
        invariant
            k <= devices@.len(),
            dv == Seq::new(devices@.len(), |k: int| device_view(devices@[k])),
            interfaces@.len() == firsts(dv.take(k as int)).len(),
            forall|j: int| 0 <= j < interfaces@.len() ==> interface_strings(#[trigger] interfaces@[j]@) == firsts(dv.take(k as int))[j]
                && interfaces@[j]@.id == hash_spec(firsts(dv.take(k as int))[j].0 + firsts(dv.take(k as int))[j].1 + firsts(dv.take(k as int))[j].2),
            owners@.len() == k,
            forall|q: int| 0 <= q < k ==> #[trigger] owners@[q] < interfaces@.len()
                && firsts(dv.take(k as int))[owners@[q] as int] == dv[q],
        decreases devices@.len() - k,
    {
        let ghost prev = firsts(dv.take(k as int));
        assert(dv.take(k + 1).drop_last() =~= dv.take(k as int));
        assert(dv.take(k + 1).last() == dv[k as int]);
        let d = &devices[k];
        let found = find_interface(&interfaces, d);
        assert(dv[k as int] == device_view(*d));
        match found {
            Some(x) => {
                assert(prev[x as int] == dv[k as int]);
                assert(prev.contains(dv[k as int]));
                owners.push(x);
            },
            None => {
                assert(!prev.contains(dv[k as int])) by {
                    if prev.contains(dv[k as int]) {
                        let x = choose|x: int| 0 <= x < prev.len() && prev[x] == dv[k as int];
                        assert(interface_strings(interfaces@[x]@) == prev[x]);
                    }
                }
                let it = Interface::new(d.manufacturer.clone(), d.product.clone(), d.serial.clone());
                owners.push(interfaces.len());
                interfaces.push(it);
            },
        }
        k = k + 1;
    }
    assert(dv.take(devices@.len() as int) =~= dv);
    (interfaces, owners)
}


/// What the thread reading a keyboard does after a report.
#[derive(Debug, PartialEq, Eq)]
pub enum ReportAction {
    /// Stop reading this device.
    Stop,
    /// Call the key-up handler for each released key, then the key-down
    /// handler for each pressed key.
    Keys { released: Vec<u8>, pressed: Vec<u8> },
}

/// The keys of the report's first `n` key slots that are pressed (non-zero)
/// and were not held, in slot order.
pub open spec fn newly_pressed(slots: Seq<u8>, held: Seq<u8>, n: nat) -> Seq<u8>
    decreases n,
{
    if n == 0 {
        Seq::empty()
    } else {
        let prev = newly_pressed(slots, held, (n - 1) as nat);
        let x = slots[n - 1];
        if x > 0 && !held.contains(x) { prev.push(x) } else { prev }
    }
}

/// The keys among the first `n` held keys that the report's key slots no
/// longer show, in order.
pub open spec fn newly_released(slots: Seq<u8>, held: Seq<u8>, n: nat) -> Seq<u8>
    decreases n,
{
    if n == 0 {
        Seq::empty()
    } else {
        let prev = newly_released(slots, held, (n - 1) as nat);
        if n - 1 < held.len() && !slots.contains(held[n - 1]) { prev.push(held[n - 1]) } else { prev }
    }
}

/// `keys` without any of the keys in `gone`.
pub open spec fn without(keys: Seq<u8>, gone: Seq<u8>) -> Seq<u8>
    decreases keys.len(),
{
    if keys.len() == 0 {
        Seq::empty()
    } else {
        let p = without(keys.drop_last(), gone);
        if gone.contains(keys.last()) { p } else { p.push(keys.last()) }
    }
}

/// The key slots of a keyboard report: bytes 3 to 7.
pub open spec fn report_slots(report: Seq<u8>) -> Seq<u8> {
    report.subrange(3, 8)
}

fn contains_u8(s: &Vec<u8>, x: u8) -> (r: bool)
    ensures
        r == s@.contains(x),
{
    let mut i: usize = 0;
    while i < s.len()
        invariant
            i <= s@.len(),
            forall|j: int| 0 <= j < i ==> s@[j] != x,
        decreases s@.len() - i,
    {
        if s[i] == x {
            assert(s@[i as int] == x);
            return true;
        }
        i = i + 1;
    }
    false
}

/// Follows one keyboard report. A report whose first byte is not 1 stops the
/// reading. Otherwise the keys in the report's five key slots that were not
/// held are pressed, and those among the first five held keys that no slot
/// shows any more are released; the held keys lose the released ones when a
/// key-up handler is set and gain the pressed ones when a key-down handler is
/// set, and the handlers are told of them.
pub fn key_report(keys: &mut Vec<u8>, report: &[u8], has_keyup: bool, has_keydown: bool) -> (r: ReportAction)
    requires
        report@.len() == 8,
    ensures
        report@[0] != 1 ==> r == ReportAction::Stop && final(keys)@ == old(keys)@,
        report@[0] == 1 ==> ({
            let slots = report_slots(report@);
            let rel = newly_released(slots, old(keys)@, 5);
            let add = newly_pressed(slots, old(keys)@, 5);
            &&& r matches ReportAction::Keys { released, pressed }
                && released@ == (if has_keyup { rel } else { Seq::empty() })
                && pressed@ == (if has_keydown { add } else { Seq::empty() })
            &&& final(keys)@ == (if has_keyup { without(old(keys)@, rel) } else { old(keys)@ })
                + (if has_keydown { add } else { Seq::empty() })
        }),
{
    if report[0] != 1 {
        return ReportAction::Stop;
    }
    let ghost held = keys@;
    let mut slots: Vec<u8> = Vec::new();
    let mut i: usize = 3;
    while i < 8
        invariant
            3 <= i <= 8,
            report@.len() == 8,
            slots@ == report@.subrange(3, i as int),
        decreases 8 - i,
    {
        slots.push(report[i]);
        i = i + 1;
        assert(slots@ =~= report@.subrange(3, i as int));
    }
    let mut add: Vec<u8> = Vec::new();
    let mut rel: Vec<u8> = Vec::new();
    let mut n: usize = 0;
    while n < 5
        invariant
            n <= 5,
            slots@.len() == 5,
            keys@ == held,
            add@ == newly_pressed(slots@, held, n as nat),
            rel@ == newly_released(slots@, held, n as nat),
        decreases 5 - n,
    {
        let x = slots[n];
        if x > 0 && !contains_u8(keys, x) {
            add.push(x);
        }
        if n < keys.len() {
            let old_key = keys[n];
            if !contains_u8(&slots, old_key) {
                rel.push(old_key);
            }
        }
        n = n + 1;
    }
    if has_keyup {
        let mut kept: Vec<u8> = Vec::new();
        let mut k: usize = 0;
        while k < keys.len()
            invariant
                k <= keys@.len(),
                keys@ == held,
                kept@ == without(held.take(k as int), rel@),
            decreases keys@.len() - k,
        {
            assert(held.take(k + 1).drop_last() =~= held.take(k as int));
            let x = keys[k];
            if !contains_u8(&rel, x) {
                kept.push(x);
            }
            k = k + 1;
        }
        assert(held.take(held.len() as int) =~= held);
        *keys = kept;
    }
    if has_keydown {
        let mut k: usize = 0;
        let ghost before = keys@;
        while k < add.len()
            invariant
                k <= add@.len(),
                keys@ == before + add@.take(k as int),
            decreases add@.len() - k,
        {
            keys.push(add[k]);
            k = k + 1;
            assert(keys@ =~= before + add@.take(k as int));
        }
        assert(add@.take(add@.len() as int) =~= add@);
    } else {
        assert(keys@ =~= keys@ + Seq::<u8>::empty());
    }
    let released = if has_keyup { rel } else { Vec::new() };
    let pressed = if has_keydown { add } else { Vec::new() };
    ReportAction::Keys { released, pressed }
}

/// The non-zero keys of `slots` are pairwise distinct, as a keyboard reports
/// them.
pub open spec fn distinct_keys(slots: Seq<u8>) -> bool {
    forall|i: int, j: int| 0 <= i < j < slots.len() && slots[i] > 0 ==> slots[i] != slots[j]
}

/// Held keys as the reader keeps them: at most five, non-zero, none twice.
pub open spec fn held_ok(held: Seq<u8>) -> bool {
    &&& held.len() <= 5
    &&& held.no_duplicates()
    &&& forall|i: int| 0 <= i < held.len() ==> held[i] > 0
}

proof fn lemma_pressed_has(slots: Seq<u8>, held: Seq<u8>, n: nat, x: u8)
    requires
        n <= slots.len(),
    ensures
        newly_pressed(slots, held, n).contains(x)
            <==> (x > 0 && !held.contains(x) && slots.take(n as int).contains(x)),
    decreases n,
{
    if n > 0 {
        lemma_pressed_has(slots, held, (n - 1) as nat, x);
        let t = slots.take(n as int);
        assert(t =~= slots.take(n - 1).push(slots[n - 1]));
        if t.contains(x) && !slots.take(n - 1).contains(x) {
            let k = choose|k: int| 0 <= k < t.len() && #[trigger] t[k] == x;
            if k < n - 1 {
                assert(slots.take(n - 1)[k] == x);
            }
        }
        if slots.take(n - 1).contains(x) {
            let k = choose|k: int| 0 <= k < n - 1 && #[trigger] slots.take(n - 1)[k] == x;
            assert(t[k] == x);
        }
        let prev = newly_pressed(slots, held, (n - 1) as nat);
        let y = slots[n - 1];
        if y > 0 && !held.contains(y) {
            assert(prev.push(y)[prev.len() as int] == y);
            if prev.push(y).contains(x) && x != y {
                let k = choose|k: int| 0 <= k < prev.len() + 1 && #[trigger] prev.push(y)[k] == x;
                assert(prev[k] == x);
            }
            if prev.contains(x) {
                let k = choose|k: int| 0 <= k < prev.len() && #[trigger] prev[k] == x;
                assert(prev.push(y)[k] == x);
            }
        }
        assert(t[n - 1] == y);
    }
}

proof fn lemma_pressed_distinct(slots: Seq<u8>, held: Seq<u8>, n: nat)
    requires
        n <= slots.len(),
        distinct_keys(slots),
    ensures
        newly_pressed(slots, held, n).no_duplicates(),
    decreases n,
{
    if n > 0 {
        lemma_pressed_distinct(slots, held, (n - 1) as nat);
        let prev = newly_pressed(slots, held, (n - 1) as nat);
        let y = slots[n - 1];
        if y > 0 && !held.contains(y) {
            lemma_pressed_has(slots, held, (n - 1) as nat, y);
            if slots.take(n - 1).contains(y) {
                let k = choose|k: int| 0 <= k < n - 1 && #[trigger] slots.take(n - 1)[k] == y;
                assert(slots[k] == y);
            }
            assert forall|i: int, j: int| 0 <= i < j < prev.push(y).len()
                implies prev.push(y)[i] != prev.push(y)[j] by {
                if j == prev.len() {
                    assert(prev[i] == prev.push(y)[i]);
                }
            }
        }
    }
}

proof fn lemma_released_has(slots: Seq<u8>, held: Seq<u8>, n: nat, x: u8)
    requires
        held.len() <= n,
    ensures
        newly_released(slots, held, n).contains(x) <==> (held.contains(x) && !slots.contains(x)),
    decreases n,
{
    lemma_released_prefix(slots, held, n, x);
    assert(held.take(held.len() as int) =~= held);
}

proof fn lemma_released_prefix(slots: Seq<u8>, held: Seq<u8>, n: nat, x: u8)
    ensures
        newly_released(slots, held, n).contains(x)
            <==> (held.take(if n < held.len() { n as int } else { held.len() as int }).contains(x)
                && !slots.contains(x)),
    decreases n,
{
    let m = if n < held.len() { n as int } else { held.len() as int };
    if n == 0 {
        assert(held.take(0).len() == 0);
    } else {
        lemma_released_prefix(slots, held, (n - 1) as nat, x);
        let m1 = if n - 1 < held.len() { n - 1 } else { held.len() as int };
        let prev = newly_released(slots, held, (n - 1) as nat);
        if n - 1 < held.len() {
            let y = held[n - 1];
            assert(held.take(m) =~= held.take(m1).push(y));
            if held.take(m).contains(x) && !held.take(m1).contains(x) {
                let k = choose|k: int| 0 <= k < m && #[trigger] held.take(m)[k] == x;
                if k < m1 {
                    assert(held.take(m1)[k] == x);
                }
            }
            if held.take(m1).contains(x) {
                let k = choose|k: int| 0 <= k < m1 && #[trigger] held.take(m1)[k] == x;
                assert(held.take(m)[k] == x);
            }
            assert(held.take(m)[m1] == y);
            if !slots.contains(y) {
                assert(prev.push(y)[prev.len() as int] == y);
                if prev.push(y).contains(x) && x != y {
                    let k = choose|k: int| 0 <= k < prev.len() + 1 && #[trigger] prev.push(y)[k] == x;
                    assert(prev[k] == x);
                }
                if prev.contains(x) {
                    let k = choose|k: int| 0 <= k < prev.len() && #[trigger] prev[k] == x;
                    assert(prev.push(y)[k] == x);
                }
            }
        } else {
            assert(m == m1);
        }
    }
}

proof fn lemma_without_has(keys: Seq<u8>, gone: Seq<u8>, x: u8)
    ensures
        without(keys, gone).contains(x) <==> (keys.contains(x) && !gone.contains(x)),
    decreases keys.len(),
{
    if keys.len() > 0 {
        let init = keys.drop_last();
        let y = keys.last();
        lemma_without_has(init, gone, x);
        assert(keys =~= init.push(y));
        let p = without(init, gone);
        if keys.contains(x) && !init.contains(x) {
            let k = choose|k: int| 0 <= k < keys.len() && #[trigger] keys[k] == x;
            if k < init.len() {
                assert(init[k] == x);
            }
        }
        if init.contains(x) {
            let k = choose|k: int| 0 <= k < init.len() && #[trigger] init[k] == x;
            assert(keys[k] == x);
        }
        if !gone.contains(y) {
            assert(p.push(y)[p.len() as int] == y);
            if p.push(y).contains(x) && x != y {
                let k = choose|k: int| 0 <= k < p.len() + 1 && #[trigger] p.push(y)[k] == x;
                assert(p[k] == x);
            }
            if p.contains(x) {
                let k = choose|k: int| 0 <= k < p.len() && #[trigger] p[k] == x;
                assert(p.push(y)[k] == x);
            }
        }
    }
}

proof fn lemma_without_distinct(keys: Seq<u8>, gone: Seq<u8>)
    requires
        keys.no_duplicates(),
    ensures
        without(keys, gone).no_duplicates(),
    decreases keys.len(),
{
    if keys.len() > 0 {
        let init = keys.drop_last();
        let y = keys.last();
        assert(init.no_duplicates()) by {
            assert forall|i: int, j: int| 0 <= i < j < init.len() implies init[i] != init[j] by {
                assert(init[i] == keys[i] && init[j] == keys[j]);
            }
        }
        lemma_without_distinct(init, gone);
        let p = without(init, gone);
        if !gone.contains(y) {
            lemma_without_has(init, gone, y);
            if init.contains(y) {
                let k = choose|k: int| 0 <= k < init.len() && #[trigger] init[k] == y;
                assert(keys[k] == keys[keys.len() - 1]);
            }
            assert forall|i: int, j: int| 0 <= i < j < p.push(y).len()
                implies p.push(y)[i] != p.push(y)[j] by {
                if j == p.len() {
                    assert(p[i] == p.push(y)[i]);
                    assert(p.contains(p[i]));
                }
            }
        }
    }
}

/// With both handlers set, the keys held after a keyboard report are exactly
/// the non-zero keys the report shows; and held keys stay at most five,
/// non-zero and without repeats from one report to the next, as long as the
/// reports name no key twice.
pub proof fn lemma_held_keys_mirror_report(report: Seq<u8>, held: Seq<u8>)
    requires
        report.len() == 8,
        report[0] == 1,
        held_ok(held),
    ensures
        ({
            let slots = report_slots(report);
            let next = without(held, newly_released(slots, held, 5)) + newly_pressed(slots, held, 5);
            &&& forall|x: u8| #[trigger] next.contains(x) <==> (x > 0 && slots.contains(x))
            &&& distinct_keys(slots) ==> held_ok(next)
        }),
{
    let slots = report_slots(report);
    let rel = newly_released(slots, held, 5);
    let add = newly_pressed(slots, held, 5);
    let kept = without(held, rel);
    let next = kept + add;
    assert(slots.take(5) =~= slots);
    assert forall|x: u8| #[trigger] next.contains(x) <==> (x > 0 && slots.contains(x)) by {
        lemma_without_has(held, rel, x);
        lemma_released_has(slots, held, 5, x);
        lemma_pressed_has(slots, held, 5, x);
        if next.contains(x) {
            let k = choose|k: int| 0 <= k < next.len() && #[trigger] next[k] == x;
            if k < kept.len() {
                assert(kept[k] == x);
            } else {
                assert(add[k - kept.len()] == x);
            }
        }
        if kept.contains(x) {
            let k = choose|k: int| 0 <= k < kept.len() && #[trigger] kept[k] == x;
            assert(next[k] == x);
        }
        if add.contains(x) {
            let k = choose|k: int| 0 <= k < add.len() && #[trigger] add[k] == x;
            assert(next[kept.len() + k] == x);
        }
        if held.contains(x) {
            let k = choose|k: int| 0 <= k < held.len() && #[trigger] held[k] == x;
            assert(held[k] > 0);
        }
    }
    if distinct_keys(slots) {
        lemma_without_distinct(held, rel);
        lemma_pressed_distinct(slots, held, 5);
        assert forall|i: int, j: int| 0 <= i < kept.len() && 0 <= j < add.len() implies kept[i] != add[j] by {
            lemma_without_has(held, rel, kept[i]);
            lemma_pressed_has(slots, held, 5, add[j]);
            assert(kept.contains(kept[i]));
            assert(add.contains(add[j]));
        }
        vstd::seq_lib::lemma_no_dup_in_concat(kept, add);
        assert forall|i: int| 0 <= i < next.len() implies next[i] > 0 by {
            assert(next.contains(next[i]));
        }
        next.unique_seq_to_set();
        assert(next.to_set().subset_of(slots.to_set())) by {
            assert forall|x: u8| next.to_set().contains(x) implies slots.to_set().contains(x) by {
                assert(next.contains(x));
            }
        }
        vstd::seq_lib::seq_to_set_is_finite(slots);
        vstd::set_lib::lemma_len_subset(next.to_set(), slots.to_set());
        slots.lemma_cardinality_of_set();
    }
}

/// Law: the hash of the empty text is 0, and appending a character multiplies
/// the hash by 31 and adds the character's code, modulo 2^32; every character
/// of the text counts, whatever its length.
pub proof fn lemma_hash_step(s: Seq<char>, c: char)
    ensures
        hash_spec(Seq::<char>::empty()) == 0,
        hash_spec(s.push(c)) as int == (hash_spec(s) as int * 31 + c as u32 as int) % 0x1_0000_0000,
{
    let t = s.push(c);
    assert(t.drop_last() =~= s);
    assert(t.last() == c);
    let h = hash_spec(s);
    let m = u32_specs::wrapping_mul(h, 31);
    let x = c as u32;
    assert(m as int == (h as int * 31) % 0x1_0000_0000);
    vstd::arithmetic::div_mod::lemma_add_mod_noop(h as int * 31, x as int, 0x1_0000_0000);
    vstd::arithmetic::div_mod::lemma_small_mod(x as nat, 0x1_0000_0000);
    assert(hash_spec(t) == u32_specs::wrapping_add(m, x));
    if m as int + x as int > u32::MAX {
        vstd::arithmetic::div_mod::lemma_mod_sub_multiples_vanish(m as int + x as int, 0x1_0000_0000);
        vstd::arithmetic::div_mod::lemma_small_mod((m as int + x as int - 0x1_0000_0000) as nat, 0x1_0000_0000);
    } else {
        vstd::arithmetic::div_mod::lemma_small_mod((m as int + x as int) as nat, 0x1_0000_0000);
    }
}

/// Law: the keys of the USB HID keyboard usage table, code by code: letters
/// from 4, digits 1 to 9 then 0 from 30, then Enter, Escape, Backspace, Tab,
/// Space, the punctuation keys, Caps Lock, and F1 to F12 from 58 to 69.
pub proof fn lemma_hid_usage_table()
    ensures
        key_from_code(4) == Key::A,
        key_from_code(5) == Key::B,
        key_from_code(6) == Key::C,
        key_from_code(7) == Key::D,
        key_from_code(8) == Key::E,
        key_from_code(9) == Key::F,
        key_from_code(10) == Key::G,
        key_from_code(11) == Key::H,
        key_from_code(12) == Key::I,
        key_from_code(13) == Key::J,
        key_from_code(14) == Key::K,
        key_from_code(15) == Key::L,
        key_from_code(16) == Key::M,
        key_from_code(17) == Key::N,
        key_from_code(18) == Key::O,
        key_from_code(19) == Key::P,
        key_from_code(20) == Key::Q,
        key_from_code(21) == Key::R,
        key_from_code(22) == Key::S,
        key_from_code(23) == Key::T,
        key_from_code(24) == Key::U,
        key_from_code(25) == Key::V,
        key_from_code(26) == Key::W,
        key_from_code(27) == Key::X,
        key_from_code(28) == Key::Y,
        key_from_code(29) == Key::Z,
        key_from_code(30) == Key::Num1,
        key_from_code(31) == Key::Num2,
        key_from_code(32) == Key::Num3,
        key_from_code(33) == Key::Num4,
        key_from_code(34) == Key::Num5,
        key_from_code(35) == Key::Num6,
        key_from_code(36) == Key::Num7,
        key_from_code(37) == Key::Num8,
        key_from_code(38) == Key::Num9,
        key_from_code(39) == Key::Num0,
        key_from_code(40) == Key::Enter,
        key_from_code(41) == Key::Escape,
        key_from_code(42) == Key::Backspace,
        key_from_code(43) == Key::Tab,
        key_from_code(44) == Key::Space,
        key_from_code(45) == Key::Minus,
        key_from_code(46) == Key::Equals,
        key_from_code(47) == Key::LeftBracket,
        key_from_code(48) == Key::RightBracket,
        key_from_code(49) == Key::Backslash,
        key_from_code(50) == Key::NonUsHash,
        key_from_code(51) == Key::Semicolon,
        key_from_code(52) == Key::Apostrophe,
        key_from_code(53) == Key::Grave,
        key_from_code(54) == Key::Comma,
        key_from_code(55) == Key::Period,
        key_from_code(56) == Key::Slash,
        key_from_code(57) == Key::CapsLock,
        key_from_code(58) == Key::F1,
        key_from_code(59) == Key::F2,
        key_from_code(60) == Key::F3,
        key_from_code(61) == Key::F4,
        key_from_code(62) == Key::F5,
        key_from_code(63) == Key::F6,
        key_from_code(64) == Key::F7,
        key_from_code(65) == Key::F8,
        key_from_code(66) == Key::F9,
        key_from_code(67) == Key::F10,
        key_from_code(68) == Key::F11,
        key_from_code(69) == Key::F12,
        key_code(Key::A) == 4,
        key_code(Key::B) == 5,
        key_code(Key::C) == 6,
        key_code(Key::D) == 7,
        key_code(Key::E) == 8,
        key_code(Key::F) == 9,
        key_code(Key::G) == 10,
        key_code(Key::H) == 11,
        key_code(Key::I) == 12,
        key_code(Key::J) == 13,
        key_code(Key::K) == 14,
        key_code(Key::L) == 15,
        key_code(Key::M) == 16,
        key_code(Key::N) == 17,
        key_code(Key::O) == 18,
        key_code(Key::P) == 19,
        key_code(Key::Q) == 20,
        key_code(Key::R) == 21,
        key_code(Key::S) == 22,
        key_code(Key::T) == 23,
        key_code(Key::U) == 24,
        key_code(Key::V) == 25,
        key_code(Key::W) == 26,
        key_code(Key::X) == 27,
        key_code(Key::Y) == 28,
        key_code(Key::Z) == 29,
        key_code(Key::Num1) == 30,
        key_code(Key::Num2) == 31,
        key_code(Key::Num3) == 32,
        key_code(Key::Num4) == 33,
        key_code(Key::Num5) == 34,
        key_code(Key::Num6) == 35,
        key_code(Key::Num7) == 36,
        key_code(Key::Num8) == 37,
        key_code(Key::Num9) == 38,
        key_code(Key::Num0) == 39,
        key_code(Key::Enter) == 40,
        key_code(Key::Escape) == 41,
        key_code(Key::Backspace) == 42,
        key_code(Key::Tab) == 43,
        key_code(Key::Space) == 44,
        key_code(Key::Minus) == 45,
        key_code(Key::Equals) == 46,
        key_code(Key::LeftBracket) == 47,
        key_code(Key::RightBracket) == 48,
        key_code(Key::Backslash) == 49,
        key_code(Key::NonUsHash) == 50,
        key_code(Key::Semicolon) == 51,
        key_code(Key::Apostrophe) == 52,
        key_code(Key::Grave) == 53,
        key_code(Key::Comma) == 54,
        key_code(Key::Period) == 55,
        key_code(Key::Slash) == 56,
        key_code(Key::CapsLock) == 57,
        key_code(Key::F1) == 58,
        key_code(Key::F2) == 59,
        key_code(Key::F3) == 60,
        key_code(Key::F4) == 61,
        key_code(Key::F5) == 62,
        key_code(Key::F6) == 63,
        key_code(Key::F7) == 64,
        key_code(Key::F8) == 65,
        key_code(Key::F9) == 66,
        key_code(Key::F10) == 67,
        key_code(Key::F11) == 68,
        key_code(Key::F12) == 69,
{
}

} // verus!
