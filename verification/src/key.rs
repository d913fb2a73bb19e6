//! Physical keys of a keyboard, and the number each one is stored under.

use vstd::prelude::*;

verus! {

/// The numbers from here up to `UNKNOWN_BASE + u32::MAX` stand for the keys
/// that have no name: `UNKNOWN_BASE + raw` for `Key::Unknown(raw)`.
pub const UNKNOWN_BASE: u64 = 0x1_0000_0000;

/// A key of the keyboard, named after its place on a Qwerty layout. The name
/// says nothing of the character that the key produces.
#[derive(Clone, Copy, Debug, PartialEq, Eq, Hash, Structural)]
pub enum Key {
    Alt,
    AltGr,
    Backspace,
    CapsLock,
    ControlLeft,
    ControlRight,
    Delete,
    DownArrow,
    End,
    Escape,
    F1,
    F10,
    F11,
    F12,
    F2,
    F3,
    F4,
    F5,
    F6,
    F7,
    F8,
    F9,
    Home,
    LeftArrow,
    MetaLeft,
    MetaRight,
    PageDown,
    PageUp,
    Return,
    RightArrow,
    ShiftLeft,
    ShiftRight,
    Space,
    Tab,
    UpArrow,
    PrintScreen,
    ScrollLock,
    Pause,
    NumLock,
    BackQuote,
    Num1,
    Num2,
    Num3,
    Num4,
    Num5,
    Num6,
    Num7,
    Num8,
    Num9,
    Num0,
    Minus,
    Equal,
    KeyQ,
    KeyW,
    KeyE,
    KeyR,
    KeyT,
    KeyY,
    KeyU,
    KeyI,
    KeyO,
    KeyP,
    LeftBracket,
    RightBracket,
    KeyA,
    KeyS,
    KeyD,
    KeyF,
    KeyG,
    KeyH,
    KeyJ,
    KeyK,
    KeyL,
    SemiColon,
    Quote,
    BackSlash,
    IntlBackslash,
    KeyZ,
    KeyX,
    KeyC,
    KeyV,
    KeyB,
    KeyN,
    KeyM,
    Comma,
    Dot,
    Slash,
    Insert,
    KpReturn,
    KpMinus,
    KpPlus,
    KpMultiply,
    KpDivide,
    Kp0,
    Kp1,
    Kp2,
    Kp3,
    Kp4,
    Kp5,
    Kp6,
    Kp7,
    Kp8,
    Kp9,
    KpDelete,
    Function,
    /// A key without a name, by the number the system gives it.
    Unknown(u32),
}

impl Key {
    /// The number that stands for the key: the named keys count up from 0 in
    /// the order of their declaration, the others follow `UNKNOWN_BASE`.
    pub open spec fn spec_code(self) -> u64 {
        match self {
            Key::Alt => 0u64,
            Key::AltGr => 1u64,
            Key::Backspace => 2u64,
            Key::CapsLock => 3u64,
            Key::ControlLeft => 4u64,
            Key::ControlRight => 5u64,
            Key::Delete => 6u64,
            Key::DownArrow => 7u64,
            Key::End => 8u64,
            Key::Escape => 9u64,
            Key::F1 => 10u64,
            Key::F10 => 11u64,
            Key::F11 => 12u64,
            Key::F12 => 13u64,
            Key::F2 => 14u64,
            Key::F3 => 15u64,
            Key::F4 => 16u64,
            Key::F5 => 17u64,
            Key::F6 => 18u64,
            Key::F7 => 19u64,
            Key::F8 => 20u64,
            Key::F9 => 21u64,
            Key::Home => 22u64,
            Key::LeftArrow => 23u64,
            Key::MetaLeft => 24u64,
            Key::MetaRight => 25u64,
            Key::PageDown => 26u64,
            Key::PageUp => 27u64,
            Key::Return => 28u64,
            Key::RightArrow => 29u64,
            Key::ShiftLeft => 30u64,
            Key::ShiftRight => 31u64,
            Key::Space => 32u64,
            Key::Tab => 33u64,
            Key::UpArrow => 34u64,
            Key::PrintScreen => 35u64,
            Key::ScrollLock => 36u64,
            Key::Pause => 37u64,
            Key::NumLock => 38u64,
            Key::BackQuote => 39u64,
            Key::Num1 => 40u64,
            Key::Num2 => 41u64,
            Key::Num3 => 42u64,
            Key::Num4 => 43u64,
            Key::Num5 => 44u64,
            Key::Num6 => 45u64,
            Key::Num7 => 46u64,
            Key::Num8 => 47u64,
            Key::Num9 => 48u64,
            Key::Num0 => 49u64,
            Key::Minus => 50u64,
            Key::Equal => 51u64,
            Key::KeyQ => 52u64,
            Key::KeyW => 53u64,
            Key::KeyE => 54u64,
            Key::KeyR => 55u64,
            Key::KeyT => 56u64,
            Key::KeyY => 57u64,
            Key::KeyU => 58u64,
            Key::KeyI => 59u64,
            Key::KeyO => 60u64,
            Key::KeyP => 61u64,
            Key::LeftBracket => 62u64,
            Key::RightBracket => 63u64,
            Key::KeyA => 64u64,
            Key::KeyS => 65u64,
            Key::KeyD => 66u64,
            Key::KeyF => 67u64,
            Key::KeyG => 68u64,
            Key::KeyH => 69u64,
            Key::KeyJ => 70u64,
            Key::KeyK => 71u64,
            Key::KeyL => 72u64,
            Key::SemiColon => 73u64,
            Key::Quote => 74u64,
            Key::BackSlash => 75u64,
            Key::IntlBackslash => 76u64,
            Key::KeyZ => 77u64,
            Key::KeyX => 78u64,
            Key::KeyC => 79u64,
            Key::KeyV => 80u64,
            Key::KeyB => 81u64,
            Key::KeyN => 82u64,
            Key::KeyM => 83u64,
            Key::Comma => 84u64,
            Key::Dot => 85u64,
            Key::Slash => 86u64,
            Key::Insert => 87u64,
            Key::KpReturn => 88u64,
            Key::KpMinus => 89u64,
            Key::KpPlus => 90u64,
            Key::KpMultiply => 91u64,
            Key::KpDivide => 92u64,
            Key::Kp0 => 93u64,
            Key::Kp1 => 94u64,
            Key::Kp2 => 95u64,
            Key::Kp3 => 96u64,
            Key::Kp4 => 97u64,
            Key::Kp5 => 98u64,
            Key::Kp6 => 99u64,
            Key::Kp7 => 100u64,
            Key::Kp8 => 101u64,
            Key::Kp9 => 102u64,
            Key::KpDelete => 103u64,
            Key::Function => 104u64,
            Key::Unknown(raw) => (UNKNOWN_BASE + raw) as u64,
        }
    }

    /// The number that stands for the key.
    #[verifier::when_used_as_spec(spec_code)]
    pub fn code(self) -> (code: u64)
        ensures
            code == self.spec_code(),
    {
        match self {
            Key::Alt => 0u64,
            Key::AltGr => 1u64,
            Key::Backspace => 2u64,
            Key::CapsLock => 3u64,
            Key::ControlLeft => 4u64,
            Key::ControlRight => 5u64,
            Key::Delete => 6u64,
            Key::DownArrow => 7u64,
            Key::End => 8u64,
            Key::Escape => 9u64,
            Key::F1 => 10u64,
            Key::F10 => 11u64,
            Key::F11 => 12u64,
            Key::F12 => 13u64,
            Key::F2 => 14u64,
            Key::F3 => 15u64,
            Key::F4 => 16u64,
            Key::F5 => 17u64,
            Key::F6 => 18u64,
            Key::F7 => 19u64,
            Key::F8 => 20u64,
            Key::F9 => 21u64,
            Key::Home => 22u64,
            Key::LeftArrow => 23u64,
            Key::MetaLeft => 24u64,
            Key::MetaRight => 25u64,
            Key::PageDown => 26u64,
            Key::PageUp => 27u64,
            Key::Return => 28u64,
            Key::RightArrow => 29u64,
            Key::ShiftLeft => 30u64,
            Key::ShiftRight => 31u64,
            Key::Space => 32u64,
            Key::Tab => 33u64,
            Key::UpArrow => 34u64,
            Key::PrintScreen => 35u64,
            Key::ScrollLock => 36u64,
            Key::Pause => 37u64,
            Key::NumLock => 38u64,
            Key::BackQuote => 39u64,
            Key::Num1 => 40u64,
            Key::Num2 => 41u64,
            Key::Num3 => 42u64,
            Key::Num4 => 43u64,
            Key::Num5 => 44u64,
            Key::Num6 => 45u64,
            Key::Num7 => 46u64,
            Key::Num8 => 47u64,
            Key::Num9 => 48u64,
            Key::Num0 => 49u64,
            Key::Minus => 50u64,
            Key::Equal => 51u64,
            Key::KeyQ => 52u64,
            Key::KeyW => 53u64,
            Key::KeyE => 54u64,
            Key::KeyR => 55u64,
            Key::KeyT => 56u64,
            Key::KeyY => 57u64,
            Key::KeyU => 58u64,
            Key::KeyI => 59u64,
            Key::KeyO => 60u64,
            Key::KeyP => 61u64,
            Key::LeftBracket => 62u64,
            Key::RightBracket => 63u64,
            Key::KeyA => 64u64,
            Key::KeyS => 65u64,
            Key::KeyD => 66u64,
            Key::KeyF => 67u64,
            Key::KeyG => 68u64,
            Key::KeyH => 69u64,
            Key::KeyJ => 70u64,
            Key::KeyK => 71u64,
            Key::KeyL => 72u64,
            Key::SemiColon => 73u64,
            Key::Quote => 74u64,
            Key::BackSlash => 75u64,
            Key::IntlBackslash => 76u64,
            Key::KeyZ => 77u64,
            Key::KeyX => 78u64,
            Key::KeyC => 79u64,
            Key::KeyV => 80u64,
            Key::KeyB => 81u64,
            Key::KeyN => 82u64,
            Key::KeyM => 83u64,
            Key::Comma => 84u64,
            Key::Dot => 85u64,
            Key::Slash => 86u64,
            Key::Insert => 87u64,
            Key::KpReturn => 88u64,
            Key::KpMinus => 89u64,
            Key::KpPlus => 90u64,
            Key::KpMultiply => 91u64,
            Key::KpDivide => 92u64,
            Key::Kp0 => 93u64,
            Key::Kp1 => 94u64,
            Key::Kp2 => 95u64,
            Key::Kp3 => 96u64,
            Key::Kp4 => 97u64,
            Key::Kp5 => 98u64,
            Key::Kp6 => 99u64,
            Key::Kp7 => 100u64,
            Key::Kp8 => 101u64,
            Key::Kp9 => 102u64,
            Key::KpDelete => 103u64,
            Key::Function => 104u64,
            Key::Unknown(raw) => UNKNOWN_BASE + raw as u64,
        }
    }

    /// Whether `code` stands for a key.
    pub open spec fn is_code(code: u64) -> bool {
        exists|k: Key| k.spec_code() == code
    }

    /// The key that `code` stands for, where `is_code(code)`.
    pub open spec fn of_code(code: u64) -> Key {
        choose|k: Key| k.spec_code() == code
    }

    /// The key that `code` stands for, if there is one.
    pub fn from_code(code: u64) -> (key: Option<Key>)
        ensures
            match key {
                Some(k) => Key::is_code(code) && k == Key::of_code(code),
                None => !Key::is_code(code),
            },
    {
        let key = Key::lookup(code);
        proof {
            match key {
                Some(k) => {
                    Key::lemma_code_is_injective(k, Key::of_code(code));
                },
                None => {},
            }
        }
        key
    }

    fn lookup(code: u64) -> (key: Option<Key>)
        ensures
            match key {
                Some(k) => k.spec_code() == code,
                None => forall|k: Key| k.spec_code() != code,
            },
    {
        if code >= UNKNOWN_BASE {
            if code - UNKNOWN_BASE <= 0xffff_ffff {
                Some(Key::Unknown((code - UNKNOWN_BASE) as u32))
            } else {
                None
            }
        } else {
            match code {
                0u64 => Some(Key::Alt),
                1u64 => Some(Key::AltGr),
                2u64 => Some(Key::Backspace),
                3u64 => Some(Key::CapsLock),
                4u64 => Some(Key::ControlLeft),
                5u64 => Some(Key::ControlRight),
                6u64 => Some(Key::Delete),
                7u64 => Some(Key::DownArrow),
                8u64 => Some(Key::End),
                9u64 => Some(Key::Escape),
                10u64 => Some(Key::F1),
                11u64 => Some(Key::F10),
                12u64 => Some(Key::F11),
                13u64 => Some(Key::F12),
                14u64 => Some(Key::F2),
                15u64 => Some(Key::F3),
                16u64 => Some(Key::F4),
                17u64 => Some(Key::F5),
                18u64 => Some(Key::F6),
                19u64 => Some(Key::F7),
                20u64 => Some(Key::F8),
                21u64 => Some(Key::F9),
                22u64 => Some(Key::Home),
                23u64 => Some(Key::LeftArrow),
                24u64 => Some(Key::MetaLeft),
                25u64 => Some(Key::MetaRight),
                26u64 => Some(Key::PageDown),
                27u64 => Some(Key::PageUp),
                28u64 => Some(Key::Return),
                29u64 => Some(Key::RightArrow),
                30u64 => Some(Key::ShiftLeft),
                31u64 => Some(Key::ShiftRight),
                32u64 => Some(Key::Space),
                33u64 => Some(Key::Tab),
                34u64 => Some(Key::UpArrow),
                35u64 => Some(Key::PrintScreen),
                36u64 => Some(Key::ScrollLock),
                37u64 => Some(Key::Pause),
                38u64 => Some(Key::NumLock),
                39u64 => Some(Key::BackQuote),
                40u64 => Some(Key::Num1),
                41u64 => Some(Key::Num2),
                42u64 => Some(Key::Num3),
                43u64 => Some(Key::Num4),
                44u64 => Some(Key::Num5),
                45u64 => Some(Key::Num6),
                46u64 => Some(Key::Num7),
                47u64 => Some(Key::Num8),
                48u64 => Some(Key::Num9),
                49u64 => Some(Key::Num0),
                50u64 => Some(Key::Minus),
                51u64 => Some(Key::Equal),
                52u64 => Some(Key::KeyQ),
                53u64 => Some(Key::KeyW),
                54u64 => Some(Key::KeyE),
                55u64 => Some(Key::KeyR),
                56u64 => Some(Key::KeyT),
                57u64 => Some(Key::KeyY),
                58u64 => Some(Key::KeyU),
                59u64 => Some(Key::KeyI),
                60u64 => Some(Key::KeyO),
                61u64 => Some(Key::KeyP),
                62u64 => Some(Key::LeftBracket),
                63u64 => Some(Key::RightBracket),
                64u64 => Some(Key::KeyA),
                65u64 => Some(Key::KeyS),
                66u64 => Some(Key::KeyD),
                67u64 => Some(Key::KeyF),
                68u64 => Some(Key::KeyG),
                69u64 => Some(Key::KeyH),
                70u64 => Some(Key::KeyJ),
                71u64 => Some(Key::KeyK),
                72u64 => Some(Key::KeyL),
                73u64 => Some(Key::SemiColon),
                74u64 => Some(Key::Quote),
                75u64 => Some(Key::BackSlash),
                76u64 => Some(Key::IntlBackslash),
                77u64 => Some(Key::KeyZ),
                78u64 => Some(Key::KeyX),
                79u64 => Some(Key::KeyC),
                80u64 => Some(Key::KeyV),
                81u64 => Some(Key::KeyB),
                82u64 => Some(Key::KeyN),
                83u64 => Some(Key::KeyM),
                84u64 => Some(Key::Comma),
                85u64 => Some(Key::Dot),
                86u64 => Some(Key::Slash),
                87u64 => Some(Key::Insert),
                88u64 => Some(Key::KpReturn),
                89u64 => Some(Key::KpMinus),
                90u64 => Some(Key::KpPlus),
                91u64 => Some(Key::KpMultiply),
                92u64 => Some(Key::KpDivide),
                93u64 => Some(Key::Kp0),
                94u64 => Some(Key::Kp1),
                95u64 => Some(Key::Kp2),
                96u64 => Some(Key::Kp3),
                97u64 => Some(Key::Kp4),
                98u64 => Some(Key::Kp5),
                99u64 => Some(Key::Kp6),
                100u64 => Some(Key::Kp7),
                101u64 => Some(Key::Kp8),
                102u64 => Some(Key::Kp9),
                103u64 => Some(Key::KpDelete),
                104u64 => Some(Key::Function),
                _ => None,
            }
        }
    }

    /// No two keys share a number.
    pub proof fn lemma_code_is_injective(a: Key, b: Key)
        requires
            a.spec_code() == b.spec_code(),
        ensures
            a == b,
    {
    }

    /// A key's number stands for that key.
    pub proof fn lemma_code_round_trip(k: Key)
        ensures
            Key::is_code(k.spec_code()),
            Key::of_code(k.spec_code()) == k,
    {
        Key::lemma_code_is_injective(k, Key::of_code(k.spec_code()));
    }
}

} // verus!
