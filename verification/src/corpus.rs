//! Keystrokes, the tables that count them, and the generator built on them.

use vstd::prelude::*;
use crate::event::{Event, EventType};
pub use crate::generator::Generator;
use crate::heatmap::{Heatmap, TableKey};
use crate::key::Key;

verus! {

/// Alias to identify the occurrence of a keypress.
pub type KeystrokeCount = u32;

/// A keystroke is a keypress with an OS interpreted value.
#[derive(Debug, Eq, Hash, PartialEq)]
pub struct Keystroke {
    /// The key that was pressed.
    pub key: Key,
    /// The OS interpreted value of the key.
    pub interpreted: String,
}

/// What a keystroke is to the tables: its key and the characters of its
/// text. Two keystrokes with one key and different text are different.
pub struct KeystrokeView {
    pub key: Key,
    pub interpreted: Seq<char>,
}

impl View for Keystroke {
    type V = KeystrokeView;

    open spec fn view(&self) -> KeystrokeView {
        KeystrokeView { key: self.key, interpreted: self.interpreted@ }
    }
}

impl Clone for Keystroke {
    fn clone(&self) -> (res: Self)
        ensures
            res == *self,
    {
        Keystroke { key: self.key, interpreted: self.interpreted.clone() }
    }
}

impl TableKey for Keystroke {
    fn same(&self, other: &Self) -> (b: bool) {
        self.key == other.key && self.interpreted == other.interpreted
    }
}

/// A corpus is a list of keystrokes
pub type Corpus = Vec<Keystroke>;

/// A keystroke heatmap is a map of keystrokes to the number of times they have been pressed.
pub type KeystrokeHeatmap = Heatmap<Keystroke>;

/// A bigram heatmap is a map of bigrams to the number of times they have been pressed.
pub type BigramHeatmap = Heatmap<(Keystroke, Keystroke)>;

/// A trigram heatmap is a map of trigrams to the number of times they have been pressed.
pub type TrigramHeatmap = Heatmap<(Keystroke, Keystroke, Keystroke)>;

/// The keystroke that an event stands for: the key that went down or up, and
/// the text that came with it, empty where none did. An event that is no key
/// event stands for the nameless key 0.
pub open spec fn keystroke_of(e: Event) -> KeystrokeView {
    KeystrokeView {
        key: match e.event_type {
            EventType::KeyPress(k) => k,
            EventType::KeyRelease(k) => k,
            EventType::Other => Key::Unknown(0),
        },
        interpreted: match e.name {
            Some(text) => text@,
            None => Seq::empty(),
        },
    }
}

/// The keystroke that an event stands for.
pub fn event_to_keystroke(e: &Event) -> (ks: Keystroke)
    ensures
        ks@ == keystroke_of(*e),
{
    Keystroke {
        key: match e.event_type {
            EventType::KeyPress(k) => k,
            EventType::KeyRelease(k) => k,
            EventType::Other => Key::Unknown(0),
        },
        interpreted: match &e.name {
            Some(text) => text.clone(),
            None => String::new(),
        },
    }
}

} // verus!
