//! The key pad: which host key stands for which of the 16 keys, and how the
//! keys are labelled.

use crate::scheduler::{App, Event};
use vstd::prelude::*;

verus! {

/// The counter that the rewind command sets: rewinding lasts two key-decay ticks.
pub const REWIND_TICKS: u8 = 2;

/// The keys in the order in which the pad shows them, row by row.
pub const PAD_LAYOUT: [u8; 16] = [
    0x1, 0x2, 0x3, 0xC,
    0x4, 0x5, 0x6, 0xD,
    0x7, 0x8, 0x9, 0xE,
    0xA, 0x0, 0xB, 0xF,
];

/// The host key for each of the keys 0 to F, as an upper-case letter or digit.
pub open spec fn host_keys() -> Seq<char> {
    seq!['X', '1', '2', '3', 'Q', 'W', 'E', 'A', 'S', 'D', 'Z', 'C', '4', 'R', 'F', 'V']
}

/// The machine's own names of the keys 0 to F.
pub open spec fn key_names() -> Seq<char> {
    seq!['0', '1', '2', '3', '4', '5', '6', '7', '8', '9', 'A', 'B', 'C', 'D', 'E', 'F']
}

/// The key that the typed character `c` stands for, if any. Letters are
/// typed in lower case.
pub open spec fn key_of(c: char) -> Option<u8> {
    if c == '1' {
        Some(0x1u8)
    } else if c == '2' {
        Some(0x2u8)
    } else if c == '3' {
        Some(0x3u8)
    } else if c == '4' {
        Some(0xCu8)
    } else if c == 'q' {
        Some(0x4u8)
    } else if c == 'w' {
        Some(0x5u8)
    } else if c == 'e' {
        Some(0x6u8)
    } else if c == 'r' {
        Some(0xDu8)
    } else if c == 'a' {
        Some(0x7u8)
    } else if c == 's' {
        Some(0x8u8)
    } else if c == 'd' {
        Some(0x9u8)
    } else if c == 'f' {
        Some(0xEu8)
    } else if c == 'z' {
        Some(0xAu8)
    } else if c == 'x' {
        Some(0x0u8)
    } else if c == 'c' {
        Some(0xBu8)
    } else if c == 'v' {
        Some(0xFu8)
    } else {
        None
    }
}

/// The character that is typed for the host key `label`: letters in lower
/// case, digits as they are.
pub open spec fn typed(label: char) -> char {
    if 'A' <= label <= 'Z' {
        ((label as int) + 32) as char
    } else {
        label
    }
}

/// The event that the typed character `c` stands for.
pub open spec fn event_of(c: char) -> Event {
    match key_of(c) {
        Some(key) => Event::KeyPress(key),
        None => {
            if c == 'g' {
                Event::BeginRewind(2)
            } else if c == '<' {
                Event::StepBack
            } else if c == '>' {
                Event::StepForward
            } else if c == 'p' {
                Event::TogglePause
            } else {
                Event::Redraw
            }
        },
    }
}

/// A stroke on the host's keyboard.
#[derive(Debug, Clone, Copy, PartialEq, Eq, Structural)]
pub enum Keystroke {
    /// A character typed by itself.
    Char(char),
    /// A character typed with the control key held down.
    Ctrl(char),
    /// Any other key.
    Other,
}

/// The event that a key stroke stands for: with the control key, `c` quits,
/// `d` and `o` flip the debug and key-label switches and `r` resets; a plain
/// character is taken as by [`event_of`]; everything else asks for a frame.
pub open spec fn event_of_keystroke(stroke: Keystroke) -> Event {
    match stroke {
        Keystroke::Ctrl(c) => {
            if c == 'c' {
                Event::Quit
            } else if c == 'd' {
                Event::ToggleDebug
            } else if c == 'o' {
                Event::ToggleControls
            } else if c == 'r' {
                Event::Reset
            } else {
                Event::Redraw
            }
        },
        Keystroke::Char(c) => event_of(c),
        Keystroke::Other => Event::Redraw,
    }
}

/// The key that a typed character stands for, if any.
pub fn key_for_char(c: char) -> (key: Option<u8>)
    ensures
        key == key_of(c),
        key matches Some(k) ==> k < 16,
{
    match c {
        '1' => Some(0x1),
        '2' => Some(0x2),
        '3' => Some(0x3),
        '4' => Some(0xC),
        'q' => Some(0x4),
        'w' => Some(0x5),
        'e' => Some(0x6),
        'r' => Some(0xD),
        'a' => Some(0x7),
        's' => Some(0x8),
        'd' => Some(0x9),
        'f' => Some(0xE),
        'z' => Some(0xA),
        'x' => Some(0x0),
        'c' => Some(0xB),
        'v' => Some(0xF),
        _ => None,
    }
}

/// The event that a typed character stands for: a key press, a rewind of two
/// key-decay ticks for `g`, a step back or forward for `<` and `>`, pause for
/// `p`, and a mere redraw for every other character.
pub fn event_for_char(c: char) -> (event: Event)
    ensures
        event == event_of(c),
{
    match key_for_char(c) {
        Some(key) => Event::KeyPress(key),
        None => match c {
            'g' => Event::BeginRewind(REWIND_TICKS),
            '<' => Event::StepBack,
            '>' => Event::StepForward,
            'p' => Event::TogglePause,
            _ => Event::Redraw,
        },
    }
}

/// The event that a key stroke stands for.
pub fn event_for_keystroke(stroke: Keystroke) -> (event: Event)
    ensures
        event == event_of_keystroke(stroke),
{
    match stroke {
        Keystroke::Ctrl('c') => Event::Quit,
        Keystroke::Ctrl('d') => Event::ToggleDebug,
        Keystroke::Ctrl('o') => Event::ToggleControls,
        Keystroke::Ctrl('r') => Event::Reset,
        Keystroke::Char(c) => event_for_char(c),
        _ => Event::Redraw,
    }
}

/// The machine's own name of `key`: its hexadecimal digit.
pub fn key_name(key: u8) -> (name: &'static str)
    requires
        key < 16,
    ensures
        name@ == seq![key_names()[key as int]],
{
    proof {
        reveal_strlit("0");
        reveal_strlit("1");
        reveal_strlit("2");
        reveal_strlit("3");
        reveal_strlit("4");
        reveal_strlit("5");
        reveal_strlit("6");
        reveal_strlit("7");
        reveal_strlit("8");
        reveal_strlit("9");
        reveal_strlit("A");
        reveal_strlit("B");
        reveal_strlit("C");
        reveal_strlit("D");
        reveal_strlit("E");
        reveal_strlit("F");
    }
    let name = match key {
        0x0 => "0",
        0x1 => "1",
        0x2 => "2",
        0x3 => "3",
        0x4 => "4",
        0x5 => "5",
        0x6 => "6",
        0x7 => "7",
        0x8 => "8",
        0x9 => "9",
        0xA => "A",
        0xB => "B",
        0xC => "C",
        0xD => "D",
        0xE => "E",
        _ => "F",
    };
    assert(name@ =~= seq![key_names()[key as int]]);
    name
}

/// The host key that stands for `key`, as it is printed on the pad.
pub fn button_label(key: u8) -> (label: &'static str)
    requires
        key < 16,
    ensures
        label@ == seq![host_keys()[key as int]],
{
    proof {
        reveal_strlit("X");
        reveal_strlit("1");
        reveal_strlit("2");
        reveal_strlit("3");
        reveal_strlit("Q");
        reveal_strlit("W");
        reveal_strlit("E");
        reveal_strlit("A");
        reveal_strlit("S");
        reveal_strlit("D");
        reveal_strlit("Z");
        reveal_strlit("C");
        reveal_strlit("4");
        reveal_strlit("R");
        reveal_strlit("F");
        reveal_strlit("V");
    }
    let label = match key {
        0x0 => "X",
        0x1 => "1",
        0x2 => "2",
        0x3 => "3",
        0x4 => "Q",
        0x5 => "W",
        0x6 => "E",
        0x7 => "A",
        0x8 => "S",
        0x9 => "D",
        0xA => "Z",
        0xB => "C",
        0xC => "4",
        0xD => "R",
        0xE => "F",
        _ => "V",
    };
    assert(label@ =~= seq![host_keys()[key as int]]);
    label
}

/// What the pad shows for `key`: the machine's own name of the key, or the
/// host key that stands for it.
pub fn pad_label(app: &App, key: u8) -> (label: &'static str)
    requires
        key < 16,
    ensures
        label@ == if app.show_real_controls {
            seq![key_names()[key as int]]
        } else {
            seq![host_keys()[key as int]]
        },
{
    if app.show_real_controls {
        key_name(key)
    } else {
        button_label(key)
    }
}

/// Typing the host key that the pad shows for a key presses that key, and a
/// typed character presses no key but the one that shows it.
pub proof fn lemma_labels_match_keys(key: u8)
    requires
        key < 16,
    ensures
        key_of(typed(host_keys()[key as int])) == Some(key),
        forall|c: char| key_of(c) == Some(key) ==> c == typed(host_keys()[key as int]),
{
}

} // verus!
