//! Decoding of raw key presses into editor input messages, with held
//! modifier keys.
use vstd::prelude::*;

verus! {

/// A key of the editor's keyboard.
#[derive(PartialEq, Eq, Structural, Clone, Copy, Debug, Hash)]
pub enum Key {
    Up,
    Down,
    Left,
    Right,
    Option,
    Edit,
    Play,
    Quit,
    Shift,
}

/// An input message for the editor.
#[derive(PartialEq, Eq, Structural, Clone, Copy, Debug, Hash)]
pub enum InputMessage {
    Play,
    Up,
    Down,
    Left,
    Right,
    ShiftUp,
    ShiftDown,
    ShiftLeft,
    ShiftRight,
    EditUp,
    EditDown,
    EditLeft,
    EditRight,
    Clear,
}

/// A key going down or coming up.
#[derive(PartialEq, Eq, Structural, Clone, Copy, Debug, Hash)]
pub enum RawInputMessage {
    Press(Key),
    Release(Key),
}

/// A key code as a terminal reports it: a character key, an arrow, or
/// another key.
#[derive(PartialEq, Eq, Structural, Clone, Copy, Debug, Hash)]
pub enum KeyCode {
    Char(char),
    ArrowUp,
    ArrowDown,
    ArrowLeft,
    ArrowRight,
    Other,
}

/// The editor key bound to a key code: arrows, space to play, `q` to
/// quit, `c` to edit, `x` for the option key and `z` for shift.
pub open spec fn key_for(code: KeyCode) -> Option<Key> {
    match code {
        KeyCode::Char(' ') => Some(Key::Play),
        KeyCode::Char('q') => Some(Key::Quit),
        KeyCode::Char('c') => Some(Key::Edit),
        KeyCode::Char('x') => Some(Key::Option),
        KeyCode::Char('z') => Some(Key::Shift),
        KeyCode::ArrowUp => Some(Key::Up),
        KeyCode::ArrowDown => Some(Key::Down),
        KeyCode::ArrowLeft => Some(Key::Left),
        KeyCode::ArrowRight => Some(Key::Right),
        _ => None,
    }
}

/// The raw message for a key code going down (`pressed`) or up; codes
/// bound to no key give none.
pub fn raw_message(code: KeyCode, pressed: bool) -> (m: Option<RawInputMessage>)
    ensures
        m == match key_for(code) {
            Some(k) => Some(
                if pressed {
                    RawInputMessage::Press(k)
                } else {
                    RawInputMessage::Release(k)
                },
            ),
            None => None,
        },
{
    let key = match code {
        KeyCode::Char(' ') => Some(Key::Play),
        KeyCode::Char('q') => Some(Key::Quit),
        KeyCode::Char('c') => Some(Key::Edit),
        KeyCode::Char('x') => Some(Key::Option),
        KeyCode::Char('z') => Some(Key::Shift),
        KeyCode::ArrowUp => Some(Key::Up),
        KeyCode::ArrowDown => Some(Key::Down),
        KeyCode::ArrowLeft => Some(Key::Left),
        KeyCode::ArrowRight => Some(Key::Right),
        _ => None,
    };
    match key {
        Some(k) => Some(
            if pressed {
                RawInputMessage::Press(k)
            } else {
                RawInputMessage::Release(k)
            },
        ),
        None => None,
    }
}

/// Number of distinct keys.
pub const KEY_COUNT: usize = 9;

/// Position of a key in the held-key table.
pub open spec fn key_index(k: Key) -> int {
    match k {
        Key::Up => 0,
        Key::Down => 1,
        Key::Left => 2,
        Key::Right => 3,
        Key::Option => 4,
        Key::Edit => 5,
        Key::Play => 6,
        Key::Quit => 7,
        Key::Shift => 8,
    }
}

fn key_index_exec(k: Key) -> (i: usize)
    ensures
        i == key_index(k),
        i < KEY_COUNT,
{
    match k {
        Key::Up => 0,
        Key::Down => 1,
        Key::Left => 2,
        Key::Right => 3,
        Key::Option => 4,
        Key::Edit => 5,
        Key::Play => 6,
        Key::Quit => 7,
        Key::Shift => 8,
    }
}

/// The message for pressing `key` while the keys marked in `held` are
/// down: Option+Edit clears; with Edit held the arrows edit; with Shift
/// held they shift; otherwise arrows move and Play plays.
pub open spec fn decode(held: Seq<bool>, key: Key) -> Option<InputMessage> {
    if held[key_index(Key::Option)] && key == Key::Edit {
        Some(InputMessage::Clear)
    } else if held[key_index(Key::Edit)] && key == Key::Up {
        Some(InputMessage::EditUp)
    } else if held[key_index(Key::Edit)] && key == Key::Down {
        Some(InputMessage::EditDown)
    } else if held[key_index(Key::Edit)] && key == Key::Left {
        Some(InputMessage::EditLeft)
    } else if held[key_index(Key::Edit)] && key == Key::Right {
        Some(InputMessage::EditRight)
    } else if held[key_index(Key::Shift)] && key == Key::Up {
        Some(InputMessage::ShiftUp)
    } else if held[key_index(Key::Shift)] && key == Key::Down {
        Some(InputMessage::ShiftDown)
    } else if held[key_index(Key::Shift)] && key == Key::Left {
        Some(InputMessage::ShiftLeft)
    } else if held[key_index(Key::Shift)] && key == Key::Right {
        Some(InputMessage::ShiftRight)
    } else {
        match key {
            Key::Up => Some(InputMessage::Up),
            Key::Down => Some(InputMessage::Down),
            Key::Left => Some(InputMessage::Left),
            Key::Right => Some(InputMessage::Right),
            Key::Play => Some(InputMessage::Play),
            _ => None,
        }
    }
}

/// Which keys are currently held down.
#[derive(Clone, Debug)]
pub struct Keyboard {
    held: Vec<bool>,
}

impl Keyboard {
    /// The table of held keys, indexed by `key_index`.
    pub closed spec fn held(self) -> Seq<bool> {
        self.held@
    }

    pub closed spec fn wf(self) -> bool {
        self.held@.len() == KEY_COUNT
    }

    /// Whether `k` is held.
    pub open spec fn is_held(self, k: Key) -> bool {
        self.held()[key_index(k)]
    }

    /// A keyboard with no key held.
    pub fn new() -> (k: Keyboard)
        ensures
            k.wf(),
            k.held() == Seq::new(KEY_COUNT as nat, |i: int| false),
            forall|key: Key| !k.is_held(key),
    {
        let mut held: Vec<bool> = Vec::new();
        let mut i: usize = 0;
        while i < KEY_COUNT
            invariant
                i <= KEY_COUNT,
                held@.len() == i,
                forall|j: int| 0 <= j < i ==> !held@[j],
            decreases KEY_COUNT - i,
        {
            held.push(false);
            i = i + 1;
        }
        let k = Keyboard { held };
        proof {
            assert(k.held() =~= Seq::new(KEY_COUNT as nat, |i: int| false));
            assert forall|key: Key| !k.is_held(key) by {
                assert(0 <= key_index(key) < KEY_COUNT);
            }
        }
        k
    }

    /// Whether `k` is held.
    pub fn pressed(&self, k: Key) -> (b: bool)
        requires
            self.wf(),
        ensures
            b == self.is_held(k),
    {
        self.held[key_index_exec(k)]
    }

    /// Takes a raw key event. A press yields the message `decode` gives
    /// for the keys held before it, and marks the key held; a release
    /// yields nothing and marks the key up.
    pub fn process(&mut self, msg: RawInputMessage) -> (out: Option<InputMessage>)
        requires
            old(self).wf(),
        ensures
            final(self).wf(),
            match msg {
                RawInputMessage::Press(key) => {
                    &&& out == decode(old(self).held(), key)
                    &&& final(self).held() == old(self).held().update(key_index(key), true)
                },
                RawInputMessage::Release(key) => {
                    &&& out is None
                    &&& final(self).held() == old(self).held().update(key_index(key), false)
                },
            },
    {
        match msg {
            RawInputMessage::Press(key) => {
                let option = self.held[4];
                let edit = self.held[5];
                let shift = self.held[8];
                let out = if option && key == Key::Edit {
                    Some(InputMessage::Clear)
                } else if edit && key == Key::Up {
                    Some(InputMessage::EditUp)
                } else if edit && key == Key::Down {
                    Some(InputMessage::EditDown)
                } else if edit && key == Key::Left {
                    Some(InputMessage::EditLeft)
                } else if edit && key == Key::Right {
                    Some(InputMessage::EditRight)
                } else if shift && key == Key::Up {
                    Some(InputMessage::ShiftUp)
                } else if shift && key == Key::Down {
                    Some(InputMessage::ShiftDown)
                } else if shift && key == Key::Left {
                    Some(InputMessage::ShiftLeft)
                } else if shift && key == Key::Right {
                    Some(InputMessage::ShiftRight)
                } else {
                    match key {
                        Key::Up => Some(InputMessage::Up),
                        Key::Down => Some(InputMessage::Down),
                        Key::Left => Some(InputMessage::Left),
                        Key::Right => Some(InputMessage::Right),
                        Key::Play => Some(InputMessage::Play),
                        _ => None,
                    }
                };
                let i = key_index_exec(key);
                self.held.set(i, true);
                out
            },
            RawInputMessage::Release(key) => {
                let i = key_index_exec(key);
                self.held.set(i, false);
                None
            },
        }
    }
}

} // verus!
