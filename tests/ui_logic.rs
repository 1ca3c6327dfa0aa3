use tracker_synth::focus::view_process_focus_message;
use tracker_synth::tone::{edit_tone, Tone};
use tracker_synth::focus::{Direction, FocusCalculator, Rect};
use tracker_synth::hex::{to_hex_str_1, to_hex_str_2};
use tracker_synth::keyboard::{raw_message, InputMessage, Key, KeyCode, Keyboard, RawInputMessage};

#[test]
fn plain_keys_move() {
    let mut k = Keyboard::new();
    assert_eq!(k.process(RawInputMessage::Press(Key::Up)), Some(InputMessage::Up));
    assert_eq!(k.process(RawInputMessage::Release(Key::Up)), None);
    assert_eq!(k.process(RawInputMessage::Press(Key::Play)), Some(InputMessage::Play));
    assert_eq!(k.process(RawInputMessage::Press(Key::Quit)), None);
}

#[test]
fn modifiers_change_arrows() {
    let mut k = Keyboard::new();
    assert_eq!(k.process(RawInputMessage::Press(Key::Edit)), None);
    assert!(k.pressed(Key::Edit));
    assert_eq!(k.process(RawInputMessage::Press(Key::Left)), Some(InputMessage::EditLeft));
    k.process(RawInputMessage::Release(Key::Edit));
    assert!(!k.pressed(Key::Edit));
    k.process(RawInputMessage::Press(Key::Shift));
    assert_eq!(k.process(RawInputMessage::Press(Key::Down)), Some(InputMessage::ShiftDown));
    k.process(RawInputMessage::Press(Key::Edit));
    // edit takes precedence over shift
    assert_eq!(k.process(RawInputMessage::Press(Key::Right)), Some(InputMessage::EditRight));
}

#[test]
fn option_and_edit_clear() {
    let mut k = Keyboard::new();
    k.process(RawInputMessage::Press(Key::Option));
    assert_eq!(k.process(RawInputMessage::Press(Key::Edit)), Some(InputMessage::Clear));
}

#[test]
fn hex_text() {
    assert_eq!(to_hex_str_2(10), "0A");
    assert_eq!(to_hex_str_2(255), "FF");
    assert_eq!(to_hex_str_2(0), "00");
    assert_eq!(to_hex_str_1(10), "A");
    assert_eq!(to_hex_str_1(0), "0");
    assert_eq!(to_hex_str_1(0x3c), "3C");
}

fn layout() -> FocusCalculator {
    let mut f = FocusCalculator::new(0);
    let r = |x: u16, y: u16| Rect { x, y, width: 4, height: 2 };
    assert_eq!(f.add(r(10, 10)), (true, r(10, 10)));
    assert_eq!(f.add(r(20, 10)), (false, r(20, 10)));
    f.add(r(30, 10));
    f.add(r(10, 20));
    f.add(r(20, 11));
    f
}

#[test]
fn focus_moves_to_nearest_in_direction() {
    let f = layout();
    assert_eq!(f.update(Direction::Right), Ok(1));
    assert_eq!(f.update(Direction::Down), Ok(3));
    assert_eq!(f.update(Direction::Left), Err(()));
    assert_eq!(f.update(Direction::Up), Err(()));
    assert_eq!(f.update(Direction::Still), Err(()));
    assert_eq!(FocusCalculator::new(3).update(Direction::Up), Err(()));
}

#[test]
fn focus_messages_move_or_overflow() {
    let f = layout();
    let mut focused = 0usize;
    assert_eq!(view_process_focus_message(&mut focused, &f, InputMessage::Right), None);
    assert_eq!(focused, 1);
    let mut focused = 0usize;
    assert_eq!(view_process_focus_message(&mut focused, &f, InputMessage::Left), Some(InputMessage::ShiftLeft));
    assert_eq!(focused, 0);
    assert_eq!(view_process_focus_message(&mut focused, &f, InputMessage::Play), None);
    assert_eq!(focused, 0);
}

#[test]
fn editing_messages_change_tones() {
    let mut t = Some(Tone { octave: 4, semitone: 2 });
    assert!(edit_tone(&mut t, InputMessage::EditRight));
    assert_eq!(t, Some(Tone { octave: 5, semitone: -9 }));
    assert!(edit_tone(&mut t, InputMessage::EditDown));
    assert_eq!(t, Some(Tone { octave: 4, semitone: -9 }));
    assert!(edit_tone(&mut t, InputMessage::EditLeft));
    assert_eq!(t, Some(Tone { octave: 3, semitone: 2 }));
    assert!(!edit_tone(&mut t, InputMessage::Up));
    assert_eq!(t, Some(Tone { octave: 3, semitone: 2 }));
    assert!(edit_tone(&mut t, InputMessage::Clear));
    assert_eq!(t, None);
    assert!(edit_tone(&mut t, InputMessage::EditUp));
    assert_eq!(t, Some(Tone { octave: 4, semitone: 0 }));
}

#[test]
fn key_codes_map_to_keys() {
    assert_eq!(raw_message(KeyCode::Char(' '), true), Some(RawInputMessage::Press(Key::Play)));
    assert_eq!(raw_message(KeyCode::Char('c'), false), Some(RawInputMessage::Release(Key::Edit)));
    assert_eq!(raw_message(KeyCode::ArrowLeft, true), Some(RawInputMessage::Press(Key::Left)));
    assert_eq!(raw_message(KeyCode::Char('z'), true), Some(RawInputMessage::Press(Key::Shift)));
    assert_eq!(raw_message(KeyCode::Char('x'), true), Some(RawInputMessage::Press(Key::Option)));
    assert_eq!(raw_message(KeyCode::Char('q'), true), Some(RawInputMessage::Press(Key::Quit)));
    assert_eq!(raw_message(KeyCode::Char('w'), true), None);
    assert_eq!(raw_message(KeyCode::Other, true), None);
}
