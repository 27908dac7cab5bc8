use stopwatch::event::{interpret, Input, Key, Modifiers, TimerEvent};

fn key(key: Key, modifiers: Modifiers) -> Input {
    Input::Key { key, modifiers }
}

#[test]
fn enter_is_a_lap() {
    assert_eq!(
        interpret(&key(Key::Enter, Modifiers::none())),
        Some(TimerEvent::Lap)
    );
}

#[test]
fn control_c_is_a_stop() {
    assert_eq!(
        interpret(&key(Key::Char('c'), Modifiers::control())),
        Some(TimerEvent::Stop)
    );
}

#[test]
fn a_plain_c_is_nothing() {
    assert_eq!(interpret(&key(Key::Char('c'), Modifiers::none())), None);
}

#[test]
fn control_with_another_character_is_nothing() {
    assert_eq!(interpret(&key(Key::Char('C'), Modifiers::control())), None);
    assert_eq!(interpret(&key(Key::Char('d'), Modifiers::control())), None);
}

#[test]
fn control_c_with_a_second_modifier_is_nothing() {
    let mut modifiers = Modifiers::control();
    modifiers.shift = true;
    assert_eq!(interpret(&key(Key::Char('c'), modifiers)), None);
    let mut modifiers = Modifiers::control();
    modifiers.alt = true;
    assert_eq!(interpret(&key(Key::Char('c'), modifiers)), None);
}

#[test]
fn enter_with_a_modifier_is_nothing() {
    assert_eq!(interpret(&key(Key::Enter, Modifiers::control())), None);
    let mut modifiers = Modifiers::none();
    modifiers.shift = true;
    assert_eq!(interpret(&key(Key::Enter, modifiers)), None);
}

#[test]
fn other_keys_and_other_inputs_are_nothing() {
    assert_eq!(interpret(&key(Key::Other, Modifiers::none())), None);
    assert_eq!(interpret(&key(Key::Other, Modifiers::control())), None);
    assert_eq!(interpret(&key(Key::Char(' '), Modifiers::none())), None);
    assert_eq!(interpret(&Input::Other), None);
}

#[test]
fn the_modifier_sets() {
    let none = Modifiers::none();
    assert!(!none.shift && !none.control && !none.alt && !none.logo && !none.hyper && !none.meta);
    let control = Modifiers::control();
    assert!(control.control);
    assert!(!control.shift && !control.alt && !control.logo && !control.hyper && !control.meta);
}
