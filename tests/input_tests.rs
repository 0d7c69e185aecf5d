use chainmail::input::{
    handle_keyboard_input_system, handle_prompt_input_system, pass_info_screen_system, Flags, Key,
    KeyAction,
};
use chainmail::round::{GameStates, Prompt};

#[test]
fn flags_start_with_sound_on() {
    assert_eq!(Flags::default(), Flags { debug: false, sound: true });
}

#[test]
fn keys_switch_flags_and_ask_actions() {
    let mut f = Flags::default();
    assert_eq!(handle_keyboard_input_system(Key::Char('='), GameStates::Playing, &mut f), KeyAction::Nothing);
    assert_eq!(f, Flags { debug: true, sound: true });
    assert_eq!(handle_keyboard_input_system(Key::Tab, GameStates::Info, &mut f), KeyAction::Nothing);
    assert_eq!(f, Flags { debug: true, sound: false });
    assert_eq!(handle_keyboard_input_system(Key::Up, GameStates::Info, &mut f), KeyAction::ScrollUp);
    assert_eq!(handle_keyboard_input_system(Key::Down, GameStates::Info, &mut f), KeyAction::ScrollDown);
    assert_eq!(handle_keyboard_input_system(Key::Enter, GameStates::Playing, &mut f), KeyAction::Submit);
    assert_eq!(handle_keyboard_input_system(Key::Enter, GameStates::Printing, &mut f), KeyAction::Nothing);
    assert_eq!(f, Flags { debug: true, sound: false });
}

#[test]
fn prompt_keys() {
    let mut p = Prompt::default();
    assert!(handle_prompt_input_system(Key::Char('A'), &mut p));
    assert!(!handle_prompt_input_system(Key::Char('7'), &mut p));
    assert!(handle_prompt_input_system(Key::Char('b'), &mut p));
    assert_eq!(p.text, "ab");
    assert!(handle_prompt_input_system(Key::Backspace, &mut p));
    assert_eq!(p.text, "a");
    assert!(!handle_prompt_input_system(Key::Enter, &mut p));
    assert_eq!(p.text, "a");
}

#[test]
fn space_leaves_the_rules_screen() {
    let mut s = GameStates::Info;
    pass_info_screen_system(Key::Char('x'), &mut s);
    assert_eq!(s, GameStates::Info);
    pass_info_screen_system(Key::Char(' '), &mut s);
    assert_eq!(s, GameStates::Printing);
}
