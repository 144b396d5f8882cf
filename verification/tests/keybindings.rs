use my_agent::entry::tui::keybindings::{
    actions, approval_decision, help_entries, resolve, KeyCode, KeyEvent, KeyModifiers, TuiAction,
};

fn key(code: KeyCode, modifiers: KeyModifiers) -> KeyEvent {
    KeyEvent { code, modifiers }
}

#[test]
fn resolves_default_and_pi_style_editor_aliases() {
    assert_eq!(
        resolve(key(KeyCode::Char('t'), KeyModifiers::ctrl())),
        Some(TuiAction::ToggleToolDetails)
    );
    assert_eq!(
        resolve(key(KeyCode::Left, KeyModifiers::alt())),
        Some(TuiAction::CursorWordLeft)
    );
    assert_eq!(
        resolve(key(KeyCode::Char('j'), KeyModifiers::ctrl())),
        Some(TuiAction::InsertNewline)
    );
    let both = KeyModifiers { shift: true, ..KeyModifiers::ctrl() };
    assert_eq!(
        resolve(key(KeyCode::Char('/'), both)),
        Some(TuiAction::ToggleHelp)
    );
}

#[test]
fn help_is_generated_from_action_definitions() {
    let help = help_entries();
    assert!(help.contains(&("Ctrl+C", "取消当前请求")));
    assert!(help.contains(&("Enter", "发送消息 / 确认")));
    assert!(help.contains(&("Tab", "补全斜杠命令")));
    assert_eq!(help.iter().filter(|(keys, _)| *keys == "Ctrl+T").count(), 1);
}

#[test]
fn every_bound_key_leads_to_its_own_action() {
    for action in actions() {
        for shortcut in action.shortcuts() {
            let event = key(shortcut.code, shortcut.modifiers);
            assert!(shortcut.matches(event));
            assert_eq!(resolve(event), Some(action));
        }
    }
}

#[test]
fn letters_that_are_not_bound_are_typed() {
    assert_eq!(resolve(key(KeyCode::Char('t'), KeyModifiers::none())), None);
    assert_eq!(resolve(key(KeyCode::Other, KeyModifiers::none())), None);
}

#[test]
fn a_question_is_answered_by_a_letter() {
    assert_eq!(
        approval_decision(key(KeyCode::Char('y'), KeyModifiers::none())),
        Some(true)
    );
    assert_eq!(
        approval_decision(key(KeyCode::Char('n'), KeyModifiers::none())),
        Some(false)
    );
    assert_eq!(
        approval_decision(key(KeyCode::Enter, KeyModifiers::none())),
        Some(false)
    );
    assert_eq!(approval_decision(key(KeyCode::Char('x'), KeyModifiers::none())), None);
}
