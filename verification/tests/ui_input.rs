use gstudy::ui_input::{
    match_egui_key, InputEvent, Modifiers, ModifiersState, MouseButton, PointerButton, UiEvent,
    UiInput, UiKey, UiWindowInput, WindowInput, WindowKey,
};

#[test]
fn window_keys_map_to_interface_keys() {
    assert_eq!(match_egui_key(WindowKey::Digit(7)), Some(UiKey::Num(7)));
    assert_eq!(match_egui_key(WindowKey::Numpad(7)), Some(UiKey::Num(7)));
    assert_eq!(match_egui_key(WindowKey::Letter(25)), Some(UiKey::Letter(25)));
    assert_eq!(match_egui_key(WindowKey::Back), Some(UiKey::Backspace));
    assert_eq!(match_egui_key(WindowKey::Return), Some(UiKey::Enter));
    assert_eq!(match_egui_key(WindowKey::Left), Some(UiKey::ArrowLeft));
    assert_eq!(match_egui_key(WindowKey::Other), None);
    assert_eq!(match_egui_key(WindowKey::Letter(26)), None);
}

fn ctrl() -> InputEvent {
    InputEvent::ModifiersChanged(ModifiersState { alt: false, ctrl: true, shift: false, logo: false })
}

#[test]
fn control_is_the_command_key() {
    let mut ui = UiInput::new();
    assert!(ui.on_input(ctrl()).is_empty());
    assert_eq!(
        ui.modifiers,
        Modifiers { alt: false, ctrl: true, shift: false, mac_cmd: false, command: true }
    );
    let mut ui = UiInput::new();
    ui.on_input(InputEvent::ModifiersChanged(ModifiersState { alt: true, ctrl: false, shift: true, logo: true }));
    assert_eq!(
        ui.modifiers,
        Modifiers { alt: true, ctrl: false, shift: true, mac_cmd: false, command: false }
    );
}

#[test]
fn copy_cut_paste_with_command() {
    let mut ui = UiInput::new();
    ui.on_input(ctrl());
    let m = ui.modifiers;
    assert_eq!(
        ui.on_input(InputEvent::KeyboardInput { key: WindowKey::Letter(2), pressed: true }),
        vec![UiEvent::Copy, UiEvent::Key { key: UiKey::Letter(2), pressed: true, modifiers: m }]
    );
    assert_eq!(
        ui.on_input(InputEvent::KeyboardInput { key: WindowKey::Letter(23), pressed: true })[0],
        UiEvent::Cut
    );
    assert_eq!(
        ui.on_input(InputEvent::KeyboardInput { key: WindowKey::Letter(21), pressed: true })[0],
        UiEvent::Paste
    );
    assert_eq!(
        ui.on_input(InputEvent::KeyboardInput { key: WindowKey::Letter(2), pressed: false }),
        vec![UiEvent::Key { key: UiKey::Letter(2), pressed: false, modifiers: m }]
    );
}

#[test]
fn plain_keys_and_unknown_keys() {
    let mut ui = UiInput::new();
    let m = ui.modifiers;
    assert_eq!(
        ui.on_input(InputEvent::KeyboardInput { key: WindowKey::Letter(2), pressed: true }),
        vec![UiEvent::Key { key: UiKey::Letter(2), pressed: true, modifiers: m }]
    );
    assert!(ui.on_input(InputEvent::KeyboardInput { key: WindowKey::Other, pressed: true }).is_empty());
}

#[test]
fn characters_and_pointer() {
    let mut ui = UiInput::new();
    assert_eq!(ui.on_input(InputEvent::ReceivedCharacter('a')), vec![UiEvent::Text('a')]);
    assert!(ui.on_input(InputEvent::ReceivedCharacter('\u{8}')).is_empty());
    assert!(ui.on_input(InputEvent::ReceivedCharacter('\u{7f}')).is_empty());
    assert_eq!(ui.on_input(InputEvent::ReceivedCharacter('\u{e9}')), vec![UiEvent::Text('\u{e9}')]);
    assert_eq!(ui.on_input(InputEvent::CursorLeft), vec![UiEvent::PointerGone]);
    let m = ui.modifiers;
    assert_eq!(
        ui.on_input(InputEvent::MouseInput { button: MouseButton::Right, pressed: true }),
        vec![UiEvent::PointerButton { button: PointerButton::Secondary, pressed: true, modifiers: m }]
    );
    assert!(ui.on_input(InputEvent::MouseInput { button: MouseButton::Other(4), pressed: true }).is_empty());
}

#[test]
fn renderer_ignores_input_until_set_up() {
    let mut ui = UiWindowInput::new();
    assert!(ui.on_event(WindowInput::CursorLeft).is_empty());
    assert!(ui.on_event(WindowInput::Resized(10, 20)).is_empty());
    assert!(ui.surface.is_none());
    assert_eq!(ui.screen_size, None);
    ui.init_renderer();
    assert_eq!(ui.take_size_change(), Some((0, 0)));
    assert_eq!(ui.take_size_change(), None);
    assert!(ui.on_event(WindowInput::Resized(10, 20)).is_empty());
    assert_eq!(ui.screen_size, Some((10, 20)));
    assert!(ui.on_event(WindowInput::ScaleFactorChanged(30, 40)).is_empty());
    assert_eq!(ui.take_size_change(), Some((30, 40)));
    assert_eq!(ui.on_event(WindowInput::CursorLeft), vec![UiEvent::PointerGone]);
}

#[test]
fn renderer_copies_and_cuts_on_press_and_release() {
    let mut ui = UiWindowInput::new();
    ui.init_renderer();
    ui.on_event(WindowInput::ModifiersChanged(ModifiersState { alt: false, ctrl: true, shift: false, logo: true }));
    let m = ui.surface.unwrap().modifiers;
    assert_eq!(m, Modifiers { alt: false, ctrl: true, shift: false, mac_cmd: false, command: true });
    assert_eq!(
        ui.on_event(WindowInput::KeyboardInput { key: WindowKey::Letter(2), pressed: false }),
        vec![UiEvent::Copy, UiEvent::Key { key: UiKey::Letter(2), pressed: false, modifiers: m }]
    );
    assert_eq!(
        ui.on_event(WindowInput::KeyboardInput { key: WindowKey::Letter(23), pressed: true })[0],
        UiEvent::Cut
    );
    assert_eq!(
        ui.on_event(WindowInput::KeyboardInput { key: WindowKey::Letter(21), pressed: true }),
        vec![UiEvent::Key { key: UiKey::Letter(21), pressed: true, modifiers: m }]
    );
    assert_eq!(ui.on_event(WindowInput::ReceivedCharacter('x')), vec![UiEvent::Text('x')]);
}
