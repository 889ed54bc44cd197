//! Translation of window input into the input events of the user interface:
//! keys, modifiers, typed characters and mouse buttons. Pointer positions and
//! scrolling are fractional and carried by the caller, which also reads the
//! clipboard where a paste is asked for.

use vstd::prelude::*;

verus! {

/// A key as the window reports it: the keys the interface knows, by digit
/// or letter (`0` for A) where they are digits or letters, and the rest.
#[derive(Debug, Clone, Copy, PartialEq, Eq, Structural)]
pub enum WindowKey {
    Digit(u8),
    Numpad(u8),
    Letter(u8),
    Escape,
    Insert,
    Home,
    Delete,
    Back,
    Return,
    Space,
    End,
    PageDown,
    PageUp,
    Left,
    Up,
    Right,
    Down,
    Tab,
    Other,
}

/// A key of the user interface.
#[derive(Debug, Clone, Copy, PartialEq, Eq, Structural)]
pub enum UiKey {
    Num(u8),
    Letter(u8),
    Escape,
    Insert,
    Home,
    Delete,
    Backspace,
    Enter,
    Space,
    End,
    PageDown,
    PageUp,
    ArrowLeft,
    ArrowUp,
    ArrowRight,
    ArrowDown,
    Tab,
}

/// The letters C, X and V, by their place in the alphabet.
pub const LETTER_C: u8 = 2;

pub const LETTER_X: u8 = 23;

pub const LETTER_V: u8 = 21;

pub open spec fn spec_ui_key(k: WindowKey) -> Option<UiKey> {
    match k {
        WindowKey::Digit(d) => if d < 10 {
            Some(UiKey::Num(d))
        } else {
            None
        },
        WindowKey::Numpad(d) => if d < 10 {
            Some(UiKey::Num(d))
        } else {
            None
        },
        WindowKey::Letter(l) => if l < 26 {
            Some(UiKey::Letter(l))
        } else {
            None
        },
        WindowKey::Escape => Some(UiKey::Escape),
        WindowKey::Insert => Some(UiKey::Insert),
        WindowKey::Home => Some(UiKey::Home),
        WindowKey::Delete => Some(UiKey::Delete),
        WindowKey::Back => Some(UiKey::Backspace),
        WindowKey::Return => Some(UiKey::Enter),
        WindowKey::Space => Some(UiKey::Space),
        WindowKey::End => Some(UiKey::End),
        WindowKey::PageDown => Some(UiKey::PageDown),
        WindowKey::PageUp => Some(UiKey::PageUp),
        WindowKey::Left => Some(UiKey::ArrowLeft),
        WindowKey::Up => Some(UiKey::ArrowUp),
        WindowKey::Right => Some(UiKey::ArrowRight),
        WindowKey::Down => Some(UiKey::ArrowDown),
        WindowKey::Tab => Some(UiKey::Tab),
        WindowKey::Other => None,
    }
}

/// The interface key of a window key: digits of the main row and of the
/// number pad alike, letters as letters, the editing and arrow keys by name;
/// other keys have none.
pub fn match_egui_key(k: WindowKey) -> (r: Option<UiKey>)
    ensures
        r == spec_ui_key(k),
{
    match k {
        WindowKey::Digit(d) | WindowKey::Numpad(d) => if d < 10 {
            Some(UiKey::Num(d))
        } else {
            None
        },
        WindowKey::Letter(l) => if l < 26 {
            Some(UiKey::Letter(l))
        } else {
            None
        },
        WindowKey::Escape => Some(UiKey::Escape),
        WindowKey::Insert => Some(UiKey::Insert),
        WindowKey::Home => Some(UiKey::Home),
        WindowKey::Delete => Some(UiKey::Delete),
        WindowKey::Back => Some(UiKey::Backspace),
        WindowKey::Return => Some(UiKey::Enter),
        WindowKey::Space => Some(UiKey::Space),
        WindowKey::End => Some(UiKey::End),
        WindowKey::PageDown => Some(UiKey::PageDown),
        WindowKey::PageUp => Some(UiKey::PageUp),
        WindowKey::Left => Some(UiKey::ArrowLeft),
        WindowKey::Up => Some(UiKey::ArrowUp),
        WindowKey::Right => Some(UiKey::ArrowRight),
        WindowKey::Down => Some(UiKey::ArrowDown),
        WindowKey::Tab => Some(UiKey::Tab),
        WindowKey::Other => None,
    }
}

/// The name a window key is known by, for the keys with a name of their
/// own (empty for digits, letters and other keys).
pub open spec fn window_key_name(k: WindowKey) -> Seq<char> {
    match k {
        WindowKey::Escape => seq!['E', 's', 'c', 'a', 'p', 'e'],
        WindowKey::Insert => seq!['I', 'n', 's', 'e', 'r', 't'],
        WindowKey::Home => seq!['H', 'o', 'm', 'e'],
        WindowKey::Delete => seq!['D', 'e', 'l', 'e', 't', 'e'],
        WindowKey::Back => seq!['B', 'a', 'c', 'k'],
        WindowKey::Return => seq!['R', 'e', 't', 'u', 'r', 'n'],
        WindowKey::Space => seq!['S', 'p', 'a', 'c', 'e'],
        WindowKey::End => seq!['E', 'n', 'd'],
        WindowKey::PageDown => seq!['P', 'a', 'g', 'e', 'D', 'o', 'w', 'n'],
        WindowKey::PageUp => seq!['P', 'a', 'g', 'e', 'U', 'p'],
        WindowKey::Left => seq!['L', 'e', 'f', 't'],
        WindowKey::Up => seq!['U', 'p'],
        WindowKey::Right => seq!['R', 'i', 'g', 'h', 't'],
        WindowKey::Down => seq!['D', 'o', 'w', 'n'],
        WindowKey::Tab => seq!['T', 'a', 'b'],
        _ => Seq::empty(),
    }
}

/// The name an interface key is known by, for the keys with a name of their
/// own (empty for digits and letters).
pub open spec fn ui_key_name(k: UiKey) -> Seq<char> {
    match k {
        UiKey::Escape => seq!['E', 's', 'c', 'a', 'p', 'e'],
        UiKey::Insert => seq!['I', 'n', 's', 'e', 'r', 't'],
        UiKey::Home => seq!['H', 'o', 'm', 'e'],
        UiKey::Delete => seq!['D', 'e', 'l', 'e', 't', 'e'],
        UiKey::Backspace => seq!['B', 'a', 'c', 'k', 's', 'p', 'a', 'c', 'e'],
        UiKey::Enter => seq!['E', 'n', 't', 'e', 'r'],
        UiKey::Space => seq!['S', 'p', 'a', 'c', 'e'],
        UiKey::End => seq!['E', 'n', 'd'],
        UiKey::PageDown => seq!['P', 'a', 'g', 'e', 'D', 'o', 'w', 'n'],
        UiKey::PageUp => seq!['P', 'a', 'g', 'e', 'U', 'p'],
        UiKey::ArrowLeft => seq!['A', 'r', 'r', 'o', 'w', 'L', 'e', 'f', 't'],
        UiKey::ArrowUp => seq!['A', 'r', 'r', 'o', 'w', 'U', 'p'],
        UiKey::ArrowRight => seq!['A', 'r', 'r', 'o', 'w', 'R', 'i', 'g', 'h', 't'],
        UiKey::ArrowDown => seq!['A', 'r', 'r', 'o', 'w', 'D', 'o', 'w', 'n'],
        UiKey::Tab => seq!['T', 'a', 'b'],
        _ => Seq::empty(),
    }
}

/// The interface's name for a window key's name: the back key is the
/// backspace, the return key is enter, and the arrow keys carry the word
/// "Arrow" before their direction; other names are the same.
pub open spec fn interface_name(n: Seq<char>) -> Seq<char> {
    if n == seq!['B', 'a', 'c', 'k'] {
        seq!['B', 'a', 'c', 'k', 's', 'p', 'a', 'c', 'e']
    } else if n == seq!['R', 'e', 't', 'u', 'r', 'n'] {
        seq!['E', 'n', 't', 'e', 'r']
    } else if n == seq!['L', 'e', 'f', 't'] || n == seq!['U', 'p'] || n == seq!['R', 'i', 'g', 'h', 't'] || n == seq!['D', 'o', 'w', 'n'] {
        seq!['A', 'r', 'r', 'o', 'w'] + n
    } else {
        n
    }
}

/// Each window key becomes the interface key of the same meaning: a named
/// key the interface key of the corresponding name, a digit of the main
/// row or of the number pad the same digit, a letter the same letter; other
/// keys, and digits or letters out of range, become none.
pub proof fn lemma_ui_key_names(k: WindowKey)
    ensures
        window_key_name(k).len() > 0 ==> (spec_ui_key(k) matches Some(u) && ui_key_name(u) == interface_name(
            window_key_name(k),
        )),
        k matches WindowKey::Digit(d) ==> spec_ui_key(k) == if d < 10 {
            Some(UiKey::Num(d))
        } else {
            None::<UiKey>
        },
        k matches WindowKey::Numpad(d) ==> spec_ui_key(k) == if d < 10 {
            Some(UiKey::Num(d))
        } else {
            None::<UiKey>
        },
        k matches WindowKey::Letter(l) ==> spec_ui_key(k) == if l < 26 {
            Some(UiKey::Letter(l))
        } else {
            None::<UiKey>
        },
        k == WindowKey::Other ==> spec_ui_key(k) is None,
{
    match k {
        WindowKey::Escape => {
            assert(interface_name(window_key_name(k)) =~= seq!['E', 's', 'c', 'a', 'p', 'e']);
        },
        WindowKey::Insert => {
            assert(interface_name(window_key_name(k)) =~= seq!['I', 'n', 's', 'e', 'r', 't']);
        },
        WindowKey::Home => {
            assert(interface_name(window_key_name(k)) =~= seq!['H', 'o', 'm', 'e']);
        },
        WindowKey::Delete => {
            assert(interface_name(window_key_name(k)) =~= seq!['D', 'e', 'l', 'e', 't', 'e']);
        },
        WindowKey::Back => {
            assert(interface_name(window_key_name(k)) =~= seq!['B', 'a', 'c', 'k', 's', 'p', 'a', 'c', 'e']);
        },
        WindowKey::Return => {
            assert(interface_name(window_key_name(k)) =~= seq!['E', 'n', 't', 'e', 'r']);
        },
        WindowKey::Space => {
            assert(interface_name(window_key_name(k)) =~= seq!['S', 'p', 'a', 'c', 'e']);
        },
        WindowKey::End => {
            assert(interface_name(window_key_name(k)) =~= seq!['E', 'n', 'd']);
        },
        WindowKey::PageDown => {
            assert(interface_name(window_key_name(k)) =~= seq!['P', 'a', 'g', 'e', 'D', 'o', 'w', 'n']);
        },
        WindowKey::PageUp => {
            assert(interface_name(window_key_name(k)) =~= seq!['P', 'a', 'g', 'e', 'U', 'p']);
        },
        WindowKey::Left => {
            assert(interface_name(window_key_name(k)) =~= seq!['A', 'r', 'r', 'o', 'w', 'L', 'e', 'f', 't']);
        },
        WindowKey::Up => {
            assert(interface_name(window_key_name(k)) =~= seq!['A', 'r', 'r', 'o', 'w', 'U', 'p']);
        },
        WindowKey::Right => {
            assert(interface_name(window_key_name(k)) =~= seq!['A', 'r', 'r', 'o', 'w', 'R', 'i', 'g', 'h', 't']);
        },
        WindowKey::Down => {
            assert(interface_name(window_key_name(k)) =~= seq!['A', 'r', 'r', 'o', 'w', 'D', 'o', 'w', 'n']);
        },
        WindowKey::Tab => {
            assert(interface_name(window_key_name(k)) =~= seq!['T', 'a', 'b']);
        },
        _ => {},
    }
}

/// The modifier keys held, as the window reports them.
#[derive(Debug, Clone, Copy, PartialEq, Eq, Structural)]
pub struct ModifiersState {
    pub alt: bool,
    pub ctrl: bool,
    pub shift: bool,
    pub logo: bool,
}

/// The modifier keys held, as the interface reads them: `command` is the
/// key that copy and cut go with.
#[derive(Debug, Clone, Copy, PartialEq, Eq, Structural)]
pub struct Modifiers {
    pub alt: bool,
    pub ctrl: bool,
    pub shift: bool,
    pub mac_cmd: bool,
    pub command: bool,
}

/// The interface's modifiers for the window's: the control key is the
/// command key, and no Mac command key is held.
pub open spec fn spec_modifiers(m: ModifiersState) -> Modifiers {
    Modifiers { alt: m.alt, ctrl: m.ctrl, shift: m.shift, mac_cmd: false, command: m.ctrl }
}

/// A mouse button as the window reports it.
#[derive(Debug, Clone, Copy, PartialEq, Eq, Structural)]
pub enum MouseButton {
    Left,
    Right,
    Middle,
    Other(u16),
}

/// A pointer button of the interface.
#[derive(Debug, Clone, Copy, PartialEq, Eq, Structural)]
pub enum PointerButton {
    Primary,
    Secondary,
    Middle,
}

/// The window input that the interface translates.
#[derive(Debug, Clone, Copy, PartialEq, Eq, Structural)]
pub enum InputEvent {
    KeyboardInput { key: WindowKey, pressed: bool },
    ModifiersChanged(ModifiersState),
    ReceivedCharacter(char),
    CursorLeft,
    MouseInput { button: MouseButton, pressed: bool },
}

/// An input event of the interface. `Paste` asks for the clipboard's text;
/// a pointer button is pressed or released where the pointer last was.
#[derive(Debug, Clone, Copy, PartialEq, Eq, Structural)]
pub enum UiEvent {
    Copy,
    Cut,
    Paste,
    Key { key: UiKey, pressed: bool, modifiers: Modifiers },
    Text(char),
    PointerGone,
    PointerButton { button: PointerButton, pressed: bool, modifiers: Modifiers },
}

/// Whether `c` is an ASCII control character.
pub open spec fn is_ascii_control(c: char) -> bool {
    (c as u32) < 32 || (c as u32) == 127
}

/// The events a pressed or released key gives: copy, cut or paste where C,
/// X or V is pressed with the command key, then the key itself.
pub open spec fn key_events(key: UiKey, pressed: bool, m: Modifiers) -> Seq<UiEvent> {
    let shortcut = if pressed && m.command {
        if key == UiKey::Letter(LETTER_C) {
            seq![UiEvent::Copy]
        } else if key == UiKey::Letter(LETTER_X) {
            seq![UiEvent::Cut]
        } else if key == UiKey::Letter(LETTER_V) {
            seq![UiEvent::Paste]
        } else {
            Seq::empty()
        }
    } else {
        Seq::empty()
    };
    shortcut.push(UiEvent::Key { key, pressed, modifiers: m })
}

pub open spec fn spec_pointer_button(b: MouseButton) -> Option<PointerButton> {
    match b {
        MouseButton::Left => Some(PointerButton::Primary),
        MouseButton::Right => Some(PointerButton::Secondary),
        MouseButton::Middle => Some(PointerButton::Middle),
        MouseButton::Other(_) => None,
    }
}

/// The interface events of window input `e` with modifiers `m` held.
pub open spec fn spec_ui_events(m: Modifiers, e: InputEvent) -> Seq<UiEvent> {
    match e {
        InputEvent::KeyboardInput { key, pressed } => match spec_ui_key(key) {
            Some(k) => key_events(k, pressed, m),
            None => Seq::empty(),
        },
        InputEvent::ModifiersChanged(_) => Seq::empty(),
        InputEvent::ReceivedCharacter(c) => if is_ascii_control(c) {
            Seq::empty()
        } else {
            seq![UiEvent::Text(c)]
        },
        InputEvent::CursorLeft => seq![UiEvent::PointerGone],
        InputEvent::MouseInput { button, pressed } => match spec_pointer_button(button) {
            Some(b) => seq![UiEvent::PointerButton { button: b, pressed, modifiers: m }],
            None => Seq::empty(),
        },
    }
}

/// The input state of the interface: the modifiers last reported.
#[derive(Debug, Clone, Copy, PartialEq, Eq, Structural)]
pub struct UiInput {
    pub modifiers: Modifiers,
}

impl UiInput {
    /// No modifier held.
    pub fn new() -> (r: Self)
        ensures
            r.modifiers == (Modifiers {
                alt: false,
                ctrl: false,
                shift: false,
                mac_cmd: false,
                command: false,
            }),
    {
        UiInput {
            modifiers: Modifiers { alt: false, ctrl: false, shift: false, mac_cmd: false, command: false },
        }
    }

    /// Translates window input `e`: the events it gives the interface, and
    /// the modifiers it reports.
    pub fn on_input(&mut self, e: InputEvent) -> (r: Vec<UiEvent>)
        ensures
            r@ == spec_ui_events(old(self).modifiers, e),
            final(self).modifiers == match e {
                InputEvent::ModifiersChanged(st) => spec_modifiers(st),
                _ => old(self).modifiers,
            },
    {
        let mut events: Vec<UiEvent> = Vec::new();
        match e {
            InputEvent::KeyboardInput { key, pressed } => {
                if let Some(k) = match_egui_key(key) {
                    let m = self.modifiers;
                    if pressed && m.command {
                        if k == UiKey::Letter(LETTER_C) {
                            events.push(UiEvent::Copy);
                        } else if k == UiKey::Letter(LETTER_X) {
                            events.push(UiEvent::Cut);
                        } else if k == UiKey::Letter(LETTER_V) {
                            events.push(UiEvent::Paste);
                        }
                    }
                    events.push(UiEvent::Key { key: k, pressed, modifiers: m });
                    proof {
                        assert(events@ =~= key_events(k, pressed, m));
                    }
                }
            },
            InputEvent::ModifiersChanged(st) => {
                self.modifiers = Modifiers {
                    alt: st.alt,
                    ctrl: st.ctrl,
                    shift: st.shift,
                    mac_cmd: false,
                    command: st.ctrl,
                };
            },
            InputEvent::ReceivedCharacter(c) => {
                if !(c < ' ' || c == '\x7f') {
                    events.push(UiEvent::Text(c));
                }
            },
            InputEvent::CursorLeft => {
                events.push(UiEvent::PointerGone);
            },
            InputEvent::MouseInput { button, pressed } => {
                let b = match button {
                    MouseButton::Left => Some(PointerButton::Primary),
                    MouseButton::Right => Some(PointerButton::Secondary),
                    MouseButton::Middle => Some(PointerButton::Middle),
                    MouseButton::Other(_) => None,
                };
                if let Some(b) = b {
                    events.push(UiEvent::PointerButton { button: b, pressed, modifiers: self.modifiers });
                }
            },
        }
        proof {
            match e {
                InputEvent::KeyboardInput { .. } => {},
                _ => {
                    assert(events@ =~= spec_ui_events(old(self).modifiers, e));
                },
            }
        }
        events
    }
}

/// Window input as the interface renderer reads it: sizes are the window's
/// inner size in pixels.
#[derive(Debug, Clone, Copy, PartialEq, Eq, Structural)]
pub enum WindowInput {
    Resized(u32, u32),
    ScaleFactorChanged(u32, u32),
    ModifiersChanged(ModifiersState),
    KeyboardInput { key: WindowKey, pressed: bool },
    CursorLeft,
    MouseInput { button: MouseButton, pressed: bool },
    ReceivedCharacter(char),
    Other,
}

/// The renderer's view of its surface once it is set up: the inner size,
/// whether the size changed since it was last taken, and the modifiers
/// last reported.
#[derive(Debug, Clone, Copy)]
pub struct SurfaceInput {
    pub inner_size: (u32, u32),
    pub size_changed: bool,
    pub modifiers: Modifiers,
}

/// The events a key gives the renderer: copy or cut where C or X goes with
/// the command key, pressed or released, then the key itself.
pub open spec fn window_key_events(key: UiKey, pressed: bool, m: Modifiers) -> Seq<UiEvent> {
    let shortcut = if m.command && key == UiKey::Letter(LETTER_C) {
        seq![UiEvent::Copy]
    } else if m.command && key == UiKey::Letter(LETTER_X) {
        seq![UiEvent::Cut]
    } else {
        Seq::empty()
    };
    shortcut.push(UiEvent::Key { key, pressed, modifiers: m })
}

/// The events of window input `e` for a renderer whose surface is `s`.
pub open spec fn spec_window_events(s: SurfaceInput, e: WindowInput) -> Seq<UiEvent> {
    match e {
        WindowInput::KeyboardInput { key, pressed } => match spec_ui_key(key) {
            Some(k) => window_key_events(k, pressed, s.modifiers),
            None => Seq::empty(),
        },
        WindowInput::ReceivedCharacter(c) => if is_ascii_control(c) {
            Seq::empty()
        } else {
            seq![UiEvent::Text(c)]
        },
        WindowInput::CursorLeft => seq![UiEvent::PointerGone],
        WindowInput::MouseInput { button, pressed } => match spec_pointer_button(button) {
            Some(b) => seq![UiEvent::PointerButton { button: b, pressed, modifiers: s.modifiers }],
            None => Seq::empty(),
        },
        _ => Seq::empty(),
    }
}

/// The surface after window input `e`: a new size is taken and marked
/// changed, new modifiers are kept.
pub open spec fn spec_window_surface(s: SurfaceInput, e: WindowInput) -> SurfaceInput {
    match e {
        WindowInput::Resized(w, h) => SurfaceInput { inner_size: (w, h), size_changed: true, ..s },
        WindowInput::ScaleFactorChanged(w, h) => SurfaceInput {
            inner_size: (w, h),
            size_changed: true,
            ..s
        },
        WindowInput::ModifiersChanged(st) => SurfaceInput { modifiers: spec_modifiers(st), ..s },
        _ => s,
    }
}

/// The input state of the interface renderer: nothing until the renderer
/// is set up, then its surface; and the screen size the interface is told.
#[derive(Debug, Clone, Copy)]
pub struct UiWindowInput {
    pub surface: Option<SurfaceInput>,
    pub screen_size: Option<(u32, u32)>,
}

impl UiWindowInput {
    /// A renderer not set up yet.
    pub fn new() -> (r: Self)
        ensures
            r.surface is None,
            r.screen_size is None,
    {
        UiWindowInput { surface: None, screen_size: None }
    }

    /// Sets the renderer up: size zero, marked changed, no modifier held.
    pub fn init_renderer(&mut self)
        ensures
            final(self).surface == Some(
                SurfaceInput {
                    inner_size: (0u32, 0u32),
                    size_changed: true,
                    modifiers: Modifiers {
                        alt: false,
                        ctrl: false,
                        shift: false,
                        mac_cmd: false,
                        command: false,
                    },
                },
            ),
            final(self).screen_size == old(self).screen_size,
    {
        self.surface = Some(
            SurfaceInput {
                inner_size: (0, 0),
                size_changed: true,
                modifiers: Modifiers { alt: false, ctrl: false, shift: false, mac_cmd: false, command: false },
            },
        );
    }

    /// Translates window input `e`; before the renderer is set up it is
    /// ignored. A new size is also the screen size the interface is told.
    pub fn on_event(&mut self, e: WindowInput) -> (r: Vec<UiEvent>)
        ensures
            match old(self).surface {
                None => r@ == Seq::<UiEvent>::empty() && *final(self) == *old(self),
                Some(s) => {
                    &&& r@ == spec_window_events(s, e)
                    &&& final(self).surface == Some(spec_window_surface(s, e))
                    &&& final(self).screen_size == match e {
                        WindowInput::Resized(w, h) => Some((w, h)),
                        WindowInput::ScaleFactorChanged(w, h) => Some((w, h)),
                        _ => old(self).screen_size,
                    }
                },
            },
    {
        let mut events: Vec<UiEvent> = Vec::new();
        let s = match self.surface {
            Some(s) => s,
            None => {
                return events;
            },
        };
        let mut next = s;
        match e {
            WindowInput::Resized(w, h) | WindowInput::ScaleFactorChanged(w, h) => {
                next.inner_size = (w, h);
                next.size_changed = true;
                self.screen_size = Some((w, h));
            },
            WindowInput::ModifiersChanged(st) => {
                next.modifiers = Modifiers {
                    alt: st.alt,
                    ctrl: st.ctrl,
                    shift: st.shift,
                    mac_cmd: false,
                    command: st.ctrl,
                };
            },
            WindowInput::KeyboardInput { key, pressed } => {
                if let Some(k) = match_egui_key(key) {
                    let m = s.modifiers;
                    if m.command && k == UiKey::Letter(LETTER_C) {
                        events.push(UiEvent::Copy);
                    } else if m.command && k == UiKey::Letter(LETTER_X) {
                        events.push(UiEvent::Cut);
                    }
                    events.push(UiEvent::Key { key: k, pressed, modifiers: m });
                    proof {
                        assert(events@ =~= window_key_events(k, pressed, m));
                    }
                }
            },
            WindowInput::CursorLeft => {
                events.push(UiEvent::PointerGone);
            },
            WindowInput::MouseInput { button, pressed } => {
                let b = match button {
                    MouseButton::Left => Some(PointerButton::Primary),
                    MouseButton::Right => Some(PointerButton::Secondary),
                    MouseButton::Middle => Some(PointerButton::Middle),
                    MouseButton::Other(_) => None,
                };
                if let Some(b) = b {
                    events.push(UiEvent::PointerButton { button: b, pressed, modifiers: s.modifiers });
                }
            },
            WindowInput::ReceivedCharacter(c) => {
                if !(c < ' ' || c == '\x7f') {
                    events.push(UiEvent::Text(c));
                }
            },
            WindowInput::Other => {},
        }
        self.surface = Some(next);
        proof {
            match e {
                WindowInput::KeyboardInput { .. } => {},
                _ => {
                    assert(events@ =~= spec_window_events(s, e));
                },
            }
        }
        events
    }

    /// Before the interface is drawn: the new inner size, where it changed
    /// since last taken, which then counts as taken.
    pub fn take_size_change(&mut self) -> (r: Option<(u32, u32)>)
        requires
            old(self).surface is Some,
        ensures
            ({
                let s = old(self).surface->0;
                &&& r == if s.size_changed {
                    Some(s.inner_size)
                } else {
                    None::<(u32, u32)>
                }
                &&& final(self).surface == Some(SurfaceInput { size_changed: false, ..s })
                &&& final(self).screen_size == old(self).screen_size
            }),
    {
        let mut s = match self.surface {
            Some(s) => s,
            None => {
                proof {
                    assert(false);
                }
                return None;
            },
        };
        let r = if s.size_changed {
            Some(s.inner_size)
        } else {
            None
        };
        s.size_changed = false;
        self.surface = Some(s);
        r
    }
}

} // verus!
