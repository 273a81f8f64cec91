//! Keys as a keyboard reports them and as a shortcut is stored, and listening
//! for a chord.

use vstd::prelude::*;

verus! {

/// A key, as far as a shortcut can tell one from another.
#[derive(Clone, Copy, Debug, PartialEq, Eq, Structural)]
pub enum Key {
    A,
    B,
    C,
    D,
    E,
    F,
    G,
    H,
    I,
    J,
    K,
    L,
    M,
    N,
    O,
    P,
    Q,
    R,
    S,
    T,
    U,
    V,
    W,
    X,
    Y,
    Z,
    Num0,
    Num1,
    Num2,
    Num3,
    Num4,
    Num5,
    Num6,
    Num7,
    Num8,
    Num9,
    F1,
    F2,
    F3,
    F4,
    F5,
    F6,
    F7,
    F8,
    F9,
    F10,
    F11,
    F12,
    Backtick,
    Minus,
    Equals,
    OpenBracket,
    CloseBracket,
    Backslash,
    Semicolon,
    Quote,
    Comma,
    Period,
    Slash,
    Tab,
    Enter,
    Backspace,
    Delete,
    Insert,
    Home,
    End,
    PageUp,
    PageDown,
    ArrowUp,
    ArrowDown,
    ArrowLeft,
    ArrowRight,
    Escape,
    Space,
    /// Any other: the modifiers, which are half of a chord and never the whole
    /// of one, and every key no shortcut can sit on.
    Other,
}

/// A place on the keyboard that a shortcut can sit at.
#[derive(Clone, Copy, Debug, PartialEq, Eq, Structural)]
pub enum KeyCode {
    KeyA,
    KeyB,
    KeyC,
    KeyD,
    KeyE,
    KeyF,
    KeyG,
    KeyH,
    KeyI,
    KeyJ,
    KeyK,
    KeyL,
    KeyM,
    KeyN,
    KeyO,
    KeyP,
    KeyQ,
    KeyR,
    KeyS,
    KeyT,
    KeyU,
    KeyV,
    KeyW,
    KeyX,
    KeyY,
    KeyZ,
    Digit0,
    Digit1,
    Digit2,
    Digit3,
    Digit4,
    Digit5,
    Digit6,
    Digit7,
    Digit8,
    Digit9,
    F1,
    F2,
    F3,
    F4,
    F5,
    F6,
    F7,
    F8,
    F9,
    F10,
    F11,
    F12,
    Backquote,
    Minus,
    Equal,
    BracketLeft,
    BracketRight,
    Backslash,
    Semicolon,
    Quote,
    Comma,
    Period,
    Slash,
    Tab,
    Enter,
    Backspace,
    Delete,
    Insert,
    Home,
    End,
    PageUp,
    PageDown,
    ArrowUp,
    ArrowDown,
    ArrowLeft,
    ArrowRight,
}

/// The place a key is at. The numeric pad has none of its own: it is reported as
/// the digit row, so a binding on it would silently be one on a digit.
pub open spec fn code_of(key: Key) -> Option<KeyCode> {
    match key {
        Key::A => Some(KeyCode::KeyA),
        Key::B => Some(KeyCode::KeyB),
        Key::C => Some(KeyCode::KeyC),
        Key::D => Some(KeyCode::KeyD),
        Key::E => Some(KeyCode::KeyE),
        Key::F => Some(KeyCode::KeyF),
        Key::G => Some(KeyCode::KeyG),
        Key::H => Some(KeyCode::KeyH),
        Key::I => Some(KeyCode::KeyI),
        Key::J => Some(KeyCode::KeyJ),
        Key::K => Some(KeyCode::KeyK),
        Key::L => Some(KeyCode::KeyL),
        Key::M => Some(KeyCode::KeyM),
        Key::N => Some(KeyCode::KeyN),
        Key::O => Some(KeyCode::KeyO),
        Key::P => Some(KeyCode::KeyP),
        Key::Q => Some(KeyCode::KeyQ),
        Key::R => Some(KeyCode::KeyR),
        Key::S => Some(KeyCode::KeyS),
        Key::T => Some(KeyCode::KeyT),
        Key::U => Some(KeyCode::KeyU),
        Key::V => Some(KeyCode::KeyV),
        Key::W => Some(KeyCode::KeyW),
        Key::X => Some(KeyCode::KeyX),
        Key::Y => Some(KeyCode::KeyY),
        Key::Z => Some(KeyCode::KeyZ),
        Key::Num0 => Some(KeyCode::Digit0),
        Key::Num1 => Some(KeyCode::Digit1),
        Key::Num2 => Some(KeyCode::Digit2),
        Key::Num3 => Some(KeyCode::Digit3),
        Key::Num4 => Some(KeyCode::Digit4),
        Key::Num5 => Some(KeyCode::Digit5),
        Key::Num6 => Some(KeyCode::Digit6),
        Key::Num7 => Some(KeyCode::Digit7),
        Key::Num8 => Some(KeyCode::Digit8),
        Key::Num9 => Some(KeyCode::Digit9),
        Key::F1 => Some(KeyCode::F1),
        Key::F2 => Some(KeyCode::F2),
        Key::F3 => Some(KeyCode::F3),
        Key::F4 => Some(KeyCode::F4),
        Key::F5 => Some(KeyCode::F5),
        Key::F6 => Some(KeyCode::F6),
        Key::F7 => Some(KeyCode::F7),
        Key::F8 => Some(KeyCode::F8),
        Key::F9 => Some(KeyCode::F9),
        Key::F10 => Some(KeyCode::F10),
        Key::F11 => Some(KeyCode::F11),
        Key::F12 => Some(KeyCode::F12),
        Key::Backtick => Some(KeyCode::Backquote),
        Key::Minus => Some(KeyCode::Minus),
        Key::Equals => Some(KeyCode::Equal),
        Key::OpenBracket => Some(KeyCode::BracketLeft),
        Key::CloseBracket => Some(KeyCode::BracketRight),
        Key::Backslash => Some(KeyCode::Backslash),
        Key::Semicolon => Some(KeyCode::Semicolon),
        Key::Quote => Some(KeyCode::Quote),
        Key::Comma => Some(KeyCode::Comma),
        Key::Period => Some(KeyCode::Period),
        Key::Slash => Some(KeyCode::Slash),
        Key::Tab => Some(KeyCode::Tab),
        Key::Enter => Some(KeyCode::Enter),
        Key::Backspace => Some(KeyCode::Backspace),
        Key::Delete => Some(KeyCode::Delete),
        Key::Insert => Some(KeyCode::Insert),
        Key::Home => Some(KeyCode::Home),
        Key::End => Some(KeyCode::End),
        Key::PageUp => Some(KeyCode::PageUp),
        Key::PageDown => Some(KeyCode::PageDown),
        Key::ArrowUp => Some(KeyCode::ArrowUp),
        Key::ArrowDown => Some(KeyCode::ArrowDown),
        Key::ArrowLeft => Some(KeyCode::ArrowLeft),
        Key::ArrowRight => Some(KeyCode::ArrowRight),
        _ => None,
    }
}

pub fn key_code(key: Key) -> (r: Option<KeyCode>)
    ensures
        r == code_of(key),
{
    match key {
        Key::A => Some(KeyCode::KeyA),
        Key::B => Some(KeyCode::KeyB),
        Key::C => Some(KeyCode::KeyC),
        Key::D => Some(KeyCode::KeyD),
        Key::E => Some(KeyCode::KeyE),
        Key::F => Some(KeyCode::KeyF),
        Key::G => Some(KeyCode::KeyG),
        Key::H => Some(KeyCode::KeyH),
        Key::I => Some(KeyCode::KeyI),
        Key::J => Some(KeyCode::KeyJ),
        Key::K => Some(KeyCode::KeyK),
        Key::L => Some(KeyCode::KeyL),
        Key::M => Some(KeyCode::KeyM),
        Key::N => Some(KeyCode::KeyN),
        Key::O => Some(KeyCode::KeyO),
        Key::P => Some(KeyCode::KeyP),
        Key::Q => Some(KeyCode::KeyQ),
        Key::R => Some(KeyCode::KeyR),
        Key::S => Some(KeyCode::KeyS),
        Key::T => Some(KeyCode::KeyT),
        Key::U => Some(KeyCode::KeyU),
        Key::V => Some(KeyCode::KeyV),
        Key::W => Some(KeyCode::KeyW),
        Key::X => Some(KeyCode::KeyX),
        Key::Y => Some(KeyCode::KeyY),
        Key::Z => Some(KeyCode::KeyZ),
        Key::Num0 => Some(KeyCode::Digit0),
        Key::Num1 => Some(KeyCode::Digit1),
        Key::Num2 => Some(KeyCode::Digit2),
        Key::Num3 => Some(KeyCode::Digit3),
        Key::Num4 => Some(KeyCode::Digit4),
        Key::Num5 => Some(KeyCode::Digit5),
        Key::Num6 => Some(KeyCode::Digit6),
        Key::Num7 => Some(KeyCode::Digit7),
        Key::Num8 => Some(KeyCode::Digit8),
        Key::Num9 => Some(KeyCode::Digit9),
        Key::F1 => Some(KeyCode::F1),
        Key::F2 => Some(KeyCode::F2),
        Key::F3 => Some(KeyCode::F3),
        Key::F4 => Some(KeyCode::F4),
        Key::F5 => Some(KeyCode::F5),
        Key::F6 => Some(KeyCode::F6),
        Key::F7 => Some(KeyCode::F7),
        Key::F8 => Some(KeyCode::F8),
        Key::F9 => Some(KeyCode::F9),
        Key::F10 => Some(KeyCode::F10),
        Key::F11 => Some(KeyCode::F11),
        Key::F12 => Some(KeyCode::F12),
        Key::Backtick => Some(KeyCode::Backquote),
        Key::Minus => Some(KeyCode::Minus),
        Key::Equals => Some(KeyCode::Equal),
        Key::OpenBracket => Some(KeyCode::BracketLeft),
        Key::CloseBracket => Some(KeyCode::BracketRight),
        Key::Backslash => Some(KeyCode::Backslash),
        Key::Semicolon => Some(KeyCode::Semicolon),
        Key::Quote => Some(KeyCode::Quote),
        Key::Comma => Some(KeyCode::Comma),
        Key::Period => Some(KeyCode::Period),
        Key::Slash => Some(KeyCode::Slash),
        Key::Tab => Some(KeyCode::Tab),
        Key::Enter => Some(KeyCode::Enter),
        Key::Backspace => Some(KeyCode::Backspace),
        Key::Delete => Some(KeyCode::Delete),
        Key::Insert => Some(KeyCode::Insert),
        Key::Home => Some(KeyCode::Home),
        Key::End => Some(KeyCode::End),
        Key::PageUp => Some(KeyCode::PageUp),
        Key::PageDown => Some(KeyCode::PageDown),
        Key::ArrowUp => Some(KeyCode::ArrowUp),
        Key::ArrowDown => Some(KeyCode::ArrowDown),
        Key::ArrowLeft => Some(KeyCode::ArrowLeft),
        Key::ArrowRight => Some(KeyCode::ArrowRight),
        _ => None,
    }
}

/// The key at a place.
pub open spec fn key_at(code: KeyCode) -> Key {
    match code {
        KeyCode::KeyA => Key::A,
        KeyCode::KeyB => Key::B,
        KeyCode::KeyC => Key::C,
        KeyCode::KeyD => Key::D,
        KeyCode::KeyE => Key::E,
        KeyCode::KeyF => Key::F,
        KeyCode::KeyG => Key::G,
        KeyCode::KeyH => Key::H,
        KeyCode::KeyI => Key::I,
        KeyCode::KeyJ => Key::J,
        KeyCode::KeyK => Key::K,
        KeyCode::KeyL => Key::L,
        KeyCode::KeyM => Key::M,
        KeyCode::KeyN => Key::N,
        KeyCode::KeyO => Key::O,
        KeyCode::KeyP => Key::P,
        KeyCode::KeyQ => Key::Q,
        KeyCode::KeyR => Key::R,
        KeyCode::KeyS => Key::S,
        KeyCode::KeyT => Key::T,
        KeyCode::KeyU => Key::U,
        KeyCode::KeyV => Key::V,
        KeyCode::KeyW => Key::W,
        KeyCode::KeyX => Key::X,
        KeyCode::KeyY => Key::Y,
        KeyCode::KeyZ => Key::Z,
        KeyCode::Digit0 => Key::Num0,
        KeyCode::Digit1 => Key::Num1,
        KeyCode::Digit2 => Key::Num2,
        KeyCode::Digit3 => Key::Num3,
        KeyCode::Digit4 => Key::Num4,
        KeyCode::Digit5 => Key::Num5,
        KeyCode::Digit6 => Key::Num6,
        KeyCode::Digit7 => Key::Num7,
        KeyCode::Digit8 => Key::Num8,
        KeyCode::Digit9 => Key::Num9,
        KeyCode::F1 => Key::F1,
        KeyCode::F2 => Key::F2,
        KeyCode::F3 => Key::F3,
        KeyCode::F4 => Key::F4,
        KeyCode::F5 => Key::F5,
        KeyCode::F6 => Key::F6,
        KeyCode::F7 => Key::F7,
        KeyCode::F8 => Key::F8,
        KeyCode::F9 => Key::F9,
        KeyCode::F10 => Key::F10,
        KeyCode::F11 => Key::F11,
        KeyCode::F12 => Key::F12,
        KeyCode::Backquote => Key::Backtick,
        KeyCode::Minus => Key::Minus,
        KeyCode::Equal => Key::Equals,
        KeyCode::BracketLeft => Key::OpenBracket,
        KeyCode::BracketRight => Key::CloseBracket,
        KeyCode::Backslash => Key::Backslash,
        KeyCode::Semicolon => Key::Semicolon,
        KeyCode::Quote => Key::Quote,
        KeyCode::Comma => Key::Comma,
        KeyCode::Period => Key::Period,
        KeyCode::Slash => Key::Slash,
        KeyCode::Tab => Key::Tab,
        KeyCode::Enter => Key::Enter,
        KeyCode::Backspace => Key::Backspace,
        KeyCode::Delete => Key::Delete,
        KeyCode::Insert => Key::Insert,
        KeyCode::Home => Key::Home,
        KeyCode::End => Key::End,
        KeyCode::PageUp => Key::PageUp,
        KeyCode::PageDown => Key::PageDown,
        KeyCode::ArrowUp => Key::ArrowUp,
        KeyCode::ArrowDown => Key::ArrowDown,
        KeyCode::ArrowLeft => Key::ArrowLeft,
        KeyCode::ArrowRight => Key::ArrowRight,
    }
}

/// No two keys share a place, and every place has its key.
pub proof fn every_place_has_one_key(key: Key, code: KeyCode)
    ensures
        code_of(key) == Some(code) <==> key == key_at(code),
{
}

// --- listening --------------------------------------------------------------------

/// A key and the modifiers held with it.
#[derive(Clone, Copy, Debug, PartialEq, Eq, Structural)]
pub struct Chord {
    pub code: KeyCode,
    /// Ctrl, or the command key where there is one.
    pub primary: bool,
    pub shift: bool,
    pub alt: bool,
}

/// A key going down or up.
#[derive(Clone, Copy, Debug, PartialEq, Eq, Structural)]
pub struct KeyEvent {
    pub key: Key,
    /// The key by its place on the keyboard, where that is known.
    pub physical_key: Option<Key>,
    pub pressed: bool,
    pub command: bool,
    pub ctrl: bool,
    pub shift: bool,
    pub alt: bool,
}

/// Something in the queue of what the user did. What is not a key is known by a
/// number of the caller's.
#[derive(Clone, Copy, Debug, PartialEq, Eq, Structural)]
pub enum Event {
    Key(KeyEvent),
    Other(usize),
}

/// What listening for a chord produced.
#[derive(Clone, Copy, Debug, PartialEq, Eq)]
pub enum Captured {
    Chord(Chord),
    /// Escape: leave the binding as it was.
    Cancelled,
    /// A key that cannot carry a shortcut, and why.
    Rejected(&'static str),
}

/// What one press comes to. The place on the keyboard decides, not the letter
/// the layout puts there.
pub open spec fn captured_by(event: KeyEvent) -> Captured {
    let key = match event.physical_key {
        Some(place) => place,
        None => event.key,
    };
    match key {
        Key::Escape => Captured::Cancelled,
        Key::Space => Captured::Rejected("Space is reserved for panning while you draw."),
        _ => match code_of(key) {
            Some(code) => Captured::Chord(
                Chord {
                    code,
                    primary: event.command || event.ctrl,
                    shift: event.shift,
                    alt: event.alt,
                },
            ),
            None => Captured::Rejected("That key cannot carry a shortcut."),
        },
    }
}

fn capture_press(event: KeyEvent) -> (r: Captured)
    ensures
        r == captured_by(event),
{
    let key = match event.physical_key {
        Some(place) => place,
        None => event.key,
    };
    match key {
        Key::Escape => Captured::Cancelled,
        Key::Space => Captured::Rejected("Space is reserved for panning while you draw."),
        _ => match key_code(key) {
            Some(code) => Captured::Chord(
                Chord {
                    code,
                    primary: event.command || event.ctrl,
                    shift: event.shift,
                    alt: event.alt,
                },
            ),
            None => Captured::Rejected("That key cannot carry a shortcut."),
        },
    }
}

/// What the first press among these comes to.
pub open spec fn first_press(events: Seq<Event>) -> Option<Captured>
    decreases events.len(),
{
    if events.len() == 0 {
        None
    } else {
        match first_press(events.drop_last()) {
            Some(captured) => Some(captured),
            None => match events.last() {
                Event::Key(event) if event.pressed => Some(captured_by(event)),
                _ => None,
            },
        }
    }
}

/// What is left of a queue once every key has been taken out of it.
pub open spec fn without_keys(events: Seq<Event>) -> Seq<Event>
    decreases events.len(),
{
    if events.len() == 0 {
        Seq::empty()
    } else {
        let rest = without_keys(events.drop_last());
        match events.last() {
            Event::Key(_) => rest,
            Event::Other(_) => rest.push(events.last()),
        }
    }
}

/// Take every key out of the queue and turn the first press into a chord. The
/// keys are removed and not merely read: while a field is listening, Tab must
/// not move the focus.
pub fn capture(events: &mut Vec<Event>) -> (r: Option<Captured>)
    ensures
        r == first_press(old(events)@),
        final(events)@ == without_keys(old(events)@),
{
    let ghost all = events@;
    let mut kept: Vec<Event> = Vec::new();
    let mut result: Option<Captured> = None;
    let mut i: usize = 0;
    assert(all.take(0) =~= Seq::empty());
    while i < events.len()
        invariant
            i <= events@.len(),
            events@ == all,
            kept@ == without_keys(all.take(i as int)),
            result == first_press(all.take(i as int)),
        decreases events@.len() - i,
    {
        assert(all.take(i + 1).drop_last() =~= all.take(i as int));
        assert(all.take(i + 1).last() == all[i as int]);
        match events[i] {
            Event::Key(event) => {
                if event.pressed && result.is_none() {
                    result = Some(capture_press(event));
                }
            },
            Event::Other(id) => kept.push(Event::Other(id)),
        }
        i += 1;
    }
    assert(all.take(all.len() as int) =~= all);
    *events = kept;
    result
}

/// Listening leaves no key behind and touches nothing else: what is left is what
/// was there, and none of it is a key.
pub proof fn listening_swallows_every_key(events: Seq<Event>)
    ensures
        forall|i: int|
            0 <= i < without_keys(events).len() ==> (#[trigger] without_keys(events)[i]) is Other,
        forall|e: Event| e is Other && #[trigger] events.contains(e) ==> without_keys(
            events,
        ).contains(e),
    decreases events.len(),
{
    if events.len() > 0 {
        listening_swallows_every_key(events.drop_last());
        let rest = without_keys(events.drop_last());
        let kept = without_keys(events);
        assert forall|i: int| 0 <= i < kept.len() implies (#[trigger] kept[i]) is Other by {
            if i < rest.len() {
                assert(kept[i] == rest[i]);
            }
        }
        assert forall|e: Event| e is Other && #[trigger] events.contains(e) implies kept.contains(
            e,
        ) by {
            let at = choose|i: int| 0 <= i < events.len() && events[i] == e;
            if at < events.len() - 1 {
                assert(events.drop_last()[at] == e);
                assert(events.drop_last().contains(e));
                let k = choose|k: int| 0 <= k < rest.len() && rest[k] == e;
                assert(kept[k] == e);
            } else {
                assert(kept[kept.len() - 1] == e);
            }
        }
    }
}

/// Escape always gets out: a press of it is never a binding.
pub proof fn escape_always_cancels(event: KeyEvent)
    requires
        event.physical_key == Some(Key::Escape) || (event.physical_key is None && event.key
            == Key::Escape),
    ensures
        captured_by(event) == Captured::Cancelled,
{
}

/// A captured chord is the key that was pressed, by its place where that is known,
/// with exactly the modifiers that were held: shift and alt as they were, and the
/// primary one where either of the two keys that stand for it was down. Escape and
/// Space are no chord, nor is a key that has no place.
pub proof fn a_chord_is_the_key_and_its_modifiers(event: KeyEvent)
    ensures
        ({
            let key = if event.physical_key is Some {
                event.physical_key->0
            } else {
                event.key
            };
            match captured_by(event) {
                Captured::Chord(chord) => {
                    &&& key_at(chord.code) == key
                    &&& chord.shift == event.shift
                    &&& chord.alt == event.alt
                    &&& chord.primary == (event.command || event.ctrl)
                },
                Captured::Cancelled => key == Key::Escape,
                Captured::Rejected(why) => {
                    &&& forall|code: KeyCode| #[trigger] key_at(code) != key
                    &&& key != Key::Escape
                    &&& key == Key::Space <==> why == "Space is reserved for panning while you draw."
                    &&& key != Key::Space ==> why == "That key cannot carry a shortcut."
                },
            }
        }),
{
    reveal_strlit("Space is reserved for panning while you draw.");
    reveal_strlit("That key cannot carry a shortcut.");
    let key = if event.physical_key is Some {
        event.physical_key->0
    } else {
        event.key
    };
    assert forall|code: KeyCode| #[trigger] key_at(code) == key implies code_of(key) == Some(
        code,
    ) by {
        every_place_has_one_key(key, code);
    }
    if code_of(key) is Some {
        every_place_has_one_key(key, code_of(key)->0);
    }
    assert("Space is reserved for panning while you draw."@.len()
        != "That key cannot carry a shortcut."@.len());
}

/// Every key that has a place can be bound, whatever is held with it.
pub proof fn a_key_with_a_place_can_be_bound(event: KeyEvent, code: KeyCode)
    requires
        event.physical_key == Some(key_at(code)) || (event.physical_key is None && event.key
            == key_at(code)),
    ensures
        captured_by(event) is Chord,
{
    every_place_has_one_key(key_at(code), code);
}

/// What is heard is the first press: nothing before it was one, and nothing after
/// it matters.
pub proof fn the_first_press_is_heard(events: Seq<Event>)
    ensures
        match first_press(events) {
            Some(captured) => exists|i: int|
                {
                    &&& 0 <= i < events.len()
                    &&& #[trigger] is_press(events[i])
                    &&& captured == captured_by(events[i]->Key_0)
                    &&& forall|j: int| 0 <= j < i ==> !#[trigger] is_press(events[j])
                },
            None => forall|j: int| 0 <= j < events.len() ==> !#[trigger] is_press(events[j]),
        },
    decreases events.len(),
{
    if events.len() > 0 {
        let front = events.drop_last();
        the_first_press_is_heard(front);
        if first_press(front) is Some {
            let i = choose|i: int|
                {
                    &&& 0 <= i < front.len()
                    &&& #[trigger] is_press(front[i])
                    &&& first_press(front)->0 == captured_by(front[i]->Key_0)
                    &&& forall|j: int| 0 <= j < i ==> !#[trigger] is_press(front[j])
                };
            assert(events[i] == front[i]);
            assert(is_press(events[i]));
            assert forall|j: int| 0 <= j < i implies !#[trigger] is_press(events[j]) by {
                assert(events[j] == front[j]);
                assert(!is_press(front[j]));
            }
        } else {
            assert forall|j: int| 0 <= j < front.len() implies !#[trigger] is_press(events[j]) by {
                assert(events[j] == front[j]);
                assert(!is_press(front[j]));
            }
            if is_press(events.last()) {
                assert(is_press(events[events.len() - 1]));
            }
        }
    }
}

/// Whether something in the queue is a key going down.
pub open spec fn is_press(event: Event) -> bool {
    event is Key && event->Key_0.pressed
}

/// What is left of the queue is in the order it was in.
pub proof fn listening_keeps_the_order_of_the_rest(events: Seq<Event>)
    ensures
        without_keys(events) == events.filter(|e: Event| e is Other),
    decreases events.len(),
{
    reveal(Seq::filter);
    if events.len() > 0 {
        listening_keeps_the_order_of_the_rest(events.drop_last());
    }
}

} // verus!
