//! The small controls: how they are painted, and what they make of a click or a
//! key.

use umber_app::controls::glyph::{glyph_box, revert, search, warning};
use umber_app::controls::keys::{capture, key_code, Captured, Chord, Event, Key, KeyCode, KeyEvent};
use umber_app::controls::look::{
    cap_look, cap_places, cap_size, conflict_badge, hint_width, icon_button, keycap, sidebar_tab, text_button,
    CapPointer, CapState, Ink, Token, ARMED, CROSS, ESCAPE,
};
use umber_app::geom::{Pos2, Rect, Vec2, POINT};

fn key(key: Key) -> KeyEvent {
    KeyEvent {
        key,
        physical_key: None,
        pressed: true,
        command: false,
        ctrl: false,
        shift: false,
        alt: false,
    }
}

/// The first press becomes a chord, and every key leaves the queue.
#[test]
fn listening_takes_the_first_press_and_every_key() {
    let mut events = vec![
        Event::Other(1),
        Event::Key(KeyEvent { pressed: false, ..key(Key::Z) }),
        Event::Key(KeyEvent { ctrl: true, shift: true, ..key(Key::S) }),
        Event::Other(2),
        Event::Key(key(Key::A)),
    ];
    let captured = capture(&mut events);
    assert!(matches!(
        captured,
        Some(Captured::Chord(Chord {
            code: KeyCode::KeyS,
            primary: true,
            shift: true,
            alt: false
        }))
    ));
    assert_eq!(events.len(), 2);
    assert!(matches!(events[0], Event::Other(1)));
    assert!(matches!(events[1], Event::Other(2)));

    // Nothing pressed is nothing captured.
    assert!(capture(&mut events).is_none());
    assert_eq!(events.len(), 2);
}

#[test]
fn escape_cancels_whatever_is_held_with_it() {
    for event in [
        key(Key::Escape),
        KeyEvent { ctrl: true, ..key(Key::Escape) },
        KeyEvent { shift: true, alt: true, ..key(Key::Escape) },
    ] {
        let mut events = vec![Event::Key(event)];
        assert!(matches!(capture(&mut events), Some(Captured::Cancelled)));
    }
}

/// A shortcut is the place of a key and not its letter.
#[test]
fn the_place_of_a_key_wins_over_its_letter() {
    let mut events = vec![Event::Key(KeyEvent { physical_key: Some(Key::Q), ..key(Key::A) })];
    assert!(matches!(
        capture(&mut events),
        Some(Captured::Chord(Chord { code: KeyCode::KeyQ, .. }))
    ));
}

#[test]
fn each_key_has_its_place() {
    assert_eq!(key_code(Key::A), Some(KeyCode::KeyA));
    assert_eq!(key_code(Key::Num7), Some(KeyCode::Digit7));
    assert_eq!(key_code(Key::F12), Some(KeyCode::F12));
    assert_eq!(key_code(Key::OpenBracket), Some(KeyCode::BracketLeft));
    assert_eq!(key_code(Key::Backtick), Some(KeyCode::Backquote));
    assert_eq!(key_code(Key::ArrowUp), Some(KeyCode::ArrowUp));
}

fn full(token: Token) -> Ink {
    Ink { token, strength: 100 }
}

#[test]
fn a_disabled_control_is_faint_and_takes_no_click() {
    let icon = icon_button(false, true);
    assert_eq!(icon.ink, Ink { token: Token::TextDim, strength: 45 });
    assert!(icon.fill.is_none() && !icon.clickable);
    let pill = text_button(true, false, true);
    assert_eq!(pill.ink, Ink { token: Token::TextDim, strength: 50 });
    assert_eq!((pill.fill, pill.border), (Some(Token::Window), Some(Token::Border)));
    assert!(!pill.clickable);
    let (tab, bar) = sidebar_tab(false, false, true);
    assert_eq!(tab.ink, Ink { token: Token::TextDim, strength: 45 });
    assert!(tab.fill.is_none() && !tab.clickable && !bar);
}

#[test]
fn a_hovered_control_says_so() {
    assert_eq!(icon_button(true, true).fill, Some(Token::ControlHover));
    assert_eq!(icon_button(true, true).ink, full(Token::TextStrong));
    assert_eq!(icon_button(true, false).ink, full(Token::TextMuted));
    assert_eq!(text_button(true, true, false).border, Some(Token::Accent));
    assert_eq!(text_button(true, true, false).ink, full(Token::Accent));
    assert_eq!(text_button(false, true, true).fill, Some(Token::ControlHover));
    let (tab, bar) = sidebar_tab(true, true, false);
    assert_eq!(tab.fill, Some(Token::ControlHover));
    assert!(bar);
}

/// A click on the cross clears the binding and does not start listening.
#[test]
fn clearing_a_cap_does_not_rebind_it() {
    let pointer = |hovered: bool, clicked: bool, cross: bool| CapPointer {
        hovered,
        clicked,
        cross_hovered: cross,
        cross_clicked: cross && clicked,
    };
    let (cross, asked) = keycap(true, pointer(true, true, true));
    assert_eq!(cross, Some(full(Token::TextStrong)));
    assert!(asked.cleared && !asked.clicked);
    let (cross, asked) = keycap(true, pointer(true, true, false));
    assert_eq!(cross, Some(Ink { token: Token::TextDim, strength: 70 }));
    assert!(asked.clicked && !asked.cleared);
    let (cross, asked) = keycap(false, pointer(true, true, true));
    assert!(cross.is_none() && asked.clicked && !asked.cleared);
    assert!(keycap(true, pointer(false, false, false)).0.is_none());
}

#[test]
fn a_cap_has_room_for_its_cross() {
    assert_eq!(cap_size(30 * POINT, true).x, 46 * POINT + CROSS);
    let size = cap_size(30 * POINT, false);
    assert_eq!((size.x, size.y), (46 * POINT, 20 * POINT));
    let cap = Rect {
        min: Pos2 { x: 0, y: 0 },
        max: Pos2 { x: 61 * POINT, y: 20 * POINT },
    };
    let places = cap_places(cap, 30 * POINT, true);
    assert_eq!(places.label, Pos2 { x: 23 * POINT, y: 10 * POINT });
    let cross = places.cross.expect("a cross");
    assert_eq!(cross.min, Pos2 { x: 44 * POINT, y: 25_000 });
    assert_eq!(cross.width(), CROSS);
    assert!(cap_places(cap, 30 * POINT, false).cross.is_none());
    assert_eq!(cap_look(CapState::Clashing).border, Some(Token::AccentDim));
    assert_eq!(cap_look(CapState::Unbound).fill, None);
    assert_eq!(cap_look(CapState::Bound).ink, full(Token::Text));
    assert_eq!(hint_width(40 * POINT, 50 * POINT), 98 * POINT);
    assert_eq!((ARMED, ESCAPE), ("press keys", "esc to cancel"));
}

/// A glyph is drawn about the middle of its box, and not at all in none.
#[test]
fn a_glyph_is_drawn_about_the_middle_of_its_box() {
    let square = Rect {
        min: Pos2 { x: 0, y: 0 },
        max: Pos2 { x: 20 * POINT, y: 20 * POINT },
    };
    let b = glyph_box(square, POINT).expect("room");
    assert_eq!(b.centre, Pos2 { x: 10 * POINT, y: 10 * POINT });
    let mark = warning(b);
    assert_eq!(mark.apex.x, b.centre.x);
    assert!(mark.apex.y < mark.left.y);
    assert_eq!(mark.left.y, mark.right.y);
    assert_eq!(b.centre.x - mark.left.x, mark.right.x - b.centre.x);
    let lens = search(b);
    assert!(lens.tail_to.x > lens.tail_from.x && lens.tail_to.y > lens.tail_from.y);
    let (radius, _) = revert(b);
    assert!(radius > 0);
}

#[test]
fn a_conflict_flag_is_as_wide_as_what_it_says() {
    assert_eq!(conflict_badge(88 * POINT), Vec2 { x: 100 * POINT, y: 16 * POINT });
}
