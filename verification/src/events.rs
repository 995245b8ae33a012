use vstd::prelude::*;

use crate::direction::Direction;
use crate::resources::KeyboardEvent;

verus! {

/// A key the driving loop reacts to.
#[derive(Clone, Copy, Debug, PartialEq, Eq, Structural)]
pub enum Key {
    Escape,
    Up,
    Down,
    Left,
    Right,
}

/// One polled window event, reduced to the parts the simulation reacts to.
/// The collaborator that polls the window translates its own event type
/// into this one.
#[derive(Clone, Copy, Debug, PartialEq, Eq, Structural)]
pub enum GameEvent {
    /// The window was asked to close.
    Quit,
    /// A key went down; `repeat` marks an auto-repeated press.
    KeyDown { key: Key, repeat: bool },
    /// A key went up.
    KeyUp { key: Key, repeat: bool },
    /// Any event the simulation ignores.
    Other,
}

/// The logical input event one polled event maps to, if any: closing the
/// window or pressing escape ends the loop, a first press of an arrow key
/// starts the player moving that way, and an arrow release stops it.
pub open spec fn event_effect(ev: GameEvent) -> Option<KeyboardEvent> {
    match ev {
        GameEvent::Quit => Some(KeyboardEvent::Escape),
        GameEvent::KeyDown { key: Key::Escape, repeat: _ } => Some(KeyboardEvent::Escape),
        GameEvent::KeyDown { key: Key::Up, repeat: false } => Some(
            KeyboardEvent::MoveInDirection(Direction::Up),
        ),
        GameEvent::KeyDown { key: Key::Down, repeat: false } => Some(
            KeyboardEvent::MoveInDirection(Direction::Down),
        ),
        GameEvent::KeyDown { key: Key::Left, repeat: false } => Some(
            KeyboardEvent::MoveInDirection(Direction::Left),
        ),
        GameEvent::KeyDown { key: Key::Right, repeat: false } => Some(
            KeyboardEvent::MoveInDirection(Direction::Right),
        ),
        GameEvent::KeyUp { key: Key::Up, repeat: false } => Some(KeyboardEvent::Stop),
        GameEvent::KeyUp { key: Key::Down, repeat: false } => Some(KeyboardEvent::Stop),
        GameEvent::KeyUp { key: Key::Left, repeat: false } => Some(KeyboardEvent::Stop),
        GameEvent::KeyUp { key: Key::Right, repeat: false } => Some(KeyboardEvent::Stop),
        _ => None,
    }
}

/// The effect of the last event that has one; at most one logical input
/// event survives a frame's polling, however many events arrived.
pub open spec fn last_effect(events: Seq<GameEvent>) -> Option<KeyboardEvent>
    decreases events.len(),
{
    if events.len() == 0 {
        None
    } else {
        match event_effect(events.last()) {
            Some(e) => Some(e),
            None => last_effect(events.drop_last()),
        }
    }
}

/// The effect of one polled event; see [`event_effect`].
pub fn effect_of(ev: GameEvent) -> (r: Option<KeyboardEvent>)
    ensures
        r == event_effect(ev),
{
    match ev {
        GameEvent::Quit => Some(KeyboardEvent::Escape),
        GameEvent::KeyDown { key: Key::Escape, repeat: _ } => Some(KeyboardEvent::Escape),
        GameEvent::KeyDown { key: Key::Up, repeat: false } => Some(
            KeyboardEvent::MoveInDirection(Direction::Up),
        ),
        GameEvent::KeyDown { key: Key::Down, repeat: false } => Some(
            KeyboardEvent::MoveInDirection(Direction::Down),
        ),
        GameEvent::KeyDown { key: Key::Left, repeat: false } => Some(
            KeyboardEvent::MoveInDirection(Direction::Left),
        ),
        GameEvent::KeyDown { key: Key::Right, repeat: false } => Some(
            KeyboardEvent::MoveInDirection(Direction::Right),
        ),
        GameEvent::KeyUp { key: Key::Up, repeat: false } => Some(KeyboardEvent::Stop),
        GameEvent::KeyUp { key: Key::Down, repeat: false } => Some(KeyboardEvent::Stop),
        GameEvent::KeyUp { key: Key::Left, repeat: false } => Some(KeyboardEvent::Stop),
        GameEvent::KeyUp { key: Key::Right, repeat: false } => Some(KeyboardEvent::Stop),
        _ => None,
    }
}

/// Folds one frame's polled events into the at most one logical input event
/// the simulation sees: later events overwrite earlier ones.
pub fn handle_game_events(events: &Vec<GameEvent>) -> (r: Option<KeyboardEvent>)
    ensures
        r == last_effect(events@),
{
    let mut keyboard_event: Option<KeyboardEvent> = None;
    let mut i: usize = 0;
    while i < events.len()
        invariant
            i <= events@.len(),
            keyboard_event == last_effect(events@.take(i as int)),
        decreases events@.len() - i,
    {
        let effect = effect_of(events[i]);
        if effect.is_some() {
            keyboard_event = effect;
        }
        proof {
            assert(events@.take(i as int + 1).drop_last() =~= events@.take(i as int));
            assert(events@.take(i as int + 1).last() == events@[i as int]);
        }
        i = i + 1;
    }
    proof {
        assert(events@.take(events@.len() as int) =~= events@);
    }
    keyboard_event
}

} // verus!
