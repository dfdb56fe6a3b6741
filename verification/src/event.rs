//! The signal stream that drives the animation.

use vstd::prelude::*;
use crossterm::event::KeyEvent;

verus! {

/// `crossterm::event::KeyEvent`, of which the verifier knows the name and no
/// more: a key is carried through, never looked into.
#[verifier::external_type_specification]
#[verifier::external_body]
pub struct ExKeyEvent(KeyEvent);

/// One signal of the stream. The animation acts on `Tick` and `Resize`, and
/// a frame is drawn on `Render`; the others are for the code around it.
#[derive(Clone, Copy, Debug)]
pub enum Event {
    Init,
    Quit,
    Error,
    Render,
    Tick,
    Timer,
    Key(KeyEvent),
    Resize(u16, u16),
}

/// What happened to a key.
#[derive(Clone, Copy, Debug, PartialEq, Eq, Structural)]
pub enum KeyKind {
    Press,
    Repeat,
    Release,
}

/// What one of the sources behind the stream has come up with: the terminal
/// or one of the three clocks.
#[derive(Clone, Copy, Debug)]
pub enum Input {
    /// The terminal reported a key, with what happened to it.
    Key(KeyKind, KeyEvent),
    /// The terminal reported its new size: columns, then rows.
    Resize(u16, u16),
    /// The terminal reported something else.
    Other,
    /// Reading the terminal failed.
    Failed,
    /// The terminal has nothing more to report.
    Closed,
    /// The tick clock fired.
    TickDue,
    /// The frame clock fired.
    RenderDue,
    /// The one-second clock fired.
    TimerDue,
}

/// The signal that an input becomes, if it becomes one: only a key that was
/// pressed counts, and ticks are passed on only where `do_tick` is set.
pub open spec fn signal_of(input: Input, do_tick: bool) -> Option<Event> {
    match input {
        Input::Key(KeyKind::Press, key) => Some(Event::Key(key)),
        Input::Key(_, _) => None,
        Input::Resize(width, height) => Some(Event::Resize(width, height)),
        Input::Other => None,
        Input::Failed => Some(Event::Error),
        Input::Closed => None,
        Input::TickDue => if do_tick {
            Some(Event::Tick)
        } else {
            None
        },
        Input::RenderDue => Some(Event::Render),
        Input::TimerDue => Some(Event::Timer),
    }
}

impl Event {
    /// The signal that an input becomes, if it becomes one.
    pub fn from_input(input: Input, do_tick: bool) -> (event: Option<Event>)
        ensures
            event == signal_of(input, do_tick),
    {
        match input {
            Input::Key(KeyKind::Press, key) => Some(Event::Key(key)),
            Input::Key(_, _) => None,
            Input::Resize(width, height) => Some(Event::Resize(width, height)),
            Input::Other => None,
            Input::Failed => Some(Event::Error),
            Input::Closed => None,
            Input::TickDue => if do_tick {
                Some(Event::Tick)
            } else {
                None
            },
            Input::RenderDue => Some(Event::Render),
            Input::TimerDue => Some(Event::Timer),
        }
    }
}

} // verus!
