//! What the user interface exchanges with the session: the events the
//! input reader and the completion watcher produce, and the renderers'
//! common surface.  Renderers here only compute the text to show; the
//! printing itself stays with the surrounding application.
use vstd::prelude::*;

pub mod compact;
pub mod log;
pub mod ncurses;
pub mod utils;

verus! {

use crate::audius::TrackGroup;

/// A renderer: computes the lines to show.  `width` is the terminal
/// width in columns.
pub trait HalkaraUi {
    /// The lines announcing that the track at `track_index` of group
    /// `group` is about to play.
    fn display(&self, track_groups: &Vec<TrackGroup>, group: usize, track_index: usize, width: u16) -> Vec<
        String,
    >
        requires
            group < track_groups@.len(),
            track_index < track_groups@[group as int].tracks@.len(),
    ;

    /// The line reporting an error.
    fn error(&self, msg: &str) -> String;
}

/// Which renderer the user picked.
pub enum UiVariant {
    Compact,
    Log,
    Ncurses,
}

/// A tagged event, carrying nothing beyond its tag.  Produced by the
/// user-input reader and by the playback completion watcher; consumed
/// by the event loop.
#[derive(Clone, Copy, PartialEq, Eq, Structural, Debug)]
pub enum Event {
    Pause,
    Quit,
    TrackEnd,
    VolumeUp,
    VolumeDown,
}

/// The event a key press produces: space toggles pause, `q` quits,
/// `+` and `-` step the volume; every other key does nothing.
pub open spec fn spec_event_for_key(c: char) -> Option<Event> {
    if c == 'q' {
        Some(Event::Quit)
    } else if c == ' ' {
        Some(Event::Pause)
    } else if c == '+' {
        Some(Event::VolumeUp)
    } else if c == '-' {
        Some(Event::VolumeDown)
    } else {
        None
    }
}

/// Maps one pressed key to its event.
pub fn event_for_key(c: char) -> (r: Option<Event>)
    ensures
        r == spec_event_for_key(c),
{
    if c == 'q' {
        Some(Event::Quit)
    } else if c == ' ' {
        Some(Event::Pause)
    } else if c == '+' {
        Some(Event::VolumeUp)
    } else if c == '-' {
        Some(Event::VolumeDown)
    } else {
        None
    }
}

} // verus!
