//! The event loop's state machine: which track is current, whether the
//! sink is playing or paused, and what to do on each event.
//!
//! The machine moves Idle -> Playing -> (Paused <-> Playing) -> Ended,
//! with Quit reachable from every state.  The surrounding runtime pulls
//! one event at a time off the shared channel, hands it to
//! [`Session::handle_event`], and performs the returned [`Action`]; the
//! step itself decides everything.
use vstd::prelude::*;

verus! {

use crate::audius::TrackGroup;
use crate::ui::Event;

/// Where the loop stands.
#[derive(Clone, Copy, PartialEq, Eq, Structural, Debug)]
pub enum LoopState {
    Idle,
    Playing,
    Paused,
    Ended,
}

/// What the surrounding runtime must do after a step.
#[derive(Clone, Copy, PartialEq, Eq, Structural, Debug)]
pub enum Action {
    /// Start the track at (group, track) on the playback engine.
    Start(usize, usize),
    /// Toggle pause/resume on the playback engine.
    TogglePause,
    /// One volume step up on the playback engine.
    VolumeUp,
    /// One volume step down on the playback engine.
    VolumeDown,
    /// Stop consuming events; the session is over.
    Stop,
    /// Nothing: keep waiting for the next event.
    Wait,
}

/// The track counts of the groups: all a step inspects of them.
pub open spec fn group_sizes(groups: Seq<TrackGroup>) -> Seq<nat> {
    Seq::new(groups.len(), |k: int| groups[k].tracks@.len())
}

/// The first position at or after group `g` that holds a track.
pub open spec fn spec_first_from(sizes: Seq<nat>, g: int) -> Option<(int, int)>
    decreases sizes.len() - g,
{
    if g < 0 || g >= sizes.len() {
        None
    } else if sizes[g] > 0 {
        Some((g, 0))
    } else {
        spec_first_from(sizes, g + 1)
    }
}

/// The position after (g, t): the next track of the group, else the
/// first track of the next non-empty group, else nothing.
pub open spec fn spec_advance(sizes: Seq<nat>, g: int, t: int) -> Option<(int, int)> {
    if 0 <= g < sizes.len() && t + 1 < sizes[g] {
        Some((g, t + 1))
    } else {
        spec_first_from(sizes, g + 1)
    }
}

/// One step of the machine: from a state and position, on one event, to
/// the next state and position and the action the runtime must take.
///
/// Pause toggles Playing and Paused without moving the queue.  Volume
/// events touch no state.  TrackEnd advances to the next track, the
/// next non-empty group, or Ended when the queue is exhausted; a
/// playback failure is reported outside and treated as a TrackEnd, so
/// the session advances instead of aborting.  Quit ends the session
/// from any state without starting another track.
pub open spec fn spec_step(
    sizes: Seq<nat>,
    st: LoopState,
    g: int,
    t: int,
    ev: Event,
) -> (LoopState, int, int, Action) {
    match ev {
        Event::Pause => match st {
            LoopState::Playing => (LoopState::Paused, g, t, Action::TogglePause),
            LoopState::Paused => (LoopState::Playing, g, t, Action::TogglePause),
            _ => (st, g, t, Action::Wait),
        },
        Event::VolumeUp => (st, g, t, Action::VolumeUp),
        Event::VolumeDown => (st, g, t, Action::VolumeDown),
        Event::Quit => (LoopState::Ended, g, t, Action::Stop),
        Event::TrackEnd => match st {
            LoopState::Playing | LoopState::Paused => match spec_advance(sizes, g, t) {
                Some((g2, t2)) => (LoopState::Playing, g2, t2, Action::Start(
                    g2 as usize,
                    t2 as usize,
                )),
                None => (LoopState::Ended, g, t, Action::Stop),
            },
            _ => (st, g, t, Action::Wait),
        },
    }
}

/// One playback session: the resolved groups, the current position, and
/// the loop state.
pub struct Session {
    pub groups: Vec<TrackGroup>,
    pub group_index: usize,
    pub track_index: usize,
    pub state: LoopState,
}

impl Session {
    /// While a track is current, the position lies inside the queue.
    pub open spec fn wf(self) -> bool {
        (self.state == LoopState::Playing || self.state == LoopState::Paused) ==> (
        self.group_index < self.groups@.len() && self.track_index
            < self.groups@[self.group_index as int].tracks@.len())
    }

    /// A session over the given groups, not yet started.
    pub fn new(groups: Vec<TrackGroup>) -> (r: Session)
        ensures
            r.groups == groups,
            r.state == LoopState::Idle,
            r.wf(),
    {
        Session { groups, group_index: 0, track_index: 0, state: LoopState::Idle }
    }

    fn first_from(&self, g: usize) -> (r: Option<(usize, usize)>)
        ensures
            match r {
                Some((g2, t2)) => spec_first_from(group_sizes(self.groups@), g as int) == Some(
                    (g2 as int, t2 as int),
                ) && g2 < self.groups@.len() && t2 < self.groups@[g2 as int].tracks@.len(),
                None => spec_first_from(group_sizes(self.groups@), g as int) is None,
            },
    {
        let ghost sizes = group_sizes(self.groups@);
        let n = self.groups.len();
        let mut k: usize = g;
        while k < n
            invariant
                g <= k <= n || (g > n && k == g),
                n == self.groups@.len(),
                sizes == group_sizes(self.groups@),
                spec_first_from(sizes, g as int) == spec_first_from(sizes, k as int),
            decreases n - k,
        {
            if self.groups[k].tracks.len() > 0 {
                return Some((k, 0));
            }
            k = k + 1;
        }
        None
    }

    /// Starts the session: moves to the first track when there is one
    /// (the runtime must start it), else straight to Ended.
    pub fn start(&mut self) -> (a: Action)
        requires
            old(self).state == LoopState::Idle,
        ensures
            final(self).groups == old(self).groups,
            final(self).wf(),
            match spec_first_from(group_sizes(old(self).groups@), 0) {
                Some((g, t)) => final(self).state == LoopState::Playing && final(self).group_index
                    == g && final(self).track_index == t && a == Action::Start(
                    g as usize,
                    t as usize,
                ),
                None => final(self).state == LoopState::Ended && a == Action::Stop,
            },
    {
        match self.first_from(0) {
            Some((g, t)) => {
                self.group_index = g;
                self.track_index = t;
                self.state = LoopState::Playing;
                Action::Start(g, t)
            },
            None => {
                self.state = LoopState::Ended;
                Action::Stop
            },
        }
    }

    /// One step of the loop: exactly [`spec_step`] on the current
    /// state, with the groups untouched.
    pub fn handle_event(&mut self, ev: Event) -> (a: Action)
        requires
            old(self).wf(),
        ensures
            final(self).groups == old(self).groups,
            final(self).wf(),
            (final(self).state, final(self).group_index as int, final(self).track_index as int, a)
                == spec_step(
                group_sizes(old(self).groups@),
                old(self).state,
                old(self).group_index as int,
                old(self).track_index as int,
                ev,
            ),
    {
        match ev {
            Event::Pause => {
                match self.state {
                    LoopState::Playing => {
                        self.state = LoopState::Paused;
                        Action::TogglePause
                    },
                    LoopState::Paused => {
                        self.state = LoopState::Playing;
                        Action::TogglePause
                    },
                    _ => Action::Wait,
                }
            },
            Event::VolumeUp => Action::VolumeUp,
            Event::VolumeDown => Action::VolumeDown,
            Event::Quit => {
                self.state = LoopState::Ended;
                Action::Stop
            },
            Event::TrackEnd => {
                let advancing = match self.state {
                    LoopState::Playing => true,
                    LoopState::Paused => true,
                    _ => false,
                };
                if advancing {
                    proof {
                        assert(self.state == LoopState::Playing || self.state
                            == LoopState::Paused);
                        assert(self.group_index < self.groups@.len());
                    }
                    let ng = self.groups.len();
                    proof {
                        assert(self.group_index < ng);
                    }
                    let len = self.groups[self.group_index].tracks.len();
                    let next = if len - self.track_index > 1 {
                        Some((self.group_index, self.track_index + 1))
                    } else {
                        self.first_from(self.group_index + 1)
                    };
                    match next {
                        Some((g2, t2)) => {
                            self.group_index = g2;
                            self.track_index = t2;
                            self.state = LoopState::Playing;
                            Action::Start(g2, t2)
                        },
                        None => {
                            self.state = LoopState::Ended;
                            Action::Stop
                        },
                    }
                } else {
                    Action::Wait
                }
            },
        }
    }
}

/// Law: a Pause event toggles playback off and a second one toggles it
/// back on, with the queue position untouched and no track started or
/// session ended on the way -- no spurious TrackEnd.
pub proof fn lemma_pause_roundtrip(sizes: Seq<nat>, g: int, t: int)
    ensures
        ({
            let (st1, g1, t1, a1) = spec_step(sizes, LoopState::Playing, g, t, Event::Pause);
            let (st2, g2, t2, a2) = spec_step(sizes, st1, g1, t1, Event::Pause);
            st1 == LoopState::Paused && a1 == Action::TogglePause && g1 == g && t1 == t && st2
                == LoopState::Playing && a2 == Action::TogglePause && g2 == g && t2 == t
        }),
{
}

/// Law: a Quit event during a Paused state ends the session without
/// starting the next track.
pub proof fn lemma_quit_while_paused(sizes: Seq<nat>, g: int, t: int)
    ensures
        spec_step(sizes, LoopState::Paused, g, t, Event::Quit) == (
            LoopState::Ended,
            g,
            t,
            Action::Stop,
        ),
{
}

/// Law: volume events never move the queue or change the loop state.
pub proof fn lemma_volume_keeps_state(sizes: Seq<nat>, st: LoopState, g: int, t: int)
    ensures
        spec_step(sizes, st, g, t, Event::VolumeUp) == (st, g, t, Action::VolumeUp),
        spec_step(sizes, st, g, t, Event::VolumeDown) == (st, g, t, Action::VolumeDown),
{
}

} // verus!
