//! Plays a queue of streamed audio tracks resolved from a remote music
//! catalog: discovers and caches a working API endpoint, resolves user
//! identifiers into ordered track groups, filters and reorders the play
//! queue, and drives an event-driven playback loop.
use vstd::prelude::*;

pub mod args;
pub mod audius;
pub mod http;
pub mod json;
pub mod player;
pub mod queue;
pub mod session;
pub mod text;
pub mod ui;
pub mod utils;

verus! {

use crate::audius::ApiCache;
use crate::audius::ResolveError;
use crate::audius::TrackGroup;
use crate::queue::assemble;
use crate::queue::filter_tracks;
use crate::queue::lemma_assembled_within_bounds;
use crate::queue::lemma_filter_bounds;
use crate::queue::spec_keep;

/// The order in which the tracks of a group are played.
#[derive(Clone, Copy, PartialEq, Eq, Structural, Debug)]
pub enum PlayOrder {
    Ascending,
    Descending,
    Random,
}

/// Builds the final play queue: resolves every identifier into track
/// groups (an empty identifier list means one default trending query
/// with the given genre and time), then filters each group by the
/// duration bounds and reorders it under the policy.  A failing
/// identifier is skipped and its error returned beside the groups, so
/// one bad identifier does not abort the whole run.
///
/// Every track of every returned group lies within the bounds.
pub fn build_track_groups(
    cache: &mut ApiCache,
    playables: &Vec<String>,
    genre: &str,
    time: &str,
    min: Option<u64>,
    max: Option<u64>,
    order: PlayOrder,
) -> (r: (Vec<TrackGroup>, Vec<ResolveError>))
    ensures
        forall|a: int, k: int|
            0 <= a < r.0@.len() && 0 <= k < r.0@[a].tracks@.len() ==> spec_keep(
                #[trigger] r.0@[a].tracks@[k],
                min,
                max,
            ),
        playables@.len() == 0 ==> r.0@.len() + r.1@.len() == 1,
{
    let mut groups: Vec<TrackGroup> = Vec::new();
    let mut errors: Vec<ResolveError> = Vec::new();
    if playables.len() == 0 {
        match crate::audius::trending::get_trending(cache, genre, time) {
            Ok(g) => {
                groups.push(g);
            },
            Err(e) => {
                errors.push(e);
            },
        }
    } else {
        let mut i: usize = 0;
        while i < playables.len()
            decreases playables@.len() - i,
        {
            match crate::audius::resolve(cache, playables[i].as_str()) {
                Ok(mut gs) => {
                    groups.append(&mut gs);
                },
                Err(e) => {
                    errors.push(e);
                },
            }
            i = i + 1;
        }
    }
    let ghost resolved = groups@.len();
    let ghost reported = errors@.len();
    let mut out: Vec<TrackGroup> = Vec::new();
    while groups.len() > 0
        invariant
            out@.len() + groups@.len() == resolved,
            errors@.len() == reported,
            forall|a: int, k: int|
                0 <= a < out@.len() && 0 <= k < out@[a].tracks@.len() ==> spec_keep(
                    #[trigger] out@[a].tracks@[k],
                    min,
                    max,
                ),
        decreases groups@.len(),
    {
        let mut g = groups.remove(0);
        let ghost orig = g.tracks@;
        if g.tracks.len() <= u32::MAX as usize {
            // The random policy's generator draws 32-bit indexes; a
            // queue beyond that is only filtered.
            assemble(&mut g, min, max, order);
            proof {
                lemma_assembled_within_bounds(orig, g.tracks@, min, max, order);
            }
        } else {
            filter_tracks(&mut g, min, max);
            proof {
                lemma_filter_bounds(orig, min, max);
            }
        }
        out.push(g);
    }
    (out, errors)
}

} // verus!
