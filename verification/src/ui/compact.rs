//! The compact renderer: one line per track.
use vstd::prelude::*;

verus! {

use crate::audius::TrackGroup;
use crate::audius::track::spec_duration_display;
use crate::text::spec_dec;
use crate::ui::HalkaraUi;
use crate::ui::utils::pad_left;
use crate::ui::utils::spec_pad_left;
use crate::ui::utils::spec_truncate;
use crate::ui::utils::truncate_chars;
use crate::text::dec_u64_string;
use vstd::string::StringExecFns;

/// The compact renderer.
pub struct Compact {
}

impl Compact {
    pub fn new() -> Compact {
        Compact {  }
    }
}

/// The compact line for a track: the rank right-aligned to three
/// columns, the duration display cut and right-aligned to six columns
/// in brackets, then artist and title.
pub open spec fn spec_compact_line(
    rank: nat,
    dur: Seq<char>,
    user: Seq<char>,
    title: Seq<char>,
) -> Seq<char> {
    spec_pad_left(spec_dec(rank), 3, seq![' ']) + seq![' ', '['] + spec_pad_left(
        spec_truncate(dur, 6),
        6,
        seq![' '],
    ) + seq![']', ' '] + user + seq![' ', '-', ' '] + title
}

/// Builds the compact line for the track at `track_index` of `group`.
pub fn compact_line(track_groups: &Vec<TrackGroup>, group: usize, track_index: usize) -> (r: String)
    requires
        group < track_groups@.len(),
        track_index < track_groups@[group as int].tracks@.len(),
    ensures
        r@ == spec_compact_line(
            track_groups@[group as int].tracks@[track_index as int].index as nat,
            spec_duration_display(
                track_groups@[group as int].tracks@[track_index as int].track.duration,
            ),
            track_groups@[group as int].tracks@[track_index as int].track.user.name@,
            track_groups@[group as int].tracks@[track_index as int].track.title@,
        ),
{
    proof {
        reveal_strlit(" ");
        reveal_strlit(" [");
        reveal_strlit("] ");
        reveal_strlit(" - ");
        assert(" "@ =~= seq![' ']);
        assert(" ["@ =~= seq![' ', '[']);
        assert("] "@ =~= seq![']', ' ']);
        assert(" - "@ =~= seq![' ', '-', ' ']);
    }
    let ot = &track_groups[group].tracks[track_index];
    let rank_str = dec_u64_string(ot.index as u64);
    let duration = ot.track.get_duration();
    let dur_cut = truncate_chars(duration.as_str(), 6);
    let mut line = pad_left(rank_str.as_str(), 3, " ");
    line.append(" [");
    let dur_part = pad_left(dur_cut.as_str(), 6, " ");
    line.append(dur_part.as_str());
    line.append("] ");
    line.append(ot.track.user.name.as_str());
    line.append(" - ");
    line.append(ot.track.title.as_str());
    line
}

impl HalkaraUi for Compact {
    fn display(
        &self,
        track_groups: &Vec<TrackGroup>,
        group: usize,
        track_index: usize,
        _width: u16,
    ) -> Vec<String> {
        let mut lines: Vec<String> = Vec::new();
        lines.push(compact_line(track_groups, group, track_index));
        lines
    }

    fn error(&self, msg: &str) -> String {
        String::from_str(msg)
    }
}

} // verus!
