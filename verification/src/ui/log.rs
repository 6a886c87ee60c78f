//! The log renderer: a banner with the track's rank, then one labelled
//! line each for title, artist and duration.
use vstd::prelude::*;

verus! {

use crate::audius::TrackGroup;
use crate::audius::track::spec_duration_display;
use crate::text::dec_u64_string;
use crate::text::spec_dec;
use crate::ui::HalkaraUi;
use crate::ui::utils::pad_left;
use crate::ui::utils::repeat_str;
use crate::ui::utils::spec_pad_left;
use crate::ui::utils::spec_repeat;
use vstd::string::StringExecFns;

/// The log renderer.
pub struct Log {
}

impl Log {
    pub fn new() -> Log {
        Log {  }
    }
}

/// The rank banner: a line of `=` on both sides of ` #rrr ` (the rank
/// zero-padded to three digits), one more `=` when the width is not
/// met exactly.
pub open spec fn spec_rank_line(rank: nat, width: nat) -> Seq<char> {
    let half = if width >= 6 {
        ((width - 6) as nat) / 2
    } else {
        0
    };
    spec_repeat(seq!['='], half) + seq![' ', '#'] + spec_pad_left(spec_dec(rank), 3, seq!['0'])
        + seq![' '] + spec_repeat(seq!['='], half) + (if half * 2 + 6 != width {
        seq!['=']
    } else {
        Seq::empty()
    })
}

/// Builds the rank banner for the given terminal width.
pub fn rank_line(rank: usize, width: u16) -> (r: String)
    ensures
        r@ == spec_rank_line(rank as nat, width as nat),
{
    proof {
        reveal_strlit("=");
        reveal_strlit("0");
        reveal_strlit(" #");
        reveal_strlit(" ");
        assert("="@ =~= seq!['=']);
        assert("0"@ =~= seq!['0']);
        assert(" #"@ =~= seq![' ', '#']);
        assert(" "@ =~= seq![' ']);
    }
    let half: usize = if width >= 6 {
        ((width - 6) / 2) as usize
    } else {
        0
    };
    let mut line = repeat_str("=", half);
    line.append(" #");
    let rank_str = dec_u64_string(rank as u64);
    let padded = pad_left(rank_str.as_str(), 3, "0");
    line.append(padded.as_str());
    line.append(" ");
    let second = repeat_str("=", half);
    line.append(second.as_str());
    if half * 2 + 6 != width as usize {
        line.append("=");
    }
    line
}

/// The labelled lines for a track: an empty spacer, the rank banner,
/// then title, artist and duration.
pub fn log_lines(track_groups: &Vec<TrackGroup>, group: usize, track_index: usize, width: u16) -> (r:
    Vec<String>)
    requires
        group < track_groups@.len(),
        track_index < track_groups@[group as int].tracks@.len(),
    ensures
        r@.len() == 5,
        r@[0]@ == Seq::<char>::empty(),
        r@[1]@ == spec_rank_line(
            track_groups@[group as int].tracks@[track_index as int].index as nat,
            width as nat,
        ),
        r@[2]@ == "Title: "@ + track_groups@[group as int].tracks@[track_index as int].track.title@,
        r@[3]@ == "User: "@
            + track_groups@[group as int].tracks@[track_index as int].track.user.name@,
        r@[4]@ == "Duration: "@ + spec_duration_display(
            track_groups@[group as int].tracks@[track_index as int].track.duration,
        ),
{
    let ot = &track_groups[group].tracks[track_index];
    let mut lines: Vec<String> = Vec::new();
    lines.push(String::new());
    lines.push(rank_line(ot.index, width));
    let mut title = String::from_str("Title: ");
    title.append(ot.track.title.as_str());
    lines.push(title);
    let mut user = String::from_str("User: ");
    user.append(ot.track.user.name.as_str());
    lines.push(user);
    let mut duration = String::from_str("Duration: ");
    let dur = ot.track.get_duration();
    duration.append(dur.as_str());
    lines.push(duration);
    lines
}

impl HalkaraUi for Log {
    fn display(
        &self,
        track_groups: &Vec<TrackGroup>,
        group: usize,
        track_index: usize,
        width: u16,
    ) -> Vec<String> {
        log_lines(track_groups, group, track_index, width)
    }

    fn error(&self, msg: &str) -> String {
        String::from_str(msg)
    }
}

} // verus!
