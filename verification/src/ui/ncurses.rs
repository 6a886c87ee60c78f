//! The full-screen renderer: computes the text and the cell positions
//! of the header, the footer and the visible slice of the queue.  The
//! screen itself (and every call into a terminal library) stays with
//! the surrounding application, which draws these placements.
use vstd::prelude::*;

verus! {

use crate::audius::OrderedTrack;
use crate::audius::TrackGroup;
use crate::audius::track::spec_duration_display;
use crate::text::dec_u64_string;
use crate::text::spec_dec;
use crate::ui::utils::pad_left;
use crate::ui::utils::repeat_str;
use crate::ui::utils::spec_pad_left;
use crate::ui::utils::spec_repeat;
use crate::ui::utils::spec_truncate;
use crate::ui::utils::truncate_chars;
use vstd::string::StringExecFns;

/// The full-screen renderer; whether the terminal has colors is learned
/// at setup time by the surrounding application.
pub struct Ncurses {
    pub has_colors: bool,
}

impl Ncurses {
    pub fn new() -> (r: Ncurses)
        ensures
            !r.has_colors,
    {
        Ncurses { has_colors: false }
    }

    /// The header line and the column it is centered at.
    pub fn update_header(&self, header_str: &str, maxx: i32) -> (r: (String, i32))
        ensures
            r.0@ == "Halkara 0.1.0 - "@ + header_str@,
            r.1 == spec_centered_x(maxx as int, r.0@.len() as int),
    {
        let mut text = String::from_str("Halkara 0.1.0 - ");
        text.append(header_str);
        let x = centered_x(maxx, &text);
        (text, x)
    }

    /// The footer line and the column it is centered at.
    pub fn update_footer(&self, footer_str: &str, maxx: i32) -> (r: (String, i32))
        ensures
            r.0@ == footer_str@,
            r.1 == spec_centered_x(maxx as int, r.0@.len() as int),
    {
        let text = String::from_str(footer_str);
        let x = centered_x(maxx, &text);
        (text, x)
    }

    /// The cell placements for the visible slice of the queue around
    /// the current track, exactly: one pair of cells for each queue
    /// entry whose row falls strictly inside the screen (below the
    /// header row, above the footer row) -- the left-aligned line at
    /// column zero and the right-aligned duration at the duration
    /// column -- in queue order, and nothing else.  The current track's
    /// row is the middle row, on-screen whenever the screen has three
    /// rows.  Header and footer come from [`Ncurses::update_header`]
    /// and [`Ncurses::update_footer`].
    pub fn display(
        &self,
        track_groups: &Vec<TrackGroup>,
        group: usize,
        track_index: usize,
        maxy: i32,
        maxx: i32,
    ) -> (r: Vec<(i32, i32, String)>)
        requires
            group < track_groups@.len(),
            track_index < track_groups@[group as int].tracks@.len(),
            maxy >= 2,
            maxx >= 8,
            total_tracks(track_groups@, track_groups@.len() as int) <= 0x7FFFFFFF,
        ensures
            ({
                let total = total_tracks(track_groups@, track_groups@.len() as int) as int;
                let global = total_tracks(track_groups@, group as int) + track_index;
                let mid = maxy as int / 2;
                let flat = flat_upto(track_groups@, track_groups@.len() as int);
                &&& r@.len() == 2 * spec_visible_count(total, global as int, mid, maxy as int)
                &&& forall|q: int|
                    0 <= q < total && #[trigger] spec_visible(q, global as int, mid, maxy as int)
                        ==> spec_cells_ok(r@, q, global as int, mid, maxy as int, maxx as int, flat)
                &&& flat[global as int] == track_groups@[group as int].tracks@[track_index as int]
                &&& (maxy >= 3 ==> spec_visible(global as int, global as int, mid, maxy as int))
            }),
            forall|k: int|
                0 <= k < r@.len() ==> 0 < (#[trigger] r@[k]).0 < maxy - 1 && (0 <= r@[k].1 < maxx),
    {
        let ghost flat = flat_upto(track_groups@, track_groups@.len() as int);
        let mid: i32 = maxy / 2;
        let global = self.global_index(track_groups, group, track_index);
        let mut ops: Vec<(i32, i32, String)> = Vec::new();
        let mut gi: usize = 0;
        let mut seen: usize = 0;
        while gi < track_groups.len()
            invariant
                0 <= gi <= track_groups@.len(),
                seen == total_tracks(track_groups@, gi as int),
                total_tracks(track_groups@, track_groups@.len() as int) <= 0x7FFFFFFF,
                global < 0x7FFFFFFF,
                maxy >= 2,
                maxx >= 8,
                mid == maxy / 2,
                flat == flat_upto(track_groups@, track_groups@.len() as int),
                ops@.len() == 2 * spec_visible_count(
                    seen as int,
                    global as int,
                    mid as int,
                    maxy as int,
                ),
                forall|q: int|
                    0 <= q < seen && #[trigger] spec_visible(
                        q,
                        global as int,
                        mid as int,
                        maxy as int,
                    ) ==> spec_cells_ok(
                        ops@,
                        q,
                        global as int,
                        mid as int,
                        maxy as int,
                        maxx as int,
                        flat,
                    ),
                forall|k: int|
                    0 <= k < ops@.len() ==> 0 < (#[trigger] ops@[k]).0 < maxy - 1 && (0 <= ops@[k].1
                        < maxx),
            decreases track_groups@.len() - gi,
        {
            let tracks = &track_groups[gi].tracks;
            let mut ti: usize = 0;
            proof {
                assert(total_tracks(track_groups@, gi as int + 1) == total_tracks(
                    track_groups@,
                    gi as int,
                ) + track_groups@[gi as int].tracks@.len());
                lemma_total_tracks_mono(track_groups@, gi as int + 1, track_groups@.len() as int);
            }
            while ti < tracks.len()
                invariant
                    0 <= ti <= tracks@.len(),
                    tracks@ == track_groups@[gi as int].tracks@,
                    0 <= gi < track_groups@.len(),
                    seen == total_tracks(track_groups@, gi as int),
                    seen + tracks@.len() <= total_tracks(track_groups@, track_groups@.len() as int),
                    total_tracks(track_groups@, track_groups@.len() as int) <= 0x7FFFFFFF,
                    global < 0x7FFFFFFF,
                    maxy >= 2,
                    maxx >= 8,
                    mid == maxy / 2,
                    flat == flat_upto(track_groups@, track_groups@.len() as int),
                    ops@.len() == 2 * spec_visible_count(
                        seen + ti as int,
                        global as int,
                        mid as int,
                        maxy as int,
                    ),
                    forall|q: int|
                        0 <= q < seen + ti && #[trigger] spec_visible(
                            q,
                            global as int,
                            mid as int,
                            maxy as int,
                        ) ==> spec_cells_ok(
                            ops@,
                            q,
                            global as int,
                            mid as int,
                            maxy as int,
                            maxx as int,
                            flat,
                        ),
                    forall|k: int|
                        0 <= k < ops@.len() ==> 0 < (#[trigger] ops@[k]).0 < maxy - 1 && (0
                            <= ops@[k].1 < maxx),
                decreases tracks@.len() - ti,
            {
                let ghost q0 = seen + ti as int;
                proof {
                    lemma_flat_index(track_groups@, gi as int, ti as int);
                }
                let row_wide: i64 = (seen + ti) as i64 - global as i64 + mid as i64;
                if 0 < row_wide && row_wide < (maxy - 1) as i64 {
                    let row = row_wide as i32;
                    let line = ncurses_line(&tracks[ti], maxx);
                    let dur = ncurses_duration(&tracks[ti]);
                    proof {
                        assert(spec_visible(q0, global as int, mid as int, maxy as int));
                    }
                    ops.push((row, 0, line));
                    ops.push((row, maxx - 7, dur));
                    proof {
                        assert(spec_visible_count(q0 + 1, global as int, mid as int, maxy as int)
                            == spec_visible_count(q0, global as int, mid as int, maxy as int) + 1);
                        assert(spec_cells_ok(
                            ops@,
                            q0,
                            global as int,
                            mid as int,
                            maxy as int,
                            maxx as int,
                            flat,
                        ));
                    }
                } else {
                    proof {
                        assert(!spec_visible(q0, global as int, mid as int, maxy as int));
                        assert(spec_visible_count(q0 + 1, global as int, mid as int, maxy as int)
                            == spec_visible_count(q0, global as int, mid as int, maxy as int));
                    }
                }
                ti = ti + 1;
            }
            seen = seen + tracks.len();
            proof {
                assert(total_tracks(track_groups@, gi as int + 1) == total_tracks(
                    track_groups@,
                    gi as int,
                ) + track_groups@[gi as int].tracks@.len());
            }
            gi = gi + 1;
        }
        proof {
            lemma_flat_index(track_groups@, group as int, track_index as int);
        }
        ops
    }

    /// How many tracks of the queue lie before the given position.
    fn global_index(&self, track_groups: &Vec<TrackGroup>, group: usize, track_index: usize) -> (r:
        usize)
        requires
            group < track_groups@.len(),
            track_index < track_groups@[group as int].tracks@.len(),
            total_tracks(track_groups@, track_groups@.len() as int) <= 0x7FFFFFFF,
        ensures
            r == total_tracks(track_groups@, group as int) + track_index,
            r < 0x7FFFFFFF,
    {
        let mut acc: usize = 0;
        let mut gi: usize = 0;
        proof {
            assert(total_tracks(track_groups@, group as int + 1) == total_tracks(
                track_groups@,
                group as int,
            ) + track_groups@[group as int].tracks@.len());
            lemma_total_tracks_mono(track_groups@, group as int + 1, track_groups@.len() as int);
        }
        while gi < group
            invariant
                0 <= gi <= group < track_groups@.len(),
                acc == total_tracks(track_groups@, gi as int),
                total_tracks(track_groups@, group as int) + track_index < 0x7FFFFFFF,
            decreases group - gi,
        {
            proof {
                lemma_total_tracks_mono(track_groups@, gi as int + 1, group as int);
                assert(total_tracks(track_groups@, gi as int + 1) == total_tracks(
                    track_groups@,
                    gi as int,
                ) + track_groups@[gi as int].tracks@.len());
            }
            acc = acc + track_groups[gi].tracks.len();
            gi = gi + 1;
        }
        acc + track_index
    }
}

/// The tracks held by the first `upto` groups, counted together.
pub open spec fn total_tracks(groups: Seq<TrackGroup>, upto: int) -> nat
    decreases upto,
{
    if upto <= 0 {
        0
    } else {
        total_tracks(groups, upto - 1) + groups[upto - 1].tracks@.len()
    }
}

/// The tracks of the first `upto` groups, as one sequence in queue
/// order.
pub open spec fn flat_upto(groups: Seq<TrackGroup>, upto: int) -> Seq<OrderedTrack>
    decreases upto,
{
    if upto <= 0 {
        Seq::empty()
    } else {
        flat_upto(groups, upto - 1) + groups[upto - 1].tracks@
    }
}

/// Whether the queue entry at global position `q` is on-screen when the
/// entry at `global` sits at row `mid`: its row lies strictly between
/// the header row and the footer row.
pub open spec fn spec_visible(q: int, global: int, mid: int, maxy: int) -> bool {
    0 < q - global + mid < maxy - 1
}

/// How many of the first `q` queue entries are on-screen.
pub open spec fn spec_visible_count(q: int, global: int, mid: int, maxy: int) -> nat
    decreases q,
{
    if q <= 0 {
        0
    } else {
        spec_visible_count(q - 1, global, mid, maxy) + (if spec_visible(q - 1, global, mid, maxy) {
            1nat
        } else {
            0nat
        })
    }
}

/// The two cells the on-screen queue entry `q` contributes: its line at
/// column zero and its duration at the duration column, both at its
/// row, placed right after the cells of the on-screen entries before
/// it.
pub open spec fn spec_cells_ok(
    ops: Seq<(i32, i32, String)>,
    q: int,
    global: int,
    mid: int,
    maxy: int,
    maxx: int,
    flat: Seq<OrderedTrack>,
) -> bool {
    let j = 2 * spec_visible_count(q, global, mid, maxy) as int;
    &&& j + 1 < ops.len()
    &&& ops[j].0 == q - global + mid
    &&& ops[j].1 == 0
    &&& ops[j].2@ == spec_ncurses_line(flat[q], maxx)
    &&& ops[j + 1].0 == q - global + mid
    &&& ops[j + 1].1 == maxx - 7
    &&& ops[j + 1].2@ == spec_ncurses_duration(flat[q])
}

/// The flattened prefix has exactly the counted length.
proof fn lemma_flat_len(groups: Seq<TrackGroup>, upto: int)
    ensures
        flat_upto(groups, upto).len() == total_tracks(groups, upto),
    decreases upto,
{
    if upto > 0 {
        lemma_flat_len(groups, upto - 1);
    }
}

/// A longer flattened prefix extends a shorter one.
proof fn lemma_flat_prefix(groups: Seq<TrackGroup>, a: int, b: int)
    requires
        a <= b,
    ensures
        forall|i: int|
            0 <= i < flat_upto(groups, a).len() ==> #[trigger] flat_upto(groups, b)[i]
                == flat_upto(groups, a)[i],
        flat_upto(groups, a).len() <= flat_upto(groups, b).len(),
    decreases b - a,
{
    if a < b {
        lemma_flat_prefix(groups, a, b - 1);
    }
}

/// The queue entry at global position `total_tracks(groups, g) + t` is
/// track `t` of group `g`.
proof fn lemma_flat_index(groups: Seq<TrackGroup>, g: int, t: int)
    requires
        0 <= g < groups.len(),
        0 <= t < groups[g].tracks@.len(),
    ensures
        total_tracks(groups, g) + t < flat_upto(groups, groups.len() as int).len(),
        flat_upto(groups, groups.len() as int)[total_tracks(groups, g) + t]
            == groups[g].tracks@[t],
{
    lemma_flat_len(groups, g);
    lemma_flat_len(groups, groups.len() as int);
    lemma_total_tracks_mono(groups, g + 1, groups.len() as int);
    assert(flat_upto(groups, g + 1) == flat_upto(groups, g) + groups[g].tracks@);
    assert(flat_upto(groups, g + 1)[total_tracks(groups, g) + t] == groups[g].tracks@[t]);
    lemma_flat_prefix(groups, g + 1, groups.len() as int);
    lemma_flat_len(groups, g + 1);
}

proof fn lemma_total_tracks_mono(groups: Seq<TrackGroup>, a: int, b: int)
    requires
        a <= b,
    ensures
        total_tracks(groups, a) <= total_tracks(groups, b),
    decreases b - a,
{
    if a < b {
        lemma_total_tracks_mono(groups, a, b - 1);
    }
}

/// The column a text of the given length is centered at, clamped at
/// the left edge.
pub open spec fn spec_centered_x(maxx: int, len: int) -> int {
    if maxx > len {
        (maxx - len) / 2
    } else {
        0
    }
}

fn centered_x(maxx: i32, text: &String) -> (r: i32)
    ensures
        r == spec_centered_x(maxx as int, text@.len() as int),
{
    let len = text.as_str().unicode_len();
    if 0 <= maxx && len < 0x7FFFFFFF && (maxx as usize) > len {
        ((maxx as usize - len) / 2) as i32
    } else {
        proof {
            assert(maxx <= text@.len());
        }
        0
    }
}

/// A queue entry's line: the rank right-aligned to four columns, artist
/// and title, padded out with blanks and cut so the duration column
/// stays free.
pub open spec fn spec_ncurses_line(t: OrderedTrack, maxx: int) -> Seq<char> {
    spec_truncate(
        spec_pad_left(spec_dec(t.index as nat), 4, seq![' ']) + seq![' '] + t.track.user.name@
            + seq![' ', '-', ' '] + t.track.title@ + spec_repeat(seq![' '], maxx as nat),
        (maxx - 7) as nat,
    )
}

fn ncurses_line(t: &OrderedTrack, maxx: i32) -> (r: String)
    requires
        maxx >= 8,
    ensures
        r@ == spec_ncurses_line(*t, maxx as int),
{
    proof {
        reveal_strlit(" ");
        reveal_strlit(" - ");
        assert(" "@ =~= seq![' ']);
        assert(" - "@ =~= seq![' ', '-', ' ']);
    }
    let rank_str = dec_u64_string(t.index as u64);
    let mut line = pad_left(rank_str.as_str(), 4, " ");
    line.append(" ");
    line.append(t.track.user.name.as_str());
    line.append(" - ");
    line.append(t.track.title.as_str());
    let blanks = repeat_str(" ", maxx as usize);
    line.append(blanks.as_str());
    truncate_chars(line.as_str(), (maxx - 7) as usize)
}

/// A queue entry's duration cell: a blank, then the duration display
/// right-aligned to six columns, cut to seven columns in all.
pub open spec fn spec_ncurses_duration(t: OrderedTrack) -> Seq<char> {
    spec_truncate(
        seq![' '] + spec_pad_left(spec_duration_display(t.track.duration), 6, seq![' ']),
        7,
    )
}

fn ncurses_duration(t: &OrderedTrack) -> (r: String)
    ensures
        r@ == spec_ncurses_duration(*t),
{
    proof {
        reveal_strlit(" ");
        assert(" "@ =~= seq![' ']);
    }
    let dur = t.track.get_duration();
    let padded = pad_left(dur.as_str(), 6, " ");
    let mut cell = String::from_str(" ");
    cell.append(padded.as_str());
    truncate_chars(cell.as_str(), 7)
}

} // verus!
