//! The renderers' computed text and the text helpers.
use halkara::audius::track::{Track, User};
use halkara::audius::{OrderedTrack, TrackGroup};
use halkara::text::dec_u64_string;
use halkara::ui::compact::{compact_line, Compact};
use halkara::ui::log::{log_lines, rank_line, Log};
use halkara::ui::ncurses::Ncurses;
use halkara::ui::utils::{pad_left, repeat_str, truncate_chars};
use halkara::ui::HalkaraUi;

fn sample_groups() -> Vec<TrackGroup> {
    vec![TrackGroup {
        tracks: vec![
            OrderedTrack {
                track: Track {
                    id: "x1".to_string(),
                    title: "Song".to_string(),
                    user: User {
                        name: "Artist".to_string(),
                    },
                    duration: 125,
                },
                index: 3,
            },
            OrderedTrack {
                track: Track {
                    id: "x2".to_string(),
                    title: "Another".to_string(),
                    user: User {
                        name: "Band".to_string(),
                    },
                    duration: 59,
                },
                index: 12,
            },
        ],
        name: "g".to_string(),
    }]
}

#[test]
fn durations_render_as_minutes_and_seconds() {
    let groups = sample_groups();
    assert_eq!(groups[0].tracks[0].track.get_duration(), "2:05");
    assert_eq!(groups[0].tracks[1].track.get_duration(), "0:59");
    let long = Track {
        id: "x".to_string(),
        title: "t".to_string(),
        user: User {
            name: "u".to_string(),
        },
        duration: 600,
    };
    assert_eq!(long.get_duration(), "10:00");
}

#[test]
fn decimal_rendering() {
    assert_eq!(dec_u64_string(0), "0");
    assert_eq!(dec_u64_string(7), "7");
    assert_eq!(dec_u64_string(1234), "1234");
    assert_eq!(dec_u64_string(u64::MAX), "18446744073709551615");
}

#[test]
fn text_helpers() {
    assert_eq!(pad_left("7", 3, " "), "  7");
    assert_eq!(pad_left("1234", 3, " "), "1234");
    assert_eq!(pad_left("7", 3, "0"), "007");
    assert_eq!(repeat_str("=", 4), "====");
    assert_eq!(repeat_str("=", 0), "");
    assert_eq!(truncate_chars("abcdef", 4), "abcd");
    assert_eq!(truncate_chars("ab", 4), "ab");
}

#[test]
fn compact_lines() {
    let groups = sample_groups();
    assert_eq!(compact_line(&groups, 0, 0), "  3 [  2:05] Artist - Song");
    assert_eq!(compact_line(&groups, 0, 1), " 12 [  0:59] Band - Another");
    let ui = Compact::new();
    let lines = ui.display(&groups, 0, 0, 80);
    assert_eq!(lines, vec!["  3 [  2:05] Artist - Song".to_string()]);
    assert_eq!(ui.error("boom"), "boom");
}

#[test]
fn rank_banner_and_log_lines() {
    // Width 20: seven '=' on each side around " #005 ", no filler.
    assert_eq!(rank_line(5, 20), "======= #005 =======");
    // Width 21: the filler evens out the odd column.
    assert_eq!(rank_line(5, 21), "======= #005 ========");
    // Tiny widths degrade to the bare banner.
    assert_eq!(rank_line(5, 0), " #005 =");

    let groups = sample_groups();
    let lines = log_lines(&groups, 0, 0, 20);
    assert_eq!(
        lines,
        vec![
            "".to_string(),
            "======= #003 =======".to_string(),
            "Title: Song".to_string(),
            "User: Artist".to_string(),
            "Duration: 2:05".to_string(),
        ]
    );
    let ui = Log::new();
    assert_eq!(ui.display(&groups, 0, 0, 20), lines);
}

#[test]
fn ncurses_placements() {
    let ui = Ncurses::new();
    assert!(!ui.has_colors);
    let (header, x) = ui.update_header("Idle", 40);
    assert_eq!(header, "Halkara 0.1.0 - Idle");
    assert_eq!(x, 10);
    let (footer, fx) = ui.update_footer("Welcome!", 40);
    assert_eq!(footer, "Welcome!");
    assert_eq!(fx, 16);
    // A text wider than the screen sits at the left edge.
    let (_, clamped) = ui.update_footer("a very long footer text", 4);
    assert_eq!(clamped, 0);

    let groups = sample_groups();
    let ops = ui.display(&groups, 0, 0, 10, 40);
    // Both queue entries are on-screen: two cells each, in queue order.
    assert_eq!(ops.len(), 4);
    for (row, col, text) in &ops {
        assert!(*row > 0 && *row < 9);
        assert!(*col == 0 || *col == 33);
        assert!(!text.is_empty());
    }
    // The current track sits at the middle row.
    let mid_line = ops
        .iter()
        .find(|(row, col, _)| *row == 5 && *col == 0)
        .expect("a line at the middle row");
    assert!(mid_line.2.starts_with("   3 Artist - Song"));
    let mid_dur = ops
        .iter()
        .find(|(row, col, _)| *row == 5 && *col == 33)
        .expect("a duration at the middle row");
    assert_eq!(mid_dur.2, "   2:05");
}
