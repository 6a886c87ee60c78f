//! Filtering, reordering and the deterministic shuffle.
use halkara::audius::track::{Track, User};
use halkara::audius::{OrderedTrack, TrackGroup};
use halkara::queue::{assemble, filter_tracks};
use halkara::utils::{shuffle, shuffle_n, shuffle_seeded, Lcg};
use halkara::PlayOrder;

fn track(id: &str, duration: u32) -> Track {
    Track {
        id: id.to_string(),
        title: format!("title {id}"),
        user: User {
            name: format!("user {id}"),
        },
        duration,
    }
}

fn group(durations: &[u32]) -> TrackGroup {
    let tracks = durations
        .iter()
        .enumerate()
        .map(|(i, d)| OrderedTrack {
            track: track(&format!("t{i}"), *d),
            index: i + 1,
        })
        .collect();
    TrackGroup {
        tracks,
        name: "g".to_string(),
    }
}

fn durations(g: &TrackGroup) -> Vec<u32> {
    g.tracks.iter().map(|t| t.track.duration).collect()
}

#[test]
fn filter_keeps_survivors_in_order() {
    let mut g = group(&[10, 60, 400, 200, 300, 5]);
    filter_tracks(&mut g, Some(30), Some(300));
    assert_eq!(durations(&g), vec![60, 200, 300]);
    // Ranks from resolution time survive the filter.
    let ranks: Vec<usize> = g.tracks.iter().map(|t| t.index).collect();
    assert_eq!(ranks, vec![2, 4, 5]);
    assert_eq!(g.name, "g");
}

#[test]
fn filter_bounds_are_inclusive_and_optional() {
    let mut g = group(&[29, 30, 300, 301]);
    filter_tracks(&mut g, Some(30), Some(300));
    assert_eq!(durations(&g), vec![30, 300]);

    let mut unbounded = group(&[0, 1, 100000]);
    filter_tracks(&mut unbounded, None, None);
    assert_eq!(durations(&unbounded), vec![0, 1, 100000]);

    let mut only_min = group(&[10, 20]);
    filter_tracks(&mut only_min, Some(15), None);
    assert_eq!(durations(&only_min), vec![20]);
}

#[test]
fn ascending_is_identity_descending_is_reverse() {
    let mut asc = group(&[40, 50, 60]);
    assemble(&mut asc, None, None, PlayOrder::Ascending);
    assert_eq!(durations(&asc), vec![40, 50, 60]);

    let mut desc = group(&[40, 50, 60]);
    assemble(&mut desc, None, None, PlayOrder::Descending);
    assert_eq!(durations(&desc), vec![60, 50, 40]);
}

#[test]
fn random_is_a_permutation() {
    let mut g = group(&[1, 2, 3, 4, 5, 6, 7, 8]);
    assemble(&mut g, None, None, PlayOrder::Random);
    let mut ds = durations(&g);
    ds.sort();
    assert_eq!(ds, vec![1, 2, 3, 4, 5, 6, 7, 8]);
}

#[test]
fn seeded_shuffle_is_reproducible() {
    let mut a: Vec<u32> = (0..50).collect();
    let mut b: Vec<u32> = (0..50).collect();
    shuffle_seeded(&mut a, 12345);
    shuffle_seeded(&mut b, 12345);
    assert_eq!(a, b);
    let mut sorted = a.clone();
    sorted.sort();
    let expected: Vec<u32> = (0..50).collect();
    assert_eq!(sorted, expected);

    let mut c: Vec<u32> = (0..50).collect();
    shuffle_seeded(&mut c, 54321);
    assert_ne!(a, c, "different seeds give different orders here");
}

#[test]
fn clock_seeded_shuffle_keeps_elements() {
    let mut v: Vec<u32> = (0..20).collect();
    shuffle(&mut v);
    let mut sorted = v.clone();
    sorted.sort();
    let expected: Vec<u32> = (0..20).collect();
    assert_eq!(sorted, expected);

    let mut w: Vec<u32> = (0..20).collect();
    shuffle_n(&mut w, 3);
    let mut sorted = w.clone();
    sorted.sort();
    assert_eq!(sorted, expected);
}

#[test]
fn small_and_empty_sequences_shuffle() {
    let mut empty: Vec<u32> = vec![];
    shuffle(&mut empty);
    assert!(empty.is_empty());
    let mut one = vec![9u32];
    shuffle_seeded(&mut one, 7);
    assert_eq!(one, vec![9]);
}

#[test]
fn generator_stays_in_range() {
    let mut lcg = Lcg::from_seed(987654321);
    for _ in 0..100 {
        let r = lcg.rand_int_range(7);
        assert!(r < 7);
    }
    // Same seed, same stream.
    let mut a = Lcg::from_seed(42);
    let mut b = Lcg::from_seed(42);
    for _ in 0..10 {
        assert_eq!(a.rand_int_range(1000), b.rand_int_range(1000));
    }
}
