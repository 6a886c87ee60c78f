//! The endpoint cache, the response shapes, and the trending name.
use halkara::audius::playlist::{playlist_response_of_json, playlist_tracks_url};
use halkara::audius::track::{stream_url, tracks_of_json, tracks_response_of_json};
use halkara::audius::trending::{trending_name, trending_params, trending_url};
use halkara::audius::user::{user_response_of_json, user_tracks_url};
use halkara::audius::{
    base_params, classify_response, ranked_group, resolve_params, resolve_url, ApiCache,
    ResponseShape,
};
use halkara::json::{obj_get, parse_json};
use halkara::queue::assemble;
use halkara::PlayOrder;

#[test]
fn cache_serves_fresh_entry_without_discovery() {
    let mut cache = ApiCache::new();
    assert!(cache.lookup(1000).is_none());
    cache.adopt("https://node.example/v1/".to_string(), 1000);
    // Two reads within the same second: the identical URL, no network.
    let a = cache.get_base_url_at(1000).expect("fresh entry");
    let b = cache.get_base_url_at(1000).expect("fresh entry");
    assert_eq!(a, "https://node.example/v1/");
    assert_eq!(a, b);
    // Still fresh just under an hour later.
    assert_eq!(
        cache.lookup(1000 + 3599),
        Some("https://node.example/v1/".to_string())
    );
    // Stale one hour later: a lookup refuses, a refresh would follow.
    assert!(cache.lookup(1000 + 3600).is_none());
    // A clock that moved backwards counts as stale.
    assert!(cache.lookup(999).is_none());
}

const TRACKS_BODY: &[u8] = b"{\"data\": [\
    {\"id\": \"a1\", \"title\": \"First\", \"duration\": 45, \"user\": {\"name\": \"Ann\"}},\
    {\"id\": \"b2\", \"title\": \"Second\", \"duration\": 250, \"user\": {\"name\": \"Ben\"}}\
]}";

const PLAYLIST_BODY: &[u8] = b"{\"data\": [\
    {\"id\": \"p1\", \"playlist_name\": \"Morning\", \"extra\": 1},\
    {\"id\": \"p2\", \"playlist_name\": \"Evening\"}\
]}";

const USER_BODY: &[u8] = b"{\"data\": {\"id\": \"u9\", \"name\": \"Cleo\", \"bio\": null}}";

#[test]
fn tracks_shape_decodes_with_extra_fields_ignored() {
    let parsed = parse_json(&TRACKS_BODY.to_vec()).expect("body parses");
    let resp = tracks_response_of_json(&parsed).expect("tracks shape");
    assert_eq!(resp.data.len(), 2);
    assert_eq!(resp.data[0].title, "First");
    assert_eq!(resp.data[0].user.name, "Ann");
    assert_eq!(resp.data[0].duration, 45);
    assert_eq!(resp.data[1].id, "b2");

    let group = resp.track_group();
    assert_eq!(group.name, "Single track");
    assert_eq!(group.tracks.len(), 2);
    assert_eq!(group.tracks[0].index, 1);
    assert_eq!(group.tracks[1].index, 2);
    assert_eq!(group.tracks[1].track.title, "Second");
}

#[test]
fn tracks_shape_rejects_malformed_members() {
    // A track without a duration fails the whole shape, as strict
    // structured decoding would.
    let body = b"{\"data\": [{\"id\": \"a\", \"title\": \"T\", \"user\": {\"name\": \"N\"}}]}";
    let parsed = parse_json(&body.to_vec()).expect("body parses");
    assert!(tracks_response_of_json(&parsed).is_none());
    // A fractional duration is not a plain integer.
    let body2 =
        b"{\"data\": [{\"id\": \"a\", \"title\": \"T\", \"duration\": 4.5, \"user\": {\"name\": \"N\"}}]}";
    let parsed2 = parse_json(&body2.to_vec()).expect("body parses");
    assert!(tracks_response_of_json(&parsed2).is_none());
}

#[test]
fn invalid_utf8_in_a_title_fails_the_shape() {
    // A title whose bytes are not UTF-8 cannot become a string.
    let mut body = b"{\"data\": [{\"id\": \"a\", \"title\": \"".to_vec();
    body.push(0xFF);
    body.extend_from_slice(b"\", \"duration\": 9, \"user\": {\"name\": \"N\"}}]}");
    let parsed = parse_json(&body).expect("the bytes still parse as JSON");
    assert!(tracks_response_of_json(&parsed).is_none());
}

#[test]
fn dispatch_picks_shapes_in_order() {
    let playlist = parse_json(&PLAYLIST_BODY.to_vec()).expect("parses");
    match classify_response(&playlist) {
        ResponseShape::PlaylistShape(p) => {
            assert_eq!(p.data.len(), 2);
            assert_eq!(p.data[0].playlist_name, "Morning");
            assert_eq!(p.data[1].id, "p2");
        }
        _ => panic!("expected the playlist shape"),
    }

    let tracks = parse_json(&TRACKS_BODY.to_vec()).expect("parses");
    match classify_response(&tracks) {
        ResponseShape::TracksShape(t) => assert_eq!(t.data.len(), 2),
        _ => panic!("expected the single-track-list shape"),
    }

    let user = parse_json(&USER_BODY.to_vec()).expect("parses");
    match classify_response(&user) {
        ResponseShape::UserShape(u) => {
            assert_eq!(u.data.id, "u9");
            assert_eq!(u.data.name, "Cleo");
        }
        _ => panic!("expected the user shape"),
    }

    let neither = parse_json(&b"{\"data\": 42}".to_vec()).expect("parses");
    assert!(matches!(
        classify_response(&neither),
        ResponseShape::Unknown
    ));

    let decoded = playlist_response_of_json(&user);
    assert!(decoded.is_none(), "a user body is not a playlist body");
    assert!(user_response_of_json(&tracks).is_none());
}

#[test]
fn query_parameters_carry_only_what_is_set() {
    assert_eq!(
        base_params(),
        vec![("app_name".to_string(), "Halkara".to_string())]
    );
    // Genre and time are sent exactly when non-empty: an empty value
    // would act as a filter that matches nothing.
    assert_eq!(
        trending_params("", ""),
        vec![("app_name".to_string(), "Halkara".to_string())]
    );
    assert_eq!(
        trending_params("pop", ""),
        vec![
            ("app_name".to_string(), "Halkara".to_string()),
            ("genre".to_string(), "pop".to_string()),
        ]
    );
    assert_eq!(
        trending_params("", "month"),
        vec![
            ("app_name".to_string(), "Halkara".to_string()),
            ("time".to_string(), "month".to_string()),
        ]
    );
    assert_eq!(
        trending_params("pop", "month"),
        vec![
            ("app_name".to_string(), "Halkara".to_string()),
            ("genre".to_string(), "pop".to_string()),
            ("time".to_string(), "month".to_string()),
        ]
    );
    assert_eq!(
        resolve_params("https://example/track"),
        vec![
            ("app_name".to_string(), "Halkara".to_string()),
            ("url".to_string(), "https://example/track".to_string()),
        ]
    );
    assert_eq!(
        trending_url("https://node.example/v1/"),
        "https://node.example/v1/tracks/trending"
    );
    assert_eq!(resolve_url("https://node.example/v1/"), "https://node.example/v1/resolve");
    assert_eq!(
        stream_url("https://node.example/v1/", "a1"),
        "https://node.example/v1/tracks/a1/stream"
    );
    assert_eq!(
        playlist_tracks_url("https://node.example/v1/", "p1"),
        "https://node.example/v1/playlists/p1/tracks"
    );
    assert_eq!(
        user_tracks_url("https://node.example/v1/", "u9"),
        "https://node.example/v1/users/u9/tracks"
    );
}

#[test]
fn trending_names_map_three_ways() {
    assert_eq!(trending_name("month"), "Trending tracks of this month");
    assert_eq!(trending_name("MONTH"), "Trending tracks of this month");
    assert_eq!(trending_name("allTime"), "Trending tracks of all time");
    assert_eq!(trending_name("alltime"), "Trending tracks of all time");
    assert_eq!(trending_name("week"), "Trending tracks of this week");
    assert_eq!(trending_name(""), "Trending tracks of this week");
    assert_eq!(trending_name("year"), "Trending tracks of this week");
}

#[test]
fn trending_month_scenario_filters_and_reverses() {
    // The response of a trending query for genre pop over a month,
    // already decoded; durations 10, 60, 400, 200, 300 seconds.
    let body = b"{\"data\": [\
        {\"id\": \"t1\", \"title\": \"One\", \"duration\": 10, \"user\": {\"name\": \"A\"}},\
        {\"id\": \"t2\", \"title\": \"Two\", \"duration\": 60, \"user\": {\"name\": \"B\"}},\
        {\"id\": \"t3\", \"title\": \"Three\", \"duration\": 400, \"user\": {\"name\": \"C\"}},\
        {\"id\": \"t4\", \"title\": \"Four\", \"duration\": 200, \"user\": {\"name\": \"D\"}},\
        {\"id\": \"t5\", \"title\": \"Five\", \"duration\": 300, \"user\": {\"name\": \"E\"}}\
    ]}";
    let parsed = parse_json(&body.to_vec()).expect("parses");
    let data = obj_get(&parsed, b"data").expect("data member");
    let tracks = tracks_of_json(data).expect("track array");
    let mut group = ranked_group(tracks, trending_name("month"));
    assert_eq!(group.name, "Trending tracks of this month");

    assemble(&mut group, Some(30), Some(300), PlayOrder::Descending);
    let durations: Vec<u32> = group.tracks.iter().map(|t| t.track.duration).collect();
    assert_eq!(durations, vec![300, 200, 60]);
    // The ranks assigned at resolution time, now in reverse.
    let ranks: Vec<usize> = group.tracks.iter().map(|t| t.index).collect();
    assert_eq!(ranks, vec![5, 4, 2]);
    assert!(durations.iter().all(|d| (30..=300).contains(d)));
}
