//! The music catalog: endpoint discovery and caching, and the resolver
//! that turns user-supplied identifiers into ordered track groups.
use vstd::prelude::*;

pub mod playlist;
pub mod track;
pub mod trending;
pub mod user;

verus! {

use crate::http::TransportError;
use crate::http::http_get;
use crate::json::Json;
use crate::json::JsonV;
use crate::json::jv;
use crate::json::jvs;
use crate::json::lemma_jvs_props;
use crate::json::parse_json;
use crate::json::spec_obj_get;
use crate::json::obj_get;
use crate::text::clone_bytes;
use crate::text::utf8_string;
use crate::utils::now_unix_secs;
use crate::audius::track::Track;
use vstd::utf8::valid_utf8;
use vstd::utf8::decode_utf8;

/// The application name every request carries.
pub const APP_NAME: &'static str = "Halkara";

/// A track together with the 1-based rank it had when its group was
/// resolved.  The rank survives filtering and reordering, for display.
pub struct OrderedTrack {
    pub track: Track,
    pub index: usize,
}

/// A named, ordered collection of tracks sharing a common origin.
pub struct TrackGroup {
    pub tracks: Vec<OrderedTrack>,
    pub name: String,
}

/// Ranks as the resolver assigns them: 1-based, in order.
pub open spec fn ranks_ok(tracks: Seq<OrderedTrack>) -> bool {
    forall|k: int| 0 <= k < tracks.len() ==> #[trigger] tracks[k].index == k + 1
}

/// Endpoint discovery failed, so nothing can be fetched.
#[derive(Debug)]
pub enum DiscoveryError {
    /// The directory of candidate endpoints could not be fetched.
    Directory(TransportError),
    /// The directory's response was not the expected list of URLs.
    BadDirectory,
    /// Every candidate was probed and none answered with a structurally
    /// valid response; carries how many were tried.
    Exhausted(usize),
}

/// Fetching a track's audio stream failed.
#[derive(Debug)]
pub enum StreamError {
    Discovery(DiscoveryError),
    Transport(TransportError),
}

/// Resolving one identifier failed.  One failing identifier among many
/// is reported and skipped; the others still resolve.
#[derive(Debug)]
pub enum ResolveError {
    Discovery(DiscoveryError),
    Transport(TransportError),
    /// The response matched none of the known shapes; carries the
    /// identifier that could not be resolved.
    UnknownShape(String),
    /// A dependent fetch answered with a malformed body.
    BadResponse,
}

/// The memoized API endpoint: a base URL and the time it was adopted.
/// While the entry is younger than an hour it is served as is; after
/// that, a call triggers one new discovery round.
pub struct ApiCache {
    pub url: String,
    pub timestamp: Option<u64>,
}

/// How long an adopted endpoint stays fresh, in seconds.
pub const CACHE_FRESH_SECS: u64 = 3600;

impl ApiCache {
    /// An empty cache: the first use will run discovery.
    pub fn new() -> (r: ApiCache)
        ensures
            r.timestamp is None,
    {
        ApiCache { url: String::new(), timestamp: None }
    }

    /// Whether the entry is usable at time `now`: present and younger
    /// than an hour.  A clock that moved backwards counts as stale.
    pub open spec fn spec_fresh(self, now: u64) -> bool {
        match self.timestamp {
            Some(t) => t <= now && now - t < CACHE_FRESH_SECS,
            None => false,
        }
    }

    pub fn fresh(&self, now: u64) -> (r: bool)
        ensures
            r == self.spec_fresh(now),
    {
        match self.timestamp {
            Some(t) => t <= now && now - t < CACHE_FRESH_SECS,
            None => false,
        }
    }

    /// The cached URL, exactly when the entry is fresh at `now`.
    pub fn lookup(&self, now: u64) -> (r: Option<String>)
        ensures
            match r {
                Some(u) => self.spec_fresh(now) && u@ == self.url@,
                None => !self.spec_fresh(now),
            },
    {
        if self.fresh(now) {
            Some(self.url.clone())
        } else {
            None
        }
    }

    /// Adopts a discovered endpoint at time `now`.
    pub fn adopt(&mut self, url: String, now: u64)
        ensures
            final(self).url == url,
            final(self).timestamp == Some(now),
    {
        self.url = url;
        self.timestamp = Some(now);
    }
}

/// Builds a group: the tracks in their given order, ranked 1-based.
pub fn ranked_group(tracks: Vec<Track>, name: String) -> (r: TrackGroup)
    ensures
        r.name == name,
        r.tracks@.len() == tracks@.len(),
        ranks_ok(r.tracks@),
        forall|k: int| 0 <= k < tracks@.len() ==> (#[trigger] r.tracks@[k]).track == tracks@[k],
{
    let ghost data0 = tracks@;
    let mut data = tracks;
    let mut out: Vec<OrderedTrack> = Vec::new();
    let n = data.len();
    let mut k: usize = 0;
    while k < n
        invariant
            0 <= k <= n,
            n == data0.len(),
            data@ =~= data0.subrange(k as int, n as int),
            out@.len() == k,
            forall|m: int|
                0 <= m < k ==> (#[trigger] out@[m]).track == data0[m] && out@[m].index == m + 1,
        decreases n - k,
    {
        let t = data.remove(0);
        out.push(OrderedTrack { track: t, index: k + 1 });
        proof {
            assert(data@ =~= data0.subrange(k as int + 1, n as int));
        }
        k = k + 1;
    }
    TrackGroup { tracks: out, name }
}

pub open spec fn k_data() -> Seq<u8> {
    seq![100u8, 97u8, 116u8, 97u8]
}

/// The candidate base URLs a directory response denotes: a `data`
/// member holding an array of strings.
pub open spec fn spec_urls_of_items(items: Seq<JsonV>) -> Option<Seq<Seq<char>>>
    decreases items.len(),
{
    if items.len() == 0 {
        Some(Seq::empty())
    } else {
        match items[0] {
            JsonV::Str(b) => if valid_utf8(b) {
                match spec_urls_of_items(items.subrange(1, items.len() as int)) {
                    Some(rest) => Some(seq![decode_utf8(b)] + rest),
                    None => None,
                }
            } else {
                None
            },
            _ => None,
        }
    }
}

pub open spec fn spec_urls_of(v: JsonV) -> Option<Seq<Seq<char>>> {
    match spec_obj_get(v, k_data()) {
        Some(JsonV::Arr(items)) => spec_urls_of_items(items),
        _ => None,
    }
}

/// The views of a sequence of strings, elementwise.
pub open spec fn string_views(s: Seq<String>) -> Seq<Seq<char>> {
    Seq::new(s.len(), |k: int| s[k]@)
}

/// Decodes the directory response: the list of candidate base URLs.
pub fn urls_of_json(j: &Json) -> (r: Option<Vec<String>>)
    ensures
        match (r, spec_urls_of(jv(*j))) {
            (None, None) => true,
            (Some(us), Some(uvs)) => string_views(us@) == uvs,
            _ => false,
        },
{
    let key_data = [100u8, 97u8, 116u8, 97u8];
    proof {
        assert(key_data@ =~= k_data());
    }
    let arr = match obj_get(j, key_data.as_slice()) {
        Some(x) => x,
        None => {
            return None;
        },
    };
    match arr {
        Json::Arr(items) => {
            proof {
                lemma_jvs_props(items@);
                assert(jv(*arr) == JsonV::Arr(jvs(items@)));
            }
            let ghost whole = jvs(items@);
            proof {
                assert(whole.subrange(0, whole.len() as int) =~= whole);
            }
            let mut out: Vec<String> = Vec::new();
            let mut k: usize = 0;
            while k < items.len()
                invariant
                    0 <= k <= items@.len(),
                    whole == jvs(items@),
                    whole.len() == items@.len(),
                    out@.len() == k,
                    spec_urls_of(jv(*j)) == spec_urls_of_items(whole),
                    forall|m: int| 0 <= m < items@.len() ==> whole[m] == jv(items@[m]),
                    match spec_urls_of_items(whole) {
                        None => spec_urls_of_items(
                            whole.subrange(k as int, whole.len() as int),
                        ) is None,
                        Some(all) => spec_urls_of_items(
                            whole.subrange(k as int, whole.len() as int),
                        ) matches Some(rest) && all == string_views(out@) + rest,
                    },
                decreases items@.len() - k,
            {
                let ghost tail = whole.subrange(k as int, whole.len() as int);
                proof {
                    assert(tail[0] == whole[k as int]);
                    assert(tail.subrange(1, tail.len() as int) =~= whole.subrange(
                        k as int + 1,
                        whole.len() as int,
                    ));
                }
                let item = &items[k];
                match item {
                    Json::Str(b) => {
                        match utf8_string(clone_bytes(b)) {
                            None => {
                                proof {
                                    assert(spec_urls_of_items(tail) is None);
                                }
                                return None;
                            },
                            Some(u) => {
                                let ghost pre = out@;
                                out.push(u);
                                proof {
                                    assert(string_views(out@) =~= string_views(pre) + seq![
                                        decode_utf8(b@),
                                    ]);
                                    if let Some(all) = spec_urls_of_items(whole) {
                                        if let Some(rest) = spec_urls_of_items(tail) {
                                            let rest2 = spec_urls_of_items(
                                                tail.subrange(1, tail.len() as int),
                                            ).unwrap();
                                            assert(string_views(pre) + (seq![decode_utf8(b@)]
                                                + rest2) =~= (string_views(pre) + seq![
                                                decode_utf8(b@),
                                            ]) + rest2);
                                        }
                                    }
                                }
                            },
                        }
                    },
                    _ => {
                        proof {
                            assert(spec_urls_of_items(tail) is None);
                        }
                        return None;
                    },
                }
                k = k + 1;
            }
            proof {
                assert(whole.subrange(k as int, whole.len() as int) =~= Seq::<JsonV>::empty());
                assert(string_views(out@) + Seq::<Seq<char>>::empty() =~= string_views(out@));
            }
            Some(out)
        },
        _ => None,
    }
}

/// The query parameters every catalog request carries: the application
/// name, nothing else.
pub fn base_params() -> (r: Vec<(String, String)>)
    ensures
        crate::http::param_views(r@) == seq![("app_name"@, "Halkara"@)],
{
    let mut params: Vec<(String, String)> = Vec::new();
    params.push((String::from_str("app_name"), String::from_str(APP_NAME)));
    proof {
        assert(crate::http::param_views(params@) =~= seq![("app_name"@, "Halkara"@)]);
    }
    params
}

/// The query parameters of a probe: the application name, and a limit
/// of one entry, since only the response's shape is looked at.
fn probe_params() -> (r: Vec<(String, String)>)
    ensures
        crate::http::param_views(r@) == seq![
            ("app_name"@, "Halkara"@),
            ("limit"@, "1"@),
        ],
{
    let mut params: Vec<(String, String)> = Vec::new();
    params.push((String::from_str("app_name"), String::from_str(APP_NAME)));
    params.push((String::from_str("limit"), String::from_str("1")));
    proof {
        assert(crate::http::param_views(params@) =~= seq![
            ("app_name"@, "Halkara"@),
            ("limit"@, "1"@),
        ]);
    }
    params
}

/// The query parameters of a resolve request: the application name and
/// the identifier under `url`, exactly.
pub fn resolve_params(identifier: &str) -> (r: Vec<(String, String)>)
    ensures
        crate::http::param_views(r@) == seq![
            ("app_name"@, "Halkara"@),
            ("url"@, identifier@),
        ],
{
    let mut params: Vec<(String, String)> = Vec::new();
    params.push((String::from_str("app_name"), String::from_str(APP_NAME)));
    params.push((String::from_str("url"), String::from_str(identifier)));
    proof {
        assert(crate::http::param_views(params@) =~= seq![
            ("app_name"@, "Halkara"@),
            ("url"@, identifier@),
        ]);
    }
    params
}

/// The resolve endpoint under a base URL.
pub fn resolve_url(base: &str) -> (r: String)
    ensures
        r@ == base@ + "resolve"@,
{
    String::from_str(base).concat("resolve")
}

/// Probes one candidate endpoint: fetches its trending resource and
/// accepts the candidate when the body is a JSON object with a `data`
/// member.  The outcome depends on the network.
fn probe_endpoint(base: &String) -> bool {
    let url = trending::trending_url(base.as_str());
    let params = probe_params();
    let body = match http_get(url.as_str(), &params) {
        Ok(b) => b,
        Err(_) => {
            return false;
        },
    };
    let parsed = match parse_json(&body) {
        Some(p) => p,
        None => {
            return false;
        },
    };
    let key_data = [100u8, 97u8, 116u8, 97u8];
    match obj_get(&parsed, key_data.as_slice()) {
        Some(_) => true,
        None => false,
    }
}

impl ApiCache {
    /// One discovery round: fetches the directory of candidate base
    /// URLs, probes the candidates in order, and adopts the first that
    /// answers with a structurally valid response.  The probing is
    /// bounded by the candidate count, so an exhausted list fails
    /// explicitly instead of hanging.
    fn discover(&mut self, now: u64) -> (r: Result<String, DiscoveryError>)
        ensures
            match r {
                Ok(u) => final(self).url@ == u@ && final(self).timestamp == Some(now),
                Err(_) => *final(self) == *old(self),
            },
    {
        let params = base_params();
        let body = match http_get("https://api.audius.co", &params) {
            Ok(b) => b,
            Err(e) => {
                return Err(DiscoveryError::Directory(e));
            },
        };
        let parsed = match parse_json(&body) {
            Some(p) => p,
            None => {
                return Err(DiscoveryError::BadDirectory);
            },
        };
        let candidates = match urls_of_json(&parsed) {
            Some(us) => us,
            None => {
                return Err(DiscoveryError::BadDirectory);
            },
        };
        let mut k: usize = 0;
        while k < candidates.len()
            invariant
                *self == *old(self),
            decreases candidates@.len() - k,
        {
            let base = candidates[k].clone().concat("/v1/");
            if probe_endpoint(&base) {
                self.adopt(base.clone(), now);
                return Ok(base);
            }
            k = k + 1;
        }
        Err(DiscoveryError::Exhausted(candidates.len()))
    }

    /// The usable base URL at time `now`: the cached one while it is
    /// fresh (no network traffic at all), else the result of exactly
    /// one discovery round, memoized with `now` on success.
    pub fn get_base_url_at(&mut self, now: u64) -> (r: Result<String, DiscoveryError>)
        ensures
            old(self).spec_fresh(now) ==> *final(self) == *old(self) && (r matches Ok(u) && u@ == old(
                self,
            ).url@),
            !old(self).spec_fresh(now) ==> match r {
                Ok(u) => final(self).url@ == u@ && final(self).timestamp == Some(now),
                Err(_) => *final(self) == *old(self),
            },
    {
        match self.lookup(now) {
            Some(u) => Ok(u),
            None => self.discover(now),
        }
    }

    /// The usable base URL, against the wall clock.
    pub fn get_base_url(&mut self) -> (r: Result<String, DiscoveryError>)
        ensures
            r matches Ok(u) ==> final(self).url@ == u@,
            r matches Err(_) ==> *final(self) == *old(self),
    {
        let now = match now_unix_secs() {
            Some(t) => t,
            None => 0,
        };
        self.get_base_url_at(now)
    }
}

/// The shape a resolve response matched, tried in order: playlist
/// first, then single-track-list, then user.
pub enum ResponseShape {
    PlaylistShape(playlist::PlaylistResponse),
    TracksShape(track::TracksResponse),
    UserShape(user::UserResponse),
    Unknown,
}

/// The mathematical image of [`ResponseShape`].
pub enum ShapeV {
    PlaylistShape(Seq<(Seq<char>, Seq<char>)>),
    TracksShape(Seq<track::TrackV>),
    UserShape((Seq<char>, Seq<char>)),
    Unknown,
}

/// The shape a decoded response body denotes: the first of the three
/// known shapes that decodes, in the order playlist, single-track-list,
/// user.
pub open spec fn spec_classify(v: JsonV) -> ShapeV {
    match playlist::spec_playlist_resp(v) {
        Some(ps) => ShapeV::PlaylistShape(ps),
        None => match track::spec_tracks_resp(v) {
            Some(ts) => ShapeV::TracksShape(ts),
            None => match user::spec_user_resp(v) {
                Some(uv) => ShapeV::UserShape(uv),
                None => ShapeV::Unknown,
            },
        },
    }
}

/// How an executable classification must relate to the denoted shape.
pub open spec fn shape_match(r: ResponseShape, v: ShapeV) -> bool {
    match (r, v) {
        (ResponseShape::PlaylistShape(p), ShapeV::PlaylistShape(ps)) => playlist::playlist_views(
            p.data@,
        ) == ps,
        (ResponseShape::TracksShape(t), ShapeV::TracksShape(ts)) => track::track_views(t.data@)
            == ts,
        (ResponseShape::UserShape(u), ShapeV::UserShape(uv)) => u.data.id@ == uv.0 && u.data.name@
            == uv.1,
        (ResponseShape::Unknown, ShapeV::Unknown) => true,
        _ => false,
    }
}

/// Dispatches a resolve response on its shape: structured decoding is
/// attempted against the playlist shape, then the single-track-list
/// shape, then the user shape; the first that decodes wins.
pub fn classify_response(j: &Json) -> (r: ResponseShape)
    ensures
        shape_match(r, spec_classify(jv(*j))),
{
    match playlist::playlist_response_of_json(j) {
        Some(p) => ResponseShape::PlaylistShape(p),
        None => match track::tracks_response_of_json(j) {
            Some(t) => ResponseShape::TracksShape(t),
            None => match user::user_response_of_json(j) {
                Some(u) => ResponseShape::UserShape(u),
                None => ResponseShape::Unknown,
            },
        },
    }
}

/// Resolves one identifier into ordered track groups.
///
/// An identifier with the reserved `trending` prefix is answered
/// directly by the trending path.  Any other identifier is sent to the
/// catalog's resolve endpoint and its response dispatched on shape:
/// playlist (one group per playlist), single track list (one group
/// named "Single track"), or user (one group named after the user).  A
/// response matching none of the shapes fails with an error naming the
/// identifier, so that one bad identifier among many can be reported
/// and skipped.
pub fn resolve(cache: &mut ApiCache, identifier: &str) -> (r: Result<Vec<TrackGroup>, ResolveError>)
    ensures
        r matches Ok(groups) ==> forall|k: int|
            0 <= k < groups@.len() ==> ranks_ok((#[trigger] groups@[k]).tracks@),
        r matches Err(ResolveError::UnknownShape(s)) ==> s@ == identifier@,
{
    if crate::args::is_trending(identifier) {
        let args = crate::args::parse_trending_arg(identifier);
        let genre = match args.genre {
            Some(g) => g,
            None => String::new(),
        };
        let time = match args.time {
            Some(t) => t,
            None => String::new(),
        };
        let group = match trending::get_trending(cache, genre.as_str(), time.as_str()) {
            Ok(g) => g,
            Err(e) => {
                return Err(e);
            },
        };
        let mut groups: Vec<TrackGroup> = Vec::new();
        groups.push(group);
        return Ok(groups);
    }
    let base = match cache.get_base_url() {
        Ok(b) => b,
        Err(e) => {
            return Err(ResolveError::Discovery(e));
        },
    };
    let url = resolve_url(base.as_str());
    let params = resolve_params(identifier);
    let body = match http_get(url.as_str(), &params) {
        Ok(b) => b,
        Err(e) => {
            return Err(ResolveError::Transport(e));
        },
    };
    let parsed = match parse_json(&body) {
        Some(p) => p,
        None => {
            return Err(ResolveError::UnknownShape(String::from_str(identifier)));
        },
    };
    match classify_response(&parsed) {
        ResponseShape::PlaylistShape(p) => {
            let groups = match p.track_groups(cache) {
                Ok(g) => g,
                Err(e) => {
                    return Err(e);
                },
            };
            proof {
                assert forall|k: int| 0 <= k < groups@.len() implies ranks_ok(
                    (#[trigger] groups@[k]).tracks@,
                ) by {}
            }
            Ok(groups)
        },
        ResponseShape::TracksShape(t) => {
            let mut groups: Vec<TrackGroup> = Vec::new();
            groups.push(t.track_group());
            Ok(groups)
        },
        ResponseShape::UserShape(u) => {
            let group = match u.track_group(cache) {
                Ok(g) => g,
                Err(e) => {
                    return Err(e);
                },
            };
            let mut groups: Vec<TrackGroup> = Vec::new();
            groups.push(group);
            Ok(groups)
        },
        ResponseShape::Unknown => Err(ResolveError::UnknownShape(String::from_str(identifier))),
    }
}

} // verus!
