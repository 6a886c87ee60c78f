//! Tracks, and the single-track-list response shape.
use vstd::prelude::*;

verus! {

use crate::audius::ApiCache;
use crate::audius::base_params;
use crate::audius::StreamError;
use crate::audius::TrackGroup;
use crate::audius::ranks_ok;
use crate::http::http_get;
use crate::json::Json;
use crate::json::JsonV;
use crate::json::jv;
use crate::json::jvs;
use crate::json::lemma_jvs_props;
use crate::json::obj_get;
use crate::json::spec_obj_get;
use crate::text::clone_bytes;
use crate::text::dec_u64_string;
use crate::text::spec_dec;
use crate::text::utf8_string;
use vstd::string::StringExecFns;
use vstd::utf8::decode_utf8;
use vstd::utf8::valid_utf8;

/// The artist a track belongs to, as the track embeds it.
pub struct User {
    pub name: String,
}

/// One playable item of the catalog.  Immutable once constructed.
pub struct Track {
    pub id: String,
    pub title: String,
    pub user: User,
    pub duration: u32,
}

/// The mathematical image of a [`Track`].
pub struct TrackV {
    pub id: Seq<char>,
    pub title: Seq<char>,
    pub user_name: Seq<char>,
    pub duration: u32,
}

impl View for Track {
    type V = TrackV;

    open spec fn view(&self) -> TrackV {
        TrackV {
            id: self.id@,
            title: self.title@,
            user_name: self.user.name@,
            duration: self.duration,
        }
    }
}

pub open spec fn k_id() -> Seq<u8> {
    seq![105u8, 100u8]
}

pub open spec fn k_title() -> Seq<u8> {
    seq![116u8, 105u8, 116u8, 108u8, 101u8]
}

pub open spec fn k_user() -> Seq<u8> {
    seq![117u8, 115u8, 101u8, 114u8]
}

pub open spec fn k_name() -> Seq<u8> {
    seq![110u8, 97u8, 109u8, 101u8]
}

pub open spec fn k_duration() -> Seq<u8> {
    seq![100u8, 117u8, 114u8, 97u8, 116u8, 105u8, 111u8, 110u8]
}

/// The characters of the string member named `key`, when `v` is an
/// object holding one whose bytes are valid UTF-8.
pub open spec fn spec_str_field(v: JsonV, key: Seq<u8>) -> Option<Seq<char>> {
    match spec_obj_get(v, key) {
        Some(JsonV::Str(b)) => if valid_utf8(b) {
            Some(decode_utf8(b))
        } else {
            None
        },
        _ => None,
    }
}

/// Reads a string member out of an object.
pub fn str_field(j: &Json, key: &[u8]) -> (r: Option<String>)
    ensures
        match (r, spec_str_field(jv(*j), key@)) {
            (None, None) => true,
            (Some(s), Some(cs)) => s@ == cs,
            _ => false,
        },
{
    match obj_get(j, key) {
        None => None,
        Some(x) => match x {
            Json::Str(b) => utf8_string(clone_bytes(b)),
            _ => None,
        },
    }
}

/// The track a JSON object denotes: its `id`, `title`, `user.name` and
/// `duration` members, with the duration a plain integer that fits.
pub open spec fn spec_track_of(v: JsonV) -> Option<TrackV> {
    let id = spec_str_field(v, k_id());
    let title = spec_str_field(v, k_title());
    let uname = match spec_obj_get(v, k_user()) {
        Some(u) => spec_str_field(u, k_name()),
        None => None,
    };
    let dur = match spec_obj_get(v, k_duration()) {
        Some(JsonV::Int(n)) => if n <= u32::MAX {
            Some(n as u32)
        } else {
            None
        },
        _ => None,
    };
    match (id, title, uname, dur) {
        (Some(a), Some(b), Some(c), Some(d)) => Some(
            TrackV { id: a, title: b, user_name: c, duration: d },
        ),
        _ => None,
    }
}

/// Decodes one track object.
pub fn track_of_json(j: &Json) -> (r: Option<Track>)
    ensures
        match (r, spec_track_of(jv(*j))) {
            (None, None) => true,
            (Some(t), Some(tv)) => t@ == tv,
            _ => false,
        },
{
    let key_id = [105u8, 100u8];
    let key_title = [116u8, 105u8, 116u8, 108u8, 101u8];
    let key_user = [117u8, 115u8, 101u8, 114u8];
    let key_name = [110u8, 97u8, 109u8, 101u8];
    let key_duration = [100u8, 117u8, 114u8, 97u8, 116u8, 105u8, 111u8, 110u8];
    proof {
        assert(key_id@ =~= k_id());
        assert(key_title@ =~= k_title());
        assert(key_user@ =~= k_user());
        assert(key_name@ =~= k_name());
        assert(key_duration@ =~= k_duration());
    }
    let id = str_field(j, key_id.as_slice());
    let title = str_field(j, key_title.as_slice());
    let uname: Option<String> = match obj_get(j, key_user.as_slice()) {
        Some(u) => str_field(u, key_name.as_slice()),
        None => None,
    };
    let dur: Option<u32> = match obj_get(j, key_duration.as_slice()) {
        Some(x) => match x {
            Json::Int(n) => if *n <= 0xFFFF_FFFFu64 {
                Some(*n as u32)
            } else {
                None
            },
            _ => None,
        },
        None => None,
    };
    match (id, title, uname, dur) {
        (Some(a), Some(b), Some(c), Some(d)) => Some(
            Track { id: a, title: b, user: User { name: c }, duration: d },
        ),
        _ => None,
    }
}

/// The tracks a JSON array denotes, each element a track object.
pub open spec fn spec_tracks_of(items: Seq<JsonV>) -> Option<Seq<TrackV>>
    decreases items.len(),
{
    if items.len() == 0 {
        Some(Seq::empty())
    } else {
        match (spec_track_of(items[0]), spec_tracks_of(items.subrange(1, items.len() as int))) {
            (Some(t), Some(rest)) => Some(seq![t] + rest),
            _ => None,
        }
    }
}

/// The track list a `data` array denotes.
pub open spec fn spec_tracks_arr(v: JsonV) -> Option<Seq<TrackV>> {
    match v {
        JsonV::Arr(items) => spec_tracks_of(items),
        _ => None,
    }
}

/// The views of a sequence of tracks, elementwise.
pub open spec fn track_views(s: Seq<Track>) -> Seq<TrackV> {
    Seq::new(s.len(), |k: int| s[k]@)
}

/// Decodes a JSON array of track objects.
pub fn tracks_of_json(j: &Json) -> (r: Option<Vec<Track>>)
    ensures
        match (r, spec_tracks_arr(jv(*j))) {
            (None, None) => true,
            (Some(ts), Some(tvs)) => track_views(ts@) == tvs,
            _ => false,
        },
{
    match j {
        Json::Arr(items) => {
            proof {
                lemma_jvs_props(items@);
                assert(jv(*j) == JsonV::Arr(jvs(items@)));
            }
            let ghost whole = jvs(items@);
            proof {
                assert(whole.subrange(0, whole.len() as int) =~= whole);
            }
            let mut out: Vec<Track> = Vec::new();
            let mut k: usize = 0;
            while k < items.len()
                invariant
                    0 <= k <= items@.len(),
                    whole == jvs(items@),
                    whole.len() == items@.len(),
                    out@.len() == k,
                    spec_tracks_arr(jv(*j)) == spec_tracks_of(whole),
                    forall|m: int| 0 <= m < items@.len() ==> whole[m] == jv(items@[m]),
                    match spec_tracks_of(whole) {
                        None => spec_tracks_of(
                            whole.subrange(k as int, whole.len() as int),
                        ) is None,
                        Some(all) => spec_tracks_of(whole.subrange(k as int, whole.len() as int))
                            matches Some(rest) && all == track_views(out@) + rest,
                    },
                decreases items@.len() - k,
            {
                let ghost tail = whole.subrange(k as int, whole.len() as int);
                proof {
                    assert(tail[0] == whole[k as int]);
                    assert(tail.subrange(1, tail.len() as int) =~= whole.subrange(
                        k as int + 1,
                        whole.len() as int,
                    ));
                }
                match track_of_json(&items[k]) {
                    None => {
                        proof {
                            assert(spec_tracks_of(tail) is None);
                        }
                        return None;
                    },
                    Some(t) => {
                        let ghost pre = out@;
                        out.push(t);
                        proof {
                            assert(track_views(out@) =~= track_views(pre) + seq![t@]);
                            if let Some(all) = spec_tracks_of(whole) {
                                if let Some(rest) = spec_tracks_of(tail) {
                                    assert(rest == seq![t@] + spec_tracks_of(
                                        tail.subrange(1, tail.len() as int),
                                    )          .unwrap());
                                    assert(track_views(pre) + (seq![t@] + spec_tracks_of(
                                        tail.subrange(1, tail.len() as int),
                                    ).unwrap()) =~= (track_views(pre) + seq![t@])
                                        + spec_tracks_of(
                                        tail.subrange(1, tail.len() as int),
                                    ).unwrap());
                                }
                            }
                        }
                    },
                }
                k = k + 1;
            }
            proof {
                assert(whole.subrange(k as int, whole.len() as int) =~= Seq::<JsonV>::empty());
                assert(track_views(out@) + Seq::<TrackV>::empty() =~= track_views(out@));
            }
            Some(out)
        },
        _ => None,
    }
}

/// The single-track-list response shape: a `data` member holding an
/// array of tracks.
pub struct TracksResponse {
    pub data: Vec<Track>,
}

/// The track list a whole response denotes.
pub open spec fn spec_tracks_resp(v: JsonV) -> Option<Seq<TrackV>> {
    match spec_obj_get(v, crate::audius::k_data()) {
        Some(arr) => spec_tracks_arr(arr),
        None => None,
    }
}

/// Decodes a whole single-track-list response.
pub fn tracks_response_of_json(j: &Json) -> (r: Option<TracksResponse>)
    ensures
        match (r, spec_tracks_resp(jv(*j))) {
            (None, None) => true,
            (Some(resp), Some(tvs)) => track_views(resp.data@) == tvs,
            _ => false,
        },
{
    let key_data = [100u8, 97u8, 116u8, 97u8];
    proof {
        assert(key_data@ =~= crate::audius::k_data());
    }
    match obj_get(j, key_data.as_slice()) {
        Some(arr) => match tracks_of_json(arr) {
            Some(ts) => Some(TracksResponse { data: ts }),
            None => None,
        },
        None => None,
    }
}

impl TracksResponse {
    /// One group named "Single track" holding the decoded tracks in
    /// response order, ranked 1-based.
    pub fn track_group(self) -> (r: TrackGroup)
        ensures
            r.name@ == "Single track"@,
            r.tracks@.len() == self.data@.len(),
            ranks_ok(r.tracks@),
            forall|k: int|
                0 <= k < r.tracks@.len() ==> #[trigger] r.tracks@[k].track == self.data@[k]
                    && r.tracks@[k].index == k + 1,
    {
        crate::audius::ranked_group(self.data, String::from_str("Single track"))
    }
}

/// The stream endpoint of one track under a base URL.
pub fn stream_url(base: &str, id: &str) -> (r: String)
    ensures
        r@ == base@ + "tracks/"@ + id@ + "/stream"@,
{
    String::from_str(base).concat("tracks/").concat(id).concat("/stream")
}

impl Track {
    /// The track's audio bytes: one GET against [`stream_url`] with
    /// [`base_params`], through the endpoint cache.  What comes back
    /// depends on the network; the playback engine checks it before
    /// decoding.
    pub fn get_stream(&self, cache: &mut ApiCache) -> Result<Vec<u8>, StreamError> {
        let base = match cache.get_base_url() {
            Ok(b) => b,
            Err(e) => {
                return Err(StreamError::Discovery(e));
            },
        };
        let url = stream_url(base.as_str(), self.id.as_str());
        let params = base_params();
        match http_get(url.as_str(), &params) {
            Ok(bytes) => Ok(bytes),
            Err(e) => Err(StreamError::Transport(e)),
        }
    }

    /// The duration as `minutes:seconds`, seconds zero-padded to two
    /// digits.
    pub fn get_duration(&self) -> (r: String)
        ensures
            r@ == spec_duration_display(self.duration),
    {
        let mins = (self.duration / 60) as u64;
        let secs = (self.duration % 60) as u64;
        let mut out = dec_u64_string(mins);
        out.append(":");
        if secs < 10 {
            out.append("0");
        }
        let tail = dec_u64_string(secs);
        out.append(tail.as_str());
        proof {
            reveal_strlit(":");
            reveal_strlit("0");
            assert(":"@ =~= seq![':']);
            assert("0"@ =~= seq!['0']);
        }
        out
    }
}

/// `minutes:seconds`, seconds zero-padded to two digits.
pub open spec fn spec_duration_display(d: u32) -> Seq<char> {
    spec_dec((d / 60) as nat) + seq![':'] + (if d % 60 < 10 {
        seq!['0']
    } else {
        Seq::empty()
    }) + spec_dec((d % 60) as nat)
}

} // verus!
