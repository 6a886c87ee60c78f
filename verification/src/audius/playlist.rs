//! The playlist response shape: a list of playlists, each turned into
//! one track group by fetching its constituent tracks.
use vstd::prelude::*;

verus! {

use crate::audius::ApiCache;
use crate::audius::base_params;
use crate::audius::ResolveError;
use crate::audius::TrackGroup;
use crate::audius::ranked_group;
use crate::audius::ranks_ok;
use crate::audius::k_data;
use crate::http::http_get;
use crate::json::Json;
use crate::json::JsonV;
use crate::json::jv;
use crate::json::jvs;
use crate::json::lemma_jvs_props;
use crate::json::obj_get;
use crate::json::parse_json;
use crate::json::spec_obj_get;
use crate::audius::track::k_id;
use crate::audius::track::spec_str_field;
use crate::audius::track::str_field;
use crate::audius::track::tracks_of_json;
use vstd::string::StringExecFns;

/// One playlist of the catalog: its identifier and display name.
pub struct Playlist {
    pub id: String,
    pub playlist_name: String,
}

/// The playlist response shape: a `data` member holding an array of
/// playlists.
pub struct PlaylistResponse {
    pub data: Vec<Playlist>,
}

pub open spec fn k_playlist_name() -> Seq<u8> {
    seq![112u8, 108u8, 97u8, 121u8, 108u8, 105u8, 115u8, 116u8, 95u8, 110u8, 97u8, 109u8, 101u8]
}

/// The playlist a JSON object denotes: its `id` and `playlist_name`.
pub open spec fn spec_playlist_of(v: JsonV) -> Option<(Seq<char>, Seq<char>)> {
    match (spec_str_field(v, k_id()), spec_str_field(v, k_playlist_name())) {
        (Some(a), Some(b)) => Some((a, b)),
        _ => None,
    }
}

pub open spec fn spec_playlists_of(items: Seq<JsonV>) -> Option<Seq<(Seq<char>, Seq<char>)>>
    decreases items.len(),
{
    if items.len() == 0 {
        Some(Seq::empty())
    } else {
        match (spec_playlist_of(items[0]), spec_playlists_of(
            items.subrange(1, items.len() as int),
        )) {
            (Some(p), Some(rest)) => Some(seq![p] + rest),
            _ => None,
        }
    }
}

/// The playlist list a whole response denotes.
pub open spec fn spec_playlist_resp(v: JsonV) -> Option<Seq<(Seq<char>, Seq<char>)>> {
    match spec_obj_get(v, k_data()) {
        Some(JsonV::Arr(items)) => spec_playlists_of(items),
        _ => None,
    }
}

/// The views of a sequence of playlists, elementwise.
pub open spec fn playlist_views(s: Seq<Playlist>) -> Seq<(Seq<char>, Seq<char>)> {
    Seq::new(s.len(), |k: int| (s[k].id@, s[k].playlist_name@))
}

fn playlist_of_json(j: &Json) -> (r: Option<Playlist>)
    ensures
        match (r, spec_playlist_of(jv(*j))) {
            (None, None) => true,
            (Some(p), Some(pv)) => p.id@ == pv.0 && p.playlist_name@ == pv.1,
            _ => false,
        },
{
    let key_id = [105u8, 100u8];
    let key_pn = [
        112u8,
        108u8,
        97u8,
        121u8,
        108u8,
        105u8,
        115u8,
        116u8,
        95u8,
        110u8,
        97u8,
        109u8,
        101u8,
    ];
    proof {
        assert(key_id@ =~= k_id());
        assert(key_pn@ =~= k_playlist_name());
    }
    let id = str_field(j, key_id.as_slice());
    let pn = str_field(j, key_pn.as_slice());
    match (id, pn) {
        (Some(a), Some(b)) => Some(Playlist { id: a, playlist_name: b }),
        _ => None,
    }
}

/// Decodes a whole playlist response.
pub fn playlist_response_of_json(j: &Json) -> (r: Option<PlaylistResponse>)
    ensures
        match (r, spec_playlist_resp(jv(*j))) {
            (None, None) => true,
            (Some(resp), Some(pvs)) => playlist_views(resp.data@) == pvs,
            _ => false,
        },
{
    let key_data = [100u8, 97u8, 116u8, 97u8];
    proof {
        assert(key_data@ =~= k_data());
    }
    let arr = match obj_get(j, key_data.as_slice()) {
        Some(x) => x,
        None => {
            return None;
        },
    };
    match arr {
        Json::Arr(items) => {
            proof {
                lemma_jvs_props(items@);
                assert(jv(*arr) == JsonV::Arr(jvs(items@)));
            }
            let ghost whole = jvs(items@);
            proof {
                assert(whole.subrange(0, whole.len() as int) =~= whole);
            }
            let mut out: Vec<Playlist> = Vec::new();
            let mut k: usize = 0;
            while k < items.len()
                invariant
                    0 <= k <= items@.len(),
                    whole == jvs(items@),
                    whole.len() == items@.len(),
                    out@.len() == k,
                    spec_playlist_resp(jv(*j)) == spec_playlists_of(whole),
                    forall|m: int| 0 <= m < items@.len() ==> whole[m] == jv(items@[m]),
                    match spec_playlists_of(whole) {
                        None => spec_playlists_of(
                            whole.subrange(k as int, whole.len() as int),
                        ) is None,
                        Some(all) => spec_playlists_of(whole.subrange(k as int, whole.len() as int))
                            matches Some(rest) && all == playlist_views(out@) + rest,
                    },
                decreases items@.len() - k,
            {
                let ghost tail = whole.subrange(k as int, whole.len() as int);
                proof {
                    assert(tail[0] == whole[k as int]);
                    assert(tail.subrange(1, tail.len() as int) =~= whole.subrange(
                        k as int + 1,
                        whole.len() as int,
                    ));
                }
                match playlist_of_json(&items[k]) {
                    None => {
                        proof {
                            assert(spec_playlists_of(tail) is None);
                        }
                        return None;
                    },
                    Some(p) => {
                        let ghost pre = out@;
                        let ghost pv = (p.id@, p.playlist_name@);
                        out.push(p);
                        proof {
                            assert(playlist_views(out@) =~= playlist_views(pre) + seq![pv]);
                            if let Some(all) = spec_playlists_of(whole) {
                                if let Some(rest) = spec_playlists_of(tail) {
                                    let rest2 = spec_playlists_of(
                                        tail.subrange(1, tail.len() as int),
                                    ).unwrap();
                                    assert(playlist_views(pre) + (seq![pv] + rest2) =~= (
                                    playlist_views(pre) + seq![pv]) + rest2);
                                }
                            }
                        }
                    },
                }
                k = k + 1;
            }
            proof {
                assert(whole.subrange(k as int, whole.len() as int) =~= Seq::<JsonV>::empty());
                assert(playlist_views(out@) + Seq::<(Seq<char>, Seq<char>)>::empty()
                    =~= playlist_views(out@));
            }
            Some(PlaylistResponse { data: out })
        },
        _ => None,
    }
}

/// The track-list endpoint of one playlist under a base URL.
pub fn playlist_tracks_url(base: &str, id: &str) -> (r: String)
    ensures
        r@ == base@ + "playlists/"@ + id@ + "/tracks"@,
{
    String::from_str(base).concat("playlists/").concat(id).concat("/tracks")
}

impl PlaylistResponse {
    /// One track group per playlist: each playlist's tracks are fetched
    /// through the endpoint cache (one call per playlist), ranked
    /// 1-based, and the group carries the playlist's name.
    pub fn track_groups(self, cache: &mut ApiCache) -> (r: Result<Vec<TrackGroup>, ResolveError>)
        ensures
            r matches Ok(groups) ==> groups@.len() == self.data@.len() && forall|k: int|
                0 <= k < groups@.len() ==> (#[trigger] groups@[k]).name@
                    == self.data@[k].playlist_name@ && ranks_ok(groups@[k].tracks@),
            !(r matches Err(ResolveError::UnknownShape(_))),
    {
        let ghost data0 = self.data@;
        let mut data = self.data;
        let mut groups: Vec<TrackGroup> = Vec::new();
        let n = data.len();
        let mut k: usize = 0;
        while k < n
            invariant
                0 <= k <= n,
                n == data0.len(),
                data@ =~= data0.subrange(k as int, n as int),
                groups@.len() == k,
                forall|m: int|
                    0 <= m < k ==> (#[trigger] groups@[m]).name@ == data0[m].playlist_name@
                        && ranks_ok(groups@[m].tracks@),
            decreases n - k,
        {
            let playlist = data.remove(0);
            proof {
                assert(playlist == data0[k as int]);
                assert(data@ =~= data0.subrange(k as int + 1, n as int));
            }
            let base = match cache.get_base_url() {
                Ok(b) => b,
                Err(e) => {
                    return Err(ResolveError::Discovery(e));
                },
            };
            let url = playlist_tracks_url(base.as_str(), playlist.id.as_str());
            let params = base_params();
            let body = match http_get(url.as_str(), &params) {
                Ok(b) => b,
                Err(e) => {
                    return Err(ResolveError::Transport(e));
                },
            };
            let parsed = match parse_json(&body) {
                Some(p) => p,
                None => {
                    return Err(ResolveError::BadResponse);
                },
            };
            let key_data = [100u8, 97u8, 116u8, 97u8];
            let tracks = match obj_get(&parsed, key_data.as_slice()) {
                Some(arr) => match tracks_of_json(arr) {
                    Some(ts) => ts,
                    None => {
                        return Err(ResolveError::BadResponse);
                    },
                },
                None => {
                    return Err(ResolveError::BadResponse);
                },
            };
            groups.push(ranked_group(tracks, playlist.playlist_name));
            k = k + 1;
        }
        Ok(groups)
    }
}

} // verus!
