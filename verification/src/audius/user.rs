//! The user response shape: one user whose tracks become one group.
use vstd::prelude::*;

verus! {

use crate::audius::ApiCache;
use crate::audius::base_params;
use crate::audius::ResolveError;
use crate::audius::TrackGroup;
use crate::audius::ranked_group;
use crate::audius::ranks_ok;
use crate::audius::k_data;
use crate::http::http_get;
use crate::json::Json;
use crate::json::JsonV;
use crate::json::jv;
use crate::json::obj_get;
use crate::json::parse_json;
use crate::json::spec_obj_get;
use crate::audius::track::k_id;
use crate::audius::track::k_name;
use crate::audius::track::spec_str_field;
use crate::audius::track::str_field;
use crate::audius::track::tracks_of_json;
use vstd::string::StringExecFns;

/// One user of the catalog: identifier and display name.
pub struct User {
    pub id: String,
    pub name: String,
}

/// The user response shape: a `data` member holding one user object.
pub struct UserResponse {
    pub data: User,
}

/// The user a whole response denotes: the `id` and `name` members of
/// its `data` object.
pub open spec fn spec_user_resp(v: JsonV) -> Option<(Seq<char>, Seq<char>)> {
    match spec_obj_get(v, k_data()) {
        Some(u) => match (spec_str_field(u, k_id()), spec_str_field(u, k_name())) {
            (Some(a), Some(b)) => Some((a, b)),
            _ => None,
        },
        None => None,
    }
}

/// Decodes a whole user response.
pub fn user_response_of_json(j: &Json) -> (r: Option<UserResponse>)
    ensures
        match (r, spec_user_resp(jv(*j))) {
            (None, None) => true,
            (Some(resp), Some(uv)) => resp.data.id@ == uv.0 && resp.data.name@ == uv.1,
            _ => false,
        },
{
    let key_data = [100u8, 97u8, 116u8, 97u8];
    let key_id = [105u8, 100u8];
    let key_name = [110u8, 97u8, 109u8, 101u8];
    proof {
        assert(key_data@ =~= k_data());
        assert(key_id@ =~= k_id());
        assert(key_name@ =~= k_name());
    }
    let data = match obj_get(j, key_data.as_slice()) {
        Some(x) => x,
        None => {
            return None;
        },
    };
    let id = str_field(data, key_id.as_slice());
    let name = str_field(data, key_name.as_slice());
    match (id, name) {
        (Some(a), Some(b)) => Some(UserResponse { data: User { id: a, name: b } }),
        _ => None,
    }
}

/// The track-list endpoint of one user under a base URL.
pub fn user_tracks_url(base: &str, id: &str) -> (r: String)
    ensures
        r@ == base@ + "users/"@ + id@ + "/tracks"@,
{
    String::from_str(base).concat("users/").concat(id).concat("/tracks")
}

impl UserResponse {
    /// One track group named after the user, holding the user's tracks
    /// (one further call through the endpoint cache), ranked 1-based.
    pub fn track_group(self, cache: &mut ApiCache) -> (r: Result<TrackGroup, ResolveError>)
        ensures
            r matches Ok(g) ==> g.name@ == self.data.name@ && ranks_ok(g.tracks@),
            !(r matches Err(ResolveError::UnknownShape(_))),
    {
        let base = match cache.get_base_url() {
            Ok(b) => b,
            Err(e) => {
                return Err(ResolveError::Discovery(e));
            },
        };
        let url = user_tracks_url(base.as_str(), self.data.id.as_str());
        let params = base_params();
        let body = match http_get(url.as_str(), &params) {
            Ok(b) => b,
            Err(e) => {
                return Err(ResolveError::Transport(e));
            },
        };
        let parsed = match parse_json(&body) {
            Some(p) => p,
            None => {
                return Err(ResolveError::BadResponse);
            },
        };
        let key_data = [100u8, 97u8, 116u8, 97u8];
        let tracks = match obj_get(&parsed, key_data.as_slice()) {
            Some(arr) => match tracks_of_json(arr) {
                Some(ts) => ts,
                None => {
                    return Err(ResolveError::BadResponse);
                },
            },
            None => {
                return Err(ResolveError::BadResponse);
            },
        };
        Ok(ranked_group(tracks, self.data.name))
    }
}

} // verus!
