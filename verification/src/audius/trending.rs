//! The trending path: fetches the trending track list, with genre and
//! time parameters sent only when they are non-empty (an empty
//! parameter value would act as a filter that matches nothing), and
//! names the group after the time range.
use vstd::prelude::*;

verus! {

use crate::audius::ApiCache;
use crate::audius::ResolveError;
use crate::audius::base_params;
use crate::audius::TrackGroup;
use crate::audius::ranked_group;
use crate::audius::ranks_ok;
use crate::http::http_get;
use crate::json::obj_get;
use crate::json::parse_json;
use crate::audius::track::tracks_of_json;
use vstd::string::StrSliceExecFns;
use vstd::string::StringExecFns;

/// `x` is `y` up to ASCII case, where `y` is already lower case.
pub open spec fn eq_ci_char(x: char, y: char) -> bool {
    x == y || (97 <= y as u32 <= 122 && x as u32 + 32 == y as u32)
}

/// `a` equals the lower-case word `lower` up to ASCII case.
pub open spec fn spec_eq_ci(a: Seq<char>, lower: Seq<char>) -> bool {
    a.len() == lower.len() && forall|k: int|
        0 <= k < a.len() ==> #[trigger] eq_ci_char(a[k], lower[k])
}

/// Compares a string against a lower-case keyword, ASCII
/// case-insensitively.  The keyword match is case-insensitive by
/// design: catalog clients send the time range in mixed case.
pub fn eq_ascii_ci(s: &str, lower: &str) -> (r: bool)
    ensures
        r == spec_eq_ci(s@, lower@),
{
    let n = s.unicode_len();
    if n != lower.unicode_len() {
        return false;
    }
    let mut k: usize = 0;
    while k < n
        invariant
            0 <= k <= n,
            n == s@.len(),
            n == lower@.len(),
            forall|m: int| 0 <= m < k ==> #[trigger] eq_ci_char(s@[m], lower@[m]),
        decreases n - k,
    {
        let a = s.get_char(k);
        let b = lower.get_char(k);
        let same = a == b || (97 <= b as u32 && b as u32 <= 122 && a as u32 + 32 == b as u32);
        if !same {
            proof {
                assert(!eq_ci_char(s@[k as int], lower@[k as int]));
            }
            return false;
        }
        k = k + 1;
    }
    true
}

/// The display name for a time range: "month" and "alltime" (ASCII
/// case-insensitively) have names of their own; anything else, the
/// empty string included, is this week.
pub open spec fn spec_trending_name(time: Seq<char>) -> Seq<char> {
    if spec_eq_ci(time, "month"@) {
        "Trending tracks of this month"@
    } else if spec_eq_ci(time, "alltime"@) {
        "Trending tracks of all time"@
    } else {
        "Trending tracks of this week"@
    }
}

/// The display name for a time range.
pub fn trending_name(time: &str) -> (r: String)
    ensures
        r@ == spec_trending_name(time@),
{
    if eq_ascii_ci(time, "month") {
        String::from_str("Trending tracks of this month")
    } else if eq_ascii_ci(time, "alltime") {
        String::from_str("Trending tracks of all time")
    } else {
        String::from_str("Trending tracks of this week")
    }
}

/// The trending endpoint under a base URL.
pub fn trending_url(base: &str) -> (r: String)
    ensures
        r@ == base@ + "tracks/trending"@,
{
    String::from_str(base).concat("tracks/trending")
}

/// The query parameters of a trending request: the application name
/// always, and the genre and time range exactly when non-empty.
pub open spec fn spec_trending_params(genre: Seq<char>, time: Seq<char>) -> Seq<
    (Seq<char>, Seq<char>),
> {
    seq![("app_name"@, "Halkara"@)] + (if genre.len() > 0 {
        seq![("genre"@, genre)]
    } else {
        Seq::<(Seq<char>, Seq<char>)>::empty()
    }) + (if time.len() > 0 {
        seq![("time"@, time)]
    } else {
        Seq::<(Seq<char>, Seq<char>)>::empty()
    })
}

/// Builds the query parameters of a trending request.  The genre and
/// time parameters are sent exactly when non-empty: an empty parameter
/// value would act as a filter that matches nothing and silently empty
/// the result.
pub fn trending_params(genre: &str, time: &str) -> (r: Vec<(String, String)>)
    ensures
        crate::http::param_views(r@) == spec_trending_params(genre@, time@),
{
    let mut params = base_params();
    if !genre.is_empty() {
        params.push((String::from_str("genre"), String::from_str(genre)));
    }
    if !time.is_empty() {
        params.push((String::from_str("time"), String::from_str(time)));
    }
    proof {
        assert(crate::http::param_views(params@) =~= spec_trending_params(genre@, time@));
    }
    params
}

/// Fetches the trending tracks for the given genre and time range, as
/// one group named after the time range, ranked 1-based by arrival
/// order.  The genre and time query parameters are sent only when
/// non-empty.
pub fn get_trending(cache: &mut ApiCache, genre: &str, time: &str) -> (r: Result<
    TrackGroup,
    ResolveError,
>)
    ensures
        r matches Ok(g) ==> g.name@ == spec_trending_name(time@) && ranks_ok(g.tracks@),
        !(r matches Err(ResolveError::UnknownShape(_))),
{
    let base = match cache.get_base_url() {
        Ok(b) => b,
        Err(e) => {
            return Err(ResolveError::Discovery(e));
        },
    };
    let url = trending_url(base.as_str());
    let params = trending_params(genre, time);
    let body = match http_get(url.as_str(), &params) {
        Ok(b) => b,
        Err(e) => {
            return Err(ResolveError::Transport(e));
        },
    };
    let parsed = match parse_json(&body) {
        Some(p) => p,
        None => {
            return Err(ResolveError::BadResponse);
        },
    };
    let key_data = [100u8, 97u8, 116u8, 97u8];
    let tracks = match obj_get(&parsed, key_data.as_slice()) {
        Some(arr) => match tracks_of_json(arr) {
            Some(ts) => ts,
            None => {
                return Err(ResolveError::BadResponse);
            },
        },
        None => {
            return Err(ResolveError::BadResponse);
        },
    };
    Ok(ranked_group(tracks, trending_name(time)))
}

} // verus!
