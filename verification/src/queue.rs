//! The queue assembler: duration filtering and reordering policy.
use vstd::prelude::*;

verus! {

use crate::PlayOrder;
use crate::audius::OrderedTrack;
use crate::audius::TrackGroup;
use crate::utils::Lcg;
use crate::utils::shuffle_with;
use crate::utils::spec_shuffle_from;

/// Whether a track's duration lies within the bounds; an absent bound
/// is the identity bound (zero seconds, or no upper bound).
pub open spec fn spec_keep(t: OrderedTrack, min: Option<u64>, max: Option<u64>) -> bool {
    (match min {
        Some(lo) => lo <= t.track.duration,
        None => true,
    }) && (match max {
        Some(hi) => t.track.duration <= hi,
        None => true,
    })
}

/// The duration filter as a predicate on tracks.
pub open spec fn keep_pred(min: Option<u64>, max: Option<u64>) -> spec_fn(OrderedTrack) -> bool {
    |t: OrderedTrack| spec_keep(t, min, max)
}

fn keep(t: &OrderedTrack, min: Option<u64>, max: Option<u64>) -> (r: bool)
    ensures
        r == spec_keep(*t, min, max),
{
    let lo_ok = match min {
        Some(lo) => lo <= t.track.duration as u64,
        None => true,
    };
    let hi_ok = match max {
        Some(hi) => t.track.duration as u64 <= hi,
        None => true,
    };
    lo_ok && hi_ok
}

/// Removes the tracks whose duration lies outside the bounds.  The
/// filter is a stable partition: the survivors keep their relative
/// order, since the result is exactly the filtered sequence.
pub fn filter_tracks(group: &mut TrackGroup, min: Option<u64>, max: Option<u64>)
    ensures
        final(group).tracks@ == old(group).tracks@.filter(keep_pred(min, max)),
        final(group).name == old(group).name,
{
    let ghost pred = keep_pred(min, max);
    let ghost tracks0 = old(group).tracks@;
    let mut kept: Vec<OrderedTrack> = Vec::new();
    let n = group.tracks.len();
    let mut k: usize = 0;
    proof {
        reveal(vstd::seq::Seq::filter);
        assert(tracks0.subrange(0, 0) =~= Seq::<OrderedTrack>::empty());
        assert(tracks0.subrange(0, 0).filter(pred) =~= Seq::<OrderedTrack>::empty());
    }
    while k < n
        invariant
            0 <= k <= n,
            n == group.tracks@.len(),
            group.tracks@ == tracks0,
            kept@ == tracks0.subrange(0, k as int).filter(pred),
            pred == keep_pred(min, max),
        decreases n - k,
    {
        let ghost pre = tracks0.subrange(0, k as int);
        let t = &group.tracks[k];
        proof {
            assert(tracks0.subrange(0, k as int + 1) =~= pre.push(tracks0[k as int]));
            pre.lemma_filter_push(tracks0[k as int], pred);
        }
        if keep(t, min, max) {
            let copy = OrderedTrack {
                track: crate::audius::track::Track {
                    id: t.track.id.clone(),
                    title: t.track.title.clone(),
                    user: crate::audius::track::User { name: t.track.user.name.clone() },
                    duration: t.track.duration,
                },
                index: t.index,
            };
            proof {
                assert(copy == tracks0[k as int]);
            }
            kept.push(copy);
        }
        k = k + 1;
    }
    proof {
        assert(tracks0.subrange(0, n as int) =~= tracks0);
    }
    group.tracks = kept;
}

/// Reverses the tracks of a group.
pub fn reverse_tracks(group: &mut TrackGroup)
    ensures
        final(group).tracks@ == old(group).tracks@.reverse(),
        final(group).name == old(group).name,
{
    let ghost tracks0 = old(group).tracks@;
    let mut reversed: Vec<OrderedTrack> = Vec::new();
    let n = group.tracks.len();
    let mut k: usize = 0;
    while k < n
        invariant
            0 <= k <= n,
            n == tracks0.len(),
            group.tracks@ =~= tracks0.subrange(0, n - k),
            group.name == old(group).name,
            reversed@.len() == k,
            forall|m: int| 0 <= m < k ==> reversed@[m] == tracks0[n - 1 - m],
        decreases n - k,
    {
        let popped = group.tracks.pop();
        match popped {
            Some(t) => {
                proof {
                    assert(t == tracks0[n - k - 1]);
                    assert(group.tracks@ =~= tracks0.subrange(0, n - k - 1));
                }
                reversed.push(t);
            },
            None => {
                proof {
                    assert(false);
                }
            },
        }
        k = k + 1;
    }
    proof {
        assert(reversed@ =~= tracks0.reverse());
    }
    group.tracks = reversed;
}

/// Applies the duration filter and the reordering policy to one group:
/// ascending keeps the resolution order, descending reverses it, and
/// random shuffles with the given generator.
pub fn assemble_with(
    group: &mut TrackGroup,
    min: Option<u64>,
    max: Option<u64>,
    order: PlayOrder,
    lcg: &mut Lcg,
)
    requires
        old(group).tracks@.len() <= u32::MAX,
    ensures
        final(group).name == old(group).name,
        ({
            let kept = old(group).tracks@.filter(keep_pred(min, max));
            match order {
                PlayOrder::Ascending => final(group).tracks@ == kept,
                PlayOrder::Descending => final(group).tracks@ == kept.reverse(),
                PlayOrder::Random => final(group).tracks@ == spec_shuffle_from(
                    kept,
                    old(lcg).state,
                    0,
                ) && final(group).tracks@.to_multiset() == kept.to_multiset(),
            }
        }),
{
    filter_tracks(group, min, max);
    proof {
        group.tracks@.lemma_filter_len(keep_pred(min, max));
    }
    match order {
        PlayOrder::Ascending => {
        },
        PlayOrder::Descending => {
            reverse_tracks(group);
        },
        PlayOrder::Random => {
            shuffle_with(&mut group.tracks, lcg);
        },
    }
}

/// Applies the duration filter and the reordering policy to one group;
/// a random order draws its seed from the wall clock at the call.
pub fn assemble(group: &mut TrackGroup, min: Option<u64>, max: Option<u64>, order: PlayOrder)
    requires
        old(group).tracks@.len() <= u32::MAX,
    ensures
        final(group).name == old(group).name,
        ({
            let kept = old(group).tracks@.filter(keep_pred(min, max));
            match order {
                PlayOrder::Ascending => final(group).tracks@ == kept,
                PlayOrder::Descending => final(group).tracks@ == kept.reverse(),
                PlayOrder::Random => final(group).tracks@.to_multiset() == kept.to_multiset(),
            }
        }),
{
    let mut lcg = Lcg::new();
    assemble_with(group, min, max, order, &mut lcg);
}

/// Law: filtering is sound and complete for the duration bounds --
/// every track the filter keeps satisfies them, every track satisfying
/// them is kept, every track violating them is removed, and the filter
/// never grows the sequence.  That the survivors keep their relative
/// order is the filter equation itself in [`filter_tracks`]'s contract.
pub proof fn lemma_filter_bounds(tracks: Seq<OrderedTrack>, min: Option<u64>, max: Option<u64>)
    ensures
        forall|i: int|
            0 <= i < tracks.filter(keep_pred(min, max)).len() ==> spec_keep(
                #[trigger] tracks.filter(keep_pred(min, max))[i],
                min,
                max,
            ),
        forall|i: int|
            0 <= i < tracks.len() && spec_keep(tracks[i], min, max)
                ==> #[trigger] tracks.filter(keep_pred(min, max)).contains(tracks[i]),
        forall|i: int|
            0 <= i < tracks.len() && !spec_keep(tracks[i], min, max) ==> !(
            #[trigger] tracks.filter(keep_pred(min, max)).contains(tracks[i])),
        tracks.filter(keep_pred(min, max)).len() <= tracks.len(),
{
    let pred = keep_pred(min, max);
    #[allow(deprecated)]
    tracks.filter_lemma(pred);
    assert forall|i: int| 0 <= i < tracks.filter(pred).len() implies spec_keep(
        #[trigger] tracks.filter(pred)[i],
        min,
        max,
    ) by {
        assert(pred(tracks.filter(pred)[i]));
    }
    assert forall|i: int|
        0 <= i < tracks.len() && !spec_keep(tracks[i], min, max) implies !(
    #[trigger] tracks.filter(pred).contains(tracks[i])) by {
        if tracks.filter(pred).contains(tracks[i]) {
            let j = choose|j: int|
                0 <= j < tracks.filter(pred).len() && tracks.filter(pred)[j] == tracks[i];
            assert(spec_keep(tracks.filter(pred)[j], min, max));
        }
    }
}

/// Law: whatever the order policy, every track of an assembled group
/// lies within the duration bounds -- ascending keeps the filtered
/// sequence, descending reverses it, and a shuffle keeps its multiset.
pub proof fn lemma_assembled_within_bounds(
    orig: Seq<OrderedTrack>,
    fin: Seq<OrderedTrack>,
    min: Option<u64>,
    max: Option<u64>,
    order: PlayOrder,
)
    requires
        match order {
            PlayOrder::Ascending => fin == orig.filter(keep_pred(min, max)),
            PlayOrder::Descending => fin == orig.filter(keep_pred(min, max)).reverse(),
            PlayOrder::Random => fin.to_multiset() == orig.filter(keep_pred(min, max)).to_multiset(),
        },
    ensures
        forall|k: int| 0 <= k < fin.len() ==> spec_keep(#[trigger] fin[k], min, max),
{
    let kept = orig.filter(keep_pred(min, max));
    lemma_filter_bounds(orig, min, max);
    match order {
        PlayOrder::Ascending => {
        },
        PlayOrder::Descending => {
            assert forall|k: int| 0 <= k < fin.len() implies spec_keep(
                #[trigger] fin[k],
                min,
                max,
            ) by {
                assert(fin[k] == kept[kept.len() - 1 - k]);
            }
        },
        PlayOrder::Random => {
            broadcast use vstd::seq_lib::group_to_multiset_ensures;

            assert forall|k: int| 0 <= k < fin.len() implies spec_keep(
                #[trigger] fin[k],
                min,
                max,
            ) by {
                assert(fin.contains(fin[k]));
                assert(fin.to_multiset().count(fin[k]) > 0);
                assert(kept.to_multiset().count(fin[k]) > 0);
                assert(kept.contains(fin[k]));
                let i = choose|i: int| 0 <= i < kept.len() && kept[i] == fin[k];
                assert(spec_keep(kept[i], min, max));
            }
        },
    }
}

} // verus!
