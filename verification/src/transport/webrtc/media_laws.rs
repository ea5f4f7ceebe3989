//! What holds of local tracks and the peers that carry them.

use vstd::prelude::*;

use super::media::{
    any_published, attached, carriers, is_published, missing_tracks, track_marked, track_registered,
    with_track_attached, with_track_detached,
};
use super::TransportModel;

verus! {

/// Publishing reaches everybody: once a track is published, every peer either
/// carries it or has it among the tracks that it still has to get.
pub proof fn lemma_published_tracks_reach_every_peer(
    before: TransportModel,
    after: TransportModel,
    track: Seq<char>,
    node: Seq<char>,
)
    requires
        before.tracks.dom().contains(track),
        track_marked(before.tracks, after.tracks, track, true),
        after.senders == before.senders,
    ensures
        ({
            let carries = after.senders.dom().contains(node) && after.senders[node].contains(track);
            &&& missing_tracks(after, node).contains(track) <==> !carries
            &&& any_published(after.tracks)
        }),
{
    assert(is_published(after.tracks, track));
}

/// A track that is not published, or that was taken back, is due nowhere.
pub proof fn lemma_withdrawn_tracks_are_due_nowhere(
    before: TransportModel,
    after: TransportModel,
    track: Seq<char>,
    node: Seq<char>,
)
    requires
        before.tracks.dom().contains(track),
        track_marked(before.tracks, after.tracks, track, false),
    ensures
        !missing_tracks(after, node).contains(track),
{
}

/// Publishing one track, or taking it back, leaves every other one as it is.
pub proof fn lemma_publishing_is_local(
    before: TransportModel,
    after: TransportModel,
    track: Seq<char>,
    published: bool,
    other: Seq<char>,
    node: Seq<char>,
)
    requires
        before.tracks.dom().contains(track),
        track_marked(before.tracks, after.tracks, track, published),
        after.senders == before.senders,
        other != track,
    ensures
        after.tracks.dom().contains(other) <==> before.tracks.dom().contains(other),
        before.tracks.dom().contains(other) ==> after.tracks[other] == before.tracks[other],
        missing_tracks(after, node).contains(other) <==> missing_tracks(before, node).contains(
            other,
        ),
        after.tracks.dom().contains(track),
        after.tracks[track].published == published,
        after.tracks[track].kind == before.tracks[track].kind,
{
    assert(after.tracks.remove(track).dom().contains(other) <==> after.tracks.dom().contains(
        other,
    ));
    if before.tracks.dom().contains(other) {
        assert(after.tracks.remove(track)[other] == after.tracks[other]);
        assert(before.tracks.remove(track)[other] == before.tracks[other]);
    }
}

/// A peer still has to get exactly those published tracks that it does not
/// carry, one by one: that it carries some track says nothing of another.
pub proof fn lemma_tracks_are_due_one_by_one(
    model: TransportModel,
    node: Seq<char>,
    track: Seq<char>,
)
    ensures
        missing_tracks(model, node).contains(track) <==> {
            &&& model.tracks.dom().contains(track) && model.tracks[track].published
            &&& !(model.senders.dom().contains(node) && model.senders[node].contains(track))
        },
{
}

/// Attaching a track to a peer takes that track, and no other, off what the peer
/// still has to get, and no other peer is affected.
pub proof fn lemma_attaching_settles_one_track_of_one_peer(
    model: TransportModel,
    node: Seq<char>,
    track: Seq<char>,
    other_node: Seq<char>,
    other_track: Seq<char>,
)
    ensures
        ({
            let after = with_track_attached(model, node, track);
            &&& after.senders.dom().contains(node) && after.senders[node].contains(track)
            &&& missing_tracks(after, node) == missing_tracks(model, node).remove(track)
            &&& other_node != node ==> missing_tracks(after, other_node) == missing_tracks(
                model,
                other_node,
            )
            &&& carriers(after.senders, track) == carriers(model.senders, track).insert(node)
            &&& other_track != track ==> carriers(after.senders, other_track) == carriers(
                model.senders,
                other_track,
            )
            &&& after == TransportModel { senders: after.senders, ..model }
        }),
{
    let after = with_track_attached(model, node, track);
    assert(missing_tracks(after, node) =~= missing_tracks(model, node).remove(track));
    assert(carriers(after.senders, track) =~= carriers(model.senders, track).insert(node));
    if other_node != node {
        assert(missing_tracks(after, other_node) =~= missing_tracks(model, other_node));
    }
    if other_track != track {
        assert(carriers(after.senders, other_track) =~= carriers(model.senders, other_track));
    }
}

/// Taking a track off a peer leaves it carried by exactly the other peers, and
/// every other track where it was.
pub proof fn lemma_detaching_is_local(
    model: TransportModel,
    node: Seq<char>,
    track: Seq<char>,
    other_track: Seq<char>,
)
    requires
        other_track != track,
    ensures
        ({
            let after = with_track_detached(model, node, track);
            &&& carriers(after.senders, track) == carriers(model.senders, track).remove(node)
            &&& carriers(after.senders, other_track) == carriers(model.senders, other_track)
            &&& after == TransportModel { senders: after.senders, ..model }
        }),
{
    let after = with_track_detached(model, node, track);
    assert(carriers(after.senders, track) =~= carriers(model.senders, track).remove(node));
    assert(carriers(after.senders, other_track) =~= carriers(model.senders, other_track));
}

/// A track that was attached and is taken off again is carried as before.
pub proof fn lemma_detaching_undoes_attaching(
    model: TransportModel,
    node: Seq<char>,
    track: Seq<char>,
)
    requires
        !(model.senders.dom().contains(node) && model.senders[node].contains(track)),
    ensures
        ({
            let after = with_track_detached(with_track_attached(model, node, track), node, track);
            &&& attached(after.senders, node) == attached(model.senders, node)
            &&& missing_tracks(after, node) == missing_tracks(model, node)
        }),
{
    let after = with_track_detached(with_track_attached(model, node, track), node, track);
    assert(attached(after.senders, node) =~= attached(model.senders, node));
    assert(missing_tracks(after, node) =~= missing_tracks(model, node));
}

/// A node carries a track exactly if the track is attached to it.
pub proof fn lemma_carriers_have_the_track_attached(
    senders: Map<Seq<char>, Set<Seq<char>>>,
    node: Seq<char>,
    track: Seq<char>,
)
    ensures
        carriers(senders, track).contains(node) <==> attached(senders, node).contains(track),
        carriers(senders, track).contains(node) <==> senders.dom().contains(node)
            && senders[node].contains(track),
{
}

/// A track that is recorded again stays published or unpublished as it was, has
/// its new kind, and leaves the other tracks and all peers alone.
pub proof fn lemma_recording_keeps_what_is_published(
    model: TransportModel,
    track: Seq<char>,
    kind: String,
    other: Seq<char>,
    node: Seq<char>,
)
    ensures
        ({
            let after = track_registered(model, track, kind);
            &&& after.tracks.dom().contains(track) && after.tracks[track].kind == kind
            &&& missing_tracks(after, node) == missing_tracks(model, node)
            &&& any_published(after.tracks) <==> any_published(model.tracks)
            &&& other != track ==> {
                &&& after.tracks.dom().contains(other) == model.tracks.dom().contains(other)
                &&& after.tracks[other] == model.tracks[other]
            }
            &&& after == TransportModel { tracks: after.tracks, ..model }
        }),
{
    let after = track_registered(model, track, kind);
    assert(missing_tracks(after, node) =~= missing_tracks(model, node));
    if any_published(after.tracks) {
        let some = choose|some: Seq<char>| is_published(after.tracks, some);
        assert(is_published(model.tracks, some));
    }
    if any_published(model.tracks) {
        let some = choose|some: Seq<char>| is_published(model.tracks, some);
        assert(is_published(after.tracks, some));
    }
}

/// Some track is published exactly if a peer that carries nothing would have to
/// get one.
pub proof fn lemma_published_tracks_are_announced(model: TransportModel, node: Seq<char>)
    requires
        !model.senders.dom().contains(node),
    ensures
        any_published(model.tracks) <==> exists|track: Seq<char>|
            model.tracks.dom().contains(track) && (#[trigger] model.tracks[track]).published,
        any_published(model.tracks) <==> exists|track: Seq<char>| #[trigger]
            missing_tracks(model, node).contains(track),
{
    if any_published(model.tracks) {
        let some = choose|some: Seq<char>| is_published(model.tracks, some);
        assert(model.tracks[some].published);
        assert(missing_tracks(model, node).contains(some));
    }
    if exists|track: Seq<char>|
        model.tracks.dom().contains(track) && (#[trigger] model.tracks[track]).published {
        let some = choose|track: Seq<char>|
            model.tracks.dom().contains(track) && (#[trigger] model.tracks[track]).published;
        assert(is_published(model.tracks, some));
    }
    if exists|track: Seq<char>| #[trigger] missing_tracks(model, node).contains(track) {
        let some = choose|track: Seq<char>| #[trigger] missing_tracks(model, node).contains(track);
        assert(is_published(model.tracks, some));
    }
}

} // verus!
