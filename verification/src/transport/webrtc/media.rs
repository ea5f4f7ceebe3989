//! Local media tracks and the peers they are attached to.

use vstd::prelude::*;

use super::{LocalTrack, TransportModel, WasmWebRtcTransport};
use crate::table::{
    distinct_keys, entries_map, lemma_entries_at, lemma_entries_dom, NameSet, TableKey,
};
use crate::text::{join_text, texts_of};
use crate::types::{ErrorModel, MistError, NodeId};

verus! {

/// Whether a track is known and published.
pub open spec fn is_published(tracks: Map<Seq<char>, LocalTrack>, track: Seq<char>) -> bool {
    tracks.dom().contains(track) && tracks[track].published
}

/// Whether any track is published.
pub open spec fn any_published(tracks: Map<Seq<char>, LocalTrack>) -> bool {
    exists|track: Seq<char>| is_published(tracks, track)
}

/// The tracks that are attached to a peer.
pub open spec fn attached(senders: Map<Seq<char>, Set<Seq<char>>>, node: Seq<char>) -> Set<
    Seq<char>,
> {
    if senders.dom().contains(node) {
        senders[node]
    } else {
        Set::empty()
    }
}

/// The published tracks that a peer does not carry yet.
pub open spec fn missing_tracks(model: TransportModel, node: Seq<char>) -> Set<Seq<char>> {
    Set::new(
        |track: Seq<char>|
            is_published(model.tracks, track) && !attached(model.senders, node).contains(track),
    )
}

/// The nodes that carry a track.
pub open spec fn carriers(senders: Map<Seq<char>, Set<Seq<char>>>, track: Seq<char>) -> Set<
    Seq<char>,
> {
    Set::new(|node: Seq<char>| senders.dom().contains(node) && senders[node].contains(track))
}

/// What is known about a track after it is published or taken back.
pub open spec fn track_marked(
    before: Map<Seq<char>, LocalTrack>,
    after: Map<Seq<char>, LocalTrack>,
    track: Seq<char>,
    published: bool,
) -> bool {
    &&& after.dom() == before.dom()
    &&& after.remove(track) == before.remove(track)
    &&& after[track].kind == before[track].kind
    &&& after[track].published == published
}

/// What is known after a local track was recorded: one that was published stays
/// so.
pub open spec fn track_registered(
    model: TransportModel,
    track: Seq<char>,
    kind: String,
) -> TransportModel {
    TransportModel {
        tracks: model.tracks.insert(
            track,
            LocalTrack { kind, published: is_published(model.tracks, track) },
        ),
        ..model
    }
}

/// What is known after a track was attached to a peer.
pub open spec fn with_track_attached(
    model: TransportModel,
    node: Seq<char>,
    track: Seq<char>,
) -> TransportModel {
    TransportModel {
        senders: model.senders.insert(node, attached(model.senders, node).insert(track)),
        ..model
    }
}

/// What is known after a track was taken off a peer.
pub open spec fn with_track_detached(
    model: TransportModel,
    node: Seq<char>,
    track: Seq<char>,
) -> TransportModel {
    if carriers(model.senders, track).contains(node) {
        TransportModel {
            senders: model.senders.insert(node, model.senders[node].remove(track)),
            ..model
        }
    } else {
        model
    }
}

fn unknown_track(track_id: &String) -> (error: MistError)
    ensures
        error@ == ErrorModel::Internal("Unknown local track: "@ + track_id@),
{
    MistError::Internal(join_text("Unknown local track: ", track_id.as_str()))
}

impl WasmWebRtcTransport {
    /// Records a local track. A track that was published stays published;
    /// returns the nodes whose senders then get the new track.
    pub fn register_local_track(&mut self, track_id: String, kind: String) -> (replace: Vec<NodeId>)
        ensures
            final(self)@ == (TransportModel {
                tracks: old(self)@.tracks.insert(
                    track_id@,
                    LocalTrack { kind, published: is_published(old(self)@.tracks, track_id@) },
                ),
                ..old(self)@
            }),
            final(self)@ == track_registered(old(self)@, track_id@, kind),
            replace@.map_values(|node: NodeId| node@).no_duplicates(),
            is_published(old(self)@.tracks, track_id@) ==> replace@.map_values(
                |node: NodeId| node@,
            ).to_set() == carriers(old(self)@.senders, track_id@),
            !is_published(old(self)@.tracks, track_id@) ==> replace@.len() == 0,
    {
        let published = match self.local_tracks.get(&track_id) {
            Some(track) => track.published,
            None => false,
        };
        let replace = if published {
            self.carrying_nodes(&track_id)
        } else {
            Vec::new()
        };
        let _ = self.local_tracks.insert(track_id, LocalTrack { kind, published });
        replace
    }

    /// The nodes that carry a track, each once.
    pub fn carrying_nodes(&self, track_id: &String) -> (nodes: Vec<NodeId>)
        ensures
            nodes@.map_values(|node: NodeId| node@).no_duplicates(),
            nodes@.map_values(|node: NodeId| node@).to_set() == carriers(
                self@.senders,
                track_id@,
            ),
    {
        let entries = self.peer_senders.entries();
        let mut nodes: Vec<NodeId> = Vec::new();
        let mut i: usize = 0;
        let ghost mut places: Seq<int> = Seq::empty();
        proof {
            lemma_entries_dom(entries@);
        }
        while i < entries.len()
            invariant
                i <= entries@.len(),
                distinct_keys(entries@),
                entries_map(entries@) == self.peer_senders@,
                places.len() == nodes@.len(),
                forall|j: int|
                    0 <= j < places.len() ==> 0 <= #[trigger] places[j] < i && nodes@[j]
                        == entries@[places[j]].0 && entries@[places[j]].1@.contains(track_id@),
                forall|a: int, b: int| 0 <= a < b < places.len() ==> places[a] < places[b],
                forall|k: int|
                    0 <= k < i && (#[trigger] entries@[k]).1@.contains(track_id@)
                        ==> places.contains(k),
            decreases entries@.len() - i,
        {
            if entries[i].1.contains(track_id) {
                let ghost before = places;
                nodes.push(entries[i].0.clone());
                proof {
                    places = places.push(i as int);
                    assert(places[before.len() as int] == i);
                    assert forall|k: int|
                        0 <= k < i + 1 && (#[trigger] entries@[k]).1@.contains(
                            track_id@,
                        ) implies places.contains(k) by {
                        if k < i {
                            let j = choose|j: int| 0 <= j < before.len() && before[j] == k;
                            assert(places[j] == k);
                        }
                    }
                }
            }
            i = i + 1;
        }
        proof {
            let names = nodes@.map_values(|node: NodeId| node@);
            let wanted = carriers(self@.senders, track_id@);
            assert forall|a: int, b: int|
                0 <= a < names.len() && 0 <= b < names.len() && a != b implies names[a]
                != names[b] by {
                let pa = places[a];
                let pb = places[b];
                assert(pa != pb);
                assert(entries@[pa].0.model() != entries@[pb].0.model());
            }
            assert forall|node: Seq<char>| names.to_set().contains(node) <==> wanted.contains(
                node,
            ) by {
                if names.contains(node) {
                    let j = choose|j: int| 0 <= j < names.len() && names[j] == node;
                    lemma_entries_at(entries@, places[j]);
                    assert(entries@[places[j]].0.model() == node);
                }
                if wanted.contains(node) {
                    let k = choose|k: int|
                        0 <= k < entries@.len() && (#[trigger] entries@[k]).0.model() == node;
                    lemma_entries_at(entries@, k);
                    assert(places.contains(k));
                    let j = choose|j: int| 0 <= j < places.len() && places[j] == k;
                    assert(names[j] == node);
                }
            }
            assert(names.to_set() =~= wanted);
        }
        nodes
    }

    fn mark_track(&mut self, track_id: &String, published: bool) -> (marked: Result<(), MistError>)
        ensures
            marked is Ok <==> old(self)@.tracks.dom().contains(track_id@),
            marked matches Err(error) ==> error@ == ErrorModel::Internal(
                "Unknown local track: "@ + track_id@,
            ) && final(self)@ == old(self)@,
            marked is Ok ==> {
                &&& track_marked(old(self)@.tracks, final(self)@.tracks, track_id@, published)
                &&& final(self)@ == (TransportModel { tracks: final(self)@.tracks, ..old(self)@ })
            },
    {
        match self.local_tracks.remove(track_id) {
            Some(track) => {
                let _ = self.local_tracks.insert(
                    track_id.clone(),
                    LocalTrack { kind: track.kind, published },
                );
                proof {
                    assert(self@.tracks.dom() =~= old(self)@.tracks.dom());
                    assert(self@.tracks.remove(track_id@) =~= old(self)@.tracks.remove(track_id@));
                }
                Ok(())
            },
            None => {
                assert(self@.tracks =~= old(self)@.tracks);
                Err(unknown_track(track_id))
            },
        }
    }

    /// The peers of the room with their connections.
    pub fn current_peers(&self) -> (peers: Vec<(NodeId, u64)>)
        ensures
            distinct_keys(peers@),
            entries_map(peers@) == self@.peers,
    {
        let entries = self.peers.entries();
        let mut peers: Vec<(NodeId, u64)> = Vec::new();
        let mut i: usize = 0;
        while i < entries.len()
            invariant
                i <= entries@.len(),
                peers@ == entries@.take(i as int),
            decreases entries@.len() - i,
        {
            peers.push((entries[i].0.clone(), entries[i].1));
            assert(entries@.take(i + 1) =~= entries@.take(i as int).push(entries@[i as int]));
            i = i + 1;
        }
        assert(entries@.take(i as int) =~= entries@);
        peers
    }

    /// Publishes a track and returns the peers that it is offered to.
    pub fn publish_local_track(&mut self, track_id: &String) -> (peers: Result<
        Vec<(NodeId, u64)>,
        MistError,
    >)
        ensures
            peers is Ok <==> old(self)@.tracks.dom().contains(track_id@),
            peers matches Err(error) ==> error@ == ErrorModel::Internal(
                "Unknown local track: "@ + track_id@,
            ) && final(self)@ == old(self)@,
            peers matches Ok(listed) ==> {
                &&& track_marked(old(self)@.tracks, final(self)@.tracks, track_id@, true)
                &&& final(self)@ == (TransportModel { tracks: final(self)@.tracks, ..old(self)@ })
                &&& distinct_keys(listed@)
                &&& entries_map(listed@) == old(self)@.peers
            },
    {
        match self.mark_track(track_id, true) {
            Ok(_) => Ok(self.current_peers()),
            Err(error) => Err(error),
        }
    }

    /// Takes a published track back and returns the peers that it is withdrawn
    /// from.
    pub fn unpublish_local_track(&mut self, track_id: &String) -> (peers: Result<
        Vec<(NodeId, u64)>,
        MistError,
    >)
        ensures
            peers is Ok <==> old(self)@.tracks.dom().contains(track_id@),
            peers matches Err(error) ==> error@ == ErrorModel::Internal(
                "Unknown local track: "@ + track_id@,
            ) && final(self)@ == old(self)@,
            peers matches Ok(listed) ==> {
                &&& track_marked(old(self)@.tracks, final(self)@.tracks, track_id@, false)
                &&& final(self)@ == (TransportModel { tracks: final(self)@.tracks, ..old(self)@ })
                &&& distinct_keys(listed@)
                &&& entries_map(listed@) == old(self)@.peers
            },
    {
        match self.mark_track(track_id, false) {
            Ok(_) => Ok(self.current_peers()),
            Err(error) => Err(error),
        }
    }

    /// Forgets a local track.
    pub fn remove_local_track(&mut self, track_id: &String)
        ensures
            final(self)@ == (TransportModel {
                tracks: old(self)@.tracks.remove(track_id@),
                ..old(self)@
            }),
    {
        let _ = self.local_tracks.remove(track_id);
    }

    /// Whether a local track is known; used before it is switched on or off.
    pub fn check_local_track(&self, track_id: &String) -> (known: Result<(), MistError>)
        ensures
            known is Ok <==> self@.tracks.dom().contains(track_id@),
            known matches Err(error) ==> error@ == ErrorModel::Internal(
                "Unknown local track: "@ + track_id@,
            ),
    {
        if self.local_tracks.contains_key(track_id) {
            Ok(())
        } else {
            Err(unknown_track(track_id))
        }
    }

    /// The published tracks that must be attached to a peer, each once.
    pub fn attach_published_tracks_to_peer(&self, node: &NodeId) -> (tracks: Vec<String>)
        ensures
            texts_of(tracks@).to_set() == missing_tracks(self@, node@),
            texts_of(tracks@).no_duplicates(),
    {
        let entries = self.local_tracks.entries();
        let mut tracks: Vec<String> = Vec::new();
        let mut i: usize = 0;
        let ghost mut places: Seq<int> = Seq::empty();
        proof {
            lemma_entries_dom(entries@);
        }
        while i < entries.len()
            invariant
                i <= entries@.len(),
                distinct_keys(entries@),
                entries_map(entries@) == self@.tracks,
                places.len() == tracks@.len(),
                forall|j: int|
                    0 <= j < places.len() ==> 0 <= #[trigger] places[j] < i && tracks@[j]
                        == entries@[places[j]].0 && missing_tracks(self@, node@).contains(
                        tracks@[j]@,
                    ),
                forall|a: int, b: int| 0 <= a < b < places.len() ==> places[a] < places[b],
                forall|k: int|
                    0 <= k < i && missing_tracks(self@, node@).contains(
                        (#[trigger] entries@[k]).0@,
                    ) ==> places.contains(k),
            decreases entries@.len() - i,
        {
            let carried = match self.peer_senders.get(node) {
                Some(senders) => senders.contains(&entries[i].0),
                None => false,
            };
            proof {
                lemma_entries_at(entries@, i as int);
                assert(carried == attached(self@.senders, node@).contains(
                    entries@[i as int].0@,
                ));
            }
            if entries[i].1.published && !carried {
                let ghost before = places;
                tracks.push(entries[i].0.clone());
                proof {
                    places = places.push(i as int);
                    assert(places[before.len() as int] == i);
                    assert forall|k: int|
                        0 <= k < i + 1 && missing_tracks(self@, node@).contains(
                            (#[trigger] entries@[k]).0@,
                        ) implies places.contains(k) by {
                        if k < i {
                            let j = choose|j: int| 0 <= j < before.len() && before[j] == k;
                            assert(places[j] == k);
                        }
                    }
                }
            }
            i = i + 1;
        }
        proof {
            let names = texts_of(tracks@);
            let wanted = missing_tracks(self@, node@);
            assert forall|a: int, b: int|
                0 <= a < names.len() && 0 <= b < names.len() && a != b implies names[a]
                != names[b] by {
                let pa = places[a];
                let pb = places[b];
                assert(pa != pb);
                assert(entries@[pa].0.model() != entries@[pb].0.model());
            }
            assert forall|track: Seq<char>| names.to_set().contains(track) <==> wanted.contains(
                track,
            ) by {
                if names.contains(track) {
                    let j = choose|j: int| 0 <= j < names.len() && names[j] == track;
                    assert(0 <= places[j] < entries@.len());
                }
                if wanted.contains(track) {
                    let k = choose|k: int|
                        0 <= k < entries@.len() && (#[trigger] entries@[k]).0.model() == track;
                    assert(places.contains(k));
                    let j = choose|j: int| 0 <= j < places.len() && places[j] == k;
                    assert(names[j] == track);
                }
            }
            assert(names.to_set() =~= wanted);
        }
        tracks
    }

    /// Records that a track is attached to a peer.
    pub fn track_attached(&mut self, node: &NodeId, track_id: String)
        ensures
            final(self)@ == (TransportModel {
                senders: old(self)@.senders.insert(
                    node@,
                    attached(old(self)@.senders, node@).insert(track_id@),
                ),
                ..old(self)@
            }),
            final(self)@ == with_track_attached(old(self)@, node@, track_id@),
    {
        let mut senders = match self.peer_senders.remove(node) {
            Some(senders) => senders,
            None => NameSet::new(),
        };
        let _ = senders.insert(track_id);
        let _ = self.peer_senders.insert(node.clone(), senders);
        assert(self@.senders =~= old(self)@.senders.insert(
            node@,
            attached(old(self)@.senders, node@).insert(track_id@),
        ));
    }

    /// Takes a track off a peer. Returns whether the peer carried it, so that
    /// the change must be negotiated.
    pub fn track_detached(&mut self, node: &NodeId, track_id: &String) -> (carried: bool)
        ensures
            carried == carriers(old(self)@.senders, track_id@).contains(node@),
            !carried ==> final(self)@ == old(self)@,
            carried ==> final(self)@ == (TransportModel {
                senders: old(self)@.senders.insert(
                    node@,
                    old(self)@.senders[node@].remove(track_id@),
                ),
                ..old(self)@
            }),
            final(self)@ == with_track_detached(old(self)@, node@, track_id@),
    {
        let carried = match self.peer_senders.get(node) {
            Some(senders) => senders.contains(track_id),
            None => false,
        };
        if !carried {
            return false;
        }
        if let Some(mut senders) = self.peer_senders.remove(node) {
            let _ = senders.remove(track_id);
            let _ = self.peer_senders.insert(node.clone(), senders);
        }
        assert(self@.senders =~= old(self)@.senders.insert(
            node@,
            old(self)@.senders[node@].remove(track_id@),
        ));
        true
    }

    /// Whether at least one local track is published.
    pub fn has_published_tracks(&self) -> (published: bool)
        ensures
            published == any_published(self@.tracks),
    {
        let entries = self.local_tracks.entries();
        proof {
            lemma_entries_dom(entries@);
        }
        let mut i: usize = 0;
        while i < entries.len()
            invariant
                i <= entries@.len(),
                distinct_keys(entries@),
                entries_map(entries@) == self@.tracks,
                forall|j: int| 0 <= j < i ==> !(#[trigger] entries@[j]).1.published,
            decreases entries@.len() - i,
        {
            if entries[i].1.published {
                proof {
                    lemma_entries_at(entries@, i as int);
                    assert(is_published(self@.tracks, entries@[i as int].0.model()));
                }
                return true;
            }
            i = i + 1;
        }
        proof {
            if any_published(self@.tracks) {
                let track = choose|track: Seq<char>| is_published(self@.tracks, track);
                let j = choose|j: int|
                    0 <= j < entries@.len() && (#[trigger] entries@[j]).0.model() == track;
                lemma_entries_at(entries@, j);
            }
        }
        false
    }
}

} // verus!
