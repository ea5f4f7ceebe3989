//! ICE candidates that arrived before the remote description.

use vstd::prelude::*;

use crate::table::Table;
use crate::text::texts_of;
use crate::types::{is_live, ConnectionState, NodeId};

verus! {

/// Most candidates kept for one node.
pub const MAX_PENDING_CANDIDATES_PER_NODE: usize = 64;

/// Most nodes for which candidates are meant to be kept.
pub const MAX_PENDING_CANDIDATE_NODES: usize = 256;

/// The candidates kept for `node`, none if the node is unknown.
pub open spec fn candidates_for(
    pending: Map<Seq<char>, Seq<Seq<char>>>,
    node: Seq<char>,
) -> Seq<Seq<char>> {
    if pending.dom().contains(node) {
        pending[node]
    } else {
        Seq::empty()
    }
}

/// The newest candidates of a list that has grown by one.
pub open spec fn newest_candidates(list: Seq<Seq<char>>) -> Seq<Seq<char>> {
    if list.len() > MAX_PENDING_CANDIDATES_PER_NODE {
        list.drop_first()
    } else {
        list
    }
}

/// Candidates by node, oldest first.
pub struct PendingCandidates {
    inner: Table<NodeId, Vec<String>>,
}

impl View for PendingCandidates {
    type V = Map<Seq<char>, Seq<Seq<char>>>;

    closed spec fn view(&self) -> Map<Seq<char>, Seq<Seq<char>>> {
        self.inner@.map_values(|list: Vec<String>| texts_of(list@))
    }
}

impl Default for PendingCandidates {
    fn default() -> (pending: Self)
        ensures
            pending@ == Map::<Seq<char>, Seq<Seq<char>>>::empty(),
    {
        let pending = PendingCandidates { inner: Table::new() };
        assert(pending@ =~= Map::empty());
        pending
    }
}

impl PendingCandidates {
    #[verifier::type_invariant]
    spec fn bounded(self) -> bool {
        forall|node: Seq<char>| #[trigger]
            self.inner@.dom().contains(node) ==> 0 < self.inner@[node]@.len()
                <= MAX_PENDING_CANDIDATES_PER_NODE
    }

    /// Keeps one more candidate for `node`; beyond the limit the oldest one is
    /// dropped. Returns whether that happened.
    pub fn push(&mut self, node: NodeId, candidate: String) -> (dropped_oldest: bool)
        ensures
            final(self)@ == old(self)@.insert(
                node@,
                newest_candidates(candidates_for(old(self)@, node@).push(candidate@)),
            ),
            dropped_oldest == (candidates_for(old(self)@, node@).len()
                == MAX_PENDING_CANDIDATES_PER_NODE),
    {
        proof {
            use_type_invariant(&*self);
        }
        let ghost before = self.inner@;
        let mut inner: Table<NodeId, Vec<String>> = Table::new();
        std::mem::swap(&mut inner, &mut self.inner);
        let mut list = match inner.remove(&node) {
            Some(list) => list,
            None => Vec::new(),
        };
        list.push(candidate);
        let dropped_oldest = list.len() > MAX_PENDING_CANDIDATES_PER_NODE;
        if dropped_oldest {
            list.remove(0);
        }
        proof {
            let grown = candidates_for(old(self)@, node@).push(candidate@);
            assert(texts_of(list@) =~= newest_candidates(grown));
        }
        let _ = inner.insert(node, list);
        self.inner = inner;
        assert(self@ =~= old(self)@.insert(
            node@,
            newest_candidates(candidates_for(old(self)@, node@).push(candidate@)),
        ));
        dropped_oldest
    }

    pub fn contains_node(&self, node: &NodeId) -> (held: bool)
        ensures
            held == self@.dom().contains(node@),
    {
        self.inner.contains_key(node)
    }

    pub fn node_count(&self) -> (count: usize)
        ensures
            count == self@.len(),
    {
        assert(self@.dom() =~= self.inner@.dom());
        self.inner.len()
    }

    /// Hands out the candidates of `node`, oldest first, and forgets them.
    pub fn take(&mut self, node: &NodeId) -> (candidates: Option<Vec<String>>)
        ensures
            final(self)@ == old(self)@.remove(node@),
            match candidates {
                Some(list) => old(self)@.dom().contains(node@) && texts_of(list@) == old(self)@[node@] && 0
                    < list@.len() <= MAX_PENDING_CANDIDATES_PER_NODE,
                None => !old(self)@.dom().contains(node@),
            },
    {
        proof {
            use_type_invariant(&*self);
        }
        let mut inner: Table<NodeId, Vec<String>> = Table::new();
        std::mem::swap(&mut inner, &mut self.inner);
        let candidates = inner.remove(node);
        self.inner = inner;
        assert(self@ =~= old(self)@.remove(node@));
        candidates
    }

    /// Forgets the candidates of `node` and returns them.
    pub fn remove(&mut self, node: &NodeId) -> (candidates: Option<Vec<String>>)
        ensures
            final(self)@ == old(self)@.remove(node@),
            match candidates {
                Some(list) => old(self)@.dom().contains(node@) && texts_of(list@) == old(self)@[node@],
                None => !old(self)@.dom().contains(node@),
            },
    {
        self.take(node)
    }

    pub fn clear(&mut self)
        ensures
            final(self)@ == Map::<Seq<char>, Seq<Seq<char>>>::empty(),
    {
        self.inner = Table::new();
        assert(self@ =~= Map::empty());
    }

    /// How many candidates wait for `node`.
    pub fn len_for(&self, node: &NodeId) -> (count: usize)
        ensures
            count == candidates_for(self@, node@).len(),
            count <= MAX_PENDING_CANDIDATES_PER_NODE,
    {
        proof {
            use_type_invariant(self);
        }
        match self.inner.get(node) {
            Some(list) => list.len(),
            None => 0,
        }
    }
}

/// Whether candidates are worth keeping for a connection in `state`.
pub open spec fn active_for_pending(state: Option<ConnectionState>) -> bool {
    state is Some && is_live(state->Some_0)
}

pub fn is_active_for_pending(state: Option<&ConnectionState>) -> (active: bool)
    ensures
        active == match state {
            Some(s) => active_for_pending(Some(*s)),
            None => active_for_pending(None),
        },
{
    match state {
        Some(s) => s.is_live(),
        None => false,
    }
}

/// Whether a candidate is kept for a connection in `state`.
pub open spec fn is_buffered(
    state: Option<ConnectionState>,
    buffer_early_candidates: bool,
) -> bool {
    active_for_pending(state) || (buffer_early_candidates && state is None)
}

/// Like [`is_active_for_pending`], but candidates of an unknown node are also
/// kept where early candidates are allowed.
pub fn should_buffer_candidate(
    state: Option<&ConnectionState>,
    buffer_early_candidates: bool,
) -> (buffer: bool)
    ensures
        buffer == match state {
            Some(s) => active_for_pending(Some(*s)),
            None => buffer_early_candidates,
        },
        buffer == is_buffered(
            match state {
                Some(s) => Some(*s),
                None => None,
            },
            buffer_early_candidates,
        ),
{
    is_active_for_pending(state) || (buffer_early_candidates && state.is_none())
}

/// Candidates are kept for a connection that is up or on its way up. For an
/// unknown node they are kept exactly if early ones are allowed, which makes no
/// difference for a known one.
pub proof fn lemma_candidates_are_kept_for_live_connections(
    state: ConnectionState,
    buffer_early_candidates: bool,
)
    ensures
        active_for_pending(Some(state)) <==> state != ConnectionState::Disconnected && state
            != ConnectionState::Failed,
        !active_for_pending(None),
        is_buffered(Some(state), buffer_early_candidates) == active_for_pending(Some(state)),
        is_buffered(None, buffer_early_candidates) == buffer_early_candidates,
{
}

/// A list that outgrew its limit loses its oldest candidate and nothing else;
/// the one that came last always stays.
pub proof fn lemma_newest_candidates_stay(list: Seq<Seq<char>>, candidate: Seq<char>)
    requires
        list.len() <= 64,
    ensures
        newest_candidates(list.push(candidate)).last() == candidate,
        newest_candidates(list.push(candidate)).len() <= 64,
        list.len() < 64 ==> newest_candidates(list.push(candidate)) == list.push(candidate),
        list.len() == 64 ==> newest_candidates(list.push(candidate)) == list.skip(1).push(candidate),
{
    assert(list.len() == 64 ==> newest_candidates(list.push(candidate)) =~= list.skip(1).push(
        candidate,
    ));
}

/// Candidates are kept node by node.
pub proof fn lemma_candidates_are_kept_by_node(
    pending: Map<Seq<char>, Seq<Seq<char>>>,
    node: Seq<char>,
    list: Seq<Seq<char>>,
    other: Seq<char>,
)
    ensures
        candidates_for(pending.insert(node, list), node) == list,
        candidates_for(pending.remove(node), node).len() == 0,
        other != node ==> candidates_for(pending.insert(node, list), other) == candidates_for(
            pending,
            other,
        ) && candidates_for(pending.remove(node), other) == candidates_for(pending, other),
{
}

} // verus!
