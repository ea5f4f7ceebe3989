//! ICE servers that a peer connection is built with.

use vstd::prelude::*;

use crate::text::{copy_optional, copy_texts, has_prefix};

verus! {

/// A STUN or TURN server as configured.
#[derive(Debug)]
pub struct IceServer {
    pub urls: Vec<String>,
    pub username: Option<String>,
    pub credential: Option<String>,
}

/// A server that can be handed to a peer connection.
#[derive(Debug, Clone, PartialEq, Eq)]
pub struct IceServerPlan {
    pub urls: Vec<String>,
    pub username: Option<String>,
    pub credential: Option<String>,
}

/// Whether a URL names a TURN server.
pub open spec fn is_turn_url(url: Seq<char>) -> bool {
    "turn:"@.is_prefix_of(url) || "turns:"@.is_prefix_of(url)
}

pub open spec fn is_filled(text: Option<String>) -> bool {
    text is Some && text->Some_0@.len() > 0
}

/// Whether browsers take the server: it has a URL, and credentials where one
/// of the URLs names a TURN server.
pub open spec fn usable(server: IceServer) -> bool {
    &&& server.urls@.len() > 0
    &&& (exists|i: int| 0 <= i < server.urls@.len() && is_turn_url((#[trigger] server.urls@[i])@))
        ==> is_filled(server.username) && is_filled(server.credential)
}

/// The same server as a plan.
pub open spec fn plan_of(server: IceServer, plan: IceServerPlan) -> bool {
    plan.urls@ == server.urls@ && plan.username == server.username && plan.credential
        == server.credential
}

/// The servers that can be used, in order.
pub open spec fn usable_servers(servers: Seq<IceServer>) -> Seq<IceServer> {
    servers.filter(|server: IceServer| usable(server))
}

/// Whether two lists name the same servers with the same credentials.
pub open spec fn same_servers(a: Seq<IceServer>, b: Seq<IceServer>) -> bool {
    &&& a.len() == b.len()
    &&& forall|i: int|
        0 <= i < a.len() ==> (#[trigger] a[i]).urls@ == b[i].urls@ && a[i].username == b[i].username
            && a[i].credential == b[i].credential
}

/// The same servers once more.
pub fn copy_servers(servers: &Vec<IceServer>) -> (copy: Vec<IceServer>)
    ensures
        same_servers(copy@, servers@),
{
    let mut copy: Vec<IceServer> = Vec::new();
    let mut i: usize = 0;
    while i < servers.len()
        invariant
            i <= servers@.len(),
            same_servers(copy@, servers@.take(i as int)),
        decreases servers@.len() - i,
    {
        copy.push(
            IceServer {
                urls: copy_texts(&servers[i].urls),
                username: copy_optional(&servers[i].username),
                credential: copy_optional(&servers[i].credential),
            },
        );
        i = i + 1;
    }
    assert(servers@.take(i as int) =~= servers@);
    copy
}

fn is_filled_text(text: &Option<String>) -> (filled: bool)
    ensures
        filled == is_filled(*text),
{
    match text {
        Some(text) => !text.as_str().is_empty(),
        None => false,
    }
}

impl IceServer {
    pub fn is_usable(&self) -> (answer: bool)
        ensures
            answer == usable(*self),
    {
        let mut names_turn: bool = false;
        let mut i: usize = 0;
        while i < self.urls.len()
            invariant
                i <= self.urls@.len(),
                names_turn == exists|j: int|
                    0 <= j < i && is_turn_url((#[trigger] self.urls@[j])@),
            decreases self.urls@.len() - i,
        {
            let url = self.urls[i].as_str();
            if has_prefix(url, "turn:") || has_prefix(url, "turns:") {
                assert(is_turn_url(self.urls@[i as int]@));
                names_turn = true;
            }
            i = i + 1;
        }
        self.urls.len() > 0 && (!names_turn || (is_filled_text(&self.username) && is_filled_text(
            &self.credential,
        )))
    }
}

/// Turns the configured servers into plans and leaves out those that cannot be
/// used. An empty list stays empty.
pub fn build_ice_server_plans(servers: &[IceServer]) -> (plans: Vec<IceServerPlan>)
    ensures
        plans@.len() == usable_servers(servers@).len(),
        forall|i: int|
            0 <= i < plans@.len() ==> plan_of(usable_servers(servers@)[i], #[trigger] plans@[i]),
{
    let ghost keep = |server: IceServer| usable(server);
    let mut plans: Vec<IceServerPlan> = Vec::new();
    let mut i: usize = 0;
    proof {
        reveal(Seq::filter);
        assert(servers@.take(0).filter(keep) =~= Seq::empty());
    }
    while i < servers.len()
        invariant
            i <= servers@.len(),
            keep == (|server: IceServer| usable(server)),
            plans@.len() == servers@.take(i as int).filter(keep).len(),
            forall|j: int|
                0 <= j < plans@.len() ==> plan_of(
                    servers@.take(i as int).filter(keep)[j],
                    #[trigger] plans@[j],
                ),
        decreases servers@.len() - i,
    {
        let server = &servers[i];
        proof {
            reveal(Seq::filter);
            assert(servers@.take(i + 1).drop_last() =~= servers@.take(i as int));
        }
        if server.is_usable() {
            plans.push(
                IceServerPlan {
                    urls: copy_texts(&server.urls),
                    username: copy_optional(&server.username),
                    credential: copy_optional(&server.credential),
                },
            );
        }
        i = i + 1;
    }
    assert(servers@.take(i as int) =~= servers@);
    plans
}

/// A URL names a TURN server by its scheme alone, secure or not.
pub proof fn lemma_turn_servers_are_told_by_their_scheme(rest: Seq<char>)
    ensures
        is_turn_url("turn:"@ + rest),
        is_turn_url("turns:"@ + rest),
        !is_turn_url("stun:"@ + rest),
        !is_turn_url("stuns:"@ + rest),
{
    reveal_strlit("turn:");
    reveal_strlit("turns:");
    reveal_strlit("stun:");
    reveal_strlit("stuns:");
    assert("turn:"@ =~= ("turn:"@ + rest).take(5));
    assert("turns:"@ =~= ("turns:"@ + rest).take(6));
    assert(("stun:"@ + rest)[0] == 's');
    assert(("stuns:"@ + rest)[0] == 's');
    if "turn:"@.is_prefix_of("stun:"@ + rest) {
        assert(("stun:"@ + rest).take(5)[0] == 't');
    }
    if "turns:"@.is_prefix_of("stun:"@ + rest) {
        assert(("stun:"@ + rest).take(6)[0] == 't');
    }
    if "turn:"@.is_prefix_of("stuns:"@ + rest) {
        assert(("stuns:"@ + rest).take(5)[0] == 't');
    }
    if "turns:"@.is_prefix_of("stuns:"@ + rest) {
        assert(("stuns:"@ + rest).take(6)[0] == 't');
    }
}

/// A server with a URL can be used unless it names a TURN server without a name
/// and a secret for it; a server without a URL cannot.
pub proof fn lemma_servers_need_what_they_name(server: IceServer)
    ensures
        server.urls@.len() == 0 ==> !usable(server),
        server.urls@.len() > 0 && (forall|i: int|
            0 <= i < server.urls@.len() ==> !is_turn_url((#[trigger] server.urls@[i])@)) ==> usable(
            server,
        ),
        server.urls@.len() > 0 && server.username is Some && server.username->Some_0@.len() > 0
            && server.credential is Some && server.credential->Some_0@.len() > 0 ==> usable(server),
        (server.username is None || server.username->Some_0@.len() == 0 || server.credential is None
            || server.credential->Some_0@.len() == 0) && (exists|i: int|
            0 <= i < server.urls@.len() && is_turn_url((#[trigger] server.urls@[i])@)) ==> !usable(
            server,
        ),
{
}

/// The servers that can be used stay in their order, each that can and no other.
pub proof fn lemma_usable_servers_keep_their_order(servers: Seq<IceServer>, server: IceServer)
    ensures
        usable_servers(Seq::empty()) == Seq::<IceServer>::empty(),
        usable_servers(servers.push(server)) == if usable(server) {
            usable_servers(servers).push(server)
        } else {
            usable_servers(servers)
        },
{
    reveal(Seq::filter);
    assert(servers.push(server).drop_last() =~= servers);
    assert(usable_servers(Seq::empty()) =~= Seq::<IceServer>::empty());
}

/// A copy of a list of servers is as good as the list: the same servers can be
/// used.
pub proof fn lemma_copies_of_servers_are_as_usable(a: Seq<IceServer>, b: Seq<IceServer>, i: int)
    requires
        same_servers(a, b),
        0 <= i < a.len(),
    ensures
        a.len() == b.len(),
        a[i].urls@ == b[i].urls@,
        a[i].username == b[i].username,
        a[i].credential == b[i].credential,
        usable(a[i]) <==> usable(b[i]),
{
    assert(a[i].urls@ == b[i].urls@);
}

} // verus!
