//! The state of a node as a mathematical value, and what each message does
//! to it: the model that the contracts of [`crate::node::Node`] speak of.

use vstd::prelude::*;
use crate::chord::{
    distance, hashable, in_interval, in_interval_to, owns, CHORD_RING_SIZE, FINGERTABLE_SIZE,
    SUCCESSORLIST_SIZE,
};
use crate::fingertable::FingerEntry;
use crate::node::OtherNode;
use crate::protocols::{Envelope, Message, Request, Response};
use crate::storage::{lists, log_line, DHTEntry};
use crate::text::decimal;

verus! {

/// What a node knows, as plain mathematical values.
pub struct NodeState {
    /// The node itself, as its peers see it.
    pub me: OtherNode,
    /// The finger table; its first entry names the successor.
    pub fingers: Seq<FingerEntry>,
    /// The successor list, nearest first.
    pub successors: Seq<OtherNode>,
    pub predecessor: Option<OtherNode>,
    /// The entries this node stores, by key identifier.
    pub store: Map<u64, DHTEntry>,
    /// What the node noted of its own operations, oldest line first.
    pub log: Seq<Seq<char>>,
    /// Whether the node has learnt its successor from the ring.
    pub joined: bool,
}

/// A state is well formed when the finger table holds between one and
/// `FINGERTABLE_SIZE` entries, the successor list between one and
/// `SUCCESSORLIST_SIZE`, and the head of the successor list is the successor
/// that the finger table names.
pub open spec fn well_formed(s: NodeState) -> bool {
    &&& 1 <= s.fingers.len() <= FINGERTABLE_SIZE
    &&& 1 <= s.successors.len() <= SUCCESSORLIST_SIZE
    &&& s.successors[0] == s.successor()
}

impl NodeState {
    /// The node that the first finger names.
    pub open spec fn successor(self) -> OtherNode {
        self.fingers[0].node
    }

    /// The identifier that bounds this node's keys from behind: that of the
    /// predecessor, or the node's own while it knows of none, in which case
    /// it takes every key for its own.
    pub open spec fn ownership_bound(self) -> u64 {
        match self.predecessor {
            Some(p) => p.id,
            None => self.me.id,
        }
    }

    /// Whether this node is responsible for `key_id`.
    pub open spec fn owns(self, key_id: u64) -> bool {
        owns(self.me.id, self.ownership_bound(), key_id)
    }

    /// The nodes among which the next hop of a lookup is chosen: the nodes
    /// of the finger table, then the successor list.
    pub open spec fn candidates(self) -> Seq<OtherNode> {
        self.fingers.map_values(|e: FingerEntry| e.node) + self.successors
    }

    /// Candidate `i` exists and is not this node itself.
    pub open spec fn eligible(self, i: int) -> bool {
        0 <= i < self.candidates().len() && self.candidates()[i].id != self.me.id
    }

    /// Candidate `i` is eligible and comes before `limit`, no eligible
    /// candidate before `limit` is nearer to `id`, and every eligible
    /// candidate before `i` is farther.
    pub open spec fn nearest_among(self, id: u64, limit: int, i: int) -> bool {
        &&& self.eligible(i)
        &&& i < limit
        &&& forall|j: int| #[trigger]
            self.eligible(j) && j < limit ==> distance(self.candidates()[i].id, id) <= distance(
                self.candidates()[j].id,
                id,
            )
        &&& forall|j: int| #[trigger]
            self.eligible(j) && j < i ==> distance(self.candidates()[i].id, id) < distance(
                self.candidates()[j].id,
                id,
            )
    }

    /// Candidate `i` is the first of the eligible candidates at the least
    /// distance before `id`.
    pub open spec fn nearest_at(self, id: u64, i: int) -> bool {
        self.nearest_among(id, self.candidates().len() as int, i)
    }

    /// The place among the candidates of the node to ask next about `id`.
    pub open spec fn nearest_index(self, id: u64) -> int {
        choose|i: int| self.nearest_at(id, i)
    }

    /// The node to ask next about `id`: the first of the eligible
    /// candidates at the least distance before `id`, or this node itself
    /// where no candidate is eligible.
    pub open spec fn closest_preceding(self, id: u64) -> OtherNode {
        if exists|i: int| self.eligible(i) {
            self.candidates()[self.nearest_index(id)]
        } else {
            self.me
        }
    }

    /// The envelope that carries `request` from this node to `target`.
    pub open spec fn request_to(self, target: OtherNode, request: Request) -> Envelope {
        Envelope {
            target: target.ip_addr,
            message: Message::RequestMessage { sender: self.me, request },
        }
    }

    /// The answer to a search for the successor of `id`: the successor,
    /// where `id` lies between this node and its successor or is the
    /// successor's own; else this node, where a predecessor is known and
    /// `id` lies between it and this node; else a pointer to the closest
    /// preceding node.
    pub open spec fn find_successor_reply(self, id: u64) -> Response {
        if in_interval_to(self.me.id, self.successor().id, id) {
            Response::FoundSuccessor { successor: self.successor() }
        } else if self.predecessor is Some && in_interval(
            self.predecessor->Some_0.id,
            self.me.id,
            id,
        ) {
            Response::FoundSuccessor { successor: self.me }
        } else {
            Response::AskFurther { next_node: self.closest_preceding(id) }
        }
    }

    /// The answer to a search for the node of finger `index`: the successor,
    /// where `finger_id` lies between this node and its successor or is the
    /// successor's own; else a pointer to the successor.
    pub open spec fn find_finger_reply(self, index: usize, finger_id: u64) -> Response {
        if in_interval_to(self.me.id, self.successor().id, finger_id) {
            Response::FoundSuccessorFinger { index, finger_id, successor: self.successor() }
        } else {
            Response::AskFurtherFinger { index, finger_id, next_node: self.successor() }
        }
    }

    /// The keys that stay with this node when `bound` bounds its range from
    /// behind.
    pub open spec fn kept_keys(self, bound: u64) -> Set<u64> {
        Set::new(|k: u64| owns(self.me.id, bound, k))
    }

    /// The keys that leave this node when `bound` bounds its range from
    /// behind.
    pub open spec fn leaving_keys(self, bound: u64) -> Set<u64> {
        Set::new(|k: u64| !owns(self.me.id, bound, k))
    }

    /// Whether `out` hands to the successor, one store request each and
    /// nothing else, the entries that leave this node when `bound` bounds
    /// its range from behind.
    pub open spec fn hands_off(self, bound: u64, out: Seq<Envelope>) -> bool {
        exists|moved: Seq<(u64, DHTEntry)>|
            lists(moved, self.store.restrict(self.leaving_keys(bound))) && #[trigger] moved.len()
                == out.len() && forall|i: int|
                0 <= i < out.len() ==> #[trigger] out[i] == self.request_to(
                    self.successor(),
                    Request::DHTStoreKey { data: moved[i] },
                )
    }

    /// The identifier that bounds the node's keys from behind once its
    /// predecessor is `predecessor`.
    pub open spec fn bound_under(self, predecessor: Option<OtherNode>) -> u64 {
        match predecessor {
            Some(p) => p.id,
            None => self.me.id,
        }
    }

    /// The state after the predecessor became `predecessor` and the entries
    /// that are no longer this node's were dropped.
    pub open spec fn with_predecessor(self, predecessor: Option<OtherNode>) -> NodeState {
        NodeState {
            predecessor,
            store: self.store.restrict(self.kept_keys(self.bound_under(predecessor))),
            ..self
        }
    }

    /// Whether a node that hears of `node` takes it for its predecessor: it
    /// knows none, or `node` is another than the one it knows and lies
    /// between that one and itself.
    pub open spec fn adopts(self, node: OtherNode) -> bool {
        match self.predecessor {
            None => true,
            Some(p) => p.id != node.id && in_interval(p.id, self.me.id, node.id),
        }
    }

    /// What hearing of `node` does: where the node adopts it, it becomes the
    /// predecessor and `out` hands off the entries that are then its; else
    /// nothing changes and nothing is sent.
    pub open spec fn notify_step(self, node: OtherNode, post: NodeState, out: Seq<Envelope>) -> bool {
        if self.adopts(node) {
            post == self.with_predecessor(Some(node)) && self.hands_off(node.id, out)
        } else {
            post == self && out.len() == 0
        }
    }

    /// The state after a request to store `data`: where the key is this
    /// node's the entry is stored, in place of an earlier one under the key.
    pub open spec fn after_store(self, data: (u64, DHTEntry)) -> NodeState {
        if self.owns(data.0) {
            NodeState { store: self.store.insert(data.0, data.1), ..self }
        } else {
            self
        }
    }

    /// The answer to a request to store `data`: that it is stored, where the
    /// key is this node's; else a pointer to the closest preceding node,
    /// which carries the entry back.
    pub open spec fn store_reply(self, data: (u64, DHTEntry)) -> Response {
        if self.owns(data.0) {
            Response::DHTStoredKey
        } else {
            Response::DHTAskFurtherStore { next_node: self.closest_preceding(data.0), data }
        }
    }

    /// The entry stored under `key_id`, if there is one.
    pub open spec fn lookup(self, key_id: u64) -> Option<DHTEntry> {
        if self.store.contains_key(key_id) {
            Some(self.store[key_id])
        } else {
            None
        }
    }

    /// The answer to a search for `key_id`: what is stored under it, where
    /// the key is this node's; else a pointer to the closest preceding node.
    pub open spec fn find_key_reply(self, key_id: u64) -> Response {
        if self.owns(key_id) {
            Response::DHTFoundKey { data: (key_id, self.lookup(key_id)) }
        } else {
            Response::DHTAskFurtherFind { next_node: self.closest_preceding(key_id), key_id }
        }
    }

    /// The state after a request to delete `key_id`: where the key is this
    /// node's its entry is gone.
    pub open spec fn after_delete(self, key_id: u64) -> NodeState {
        if self.owns(key_id) {
            NodeState { store: self.store.remove(key_id), ..self }
        } else {
            self
        }
    }

    /// The answer to a request to delete `key_id`: whether there was an
    /// entry, where the key is this node's; else a pointer to the closest
    /// preceding node.
    pub open spec fn delete_reply(self, key_id: u64) -> Response {
        if self.owns(key_id) {
            Response::DHTDeletedKey { key_existed: self.store.contains_key(key_id) }
        } else {
            Response::DHTAskFurtherDelete { next_node: self.closest_preceding(key_id), key_id }
        }
    }

    /// What a request does to the state, which reply it gets, and what is
    /// sent besides.
    pub open spec fn request_step(
        self,
        request: Request,
        post: NodeState,
        reply: Option<Response>,
        out: Seq<Envelope>,
    ) -> bool {
        match request {
            Request::FindSuccessor { id } => post == self && out.len() == 0 && reply == Some(
                self.find_successor_reply(id),
            ),
            Request::GetPredecessor => post == self && out.len() == 0 && reply == Some(
                Response::GetPredecessorResponse { predecessor: self.predecessor },
            ),
            Request::Notify { node } => reply == Some(Response::NotifyResponse) && self.notify_step(
                node,
                post,
                out,
            ),
            Request::FindSuccessorFinger { index, finger_id } => post == self && out.len() == 0
                && reply == Some(self.find_finger_reply(index, finger_id)),
            Request::GetSuccessorList => post == self && out.len() == 0 && (reply matches Some(
                Response::GetSuccessorListResponse { successor_list },
            ) && successor_list@ == self.successors),
            Request::DHTStoreKey { data } => post == self.after_store(data) && out.len() == 0
                && reply == Some(self.store_reply(data)),
            Request::DHTFindKey { key_id } => post == self && out.len() == 0 && reply == Some(
                self.find_key_reply(key_id),
            ),
            Request::DHTDeleteKey { key_id } => post == self.after_delete(key_id) && out.len() == 0
                && reply == Some(self.delete_reply(key_id)),
            Request::DHTTakeOverKeys { data } => reply is None && out.len() == 0 && post == (
            NodeState { store: merged(self.store, data@), ..self }),
        }
    }

    /// The state after `successor` became the successor: the first finger
    /// and the head of the successor list name it.
    pub open spec fn with_successor(self, successor: OtherNode) -> NodeState {
        NodeState {
            fingers: self.fingers.update(
                0,
                FingerEntry { id: self.fingers[0].id, node: successor },
            ),
            successors: self.successors.update(0, successor),
            ..self
        }
    }

    /// Whether the predecessor that the successor reports is a closer
    /// successor: another node than this one, between this node and the
    /// successor it has.
    pub open spec fn adopts_successor(self, reported: Option<OtherNode>) -> bool {
        match reported {
            Some(p) => p.id != self.me.id && in_interval(self.me.id, self.successor().id, p.id),
            None => false,
        }
    }

    /// What the successor's report of its predecessor does: a closer
    /// successor is adopted and asked for its successor list; then the
    /// successor, whichever it is by now, is notified of this node.
    pub open spec fn predecessor_step(
        self,
        reported: Option<OtherNode>,
        post: NodeState,
        out: Seq<Envelope>,
    ) -> bool {
        if self.adopts_successor(reported) {
            let p = reported->Some_0;
            post == self.with_successor(p) && out == seq![
                self.request_to(p, Request::GetSuccessorList),
                self.request_to(p, Request::Notify { node: self.me }),
            ]
        } else {
            post == self && out == seq![
                self.request_to(self.successor(), Request::Notify { node: self.me }),
            ]
        }
    }

    /// The state after the answer for finger `index` arrived. The first
    /// finger is the successor and is not written here, nor is an entry past
    /// the table's size; an entry that exists is overwritten, any other is
    /// appended at the end.
    pub open spec fn with_finger(self, index: usize, finger_id: u64, node: OtherNode) -> NodeState {
        if index == 0 || index >= FINGERTABLE_SIZE {
            self
        } else if index < self.fingers.len() {
            NodeState {
                fingers: self.fingers.update(index as int, FingerEntry { id: finger_id, node }),
                ..self
            }
        } else {
            NodeState { fingers: self.fingers.push(FingerEntry { id: finger_id, node }), ..self }
        }
    }

    /// How many nodes of a successor's list of length `len` are taken over.
    pub open spec fn taken(len: nat) -> int {
        if len < SUCCESSORLIST_SIZE {
            len as int
        } else {
            SUCCESSORLIST_SIZE - 1
        }
    }

    /// The state after the successor's list arrived: the successor, then the
    /// nodes of its list, as many as fit.
    pub open spec fn with_successor_list(self, remote: Seq<OtherNode>) -> NodeState {
        NodeState {
            successors: seq![self.successor()] + remote.subrange(0, Self::taken(remote.len())),
            ..self
        }
    }

    /// Whether `post` is this state with one more line in the log, whose
    /// message is `text`.
    pub open spec fn logged(self, text: Seq<char>, post: NodeState) -> bool {
        exists|label: Seq<char>| post == (NodeState {
            log: self.log.push(#[trigger] log_line(label, text)),
            ..self
        })
    }

    /// What a response does to the state and what is sent in turn.
    pub open spec fn response_step(self, response: Response, post: NodeState, out: Seq<Envelope>) -> bool {
        match response {
            Response::FoundSuccessor { successor } => post == (NodeState {
                joined: true,
                ..self.with_successor(successor)
            }) && out == seq![self.request_to(successor, Request::GetSuccessorList)],
            Response::AskFurther { next_node } => post == self && out == seq![
                self.request_to(next_node, Request::FindSuccessor { id: self.me.id }),
            ],
            Response::GetPredecessorResponse { predecessor } => self.predecessor_step(
                predecessor,
                post,
                out,
            ),
            Response::NotifyResponse => post == self && out.len() == 0,
            Response::FoundSuccessorFinger { index, finger_id, successor } => post
                == self.with_finger(index, finger_id, successor) && out.len() == 0,
            Response::AskFurtherFinger { index, finger_id, next_node } => post == self && out
                == seq![
                self.request_to(next_node, Request::FindSuccessorFinger { index, finger_id }),
            ],
            Response::GetSuccessorListResponse { successor_list } => post
                == self.with_successor_list(successor_list@) && out.len() == 0,
            Response::DHTStoredKey => self.logged(stored_text(), post) && out.len() == 0,
            Response::DHTFoundKey { data } => self.logged(found_text(data), post) && out.len() == 0,
            Response::DHTDeletedKey { key_existed } => self.logged(deleted_text(key_existed), post)
                && out.len() == 0,
            Response::DHTAskFurtherStore { next_node, data } => post == self && out == seq![
                self.request_to(next_node, Request::DHTStoreKey { data }),
            ],
            Response::DHTAskFurtherFind { next_node, key_id } => post == self && out == seq![
                self.request_to(next_node, Request::DHTFindKey { key_id }),
            ],
            Response::DHTAskFurtherDelete { next_node, key_id } => post == self && out == seq![
                self.request_to(next_node, Request::DHTDeleteKey { key_id }),
            ],
        }
    }

    /// The envelope that carries `response` from this node to `target`.
    pub open spec fn response_to(self, target: OtherNode, response: Response) -> Envelope {
        Envelope {
            target: target.ip_addr,
            message: Message::ResponseMessage { sender: self.me, response },
        }
    }

    /// The reply on its way back to the node that asked, if there is one.
    pub open spec fn replies(self, asker: OtherNode, reply: Option<Response>) -> Seq<Envelope> {
        match reply {
            Some(response) => seq![self.response_to(asker, response)],
            None => Seq::empty(),
        }
    }

    /// Whether `envelope` hands every stored entry to the successor, each
    /// once.
    pub open spec fn hands_over_all(self, envelope: Envelope) -> bool {
        envelope.target == self.successor().ip_addr && (envelope.message
            matches Message::RequestMessage { sender, request } && sender == self.me && (request
            matches Request::DHTTakeOverKeys { data } && lists(data@, self.store) && data@.len()
            == self.store.len()))
    }

    /// What a node sends before it stops: where it has joined, the request that
    /// hands its entries to the successor; else nothing.
    pub open spec fn farewell(self, out: Seq<Envelope>) -> bool {
        if self.joined {
            out.len() == 1 && self.hands_over_all(out[0])
        } else {
            out.len() == 0
        }
    }

    /// What a message does to the state, what is sent in turn, and whether
    /// the node is to stop. A request's reply goes to its sender, behind
    /// what the request itself made the node send. A client's operation
    /// becomes a request from this node to itself.
    pub open spec fn message_step(
        self,
        message: Message,
        post: NodeState,
        out: Seq<Envelope>,
        shutdown: bool,
    ) -> bool {
        match message {
            Message::Ping { sender } => post == self && out.len() == 0 && !shutdown,
            Message::RequestMessage { sender, request } => !shutdown && exists|
                reply: Option<Response>,
                sent: Seq<Envelope>,
            | #[trigger]
                self.request_step(request, post, reply, sent) && out == sent + post.replies(
                    sender,
                    reply,
                ),
            Message::ResponseMessage { sender, response } => !shutdown && self.response_step(
                response,
                post,
                out,
            ),
            Message::DHTInteraction { request } => !shutdown && post == self && out == (if hashable(
                request.key()@,
            ) {
                seq![self.request_to(self.me, request.request())]
            } else {
                Seq::empty()
            }),
            Message::Kill => shutdown && post == self && self.farewell(out),
        }
    }
}

/// What the log says of a stored key.
pub open spec fn stored_text() -> Seq<char> {
    "Key stored"@
}

/// What the log says of a search: the value found, or that there is none.
pub open spec fn found_text(data: (u64, Option<DHTEntry>)) -> Seq<char> {
    match data.1 {
        Some(entry) => "Value for key "@ + entry.key@ + " (id: "@ + decimal(data.0 as nat) + ") is "@
            + entry.value@,
        None => "No value for key_id "@ + decimal(data.0 as nat) + " found in the network"@,
    }
}

/// What the log says of a deletion.
pub open spec fn deleted_text(key_existed: bool) -> Seq<char> {
    if key_existed {
        "Key deleted"@
    } else {
        "Tried to delete key but the key was not present in the network"@
    }
}

/// The store after the entries of `data` were written into it, first to
/// last: of two entries under one key the later stays.
pub open spec fn merged(store: Map<u64, DHTEntry>, data: Seq<(u64, DHTEntry)>) -> Map<u64, DHTEntry>
    decreases data.len(),
{
    if data.len() == 0 {
        store
    } else {
        merged(store, data.drop_last()).insert(data.last().0, data.last().1)
    }
}

/// At most one candidate is the first of the nearest: the choice of the
/// closest preceding node is determined.
pub proof fn lemma_nearest_is_unique(s: NodeState, id: u64, i: int, j: int)
    requires
        s.nearest_at(id, i),
        s.nearest_at(id, j),
    ensures
        i == j,
{
}

/// Among the candidates before `limit`, of which one is eligible, one is
/// the first of the nearest.
pub proof fn lemma_nearest_exists(s: NodeState, id: u64, limit: int)
    requires
        0 <= limit <= s.candidates().len(),
        exists|j: int| s.eligible(j) && j < limit,
    ensures
        exists|i: int| s.nearest_among(id, limit, i),
    decreases limit,
{
    let last = limit - 1;
    if exists|j: int| s.eligible(j) && j < last {
        lemma_nearest_exists(s, id, last);
        let before = choose|i: int| s.nearest_among(id, last, i);
        if s.eligible(last) && distance(s.candidates()[last].id, id) < distance(
            s.candidates()[before].id,
            id,
        ) {
            assert(s.nearest_among(id, limit, last));
        } else {
            assert(s.nearest_among(id, limit, before));
        }
    } else {
        // the one eligible candidate before `limit` is the last
        assert(s.nearest_among(id, limit, last));
    }
}

/// The closest preceding node is an eligible candidate, and no eligible
/// candidate is nearer to `id`, wherever a candidate is eligible.
pub proof fn lemma_closest_preceding_is_nearest(s: NodeState, id: u64, j: int)
    requires
        s.eligible(j),
    ensures
        s.nearest_at(id, s.nearest_index(id)),
        s.closest_preceding(id) == s.candidates()[s.nearest_index(id)],
        s.closest_preceding(id).id != s.me.id,
        distance(s.closest_preceding(id).id, id) <= distance(s.candidates()[j].id, id),
{
    lemma_nearest_exists(s, id, s.candidates().len() as int);
    let first = choose|i: int| s.nearest_among(id, s.candidates().len() as int, i);
    assert(s.nearest_at(id, first));
}

/// A search for a successor comes closer with every hop: where a node
/// passes the search for `id` on, the node it names lies nearer before `id`
/// than the node itself. This holds of identifiers of the ring.
pub proof fn lemma_search_moves_closer(s: NodeState, id: u64)
    requires
        well_formed(s),
        s.me.id < CHORD_RING_SIZE,
        s.successor().id < CHORD_RING_SIZE,
        id < CHORD_RING_SIZE,
        s.find_successor_reply(id) is AskFurther,
    ensures
        s.find_successor_reply(id) == (Response::AskFurther { next_node: s.closest_preceding(id) }),
        distance(s.closest_preceding(id).id, id) < distance(s.me.id, id),
{
    lemma_closest_preceding_is_nearest(s, id, 0);
}

/// A change of predecessor loses no entry and doubles none: the entries
/// that stay and the entries that leave are apart, and together they are
/// the store as it was.
pub proof fn lemma_handoff_divides_store(s: NodeState, bound: u64)
    ensures
        s.store.restrict(s.kept_keys(bound)).dom().disjoint(
            s.store.restrict(s.leaving_keys(bound)).dom(),
        ),
        s.store.restrict(s.kept_keys(bound)).union_prefer_right(
            s.store.restrict(s.leaving_keys(bound)),
        ) == s.store,
{
}

/// Writing the entries of `data` into a store leaves the entries under
/// other keys as they were.
pub proof fn lemma_merged_keeps_other_keys(store: Map<u64, DHTEntry>, data: Seq<(u64, DHTEntry)>, k: u64)
    requires
        forall|i: int| 0 <= i < data.len() ==> #[trigger] data[i].0 != k,
    ensures
        merged(store, data).contains_key(k) == store.contains_key(k),
        store.contains_key(k) ==> merged(store, data)[k] == store[k],
    decreases data.len(),
{
    if data.len() > 0 {
        lemma_merged_keeps_other_keys(store, data.drop_last(), k);
    }
}

/// A node that takes over what another stored holds every entry of it
/// afterwards: where `data` lists the store `source`, each key of `source`
/// is in the merged store with the entry it had in `source`.
pub proof fn lemma_take_over_keeps_every_entry(
    store: Map<u64, DHTEntry>,
    data: Seq<(u64, DHTEntry)>,
    source: Map<u64, DHTEntry>,
    k: u64,
)
    requires
        lists(data, source),
        source.contains_key(k),
    ensures
        merged(store, data).contains_key(k),
        merged(store, data)[k] == source[k],
{
    let i = choose|i: int| 0 <= i < data.len() && #[trigger] data[i].0 == k;
    lemma_merged_holds_listed(store, data, i);
}

/// Where no key occurs twice in `data`, the merged store holds entry `i` of
/// `data` under its key.
pub proof fn lemma_merged_holds_listed(store: Map<u64, DHTEntry>, data: Seq<(u64, DHTEntry)>, i: int)
    requires
        0 <= i < data.len(),
        forall|a: int, b: int| 0 <= a < b < data.len() ==> #[trigger] data[a].0 != #[trigger] data[b].0,
    ensures
        merged(store, data).contains_key(data[i].0),
        merged(store, data)[data[i].0] == data[i].1,
    decreases data.len(),
{
    if i < data.len() - 1 {
        lemma_merged_holds_listed(store, data.drop_last(), i);
    }
}

/// A message that arrives twice does no harm. A node that has adopted
/// `node` for its predecessor refuses the same notice when it comes again:
/// nothing changes and nothing is sent. And the answer that names the
/// successor leaves the state, applied again, as it was.
pub proof fn lemma_repeated_message_changes_nothing(
    s: NodeState,
    node: OtherNode,
    adopted: NodeState,
    handed: Seq<Envelope>,
    again: NodeState,
    handed_again: Seq<Envelope>,
    successor: OtherNode,
)
    requires
        well_formed(s),
        s.adopts(node),
        s.notify_step(node, adopted, handed),
        adopted.notify_step(node, again, handed_again),
    ensures
        again == adopted,
        handed_again.len() == 0,
        s.with_successor(successor).with_successor(successor) == s.with_successor(successor),
{
    assert(s.with_successor(successor).with_successor(successor).fingers =~= s.with_successor(
        successor,
    ).fingers);
    assert(s.with_successor(successor).with_successor(successor).successors =~= s.with_successor(
        successor,
    ).successors);
}

/// The state of the only member of a ring: its own successor and
/// predecessor.
pub open spec fn sole_member(me: OtherNode, s: NodeState) -> bool {
    &&& well_formed(s)
    &&& s.me == me
    &&& s.successor() == me
    &&& s.successors == seq![me]
    &&& s.predecessor == Some(me)
    &&& s.joined
}

/// The state of a node that is about to join by way of `contact`.
pub open spec fn newcomer(me: OtherNode, contact: OtherNode, s: NodeState) -> bool {
    &&& well_formed(s)
    &&& s.me == me
    &&& s.successor() == contact
    &&& s.successors == seq![contact]
    &&& s.predecessor is None
    &&& !s.joined
}

/// Two nodes find each other. Let `a` be the only member of a ring and let
/// `b`, of another identifier, join by way of `a`: `a` answers `b`'s search
/// for its successor and `b` applies the answer. Let then `b` stabilize and
/// after it `a`, each finding the head of its successor list alive, asking
/// it for its predecessor, applying the answer and notifying its successor.
/// Then each is the other's successor and predecessor.
pub proof fn lemma_two_nodes_converge(
    a: OtherNode,
    b: OtherNode,
    a0: NodeState,
    b0: NodeState,
    found: Response,
    b1: NodeState,
    b_asks_list: Seq<Envelope>,
    reported_to_b: Response,
    b2: NodeState,
    b_notifies: Seq<Envelope>,
    a1: NodeState,
    a_hands_off: Seq<Envelope>,
    reported_to_a: Response,
    a2: NodeState,
    a_notifies: Seq<Envelope>,
    b3: NodeState,
    b_hands_off: Seq<Envelope>,
)
    requires
        a.id != b.id,
        sole_member(a, a0),
        newcomer(b, a, b0),
        // b joins
        a0.request_step(Request::FindSuccessor { id: b.id }, a0, Some(found), Seq::empty()),
        b0.response_step(found, b1, b_asks_list),
        // b stabilizes
        a0.request_step(Request::GetPredecessor, a0, Some(reported_to_b), Seq::empty()),
        b1.with_successor(b1.successors[0]).response_step(reported_to_b, b2, b_notifies),
        a0.request_step(
            Request::Notify { node: b },
            a1,
            Some(Response::NotifyResponse),
            a_hands_off,
        ),
        // a stabilizes, and finds itself at the head of its list
        a1.with_successor(a1.successors[0]).request_step(
            Request::GetPredecessor,
            a1.with_successor(a1.successors[0]),
            Some(reported_to_a),
            Seq::empty(),
        ),
        a1.with_successor(a1.successors[0]).response_step(reported_to_a, a2, a_notifies),
        b2.request_step(
            Request::Notify { node: a },
            b3,
            Some(Response::NotifyResponse),
            b_hands_off,
        ),
    ensures
        a2.successor() == b,
        b3.successor() == a,
        a2.predecessor == Some(b),
        b3.predecessor == Some(a),
        well_formed(a2),
        well_formed(b3),
        // each notifies the other
        b_notifies == seq![b2.request_to(a, Request::Notify { node: b })],
        a_notifies.last() == a2.request_to(b, Request::Notify { node: a }),
{
    // b learns of a, and a's predecessor, a itself, is no closer successor
    assert(found == Response::FoundSuccessor { successor: a });
    assert(b2 == b1.with_successor(a));
    // a takes b for its predecessor, then for its successor
    assert(a1 == a0.with_predecessor(Some(b)));
    assert(a2 == a1.with_successor(a).with_successor(b));
    // b, without a predecessor, takes a
    assert(b3 == b2.with_predecessor(Some(a)));
}

/// A node that leaves loses nothing. Let the node in state `leaving` have
/// joined and hand its entries over as it stops, and let its successor take
/// them in. Then a search at the successor for any key that the leaving
/// node held finds the entry it held, once the successor answers for that
/// key.
pub proof fn lemma_shutdown_preserves_entries(
    leaving: NodeState,
    farewell: Seq<Envelope>,
    data: Vec<(u64, DHTEntry)>,
    heir: NodeState,
    heir_after: NodeState,
    heir_later: NodeState,
    key_id: u64,
)
    requires
        leaving.joined,
        leaving.message_step(Message::Kill, leaving, farewell, true),
        farewell[0].message == (Message::RequestMessage {
            sender: leaving.me,
            request: Request::DHTTakeOverKeys { data },
        }),
        heir.request_step(Request::DHTTakeOverKeys { data }, heir_after, None, Seq::empty()),
        leaving.store.contains_key(key_id),
        heir_later.store == heir_after.store,
        heir_later.owns(key_id),
    ensures
        heir_later.find_key_reply(key_id) == (Response::DHTFoundKey {
            data: (key_id, Some(leaving.store[key_id])),
        }),
{
    lemma_take_over_keeps_every_entry(heir.store, data@, leaving.store, key_id);
}

/// A key moves to the node that joins behind it. Let the node in state
/// `owner` adopt `joiner` for its predecessor, and let `key_id` be a key it
/// holds that is the joiner's from then on. Then the owner holds the key no
/// longer, one of the requests it sends carries the entry, and the
/// joiner, once it knows the owner for its predecessor, stores the entry on
/// that request and finds it on a search.
pub proof fn lemma_key_moves_to_joiner(
    owner: NodeState,
    joiner: OtherNode,
    owner_after: NodeState,
    handed: Seq<Envelope>,
    key_id: u64,
    joined: NodeState,
)
    requires
        owner.adopts(joiner),
        owner.request_step(
            Request::Notify { node: joiner },
            owner_after,
            Some(Response::NotifyResponse),
            handed,
        ),
        owner.store.contains_key(key_id),
        !owns(owner.me.id, joiner.id, key_id),
        joined.me == joiner,
        joined.predecessor == Some(owner.me),
        owns(joiner.id, owner.me.id, key_id),
    ensures
        !owner_after.store.contains_key(key_id),
        !owner_after.owns(key_id),
        exists|i: int|
            0 <= i < handed.len() && #[trigger] handed[i] == owner.request_to(
                owner.successor(),
                Request::DHTStoreKey { data: (key_id, owner.store[key_id]) },
            ),
        joined.store_reply((key_id, owner.store[key_id])) == Response::DHTStoredKey,
        joined.after_store((key_id, owner.store[key_id])).find_key_reply(key_id) == (
        Response::DHTFoundKey { data: (key_id, Some(owner.store[key_id])) }),
{
    let moved = choose|moved: Seq<(u64, DHTEntry)>|
        lists(moved, owner.store.restrict(owner.leaving_keys(joiner.id))) && #[trigger] moved.len()
            == handed.len() && forall|i: int|
            0 <= i < handed.len() ==> #[trigger] handed[i] == owner.request_to(
                owner.successor(),
                Request::DHTStoreKey { data: moved[i] },
            );
    let leaving = owner.store.restrict(owner.leaving_keys(joiner.id));
    assert(leaving.contains_key(key_id));
    let i = choose|i: int| 0 <= i < moved.len() && #[trigger] moved[i].0 == key_id;
    assert(handed[i] == owner.request_to(
        owner.successor(),
        Request::DHTStoreKey { data: (key_id, owner.store[key_id]) },
    ));
}

} // verus!
