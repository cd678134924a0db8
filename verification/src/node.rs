//! A node of the ring: its own identity, what it knows of its neighbours,
//! and the handlers that answer requests and apply responses.
//!
//! No handler sends anything. Each returns the messages that are to be
//! sent, in the order in which they are to leave.

use vstd::prelude::*;
use vstd::string::*;
use crate::chord::{
    chord_abs, create_node_id, distance, hashable, id_of_text, is_in_interval, is_in_interval_to,
    is_my_key, owns, SUCCESSORLIST_SIZE,
};
use crate::fingertable::FingerTable;
use crate::protocols::{Envelope, Message, Request, Response};
use crate::state::{
    deleted_text, found_text, lemma_nearest_is_unique, merged, stored_text, well_formed, NodeState,
};
use crate::storage::{lists, DHTEntry, Storage};
use crate::text::push_decimal;

verus! {

/// Another member of the ring, by identifier and network address. A plain
/// value: holding one says nothing about whether the peer is alive.
#[derive(Debug, PartialEq, Eq)]
pub struct OtherNode {
    pub id: u64,
    pub ip_addr: String,
}

impl Clone for OtherNode {
    fn clone(&self) -> (copy: Self)
        ensures
            copy == *self,
    {
        OtherNode { id: self.id, ip_addr: self.ip_addr.clone() }
    }
}

impl OtherNode {
    pub fn new(id: u64, ip: String) -> (node: OtherNode)
        ensures
            node == (OtherNode { id, ip_addr: ip }),
    {
        OtherNode { id, ip_addr: ip }
    }

    pub fn get_id(&self) -> (id: &u64)
        ensures
            *id == self.id,
    {
        &self.id
    }

    pub fn get_ip_addr(&self) -> (ip: &String)
        ensures
            *ip == self.ip_addr,
    {
        &self.ip_addr
    }
}

/// What a node does on a message: what is to be sent, in order, and whether
/// the node is to stop once that has left.
#[derive(Debug, PartialEq, Eq)]
pub struct Reaction {
    pub outbound: Vec<Envelope>,
    pub shutdown: bool,
}

/// Complete representation of a node: its identity, its routing state and
/// its share of the table. Its view is a [`NodeState`].
pub struct Node {
    id: u64,
    ip_addr: String,
    finger_table: FingerTable,
    predecessor: Option<OtherNode>,
    successor_list: Vec<OtherNode>,
    storage: Storage,
    joined: bool,
}

impl View for Node {
    type V = NodeState;

    closed spec fn view(&self) -> NodeState {
        NodeState {
            me: OtherNode { id: self.id, ip_addr: self.ip_addr },
            fingers: self.finger_table@,
            successors: self.successor_list@,
            predecessor: self.predecessor,
            store: self.storage@,
            log: self.storage.log(),
            joined: self.joined,
        }
    }
}

impl Clone for Node {
    fn clone(&self) -> (copy: Self)
        ensures
            copy@ == self@,
    {
        let copy = Node {
            id: self.id,
            ip_addr: self.ip_addr.clone(),
            finger_table: self.finger_table.clone(),
            predecessor: self.predecessor.clone(),
            successor_list: self.successor_list.clone(),
            storage: self.storage.clone(),
            joined: self.joined,
        };
        copy
    }
}

impl Node {
    /// Whether the node's state is well formed. Every constructor
    /// establishes this and every method keeps it.
    pub open spec fn wf(&self) -> bool {
        well_formed(self@)
    }

    /// A node that is to join the ring of which the node at `contact` is a
    /// member. It knows no predecessor, and takes the contact for its
    /// successor until the ring names the real one.
    pub fn new(node_ip_addr: String, contact: String) -> (node: Node)
        requires
            hashable(node_ip_addr@),
            hashable(contact@),
        ensures
            node.wf(),
            node@.me == (OtherNode { id: id_of_text(node_ip_addr@) as u64, ip_addr: node_ip_addr }),
            node@.successor() == (OtherNode { id: id_of_text(contact@) as u64, ip_addr: contact }),
            node@.fingers.len() == 1,
            node@.successors == seq![node@.successor()],
            node@.predecessor is None,
            node@.store == Map::<u64, DHTEntry>::empty(),
            node@.log == Seq::<Seq<char>>::empty(),
            !node@.joined,
    {
        let id = create_node_id(node_ip_addr.as_str());
        let contact_id = create_node_id(contact.as_str());
        let successor = OtherNode::new(contact_id, contact);
        let mut successor_list: Vec<OtherNode> = Vec::with_capacity(SUCCESSORLIST_SIZE);
        successor_list.push(successor.clone());
        Node {
            id,
            ip_addr: node_ip_addr,
            finger_table: FingerTable::new_first(id, successor),
            predecessor: None,
            successor_list,
            storage: Storage::new(),
            joined: false,
        }
    }

    /// The first node of a new ring: its own successor and predecessor.
    pub fn new_first(node_ip_addr: String) -> (node: Node)
        requires
            hashable(node_ip_addr@),
        ensures
            node.wf(),
            node@.me == (OtherNode { id: id_of_text(node_ip_addr@) as u64, ip_addr: node_ip_addr }),
            node@.successor() == node@.me,
            node@.fingers.len() == 1,
            node@.successors == seq![node@.me],
            node@.predecessor == Some(node@.me),
            node@.store == Map::<u64, DHTEntry>::empty(),
            node@.log == Seq::<Seq<char>>::empty(),
            node@.joined,
            forall|key_id: u64| node@.owns(key_id),
    {
        let id = create_node_id(node_ip_addr.as_str());
        let successor = OtherNode::new(id, node_ip_addr.clone());
        let mut successor_list: Vec<OtherNode> = Vec::with_capacity(SUCCESSORLIST_SIZE);
        successor_list.push(successor.clone());
        Node {
            id,
            ip_addr: node_ip_addr.clone(),
            finger_table: FingerTable::new_first(id, successor),
            predecessor: Some(OtherNode::new(id, node_ip_addr)),
            successor_list,
            storage: Storage::new(),
            joined: true,
        }
    }

    pub fn get_id(&self) -> (id: &u64)
        ensures
            *id == self@.me.id,
    {
        &self.id
    }

    pub fn get_ip_addr(&self) -> (ip: &String)
        ensures
            *ip == self@.me.ip_addr,
    {
        &self.ip_addr
    }

    pub fn get_finger_table(&self) -> (table: &FingerTable)
        ensures
            table@ == self@.fingers,
    {
        &self.finger_table
    }

    /// The node's successor: the node that the first finger names.
    pub fn get_successor(&self) -> (successor: OtherNode)
        requires
            self.wf(),
        ensures
            successor == self@.successor(),
    {
        self.finger_table.get_successor()
    }

    pub fn get_predecessor(&self) -> (predecessor: &Option<OtherNode>)
        ensures
            *predecessor == self@.predecessor,
    {
        &self.predecessor
    }

    pub fn get_successor_list(&self) -> (list: &Vec<OtherNode>)
        ensures
            list@ == self@.successors,
    {
        &self.successor_list
    }

    pub fn get_storage(&self) -> (storage: &Storage)
        ensures
            storage@ == self@.store,
            storage.log() == self@.log,
    {
        &self.storage
    }

    pub fn is_joined(&self) -> (joined: bool)
        ensures
            joined == self@.joined,
    {
        self.joined
    }

    /// The node as its peers see it: its identifier and its address.
    pub fn to_other_node(&self) -> (me: OtherNode)
        ensures
            me == self@.me,
    {
        OtherNode::new(self.id, self.ip_addr.clone())
    }

    /// The node to ask next about `id`: among the nodes of the finger table
    /// and of the successor list that are not this node, the one from which
    /// the clockwise distance to `id` is least, and of several such the
    /// first; this node itself where there is no such node.
    pub fn closest_preceding_node(&self, id: u64) -> (next: OtherNode)
        ensures
            next == self@.closest_preceding(id),
    {
        let mut next: OtherNode = self.to_other_node();
        let mut min_abs: u64 = 0;
        let mut found: bool = false;
        let ghost mut best: int = 0;
        let fingers: usize = self.finger_table.length();
        let mut i: usize = 0;
        while i < fingers
            invariant
                i <= fingers,
                fingers == self@.fingers.len(),
                found ==> self@.nearest_among(id, i as int, best) && next == self@.candidates()[best]
                    && min_abs == distance(next.id, id),
                !found ==> next == self@.me && forall|j: int| #[trigger]
                    self@.eligible(j) ==> j >= i,
            decreases fingers - i,
        {
            let entry = self.finger_table.get(i);
            if entry.node.id != self.id {
                let finger_abs = chord_abs(entry.node.id, id);
                if !found || finger_abs < min_abs {
                    min_abs = finger_abs;
                    next = entry.node.clone();
                    found = true;
                    proof {
                        best = i as int;
                    }
                }
            }
            i = i + 1;
        }
        let successors: usize = self.successor_list.len();
        let mut k: usize = 0;
        while k < successors
            invariant
                k <= successors,
                successors == self@.successors.len(),
                fingers == self@.fingers.len(),
                found ==> self@.nearest_among(id, fingers + k, best) && next == self@.candidates()[best]
                    && min_abs == distance(next.id, id),
                !found ==> next == self@.me && forall|j: int| #[trigger]
                    self@.eligible(j) ==> j >= fingers + k,
            decreases successors - k,
        {
            let entry = &self.successor_list[k];
            if entry.id != self.id {
                let entry_abs = chord_abs(entry.id, id);
                if !found || entry_abs < min_abs {
                    min_abs = entry_abs;
                    next = entry.clone();
                    found = true;
                    proof {
                        best = fingers + k;
                    }
                }
            }
            k = k + 1;
        }
        proof {
            if found {
                lemma_nearest_is_unique(self@, id, best, self@.nearest_index(id));
            }
        }
        next
    }

    /// The envelope that carries `request` from this node to `target`.
    pub fn request_to(&self, target: &OtherNode, request: Request) -> (envelope: Envelope)
        ensures
            envelope == self@.request_to(*target, request),
    {
        Envelope {
            target: target.ip_addr.clone(),
            message: Message::RequestMessage { sender: self.to_other_node(), request },
        }
    }

    /// Drops the entries that are not this node's when `pre_id` bounds its
    /// range from behind, and returns one store request to the successor for
    /// each.
    pub fn check_redistribute_dht_keys(&mut self, pre_id: u64) -> (out: Vec<Envelope>)
        requires
            old(self).wf(),
        ensures
            final(self)@ == (NodeState {
                store: old(self)@.store.restrict(old(self)@.kept_keys(pre_id)),
                ..old(self)@
            }),
            old(self)@.hands_off(pre_id, out@),
    {
        let listing = self.storage.get_data_as_vec();
        let successor = self.get_successor();
        let ghost before = self@;
        let ghost mut moved: Seq<(u64, DHTEntry)> = Seq::empty();
        let ghost mut origin: Seq<int> = Seq::empty();
        let mut out: Vec<Envelope> = Vec::new();
        let mut i: usize = 0;
        while i < listing.len()
            invariant
                i <= listing.len(),
                lists(listing@, before.store),
                successor == before.successor(),
                self@ == (NodeState { store: self@.store, ..before }),
                forall|k: u64| #[trigger]
                    self@.store.contains_key(k) <==> before.store.contains_key(k) && !(exists|j: int|
                        0 <= j < i && #[trigger] listing@[j].0 == k && !owns(before.me.id, pre_id, k)),
                forall|k: u64| #[trigger]
                    self@.store.contains_key(k) ==> self@.store[k] == before.store[k],
                moved.len() == out@.len() == origin.len(),
                forall|m: int|
                    0 <= m < moved.len() ==> 0 <= #[trigger] origin[m] < i && moved[m]
                        == listing@[origin[m]] && !owns(before.me.id, pre_id, moved[m].0),
                forall|m: int, n: int| 0 <= m < n < origin.len() ==> origin[m] < origin[n],
                forall|j: int|
                    0 <= j < i && !owns(before.me.id, pre_id, #[trigger] listing@[j].0) ==> exists|
                        m: int,
                    | 0 <= m < moved.len() && origin[m] == j,
                forall|m: int|
                    0 <= m < out@.len() ==> #[trigger] out@[m] == before.request_to(
                        before.successor(),
                        Request::DHTStoreKey { data: moved[m] },
                    ),
            decreases listing.len() - i,
        {
            let key_id: u64 = listing[i].0;
            if !is_my_key(self.id, pre_id, key_id) {
                let entry = listing[i].1.clone();
                let request = Request::DHTStoreKey { data: (key_id, entry) };
                let envelope = self.request_to(&successor, request);
                out.push(envelope);
                self.storage.delete_key(&key_id);
                proof {
                    let earlier = origin;
                    moved = moved.push(listing@[i as int]);
                    origin = origin.push(i as int);
                    assert forall|j: int|
                        0 <= j < i + 1 && !owns(
                            before.me.id,
                            pre_id,
                            #[trigger] listing@[j].0,
                        ) implies exists|m: int| 0 <= m < moved.len() && origin[m] == j by {
                        if j < i {
                            let m = choose|m: int| 0 <= m < earlier.len() && earlier[m] == j;
                            assert(origin[m] == j);
                        } else {
                            assert(origin[origin.len() - 1] == j);
                        }
                    }
                }
            }
            i = i + 1;
        }
        proof {
            let leaving = before.store.restrict(before.leaving_keys(pre_id));
            assert(self@.store =~= before.store.restrict(before.kept_keys(pre_id))) by {
                assert forall|k: u64| #[trigger]
                    before.store.contains_key(k) && owns(before.me.id, pre_id, k) implies self@.store.contains_key(
                    k,
                ) by {}
            }
            assert forall|k: u64| #[trigger] leaving.contains_key(k) implies exists|m: int|
                0 <= m < moved.len() && #[trigger] moved[m].0 == k by {
                let j = choose|j: int| 0 <= j < listing@.len() && #[trigger] listing@[j].0 == k;
                let m = choose|m: int| 0 <= m < moved.len() && origin[m] == j;
                assert(moved[m].0 == k);
            }
            assert forall|m: int, n: int| 0 <= m < n < moved.len() implies #[trigger] moved[m].0
                != #[trigger] moved[n].0 by {
                assert(origin[m] < origin[n]);
            }
            assert forall|m: int| 0 <= m < moved.len() implies leaving.contains_key(
                #[trigger] moved[m].0,
            ) && leaving[moved[m].0] == moved[m].1 by {
                assert(before.store.contains_key(listing@[origin[m]].0));
            }
        }
        out
    }

    /// Takes `predecessor` for the predecessor and hands on the entries that
    /// are then no longer this node's. Without a predecessor every key is
    /// this node's, and nothing leaves.
    pub fn set_predecessor(&mut self, predecessor: Option<OtherNode>) -> (out: Vec<Envelope>)
        requires
            old(self).wf(),
        ensures
            final(self)@ == old(self)@.with_predecessor(predecessor),
            old(self)@.hands_off(old(self)@.bound_under(predecessor), out@),
            predecessor is None ==> final(self)@.store == old(self)@.store && out@.len() == 0,
            final(self).wf(),
    {
        let bound: u64 = match &predecessor {
            Some(pre) => pre.id,
            None => self.id,
        };
        self.predecessor = predecessor;
        let out = self.check_redistribute_dht_keys(bound);
        proof {
            if predecessor is None {
                let s = old(self)@;
                let moved = choose|moved: Seq<(u64, DHTEntry)>|
                    lists(moved, s.store.restrict(s.leaving_keys(bound))) && #[trigger] moved.len()
                        == out@.len();
                if moved.len() > 0 {
                    assert(s.store.restrict(s.leaving_keys(bound)).contains_key(moved[0].0));
                }
            }
        }
        out
    }

    // Requests

    /// Answers a search for the successor of `id`.
    pub fn handle_find_successor_request(&self, id: u64) -> (reply: Response)
        requires
            self.wf(),
        ensures
            reply == self@.find_successor_reply(id),
    {
        let successor = self.get_successor();
        if is_in_interval_to(self.id, successor.id, id) {
            Response::FoundSuccessor { successor }
        } else {
            let from_behind: bool = match &self.predecessor {
                Some(pre) => is_in_interval(pre.id, self.id, id),
                None => false,
            };
            if from_behind {
                Response::FoundSuccessor { successor: self.to_other_node() }
            } else {
                Response::AskFurther { next_node: self.closest_preceding_node(id) }
            }
        }
    }

    /// Reports the predecessor, if the node knows one.
    pub fn handle_get_predecessor_request(&self) -> (reply: Response)
        ensures
            reply == (Response::GetPredecessorResponse { predecessor: self@.predecessor }),
    {
        Response::GetPredecessorResponse { predecessor: self.predecessor.clone() }
    }

    /// Hears that `node` may be the predecessor. Where the node adopts it,
    /// the entries that are then `node`'s leave for the successor.
    pub fn handle_notify_request(&mut self, node: OtherNode) -> (result: (Response, Vec<Envelope>))
        requires
            old(self).wf(),
        ensures
            final(self).wf(),
            result.0 == Response::NotifyResponse,
            old(self)@.notify_step(node, final(self)@, result.1@),
    {
        let adopt: bool = match &self.predecessor {
            None => true,
            Some(pre) => pre.id != node.id && is_in_interval(pre.id, self.id, node.id),
        };
        let out = if adopt {
            self.set_predecessor(Some(node))
        } else {
            Vec::new()
        };
        (Response::NotifyResponse, out)
    }

    /// Answers a search for the node of finger `index` of another node.
    pub fn handle_find_successor_finger_request(&self, index: usize, finger_id: u64) -> (reply:
        Response)
        requires
            self.wf(),
        ensures
            reply == self@.find_finger_reply(index, finger_id),
    {
        let successor = self.get_successor();
        if is_in_interval_to(self.id, successor.id, finger_id) {
            Response::FoundSuccessorFinger { index, finger_id, successor }
        } else {
            Response::AskFurtherFinger { index, finger_id, next_node: successor }
        }
    }

    /// Reports the successor list.
    pub fn handle_get_successor_list_request(&self) -> (reply: Response)
        ensures
            reply matches Response::GetSuccessorListResponse { successor_list } && successor_list@
                == self@.successors,
    {
        let successor_list = self.successor_list.clone();
        Response::GetSuccessorListResponse { successor_list }
    }

    /// Stores the entry where its key is this node's; else points to the
    /// closest preceding node and hands the entry back.
    pub fn handle_dht_store_key_request(&mut self, data: (u64, DHTEntry)) -> (reply: Response)
        ensures
            final(self)@ == old(self)@.after_store(data),
            reply == old(self)@.store_reply(data),
            old(self).wf() ==> final(self).wf(),
    {
        if self.is_responsible_for(data.0) {
            self.storage.store_key(data);
            Response::DHTStoredKey
        } else {
            Response::DHTAskFurtherStore { next_node: self.closest_preceding_node(data.0), data }
        }
    }

    /// Looks the key up where it is this node's; else points to the closest
    /// preceding node.
    pub fn handle_dht_find_key_request(&self, key_id: u64) -> (reply: Response)
        ensures
            reply == self@.find_key_reply(key_id),
    {
        if self.is_responsible_for(key_id) {
            let found: Option<DHTEntry> = match self.storage.get_key(&key_id) {
                Some(entry) => Some(entry.clone()),
                None => None,
            };
            Response::DHTFoundKey { data: (key_id, found) }
        } else {
            Response::DHTAskFurtherFind { next_node: self.closest_preceding_node(key_id), key_id }
        }
    }

    /// Deletes the key where it is this node's, and says whether there was
    /// an entry; else points to the closest preceding node.
    pub fn handle_dht_delete_key_request(&mut self, key_id: u64) -> (reply: Response)
        ensures
            final(self)@ == old(self)@.after_delete(key_id),
            reply == old(self)@.delete_reply(key_id),
            old(self).wf() ==> final(self).wf(),
    {
        if self.is_responsible_for(key_id) {
            let key_existed = self.storage.delete_key(&key_id).is_some();
            Response::DHTDeletedKey { key_existed }
        } else {
            Response::DHTAskFurtherDelete {
                next_node: self.closest_preceding_node(key_id),
                key_id,
            }
        }
    }

    /// Takes every entry of `data` into the store, whoever its key belongs
    /// to.
    pub fn handle_dht_take_over_keys(&mut self, data: Vec<(u64, DHTEntry)>)
        ensures
            final(self)@ == (NodeState { store: merged(old(self)@.store, data@), ..old(self)@ }),
            old(self).wf() ==> final(self).wf(),
    {
        let mut i: usize = 0;
        while i < data.len()
            invariant
                i <= data.len(),
                self@ == (NodeState {
                    store: merged(old(self)@.store, data@.subrange(0, i as int)),
                    ..old(self)@
                }),
            decreases data.len() - i,
        {
            let pair = &data[i];
            proof {
                let next = data@.subrange(0, i + 1);
                assert(next.drop_last() =~= data@.subrange(0, i as int));
            }
            self.storage.store_key((pair.0, pair.1.clone()));
            i = i + 1;
        }
        proof {
            assert(data@.subrange(0, data.len() as int) =~= data@);
        }
    }

    /// Whether `key_id` is this node's: it is the node's own identifier, or
    /// lies behind the predecessor, up to the node. A node that knows no
    /// predecessor takes every key.
    pub fn is_responsible_for(&self, key_id: u64) -> (mine: bool)
        ensures
            mine == self@.owns(key_id),
    {
        let bound: u64 = match &self.predecessor {
            Some(pre) => pre.id,
            None => self.id,
        };
        is_my_key(self.id, bound, key_id)
    }

    /// Answers a request: what the request's own handler answers, changes
    /// and sends.
    pub fn process_incoming_request(&mut self, request: Request) -> (result: (
        Option<Response>,
        Vec<Envelope>,
    ))
        requires
            old(self).wf(),
        ensures
            final(self).wf(),
            old(self)@.request_step(request, final(self)@, result.0, result.1@),
    {
        match request {
            Request::FindSuccessor { id } => (
                Some(self.handle_find_successor_request(id)),
                Vec::new(),
            ),
            Request::GetPredecessor => (Some(self.handle_get_predecessor_request()), Vec::new()),
            Request::Notify { node } => {
                let (reply, out) = self.handle_notify_request(node);
                (Some(reply), out)
            },
            Request::FindSuccessorFinger { index, finger_id } => (
                Some(self.handle_find_successor_finger_request(index, finger_id)),
                Vec::new(),
            ),
            Request::GetSuccessorList => (
                Some(self.handle_get_successor_list_request()),
                Vec::new(),
            ),
            Request::DHTStoreKey { data } => (
                Some(self.handle_dht_store_key_request(data)),
                Vec::new(),
            ),
            Request::DHTFindKey { key_id } => (
                Some(self.handle_dht_find_key_request(key_id)),
                Vec::new(),
            ),
            Request::DHTDeleteKey { key_id } => (
                Some(self.handle_dht_delete_key_request(key_id)),
                Vec::new(),
            ),
            Request::DHTTakeOverKeys { data } => {
                self.handle_dht_take_over_keys(data);
                (None, Vec::new())
            },
        }
    }

    /// Applies a response: what the response's own handler changes and
    /// sends.
    pub fn process_incoming_response(&mut self, response: Response) -> (out: Vec<Envelope>)
        requires
            old(self).wf(),
        ensures
            final(self).wf(),
            old(self)@.response_step(response, final(self)@, out@),
    {
        match response {
            Response::FoundSuccessor { successor } => self.handle_found_successor_response(
                successor,
            ),
            Response::AskFurther { next_node } => self.handle_ask_further_response(next_node),
            Response::GetPredecessorResponse {
                predecessor,
            } => self.handle_get_predecessor_response(predecessor),
            Response::NotifyResponse => {
                self.handle_notify_response();
                Vec::new()
            },
            Response::FoundSuccessorFinger { index, finger_id, successor } => {
                self.handle_found_successor_finger_response(index, finger_id, successor);
                Vec::new()
            },
            Response::AskFurtherFinger {
                index,
                finger_id,
                next_node,
            } => self.handle_ask_further_finger_response(index, finger_id, next_node),
            Response::GetSuccessorListResponse { successor_list } => {
                self.handle_get_successor_list_response(successor_list);
                Vec::new()
            },
            Response::DHTStoredKey => {
                self.handle_dht_stored_key_response();
                Vec::new()
            },
            Response::DHTFoundKey { data } => {
                self.handle_dht_found_key_response(data);
                Vec::new()
            },
            Response::DHTDeletedKey { key_existed } => {
                self.handle_dht_deleted_key_response(key_existed);
                Vec::new()
            },
            Response::DHTAskFurtherStore {
                next_node,
                data,
            } => self.handle_dht_ask_further_store_response(next_node, data),
            Response::DHTAskFurtherFind {
                next_node,
                key_id,
            } => self.handle_dht_ask_further_find_response(next_node, key_id),
            Response::DHTAskFurtherDelete {
                next_node,
                key_id,
            } => self.handle_dht_ask_further_delete_response(next_node, key_id),
        }
    }

    /// Makes `successor` the successor, in the finger table and at the head
    /// of the successor list, and returns the request for its successor
    /// list.
    pub fn update_successor_and_successor_list(&mut self, successor: OtherNode) -> (envelope:
        Envelope)
        requires
            old(self).wf(),
        ensures
            final(self).wf(),
            final(self)@ == old(self)@.with_successor(successor),
            envelope == old(self)@.request_to(successor, Request::GetSuccessorList),
    {
        self.finger_table.set_successor(successor.clone());
        self.successor_list.set(0, successor.clone());
        self.request_to(&successor, Request::GetSuccessorList)
    }

    /// The request that hands every stored entry to the successor, for a
    /// node that has joined; `None` for one that has not.
    pub fn move_all_keys_on_shutdown(&self) -> (envelope: Option<Envelope>)
        requires
            self.wf(),
        ensures
            !self@.joined ==> envelope is None,
            self@.joined ==> (envelope matches Some(e) && self@.hands_over_all(e)),
    {
        if self.joined {
            let data = self.storage.get_data_as_vec();
            let successor = self.get_successor();
            Some(self.request_to(&successor, Request::DHTTakeOverKeys { data }))
        } else {
            None
        }
    }

    // Responses

    /// The ring named this node's successor: the node adopts it and counts
    /// as joined.
    pub fn handle_found_successor_response(&mut self, successor: OtherNode) -> (out: Vec<Envelope>)
        requires
            old(self).wf(),
        ensures
            final(self).wf(),
            final(self)@ == (NodeState { joined: true, ..old(self)@.with_successor(successor) }),
            out@ == seq![old(self)@.request_to(successor, Request::GetSuccessorList)],
    {
        let envelope = self.update_successor_and_successor_list(successor);
        self.joined = true;
        let mut out: Vec<Envelope> = Vec::new();
        out.push(envelope);
        out
    }

    /// The search for this node's successor goes on at `next_node`.
    pub fn handle_ask_further_response(&self, next_node: OtherNode) -> (out: Vec<Envelope>)
        ensures
            out@ == seq![self@.request_to(next_node, Request::FindSuccessor { id: self@.me.id })],
    {
        let envelope = self.request_to(&next_node, Request::FindSuccessor { id: self.id });
        let mut out: Vec<Envelope> = Vec::new();
        out.push(envelope);
        out
    }

    /// The successor reported its predecessor.
    pub fn handle_get_predecessor_response(&mut self, predecessor: Option<OtherNode>) -> (out: Vec<
        Envelope,
    >)
        requires
            old(self).wf(),
        ensures
            final(self).wf(),
            old(self)@.predecessor_step(predecessor, final(self)@, out@),
    {
        let mut out: Vec<Envelope> = Vec::new();
        if let Some(reported) = predecessor {
            let successor = self.get_successor();
            if reported.id != self.id && is_in_interval(self.id, successor.id, reported.id) {
                let envelope = self.update_successor_and_successor_list(reported);
                out.push(envelope);
            }
        }
        let successor = self.get_successor();
        let notify = self.request_to(&successor, Request::Notify { node: self.to_other_node() });
        out.push(notify);
        proof {
            if old(self)@.adopts_successor(predecessor) {
                assert(out@ =~= seq![
                    old(self)@.request_to(predecessor->Some_0, Request::GetSuccessorList),
                    old(self)@.request_to(
                        predecessor->Some_0,
                        Request::Notify { node: old(self)@.me },
                    ),
                ]);
            }
        }
        out
    }

    /// The successor took note; nothing follows.
    pub fn handle_notify_response(&self) {
    }

    /// The answer for finger `index` arrived.
    pub fn handle_found_successor_finger_response(
        &mut self,
        index: usize,
        finger_id: u64,
        successor: OtherNode,
    )
        requires
            old(self).wf(),
        ensures
            final(self).wf(),
            final(self)@ == old(self)@.with_finger(index, finger_id, successor),
    {
        if index != 0 {
            self.finger_table.put(index, finger_id, successor);
        }
    }

    /// The search for the node of finger `index` goes on at `next_node`.
    pub fn handle_ask_further_finger_response(
        &self,
        index: usize,
        finger_id: u64,
        next_node: OtherNode,
    ) -> (out: Vec<Envelope>)
        ensures
            out@ == seq![
                self@.request_to(next_node, Request::FindSuccessorFinger { index, finger_id }),
            ],
    {
        let envelope = self.request_to(
            &next_node,
            Request::FindSuccessorFinger { index, finger_id },
        );
        let mut out: Vec<Envelope> = Vec::new();
        out.push(envelope);
        out
    }

    /// The successor's list arrived: the new list is the successor, then
    /// the nodes of its list, as many as fit behind it.
    pub fn handle_get_successor_list_response(&mut self, successor_list: Vec<OtherNode>)
        requires
            old(self).wf(),
        ensures
            final(self).wf(),
            final(self)@ == old(self)@.with_successor_list(successor_list@),
    {
        let mut new_successor_list: Vec<OtherNode> = Vec::with_capacity(SUCCESSORLIST_SIZE);
        new_successor_list.push(self.get_successor());
        let take: usize = if successor_list.len() < SUCCESSORLIST_SIZE {
            successor_list.len()
        } else {
            SUCCESSORLIST_SIZE - 1
        };
        let mut i: usize = 0;
        while i < take
            invariant
                i <= take <= successor_list.len(),
                new_successor_list@ == seq![old(self)@.successor()] + successor_list@.subrange(
                    0,
                    i as int,
                ),
            decreases take - i,
        {
            new_successor_list.push(successor_list[i].clone());
            i = i + 1;
        }
        self.successor_list = new_successor_list;
    }

    /// Notes in the log that the key was stored.
    pub fn handle_dht_stored_key_response(&mut self)
        ensures
            old(self)@.logged(stored_text(), final(self)@),
            old(self).wf() ==> final(self).wf(),
    {
        self.storage.write_log_entry(String::from_str("Key stored"));
    }

    /// Notes in the log what the search found.
    pub fn handle_dht_found_key_response(&mut self, data: (u64, Option<DHTEntry>))
        ensures
            old(self)@.logged(found_text(data), final(self)@),
            old(self).wf() ==> final(self).wf(),
    {
        let mut text: String;
        match &data.1 {
            Some(dht_entry) => {
                text = String::from_str("Value for key ");
                text.append(dht_entry.key.as_str());
                text.append(" (id: ");
                push_decimal(&mut text, data.0);
                text.append(") is ");
                text.append(dht_entry.value.as_str());
            },
            None => {
                text = String::from_str("No value for key_id ");
                push_decimal(&mut text, data.0);
                text.append(" found in the network");
            },
        }
        self.storage.write_log_entry(text);
    }

    /// Notes in the log how the deletion ended.
    pub fn handle_dht_deleted_key_response(&mut self, key_existed: bool)
        ensures
            old(self)@.logged(deleted_text(key_existed), final(self)@),
            old(self).wf() ==> final(self).wf(),
    {
        if key_existed {
            self.storage.write_log_entry(String::from_str("Key deleted"));
        } else {
            self.storage.write_log_entry(
                String::from_str("Tried to delete key but the key was not present in the network"),
            );
        }
    }

    /// The entry is to be stored at `next_node`.
    pub fn handle_dht_ask_further_store_response(
        &self,
        next_node: OtherNode,
        data: (u64, DHTEntry),
    ) -> (out: Vec<Envelope>)
        ensures
            out@ == seq![self@.request_to(next_node, Request::DHTStoreKey { data })],
    {
        let envelope = self.request_to(&next_node, Request::DHTStoreKey { data });
        let mut out: Vec<Envelope> = Vec::new();
        out.push(envelope);
        out
    }

    /// The key is to be looked up at `next_node`.
    pub fn handle_dht_ask_further_find_response(&self, next_node: OtherNode, key_id: u64) -> (out:
        Vec<Envelope>)
        ensures
            out@ == seq![self@.request_to(next_node, Request::DHTFindKey { key_id })],
    {
        let envelope = self.request_to(&next_node, Request::DHTFindKey { key_id });
        let mut out: Vec<Envelope> = Vec::new();
        out.push(envelope);
        out
    }

    /// The key is to be deleted at `next_node`.
    pub fn handle_dht_ask_further_delete_response(&self, next_node: OtherNode, key_id: u64) -> (out:
        Vec<Envelope>)
        ensures
            out@ == seq![self@.request_to(next_node, Request::DHTDeleteKey { key_id })],
    {
        let envelope = self.request_to(&next_node, Request::DHTDeleteKey { key_id });
        let mut out: Vec<Envelope> = Vec::new();
        out.push(envelope);
        out
    }

    /// The envelope that carries `response` from this node to `target`.
    pub fn response_to(&self, target: &OtherNode, response: Response) -> (envelope: Envelope)
        ensures
            envelope == self@.response_to(*target, response),
    {
        Envelope {
            target: target.ip_addr.clone(),
            message: Message::ResponseMessage { sender: self.to_other_node(), response },
        }
    }

    /// Takes a message in: changes the state as the message asks, and
    /// returns what is to be sent and whether the node is to stop.
    pub fn dispatch(&mut self, message: Message) -> (reaction: Reaction)
        requires
            old(self).wf(),
        ensures
            final(self).wf(),
            old(self)@.message_step(message, final(self)@, reaction.outbound@, reaction.shutdown),
    {
        match message {
            Message::Ping { sender } => Reaction { outbound: Vec::new(), shutdown: false },
            Message::RequestMessage { sender, request } => {
                let (reply, mut outbound) = self.process_incoming_request(request);
                let ghost sent = outbound@;
                if let Some(response) = reply {
                    let envelope = self.response_to(&sender, response);
                    outbound.push(envelope);
                }
                assert(outbound@ =~= sent + self@.replies(sender, reply));
                Reaction { outbound, shutdown: false }
            },
            Message::ResponseMessage { sender, response } => {
                let outbound = self.process_incoming_response(response);
                Reaction { outbound, shutdown: false }
            },
            Message::DHTInteraction { request } => {
                let mut outbound: Vec<Envelope> = Vec::new();
                if let Some(started) = request.to_request() {
                    let me = self.to_other_node();
                    outbound.push(self.request_to(&me, started));
                }
                Reaction { outbound, shutdown: false }
            },
            Message::Kill => {
                let mut outbound: Vec<Envelope> = Vec::new();
                if let Some(envelope) = self.move_all_keys_on_shutdown() {
                    outbound.push(envelope);
                }
                Reaction { outbound, shutdown: true }
            },
        }
    }
}

} // verus!
