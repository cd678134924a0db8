//! The ring that this library runs on: its parameters, how identifiers are
//! derived from addresses and keys, and the interval and ownership tests at
//! its width.

use vstd::prelude::*;
use vstd::arithmetic::power2::{lemma2_to64, pow2};
use vstd::string::*;
use vstd::utf8::encode_utf8;
use crypto::digest::Digest;
use crypto::sha1::Sha1;
use crate::fingertable::get_finger_id;
use crate::node::{Node, OtherNode};
use crate::state::NodeState;
use crate::protocols::{Envelope, Message, Request};
use crate::ring::{
    be_value, finger_start, id_of_bytes, in_half_open_interval, in_open_interval, is_owner,
    ring_distance, ring_size, Ring,
};

verus! {

/// Width of the identifier ring, in bits.
pub const CHORD_CIRCLE_BITS: u32 = 32;

/// Number of identifiers on the ring: `2^CHORD_CIRCLE_BITS`.
pub const CHORD_RING_SIZE: u64 = 0x1_0000_0000;

/// Most entries a finger table holds.
pub const FINGERTABLE_SIZE: usize = 16;

/// Most entries a successor list holds.
pub const SUCCESSORLIST_SIZE: usize = 16;

/// Milliseconds between two rounds of stabilization.
pub const NODE_STABILIZE_INTERVAL: u64 = 4000;

/// Milliseconds between two rounds of finger fixing.
pub const NODE_FIX_FINGERS_INTERVAL: u64 = 1000;

/// Milliseconds between two checks of the predecessor.
pub const NODE_CHECK_PREDECESSOR_INTERVAL: u64 = 4000;

/// Milliseconds a joining node waits before it asks for its successor.
pub const NODE_INIT_SLEEP_INTERVAL: u64 = 2000;

/// Milliseconds between two printouts of the node's state.
pub const NODE_PRINT_INTERVAL: u64 = 2000;

/// Milliseconds after which a liveness probe counts as failed.
pub const PING_TIMEOUT_INTERVAL: u64 = 500;

/// Address on which a node listens.
pub const LISTENING_ADDRESS: &'static str = "0.0.0.0";

/// SHA-1 takes inputs of fewer bytes than this.
pub const HASH_INPUT_LIMIT: u64 = 0x2000_0000_0000_0000;

/// The clockwise distance from `a` to `b` on this ring.
pub open spec fn distance(a: u64, b: u64) -> int {
    (b - a) % (CHORD_RING_SIZE as int)
}

/// `x` lies in the interval that starts at `a` and ends before `b`. With
/// `a == b` the interval is the whole ring; with `a != b` its start `a` is in
/// it, its distance from `a` being zero.
pub open spec fn in_interval(a: u64, b: u64, x: u64) -> bool {
    a == b || distance(a, x) < distance(a, b)
}

/// `x` lies in the interval from `a` to `b`, or is `b`.
pub open spec fn in_interval_to(a: u64, b: u64, x: u64) -> bool {
    x == b || in_interval(a, b, x)
}

/// The node `self_id` with predecessor `pred_id` is responsible for
/// `key_id`.
pub open spec fn owns(self_id: u64, pred_id: u64, key_id: u64) -> bool {
    key_id == self_id || (key_id != pred_id && in_interval_to(pred_id, self_id, key_id))
}

/// The identifier that finger `exponent` of node `n` points at:
/// `n + 2^exponent`, taken on the ring.
pub open spec fn finger_id(n: u64, exponent: usize) -> int {
    (n + pow2(exponent as nat)) % (CHORD_RING_SIZE as int)
}

/// The SHA-1 digest of the UTF-8 bytes of `text`, as forty lower-case
/// hexadecimal digits.
pub uninterp spec fn sha1_hex(text: Seq<char>) -> Seq<char>;

/// The identifier that a digest stands for: the bytes of its characters,
/// read as one number with the most significant byte first, taken on the
/// ring.
pub open spec fn digest_id(digest: Seq<char>) -> int {
    be_value(encode_utf8(digest)) as int % (CHORD_RING_SIZE as int)
}

/// The identifier of a text on this ring.
pub open spec fn id_of_text(text: Seq<char>) -> int {
    digest_id(sha1_hex(text))
}

/// Whether a text is short enough to be hashed.
pub open spec fn hashable(text: Seq<char>) -> bool {
    encode_utf8(text).len() < HASH_INPUT_LIMIT
}

/// The ring of this library is the ring of width `CHORD_CIRCLE_BITS`: what
/// holds of the interval and ownership tests on every ring holds of the
/// tests here.
pub proof fn lemma_chord_ring(a: u64, b: u64, x: u64, exponent: usize, bytes: Seq<u8>)
    ensures
        ring_size(CHORD_CIRCLE_BITS as nat) == CHORD_RING_SIZE,
        distance(a, b) == ring_distance(CHORD_CIRCLE_BITS as nat, a as int, b as int),
        in_interval(a, b, x) == in_open_interval(
            CHORD_CIRCLE_BITS as nat,
            a as int,
            b as int,
            x as int,
        ),
        in_interval_to(a, b, x) == in_half_open_interval(
            CHORD_CIRCLE_BITS as nat,
            a as int,
            b as int,
            x as int,
        ),
        owns(a, b, x) == is_owner(CHORD_CIRCLE_BITS as nat, a as int, b as int, x as int),
        finger_id(a, exponent) == finger_start(CHORD_CIRCLE_BITS as nat, a as int, exponent as nat),
        be_value(bytes) as int % (CHORD_RING_SIZE as int) == id_of_bytes(
            CHORD_CIRCLE_BITS as nat,
            bytes,
        ),
{
    lemma2_to64();
}

/// A character takes at most four bytes.
pub proof fn lemma_utf8_length(text: Seq<char>)
    ensures
        encode_utf8(text).len() <= 4 * text.len(),
    decreases text.len(),
{
    if text.len() > 0 {
        lemma_utf8_length(text.drop_first());
    }
}

/// A text of fewer than `HASH_INPUT_LIMIT / 4` characters can be hashed.
pub proof fn lemma_short_text_is_hashable(text: Seq<char>)
    requires
        4 * text.len() < HASH_INPUT_LIMIT,
    ensures
        hashable(text),
{
    lemma_utf8_length(text);
}

/// The ring of width `CHORD_CIRCLE_BITS`.
pub fn chord_ring() -> (ring: Ring)
    ensures
        ring.width() == CHORD_CIRCLE_BITS,
{
    Ring::new(CHORD_CIRCLE_BITS).unwrap()
}

/// Calls `Sha1::new`, `Digest::input_str` and `Digest::result_str` of
/// rust-crypto. Trusted: the result is the hexadecimal SHA-1 digest of the
/// text, a function of the text alone. The hasher refuses inputs of
/// `HASH_INPUT_LIMIT` bytes or more, which the precondition leaves out.
#[verifier::external_body]
fn create_hash(string: &str) -> (digest: String)
    requires
        hashable(string@),
    ensures
        digest@ == sha1_hex(string@),
{
    let mut hasher = Sha1::new();
    hasher.input_str(string);
    hasher.result_str()
}

/// The identifier that a digest stands for.
pub fn id_from_digest(digest: &str) -> (id: u64)
    ensures
        id == digest_id(digest@),
        id < CHORD_RING_SIZE,
{
    let ring = chord_ring();
    let id = ring.id_of_bytes(digest.as_bytes());
    proof {
        lemma2_to64();
    }
    id
}

/// The identifier of a key: its SHA-1 digest, taken on the ring.
pub fn create_id(string: &str) -> (id: u64)
    requires
        hashable(string@),
    ensures
        id == id_of_text(string@),
        id < CHORD_RING_SIZE,
{
    let hash = create_hash(string);
    id_from_digest(hash.as_str())
}

/// The identifier of a key, or `None` for a key too long to be hashed.
pub fn create_id_checked(string: &str) -> (id: Option<u64>)
    ensures
        hashable(string@) ==> id == Some(id_of_text(string@) as u64) && id_of_text(string@)
            < CHORD_RING_SIZE,
        !hashable(string@) ==> id is None,
{
    if (string.as_bytes().len() as u64) < HASH_INPUT_LIMIT {
        Some(create_id(string))
    } else {
        None
    }
}

/// The identifier of the node that listens on `ip_addr`.
pub fn create_node_id(ip_addr: &str) -> (id: u64)
    requires
        hashable(ip_addr@),
    ensures
        id == id_of_text(ip_addr@),
        id < CHORD_RING_SIZE,
{
    create_id(ip_addr)
}

/// Test if `id` lies in the interval from `first` to `second`.
pub fn is_in_interval(first: u64, second: u64, id: u64) -> (inside: bool)
    ensures
        inside == in_interval(first, second, id),
{
    proof {
        lemma2_to64();
    }
    chord_ring().in_open_interval(first, second, id)
}

/// Test if `id` lies in the interval from `first` to `second`, or is
/// `second`.
pub fn is_in_interval_to(first: u64, second: u64, id: u64) -> (inside: bool)
    ensures
        inside == in_interval_to(first, second, id),
{
    proof {
        lemma2_to64();
    }
    chord_ring().in_half_open_interval(first, second, id)
}

/// The clockwise distance from `a` to `b`.
pub fn chord_abs(a: u64, b: u64) -> (d: u64)
    ensures
        d == distance(a, b),
        d < CHORD_RING_SIZE,
{
    let d = chord_ring().distance(a, b);
    proof {
        lemma2_to64();
    }
    d
}

/// Whether the node `self_id`, whose predecessor is `pre_id`, is responsible
/// for `key_id`.
pub fn is_my_key(self_id: u64, pre_id: u64, key_id: u64) -> (mine: bool)
    ensures
        mine == owns(self_id, pre_id, key_id),
{
    proof {
        lemma2_to64();
    }
    chord_ring().is_owner(self_id, pre_id, key_id)
}

/// The request with which the node `sender`, of identifier `id`, asks the
/// member at `join_ip` for its successor.
pub fn join(id: u64, sender: OtherNode, join_ip: String) -> (envelope: Envelope)
    ensures
        envelope == (Envelope {
            target: join_ip,
            message: Message::RequestMessage { sender, request: Request::FindSuccessor { id } },
        }),
{
    let request = Request::FindSuccessor { id };
    Envelope { target: join_ip, message: Message::RequestMessage { sender, request } }
}

/// What a maintenance task is told: that its interval has passed, or how
/// the liveness probe it asked for ended.
#[derive(Clone, Copy, Debug, PartialEq, Eq, Structural)]
pub enum Event {
    Tick,
    Answered,
    Silent,
}

/// Where a round of stabilization stands.
#[derive(Debug, PartialEq, Eq)]
pub enum StabilizeState {
    /// Between two rounds.
    Resting,
    /// The successors known when the round began, of which those before
    /// `cursor` did not answer and the one at `cursor` is being probed.
    Probing { candidates: Vec<OtherNode>, cursor: usize },
}

/// What the caller is to do for a maintenance task.
#[derive(Debug, PartialEq, Eq)]
pub enum Action {
    /// Wait for the next tick.
    Sleep,
    /// Probe whether `target` is alive, and report how it ended.
    Probe { target: OtherNode },
    /// Send the messages, then wait for the next tick.
    Send { messages: Vec<Envelope> },
    /// No successor answers: the ring cannot be reached from this node.
    Terminate,
}

/// What stabilization asks of a live successor: its predecessor, and its
/// successor list.
pub open spec fn stabilize_requests(s: NodeState, successor: OtherNode) -> Seq<Envelope> {
    seq![
        s.request_to(successor, Request::GetPredecessor),
        s.request_to(successor, Request::GetSuccessorList),
    ]
}

/// One step of stabilization. A round begins on a tick, once the node has
/// joined, and probes the successors known then in order. The first that
/// answers becomes the successor and is asked for its predecessor and its
/// successor list. If none answers the ring is unreachable.
pub fn stabilize(node: &mut Node, state: StabilizeState, event: Event) -> (result: (
    StabilizeState,
    Action,
))
    requires
        old(node).wf(),
    ensures
        final(node).wf(),
        match state {
            StabilizeState::Resting => final(node)@ == old(node)@ && (if event == Event::Tick
                && old(node)@.joined {
                (result.0 matches StabilizeState::Probing { candidates, cursor } && candidates@
                    == old(node)@.successors && cursor == 0) && result.1 == (Action::Probe {
                    target: old(node)@.successors[0],
                })
            } else {
                result.0 is Resting && result.1 is Sleep
            }),
            StabilizeState::Probing { candidates, cursor } => if cursor >= candidates.len() {
                final(node)@ == old(node)@ && result.0 is Resting && result.1 is Terminate
            } else {
                match event {
                    Event::Tick => final(node)@ == old(node)@ && result.0 == state && result.1 == (
                    Action::Probe { target: candidates[cursor as int] }),
                    Event::Answered => final(node)@ == old(node)@.with_successor(
                        candidates[cursor as int],
                    ) && result.0 is Resting && (result.1 matches Action::Send { messages }
                        && messages@ == stabilize_requests(old(node)@, candidates[cursor as int])),
                    Event::Silent => final(node)@ == old(node)@ && (if cursor + 1
                        < candidates.len() {
                        result.0 == (StabilizeState::Probing {
                            candidates,
                            cursor: (cursor + 1) as usize,
                        }) && result.1 == (Action::Probe { target: candidates[cursor + 1] })
                    } else {
                        result.0 is Resting && result.1 is Terminate
                    }),
                }
            },
        },
{
    match state {
        StabilizeState::Resting => {
            if event == Event::Tick && node.is_joined() {
                let candidates = node.get_successor_list().clone();
                let target = candidates[0].clone();
                (StabilizeState::Probing { candidates, cursor: 0 }, Action::Probe { target })
            } else {
                (StabilizeState::Resting, Action::Sleep)
            }
        },
        StabilizeState::Probing { candidates, cursor } => {
            if cursor >= candidates.len() {
                (StabilizeState::Resting, Action::Terminate)
            } else {
                match event {
                    Event::Tick => {
                        let target = candidates[cursor].clone();
                        (StabilizeState::Probing { candidates, cursor }, Action::Probe { target })
                    },
                    Event::Answered => {
                        let succ = candidates[cursor].clone();
                        let mut messages: Vec<Envelope> = Vec::new();
                        messages.push(node.request_to(&succ, Request::GetPredecessor));
                        messages.push(node.update_successor_and_successor_list(succ));
                        (StabilizeState::Resting, Action::Send { messages })
                    },
                    Event::Silent => {
                        if cursor + 1 < candidates.len() {
                            let target = candidates[cursor + 1].clone();
                            (
                                StabilizeState::Probing { candidates, cursor: cursor + 1 },
                                Action::Probe { target },
                            )
                        } else {
                            (StabilizeState::Resting, Action::Terminate)
                        }
                    },
                }
            }
        },
    }
}

/// The finger to ask about after finger `next`: the following one, and the
/// second after the last. The first finger is the successor and is never
/// asked about.
pub open spec fn next_finger(next: usize) -> usize {
    if next < FINGERTABLE_SIZE - 1 {
        (next + 1) as usize
    } else {
        1
    }
}

/// One round of finger fixing: once the node has joined, the request that
/// asks the successor for the node of finger `next`, and the finger to ask
/// about in the following round.
pub fn fix_fingers(node: &Node, next: usize) -> (result: (usize, Option<Envelope>))
    requires
        node.wf(),
    ensures
        node@.joined ==> result.0 == next_finger(next) && result.1 == Some(
            node@.request_to(
                node@.successor(),
                Request::FindSuccessorFinger {
                    index: next,
                    finger_id: finger_id(node@.me.id, next) as u64,
                },
            ),
        ),
        !node@.joined ==> result.0 == next && result.1 is None,
{
    if node.is_joined() {
        let finger_id = get_finger_id(*node.get_id(), next);
        let request = Request::FindSuccessorFinger { index: next, finger_id };
        let successor = node.get_successor();
        let envelope = node.request_to(&successor, request);
        let following: usize = if next < FINGERTABLE_SIZE - 1 {
            next + 1
        } else {
            1
        };
        (following, Some(envelope))
    } else {
        (next, None)
    }
}

/// The predecessor whose liveness is to be probed: the one the node knows,
/// once it has joined.
pub fn check_predecessor(node: &Node) -> (target: Option<OtherNode>)
    ensures
        target == (if node@.joined {
            node@.predecessor
        } else {
            None
        }),
{
    if node.is_joined() {
        node.get_predecessor().clone()
    } else {
        None
    }
}

/// Applies the result of the probe of the predecessor: one that was silent
/// is forgotten, and the node takes every key for its own until it hears of
/// another.
pub fn predecessor_probed(node: &mut Node, event: Event) -> (out: Vec<Envelope>)
    requires
        old(node).wf(),
    ensures
        final(node).wf(),
        out@.len() == 0,
        event == Event::Silent ==> final(node)@ == (NodeState {
            predecessor: None,
            ..old(node)@
        }),
        event != Event::Silent ==> final(node)@ == old(node)@,
{
    if event == Event::Silent {
        node.set_predecessor(None)
    } else {
        Vec::new()
    }
}

} // verus!
