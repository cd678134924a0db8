use chord_dht::chord::{
    check_predecessor, fix_fingers, join, predecessor_probed, stabilize, Action, Event,
    StabilizeState, CHORD_RING_SIZE, FINGERTABLE_SIZE,
};
use chord_dht::node::{Node, OtherNode};
use chord_dht::protocols::{Envelope, Message, Request, Response};
use chord_dht::storage::DHTEntry;

const HOME: &str = "127.0.0.1:10000";

fn peer_at(node: &Node, offset: u64) -> OtherNode {
    let id = (*node.get_id() + offset) % CHORD_RING_SIZE;
    OtherNode::new(id, format!("10.0.0.1:{}", offset))
}

fn request_from(node: &Node, target: &OtherNode, request: Request) -> Envelope {
    Envelope {
        target: target.ip_addr.clone(),
        message: Message::RequestMessage { sender: node.to_other_node(), request },
    }
}

/// A joined node whose successor list names the nodes 1000, 2000 and 3000
/// steps ahead.
fn node_with_three_successors() -> Node {
    let mut node = Node::new_first(HOME.to_string());
    node.process_incoming_response(Response::FoundSuccessor { successor: peer_at(&node, 1000) });
    node.process_incoming_response(Response::GetSuccessorListResponse {
        successor_list: vec![peer_at(&node, 2000), peer_at(&node, 3000)],
    });
    node
}

#[test]
fn join_asks_the_contact_for_the_successor() {
    let sender = OtherNode::new(17, "127.0.0.1:10001".to_string());
    let envelope = join(17, sender.clone(), HOME.to_string());
    assert_eq!(
        envelope,
        Envelope {
            target: HOME.to_string(),
            message: Message::RequestMessage { sender, request: Request::FindSuccessor { id: 17 } },
        }
    );
}

#[test]
fn stabilize_rests_until_the_node_has_joined() {
    let mut node = Node::new("127.0.0.1:10001".to_string(), HOME.to_string());
    for event in [Event::Tick, Event::Answered, Event::Silent] {
        let (state, action) = stabilize(&mut node, StabilizeState::Resting, event);
        assert_eq!(state, StabilizeState::Resting);
        assert_eq!(action, Action::Sleep);
    }
}

#[test]
fn stabilize_probes_the_first_successor_on_a_tick() {
    let mut node = node_with_three_successors();
    let (state, action) = stabilize(&mut node, StabilizeState::Resting, Event::Tick);
    assert_eq!(
        state,
        StabilizeState::Probing { candidates: node.get_successor_list().clone(), cursor: 0 }
    );
    assert_eq!(action, Action::Probe { target: peer_at(&node, 1000) });
    // a probe result without a round is ignored
    let (state, action) = stabilize(&mut node, StabilizeState::Resting, Event::Silent);
    assert_eq!((state, action), (StabilizeState::Resting, Action::Sleep));
    let (state, action) = stabilize(&mut node, StabilizeState::Resting, Event::Answered);
    assert_eq!((state, action), (StabilizeState::Resting, Action::Sleep));
}

#[test]
fn stabilize_asks_the_first_successor_that_answers() {
    let mut node = node_with_three_successors();
    let (state, _) = stabilize(&mut node, StabilizeState::Resting, Event::Tick);
    let (state, action) = stabilize(&mut node, state, Event::Silent);
    assert_eq!(action, Action::Probe { target: peer_at(&node, 2000) });
    let (state, action) = stabilize(&mut node, state, Event::Answered);
    assert_eq!(state, StabilizeState::Resting);
    let alive = peer_at(&node, 2000);
    assert_eq!(
        action,
        Action::Send {
            messages: vec![
                request_from(&node, &alive, Request::GetPredecessor),
                request_from(&node, &alive, Request::GetSuccessorList),
            ]
        }
    );
    assert_eq!(node.get_successor(), alive);
    assert_eq!(
        *node.get_successor_list(),
        vec![peer_at(&node, 2000), peer_at(&node, 2000), peer_at(&node, 3000)]
    );
}

#[test]
fn stabilize_gives_up_when_no_successor_answers() {
    let mut node = node_with_three_successors();
    let (state, _) = stabilize(&mut node, StabilizeState::Resting, Event::Tick);
    let (state, _) = stabilize(&mut node, state, Event::Silent);
    let (state, action) = stabilize(&mut node, state, Event::Silent);
    assert_eq!(action, Action::Probe { target: peer_at(&node, 3000) });
    let (state, action) = stabilize(&mut node, state, Event::Silent);
    assert_eq!(state, StabilizeState::Resting);
    assert_eq!(action, Action::Terminate);
    assert_eq!(node.get_successor(), peer_at(&node, 1000));
}

#[test]
fn stabilize_repeats_the_probe_on_a_tick_within_a_round() {
    let mut node = node_with_three_successors();
    let (state, _) = stabilize(&mut node, StabilizeState::Resting, Event::Tick);
    let (state, action) = stabilize(&mut node, state, Event::Tick);
    assert_eq!(action, Action::Probe { target: peer_at(&node, 1000) });
    assert_eq!(
        state,
        StabilizeState::Probing { candidates: node.get_successor_list().clone(), cursor: 0 }
    );
}

#[test]
fn stabilize_with_a_cursor_past_the_candidates_gives_up() {
    let mut node = node_with_three_successors();
    let state = StabilizeState::Probing { candidates: vec![peer_at(&node, 5)], cursor: 1 };
    let (state, action) = stabilize(&mut node, state, Event::Answered);
    assert_eq!((state, action), (StabilizeState::Resting, Action::Terminate));
    let state = StabilizeState::Probing { candidates: vec![], cursor: 0 };
    let (state, action) = stabilize(&mut node, state, Event::Tick);
    assert_eq!((state, action), (StabilizeState::Resting, Action::Terminate));
}

#[test]
fn fix_fingers_asks_the_successor_and_moves_the_cursor() {
    let node = node_with_three_successors();
    let successor = node.get_successor();
    let mut next = 1;
    for round in 0..2 * FINGERTABLE_SIZE {
        let index = 1 + round % (FINGERTABLE_SIZE - 1);
        assert_eq!(next, index);
        let (following, envelope) = fix_fingers(&node, next);
        let finger_id = (*node.get_id() + (1u64 << index)) % CHORD_RING_SIZE;
        assert_eq!(
            envelope,
            Some(request_from(&node, &successor, Request::FindSuccessorFinger { index, finger_id }))
        );
        assert!(following >= 1 && following < FINGERTABLE_SIZE);
        next = following;
    }
}

#[test]
fn fix_fingers_wraps_to_the_second_finger() {
    let node = node_with_three_successors();
    assert_eq!(fix_fingers(&node, FINGERTABLE_SIZE - 2).0, FINGERTABLE_SIZE - 1);
    assert_eq!(fix_fingers(&node, FINGERTABLE_SIZE - 1).0, 1);
    assert_eq!(fix_fingers(&node, usize::MAX).0, 1);
    assert_eq!(fix_fingers(&node, 0).0, 1);
}

#[test]
fn fix_fingers_rests_until_the_node_has_joined() {
    let node = Node::new("127.0.0.1:10001".to_string(), HOME.to_string());
    assert_eq!(fix_fingers(&node, 4), (4, None));
}

#[test]
fn check_predecessor_names_the_predecessor_of_a_joined_node() {
    let mut node = node_with_three_successors();
    assert_eq!(check_predecessor(&node), Some(node.to_other_node()));
    node.set_predecessor(Some(peer_at(&node, 50)));
    assert_eq!(check_predecessor(&node), Some(peer_at(&node, 50)));
    node.set_predecessor(None);
    assert_eq!(check_predecessor(&node), None);
    let mut joiner = Node::new("127.0.0.1:10001".to_string(), HOME.to_string());
    joiner.set_predecessor(Some(peer_at(&joiner, 50)));
    assert_eq!(check_predecessor(&joiner), None);
}

#[test]
fn silent_predecessor_is_forgotten() {
    let mut node = node_with_three_successors();
    let key_id = (*node.get_id() + 5000) % CHORD_RING_SIZE;
    node.set_predecessor(Some(peer_at(&node, CHORD_RING_SIZE - 50)));
    node.process_incoming_request(Request::DHTTakeOverKeys {
        data: vec![(key_id, DHTEntry::new("k".to_string(), "v".to_string()))],
    });
    for event in [Event::Answered, Event::Tick] {
        assert!(predecessor_probed(&mut node, event).is_empty());
        assert_eq!(*node.get_predecessor(), Some(peer_at(&node, CHORD_RING_SIZE - 50)));
    }
    assert!(predecessor_probed(&mut node, Event::Silent).is_empty());
    assert_eq!(*node.get_predecessor(), None);
    // nothing was handed off, and every key is the node's now
    assert!(node.get_storage().get_key(&key_id).is_some());
    assert!(node.is_responsible_for(key_id));
}
