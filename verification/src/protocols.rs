//! The messages that nodes exchange.

use vstd::prelude::*;
use vstd::string::*;
use crate::chord::{create_id_checked, hashable, id_of_text};
use crate::node::OtherNode;
use crate::storage::DHTEntry;

verus! {

/// What travels between two nodes.
#[derive(Debug, PartialEq, Eq)]
#[allow(inconsistent_fields)]
pub enum Message {
    /// A liveness probe; it asks for no reply.
    Ping { sender: OtherNode },
    RequestMessage { sender: OtherNode, request: Request },
    ResponseMessage { sender: OtherNode, response: Response },
    /// A client asks the receiving node to start an operation on the table.
    DHTInteraction { request: DHTInteractionRequest },
    /// Asks the receiving node to hand its keys over and stop.
    Kill,
}

#[derive(Debug, PartialEq, Eq)]
#[allow(inconsistent_fields)]
pub enum Request {
    FindSuccessor { id: u64 },
    GetPredecessor,
    Notify { node: OtherNode },
    FindSuccessorFinger { index: usize, finger_id: u64 },
    GetSuccessorList,
    DHTStoreKey { data: (u64, DHTEntry) },
    DHTFindKey { key_id: u64 },
    DHTDeleteKey { key_id: u64 },
    DHTTakeOverKeys { data: Vec<(u64, DHTEntry)> },
}

#[derive(Debug, PartialEq, Eq)]
#[allow(inconsistent_fields)]
pub enum Response {
    FoundSuccessor { successor: OtherNode },
    AskFurther { next_node: OtherNode },
    GetPredecessorResponse { predecessor: Option<OtherNode> },
    NotifyResponse,
    FoundSuccessorFinger { index: usize, finger_id: u64, successor: OtherNode },
    AskFurtherFinger { index: usize, finger_id: u64, next_node: OtherNode },
    GetSuccessorListResponse { successor_list: Vec<OtherNode> },
    DHTStoredKey,
    DHTFoundKey { data: (u64, Option<DHTEntry>) },
    DHTDeletedKey { key_existed: bool },
    DHTAskFurtherStore { next_node: OtherNode, data: (u64, DHTEntry) },
    DHTAskFurtherFind { next_node: OtherNode, key_id: u64 },
    DHTAskFurtherDelete { next_node: OtherNode, key_id: u64 },
}

#[derive(Debug, PartialEq, Eq)]
pub enum DHTInteractionRequest {
    InitialStore { key: String, value: String },
    InitialFind { key: String },
    InitialDelete { key: String },
}

impl DHTInteractionRequest {
    /// The key that the operation is about.
    pub open spec fn key(self) -> String {
        match self {
            DHTInteractionRequest::InitialStore { key, value } => key,
            DHTInteractionRequest::InitialFind { key } => key,
            DHTInteractionRequest::InitialDelete { key } => key,
        }
    }

    /// The request that starts the operation: the key goes by its
    /// identifier.
    pub open spec fn request(self) -> Request {
        match self {
            DHTInteractionRequest::InitialStore { key, value } => Request::DHTStoreKey {
                data: (id_of_text(key@) as u64, DHTEntry { key, value }),
            },
            DHTInteractionRequest::InitialFind { key } => Request::DHTFindKey {
                key_id: id_of_text(key@) as u64,
            },
            DHTInteractionRequest::InitialDelete { key } => Request::DHTDeleteKey {
                key_id: id_of_text(key@) as u64,
            },
        }
    }

    /// The request that starts the operation, or `None` where the key is
    /// too long to be hashed.
    pub fn to_request(self) -> (request: Option<Request>)
        ensures
            hashable(self.key()@) ==> request == Some(self.request()),
            !hashable(self.key()@) ==> request is None,
    {
        match self {
            DHTInteractionRequest::InitialStore { key, value } => {
                match create_id_checked(key.as_str()) {
                    Some(id) => Some(Request::DHTStoreKey { data: (id, DHTEntry::new(key, value)) }),
                    None => None,
                }
            },
            DHTInteractionRequest::InitialFind { key } => {
                match create_id_checked(key.as_str()) {
                    Some(key_id) => Some(Request::DHTFindKey { key_id }),
                    None => None,
                }
            },
            DHTInteractionRequest::InitialDelete { key } => {
                match create_id_checked(key.as_str()) {
                    Some(key_id) => Some(Request::DHTDeleteKey { key_id }),
                    None => None,
                }
            },
        }
    }
}

/// A message together with the address it is to be delivered to.
#[derive(Debug, PartialEq, Eq)]
pub struct Envelope {
    pub target: String,
    pub message: Message,
}

} // verus!
