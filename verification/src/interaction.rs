//! The dialogue on the terminal, as a state machine: what the dialogue waits
//! for, and what a line of input leads to. Reading and printing are the
//! caller's.

use vstd::prelude::*;
use vstd::string::*;
use crate::protocols::DHTInteractionRequest;

verus! {

/// What the dialogue is waiting for.
#[derive(Debug, PartialEq, Eq)]
pub enum Prompt {
    /// The choice of an operation.
    Menu,
    /// The key of an entry to store.
    StoreKey,
    /// The value to store under `key`.
    StoreValue { key: String },
    /// The key to search for.
    FindKey,
    /// The key to delete.
    DeleteKey,
    /// The address of a peer to stop.
    KillPeer,
}

/// What a line of input leads to.
#[derive(Debug, PartialEq, Eq)]
pub enum Outcome {
    /// The dialogue goes on with `prompt`. Where `refused` holds the line was
    /// no answer to the question, and the question is put again.
    Ask { prompt: Prompt, refused: bool },
    /// The node is to start the operation.
    Start { request: DHTInteractionRequest },
    /// The peer at `target` is to be stopped.
    Kill { target: String },
    /// This node is to be stopped.
    Terminate,
    /// The dialogue ends with nothing done.
    Cancel,
}

/// What the choice `line` of the menu leads to: `1` to storing, `2` to a
/// search, `3` to a deletion, `4` to stopping a peer, `5` to nothing, `6` to
/// stopping this node; anything else is refused.
pub open spec fn menu_choice(line: Seq<char>) -> Outcome {
    if line == "1"@ {
        Outcome::Ask { prompt: Prompt::StoreKey, refused: false }
    } else if line == "2"@ {
        Outcome::Ask { prompt: Prompt::FindKey, refused: false }
    } else if line == "3"@ {
        Outcome::Ask { prompt: Prompt::DeleteKey, refused: false }
    } else if line == "4"@ {
        Outcome::Ask { prompt: Prompt::KillPeer, refused: false }
    } else if line == "5"@ {
        Outcome::Cancel
    } else if line == "6"@ {
        Outcome::Terminate
    } else {
        Outcome::Ask { prompt: Prompt::Menu, refused: true }
    }
}

/// What the answer `line` to the question `prompt` leads to.
pub open spec fn answer(prompt: Prompt, line: String) -> Outcome {
    match prompt {
        Prompt::Menu => menu_choice(line@),
        Prompt::StoreKey => Outcome::Ask { prompt: Prompt::StoreValue { key: line }, refused: false },
        Prompt::StoreValue { key } => Outcome::Start {
            request: DHTInteractionRequest::InitialStore { key, value: line },
        },
        Prompt::FindKey => Outcome::Start {
            request: DHTInteractionRequest::InitialFind { key: line },
        },
        Prompt::DeleteKey => Outcome::Start {
            request: DHTInteractionRequest::InitialDelete { key: line },
        },
        Prompt::KillPeer => Outcome::Kill { target: line },
    }
}

/// What the line `line`, read while the dialogue waited for `prompt`, leads
/// to. An empty line answers no question: the menu refuses it as it does
/// every wrong choice, and every other question is put again.
pub open spec fn outcome(prompt: Prompt, line: String) -> Outcome {
    if line@.len() == 0 && !(prompt is Menu) {
        Outcome::Ask { prompt, refused: true }
    } else {
        answer(prompt, line)
    }
}

/// Whether `line` is the text `choice`.
fn is_choice(line: &String, choice: &str) -> (same: bool)
    ensures
        same == (line@ == choice@),
{
    let wanted = String::from_str(choice);
    *line == wanted
}

/// One step of the dialogue: the line `line`, without the end of line, was
/// read while the dialogue waited for `prompt`.
pub fn interact(prompt: Prompt, line: String) -> (next: Outcome)
    ensures
        next == outcome(prompt, line),
{
    match prompt {
        Prompt::Menu => {
            if is_choice(&line, "1") {
                Outcome::Ask { prompt: Prompt::StoreKey, refused: false }
            } else if is_choice(&line, "2") {
                Outcome::Ask { prompt: Prompt::FindKey, refused: false }
            } else if is_choice(&line, "3") {
                Outcome::Ask { prompt: Prompt::DeleteKey, refused: false }
            } else if is_choice(&line, "4") {
                Outcome::Ask { prompt: Prompt::KillPeer, refused: false }
            } else if is_choice(&line, "5") {
                Outcome::Cancel
            } else if is_choice(&line, "6") {
                Outcome::Terminate
            } else {
                Outcome::Ask { prompt: Prompt::Menu, refused: true }
            }
        },
        Prompt::StoreKey => {
            if line.as_str().is_empty() {
                Outcome::Ask { prompt: Prompt::StoreKey, refused: true }
            } else {
                Outcome::Ask { prompt: Prompt::StoreValue { key: line }, refused: false }
            }
        },
        Prompt::StoreValue { key } => {
            if line.as_str().is_empty() {
                Outcome::Ask { prompt: Prompt::StoreValue { key }, refused: true }
            } else {
                Outcome::Start { request: DHTInteractionRequest::InitialStore { key, value: line } }
            }
        },
        Prompt::FindKey => {
            if line.as_str().is_empty() {
                Outcome::Ask { prompt: Prompt::FindKey, refused: true }
            } else {
                Outcome::Start { request: DHTInteractionRequest::InitialFind { key: line } }
            }
        },
        Prompt::DeleteKey => {
            if line.as_str().is_empty() {
                Outcome::Ask { prompt: Prompt::DeleteKey, refused: true }
            } else {
                Outcome::Start { request: DHTInteractionRequest::InitialDelete { key: line } }
            }
        },
        Prompt::KillPeer => {
            if line.as_str().is_empty() {
                Outcome::Ask { prompt: Prompt::KillPeer, refused: true }
            } else {
                Outcome::Kill { target: line }
            }
        },
    }
}

} // verus!
