use chord_dht::interaction::{interact, Outcome, Prompt};
use chord_dht::protocols::DHTInteractionRequest;

fn ask(prompt: Prompt) -> Outcome {
    Outcome::Ask { prompt, refused: false }
}

fn again(prompt: Prompt) -> Outcome {
    Outcome::Ask { prompt, refused: true }
}

#[test]
fn menu_choices() {
    assert_eq!(interact(Prompt::Menu, "1".to_string()), ask(Prompt::StoreKey));
    assert_eq!(interact(Prompt::Menu, "2".to_string()), ask(Prompt::FindKey));
    assert_eq!(interact(Prompt::Menu, "3".to_string()), ask(Prompt::DeleteKey));
    assert_eq!(interact(Prompt::Menu, "4".to_string()), ask(Prompt::KillPeer));
    assert_eq!(interact(Prompt::Menu, "5".to_string()), Outcome::Cancel);
    assert_eq!(interact(Prompt::Menu, "6".to_string()), Outcome::Terminate);
}

#[test]
fn menu_refuses_everything_else() {
    for line in ["", "0", "7", "11", " 1", "one", "m"] {
        assert_eq!(interact(Prompt::Menu, line.to_string()), again(Prompt::Menu));
    }
}

#[test]
fn store_asks_for_key_and_then_value() {
    assert_eq!(
        interact(Prompt::StoreKey, "alice".to_string()),
        ask(Prompt::StoreValue { key: "alice".to_string() })
    );
    assert_eq!(
        interact(Prompt::StoreValue { key: "alice".to_string() }, "555".to_string()),
        Outcome::Start {
            request: DHTInteractionRequest::InitialStore {
                key: "alice".to_string(),
                value: "555".to_string()
            }
        }
    );
}

#[test]
fn find_and_delete_take_a_key() {
    assert_eq!(
        interact(Prompt::FindKey, "alice".to_string()),
        Outcome::Start { request: DHTInteractionRequest::InitialFind { key: "alice".to_string() } }
    );
    assert_eq!(
        interact(Prompt::DeleteKey, "1".to_string()),
        Outcome::Start { request: DHTInteractionRequest::InitialDelete { key: "1".to_string() } }
    );
}

#[test]
fn kill_takes_an_address() {
    assert_eq!(
        interact(Prompt::KillPeer, "127.0.0.1:10000".to_string()),
        Outcome::Kill { target: "127.0.0.1:10000".to_string() }
    );
}

#[test]
fn empty_line_puts_the_question_again() {
    for prompt in [Prompt::StoreKey, Prompt::FindKey, Prompt::DeleteKey, Prompt::KillPeer] {
        let same = match &prompt {
            Prompt::StoreKey => Prompt::StoreKey,
            Prompt::FindKey => Prompt::FindKey,
            Prompt::DeleteKey => Prompt::DeleteKey,
            _ => Prompt::KillPeer,
        };
        assert_eq!(interact(prompt, String::new()), again(same));
    }
    assert_eq!(
        interact(Prompt::StoreValue { key: "k".to_string() }, String::new()),
        again(Prompt::StoreValue { key: "k".to_string() })
    );
}
