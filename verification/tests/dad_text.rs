use dad_bot::dad_text::{create_dadded_text, handle_dadded_text};
use dad_bot::rng_manager::RngManager;
use rand::SeedableRng;
use rand_chacha::ChaCha20Rng;

fn unnamed_pattern() -> &'static str {
    r"\b((?:i|l)(?:(?:'|`|‛|‘|’|′|‵)?m| am))(?:\s+)([^\.!?]+)"
}

fn named_pattern() -> &'static str {
    r"\b(?P<im>(?:i|l)(?:(?:'|`|‛|‘|’|′|‵)?m| am))(?:\s+)(?P<dad_text>[^\.!?]+)"
}

#[test]
fn test_generate_dad_regex() {
    let chat_msg = String::from("I'm hungry.");
    let resp = create_dadded_text(unnamed_pattern(), &chat_msg, false).unwrap();
    let named_resp = create_dadded_text(named_pattern(), &chat_msg, false).unwrap();
    let expected_resp = String::from("Hi hungry! I'm Dad!");
    assert_eq!(resp, expected_resp);
    assert_eq!(named_resp, expected_resp);
}

#[test]
fn test_generate_dad_with_love() {
    let chat_msg = String::from("I'm hungry.");
    let resp = create_dadded_text(unnamed_pattern(), &chat_msg, true).unwrap();
    let expected_resp = String::from("Hi hungry! I'm Dad and I love you!");
    assert_eq!(resp, expected_resp);
}

#[test]
fn test_regex_from_config() {
    let regex_str = String::from(
        r"\b(?P<im>(?:i|l)(?:(?:'|`|‛|‘|’|′|‵)?m| am))(?:\s+)(?P<dad_text>[^\.!?]+)",
    );
    let chat_msg = String::from("I'm hungry.");
    let expected_resp = String::from("Hi hungry! I'm Dad!");

    let resp = create_dadded_text(&regex_str, &chat_msg, false).unwrap();

    assert_eq!(resp, expected_resp);
}

#[test]
fn test_no_match_yields_no_reply() {
    let chat_msg = String::from("Good morning everyone.");
    assert_eq!(create_dadded_text(named_pattern(), &chat_msg, false), None);
}

#[test]
fn test_handle_dadded_text_always_reacts_without_love() {
    let mut rng = RngManager::new(None, None, ChaCha20Rng::seed_from_u64(3));
    let reply = handle_dadded_text(&mut rng, named_pattern(), "I'm hungry.");
    assert_eq!(reply, Some(String::from("Hi hungry! I'm Dad!")));
    let silent = handle_dadded_text(&mut rng, named_pattern(), "Nothing to see here.");
    assert_eq!(silent, None);
}

#[test]
fn test_handle_dadded_text_always_loves_when_certain() {
    let mut rng = RngManager::new(None, Some(1), ChaCha20Rng::seed_from_u64(3));
    let reply = handle_dadded_text(&mut rng, named_pattern(), "I'm hungry.");
    assert_eq!(reply, Some(String::from("Hi hungry! I'm Dad and I love you!")));
}
