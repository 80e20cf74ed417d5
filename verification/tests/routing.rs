use std::sync::Arc;

use tg_opossum::config::{Config, Dirs, Token, Triggers, TriggersHiss, TriggersSpecial};
use tg_opossum::filters::MessageInfo;
use tg_opossum::routing::{filter_true, route_message, Route};

fn strings(words: &[&str]) -> Vec<String> {
    words.iter().map(|w| w.to_string()).collect()
}

fn cfg() -> Arc<Config> {
    Arc::new(Config {
        admins: vec![1],
        admin_chat: 0,
        rate_limit_secs: 30,
        tokens: Token { token: String::new(), test_token: String::new() },
        dirs: Dirs { opossum: String::new(), hiss: String::new(), special: String::new() },
        triggers: Triggers {
            first_trigger: strings(&["send"]),
            second_trigger: strings(&["opossum"]),
            hiss: TriggersHiss { first_trigger: strings(&["hiss"]) },
            special: TriggersSpecial { first_trigger: strings(&["magic"]) },
        },
    })
}

fn msg(sender: u64, private: bool, text: Option<&str>) -> MessageInfo {
    MessageInfo {
        sender_id: Some(sender),
        chat_id: 9,
        chat_private: private,
        text: text.map(|t| t.to_string()),
    }
}

#[test]
fn filter_true_is_true() {
    assert!(filter_true());
}

#[test]
fn group_routes_when_rested() {
    assert_eq!(route_message(msg(2, false, Some("send opossum")), cfg(), 30), Route::Opossum);
    assert_eq!(route_message(msg(2, false, Some("hiss")), cfg(), 31), Route::Hiss);
    assert_eq!(route_message(msg(2, false, Some("hello")), cfg(), 31), Route::Ignore);
}

#[test]
fn group_is_shushed_when_too_recent() {
    assert_eq!(route_message(msg(2, false, Some("send opossum")), cfg(), 29), Route::Shh);
    assert_eq!(route_message(msg(2, false, Some("hiss")), cfg(), 0), Route::Shh);
    assert_eq!(route_message(msg(2, false, Some("hello")), cfg(), 0), Route::Ignore);
}

#[test]
fn private_chat_ignores_rate_limit() {
    assert_eq!(route_message(msg(2, true, Some("send opossum")), cfg(), 0), Route::Opossum);
    assert_eq!(route_message(msg(2, true, Some("hiss")), cfg(), 0), Route::Hiss);
}

#[test]
fn opossum_wins_over_hiss() {
    assert_eq!(route_message(msg(2, false, Some("send opossum hiss")), cfg(), 40), Route::Opossum);
    assert_eq!(route_message(msg(2, true, Some("send opossum hiss")), cfg(), 0), Route::Opossum);
}

#[test]
fn admin_special_comes_first() {
    assert_eq!(route_message(msg(1, false, Some("magic opossum send")), cfg(), 0), Route::Special);
    // A non-admin's special phrase is no special request.
    assert_eq!(route_message(msg(2, false, Some("magic")), cfg(), 0), Route::Ignore);
}

#[test]
fn no_text_is_ignored() {
    assert_eq!(route_message(msg(1, true, None), cfg(), 100), Route::Ignore);
}
