use std::sync::Arc;
use vstd::prelude::*;

use crate::config::Config;
use crate::filters::{
    admin_sent, hiss_matches, opossum_matches, sent_by_admin, special_matches, text_calls_for_hiss,
    text_is_special, text_names_opossum, MessageInfo,
};

verus! {

/// A filter that lets every update through.
pub fn filter_true() -> (b: bool)
    ensures
        b,
{
    true
}

/// Where an ordinary (non-command) message goes.
#[derive(Clone, Copy, Debug, PartialEq, Eq)]
pub enum Route {
    /// Send a random special picture (an admin wrote a special phrase).
    Special,
    /// Send a random opossum.
    Opossum,
    /// Send a random hiss.
    Hiss,
    /// Tell the group to be quiet: a picture went out too recently.
    Shh,
    /// Leave the message alone.
    Ignore,
}

/// The branches of the bot's message handler, tried in order; the first
/// whose filters all pass handles the message. `delta_secs` is the time
/// since the last picture in the chat.
pub open spec fn route_spec(msg: MessageInfo, cfg: Config, delta_secs: u32) -> Route {
    let rested = delta_secs >= cfg.rate_limit_secs;
    let opossum = opossum_matches(msg.text, cfg);
    let hiss = hiss_matches(msg.text, cfg);
    if admin_sent(msg, cfg) && special_matches(msg.text, cfg) {
        Route::Special
    } else if rested && !msg.chat_private && opossum {
        Route::Opossum
    } else if rested && !msg.chat_private && hiss {
        Route::Hiss
    } else if msg.chat_private && opossum {
        Route::Opossum
    } else if msg.chat_private && hiss {
        Route::Hiss
    } else if !rested && hiss {
        Route::Shh
    } else if !rested && opossum {
        Route::Shh
    } else {
        Route::Ignore
    }
}

/// Decides where an ordinary message goes: an admin's special phrase first;
/// then, in a group chat that has rested for the rate limit, an opossum or a
/// hiss; in a private chat an opossum or a hiss at any time; and a "shh" for
/// a group that asks again too soon.
pub fn route_message(msg: MessageInfo, cfg: Arc<Config>, delta_secs: u32) -> (r: Route)
    ensures
        r == route_spec(msg, *cfg, delta_secs),
{
    let rested = delta_secs >= cfg.rate_limit_secs;
    if sent_by_admin(&msg, &cfg) && text_is_special(&msg.text, &cfg) {
        return Route::Special;
    }
    let opossum = text_names_opossum(&msg.text, &cfg);
    let hiss = text_calls_for_hiss(&msg.text, &cfg);
    if rested && !msg.chat_private && opossum {
        Route::Opossum
    } else if rested && !msg.chat_private && hiss {
        Route::Hiss
    } else if msg.chat_private && opossum {
        Route::Opossum
    } else if msg.chat_private && hiss {
        Route::Hiss
    } else if !rested && hiss {
        Route::Shh
    } else if !rested && opossum {
        Route::Shh
    } else {
        Route::Ignore
    }
}

/// A private chat is never told to be quiet, and a message there that names
/// an opossum or calls for a hiss always gets a picture.
pub proof fn lemma_private_chat_never_shushed(msg: MessageInfo, cfg: Config, delta_secs: u32)
    requires
        msg.chat_private,
    ensures
        route_spec(msg, cfg, delta_secs) != Route::Shh,
        opossum_matches(msg.text, cfg) || hiss_matches(msg.text, cfg) ==> route_spec(
            msg,
            cfg,
            delta_secs,
        ) != Route::Ignore,
{
}

/// A group chat that has not rested for the rate limit gets no opossum and no
/// hiss; only an admin's special picture, a "shh", or nothing.
pub proof fn lemma_rate_limit_holds(msg: MessageInfo, cfg: Config, delta_secs: u32)
    requires
        !msg.chat_private,
        delta_secs < cfg.rate_limit_secs,
    ensures
        route_spec(msg, cfg, delta_secs) != Route::Opossum,
        route_spec(msg, cfg, delta_secs) != Route::Hiss,
{
}

/// "Shh" only answers a message that asked for a picture too soon after the
/// last one.
pub proof fn lemma_shh_only_when_too_recent(msg: MessageInfo, cfg: Config, delta_secs: u32)
    requires
        route_spec(msg, cfg, delta_secs) == Route::Shh,
    ensures
        delta_secs < cfg.rate_limit_secs,
        !msg.chat_private,
        opossum_matches(msg.text, cfg) || hiss_matches(msg.text, cfg),
{
}

/// A message without text is left alone.
pub proof fn lemma_no_text_ignored(msg: MessageInfo, cfg: Config, delta_secs: u32)
    requires
        msg.text is None,
    ensures
        route_spec(msg, cfg, delta_secs) == Route::Ignore,
{
}

/// Only an admin's message can bring a special picture.
pub proof fn lemma_special_only_for_admins(msg: MessageInfo, cfg: Config, delta_secs: u32)
    requires
        route_spec(msg, cfg, delta_secs) == Route::Special,
    ensures
        admin_sent(msg, cfg),
        special_matches(msg.text, cfg),
{
}

/// An admin's message that holds a special phrase always brings a special
/// picture, in a private chat as in a group, whatever the time since the
/// last picture; and a special picture is sent for no other message.
pub proof fn lemma_admin_special_always_served(msg: MessageInfo, cfg: Config, delta_secs: u32)
    ensures
        (route_spec(msg, cfg, delta_secs) == Route::Special) <==> (admin_sent(msg, cfg)
            && special_matches(msg.text, cfg)),
{
}

} // verus!
