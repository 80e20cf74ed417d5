use std::sync::Arc;
use vstd::prelude::*;

use crate::config::Config;
use crate::text::{
    ascii_lowercase, is_ascii_text, occurs_at,
    chars_of, contains_chars, contains_text, lowercase_of, same_chars, split_spaces, split_words,
    to_lowercase,
};

verus! {

/// What the filters read of an incoming chat message.
pub struct MessageInfo {
    /// The sender's user id, when the message has a sender.
    pub sender_id: Option<u64>,
    /// The chat the message was posted in.
    pub chat_id: i64,
    /// Whether that chat is a private (one-to-one) chat.
    pub chat_private: bool,
    /// The message's text, when it has one.
    pub text: Option<String>,
}

/// Some word of `words`, in lowercase, stands in `hay`.
pub open spec fn mentions_any(hay: Seq<char>, words: Seq<String>) -> bool {
    exists|i: int| 0 <= i < words.len() && contains_text(hay, lowercase_of(#[trigger] words[i]@))
}

/// Some word of `words`, in lowercase, is one of the space-separated pieces of `hay`.
pub open spec fn has_word(hay: Seq<char>, words: Seq<String>) -> bool {
    exists|i: int|
        0 <= i < words.len() && split_spaces(hay).contains(lowercase_of(#[trigger] words[i]@))
}

/// Some phrase of `phrases`, as written, stands in `hay`.
pub open spec fn mentions_any_as_written(hay: Seq<char>, phrases: Seq<String>) -> bool {
    exists|i: int| 0 <= i < phrases.len() && contains_text(hay, #[trigger] phrases[i]@)
}

/// The message's text holds a word of each of the two opossum trigger lists
/// (both compared in lowercase).
pub open spec fn opossum_matches(text: Option<String>, cfg: Config) -> bool {
    match text {
        Some(t) => mentions_any(lowercase_of(t@), cfg.triggers.first_trigger@) && mentions_any(
            lowercase_of(t@),
            cfg.triggers.second_trigger@,
        ),
        None => false,
    }
}

/// A hiss trigger word, in lowercase, is one of the words of the lowercased text.
pub open spec fn hiss_matches(text: Option<String>, cfg: Config) -> bool {
    match text {
        Some(t) => has_word(lowercase_of(t@), cfg.triggers.hiss.first_trigger@),
        None => false,
    }
}

/// A special phrase, as written, stands in the lowercased text.
pub open spec fn special_matches(text: Option<String>, cfg: Config) -> bool {
    match text {
        Some(t) => mentions_any_as_written(lowercase_of(t@), cfg.triggers.special.first_trigger@),
        None => false,
    }
}

/// The message was sent by one of the configured admins.
pub open spec fn admin_sent(msg: MessageInfo, cfg: Config) -> bool {
    match msg.sender_id {
        Some(id) => cfg.admins@.contains(id),
        None => false,
    }
}

/// Whether the message comes from one of the configured admins.
pub fn is_admin(msg: MessageInfo, cfg: Arc<Config>) -> (r: bool)
    ensures
        r == admin_sent(msg, *cfg),
{
    sent_by_admin(&msg, &cfg)
}

#[verifier::loop_isolation(false)]
pub(crate) fn sent_by_admin(msg: &MessageInfo, cfg: &Config) -> (r: bool)
    ensures
        r == admin_sent(*msg, *cfg),
{
    match msg.sender_id {
        None => false,
        Some(id) => {
            let admins = &cfg.admins;
            let mut i: usize = 0;
            while i < admins.len()
                invariant
                    i <= admins.len(),
                    forall|k: int| 0 <= k < i ==> admins@[k] != id,
                decreases admins.len() - i,
            {
                if admins[i] == id {
                    assert(cfg.admins@[i as int] == id);
                    assert(cfg.admins@.contains(id));
                    return true;
                }
                i = i + 1;
            }
            false
        },
    }
}

/// Whether the message was posted in a private chat.
pub fn is_private(msg: MessageInfo) -> (r: bool)
    ensures
        r == msg.chat_private,
{
    msg.chat_private
}

/// Whether the message was posted in a group chat (not a private one).
pub fn is_public(msg: MessageInfo) -> (r: bool)
    ensures
        r == !msg.chat_private,
{
    !is_private(msg)
}

/// Whether the last picture in the chat was sent at least the configured
/// rate limit ago; `delta_secs` is the time since then, in seconds.
pub fn not_too_recent(delta_secs: u32, cfg: Arc<Config>) -> (r: bool)
    ensures
        r == (delta_secs >= cfg.rate_limit_secs),
{
    delta_secs >= cfg.rate_limit_secs
}

/// Whether the last picture in the chat was sent less than the configured
/// rate limit ago.
pub fn too_recent(delta_secs: u32, cfg: Arc<Config>) -> (r: bool)
    ensures
        r == (delta_secs < cfg.rate_limit_secs),
{
    !not_too_recent(delta_secs, cfg)
}

/// Whether some word of `words`, in lowercase, stands in `hay`.
fn any_word_in(hay: &Vec<char>, words: &Vec<String>) -> (r: bool)
    ensures
        r == mentions_any(hay@, words@),
{
    let mut i: usize = 0;
    while i < words.len()
        invariant
            i <= words.len(),
            forall|k: int| 0 <= k < i ==> !contains_text(hay@, lowercase_of(#[trigger] words@[k]@)),
        decreases words.len() - i,
    {
        let word = to_lowercase(words[i].as_str());
        let needle = chars_of(word.as_str());
        if contains_chars(hay, &needle) {
            return true;
        }
        i = i + 1;
    }
    false
}

/// Whether the message's text names an opossum: it holds a word of the first
/// trigger list and a word of the second one, all compared in lowercase.
pub fn match_opossum(msg: MessageInfo, cfg: Arc<Config>) -> (r: bool)
    ensures
        r == opossum_matches(msg.text, *cfg),
{
    text_names_opossum(&msg.text, &cfg)
}

pub(crate) fn text_names_opossum(text: &Option<String>, cfg: &Config) -> (r: bool)
    ensures
        r == opossum_matches(*text, *cfg),
{
    match text {
        Some(content) => {
            let ct = to_lowercase(content.as_str());
            let hay = chars_of(ct.as_str());
            let match_1 = any_word_in(&hay, &cfg.triggers.first_trigger);
            let match_2 = any_word_in(&hay, &cfg.triggers.second_trigger);
            match_1 && match_2
        },
        None => false,
    }
}

/// Whether `piece` is one of `pieces`.
fn has_piece(pieces: &Vec<Vec<char>>, piece: &Vec<char>) -> (r: bool)
    ensures
        r == pieces.deep_view().contains(piece@),
{
    let mut k: usize = 0;
    while k < pieces.len()
        invariant
            k <= pieces.len(),
            forall|j: int| 0 <= j < k ==> pieces.deep_view()[j] != piece@,
        decreases pieces.len() - k,
    {
        assert(pieces.deep_view()[k as int] =~= pieces[k as int]@);
        if same_chars(&pieces[k], piece) {
            assert(pieces.deep_view()[k as int] == piece@);
            return true;
        }
        k = k + 1;
    }
    false
}

/// Whether the message's text calls for a hiss: one of its space-separated
/// words, in lowercase, is a hiss trigger word in lowercase.
pub fn match_hiss(msg: MessageInfo, cfg: Arc<Config>) -> (r: bool)
    ensures
        r == hiss_matches(msg.text, *cfg),
{
    text_calls_for_hiss(&msg.text, &cfg)
}

#[verifier::loop_isolation(false)]
pub(crate) fn text_calls_for_hiss(text: &Option<String>, cfg: &Config) -> (r: bool)
    ensures
        r == hiss_matches(*text, *cfg),
{
    match text {
        Some(content) => {
            let ct = to_lowercase(content.as_str());
            let words_vec = split_words(&chars_of(ct.as_str()));
            let triggers = &cfg.triggers.hiss.first_trigger;
            let mut i: usize = 0;
            while i < triggers.len()
                invariant
                    i <= triggers.len(),
                    words_vec.deep_view() == split_spaces(ct@),
                    forall|k: int|
                        0 <= k < i ==> !split_spaces(ct@).contains(
                            lowercase_of(#[trigger] triggers@[k]@),
                        ),
                decreases triggers.len() - i,
            {
                let word = to_lowercase(triggers[i].as_str());
                if has_piece(&words_vec, &chars_of(word.as_str())) {
                    assert(split_spaces(lowercase_of(content@)).contains(
                        lowercase_of(triggers@[i as int]@),
                    ));
                    assert(has_word(lowercase_of(content@), triggers@));
                    return true;
                }
                i = i + 1;
            }
            false
        },
        None => false,
    }
}

/// Whether the message's text, in lowercase, holds one of the special phrases
/// as they are written in the configuration.
pub fn match_special(msg: MessageInfo, cfg: Arc<Config>) -> (r: bool)
    ensures
        r == special_matches(msg.text, *cfg),
{
    text_is_special(&msg.text, &cfg)
}

#[verifier::loop_isolation(false)]
pub(crate) fn text_is_special(text: &Option<String>, cfg: &Config) -> (r: bool)
    ensures
        r == special_matches(*text, *cfg),
{
    match text {
        Some(content) => {
            let phrases = &cfg.triggers.special.first_trigger;
            let mut i: usize = 0;
            while i < phrases.len()
                invariant
                    i <= phrases.len(),
                    forall|k: int|
                        0 <= k < i ==> !contains_text(
                            lowercase_of(content@),
                            #[trigger] phrases@[k]@,
                        ),
                decreases phrases.len() - i,
            {
                let ct = to_lowercase(content.as_str());
                if contains_chars(&chars_of(ct.as_str()), &chars_of(phrases[i].as_str())) {
                    assert(contains_text(lowercase_of(content@), phrases@[i as int]@));
                    assert(mentions_any_as_written(lowercase_of(content@), phrases@));
                    return true;
                }
                i = i + 1;
            }
            false
        },
        None => false,
    }
}

/// Every word of `a` is also, as text, a word of `b`.
pub open spec fn words_within(a: Seq<String>, b: Seq<String>) -> bool {
    forall|i: int|
        0 <= i < a.len() ==> exists|j: int| 0 <= j < b.len() && #[trigger] b[j]@ == #[trigger] a[i]@
}

/// Finding a word in a text survives adding words to the list.
proof fn lemma_mentions_more(hay: Seq<char>, a: Seq<String>, b: Seq<String>)
    requires
        words_within(a, b),
    ensures
        mentions_any(hay, a) ==> mentions_any(hay, b),
        has_word(hay, a) ==> has_word(hay, b),
        mentions_any_as_written(hay, a) ==> mentions_any_as_written(hay, b),
{
    if mentions_any(hay, a) {
        let i = choose|i: int| 0 <= i < a.len() && contains_text(hay, lowercase_of(#[trigger] a[i]@));
        let j = choose|j: int| 0 <= j < b.len() && #[trigger] b[j]@ == #[trigger] a[i]@;
        assert(contains_text(hay, lowercase_of(b[j]@)));
    }
    if has_word(hay, a) {
        let i = choose|i: int|
            0 <= i < a.len() && split_spaces(hay).contains(lowercase_of(#[trigger] a[i]@));
        let j = choose|j: int| 0 <= j < b.len() && #[trigger] b[j]@ == #[trigger] a[i]@;
        assert(split_spaces(hay).contains(lowercase_of(b[j]@)));
    }
    if mentions_any_as_written(hay, a) {
        let i = choose|i: int| 0 <= i < a.len() && contains_text(hay, #[trigger] a[i]@);
        let j = choose|j: int| 0 <= j < b.len() && #[trigger] b[j]@ == #[trigger] a[i]@;
        assert(contains_text(hay, b[j]@));
    }
}

/// Adding words to any trigger list never turns a match into a non-match:
/// a message that names an opossum, calls for a hiss or holds a special
/// phrase under `cfg` still does under `more`, whose lists hold at least the
/// words of `cfg`'s.
pub proof fn lemma_more_triggers_still_match(text: Option<String>, cfg: Config, more: Config)
    requires
        words_within(cfg.triggers.first_trigger@, more.triggers.first_trigger@),
        words_within(cfg.triggers.second_trigger@, more.triggers.second_trigger@),
        words_within(cfg.triggers.hiss.first_trigger@, more.triggers.hiss.first_trigger@),
        words_within(cfg.triggers.special.first_trigger@, more.triggers.special.first_trigger@),
    ensures
        opossum_matches(text, cfg) ==> opossum_matches(text, more),
        hiss_matches(text, cfg) ==> hiss_matches(text, more),
        special_matches(text, cfg) ==> special_matches(text, more),
{
    if let Some(t) = text {
        let hay = lowercase_of(t@);
        lemma_mentions_more(hay, cfg.triggers.first_trigger@, more.triggers.first_trigger@);
        lemma_mentions_more(hay, cfg.triggers.second_trigger@, more.triggers.second_trigger@);
        lemma_mentions_more(
            hay,
            cfg.triggers.hiss.first_trigger@,
            more.triggers.hiss.first_trigger@,
        );
        lemma_mentions_more(
            hay,
            cfg.triggers.special.first_trigger@,
            more.triggers.special.first_trigger@,
        );
    }
}

/// A text found in `hay` is still found once more text follows `hay`.
proof fn lemma_contains_extended(hay: Seq<char>, more: Seq<char>, needle: Seq<char>)
    requires
        contains_text(hay, needle),
    ensures
        contains_text(hay + more, needle),
{
    let i = choose|i: int| occurs_at(hay, needle, i);
    assert((hay + more).subrange(i, i + needle.len()) =~= hay.subrange(i, i + needle.len()));
    assert(occurs_at(hay + more, needle, i));
}

/// Each of `words` found in `hay` is still found once more text follows.
proof fn lemma_mentions_extended(hay: Seq<char>, more: Seq<char>, words: Seq<String>)
    ensures
        mentions_any(hay, words) ==> mentions_any(hay + more, words),
        mentions_any_as_written(hay, words) ==> mentions_any_as_written(hay + more, words),
{
    if mentions_any(hay, words) {
        let i = choose|i: int|
            0 <= i < words.len() && contains_text(hay, lowercase_of(#[trigger] words[i]@));
        lemma_contains_extended(hay, more, lowercase_of(words[i]@));
    }
    if mentions_any_as_written(hay, words) {
        let i = choose|i: int| 0 <= i < words.len() && contains_text(hay, #[trigger] words[i]@);
        lemma_contains_extended(hay, more, words[i]@);
    }
}

/// Adding ASCII text to the end of an ASCII message keeps it naming an
/// opossum, and keeps it holding a special phrase. The lowercase forms are
/// those the library's lowercasing gives back, which for ASCII text are the
/// ASCII lowercase (the contract of `to_lowercase`); the last two
/// `requires` record that for the two texts.
pub proof fn lemma_appended_text_keeps_match(t: String, longer: String, u: Seq<char>, cfg: Config)
    requires
        longer@ == t@ + u,
        is_ascii_text(t@),
        is_ascii_text(u),
        lowercase_of(t@) == ascii_lowercase(t@),
        lowercase_of(longer@) == ascii_lowercase(longer@),
    ensures
        opossum_matches(Some(t), cfg) ==> opossum_matches(Some(longer), cfg),
        special_matches(Some(t), cfg) ==> special_matches(Some(longer), cfg),
{
    let more = ascii_lowercase(u);
    assert(lowercase_of(longer@) =~= lowercase_of(t@) + more);
    lemma_mentions_extended(lowercase_of(t@), more, cfg.triggers.first_trigger@);
    lemma_mentions_extended(lowercase_of(t@), more, cfg.triggers.second_trigger@);
    lemma_mentions_extended(lowercase_of(t@), more, cfg.triggers.special.first_trigger@);
}

/// What matching a text against the trigger lists means, in terms of the
/// text alone: an opossum is named when the lowercased text contains a
/// lowercased word of the first list and a lowercased word of the second; a
/// hiss is called for when a lowercased hiss word is one of the lowercased
/// text's space-separated pieces; a special phrase is one that the
/// lowercased text contains as it is written.
pub proof fn lemma_trigger_matching_meaning(t: String, cfg: Config)
    ensures
        opossum_matches(Some(t), cfg) <==> ((exists|i: int|
            0 <= i < cfg.triggers.first_trigger@.len() && contains_text(
                lowercase_of(t@),
                lowercase_of(#[trigger] cfg.triggers.first_trigger@[i]@),
            )) && (exists|j: int|
            0 <= j < cfg.triggers.second_trigger@.len() && contains_text(
                lowercase_of(t@),
                lowercase_of(#[trigger] cfg.triggers.second_trigger@[j]@),
            ))),
        hiss_matches(Some(t), cfg) <==> (exists|i: int|
            0 <= i < cfg.triggers.hiss.first_trigger@.len() && split_spaces(
                lowercase_of(t@),
            ).contains(lowercase_of(#[trigger] cfg.triggers.hiss.first_trigger@[i]@))),
        special_matches(Some(t), cfg) <==> (exists|i: int|
            0 <= i < cfg.triggers.special.first_trigger@.len() && contains_text(
                lowercase_of(t@),
                #[trigger] cfg.triggers.special.first_trigger@[i]@,
            )),
{
}

/// The two word lists hold, place by place, words with the same lowercase form.
pub open spec fn same_lowercase_words(a: Seq<String>, b: Seq<String>) -> bool {
    &&& a.len() == b.len()
    &&& forall|i: int| 0 <= i < a.len() ==> lowercase_of(#[trigger] a[i]@) == lowercase_of(b[i]@)
}

/// The case in which the opossum and hiss trigger words are written does not
/// matter: replacing them by words with the same lowercase form (such as
/// "Opossum" by "opossum") changes no match.
pub proof fn lemma_trigger_case_irrelevant(text: Option<String>, cfg: Config, other: Config)
    requires
        same_lowercase_words(cfg.triggers.first_trigger@, other.triggers.first_trigger@),
        same_lowercase_words(cfg.triggers.second_trigger@, other.triggers.second_trigger@),
        same_lowercase_words(cfg.triggers.hiss.first_trigger@, other.triggers.hiss.first_trigger@),
    ensures
        opossum_matches(text, cfg) == opossum_matches(text, other),
        hiss_matches(text, cfg) == hiss_matches(text, other),
{
    if let Some(t) = text {
        let hay = lowercase_of(t@);
        let a1 = cfg.triggers.first_trigger@;
        let b1 = other.triggers.first_trigger@;
        let a2 = cfg.triggers.second_trigger@;
        let b2 = other.triggers.second_trigger@;
        let a3 = cfg.triggers.hiss.first_trigger@;
        let b3 = other.triggers.hiss.first_trigger@;
        if mentions_any(hay, a1) {
            let i = choose|i: int| 0 <= i < a1.len() && contains_text(hay, lowercase_of(#[trigger] a1[i]@));
            assert(contains_text(hay, lowercase_of(b1[i]@)));
        }
        if mentions_any(hay, b1) {
            let i = choose|i: int| 0 <= i < b1.len() && contains_text(hay, lowercase_of(#[trigger] b1[i]@));
            assert(lowercase_of(a1[i]@) == lowercase_of(b1[i]@));
            assert(contains_text(hay, lowercase_of(a1[i]@)));
        }
        if mentions_any(hay, a2) {
            let i = choose|i: int| 0 <= i < a2.len() && contains_text(hay, lowercase_of(#[trigger] a2[i]@));
            assert(contains_text(hay, lowercase_of(b2[i]@)));
        }
        if mentions_any(hay, b2) {
            let i = choose|i: int| 0 <= i < b2.len() && contains_text(hay, lowercase_of(#[trigger] b2[i]@));
            assert(lowercase_of(a2[i]@) == lowercase_of(b2[i]@));
            assert(contains_text(hay, lowercase_of(a2[i]@)));
        }
        if has_word(hay, a3) {
            let i = choose|i: int|
                0 <= i < a3.len() && split_spaces(hay).contains(lowercase_of(#[trigger] a3[i]@));
            assert(split_spaces(hay).contains(lowercase_of(b3[i]@)));
        }
        if has_word(hay, b3) {
            let i = choose|i: int|
                0 <= i < b3.len() && split_spaces(hay).contains(lowercase_of(#[trigger] b3[i]@));
            assert(lowercase_of(a3[i]@) == lowercase_of(b3[i]@));
            assert(split_spaces(hay).contains(lowercase_of(a3[i]@)));
        }
    }
}

} // verus!
