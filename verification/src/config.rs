use vstd::prelude::*;

verus! {

/// The bot's configuration, as read from its TOML file.
pub struct Config {
    pub admins: Vec<u64>,
    pub admin_chat: i64,
    pub rate_limit_secs: u32,
    pub tokens: Token,
    pub dirs: Dirs,
    pub triggers: Triggers,
}

/// Trigger words of the `[triggers]` section.
pub struct Triggers {
    pub first_trigger: Vec<String>,
    pub second_trigger: Vec<String>,
    pub hiss: TriggersHiss,
    pub special: TriggersSpecial,
}

/// Words that call for a hiss.
pub struct TriggersHiss {
    pub first_trigger: Vec<String>,
}

/// Phrases that call for a special picture (admins only).
pub struct TriggersSpecial {
    pub first_trigger: Vec<String>,
}

/// The bot tokens: the production one and the one used while testing.
pub struct Token {
    pub token: String,
    pub test_token: String,
}

/// Directories that hold the pictures.
pub struct Dirs {
    pub opossum: String,
    pub hiss: String,
    pub special: String,
}

/// The token to log in with: the test token when `testing`, else the
/// production token.
pub fn get_token(cfg: Config, testing: bool) -> (token: String)
    ensures
        token@ == (if testing { cfg.tokens.test_token@ } else { cfg.tokens.token@ }),
{
    match testing {
        true => cfg.tokens.test_token,
        false => cfg.tokens.token,
    }
}

} // verus!
