//! User-Agent data, and the bot heuristic on raw User-Agent strings.

use vstd::prelude::*;

use crate::text::{chars_of, contains_chars, contains_spec, lower_chars, lower_spec, occurs_at};

verus! {

/// Structured data parsed from a raw User-Agent string.
#[derive(Debug, Clone, PartialEq, Eq, Default)]
pub struct UserAgent {
    /// The raw User-Agent string that was parsed.
    pub header: String,
    /// The agent name (for example `Chrome`).
    pub name: String,
    /// The agent type (for example `browser`).
    pub agent_type: String,
    /// The agent version.
    pub version: String,
    /// The agent major version.
    pub version_major: String,
    /// The device data parsed from the User-Agent string.
    pub device: UserAgentDevice,
    /// The layout-engine data parsed from the User-Agent string.
    pub engine: UserAgentEngine,
    /// The operating-system data parsed from the User-Agent string.
    pub os: UserAgentOs,
}

/// Device data parsed from a User-Agent string.
#[derive(Debug, Clone, PartialEq, Eq, Default)]
pub struct UserAgentDevice {
    /// The device brand (for example `Apple`).
    pub brand: String,
    /// The device name.
    pub name: String,
    /// The device type (for example `desktop`).
    pub device_type: String,
}

/// Layout-engine data parsed from a User-Agent string.
#[derive(Debug, Clone, PartialEq, Eq, Default)]
pub struct UserAgentEngine {
    /// The engine name (for example `Blink`).
    pub name: String,
    /// The engine type.
    pub engine_type: String,
    /// The engine version.
    pub version: String,
    /// The engine major version.
    pub version_major: String,
}

/// Operating-system data parsed from a User-Agent string.
#[derive(Debug, Clone, PartialEq, Eq, Default)]
pub struct UserAgentOs {
    /// The operating-system name (for example `macOS`).
    pub name: String,
    /// The operating-system type (for example `desktop`).
    pub os_type: String,
    /// The operating-system version.
    pub version: String,
}

/// A raw User-Agent string looks like a crawler or bot: its ASCII
/// lower-case form contains `bot`, `spider` or `slurp`.
pub open spec fn looks_like_bot(user_agent: Seq<char>) -> bool {
    let ua = lower_spec(user_agent);
    ||| contains_spec(ua, seq!['b', 'o', 't'])
    ||| contains_spec(ua, seq!['s', 'p', 'i', 'd', 'e', 'r'])
    ||| contains_spec(ua, seq!['s', 'l', 'u', 'r', 'p'])
}

/// The bot heuristic looks for exactly three words: a User-Agent looks like
/// a bot exactly when, read in ASCII lower case, it holds `b`,`o`,`t` or
/// `s`,`p`,`i`,`d`,`e`,`r` or `s`,`l`,`u`,`r`,`p` at consecutive positions.
/// Any other User-Agent, such as that of a regular browser, is not a bot.
pub proof fn lemma_bot_words(user_agent: Seq<char>)
    ensures
        looks_like_bot(user_agent) <==> ({
            let l = lower_spec(user_agent);
            ||| exists|i: int|
                0 <= i && i + 3 <= l.len() && #[trigger] l[i] == 'b' && l[i + 1] == 'o' && l[i
                    + 2] == 't'
            ||| exists|i: int|
                0 <= i && i + 6 <= l.len() && #[trigger] l[i] == 's' && l[i + 1] == 'p' && l[i
                    + 2] == 'i' && l[i + 3] == 'd' && l[i + 4] == 'e' && l[i + 5] == 'r'
            ||| exists|i: int|
                0 <= i && i + 5 <= l.len() && #[trigger] l[i] == 's' && l[i + 1] == 'l' && l[i
                    + 2] == 'u' && l[i + 3] == 'r' && l[i + 4] == 'p'
        }),
{
    let l = lower_spec(user_agent);
    let bot = seq!['b', 'o', 't'];
    let spider = seq!['s', 'p', 'i', 'd', 'e', 'r'];
    let slurp = seq!['s', 'l', 'u', 'r', 'p'];
    if contains_spec(l, bot) {
        let i = choose|i: int| occurs_at(l, bot, i);
        assert(l.subrange(i, i + 3)[0] == l[i]);
        assert(l.subrange(i, i + 3)[1] == l[i + 1]);
        assert(l.subrange(i, i + 3)[2] == l[i + 2]);
    }
    if contains_spec(l, spider) {
        let i = choose|i: int| occurs_at(l, spider, i);
        let w = l.subrange(i, i + 6);
        assert(w[0] == l[i] && w[1] == l[i + 1] && w[2] == l[i + 2]);
        assert(w[3] == l[i + 3] && w[4] == l[i + 4] && w[5] == l[i + 5]);
    }
    if contains_spec(l, slurp) {
        let i = choose|i: int| occurs_at(l, slurp, i);
        let w = l.subrange(i, i + 5);
        assert(w[0] == l[i] && w[1] == l[i + 1] && w[2] == l[i + 2]);
        assert(w[3] == l[i + 3] && w[4] == l[i + 4]);
    }
    if exists|i: int|
        0 <= i && i + 3 <= l.len() && #[trigger] l[i] == 'b' && l[i + 1] == 'o' && l[i + 2] == 't' {
        let i = choose|i: int|
            0 <= i && i + 3 <= l.len() && #[trigger] l[i] == 'b' && l[i + 1] == 'o' && l[i + 2]
                == 't';
        assert(l.subrange(i, i + 3) =~= bot);
        assert(occurs_at(l, bot, i));
    }
    if exists|i: int|
        0 <= i && i + 6 <= l.len() && #[trigger] l[i] == 's' && l[i + 1] == 'p' && l[i + 2] == 'i'
            && l[i + 3] == 'd' && l[i + 4] == 'e' && l[i + 5] == 'r' {
        let i = choose|i: int|
            0 <= i && i + 6 <= l.len() && #[trigger] l[i] == 's' && l[i + 1] == 'p' && l[i + 2]
                == 'i' && l[i + 3] == 'd' && l[i + 4] == 'e' && l[i + 5] == 'r';
        assert(l.subrange(i, i + 6) =~= spider);
        assert(occurs_at(l, spider, i));
    }
    if exists|i: int|
        0 <= i && i + 5 <= l.len() && #[trigger] l[i] == 's' && l[i + 1] == 'l' && l[i + 2] == 'u'
            && l[i + 3] == 'r' && l[i + 4] == 'p' {
        let i = choose|i: int|
            0 <= i && i + 5 <= l.len() && #[trigger] l[i] == 's' && l[i + 1] == 'l' && l[i + 2]
                == 'u' && l[i + 3] == 'r' && l[i + 4] == 'p';
        assert(l.subrange(i, i + 5) =~= slurp);
        assert(occurs_at(l, slurp, i));
    }
}

/// Reports whether the given raw User-Agent string looks like a crawler or
/// bot. It is a lightweight heuristic, useful for skipping IP lookups on
/// automated traffic, that matches the substrings `bot`, `spider` and
/// `slurp` case-insensitively.
pub fn is_bot(user_agent: &str) -> (r: bool)
    ensures
        r == looks_like_bot(user_agent@),
{
    let ua = lower_chars(&chars_of(user_agent));
    let bot = vec!['b', 'o', 't'];
    let spider = vec!['s', 'p', 'i', 'd', 'e', 'r'];
    let slurp = vec!['s', 'l', 'u', 'r', 'p'];
    assert(bot@ =~= seq!['b', 'o', 't']);
    assert(spider@ =~= seq!['s', 'p', 'i', 'd', 'e', 'r']);
    assert(slurp@ =~= seq!['s', 'l', 'u', 'r', 'p']);
    contains_chars(&ua, &bot) || contains_chars(&ua, &spider) || contains_chars(&ua, &slurp)
}

} // verus!
