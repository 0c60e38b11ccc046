//! Command-line arguments.
use vstd::prelude::*;
use vstd::string::*;

use crate::text::{lower, same_text, to_lower, trim, trimmed};

verus! {

/// The arguments of the service, after the environment variables have been
/// taken into account.
#[derive(Debug, Clone)]
pub struct Args {
    /// A `stremio://` URL to open.
    pub open: Option<String>,
    /// The path of a config file.
    pub config: Option<String>,
    /// The key of the Torbox account.
    pub torbox_api_key: Option<String>,
    /// The IP address to bind to, in its usual notation.
    pub bind: Option<String>,
    /// The port to bind to.
    pub port: Option<u16>,
    /// Whether to run without a tray icon.
    pub headless: bool,
    /// Whether the browser streams transcoded playlists from Torbox directly;
    /// nothing where the operator did not say.
    pub direct_hls: Option<bool>,
}

/// The words for yes.
pub open spec fn is_yes(word: Seq<char>) -> bool {
    word == "1"@ || word == "true"@ || word == "yes"@ || word == "on"@
}

/// The words for no; saying nothing is one of them.
pub open spec fn is_no(word: Seq<char>) -> bool {
    word == "0"@ || word == "false"@ || word == "no"@ || word == "off"@ || word == ""@
}

/// The word that a value comes down to.
pub open spec fn plain_word(s: Seq<char>) -> Seq<char> {
    lower(trimmed(s))
}

/// Reads a truth value: `1`, `true`, `yes` and `on`, or `0`, `false`, `no`,
/// `off` and nothing at all, in either case and with white space around it.
pub fn parse_bool_lenient(s: &str) -> (r: Result<bool, String>)
    ensures
        r is Ok <==> is_yes(plain_word(s@)) || is_no(plain_word(s@)),
        r matches Ok(b) ==> b == is_yes(plain_word(s@)),
        r matches Err(m) ==> m@
            == "expected a boolean (1/0, true/false, yes/no, on/off), got `"@ + plain_word(s@)
            + "`"@,
{
    let word = to_lower(trim(s));
    proof {
        reveal_strlit("1");
        reveal_strlit("true");
        reveal_strlit("yes");
        reveal_strlit("on");
        reveal_strlit("0");
        reveal_strlit("false");
        reveal_strlit("no");
        reveal_strlit("off");
        reveal_strlit("");
        yes_is_not_no(word@);
    }
    if same_text(&word, "1") || same_text(&word, "true") || same_text(&word, "yes") || same_text(
        &word,
        "on",
    ) {
        return Ok(true);
    }
    if same_text(&word, "0") || same_text(&word, "false") || same_text(&word, "no") || same_text(
        &word,
        "off",
    ) || same_text(&word, "") {
        return Ok(false);
    }
    let mut message = "expected a boolean (1/0, true/false, yes/no, on/off), got `".to_owned();
    message.append(&word);
    message.append("`");
    Err(message)
}

/// No word means both yes and no.
pub proof fn yes_is_not_no(word: Seq<char>)
    ensures
        !(is_yes(word) && is_no(word)),
{
    reveal_strlit("1");
    reveal_strlit("true");
    reveal_strlit("yes");
    reveal_strlit("on");
    reveal_strlit("0");
    reveal_strlit("false");
    reveal_strlit("no");
    reveal_strlit("off");
    reveal_strlit("");
    if is_yes(word) {
        assert(word.len() == 0 || word[0] == '1' || word[0] == 't' || word[0] == 'y' || (word[0]
            == 'o' && word[1] == 'n'));
        assert("0"@[0] == '0' && "false"@[0] == 'f' && "no"@[0] == 'n' && "off"@[1] == 'f');
        assert("on"@.len() == 2 && "off"@.len() == 3);
    }
}

/// Reads the environment switch for direct streaming: a word for yes turns it
/// on, anything else leaves it off.
pub fn env_switch(value: &str) -> (r: bool)
    ensures
        r == is_yes(plain_word(value@)),
{
    match parse_bool_lenient(value) {
        Ok(b) => b,
        Err(_) => false,
    }
}

} // verus!
