//! Switches, the configuration, and who may call the gateway.
use vstd::prelude::*;
use vstd::utf8::*;

use crate::args::{is_no, is_yes, plain_word, Args};
use crate::config::{
    config_error, gateway_follows, masked, FileConfig, GatewayConfig, Host,
};
use crate::gateway::{is_local_origin, is_subdomain_of, may_call, stremio_origins};
use crate::laws::text::{beginnings_and_ends, trimming_both_ends};
use crate::text::{is_white_space, lower, trimmed};

verus! {

// ---------------------------------------------------------------------------
// Switches
// ---------------------------------------------------------------------------

/// The words for yes and for no.
pub proof fn words_for_yes_and_no(word: Seq<char>)
    ensures
        is_yes(word) <==> word == "1"@ || word == "true"@ || word == "yes"@ || word == "on"@,
        is_no(word) <==> word == "0"@ || word == "false"@ || word == "no"@ || word == "off"@
            || word.len() == 0,
{
    reveal_strlit("");
    if word.len() == 0 {
        assert(word =~= ""@);
    }
    assert(""@.len() == 0);
}

/// A word is read without the white space around it, and in either case.
pub proof fn words_are_plain(before: Seq<char>, word: Seq<char>, after: Seq<char>)
    requires
        forall|i: int| 0 <= i < before.len() ==> is_white_space(#[trigger] before[i]),
        forall|i: int| 0 <= i < after.len() ==> is_white_space(#[trigger] after[i]),
        word.len() > 0 ==> !is_white_space(word[0]) && !is_white_space(word.last()),
    ensures
        plain_word(before + word + after) == lower(word),
{
    trimming_both_ends(before, word, after);
}

// ---------------------------------------------------------------------------
// Configuration
// ---------------------------------------------------------------------------

/// What neither the command line nor the file says is by default: the loopback
/// address, port 11470, no forced transcoding and no direct streaming.
pub proof fn defaults_fill_in(g: GatewayConfig, args: Args, file: FileConfig)
    requires
        gateway_follows(g, args, file),
    ensures
        args.bind is None && file.bind is None ==> g.bind@ == "127.0.0.1"@,
        args.port is None && file.port is None ==> g.port == 11470,
        args.direct_hls is None && file.direct_hls is None ==> !g.direct_hls,
        file.force_transcode is None ==> !g.force_transcode,
        file.force_transcode matches Some(b) ==> g.force_transcode == b,
        g.extra_allowed_origins == file.extra_allowed_origins,
        g.public_base_url == file.public_base_url,
{
}

/// A file says nothing exactly where every setting of it is left open.
pub proof fn empty_files_leave_all_open(file: FileConfig)
    ensures
        file.says_nothing() <==> file.torbox_api_key is None && file.bind is None && file.port is None
            && file.extra_allowed_origins@.len() == 0 && file.public_base_url is None
            && file.force_transcode is None && file.direct_hls is None,
{
}

/// The key is the one of the command line, or else the one of the file, without
/// the white space around it.
pub proof fn keys_are_trimmed(g: GatewayConfig, args: Args, file: FileConfig)
    requires
        gateway_follows(g, args, file),
    ensures
        args.torbox_api_key matches Some(key) ==> g.torbox_api_key@ == trimmed(key@),
        args.torbox_api_key is None ==> (file.torbox_api_key matches Some(key)
            && g.torbox_api_key@ == trimmed(key@)),
        g.torbox_api_key@.len() > 0,
{
}

/// Whether a key is missing or blank.
pub open spec fn is_blank_key(key: Option<String>) -> bool {
    match key {
        Some(k) => trimmed(k@).len() == 0,
        None => true,
    }
}

/// A configuration fails for want of a home directory, then of a cache
/// directory, then by its file, and last for want of a key: a blank key on the
/// command line is none, whatever the file says.
pub proof fn configurations_fail_in_order(args: Args, host: Host, file: FileConfig, reason: String)
    ensures
        !host.home_dir ==> config_error(args, host, Ok(file)) == Some("Failed to get home dir"@)
            && config_error(args, host, Err(reason)) == Some("Failed to get home dir"@),
        host.home_dir && !host.cache_dir ==> config_error(args, host, Ok(file)) == Some(
            "Failed to get cache dir"@,
        ) && config_error(args, host, Err(reason)) == Some("Failed to get cache dir"@),
        host.home_dir && host.cache_dir ==> config_error(args, host, Err(reason)) == Some(reason@),
        host.home_dir && host.cache_dir && is_blank_key(
            if args.torbox_api_key is Some {
                args.torbox_api_key
            } else {
                file.torbox_api_key
            },
        ) ==> config_error(args, host, Ok(file)) == Some(
            "Torbox API key not set. Pass --torbox-api-key, set TORBOX_API_KEY, or add `torbox_api_key = \"…\"` to ~/.config/stremio-service/config.toml."@,
        ),
        host.home_dir && host.cache_dir && !is_blank_key(
            if args.torbox_api_key is Some {
                args.torbox_api_key
            } else {
                file.torbox_api_key
            },
        ) ==> config_error(args, host, Ok(file)) is None,
{
}

proof fn lemma_encoded_parts(a: Seq<char>, b: Seq<char>)
    ensures
        encode_utf8(a + b) == encode_utf8(a) + encode_utf8(b),
    decreases a.len(),
{
    if a.len() == 0 {
        assert(a + b =~= b);
        assert(encode_utf8(a) =~= Seq::<u8>::empty());
        assert(encode_utf8(a) + encode_utf8(b) =~= encode_utf8(b));
    } else {
        lemma_encoded_parts(a.drop_first(), b);
        assert((a + b).drop_first() =~= a.drop_first() + b);
        assert((a + b)[0] == a[0]);
        assert(encode_utf8(a + b) =~= encode_utf8(a) + encode_utf8(b));
    }
}

/// A key of more than eight bytes is shown by its first and its last four, with
/// an ellipsis between them; a shorter one is not shown.
pub proof fn masks_show_both_ends(head: Seq<char>, middle: Seq<char>, tail: Seq<char>, key: Seq<char>)
    requires
        encode_utf8(head).len() == 4,
        encode_utf8(tail).len() == 4,
        middle.len() > 0,
    ensures
        masked(head + middle + tail) == head + "…"@ + tail,
        encode_utf8(key).len() == 0 ==> masked(key) == "<unset>"@,
        0 < encode_utf8(key).len() <= 8 ==> masked(key) == "<redacted>"@,
{
    let all = head + middle + tail;
    lemma_encoded_parts(head + middle, tail);
    lemma_encoded_parts(head, middle);
    let bytes = encode_utf8(all);
    assert(encode_utf8(middle).len() > 0);
    assert(bytes.subrange(0, 4) =~= encode_utf8(head));
    assert(bytes.subrange(bytes.len() - 4, bytes.len() as int) =~= encode_utf8(tail));
    encode_utf8_decode_utf8(head);
    encode_utf8_decode_utf8(tail);
}

// ---------------------------------------------------------------------------
// Who may call
// ---------------------------------------------------------------------------

/// Whether an origin is one of the ten of the Stremio clients.
pub open spec fn is_client_origin(origin: Seq<char>) -> bool {
    ||| origin == "https://web.stremio.com"@
    ||| origin == "https://app.strem.io"@
    ||| origin == "https://www.strem.io"@
    ||| origin == "https://strem.io"@
    ||| origin == "https://www.stremio.com"@
    ||| origin == "https://stremio.com"@
    ||| origin == "https://www.stremio.net"@
    ||| origin == "https://stremio.net"@
    ||| origin == "https://stremio.github.io"@
    ||| origin == "https://stremio-development.netlify.app"@
}

/// The Stremio clients may call, and the list of a gateway holds no others.
pub proof fn clients_may_call(extra: Seq<Seq<char>>, origin: Seq<char>)
    ensures
        stremio_origins().len() == 10,
        stremio_origins()[0] == "https://web.stremio.com"@,
        stremio_origins()[1] == "https://app.strem.io"@,
        stremio_origins()[2] == "https://www.strem.io"@,
        stremio_origins()[3] == "https://strem.io"@,
        stremio_origins()[4] == "https://www.stremio.com"@,
        stremio_origins()[5] == "https://stremio.com"@,
        stremio_origins()[6] == "https://www.stremio.net"@,
        stremio_origins()[7] == "https://stremio.net"@,
        stremio_origins()[8] == "https://stremio.github.io"@,
        stremio_origins()[9] == "https://stremio-development.netlify.app"@,
        is_client_origin(origin) ==> may_call(stremio_origins() + extra, Some(origin)),
        stremio_origins().contains(origin) ==> is_client_origin(origin),
{
    let all = stremio_origins() + extra;
    assert(forall|i: int| 0 <= i < 10 ==> #[trigger] all[i] == stremio_origins()[i]);
    if is_client_origin(origin) {
        assert(all[0] == "https://web.stremio.com"@);
        assert(all[1] == "https://app.strem.io"@);
        assert(all[2] == "https://www.strem.io"@);
        assert(all[3] == "https://strem.io"@);
        assert(all[4] == "https://www.stremio.com"@);
        assert(all[5] == "https://stremio.com"@);
        assert(all[6] == "https://www.stremio.net"@);
        assert(all[7] == "https://stremio.net"@);
        assert(all[8] == "https://stremio.github.io"@);
        assert(all[9] == "https://stremio-development.netlify.app"@);
        assert(all.contains(origin));
    }
}

/// Whether an origin is a page of the machine itself, at any port, or a file.
pub open spec fn is_page_here(origin: Seq<char>) -> bool {
    ||| "http://127.0.0.1:"@.is_prefix_of(origin)
    ||| "http://localhost:"@.is_prefix_of(origin)
    ||| "https://127.0.0.1:"@.is_prefix_of(origin)
    ||| "https://localhost:"@.is_prefix_of(origin)
    ||| origin == "null"@
}

proof fn lemma_page_here(origin: Seq<char>)
    ensures
        is_local_origin(origin) == is_page_here(origin),
{
    beginnings_and_ends(origin, "http://127.0.0.1:"@);
    beginnings_and_ends(origin, "http://localhost:"@);
    beginnings_and_ends(origin, "https://127.0.0.1:"@);
    beginnings_and_ends(origin, "https://localhost:"@);
}

/// Whether a text is made of ASCII letters, digits, hyphens and dots.
pub open spec fn is_host_name(s: Seq<char>) -> bool {
    forall|i: int|
        0 <= i < s.len() ==> 97 <= #[trigger] s[i] as int <= 122 || 65 <= s[i] as int <= 90 || 48
            <= s[i] as int <= 57 || s[i] == '-' || s[i] == '.'
}

/// A secure origin below a domain is `https://`, a label at least, and the
/// domain; and nothing else is.
pub proof fn subdomains_have_a_label(label: Seq<char>, domain: Seq<char>, origin: Seq<char>)
    ensures
        label.len() > 0 && is_host_name(label) && is_host_name(domain) ==> is_subdomain_of(
            "https://"@ + label + domain,
            domain,
        ),
        is_subdomain_of(origin, domain) ==> "https://"@.is_prefix_of(origin)
            && domain.is_suffix_of(origin) && origin.len() > 8 + domain.len() && is_host_name(
            origin.skip(8),
        ),
{
    reveal_strlit("https://");
    let o = "https://"@ + label + domain;
    assert(o.take(8) =~= "https://"@);
    assert(o.skip(o.len() - domain.len()) =~= domain);
    if label.len() > 0 && is_host_name(label) && is_host_name(domain) {
        assert forall|i: int| 8 <= i < o.len() implies crate::gateway::is_host_char(
            #[trigger] o[i],
        ) by {
            if i < 8 + label.len() {
                assert(o[i] == label[i - 8]);
            } else {
                assert(o[i] == domain[i - 8 - label.len()]);
            }
        }
    }
    if is_subdomain_of(origin, domain) {
        beginnings_and_ends(origin, "https://"@);
        beginnings_and_ends(origin, domain);
        let rest = origin.skip(8);
        assert forall|i: int| 0 <= i < rest.len() implies 97 <= #[trigger] rest[i] as int <= 122 || 65
            <= rest[i] as int <= 90 || 48 <= rest[i] as int <= 57 || rest[i] == '-' || rest[i]
            == '.' by {
            assert(crate::gateway::is_host_char(origin[i + 8]));
        }
    }
}

/// An origin may call exactly where it is listed, is a secure one below
/// `.strem.io` or `.stremio.com`, or is a page of the machine itself; a missing
/// one may not.
pub proof fn nobody_else_may_call(origins: Seq<Seq<char>>, origin: Seq<char>)
    ensures
        !may_call(origins, None),
        may_call(origins, Some(origin)) <==> origins.contains(origin) || is_subdomain_of(
            origin,
            ".strem.io"@,
        ) || is_subdomain_of(origin, ".stremio.com"@) || is_page_here(origin),
{
    lemma_page_here(origin);
}

/// A page below either domain of Stremio may call.
pub proof fn pages_of_stremio_may_call(origins: Seq<Seq<char>>, label: Seq<char>)
    requires
        label.len() > 0,
        is_host_name(label),
    ensures
        may_call(origins, Some("https://"@ + label + ".strem.io"@)),
        may_call(origins, Some("https://"@ + label + ".stremio.com"@)),
{
    reveal_strlit(".strem.io");
    reveal_strlit(".stremio.com");
    subdomains_have_a_label(label, ".strem.io"@, label);
    subdomains_have_a_label(label, ".stremio.com"@, label);
}

/// The names that the service goes by.
pub proof fn service_has_names()
    ensures
        crate::constants::STREMIO_URL@ == "https://web.stremio.com"@,
        crate::constants::APP_IDENTIFIER@ == "com.stremio.service"@,
        crate::constants::APP_NAME@ == "StremioService"@,
        crate::constants::DESKTOP_FILE_PATH@ == "/usr/share/applications"@,
        crate::constants::DESKTOP_FILE_NAME@ == "com.stremio.service.desktop"@,
        crate::constants::AUTOSTART_CONFIG_PATH@ == ".config/autostart"@,
        crate::constants::LAUNCH_AGENTS_PATH@ == "Library/LaunchAgents"@,
        crate::gateway::routes::meta::PROBE_HINT@
            == ". This gateway only transcodes torrents added through itself."@,
{
}

} // verus!
