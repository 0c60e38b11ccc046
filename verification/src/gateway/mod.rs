//! The HTTP gateway: who may call it, what it remembers, and what it answers.
use vstd::prelude::*;

pub mod routes;
pub mod state;

use crate::config::GatewayConfig;
use crate::text::{begins, chars_of, ends, ends_with, same_text, starts_with, texts};

verus! {

/// Who may call the gateway from a web page, and how.
#[derive(Debug)]
pub struct CorsPolicy {
    pub origins: Vec<String>,
    pub methods: Vec<String>,
    pub headers: Vec<String>,
    pub exposed_headers: Vec<String>,
    pub credentials: bool,
}

/// The origins of the Stremio clients.
pub open spec fn stremio_origins() -> Seq<Seq<char>> {
    seq![
        "https://web.stremio.com"@,
        "https://app.strem.io"@,
        "https://www.strem.io"@,
        "https://strem.io"@,
        "https://www.stremio.com"@,
        "https://stremio.com"@,
        "https://www.stremio.net"@,
        "https://stremio.net"@,
        "https://stremio.github.io"@,
        "https://stremio-development.netlify.app"@,
    ]
}

/// A character of a host name.
pub open spec fn is_host_char(c: char) -> bool {
    'a' <= c <= 'z' || 'A' <= c <= 'Z' || '0' <= c <= '9' || c == '-' || c == '.'
}

/// Whether an origin is a secure one below a domain, which is given with the
/// dot before it.
pub open spec fn is_subdomain_of(origin: Seq<char>, domain: Seq<char>) -> bool {
    &&& begins(origin, "https://"@)
    &&& ends(origin, domain)
    &&& origin.len() > "https://"@.len() + domain.len()
    &&& forall|i: int|
        "https://"@.len() <= i < origin.len() ==> is_host_char(#[trigger] origin[i])
}

/// Whether an origin is on the machine that runs the browser, at any port.
pub open spec fn is_local_origin(origin: Seq<char>) -> bool {
    ||| begins(origin, "http://127.0.0.1:"@)
    ||| begins(origin, "http://localhost:"@)
    ||| begins(origin, "https://127.0.0.1:"@)
    ||| begins(origin, "https://localhost:"@)
    ||| origin == "null"@
}

/// Whether an origin may call the gateway: a listed one, one below
/// `strem.io` or `stremio.com`, or a local one. An origin that is no text may
/// not.
pub open spec fn may_call(origins: Seq<Seq<char>>, origin: Option<Seq<char>>) -> bool {
    match origin {
        None => false,
        Some(o) => {
            ||| origins.contains(o)
            ||| is_subdomain_of(o, ".strem.io"@)
            ||| is_subdomain_of(o, ".stremio.com"@)
            ||| is_local_origin(o)
        },
    }
}

fn push_text(list: &mut Vec<String>, text: &str)
    ensures
        texts(final(list)@) == texts(old(list)@).push(text@),
{
    list.push(text.to_owned());
    proof {
        assert(texts(list@) == texts(old(list)@).push(text@));
    }
}

fn no_texts() -> (r: Vec<String>)
    ensures
        texts(r@) == Seq::<Seq<char>>::empty(),
{
    let r: Vec<String> = Vec::new();
    proof {
        assert(texts(r@) == Seq::<Seq<char>>::empty());
    }
    r
}

fn subdomain(origin: &str, domain: &str) -> (r: bool)
    ensures
        r == is_subdomain_of(origin@, domain@),
{
    if !starts_with(origin, "https://") || !ends_with(origin, domain) {
        return false;
    }
    let cs = chars_of(origin);
    let start: usize = chars_of("https://").len();
    let n: usize = cs.len();
    let d: usize = chars_of(domain).len();
    if n - d <= start {
        return false;
    }
    let mut i: usize = start;
    while i < n
        invariant
            start <= i <= n,
            start == "https://"@.len(),
            n == cs@.len(),
            cs@ == origin@,
            forall|j: int| start <= j < i ==> is_host_char(#[trigger] origin@[j]),
        decreases n - i,
    {
        let c = cs[i];
        if !(('a' <= c && c <= 'z') || ('A' <= c && c <= 'Z') || ('0' <= c && c <= '9') || c == '-'
            || c == '.') {
            proof {
                assert(!is_host_char(origin@[i as int]));
            }
            return false;
        }
        i = i + 1;
    }
    true
}

impl CorsPolicy {
    /// Whether an origin may call the gateway.
    pub fn allows(&self, origin: Option<&str>) -> (r: bool)
        ensures
            r == may_call(
                texts(self.origins@),
                match origin {
                    Some(o) => Some(o@),
                    None => None,
                },
            ),
    {
        let o = match origin {
            Some(o) => o,
            None => return false,
        };
        let n: usize = self.origins.len();
        let mut i: usize = 0;
        while i < n
            invariant
                i <= n,
                n == self.origins@.len(),
                origin == Some(o),
                forall|j: int| 0 <= j < i ==> (#[trigger] self.origins@[j])@ != o@,
            decreases n - i,
        {
            if same_text(self.origins[i].as_str(), o) {
                proof {
                    assert(texts(self.origins@)[i as int] == o@);
                }
                return true;
            }
            i = i + 1;
        }
        proof {
            assert(!texts(self.origins@).contains(o@)) by {
                if texts(self.origins@).contains(o@) {
                    let k = choose|k: int|
                        0 <= k < texts(self.origins@).len() && texts(self.origins@)[k] == o@;
                    assert(self.origins@[k]@ == o@);
                }
            }
        }
        subdomain(o, ".strem.io") || subdomain(o, ".stremio.com") || starts_with(
            o,
            "http://127.0.0.1:",
        ) || starts_with(o, "http://localhost:") || starts_with(o, "https://127.0.0.1:")
            || starts_with(o, "https://localhost:") || same_text(o, "null")
    }
}

/// The policy of a gateway: the Stremio clients and what the operator added,
/// without credentials.
pub fn build_cors(cfg: &GatewayConfig) -> (r: CorsPolicy)
    ensures
        texts(r.origins@) == stremio_origins() + texts(cfg.extra_allowed_origins@),
        texts(r.methods@) == seq!["GET"@, "POST"@, "PUT"@, "DELETE"@, "OPTIONS"@, "HEAD"@],
        texts(r.headers@) == seq![
            "content-type"@,
            "authorization"@,
            "range"@,
            "accept"@,
            "cache-control"@,
            "x-requested-with"@,
        ],
        texts(r.exposed_headers@) == seq!["content-length"@, "content-range"@, "content-type"@],
        !r.credentials,
{
    let mut origins = no_texts();
    push_text(&mut origins, "https://web.stremio.com");
    push_text(&mut origins, "https://app.strem.io");
    push_text(&mut origins, "https://www.strem.io");
    push_text(&mut origins, "https://strem.io");
    push_text(&mut origins, "https://www.stremio.com");
    push_text(&mut origins, "https://stremio.com");
    push_text(&mut origins, "https://www.stremio.net");
    push_text(&mut origins, "https://stremio.net");
    push_text(&mut origins, "https://stremio.github.io");
    push_text(&mut origins, "https://stremio-development.netlify.app");
    proof {
        assert(texts(origins@) == stremio_origins());
    }
    let n: usize = cfg.extra_allowed_origins.len();
    let mut i: usize = 0;
    proof {
        assert(texts(cfg.extra_allowed_origins@).take(0) == Seq::<Seq<char>>::empty());
        assert(stremio_origins() + Seq::<Seq<char>>::empty() == stremio_origins());
    }
    while i < n
        invariant
            i <= n,
            n == cfg.extra_allowed_origins@.len(),
            texts(origins@) == stremio_origins() + texts(cfg.extra_allowed_origins@).take(i as int),
        decreases n - i,
    {
        push_text(&mut origins, &cfg.extra_allowed_origins[i]);
        proof {
            let extra = texts(cfg.extra_allowed_origins@);
            assert(extra.take(i + 1) == extra.take(i as int).push(extra[i as int]));
            assert(stremio_origins() + extra.take(i as int).push(extra[i as int]) == (
            stremio_origins() + extra.take(i as int)).push(extra[i as int]));
        }
        i = i + 1;
    }
    proof {
        assert(texts(cfg.extra_allowed_origins@).take(n as int) == texts(
            cfg.extra_allowed_origins@,
        ));
    }
    let mut methods = no_texts();
    push_text(&mut methods, "GET");
    push_text(&mut methods, "POST");
    push_text(&mut methods, "PUT");
    push_text(&mut methods, "DELETE");
    push_text(&mut methods, "OPTIONS");
    push_text(&mut methods, "HEAD");
    let mut headers = no_texts();
    push_text(&mut headers, "content-type");
    push_text(&mut headers, "authorization");
    push_text(&mut headers, "range");
    push_text(&mut headers, "accept");
    push_text(&mut headers, "cache-control");
    push_text(&mut headers, "x-requested-with");
    let mut exposed_headers = no_texts();
    push_text(&mut exposed_headers, "content-length");
    push_text(&mut exposed_headers, "content-range");
    push_text(&mut exposed_headers, "content-type");
    CorsPolicy { origins, methods, headers, exposed_headers, credentials: false }
}

/// Every origin that the operator lists may call the gateway.
pub proof fn listed_origins_may_call(extra: Seq<Seq<char>>, i: int)
    requires
        0 <= i < extra.len(),
    ensures
        may_call(stremio_origins() + extra, Some(extra[i])),
{
    let all = stremio_origins() + extra;
    assert(all[stremio_origins().len() + i] == extra[i]);
}

/// What the operator lists takes nothing from the Stremio clients.
pub proof fn built_in_origins_may_call(extra: Seq<Seq<char>>, i: int)
    requires
        0 <= i < stremio_origins().len(),
    ensures
        may_call(stremio_origins() + extra, Some(stremio_origins()[i])),
{
    let all = stremio_origins() + extra;
    assert(all[i] == stremio_origins()[i]);
}

} // verus!
