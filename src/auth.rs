//! The token guard: one shared secret for the lifetime of the process, and
//! the check of the credentials a bridge request presents.
use crate::text::{chars_of, has_prefix, parse_unsigned, parse_unsigned_chars, same_text, string_of, trimmed, trimmed_chars, starts_with};
use rand::Rng;
use vstd::prelude::*;

verus! {

/// How many characters a generated token has.
pub const TOKEN_LEN: usize = 40;

/// The port the bridge listens on unless configured otherwise.
pub const DEFAULT_PORT: u16 = 48678;

/// The credentials a request presents, as read from its headers and query.
pub struct Credentials {
    /// The `Authorization` header.
    pub authorization: Option<String>,
    /// The `x-symphony-token` header.
    pub token_header: Option<String>,
    /// The `token` query parameter.
    pub query_token: Option<String>,
}

/// The bridge endpoints.
#[derive(PartialEq, Eq, Structural, Clone, Copy, Debug)]
pub enum Endpoint {
    Health,
    VerifyAuth,
    Invoke,
    Events,
}

pub open spec fn opt_view(s: Option<String>) -> Option<Seq<char>> {
    match s {
        Some(v) => Some(v@),
        None => None,
    }
}

/// `s` trimmed, if anything is left.
pub open spec fn nonblank(s: Option<Seq<char>>) -> Option<Seq<char>> {
    match s {
        Some(v) => if trimmed(v).len() > 0 {
            Some(trimmed(v))
        } else {
            None
        },
        None => None,
    }
}

/// The token of an `Authorization: Bearer <token>` header.
pub open spec fn bearer_of(header: Option<Seq<char>>) -> Option<Seq<char>> {
    match header {
        Some(v) => if starts_with(v, "Bearer "@) {
            nonblank(Some(v.subrange("Bearer "@.len() as int, v.len() as int)))
        } else {
            None
        },
        None => None,
    }
}

/// Whether the credential form `form` presents exactly `token`.
pub open spec fn presents(form: Option<Seq<char>>, token: Seq<char>) -> bool {
    form == Some(token)
}

/// Whether a request to `endpoint` with credentials `c` is let through by a
/// guard holding `token`: any one valid form suffices, whatever the others
/// hold. The query parameter counts only for the event stream, whose
/// transport cannot set headers.
pub open spec fn admits(token: Seq<char>, endpoint: Endpoint, c: Credentials) -> bool {
    presents(bearer_of(opt_view(c.authorization)), token) || presents(nonblank(opt_view(c.token_header)), token)
        || (endpoint == Endpoint::Events && presents(nonblank(opt_view(c.query_token)), token))
}

fn nonblank_of(s: &Option<String>) -> (r: Option<String>)
    ensures
        opt_view(r) == nonblank(opt_view(*s)),
{
    match s {
        Some(v) => {
            let chars = chars_of(v.as_str());
            let t = trimmed_chars(chars.as_slice());
            if t.len() > 0 {
                Some(string_of(t.as_slice()))
            } else {
                None
            }
        },
        None => None,
    }
}

/// The token the headers present in the first form that holds one: the
/// `Authorization: Bearer` token, else the `x-symphony-token` header.
pub open spec fn header_token(c: Credentials) -> Option<Seq<char>> {
    match bearer_of(opt_view(c.authorization)) {
        Some(t) => Some(t),
        None => nonblank(opt_view(c.token_header)),
    }
}

/// The token of the request's `Authorization: Bearer` header, if any.
fn bearer_token(c: &Credentials) -> (r: Option<String>)
    ensures
        opt_view(r) == bearer_of(opt_view(c.authorization)),
{
    if let Some(v) = &c.authorization {
        let chars = chars_of(v.as_str());
        let prefix = chars_of("Bearer ");
        if has_prefix(chars.as_slice(), prefix.as_slice()) {
            let mut rest: Vec<char> = Vec::new();
            let mut i: usize = prefix.len();
            while i < chars.len()
                invariant
                    prefix@.len() <= i <= chars@.len(),
                    rest@ == chars@.subrange(prefix@.len() as int, i as int),
                decreases chars.len() - i,
            {
                rest.push(chars[i]);
                assert(rest@ =~= chars@.subrange(prefix@.len() as int, i + 1));
                i = i + 1;
            }
            let t = trimmed_chars(rest.as_slice());
            if t.len() > 0 {
                return Some(string_of(t.as_slice()));
            }
        }
    }
    None
}

/// The token the headers of a request present: the trimmed bearer token, else
/// the trimmed `x-symphony-token` header; a blank one counts as absent.
pub fn extract_bearer_token(c: &Credentials) -> (r: Option<String>)
    ensures
        opt_view(r) == header_token(*c),
{
    match bearer_token(c) {
        Some(t) => Some(t),
        None => nonblank_of(&c.token_header),
    }
}

fn presents_token(form: Option<String>, token: &str) -> (r: bool)
    ensures
        r == presents(opt_view(form), token@),
{
    match form {
        Some(t) => same_text(t.as_str(), token),
        None => false,
    }
}

/// Relies on rand's `Alphanumeric` distribution, drawn from the thread-local
/// generator: each draw is an ASCII letter or digit.
#[verifier::external_body]
fn random_alphanumeric() -> (c: char)
    ensures
        is_token_char(c),
{
    char::from(rand::rng().sample(rand::distr::Alphanumeric))
}

/// An ASCII letter or digit.
pub open spec fn is_token_char(c: char) -> bool {
    ('a' <= c && c <= 'z') || ('A' <= c && c <= 'Z') || ('0' <= c && c <= '9')
}

/// Whether `t` has the shape of a generated token.
pub open spec fn is_generated_token(t: Seq<char>) -> bool {
    t.len() == TOKEN_LEN && forall|i: int| 0 <= i < t.len() ==> is_token_char(#[trigger] t[i])
}

/// The token spelled by `draws`, each a drawn letter or digit.
pub fn token_from_draws(draws: Vec<char>) -> (r: String)
    requires
        is_generated_token(draws@),
    ensures
        r@ == draws@,
{
    string_of(draws.as_slice())
}

/// Draws a fresh random token of letters and digits. Which characters come
/// out is up to the generator; every outcome has this shape.
pub fn generate_token() -> (r: String)
    ensures
        is_generated_token(r@),
{
    let mut v: Vec<char> = Vec::new();
    let mut i: usize = 0;
    while i < TOKEN_LEN
        invariant
            i <= TOKEN_LEN,
            v@.len() == i,
            forall|k: int| 0 <= k < v@.len() ==> is_token_char(#[trigger] v@[k]),
        decreases TOKEN_LEN - i,
    {
        let c = random_alphanumeric();
        v.push(c);
        i = i + 1;
    }
    token_from_draws(v)
}

/// Holds the one shared secret of the bridge.
pub struct TokenGuard {
    token: String,
}

impl TokenGuard {
    pub closed spec fn token(&self) -> Seq<char> {
        self.token@
    }

    /// A guard for a token chosen by the operator.
    pub fn with_token(token: String) -> (r: TokenGuard)
        ensures
            r.token() == token@,
    {
        TokenGuard { token }
    }

    /// A guard for the configured token, or for `generated` (a freshly drawn
    /// token) when none is configured. The flag says whether the generated one
    /// was taken, so that the caller can show it to the operator.
    pub fn from_config(configured: Option<String>, generated: String) -> (r: (TokenGuard, bool))
        requires
            is_generated_token(generated@),
        ensures
            match configured {
                Some(t) => r.0.token() == t@ && !r.1,
                None => r.0.token() == generated@ && r.1,
            },
    {
        match configured {
            Some(t) => (TokenGuard { token: t }, false),
            None => (TokenGuard { token: generated }, true),
        }
    }

    /// The token, for showing to the operator.
    pub fn token_text(&self) -> (r: &str)
        ensures
            r@ == self.token(),
    {
        self.token.as_str()
    }

    /// Whether a request to `endpoint` presenting `c` is let through.
    pub fn admits(&self, endpoint: Endpoint, c: &Credentials) -> (r: bool)
        ensures
            r == admits(self.token(), endpoint, *c),
    {
        if presents_token(bearer_token(c), self.token.as_str()) {
            return true;
        }
        if presents_token(nonblank_of(&c.token_header), self.token.as_str()) {
            return true;
        }
        endpoint == Endpoint::Events && presents_token(nonblank_of(&c.query_token), self.token.as_str())
    }
}

/// A request none of whose credential forms presents the guard's token
/// (each is absent, blank or different) is refused at every endpoint.
pub proof fn lemma_mismatch_refused(token: Seq<char>, endpoint: Endpoint, c: Credentials)
    requires
        !presents(bearer_of(opt_view(c.authorization)), token),
        !presents(nonblank(opt_view(c.token_header)), token),
        endpoint == Endpoint::Events ==> !presents(nonblank(opt_view(c.query_token)), token),
    ensures
        !admits(token, endpoint, c),
{
}

/// The port the bridge listens on: the configured value when it reads as a
/// port number, else the default.
pub fn bridge_port(configured: Option<&str>) -> (r: u16)
    ensures
        match configured {
            Some(s) => match parse_unsigned(s@, u16::MAX as nat) {
                Some(n) => r as nat == n,
                None => r == DEFAULT_PORT,
            },
            None => r == DEFAULT_PORT,
        },
{
    match configured {
        Some(s) => {
            let chars = chars_of(s);
            match parse_unsigned_chars(chars.as_slice(), u16::MAX as u64) {
                Some(n) => n as u16,
                None => DEFAULT_PORT,
            }
        },
        None => DEFAULT_PORT,
    }
}

/// The address the bridge binds to: the configured host, else loopback.
pub fn bridge_host(configured: Option<String>) -> (r: String)
    ensures
        match configured {
            Some(h) => r@ == h@,
            None => r@ == "127.0.0.1"@,
        },
{
    match configured {
        Some(h) => h,
        None => String::from_str("127.0.0.1"),
    }
}

} // verus!
