//! The decisions behind each HTTP route, on a snapshot of the current context.

use vstd::prelude::*;
use vstd::string::StringExecFns;
use vstd::utf8::encode_utf8;
use crate::context::{Config, Context, ContextView};
use crate::secrets::{argon2_verified, is_password_hash, validate};
use crate::text::{decimal_bytes, push_decimal, string_from_utf8};
use crate::token::{authenticate, authenticate_result, signed_by, Token};

verus! {

/// How a route fails; the listener turns it into a status code.
#[derive(Clone, Copy, Debug, PartialEq, Eq, Structural)]
pub enum RouteError {
    /// 401: wrong password, or no valid session token.
    Unauthorized,
    /// 500: the request cannot be served for a reason of the server's own.
    Internal,
}

impl RouteError {
    /// The HTTP status code.
    pub fn status(&self) -> (r: u16)
        ensures
            *self == RouteError::Unauthorized ==> r == 401,
            *self == RouteError::Internal ==> r == 500,
    {
        match self {
            RouteError::Unauthorized => 401,
            RouteError::Internal => 500,
        }
    }
}

/// Name of the cookie that carries the session token.
pub const TOKEN_COOKIE: &'static str = "token";

/// The session cookie that a successful login sets (`SameSite=Strict`).
#[derive(Clone, Debug, PartialEq, Eq)]
pub struct SessionCookie {
    /// The signed token.
    pub value: String,
    /// Lifetime in seconds.
    pub max_age: u64,
}

/// The redirect target of a plaintext request for `path`.
pub open spec fn redirect_target(domain: Seq<char>, path: Seq<char>) -> Seq<char> {
    "https://"@ + domain + "/"@ + path
}

/// The URL that a plaintext request for `path` is redirected to.
pub fn redirect_location(domain: &str, path: &str) -> (r: String)
    ensures
        r@ == redirect_target(domain@, path@),
{
    let mut r = String::from_str("https://");
    r.append(domain);
    r.append("/");
    r.append(path);
    r
}

/// A request for the empty path is redirected to the domain's root.
pub proof fn lemma_redirect_empty_path(domain: Seq<char>)
    ensures
        redirect_target(domain, ""@) == "https://"@ + domain + "/"@,
{
    reveal_strlit("");
    assert(redirect_target(domain, ""@) =~= "https://"@ + domain + "/"@);
}

/// Redirects a plaintext request to the encrypted listener; `path` is absent
/// where the request path is not text.
pub fn redirect(path: Option<&str>, ctx: &Context) -> (r: Result<String, RouteError>)
    ensures
        path is None ==> r == Err::<String, RouteError>(RouteError::Internal),
        path matches Some(p) ==> (r matches Ok(s) && s@ == redirect_target(ctx.domain@, p@)),
{
    match path {
        None => Err(RouteError::Internal),
        Some(p) => Ok(redirect_location(ctx.domain.as_str(), p)),
    }
}

/// What a successful login with `password` yields on context `c` at `now`.
pub open spec fn login_succeeds(password: Seq<char>, c: ContextView) -> bool {
    argon2_verified(c.password_hash, password) == Some(true)
}

/// Checks the administrator's password and, where it matches, issues a
/// session token that lasts the configured timeout.
pub fn login(password: &str, ctx: &Context, now: u64) -> (r: Result<SessionCookie, RouteError>)
    ensures
        r == Err::<SessionCookie, RouteError>(RouteError::Unauthorized) <==> !login_succeeds(password@, ctx@),
        r == Err::<SessionCookie, RouteError>(RouteError::Internal) <==> login_succeeds(password@, ctx@)
            && now as int + ctx.token_timeout as int > u64::MAX,
        r matches Ok(c) ==> c.max_age == ctx.token_timeout && signed_by(
            c.value@,
            Token { issued_at: now, expires_at: (now + ctx.token_timeout) as u64 },
            ctx.token_secret@,
        ),
        is_password_hash(ctx.password_hash@, password@) && password@.len() <= 0x3FFF_FFFF
            ==> login_succeeds(password@, ctx@),
{
    if !validate(password, ctx.password_hash.as_str()) {
        return Err(RouteError::Unauthorized);
    }
    if now > u64::MAX - ctx.token_timeout {
        return Err(RouteError::Internal);
    }
    let token = Token::issue(now, ctx.token_timeout);
    let value = token.encode(&ctx.token_secret);
    Ok(SessionCookie { value, max_age: ctx.token_timeout })
}

/// The cookie value, if any, as text.
pub open spec fn cookie_text(cookie: Option<&str>) -> Option<Seq<char>> {
    match cookie {
        Some(s) => Some(s@),
        None => None,
    }
}

/// The guard of the protected routes: `Unauthorized` unless the cookie holds
/// a token that the context's secret signed and that has not expired.
pub open spec fn authorized(cookie: Option<&str>, c: ContextView, now: u64) -> bool {
    authenticate_result(cookie_text(cookie), c.token_secret, now) is Ok
}

/// A session cookie issued at `issued` passes the guard of the protected
/// routes exactly until the configured timeout has elapsed.
pub proof fn lemma_session_lifetime(text: Seq<char>, c: ContextView, issued: u64, later: u64)
    requires
        issued + c.token_timeout <= u64::MAX,
        signed_by(
            text,
            Token { issued_at: issued, expires_at: (issued + c.token_timeout) as u64 },
            c.token_secret,
        ),
    ensures
        (authenticate_result(Some(text), c.token_secret, later) is Ok) == (later < issued + c.token_timeout),
{
    crate::token::lemma_token_round_trip(
        Token { issued_at: issued, expires_at: (issued + c.token_timeout) as u64 },
        c.token_secret,
        text,
        later,
    );
}

/// Returns the current configuration to a holder of a valid token.
pub fn get_config(cookie: Option<&str>, ctx: &Context, now: u64) -> (r: Result<Config, RouteError>)
    ensures
        authorized(cookie, ctx@, now) ==> (r matches Ok(c) && c@ == ctx@.config),
        !authorized(cookie, ctx@, now) ==> r == Err::<Config, RouteError>(RouteError::Unauthorized),
{
    match authenticate(cookie, &ctx.token_secret, now) {
        Ok(_) => Ok(ctx.config.duplicate()),
        Err(_) => Err(RouteError::Unauthorized),
    }
}

/// For a holder of a valid token, the context with its configuration
/// replaced, to be stored; without one, `Unauthorized` and nothing to store.
pub fn put_config(cookie: Option<&str>, ctx: &Context, new_config: Config, now: u64) -> (r: Result<Context, RouteError>)
    ensures
        authorized(cookie, ctx@, now) ==> (r matches Ok(n) && n@ == (ContextView { config: new_config@, ..ctx@ })),
        !authorized(cookie, ctx@, now) ==> r == Err::<Context, RouteError>(RouteError::Unauthorized),
{
    match authenticate(cookie, &ctx.token_secret, now) {
        Ok(_) => Ok(ctx.with_config(new_config)),
        Err(_) => Err(RouteError::Unauthorized),
    }
}

/// Caching directives of a response.
#[derive(Clone, Copy, Debug, PartialEq, Eq, Structural)]
pub struct CacheControl {
    pub max_age: Option<u32>,
    pub no_store: bool,
}

/// `max-age=`
pub open spec fn max_age_prefix() -> Seq<u8> {
    seq![109u8, 97, 120, 45, 97, 103, 101, 61]
}

/// `, no-store`
pub open spec fn no_store_suffix() -> Seq<u8> {
    seq![44u8, 32, 110, 111, 45, 115, 116, 111, 114, 101]
}

/// The `Cache-Control` header value, as bytes.
pub open spec fn cache_control_bytes(c: CacheControl) -> Seq<u8> {
    (match c.max_age {
        Some(m) => max_age_prefix() + decimal_bytes(m as nat),
        None => Seq::empty(),
    }) + (if c.no_store { no_store_suffix() } else { Seq::empty() })
}

proof fn lemma_decimal_ascii(n: nat)
    ensures
        forall|i: int| 0 <= i < decimal_bytes(n).len() ==> #[trigger] decimal_bytes(n)[i] < 128,
    decreases n,
{
    if n >= 10 {
        lemma_decimal_ascii(n / 10);
        let d = decimal_bytes(n / 10).push((48 + n % 10) as u8);
        assert(decimal_bytes(n) == d);
        assert forall|i: int| 0 <= i < d.len() implies #[trigger] d[i] < 128 by {
            if i < d.len() - 1 {
                assert(d[i] == decimal_bytes(n / 10)[i]);
            }
        }
    }
}

impl CacheControl {
    /// The `Cache-Control` header value.
    pub fn header_value(&self) -> (r: String)
        ensures
            encode_utf8(r@) == cache_control_bytes(*self),
    {
        let mut v: Vec<u8> = Vec::new();
        if let Some(m) = self.max_age {
            v.push(109);
            v.push(97);
            v.push(120);
            v.push(45);
            v.push(97);
            v.push(103);
            v.push(101);
            v.push(61);
            push_decimal(m, &mut v);
            proof {
                lemma_decimal_ascii(m as nat);
            }
        }
        let ghost head = v@;
        if self.no_store {
            v.push(44);
            v.push(32);
            v.push(110);
            v.push(111);
            v.push(45);
            v.push(115);
            v.push(116);
            v.push(111);
            v.push(114);
            v.push(101);
        }
        assert(v@ =~= cache_control_bytes(*self));
        match string_from_utf8(v) {
            Some(s) => s,
            None => {
                assert(false);
                String::new()
            },
        }
    }
}

/// What the stream route needs once the guard has passed: the configuration
/// that the media pipeline runs with, and the caching directives.
#[derive(Clone, Debug, PartialEq, Eq)]
pub struct StreamHead {
    pub config: Config,
    pub cache_control: CacheControl,
}

/// Opens the live stream for a holder of a valid token; the response must not
/// be cached.
pub fn stream(cookie: Option<&str>, ctx: &Context, now: u64) -> (r: Result<StreamHead, RouteError>)
    ensures
        authorized(cookie, ctx@, now) ==> (r matches Ok(h) && h.config@ == ctx@.config
            && h.cache_control == (CacheControl { max_age: Some(0), no_store: true })),
        !authorized(cookie, ctx@, now) ==> r == Err::<StreamHead, RouteError>(RouteError::Unauthorized),
{
    match authenticate(cookie, &ctx.token_secret, now) {
        Ok(_) => Ok(StreamHead {
            config: ctx.config.duplicate(),
            cache_control: CacheControl { max_age: Some(0), no_store: true },
        }),
        Err(_) => Err(RouteError::Unauthorized),
    }
}

} // verus!
