//! Access decisions of the HTTP server: which paths need the API key, how a
//! key is presented, which requests are logged quietly, and where
//! cross-origin requests may come from.

use vstd::prelude::*;
use crate::text::opt_view;
use crate::text::eq_ignore_ascii_case;
use crate::text::eq_ignore_ascii_case_spec;
use crate::text::split_char;
use crate::text::split_spec;
use crate::text::starts_with;
use crate::text::starts_with_spec;
use crate::text::str_eq;
use crate::text::strip_prefix;
use crate::text::trim;
use crate::text::trim_spec;
use crate::text::views;

verus! {

/// Whether a request may go on.
#[derive(Debug, Clone, Copy, PartialEq, Eq, Structural)]
pub enum AuthDecision {
    Allow,
    Unauthorized,
}

/// Paths that no key guards: the health check, the MCP session endpoint
/// (checked by its session), and the configuration interface (checked by its
/// cookie) with its assets and discovery documents.
pub open spec fn is_open_path(path: Seq<char>) -> bool {
    ||| path == "/health"@
    ||| path == "/mcp"@
    ||| path == "/"@
    ||| path == "/login"@
    ||| path == "/favicon.ico"@
    ||| starts_with_spec(path, "/static/"@)
    ||| starts_with_spec(path, "/api/auth/"@)
    ||| starts_with_spec(path, "/api/config"@)
    ||| starts_with_spec(path, "/api/defaults"@)
    ||| starts_with_spec(path, "/api/test"@)
    ||| starts_with_spec(path, "/api/restart"@)
    ||| starts_with_spec(path, "/.well-known/"@)
}

/// Paths whose key may come in the query string as well as in the
/// `Authorization` header.
pub open spec fn accepts_query_key(path: Seq<char>) -> bool {
    path == "/http"@ || path == "/sse"@
}

/// The key in an `Authorization` header: what follows `Bearer `, or the
/// whole value.
pub open spec fn bearer_key(h: Seq<char>) -> Seq<char> {
    if starts_with_spec(h, "Bearer "@) {
        h.skip("Bearer "@.len() as int)
    } else {
        h
    }
}

/// The value of the first `key=` parameter among `params`.
pub open spec fn first_key_param(params: Seq<Seq<char>>) -> Option<Seq<char>>
    decreases params.len(),
{
    if params.len() == 0 {
        None
    } else if starts_with_spec(params[0], "key="@) {
        Some(params[0].skip("key="@.len() as int))
    } else {
        first_key_param(params.drop_first())
    }
}

/// The key in a query string (absent query strings count as empty).
pub open spec fn query_key(query: Option<Seq<char>>) -> Option<Seq<char>> {
    let q = match query {
        Some(q) => q,
        None => Seq::empty(),
    };
    first_key_param(split_spec(q, '&'))
}

/// The key a request presents, where the path accepts it: the header's
/// before the query string's.
pub open spec fn presented_key(path: Seq<char>, auth: Option<Seq<char>>, query: Option<Seq<char>>) -> Option<
    Seq<char>,
> {
    match auth {
        Some(h) => Some(bearer_key(h)),
        None => if accepts_query_key(path) {
            query_key(query)
        } else {
            None
        },
    }
}

/// Whether a request to `path` goes on: open paths always, `/http` and
/// `/sse` and every other path only with the expected key.
pub open spec fn allowed(
    path: Seq<char>,
    auth: Option<Seq<char>>,
    query: Option<Seq<char>>,
    expected: Seq<char>,
) -> bool {
    if path == "/http"@ || path == "/sse"@ {
        presented_key(path, auth, query) == Some(expected)
    } else if is_open_path(path) {
        true
    } else {
        presented_key(path, auth, query) == Some(expected)
    }
}

/// The key in an `Authorization` header.
pub fn bearer_key_of(h: &str) -> (r: String)
    ensures
        r@ == bearer_key(h@),
{
    match strip_prefix(h, "Bearer ") {
        Some(k) => k,
        None => h.to_owned(),
    }
}

/// The key in a query string.
pub fn query_key_of(query: &Option<String>) -> (r: Option<String>)
    ensures
        opt_view(r) == query_key(opt_view(*query)),
{
    let params = match query {
        Some(q) => split_char(q.as_str(), '&'),
        None => {
            let p = split_char("", '&');
            proof {
                reveal_strlit("");
                assert(""@ =~= Seq::<char>::empty());
            }
            p
        },
    };
    let ghost all = views(params@);
    assert(all.skip(0) =~= all);
    assert(all == split_spec(
        match opt_view(*query) {
            Some(q) => q,
            None => Seq::empty(),
        },
        '&',
    ));
    let mut i: usize = 0;
    while i < params.len()
        invariant
            i <= params@.len(),
            all == views(params@),
            all == split_spec(
                match opt_view(*query) {
                    Some(q) => q,
                    None => Seq::empty(),
                },
                '&',
            ),
            first_key_param(all) == first_key_param(all.skip(i as int)),
        decreases params@.len() - i,
    {
        proof {
            assert(all.skip(i as int)[0] == params@[i as int]@);
            assert(all.skip(i as int).drop_first() =~= all.skip(i + 1));
        }
        match strip_prefix(params[i].as_str(), "key=") {
            Some(v) => {
                return Some(v);
            },
            None => {},
        }
        i += 1;
    }
    proof {
        assert(all.skip(i as int) =~= Seq::<Seq<char>>::empty());
    }
    None
}

/// Whether `path` is one that no key guards.
pub fn open_path(path: &str) -> (r: bool)
    ensures
        r == is_open_path(path@),
{
    str_eq(path, "/health") || str_eq(path, "/mcp") || str_eq(path, "/") || str_eq(path, "/login")
        || str_eq(path, "/favicon.ico") || starts_with(path, "/static/") || starts_with(
        path,
        "/api/auth/",
    ) || starts_with(path, "/api/config") || starts_with(path, "/api/defaults") || starts_with(
        path,
        "/api/test",
    ) || starts_with(path, "/api/restart") || starts_with(path, "/.well-known/")
}

/// Decides a request to `path` with its `Authorization` header (where it is
/// readable text) and its query string, against the configured key.
pub fn auth_decision(path: &str, auth: &Option<String>, query: &Option<String>, expected: &str) -> (r:
    AuthDecision)
    ensures
        (r == AuthDecision::Allow) == allowed(path@, opt_view(*auth), opt_view(*query), expected@),
{
    let keyed = str_eq(path, "/http") || str_eq(path, "/sse");
    if !keyed && open_path(path) {
        return AuthDecision::Allow;
    }
    let presented = match auth {
        Some(h) => Some(bearer_key_of(h.as_str())),
        None => if keyed {
            query_key_of(query)
        } else {
            None
        },
    };
    match presented {
        Some(k) => if str_eq(k.as_str(), expected) {
            AuthDecision::Allow
        } else {
            AuthDecision::Unauthorized
        },
        None => AuthDecision::Unauthorized,
    }
}

/// No request to a path that a key guards goes on without the expected key,
/// in the header or, for `/http` and `/sse`, in the query string.
pub proof fn lemma_guarded_paths_need_key(
    path: Seq<char>,
    auth: Option<Seq<char>>,
    query: Option<Seq<char>>,
    expected: Seq<char>,
)
    requires
        !is_open_path(path) || accepts_query_key(path),
        allowed(path, auth, query, expected),
    ensures
        presented_key(path, auth, query) == Some(expected),
{
}

/// A request whose path is open goes on whatever it presents, unless the
/// path is `/http` or `/sse`.
pub proof fn lemma_open_paths_allowed(
    path: Seq<char>,
    auth: Option<Seq<char>>,
    query: Option<Seq<char>>,
    expected: Seq<char>,
)
    requires
        is_open_path(path),
        !accepts_query_key(path),
    ensures
        allowed(path, auth, query, expected),
{
}

proof fn lemma_prefix_path_allowed(
    pre: Seq<char>,
    x: Seq<char>,
    auth: Option<Seq<char>>,
    query: Option<Seq<char>>,
    expected: Seq<char>,
)
    requires
        pre.len() > 5,
        is_open_path(pre + x),
    ensures
        allowed(pre + x, auth, query, expected),
{
    reveal_strlit("/http");
    reveal_strlit("/sse");
    assert("/http"@.len() == 5);
    assert("/sse"@.len() == 4);
    assert((pre + x).len() > 5);
    assert(pre + x != "/http"@);
    assert(pre + x != "/sse"@);
}

/// The open paths need no key, whatever the request presents: every path
/// under `/static/`, `/api/auth/` (the interface's login and logout),
/// `/api/config`, `/api/defaults`, `/api/test`, `/api/restart` and
/// `/.well-known/`, and the paths `/health`, `/mcp`, `/`, `/login` and
/// `/favicon.ico`.
pub proof fn lemma_interface_paths_need_no_key(
    x: Seq<char>,
    auth: Option<Seq<char>>,
    query: Option<Seq<char>>,
    expected: Seq<char>,
)
    ensures
        allowed("/static/"@ + x, auth, query, expected),
        allowed("/api/auth/"@ + x, auth, query, expected),
        allowed("/api/config"@ + x, auth, query, expected),
        allowed("/api/defaults"@ + x, auth, query, expected),
        allowed("/api/test"@ + x, auth, query, expected),
        allowed("/api/restart"@ + x, auth, query, expected),
        allowed("/.well-known/"@ + x, auth, query, expected),
        allowed("/health"@, auth, query, expected),
        allowed("/mcp"@, auth, query, expected),
        allowed("/"@, auth, query, expected),
        allowed("/login"@, auth, query, expected),
        allowed("/favicon.ico"@, auth, query, expected),
{
    reveal_strlit("/static/");
    reveal_strlit("/api/auth/");
    reveal_strlit("/api/config");
    reveal_strlit("/api/defaults");
    reveal_strlit("/api/test");
    reveal_strlit("/api/restart");
    reveal_strlit("/.well-known/");
    reveal_strlit("/health");
    reveal_strlit("/mcp");
    reveal_strlit("/");
    reveal_strlit("/login");
    reveal_strlit("/favicon.ico");
    reveal_strlit("/http");
    reveal_strlit("/sse");
    assert(("/static/"@ + x).take(8) =~= "/static/"@);
    lemma_prefix_path_allowed("/static/"@, x, auth, query, expected);
    assert(("/api/auth/"@ + x).take(10) =~= "/api/auth/"@);
    lemma_prefix_path_allowed("/api/auth/"@, x, auth, query, expected);
    assert(("/api/config"@ + x).take(11) =~= "/api/config"@);
    lemma_prefix_path_allowed("/api/config"@, x, auth, query, expected);
    assert(("/api/defaults"@ + x).take(13) =~= "/api/defaults"@);
    lemma_prefix_path_allowed("/api/defaults"@, x, auth, query, expected);
    assert(("/api/test"@ + x).take(9) =~= "/api/test"@);
    lemma_prefix_path_allowed("/api/test"@, x, auth, query, expected);
    assert(("/api/restart"@ + x).take(12) =~= "/api/restart"@);
    lemma_prefix_path_allowed("/api/restart"@, x, auth, query, expected);
    assert(("/.well-known/"@ + x).take(13) =~= "/.well-known/"@);
    lemma_prefix_path_allowed("/.well-known/"@, x, auth, query, expected);
    assert("/mcp"@[1] != "/sse"@[1]);
    assert("/mcp"@ != "/sse"@);
    assert("/http"@.len() == 5);
    assert("/health"@.len() == 7);
    assert("/"@.len() == 1);
    assert("/"@ != "/http"@);
    assert("/"@ != "/sse"@);
    assert("/login"@.len() == 6);
    assert("/health"@ != "/http"@);
    assert("/login"@ != "/http"@);
}

/// Whether a request is logged at debug level only: health checks, reading
/// the configuration, MCP and SSE traffic, the interface and its assets, and
/// searches.
pub open spec fn quiet_spec(path: Seq<char>, is_get: bool) -> bool {
    ||| path == "/health"@
    ||| (path == "/api/config"@ && is_get)
    ||| path == "/mcp"@
    ||| path == "/favicon.ico"@
    ||| path == "/sse"@
    ||| path == "/"@
    ||| starts_with_spec(path, "/static/"@)
    ||| path == "/api/defaults"@
    ||| path == "/api/search"@
}

/// Whether a request is logged at debug level only.
pub fn is_quiet_path(path: &str, is_get: bool) -> (r: bool)
    ensures
        r == quiet_spec(path@, is_get),
{
    str_eq(path, "/health") || (str_eq(path, "/api/config") && is_get) || str_eq(path, "/mcp")
        || str_eq(path, "/favicon.ico") || str_eq(path, "/sse") || str_eq(path, "/") || starts_with(
        path,
        "/static/",
    ) || str_eq(path, "/api/defaults") || str_eq(path, "/api/search")
}

/// Whether `c` may stand in an HTTP header value: a tab, or any character
/// from the space up but DEL (every byte of its UTF-8 form is then allowed).
pub open spec fn header_value_char(c: char) -> bool {
    c == '\t' || (' ' <= c && c != '\x7f')
}

/// Whether `s` is a valid HTTP header value.
pub open spec fn header_value_ok(s: Seq<char>) -> bool {
    forall|i: int| 0 <= i < s.len() ==> header_value_char(#[trigger] s[i])
}

/// The origins among `items` that are valid header values, in order.
pub open spec fn accepted_origins(items: Seq<Seq<char>>) -> Seq<Seq<char>>
    decreases items.len(),
{
    if items.len() == 0 {
        Seq::empty()
    } else if header_value_ok(items.last()) {
        accepted_origins(items.drop_last()).push(items.last())
    } else {
        accepted_origins(items.drop_last())
    }
}

/// `http::HeaderValue::from_str` (through `axum::http`): whether `s` is
/// accepted as a header value. Its source accepts exactly the texts whose
/// every byte is a tab or from 32 up but 127, which is `header_value_ok`.
#[verifier::external_body]
fn is_header_value(s: &str) -> (r: bool)
    ensures
        r == header_value_ok(s@),
{
    axum::http::HeaderValue::from_str(s).is_ok()
}

/// Where cross-origin requests may come from.
pub enum CorsPlan {
    /// From anywhere.
    Any,
    /// From these origins, each a valid header value.
    List(Vec<String>),
    /// From `http://localhost` and `http://127.0.0.1` only.
    LocalOnly,
}

/// The origins that the setting `AI_CORS_ORIGINS` allows: none set means
/// local only, `any` in any ASCII case means anywhere, else each
/// comma-separated item, trimmed, that is a valid header value.
pub fn cors_plan(setting: &Option<String>) -> (r: CorsPlan)
    ensures
        setting is None ==> r is LocalOnly,
        setting matches Some(s) ==> if eq_ignore_ascii_case_spec(s@, "any"@) {
            r is Any
        } else {
            r matches CorsPlan::List(v) && views(v@) == accepted_origins(
                split_spec(s@, ',').map_values(|x: Seq<char>| trim_spec(x)),
            )
        },
{
    match setting {
        None => CorsPlan::LocalOnly,
        Some(s) => {
            if eq_ignore_ascii_case(s.as_str(), "any") {
                CorsPlan::Any
            } else {
                let parts = split_char(s.as_str(), ',');
                let mut out: Vec<String> = Vec::new();
                let mut i: usize = 0;
                while i < parts.len()
                    invariant
                        i <= parts@.len(),
                        views(parts@) == split_spec(s@, ','),
                        views(out@) == accepted_origins(
                            split_spec(s@, ',').take(i as int).map_values(|x: Seq<char>| trim_spec(x)),
                        ),
                    decreases parts@.len() - i,
                {
                    let t = trim(parts[i].as_str());
                    let ok = is_header_value(t.as_str());
                    let ghost before = views(out@);
                    proof {
                        let sp = split_spec(s@, ',');
                        let x = sp.take(i as int).map_values(|x: Seq<char>| trim_spec(x));
                        assert(views(parts@)[i as int] == parts@[i as int]@);
                        assert(sp.take(i + 1).map_values(|x: Seq<char>| trim_spec(x)) =~= x.push(
                            trim_spec(sp[i as int]),
                        ));
                        assert(x.push(trim_spec(sp[i as int])).drop_last() =~= x);
                    }
                    if ok {
                        out.push(t);
                        proof {
                            assert(views(out@) =~= before.push(t@));
                        }
                    }
                    i += 1;
                }
                proof {
                    let sp = split_spec(s@, ',');
                    assert(sp.take(parts@.len() as int) =~= sp);
                }
                CorsPlan::List(out)
            }
        },
    }
}

} // verus!
