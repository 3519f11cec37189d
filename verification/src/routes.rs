//! The service's route table and the lookup handler's decisions.
//!
//! The server dispatches `GET /health` and `GET /{name}` and nothing else.
//! Everything the handler decides — which route a path falls under, the
//! default lookup name, and how a store outcome becomes a status code and
//! body — is a pure function here; the process around the library performs
//! the socket and database work.

use vstd::prelude::*;
use crate::user::{json_of_user, User};

verus! {

/// Where a request path leads: the liveness probe, a user lookup for the
/// single path segment, or no route at all.
pub enum Route {
    Health,
    Lookup(String),
    NoMatch,
}

/// A path of the form `/{name}`: one nonempty segment with no further `/`.
pub open spec fn is_single_segment(p: Seq<char>) -> bool {
    p.len() >= 2 && p[0] == '/' && (forall|i: int| 1 <= i < p.len() ==> p[i] != '/')
}

/// The liveness-probe path.
pub open spec fn is_health_path(p: Seq<char>) -> bool {
    p == "/health"@
}

/// A path the lookup route matches: a single segment other than `/health`.
pub open spec fn is_lookup_path(p: Seq<char>) -> bool {
    is_single_segment(p) && !is_health_path(p)
}

/// Resolve a request path against the route table. `/health` wins over the
/// lookup route; anything that is not one nonempty segment matches nothing.
pub fn route_request(path: &str) -> (r: Route)
    ensures
        match r {
            Route::Health => is_health_path(path@),
            Route::Lookup(name) => is_lookup_path(path@) && name@ == path@.subrange(
                1,
                path@.len() as int,
            ),
            Route::NoMatch => !is_health_path(path@) && !is_lookup_path(path@),
        },
{
    proof {
        reveal_strlit("/health");
    }
    let n: usize = path.unicode_len();
    if n < 2 {
        return Route::NoMatch;
    }
    if path.get_char(0) != '/' {
        return Route::NoMatch;
    }
    let mut i: usize = 1;
    while i < n
        invariant
            n == path@.len(),
            1 <= i <= n,
            forall|j: int| 1 <= j < i ==> path@[j] != '/',
        decreases n - i,
    {
        if path.get_char(i) == '/' {
            proof {
                reveal_strlit("/health");
                assert(path@ != "/health"@);
            }
            return Route::NoMatch;
        }
        i += 1;
    }
    let health = n == 7 && path.get_char(1) == 'h' && path.get_char(2) == 'e' && path.get_char(3)
        == 'a' && path.get_char(4) == 'l' && path.get_char(5) == 't' && path.get_char(6) == 'h';
    if health {
        proof {
            assert(path@ =~= "/health"@);
        }
        Route::Health
    } else {
        proof {
            assert(path@ != "/health"@);
        }
        let name = path.substring_char(1, n).to_owned();
        Route::Lookup(name)
    }
}

/// The default lookup name, substituted when the routing layer hands the
/// handler no path parameter. The declared route always binds one, so the
/// branch is a defensive default, not a validation rule.
pub fn effective_name(name: Option<&str>) -> (r: String)
    ensures
        match name {
            Some(n) => r@ == n@,
            None => r@ == "ChandyMan"@,
        },
{
    match name {
        Some(n) => n.to_owned(),
        None => "ChandyMan".to_owned(),
    }
}

/// How a lookup can fail: no matching row, or any other store failure
/// (connectivity, malformed data, timeout). The handler matches this closed
/// set; nothing else escapes the store-access layer.
#[derive(Clone, Copy, PartialEq, Eq, Structural, Debug)]
pub enum LookupError {
    NotFound,
    Other,
}

/// What the handler sends back: a status code and the full body text.
#[derive(Debug)]
pub struct Response {
    pub status: u16,
    pub body: String,
}

/// The status code owed to a lookup outcome: 200 for a row, 404 when no row
/// matched, 500 for every other store failure.
pub open spec fn status_of(res: Result<User, LookupError>) -> int {
    match res {
        Ok(_) => 200,
        Err(LookupError::NotFound) => 404,
        Err(LookupError::Other) => 500,
    }
}

/// The body owed to a lookup outcome: the user's JSON on success, empty on
/// every failure (no detail is surfaced to the caller).
pub open spec fn body_of(res: Result<User, LookupError>) -> Seq<char> {
    match res {
        Ok(u) => json_of_user(u),
        Err(_) => Seq::empty(),
    }
}

/// A lookup outcome the handler can be handed: a found row must be well
/// formed.
pub open spec fn wf_outcome(res: Result<User, LookupError>) -> bool {
    match res {
        Ok(u) => u.wf(),
        Err(_) => true,
    }
}

/// Map a store outcome to the response: exactly one row gives 200 with the
/// record's JSON, no row gives 404 empty, any other failure gives 500 empty.
pub fn lookup_response(res: Result<User, LookupError>) -> (r: Response)
    requires
        wf_outcome(res),
    ensures
        r.status as int == status_of(res),
        r.body@ == body_of(res),
{
    match res {
        Ok(u) => Response { status: 200, body: crate::user::user_json(&u) },
        Err(LookupError::NotFound) => Response { status: 404, body: String::new() },
        Err(LookupError::Other) => Response { status: 500, body: String::new() },
    }
}

/// Repeated identical lookups against an unchanged store return identical
/// responses: the status and body owed to an outcome are functions of that
/// outcome alone, so a second call with the same outcome is answered the
/// same way.
pub proof fn lemma_lookup_idempotent(
    res1: Result<User, LookupError>,
    res2: Result<User, LookupError>,
)
    requires
        res1 == res2,
    ensures
        status_of(res1) == status_of(res2),
        body_of(res1) == body_of(res2),
{
}

/// No cross-contamination between concurrent lookups: each body is owed to
/// its own row alone, and rows with distinct store ids give distinct bodies,
/// so two lookups that found different rows can never be answered with the
/// same record.
pub proof fn lemma_lookup_no_cross_contamination(u1: User, u2: User)
    requires
        u1.id != u2.id,
    ensures
        body_of(Ok(u1)) == json_of_user(u1),
        body_of(Ok(u2)) == json_of_user(u2),
        body_of(Ok(u1)) != body_of(Ok(u2)),
{
    crate::user::lemma_distinct_ids_distinct_json(u1, u2);
}

/// The liveness probe's response: 200 with an empty body, unconditionally.
/// It takes no store and reads no state, so database health cannot affect it.
pub fn health_response() -> (r: Response)
    ensures
        r.status == 200,
        r.body@ == Seq::<char>::empty(),
{
    Response { status: 200, body: String::new() }
}

} // verus!
