//! The static route table: exactly one entry, `GET /api/hello`, answered
//! with status 200 and a fixed greeting body. Any other method or path is
//! left to the surrounding framework's default handling.

use vstd::prelude::*;

verus! {

/// The one routed method.
pub open spec fn get_method() -> Seq<char> {
    "GET"@
}

/// The one routed path.
pub open spec fn hello_path() -> Seq<char> {
    "/api/hello"@
}

/// The fixed greeting body.
pub open spec fn hello_body() -> Seq<char> {
    "Hello from the enclave HTTP server!"@
}

/// What the route table answers for a request: the greeting with status
/// 200 for `GET` on the hello path, nothing for any other request.
pub open spec fn spec_dispatch(method: Seq<char>, path: Seq<char>) -> Option<(u16, Seq<char>)> {
    if method == get_method() && path == hello_path() {
        Some((200u16, hello_body()))
    } else {
        None
    }
}

/// An HTTP response produced by the route table.
pub struct HttpResponse {
    pub status: u16,
    pub body: String,
}

/// The handler of the one route: it cannot fail and always returns the
/// full greeting, independent of any request detail or prior call.
pub fn hello_handler() -> (r: &'static str)
    ensures
        r@ == hello_body(),
{
    "Hello from the enclave HTTP server!"
}

/// The routed path, for registering the route with a server.
pub fn route_path() -> (r: &'static str)
    ensures
        r@ == hello_path(),
{
    "/api/hello"
}

fn str_eq(a: &str, b: &str) -> (r: bool)
    ensures
        r <==> a@ == b@,
{
    let alen = a.unicode_len();
    let blen = b.unicode_len();
    if alen != blen {
        return false;
    }
    let mut i: usize = 0;
    while i < alen
        invariant
            i <= alen,
            alen == a@.len(),
            alen == b@.len(),
            forall|j: int| 0 <= j < i ==> a@[j] == b@[j],
        decreases alen - i,
    {
        if a.get_char(i) != b.get_char(i) {
            return false;
        }
        i += 1;
    }
    proof {
        assert(a@ =~= b@);
    }
    true
}

/// Look a request up in the route table: `Some` response exactly for
/// `GET` on the hello path (then the full greeting with status 200),
/// `None` for every other method or path.
pub fn dispatch(method: &str, path: &str) -> (r: Option<HttpResponse>)
    ensures
        r is Some <==> (method@ == get_method() && path@ == hello_path()),
        r matches Some(resp) ==> resp.status == 200 && resp.body@ == hello_body(),
        match r {
            Some(resp) => spec_dispatch(method@, path@) == Some((resp.status, resp.body@)),
            None => spec_dispatch(method@, path@) is None,
        },
{
    if str_eq(method, "GET") && str_eq(path, "/api/hello") {
        let body = hello_handler().to_owned();
        Some(HttpResponse { status: 200, body })
    } else {
        None
    }
}

/// Law: a `GET` request for the hello path is answered with status 200
/// and the full greeting body.
pub proof fn lemma_hello_route_ok()
    ensures
        spec_dispatch(get_method(), hello_path()) == Some((200u16, hello_body())),
{
}

/// Law: a request for any other path, or any other method on the hello
/// path, is not answered by the route table at all, so it can never
/// receive the greeting or status 200 from it.
pub proof fn lemma_other_requests_unrouted(method: Seq<char>, path: Seq<char>)
    requires
        method != get_method() || path != hello_path(),
    ensures
        spec_dispatch(method, path) is None,
{
}

/// Law: the answer to a request depends on its method and path alone,
/// so any two requests with equal method and path — in particular two
/// concurrent hello requests — each receive the same full response.
pub proof fn lemma_responses_independent(
    m1: Seq<char>,
    p1: Seq<char>,
    m2: Seq<char>,
    p2: Seq<char>,
)
    requires
        m1 == m2,
        p1 == p2,
    ensures
        spec_dispatch(m1, p1) == spec_dispatch(m2, p2),
{
}

} // verus!
