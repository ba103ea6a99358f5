//! The small local HTTP endpoints of the command line tool: the login
//! redirect that hands over an API token, and the Prometheus graph
//! redirect that appends a query to a notebook. Listening and answering
//! are done by the caller; this module decides the answers.
use crate::fields::{decimal, decimal_chars};
use crate::text::{chars_of, extend_chars, has_prefix, starts_with, string_of};
use vstd::prelude::*;

verus! {

/// What `qstring::QString::from(query).get(name)` gives: the decoded value
/// of the first parameter called `name` in the query string, `""` for a
/// parameter without value.
pub uninterp spec fn query_param_result(query: Seq<char>, name: Seq<char>) -> Option<Seq<char>>;

/// The view of an optional string.
pub open spec fn opt_view(o: Option<String>) -> Option<Seq<char>> {
    match o {
        Some(s) => Some(s@),
        None => None,
    }
}

/// Where the query string parser of `qstring` starts: after a leading `?`.
pub open spec fn query_start(q: Seq<char>) -> int {
    if q.len() > 0 && q[0] == '?' {
        1
    } else {
        0
    }
}

/// Whether `qstring`'s parser starts reading a parameter at position `i`:
/// where it starts, right after a `&`, and right after a `=` that stood
/// where a parameter started (a parameter without name, which is skipped).
pub open spec fn part_start(q: Seq<char>, i: int) -> bool
    decreases i,
{
    if i < query_start(q) {
        false
    } else if i == query_start(q) {
        true
    } else {
        q[i - 1] == '&' || (q[i - 1] == '=' && part_start(q, i - 1))
    }
}

/// Whether `qstring` can read the query string: the parser takes the
/// first byte of the string and of each parameter as a one-byte slice,
/// which panics where that character takes more than one byte.
pub open spec fn query_readable(q: Seq<char>) -> bool {
    forall|i: int| 0 <= i < q.len() && #[trigger] part_start(q, i) ==> (q[i] as u32) < 0x80
}

/// Whether `qstring` can read the query string.
pub fn is_query_readable(query: &str) -> (b: bool)
    ensures
        b == query_readable(query@),
{
    let cs = chars_of(query);
    let start: usize = if cs.len() > 0 && cs[0] == '?' {
        1
    } else {
        0
    };
    let mut prev = false;
    let mut i: usize = 0;
    while i < cs.len()
        invariant
            cs@ == query@,
            start == query_start(query@),
            i <= cs@.len(),
            i > 0 ==> prev == part_start(query@, i - 1),
            forall|j: int| 0 <= j < i && #[trigger] part_start(query@, j) ==> (query@[j] as u32) < 0x80,
        decreases cs@.len() - i,
    {
        let cur = if i < start {
            false
        } else if i == start {
            true
        } else {
            cs[i - 1] == '&' || (cs[i - 1] == '=' && prev)
        };
        assert(cur == part_start(query@, i as int));
        if cur && (cs[i] as u32) >= 0x80 {
            return false;
        }
        prev = cur;
        i = i + 1;
    }
    true
}

/// Calls `qstring::QString::from` on the query string and `QString::get`
/// with `name`; named by `query_param_result`. The parser panics on a
/// query string it cannot read, which `requires` leaves out.
#[verifier::external_body]
fn query_param(query: &str, name: &str) -> (r: Option<String>)
    requires
        query_readable(query@),
    ensures
        opt_view(r) == query_param_result(query@, name@),
{
    qstring::QString::from(query).get(name).map(String::from)
}

/// The view of an optional query string.
pub open spec fn opt_str_view(query: Option<&str>) -> Option<Seq<char>> {
    match query {
        Some(q) => Some(q@),
        None => None,
    }
}

/// Whether the request has no query string or one that can be read.
pub open spec fn request_readable(query: Option<Seq<char>>) -> bool {
    match query {
        Some(q) => query_readable(q),
        None => true,
    }
}

/// The value of the parameter `name` of a request's query string, if the
/// request has a query string and the parameter is in it.
pub open spec fn request_param(query: Option<Seq<char>>, name: Seq<char>) -> Option<Seq<char>> {
    match query {
        Some(q) => query_param_result(q, name),
        None => None,
    }
}

fn request_param_exec(query: Option<&str>, name: &str) -> (r: Option<String>)
    requires
        request_readable(opt_str_view(query)),
    ensures
        opt_view(r) == request_param(opt_str_view(query), name@),
{
    match query {
        Some(q) => query_param(q, name),
        None => None,
    }
}

fn request_readable_exec(query: Option<&str>) -> (b: bool)
    ensures
        b == request_readable(opt_str_view(query)),
{
    match query {
        Some(q) => is_query_readable(q),
        None => true,
    }
}

/// An answer to an HTTP request.
pub struct Reply {
    pub status: u16,
    pub body: String,
    /// Where a redirect points to.
    pub location: Option<String>,
}

// ---------------------------------------------------------------------------
// Login.
// ---------------------------------------------------------------------------

/// The page that starts the login flow and redirects back to `port`.
pub open spec fn login_url_spec(base_url: Seq<char>, port: nat) -> Seq<char> {
    base_url + "signin?cli_redirect_port="@ + decimal(port)
}

/// The address of the login page, which redirects the browser back to the
/// local server on `port` once the user has logged in.
pub fn login_url(base_url: &str, port: u16) -> (r: String)
    ensures
        r@ == login_url_spec(base_url@, port as nat),
{
    let mut out = chars_of(base_url);
    extend_chars(&mut out, &chars_of("signin?cli_redirect_port="));
    extend_chars(&mut out, &decimal_chars(port as usize));
    string_of(&out)
}

/// The answer to the login redirect, and the token it carried.
pub struct LoginReply {
    pub reply: Reply,
    pub token: Option<String>,
}

/// Answers the login redirect: with a `token` parameter in the query
/// string the user is logged in (200) and the token is handed on; without
/// one the request is refused (400). A query string that cannot be read
/// gets no answer (`None`): the connection is dropped.
pub fn login_reply(query: Option<&str>) -> (r: Option<LoginReply>)
    ensures
        r is None <==> !request_readable(opt_str_view(query)),
        r matches Some(lr) ==> {
            &&& opt_view(lr.token) == request_param(opt_str_view(query), "token"@)
            &&& lr.token is Some ==> lr.reply.status == 200 && lr.reply.body@
                == "You have been logged in to the CLI. You can now close this tab."@
            &&& lr.token is None ==> lr.reply.status == 400 && lr.reply.body@
                == "Expected token query string parameter."@
            &&& lr.reply.location is None
        },
{
    if !request_readable_exec(query) {
        return None;
    }
    let token = request_param_exec(query, "token");
    Some(match token {
        Some(t) => LoginReply {
            reply: Reply {
                status: 200,
                body: String::from_str(
                    "You have been logged in to the CLI. You can now close this tab.",
                ),
                location: None,
            },
            token: Some(t),
        },
        None => LoginReply {
            reply: Reply {
                status: 400,
                body: String::from_str("Expected token query string parameter."),
                location: None,
            },
            token: None,
        },
    })
}

// ---------------------------------------------------------------------------
// Prometheus graph redirect.
// ---------------------------------------------------------------------------

/// What to do with a request to the Prometheus graph redirect.
pub enum GraphRequest {
    /// Answer at once.
    Reply(Reply),
    /// Append a Prometheus cell with this query data to the notebook, then
    /// redirect to it.
    AppendCell(String),
    /// The query string cannot be read: drop the connection unanswered.
    Drop,
}

/// The query data of the cell appended for the PromQL query `q`.
pub open spec fn query_data_spec(q: Seq<char>) -> Seq<char> {
    "application/x-www-form-urlencoded,query="@ + q
}

/// Decides what a request to the graph redirect does: paths outside
/// `/graph` are not found (404); a request without a `g0.expr` parameter
/// is refused (400); otherwise the query is appended to the notebook. A
/// query string of a `/graph` request that cannot be read gets no answer.
pub fn graph_request(path: &str, query: Option<&str>) -> (r: GraphRequest)
    ensures
        !has_prefix(path@, "/graph"@) ==> (r matches GraphRequest::Reply(reply) && reply.status
            == 404 && reply.body@ == "Prometheus-to-notebook can only be used for graph URLs"@
            && reply.location is None),
        has_prefix(path@, "/graph"@) && !request_readable(opt_str_view(query)) ==> r is Drop,
        has_prefix(path@, "/graph"@) && request_readable(opt_str_view(query)) ==> match request_param(
            opt_str_view(query),
            "g0.expr"@,
        ) {
            None => r matches GraphRequest::Reply(reply) && reply.status == 400 && reply.body@
                == "Expected `g0.expr` query string parameter"@ && reply.location is None,
            Some(q) => r matches GraphRequest::AppendCell(d) && d@ == query_data_spec(q),
        },
{
    if !starts_with(&chars_of(path), &chars_of("/graph")) {
        return GraphRequest::Reply(
            Reply {
                status: 404,
                body: String::from_str("Prometheus-to-notebook can only be used for graph URLs"),
                location: None,
            },
        );
    }
    if !request_readable_exec(query) {
        return GraphRequest::Drop;
    }
    match request_param_exec(query, "g0.expr") {
        Some(q) => {
            let mut data = chars_of("application/x-www-form-urlencoded,query=");
            extend_chars(&mut data, &chars_of(q.as_str()));
            GraphRequest::AppendCell(string_of(&data))
        },
        None => GraphRequest::Reply(
            Reply {
                status: 400,
                body: String::from_str("Expected `g0.expr` query string parameter"),
                location: None,
            },
        ),
    }
}

/// The answer once the cell was appended (or not): a temporary redirect
/// (307) to the cell's URL, or an internal error (500).
pub fn graph_reply(appended: bool, cell_url: String) -> (r: Reply)
    ensures
        appended ==> r.status == 307 && (r.location matches Some(l) && l@ == cell_url@)
            && r.body@.len() == 0,
        !appended ==> r.status == 500 && r.body@ == "Error appending cell to notebook"@
            && r.location is None,
{
    if appended {
        Reply { status: 307, body: String::new(), location: Some(cell_url) }
    } else {
        Reply {
            status: 500,
            body: String::from_str("Error appending cell to notebook"),
            location: None,
        }
    }
}

} // verus!
