//! The request sent to the control plane, and the command line and exit code
//! of the launched target.
use vstd::prelude::*;
use vstd::string::StringExecFns;
use crate::json::{json_quoted, quote_json};

verus! {

/// The control plane's socket.
pub const SOCKET_PATH: &'static str = "/run/snapd-snap.socket";

/// The endpoint the request is posted to.
pub const ENDPOINT_PATH: &'static str = "/v2/snapctl";

/// The exit code for a usage error and for a child that left no exit code.
pub const FALLBACK_EXIT_CODE: i32 = 1;

/// The request body: the context id and the query `get env envfile apps`.
pub open spec fn request_text(ctx: Seq<char>) -> Seq<char> {
    "{\"context-id\":"@ + json_quoted(ctx) + ",\"args\":[\"get\",\"env\",\"envfile\",\"apps\"]}"@
}

/// Builds the JSON request body for the given context id.
pub fn request_body(ctx: &str) -> (r: String)
    ensures
        r@ == request_text(ctx@),
{
    let q = quote_json(ctx);
    let head = "{\"context-id\":".to_owned();
    head.concat(q.as_str()).concat(",\"args\":[\"get\",\"env\",\"envfile\",\"apps\"]}")
}

/// Splits a command line into the target command and its arguments; `None`
/// when no command follows the program name.
pub fn split_command(args: &Vec<String>) -> (r: Option<(String, Vec<String>)>)
    ensures
        r is None <==> args.len() < 2,
        r matches Some(p) ==> p.0@ == args@[1]@
            && p.1@.map_values(|s: String| s@) == args@.subrange(2, args.len() as int).map_values(|s: String| s@),
{
    if args.len() < 2 {
        return None;
    }
    let command = args[1].clone();
    let mut rest: Vec<String> = Vec::new();
    let mut i: usize = 2;
    while i < args.len()
        invariant
            2 <= i <= args.len(),
            rest@.map_values(|s: String| s@) == args@.subrange(2, i as int).map_values(|s: String| s@),
        decreases args.len() - i,
    {
        let ghost prev = rest@;
        rest.push(args[i].clone());
        assert(rest@.map_values(|s: String| s@) =~= prev.map_values(|s: String| s@).push(args@[i as int]@));
        assert(args@.subrange(2, i + 1).map_values(|s: String| s@) =~= args@.subrange(2, i as int).map_values(|s: String| s@).push(args@[i as int]@));
        i = i + 1;
    }
    Some((command, rest))
}

/// The exit code to leave with: the child's own, or the fallback where the
/// child left none.
pub fn exit_code(code: Option<i32>) -> (r: i32)
    ensures
        r == match code { Some(c) => c, None => FALLBACK_EXIT_CODE },
{
    match code {
        Some(c) => c,
        None => FALLBACK_EXIT_CODE,
    }
}

} // verus!
