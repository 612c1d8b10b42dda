//! Reading the control plane's answer and turning it into environment writes.
use vstd::prelude::*;
use vstd::utf8::encode_utf8;
use crate::json::{Json, json_of, lookup, member, is_nested, scalar_text, parse_json, get_member, setting_text};
use crate::text::{normalized, normalize_key, same_text};

verus! {

/// The ways an invocation can fail before the target is launched.
#[derive(Debug, Clone, Copy, PartialEq, Eq, Structural)]
pub enum ResolveError {
    /// The socket or the environment could not supply the request or its answer.
    TransportError,
    /// The answer is not a well-formed JSON document.
    ProtocolError,
    /// `result.stdout` is missing, not a string, or not a JSON document.
    PayloadError,
    /// An environment file path names nothing.
    NotFoundError,
    /// An environment file path names something other than a regular file.
    NotReadableError,
    /// An environment file does not follow `KEY=VALUE` syntax.
    FileFormatError,
    /// The target executable could not be started.
    SpawnError,
}

/// What resolution asks for: the environment files to source, in order, and
/// then the settings to write, in order (later writes win).
#[derive(Debug)]
pub struct Plan {
    pub global_envfile: Option<String>,
    pub app_envfile: Option<String>,
    pub settings: Vec<(String, String)>,
    /// Entries whose values were objects or arrays, and were left out.
    pub skipped: Vec<(String, Json)>,
}

/// A write list as sequences of characters.
pub open spec fn writes_view(w: Seq<(String, String)>) -> Seq<(Seq<char>, Seq<char>)> {
    w.map_values(|p: (String, String)| (p.0@, p.1@))
}

/// The writes an `env` object asks for, in entry order: each scalar entry under
/// its normalized key; objects and arrays are left out.
pub open spec fn scope_writes(es: Seq<(String, Json)>) -> Seq<(Seq<char>, Seq<char>)>
    decreases es.len(),
{
    if es.len() == 0 {
        Seq::empty()
    } else {
        let rest = scope_writes(es.drop_last());
        if is_nested(es.last().1) {
            rest
        } else {
            rest.push((normalized(es.last().0@), scalar_text(es.last().1)))
        }
    }
}

/// The entries of an `env` object whose values are objects or arrays.
pub open spec fn scope_skipped(es: Seq<(String, Json)>) -> Seq<(Seq<char>, Json)>
    decreases es.len(),
{
    if es.len() == 0 {
        Seq::empty()
    } else {
        let rest = scope_skipped(es.drop_last());
        if is_nested(es.last().1) {
            rest.push((es.last().0@, es.last().1))
        } else {
            rest
        }
    }
}

/// The entries of an optional object; none for anything else.
pub open spec fn entries_of(j: Option<Json>) -> Seq<(String, Json)> {
    match j {
        Some(Json::Object(es)) => es@,
        _ => Seq::empty(),
    }
}

/// The text of an optional string value; `None` for anything else.
pub open spec fn text_of(j: Option<Json>) -> Option<Seq<char>> {
    match j {
        Some(Json::Str(s)) => Some(s@),
        _ => None,
    }
}

/// The member `key` of the document's `apps[app]` scope.
pub open spec fn app_member(inner: Json, app: Seq<char>, key: Seq<char>) -> Option<Json> {
    match member(inner, "apps"@) {
        Some(apps) => match member(apps, app) {
            Some(scope) => member(scope, key),
            None => None,
        },
        None => None,
    }
}

/// The settings of the global scope followed by those of the app's scope.
pub open spec fn plan_writes(inner: Json, app: Seq<char>) -> Seq<(Seq<char>, Seq<char>)> {
    scope_writes(entries_of(member(inner, "env"@)))
        + scope_writes(entries_of(app_member(inner, app, "env"@)))
}

/// The skipped entries of the global scope followed by those of the app's scope.
pub open spec fn plan_skipped(inner: Json, app: Seq<char>) -> Seq<(Seq<char>, Json)> {
    scope_skipped(entries_of(member(inner, "env"@)))
        + scope_skipped(entries_of(app_member(inner, app, "env"@)))
}

/// Skipped entries with their keys as sequences of characters.
pub open spec fn skipped_view(s: Seq<(String, Json)>) -> Seq<(Seq<char>, Json)> {
    s.map_values(|p: (String, Json)| (p.0@, p.1))
}

/// The member `key` of an optional value.
pub open spec fn member_of(o: Option<Json>, key: Seq<char>) -> Option<Json> {
    match o {
        Some(j) => member(j, key),
        None => None,
    }
}

/// An optional string as an optional sequence of characters.
pub open spec fn opt_view(o: Option<String>) -> Option<Seq<char>> {
    match o {
        Some(s) => Some(s@),
        None => None,
    }
}

/// The plan is the one the inner document asks for, for the given app.
pub open spec fn plan_matches(p: Plan, inner: Json, app: Seq<char>) -> bool {
    &&& opt_view(p.global_envfile) == text_of(member(inner, "envfile"@))
    &&& opt_view(p.app_envfile) == text_of(app_member(inner, app, "envfile"@))
    &&& writes_view(p.settings@) == plan_writes(inner, app)
    &&& skipped_view(p.skipped@) == plan_skipped(inner, app)
}

/// The string at `result.stdout` of the outer document.
pub open spec fn stdout_of(doc: Json) -> Option<Seq<char>> {
    match member(doc, "result"@) {
        Some(r) => text_of(member(r, "stdout"@)),
        None => None,
    }
}

/// The inner document: `result.stdout` parsed as JSON.
pub open spec fn payload_of(doc: Json) -> Option<Json> {
    match stdout_of(doc) {
        Some(s) => json_of(encode_utf8(s)),
        None => None,
    }
}

/// The entries of an optional object, taken out of it; none for anything else.
fn object_entries(o: Option<Json>) -> (r: Vec<(String, Json)>)
    ensures
        r@ == entries_of(o),
{
    match o {
        Some(Json::Object(es)) => es,
        _ => Vec::new(),
    }
}

/// Takes the members `a` and, where its name differs, `b` out of an optional
/// object.
fn take_members(o: Option<Json>, a: &str, b: &str) -> (r: (Option<Json>, Option<Json>))
    ensures
        r.0 == member_of(o, a@),
        a@ != b@ ==> r.1 == member_of(o, b@),
{
    let ghost orig = entries_of(o);
    let mut es = object_entries(o);
    let mut ra: Option<Json> = None;
    let mut rb: Option<Json> = None;
    let ghost mut i: int = 0;
    assert(orig.take(0) =~= Seq::<(String, Json)>::empty());
    assert(es@ =~= orig.subrange(0, orig.len() as int));
    while es.len() > 0
        invariant
            0 <= i <= orig.len(),
            es@ == orig.subrange(i, orig.len() as int),
            ra == lookup(orig.take(i), a@),
            a@ != b@ ==> rb == lookup(orig.take(i), b@),
        decreases es.len(),
    {
        let e = es.remove(0);
        assert(e == orig[i]);
        assert(orig.take(i + 1).drop_last() =~= orig.take(i));
        assert(orig.take(i + 1).last() == orig[i]);
        let (k, v) = e;
        let is_a = same_text(k.as_str(), a);
        let is_b = same_text(k.as_str(), b);
        if is_a {
            ra = Some(v);
        } else if is_b {
            rb = Some(v);
        }
        proof {
            i = i + 1;
        }
        assert(es@ =~= orig.subrange(i, orig.len() as int));
    }
    assert(orig.take(orig.len() as int) =~= orig);
    (ra, rb)
}

/// Appends the writes and skipped entries of one `env` object, taking its
/// entries.
pub fn scope_settings(es: Vec<(String, Json)>, writes: &mut Vec<(String, String)>, skipped: &mut Vec<(String, Json)>)
    ensures
        writes_view(final(writes)@) == writes_view(old(writes)@) + scope_writes(es@),
        skipped_view(final(skipped)@) == skipped_view(old(skipped)@) + scope_skipped(es@),
{
    let ghost orig = es@;
    let mut es = es;
    let ghost mut i: int = 0;
    assert(orig.take(0) =~= Seq::<(String, Json)>::empty());
    assert(es@ =~= orig.subrange(0, orig.len() as int));
    assert(writes_view(writes@) =~= writes_view(old(writes)@) + scope_writes(orig.take(0)));
    assert(skipped_view(skipped@) =~= skipped_view(old(skipped)@) + scope_skipped(orig.take(0)));
    while es.len() > 0
        invariant
            0 <= i <= orig.len(),
            es@ == orig.subrange(i, orig.len() as int),
            writes_view(writes@) == writes_view(old(writes)@) + scope_writes(orig.take(i)),
            skipped_view(skipped@) == skipped_view(old(skipped)@) + scope_skipped(orig.take(i)),
        decreases es.len(),
    {
        let ghost prev_w = writes@;
        let ghost prev_s = skipped@;
        let e = es.remove(0);
        assert(e == orig[i]);
        assert(orig.take(i + 1).drop_last() =~= orig.take(i));
        assert(orig.take(i + 1).last() == orig[i]);
        let (k, v) = e;
        match setting_text(&v) {
            Some(t) => {
                let n = normalize_key(k.as_str());
                writes.push((n, t));
                assert(writes_view(writes@) =~= writes_view(prev_w).push((normalized(orig[i].0@), scalar_text(orig[i].1))));
            },
            None => {
                skipped.push((k, v));
                assert(skipped_view(skipped@) =~= skipped_view(prev_s).push((orig[i].0@, orig[i].1)));
            },
        }
        proof {
            i = i + 1;
        }
        assert(es@ =~= orig.subrange(i, orig.len() as int));
    }
    assert(orig.take(orig.len() as int) =~= orig);
}

/// Parses the control plane's answer as one JSON document.
pub fn parse_response(body: &[u8]) -> (r: Result<Json, ResolveError>)
    ensures
        json_of(body@) is None ==> r == Err::<Json, ResolveError>(ResolveError::ProtocolError),
        json_of(body@) is Some ==> r == Ok::<Json, ResolveError>(json_of(body@)->Some_0),
{
    match parse_json(body) {
        Some(j) => Ok(j),
        None => Err(ResolveError::ProtocolError),
    }
}

/// Reads `result.stdout` as a string and parses it as the inner document.
pub fn extract_payload(doc: &Json) -> (r: Result<Json, ResolveError>)
    ensures
        payload_of(*doc) is None ==> r == Err::<Json, ResolveError>(ResolveError::PayloadError),
        payload_of(*doc) is Some ==> r == Ok::<Json, ResolveError>(payload_of(*doc)->Some_0),
{
    let res = match get_member(doc, "result") {
        Some(r) => r,
        None => return Err(ResolveError::PayloadError),
    };
    match get_member(res, "stdout") {
        Some(Json::Str(s)) => match parse_json(s.as_str().as_bytes()) {
            Some(j) => Ok(j),
            None => Err(ResolveError::PayloadError),
        },
        _ => Err(ResolveError::PayloadError),
    }
}

/// The text of an optional string member.
fn member_text(j: Option<&Json>) -> (r: Option<String>)
    ensures
        opt_view(r) == text_of(match j { Some(v) => Some(*v), None => None }),
{
    match j {
        Some(Json::Str(s)) => Some(s.clone()),
        _ => None,
    }
}

/// The member `key` of the `apps[app]` scope of the inner document.
fn get_app_member<'a>(inner: &'a Json, app: &str, key: &str) -> (r: Option<&'a Json>)
    ensures
        app_member(*inner, app@, key@) == match r { Some(v) => Some(*v), None => None },
{
    match get_member(inner, "apps") {
        Some(apps) => match get_member(apps, app) {
            Some(scope) => get_member(scope, key),
            None => None,
        },
        None => None,
    }
}

/// The plan the inner document asks for, for the given app: the global
/// environment file, then the app's, then the global settings, then the app's.
pub fn plan_for(app: &str, inner: Json) -> (p: Plan)
    ensures
        plan_matches(p, inner, app@),
{
    let ghost doc = inner;
    let global_envfile = member_text(get_member(&inner, "envfile"));
    let app_envfile = member_text(get_app_member(&inner, app, "envfile"));
    proof {
        reveal_strlit("env");
        reveal_strlit("apps");
        assert("env"@.len() != "apps"@.len());
    }
    let (global_env, apps) = take_members(Some(inner), "env", "apps");
    let (scope, _) = take_members(apps, app, app);
    let (app_env, _) = take_members(scope, "env", "env");
    assert(apps == member(doc, "apps"@));
    assert(app_env == app_member(doc, app@, "env"@));
    let mut settings: Vec<(String, String)> = Vec::new();
    let mut skipped: Vec<(String, Json)> = Vec::new();
    assert(writes_view(settings@) =~= Seq::<(Seq<char>, Seq<char>)>::empty());
    assert(skipped_view(skipped@) =~= Seq::<(Seq<char>, Json)>::empty());
    scope_settings(object_entries(global_env), &mut settings, &mut skipped);
    scope_settings(object_entries(app_env), &mut settings, &mut skipped);
    Plan { global_envfile, app_envfile, settings, skipped }
}

/// Resolves the control plane's answer for the given app.
pub fn resolve(app: &str, doc: &Json) -> (r: Result<Plan, ResolveError>)
    ensures
        payload_of(*doc) is None <==> r == Err::<Plan, ResolveError>(ResolveError::PayloadError),
        payload_of(*doc) is Some <==> r is Ok,
        r is Ok ==> plan_matches(r->Ok_0, payload_of(*doc)->Some_0, app@),
{
    let inner = extract_payload(doc)?;
    Ok(plan_for(app, inner))
}

/// Decides whether an environment file path may be sourced: it must name an
/// existing entry, and that entry must be a regular file.
pub fn envfile_check(exists: bool, is_regular_file: bool) -> (r: Result<(), ResolveError>)
    ensures
        !exists ==> r == Err::<(), ResolveError>(ResolveError::NotFoundError),
        exists && !is_regular_file ==> r == Err::<(), ResolveError>(ResolveError::NotReadableError),
        exists && is_regular_file ==> r == Ok::<(), ResolveError>(()),
{
    if !exists {
        Err(ResolveError::NotFoundError)
    } else if !is_regular_file {
        Err(ResolveError::NotReadableError)
    } else {
        Ok(())
    }
}

/// The writes to apply, in order: those sourced from environment files first,
/// then the settings, so that a setting replaces a file's value for its key.
pub fn environment_writes(file_writes: Vec<(String, String)>, settings: Vec<(String, String)>) -> (r: Vec<(String, String)>)
    ensures
        writes_view(r@) == writes_view(file_writes@) + writes_view(settings@),
{
    let mut all = file_writes;
    let mut rest = settings;
    let ghost a = all@;
    let ghost b = rest@;
    all.append(&mut rest);
    assert(writes_view(all@) =~= writes_view(a) + writes_view(b));
    all
}

} // verus!
