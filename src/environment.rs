//! The environment a list of writes leaves behind, and what resolution
//! guarantees of it.
use vstd::prelude::*;
use crate::json::{Json, is_nested, scalar_text, member};
use crate::text::{normalized, all_ascii, ascii_upper, hyphens_to_underscores};
use crate::resolve::{scope_writes, plan_writes, entries_of, app_member};

verus! {

/// The variables set after applying the writes in order: a later write to a
/// key replaces an earlier one.
pub open spec fn env_after(w: Seq<(Seq<char>, Seq<char>)>) -> Map<Seq<char>, Seq<char>>
    decreases w.len(),
{
    if w.len() == 0 {
        Map::empty()
    } else {
        env_after(w.drop_last()).insert(w.last().0, w.last().1)
    }
}

/// The global settings of an inner document.
pub open spec fn global_writes(inner: Json) -> Seq<(Seq<char>, Seq<char>)> {
    scope_writes(entries_of(member(inner, "env"@)))
}

/// The settings of an app's scope in an inner document.
pub open spec fn app_writes(inner: Json, app: Seq<char>) -> Seq<(Seq<char>, Seq<char>)> {
    scope_writes(entries_of(app_member(inner, app, "env"@)))
}

/// Writes applied after others win: applying `a` and then `b` leaves each key
/// that `b` sets with `b`'s value, and every other key as `a` left it.
pub proof fn lemma_later_writes_win(a: Seq<(Seq<char>, Seq<char>)>, b: Seq<(Seq<char>, Seq<char>)>)
    ensures
        env_after(a + b) == env_after(a).union_prefer_right(env_after(b)),
    decreases b.len(),
{
    if b.len() == 0 {
        assert(a + b =~= a);
        assert(env_after(a).union_prefer_right(env_after(b)) =~= env_after(a));
    } else {
        assert((a + b).drop_last() =~= a + b.drop_last());
        assert((a + b).last() == b.last());
        lemma_later_writes_win(a, b.drop_last());
        assert(env_after(a + b) =~= env_after(a).union_prefer_right(env_after(b)));
    }
}

/// Some scalar entry of `es` has a key that normalizes to `k`.
pub open spec fn set_by_entry(es: Seq<(String, Json)>, k: Seq<char>) -> bool {
    exists|i: int| 0 <= i < es.len() && !is_nested(es[i].1) && normalized(#[trigger] es[i].0@) == k
}

/// Every key that a scope's writes set is the normalized key of one of its
/// scalar entries, whose text is the value, unless a later write replaced it.
pub proof fn lemma_keys_are_normalized(es: Seq<(String, Json)>, k: Seq<char>)
    requires
        env_after(scope_writes(es)).contains_key(k),
    ensures
        set_by_entry(es, k),
    decreases es.len(),
{
    let rest = es.drop_last();
    if is_nested(es.last().1) {
        assert(scope_writes(es) == scope_writes(rest));
    } else {
        assert(scope_writes(es).drop_last() =~= scope_writes(rest));
    }
    if !is_nested(es.last().1) && normalized(es.last().0@) == k {
        assert(!is_nested(es[es.len() - 1].1) && normalized(es[es.len() - 1].0@) == k);
    } else {
        lemma_keys_are_normalized(rest, k);
        let i = choose|i: int| 0 <= i < rest.len() && !is_nested(rest[i].1) && normalized(rest[i].0@) == k;
        assert(es[i] == rest[i]);
    }
}

/// With disjoint key sets, the global and app scopes together set exactly the
/// union of both, each key to its own scope's value, every key normalized.
pub proof fn law_disjoint_scopes_union(inner: Json, app: Seq<char>)
    requires
        env_after(global_writes(inner)).dom().disjoint(env_after(app_writes(inner, app)).dom()),
    ensures
        env_after(plan_writes(inner, app)).dom() == env_after(global_writes(inner)).dom()
            + env_after(app_writes(inner, app)).dom(),
        forall|k: Seq<char>| #[trigger] env_after(global_writes(inner)).contains_key(k)
            ==> env_after(plan_writes(inner, app))[k] == env_after(global_writes(inner))[k],
        forall|k: Seq<char>| #[trigger] env_after(app_writes(inner, app)).contains_key(k)
            ==> env_after(plan_writes(inner, app))[k] == env_after(app_writes(inner, app))[k],
        forall|k: Seq<char>| #[trigger] env_after(plan_writes(inner, app)).contains_key(k)
            ==> set_by_entry(entries_of(member(inner, "env"@)), k)
                || set_by_entry(entries_of(app_member(inner, app, "env"@)), k),
{
    let g = global_writes(inner);
    let a = app_writes(inner, app);
    lemma_later_writes_win(g, a);
    assert(env_after(plan_writes(inner, app)).dom() =~= env_after(g).dom() + env_after(a).dom());
    assert forall|k: Seq<char>| #[trigger] env_after(plan_writes(inner, app)).contains_key(k)
        implies set_by_entry(entries_of(member(inner, "env"@)), k)
            || set_by_entry(entries_of(app_member(inner, app, "env"@)), k) by {
        if env_after(a).contains_key(k) {
            lemma_keys_are_normalized(entries_of(app_member(inner, app, "env"@)), k);
        } else {
            lemma_keys_are_normalized(entries_of(member(inner, "env"@)), k);
        }
    }
}

/// A key set in the app's scope takes the app's value, whatever the global
/// scope sets it to.
pub proof fn law_app_scope_wins(inner: Json, app: Seq<char>, k: Seq<char>)
    requires
        env_after(app_writes(inner, app)).contains_key(k),
    ensures
        env_after(plan_writes(inner, app)).contains_key(k),
        env_after(plan_writes(inner, app))[k] == env_after(app_writes(inner, app))[k],
{
    lemma_later_writes_win(global_writes(inner), app_writes(inner, app));
}

/// Environment files are sourced before the settings are written (the order
/// `environment_writes` returns), so a key that the settings set takes the
/// settings' value, whatever the files set.
pub proof fn law_inline_wins_over_files(
    file_writes: Seq<(Seq<char>, Seq<char>)>,
    inner: Json,
    app: Seq<char>,
    k: Seq<char>,
)
    requires
        env_after(plan_writes(inner, app)).contains_key(k),
    ensures
        env_after(file_writes + plan_writes(inner, app)).contains_key(k),
        env_after(file_writes + plan_writes(inner, app))[k] == env_after(plan_writes(inner, app))[k],
{
    lemma_later_writes_win(file_writes, plan_writes(inner, app));
}

/// Normalizing an already normalized ASCII key changes nothing.
pub proof fn law_normalize_idempotent(k: Seq<char>)
    requires
        all_ascii(k),
    ensures
        normalized(normalized(k)) == normalized(k),
{
    let n = normalized(k);
    assert(n == hyphens_to_underscores(ascii_upper(k)));
    assert(all_ascii(n));
    assert(ascii_upper(n) =~= n);
    assert(hyphens_to_underscores(n) =~= n);
}

/// Of the scalar entries whose keys normalize alike, the last one in entry
/// order gives the value.
pub proof fn law_last_entry_wins(es: Seq<(String, Json)>, j: int)
    requires
        0 <= j < es.len(),
        !is_nested(es[j].1),
        forall|m: int| j < m < es.len() && !is_nested(es[m].1)
            ==> normalized(#[trigger] es[m].0@) != normalized(es[j].0@),
    ensures
        env_after(scope_writes(es)).contains_key(normalized(es[j].0@)),
        env_after(scope_writes(es))[normalized(es[j].0@)] == scalar_text(es[j].1),
    decreases es.len(),
{
    let rest = es.drop_last();
    if is_nested(es.last().1) {
        assert(scope_writes(es) == scope_writes(rest));
    } else {
        assert(scope_writes(es).drop_last() =~= scope_writes(rest));
    }
    if j < es.len() - 1 {
        assert forall|m: int| j < m < rest.len() && !is_nested(rest[m].1)
            implies normalized(#[trigger] rest[m].0@) != normalized(rest[j].0@) by {
            assert(rest[m] == es[m]);
        }
        law_last_entry_wins(rest, j);
        assert(es[es.len() - 1] == es.last());
    }
}

/// A key whose every entry holds an object or an array is not set.
pub proof fn law_nested_values_skipped(es: Seq<(String, Json)>, k: Seq<char>)
    requires
        forall|i: int| 0 <= i < es.len() && normalized(#[trigger] es[i].0@) == k ==> is_nested(es[i].1),
    ensures
        !env_after(scope_writes(es)).contains_key(k),
{
    if env_after(scope_writes(es)).contains_key(k) {
        lemma_keys_are_normalized(es, k);
    }
}

/// A scalar entry of the app's scope, the last there whose key normalizes
/// alike, sets its normalized key to its own text, whatever the global scope holds.
pub proof fn law_app_entry_wins(inner: Json, app: Seq<char>, j: int)
    requires
        0 <= j < entries_of(app_member(inner, app, "env"@)).len(),
        !is_nested(entries_of(app_member(inner, app, "env"@))[j].1),
        forall|m: int| j < m < entries_of(app_member(inner, app, "env"@)).len()
            && !is_nested(entries_of(app_member(inner, app, "env"@))[m].1)
            ==> normalized(#[trigger] entries_of(app_member(inner, app, "env"@))[m].0@)
                != normalized(entries_of(app_member(inner, app, "env"@))[j].0@),
    ensures
        env_after(plan_writes(inner, app)).contains_key(normalized(entries_of(app_member(inner, app, "env"@))[j].0@)),
        env_after(plan_writes(inner, app))[normalized(entries_of(app_member(inner, app, "env"@))[j].0@)]
            == scalar_text(entries_of(app_member(inner, app, "env"@))[j].1),
{
    let aes = entries_of(app_member(inner, app, "env"@));
    law_last_entry_wins(aes, j);
    law_app_scope_wins(inner, app, normalized(aes[j].0@));
}

/// A scalar entry of the global scope, the last there whose key normalizes
/// alike, sets its normalized key to its own text where no scalar entry of the
/// app's scope normalizes to that key.
pub proof fn law_global_entry_kept(inner: Json, app: Seq<char>, j: int)
    requires
        0 <= j < entries_of(member(inner, "env"@)).len(),
        !is_nested(entries_of(member(inner, "env"@))[j].1),
        forall|m: int| j < m < entries_of(member(inner, "env"@)).len()
            && !is_nested(entries_of(member(inner, "env"@))[m].1)
            ==> normalized(#[trigger] entries_of(member(inner, "env"@))[m].0@)
                != normalized(entries_of(member(inner, "env"@))[j].0@),
        !set_by_entry(entries_of(app_member(inner, app, "env"@)), normalized(entries_of(member(inner, "env"@))[j].0@)),
    ensures
        env_after(plan_writes(inner, app)).contains_key(normalized(entries_of(member(inner, "env"@))[j].0@)),
        env_after(plan_writes(inner, app))[normalized(entries_of(member(inner, "env"@))[j].0@)]
            == scalar_text(entries_of(member(inner, "env"@))[j].1),
{
    let ges = entries_of(member(inner, "env"@));
    let k = normalized(ges[j].0@);
    law_last_entry_wins(ges, j);
    lemma_later_writes_win(global_writes(inner), app_writes(inner, app));
    if env_after(app_writes(inner, app)).contains_key(k) {
        lemma_keys_are_normalized(entries_of(app_member(inner, app, "env"@)), k);
    }
}

/// A key whose every entry, in the global scope and in the app's, holds an
/// object or an array is not set by the settings.
pub proof fn law_nested_values_skipped_in_both_scopes(inner: Json, app: Seq<char>, k: Seq<char>)
    requires
        forall|i: int| 0 <= i < entries_of(member(inner, "env"@)).len()
            && normalized(#[trigger] entries_of(member(inner, "env"@))[i].0@) == k
            ==> is_nested(entries_of(member(inner, "env"@))[i].1),
        forall|i: int| 0 <= i < entries_of(app_member(inner, app, "env"@)).len()
            && normalized(#[trigger] entries_of(app_member(inner, app, "env"@))[i].0@) == k
            ==> is_nested(entries_of(app_member(inner, app, "env"@))[i].1),
    ensures
        !env_after(plan_writes(inner, app)).contains_key(k),
{
    law_nested_values_skipped(entries_of(member(inner, "env"@)), k);
    law_nested_values_skipped(entries_of(app_member(inner, app, "env"@)), k);
    lemma_later_writes_win(global_writes(inner), app_writes(inner, app));
}

} // verus!
