//! Idempotent injection and removal of the integration hooks inside the
//! live settings document's nested hook-event structure.
//!
//! The document's `hooks` object maps each hook event name to an array of
//! entries; each entry may hold a `hooks` array of command objects. An
//! injected command object is tagged with a private marker field, and it
//! is the marker — not the whole entry's value — that detection scans
//! for, so that injecting twice changes nothing.

use vstd::prelude::*;
use crate::errors::StoreError;
use crate::json::{
    clone_elems, clone_entries, entries_lookup, entries_remove, entries_set, jv_get,
    jv_of_entries, jv_of_seq, lookup, obj_remove, obj_set, Json, Jv,
};
use crate::live::{JsonDoc, JsonDocV};
use crate::store::SystemState;

verus! {

/// The private field that tags an injected hook command object.
pub open spec fn marker_key() -> Seq<char> {
    "__ccmate__"@
}

/// The key under which the document and each entry keep their hooks.
pub open spec fn hooks_key() -> Seq<char> {
    "hooks"@
}

/// The hook event names that the integration subscribes to.
pub open spec fn event_names() -> Seq<Seq<char>> {
    seq!["Notification"@, "Stop"@, "PreToolUse"@]
}

/// Whether a hook command object carries the marker field.
pub open spec fn is_marker_hook(h: Jv) -> bool {
    jv_get(h, marker_key()) is Some
}

/// Whether an entry's `hooks` array holds a marker-tagged command.
pub open spec fn entry_has_marker(e: Jv) -> bool {
    match jv_get(e, hooks_key()) {
        Some(Jv::Arr(hs)) => exists|i: int| 0 <= i < hs.len() && is_marker_hook(hs[i]),
        _ => false,
    }
}

/// Whether some entry of an event's array holds a marker-tagged command.
pub open spec fn some_entry_has_marker(a: Seq<Jv>) -> bool {
    exists|i: int| 0 <= i < a.len() && entry_has_marker(a[i])
}

/// The entry that injection appends: a `hooks` array holding the command.
pub open spec fn wrapper_entry_v(cmd: Jv) -> Jv {
    Jv::Obj(seq![(hooks_key(), Jv::Arr(seq![cmd]))])
}

/// The array an event maps to; an absent event reads as an empty array.
pub open spec fn event_arr(he: Seq<(Seq<char>, Jv)>, e: Seq<char>) -> Seq<Jv> {
    match lookup(he, e) {
        Some(Jv::Arr(a)) => a,
        _ => Seq::empty(),
    }
}

/// One event after injection: its array gains a wrapper entry holding
/// the command unless some entry already carries the marker.
pub open spec fn add_event(
    he: Seq<(Seq<char>, Jv)>,
    e: Seq<char>,
    cmd: Jv,
) -> Seq<(Seq<char>, Jv)> {
    let a = event_arr(he, e);
    let a2 = if some_entry_has_marker(a) {
        a
    } else {
        a.push(wrapper_entry_v(cmd))
    };
    obj_set(he, e, Jv::Arr(a2))
}

/// The entries of the document's `hooks` object; absent reads as empty.
pub open spec fn hooks_entries(d: Seq<(Seq<char>, Jv)>) -> Seq<(Seq<char>, Jv)> {
    match lookup(d, hooks_key()) {
        Some(Jv::Obj(he)) => he,
        _ => Seq::empty(),
    }
}

/// The document after injection: every event of `event_names` holds a
/// marker-tagged entry, everything else is untouched.
pub open spec fn with_hooks_added(d: Seq<(Seq<char>, Jv)>, cmd: Jv) -> Seq<(Seq<char>, Jv)> {
    let he0 = hooks_entries(d);
    let he1 = add_event(he0, "Notification"@, cmd);
    let he2 = add_event(he1, "Stop"@, cmd);
    let he3 = add_event(he2, "PreToolUse"@, cmd);
    obj_set(d, hooks_key(), Jv::Obj(he3))
}

/// Whether an event's value, if present, is an array, as injection
/// requires.
pub open spec fn event_ok(he: Seq<(Seq<char>, Jv)>, e: Seq<char>) -> bool {
    match lookup(he, e) {
        None => true,
        Some(Jv::Arr(_)) => true,
        Some(_) => false,
    }
}

/// Whether the document's `hooks` value, if present, is an object whose
/// event values are arrays, as injection requires.
pub open spec fn hook_shape_ok(d: Seq<(Seq<char>, Jv)>) -> bool {
    match lookup(d, hooks_key()) {
        None => true,
        Some(Jv::Obj(he)) => event_ok(he, "Notification"@) && event_ok(he, "Stop"@) && event_ok(
            he,
            "PreToolUse"@,
        ),
        Some(_) => false,
    }
}

/// The top-level entries of a live document that injection can edit; an
/// absent document reads as an empty object.
pub open spec fn live_entries(l: JsonDocV) -> Seq<(Seq<char>, Jv)> {
    match l {
        JsonDocV::Present(Jv::Obj(es)) => es,
        _ => Seq::empty(),
    }
}

/// Whether the live document can be edited as an object: it is absent
/// (an empty object is made) or holds an object.
pub open spec fn live_editable(l: JsonDocV) -> bool {
    match l {
        JsonDocV::Absent => true,
        JsonDocV::Malformed => false,
        JsonDocV::Present(j) => j is Obj,
    }
}

/// The command object that the hooks run: a marker-tagged shell
/// invocation that posts the hook's payload to the local integration
/// endpoint, phrased for the platform.
pub open spec fn hook_command_v(windows: bool) -> Jv {
    Jv::Obj(
        seq![
            (marker_key(), Jv::Bool(true)),
            ("type"@, Jv::Str("command"@)),
            ("command"@, Jv::Str(if windows {
                windows_command()
            } else {
                posix_command()
            })),
        ],
    )
}

pub open spec fn windows_command() -> Seq<char> {
    "try { Invoke-RestMethod -Uri http://localhost:59948/claude_code/hooks -Method POST -ContentType 'application/json' -Body $input -ErrorAction Stop } catch { '' }"@
}

pub open spec fn posix_command() -> Seq<char> {
    "curl -s -X POST http://localhost:59948/claude_code/hooks -H 'Content-Type: application/json' --data-binary @- 2>/dev/null || echo"@
}

/// The command object that the hooks run, for the given platform.
pub fn hook_command(windows: bool) -> (r: Json)
    ensures
        r@ == hook_command_v(windows),
{
    let mut es: Vec<(String, Json)> = Vec::new();
    es.push(("__ccmate__".to_owned(), Json::Bool(true)));
    es.push(("type".to_owned(), Json::Str("command".to_owned())));
    if windows {
        es.push(
            (
                "command".to_owned(),
                Json::Str(
                    "try { Invoke-RestMethod -Uri http://localhost:59948/claude_code/hooks -Method POST -ContentType 'application/json' -Body $input -ErrorAction Stop } catch { '' }".to_owned(),
                ),
            ),
        );
    } else {
        es.push(
            (
                "command".to_owned(),
                Json::Str(
                    "curl -s -X POST http://localhost:59948/claude_code/hooks -H 'Content-Type: application/json' --data-binary @- 2>/dev/null || echo".to_owned(),
                ),
            ),
        );
    }
    let r = Json::Obj(es);
    proof {
        let rs = jv_of_entries(es@);
        assert(rs.len() == 3);
        assert(rs[0] == (marker_key(), Jv::Bool(true)));
        assert(rs[1] == ("type"@, Jv::Str("command"@)));
        if windows {
            assert(rs[2] == ("command"@, Jv::Str(windows_command())));
        } else {
            assert(rs[2] == ("command"@, Jv::Str(posix_command())));
        }
        assert(rs =~= hook_command_v(windows)->Obj_0);
        assert(r@ == hook_command_v(windows));
    }
    r
}

/// Whether a hook command object carries the marker field.
fn json_is_marker(h: &Json) -> (r: bool)
    ensures
        r == is_marker_hook(h@),
{
    match h {
        Json::Obj(hes) => {
            let key = "__ccmate__".to_owned();
            entries_lookup(hes, &key).is_some()
        },
        _ => false,
    }
}

/// Whether an entry's `hooks` array holds a marker-tagged command.
#[verifier::loop_isolation(false)]
fn json_entry_has_marker(e: &Json) -> (r: bool)
    ensures
        r == entry_has_marker(e@),
{
    match e {
        Json::Obj(ees) => {
            let key = "hooks".to_owned();
            match entries_lookup(ees, &key) {
                Some(Json::Arr(hs)) => {
                    let mut i: usize = 0;
                    while i < hs.len()
                        invariant
                            i <= hs.len(),
                            forall|m: int| 0 <= m < i ==> !is_marker_hook(jv_of_seq(hs@)[m]),
                        decreases hs.len() - i,
                    {
                        if json_is_marker(&hs[i]) {
                            proof {
                                assert(is_marker_hook(jv_of_seq(hs@)[i as int]));
                            }
                            return true;
                        }
                        i = i + 1;
                    }
                    false
                },
                _ => false,
            }
        },
        _ => false,
    }
}

/// Whether some entry of an event's array holds a marker-tagged command.
#[verifier::loop_isolation(false)]
fn json_some_entry_has_marker(a: &Vec<Json>) -> (r: bool)
    ensures
        r == some_entry_has_marker(jv_of_seq(a@)),
{
    let mut i: usize = 0;
    while i < a.len()
        invariant
            i <= a.len(),
            forall|m: int| 0 <= m < i ==> !entry_has_marker(jv_of_seq(a@)[m]),
        decreases a.len() - i,
    {
        if json_entry_has_marker(&a[i]) {
            proof {
                assert(entry_has_marker(jv_of_seq(a@)[i as int]));
            }
            return true;
        }
        i = i + 1;
    }
    false
}

/// The entry that injection appends, holding the command.
fn wrapper_entry(cmd: Json) -> (r: Json)
    ensures
        r@ == wrapper_entry_v(cmd@),
{
    let ghost cmdv = cmd@;
    let mut hs: Vec<Json> = Vec::new();
    hs.push(cmd);
    let mut es: Vec<(String, Json)> = Vec::new();
    es.push(("hooks".to_owned(), Json::Arr(hs)));
    let r = Json::Obj(es);
    proof {
        assert(jv_of_seq(hs@) =~= seq![cmdv]);
        let rs = jv_of_entries(es@);
        assert(rs.len() == 1);
        assert(rs[0] == (hooks_key(), Jv::Arr(seq![cmdv])));
        assert(rs =~= wrapper_entry_v(cmdv)->Obj_0);
        assert(r@ == wrapper_entry_v(cmdv));
    }
    r
}

/// Inject the integration's entry into one event's array, unless some
/// entry of that array already carries the marker.
#[verifier::loop_isolation(false)]
fn apply_add_event(he: &mut Vec<(String, Json)>, event: &String, windows: bool)
    requires
        event_ok(jv_of_entries(old(he)@), event@),
    ensures
        jv_of_entries(final(he)@) == add_event(jv_of_entries(old(he)@), event@, hook_command_v(windows)),
{
    let ghost hv = jv_of_entries(he@);
    let mut arr: Vec<Json> = match entries_lookup(he, event) {
        None => Vec::new(),
        Some(j) => match j {
            Json::Arr(a) => clone_elems(a),
            _ => {
                proof {
                    assert(false);
                }
                Vec::new()
            },
        },
    };
    proof {
        assert(jv_of_seq(arr@) =~= event_arr(hv, event@));
    }
    if !json_some_entry_has_marker(&arr) {
        let cmd = hook_command(windows);
        let w = wrapper_entry(cmd);
        let ghost av = jv_of_seq(arr@);
        arr.push(w);
        proof {
            assert(jv_of_seq(arr@) =~= av.push(wrapper_entry_v(hook_command_v(windows))));
        }
    }
    entries_set(he, event.clone(), Json::Arr(arr));
}

/// Add the integration's hooks to the live settings document: after the
/// call, each of the fixed hook events holds exactly the marker-tagged
/// entries it already had, plus one fresh wrapper entry where it had
/// none. Fails with `MalformedInput`, changing nothing, when the live
/// settings document cannot be parsed, is not a JSON object, or holds a
/// `hooks` value that is not an object of arrays. The store document is
/// never touched.
pub fn add_claude_code_hook(state: &mut SystemState, windows: bool) -> (r: Result<(), StoreError>)
    ensures
        final(state)@.store == old(state)@.store,
        match r {
            Ok(_) => {
                &&& live_editable(old(state)@.live)
                &&& hook_shape_ok(live_entries(old(state)@.live))
                &&& final(state)@.live == JsonDocV::Present(
                    Jv::Obj(
                        with_hooks_added(live_entries(old(state)@.live), hook_command_v(windows)),
                    ),
                )
            },
            Err(e) => {
                &&& final(state)@ == old(state)@
                &&& e == StoreError::MalformedInput
                &&& !(live_editable(old(state)@.live) && hook_shape_ok(
                    live_entries(old(state)@.live),
                ))
            },
        },
{
    let mut taken = JsonDoc::Absent;
    core::mem::swap(&mut state.live, &mut taken);
    let (mut es, was_absent): (Vec<(String, Json)>, bool) = match taken {
        JsonDoc::Malformed => {
            state.live = JsonDoc::Malformed;
            return Err(StoreError::MalformedInput);
        },
        JsonDoc::Absent => (Vec::new(), true),
        JsonDoc::Present(j) => match j {
            Json::Obj(es) => (es, false),
            other => {
                state.live = JsonDoc::Present(other);
                return Err(StoreError::MalformedInput);
            },
        },
    };
    let ghost d0 = jv_of_entries(es@);
    proof {
        assert(d0 == live_entries(old(state)@.live));
    }
    let hooks_k = "hooks".to_owned();
    let mut he: Vec<(String, Json)> = match entries_lookup(&es, &hooks_k) {
        None => Vec::new(),
        Some(j) => match j {
            Json::Obj(hes) => clone_entries(hes),
            _ => {
                if was_absent {
                    state.live = JsonDoc::Absent;
                } else {
                    state.live = JsonDoc::Present(Json::Obj(es));
                }
                return Err(StoreError::MalformedInput);
            },
        },
    };
    proof {
        assert(jv_of_entries(he@) =~= hooks_entries(d0));
    }
    // The three event values must be arrays (or absent) before anything
    // is edited, so that a malformed document is left exactly as it was.
    let ev_notification = "Notification".to_owned();
    let ev_stop = "Stop".to_owned();
    let ev_pre = "PreToolUse".to_owned();
    let shape_ok = match entries_lookup(&he, &ev_notification) {
        None => true,
        Some(j) => j.is_arr(),
    } && match entries_lookup(&he, &ev_stop) {
        None => true,
        Some(j) => j.is_arr(),
    } && match entries_lookup(&he, &ev_pre) {
        None => true,
        Some(j) => j.is_arr(),
    };
    if !shape_ok {
        if was_absent {
            state.live = JsonDoc::Absent;
        } else {
            state.live = JsonDoc::Present(Json::Obj(es));
        }
        return Err(StoreError::MalformedInput);
    }
    proof {
        lemma_event_names_distinct();
    }
    apply_add_event(&mut he, &ev_notification, windows);
    proof {
        lemma_add_event_other(hooks_entries(d0), ev_notification@, hook_command_v(windows), ev_stop@);
        lemma_add_event_other(hooks_entries(d0), ev_notification@, hook_command_v(windows), ev_pre@);
    }
    apply_add_event(&mut he, &ev_stop, windows);
    proof {
        lemma_event_names_distinct();
        lemma_add_event_other(
            add_event(hooks_entries(d0), ev_notification@, hook_command_v(windows)),
            ev_stop@,
            hook_command_v(windows),
            ev_pre@,
        );
    }
    apply_add_event(&mut he, &ev_pre, windows);
    entries_set(&mut es, hooks_k, Json::Obj(he));
    state.live = JsonDoc::Present(Json::Obj(es));
    Ok(())
}

/// The three hook event names are pairwise distinct.
pub proof fn lemma_event_names_distinct()
    ensures
        "Notification"@ != "Stop"@,
        "Notification"@ != "PreToolUse"@,
        "Stop"@ != "PreToolUse"@,
{
    reveal_strlit("Notification");
    reveal_strlit("Stop");
    reveal_strlit("PreToolUse");
    assert("Notification"@.len() == 12);
    assert("Stop"@.len() == 4);
    assert("PreToolUse"@.len() == 10);
}

/// Injecting into one event leaves every other key's value untouched.
proof fn lemma_add_event_other(he: Seq<(Seq<char>, Jv)>, e: Seq<char>, cmd: Jv, other: Seq<char>)
    requires
        other != e,
    ensures
        lookup(add_event(he, e, cmd), other) == lookup(he, other),
        event_ok(he, other) ==> event_ok(add_event(he, e, cmd), other),
{
    let a = event_arr(he, e);
    let a2 = if some_entry_has_marker(a) {
        a
    } else {
        a.push(wrapper_entry_v(cmd))
    };
    crate::json::lemma_lookup_obj_set(he, e, Jv::Arr(a2), other);
}

impl Json {
    /// Whether the value is an array.
    pub fn is_arr(&self) -> (r: bool)
        ensures
            r == (self@ is Arr),
    {
        match self {
            Json::Arr(_) => true,
            _ => false,
        }
    }
}

} // verus!

verus! {

/// Keeps the hook commands that do not carry the marker.
pub open spec fn keep_hook() -> spec_fn(Jv) -> bool {
    |h: Jv| !is_marker_hook(h)
}

/// An entry after its marker-tagged commands are dropped; an entry
/// without a hooks array is kept as it stands.
pub open spec fn strip_entry(e: Jv) -> Jv {
    match e {
        Jv::Obj(ees) => match lookup(ees, hooks_key()) {
            Some(Jv::Arr(hs)) => Jv::Obj(
                obj_set(ees, hooks_key(), Jv::Arr(hs.filter(keep_hook()))),
            ),
            _ => e,
        },
        _ => e,
    }
}

/// Whether an entry survives removal: it does unless its hooks array
/// holds nothing but marker-tagged commands.
pub open spec fn keep_entry(e: Jv) -> bool {
    match e {
        Jv::Obj(ees) => match lookup(ees, hooks_key()) {
            Some(Jv::Arr(hs)) => hs.filter(keep_hook()).len() > 0,
            _ => true,
        },
        _ => true,
    }
}

pub open spec fn keep_entry_pred() -> spec_fn(Jv) -> bool {
    |e: Jv| keep_entry(e)
}

pub open spec fn strip_fn() -> spec_fn(Jv) -> Jv {
    |e: Jv| strip_entry(e)
}

/// An event's array after removal: entries stripped of marker-tagged
/// commands, entries left empty by that dropped.
pub open spec fn remove_event_arr(a: Seq<Jv>) -> Seq<Jv> {
    a.filter(keep_entry_pred()).map_values(strip_fn())
}

/// One event after removal: its array is filtered, and the event key
/// itself is dropped when the array becomes empty.
pub open spec fn remove_event(he: Seq<(Seq<char>, Jv)>, e: Seq<char>) -> Seq<(Seq<char>, Jv)> {
    match lookup(he, e) {
        Some(Jv::Arr(a)) => {
            let a2 = remove_event_arr(a);
            if a2.len() == 0 {
                obj_remove(he, e)
            } else {
                obj_set(he, e, Jv::Arr(a2))
            }
        },
        _ => he,
    }
}

/// The document after removal: each event is filtered, and the `hooks`
/// object itself is dropped when it becomes empty.
pub open spec fn with_hooks_removed(d: Seq<(Seq<char>, Jv)>) -> Seq<(Seq<char>, Jv)> {
    match lookup(d, hooks_key()) {
        Some(Jv::Obj(he)) => {
            let he1 = remove_event(he, "Notification"@);
            let he2 = remove_event(he1, "Stop"@);
            let he3 = remove_event(he2, "PreToolUse"@);
            if he3.len() == 0 {
                obj_remove(d, hooks_key())
            } else {
                obj_set(d, hooks_key(), Jv::Obj(he3))
            }
        },
        _ => d,
    }
}

/// Drop the marker-tagged commands from one entry; nothing is returned
/// when the entry's hooks array would become empty.
#[verifier::loop_isolation(false)]
fn strip_entry_exec(e: &Json) -> (r: Option<Json>)
    ensures
        match r {
            Some(j) => keep_entry(e@) && j@ == strip_entry(e@),
            None => !keep_entry(e@),
        },
{
    match e {
        Json::Obj(ees) => {
            let key = "hooks".to_owned();
            match entries_lookup(ees, &key) {
                Some(j) => match j {
                    Json::Arr(hs) => {
                        let ghost hv = jv_of_seq(hs@);
                        let mut kept: Vec<Json> = Vec::new();
                        let mut i: usize = 0;
                        proof {
                            reveal(Seq::filter);
                            assert(hv.subrange(0, 0) =~= Seq::<Jv>::empty());
                            assert(jv_of_seq(kept@) =~= hv.subrange(0, 0).filter(keep_hook()));
                        }
                        while i < hs.len()
                            invariant
                                i <= hs.len(),
                                jv_of_seq(kept@) =~= hv.subrange(0, i as int).filter(keep_hook()),
                            decreases hs.len() - i,
                        {
                            let ghost prefix = hv.subrange(0, i as int);
                            let ghost prefix1 = hv.subrange(0, i as int + 1);
                            proof {
                                reveal(Seq::filter);
                                assert(prefix1.drop_last() =~= prefix);
                                assert(prefix1.last() == hv[i as int]);
                            }
                            if json_is_marker(&hs[i]) {
                                proof {
                                    assert(!keep_hook()(hv[i as int]));
                                    assert(prefix1.filter(keep_hook()) =~= prefix.filter(
                                        keep_hook(),
                                    ));
                                }
                            } else {
                                let ghost kv = jv_of_seq(kept@);
                                let c = hs[i].deep_clone();
                                kept.push(c);
                                proof {
                                    assert(keep_hook()(hv[i as int]));
                                    assert(prefix1.filter(keep_hook()) =~= prefix.filter(
                                        keep_hook(),
                                    ).push(hv[i as int]));
                                    assert(jv_of_seq(kept@) =~= kv.push(c@));
                                }
                            }
                            i = i + 1;
                        }
                        proof {
                            assert(hv.subrange(0, hv.len() as int) =~= hv);
                        }
                        if kept.len() == 0 {
                            None
                        } else {
                            let mut out = clone_entries(ees);
                            entries_set(&mut out, key, Json::Arr(kept));
                            Some(Json::Obj(out))
                        }
                    },
                    _ => Some(e.deep_clone()),
                },
                None => Some(e.deep_clone()),
            }
        },
        _ => Some(e.deep_clone()),
    }
}

/// Filter the integration's entries out of one event's array, dropping
/// the event key when its array becomes empty.
#[verifier::loop_isolation(false)]
fn apply_remove_event(he: &mut Vec<(String, Json)>, event: &String)
    ensures
        jv_of_entries(final(he)@) == remove_event(jv_of_entries(old(he)@), event@),
{
    let arr_opt: Option<Vec<Json>> = match entries_lookup(he, event) {
        Some(j) => match j {
            Json::Arr(a) => Some(clone_elems(a)),
            _ => None,
        },
        None => None,
    };
    match arr_opt {
        None => {},
        Some(a) => {
            let ghost av = jv_of_seq(a@);
            let mut out: Vec<Json> = Vec::new();
            let mut i: usize = 0;
            proof {
                reveal(Seq::filter);
                assert(av.subrange(0, 0) =~= Seq::<Jv>::empty());
                assert(jv_of_seq(out@) =~= av.subrange(0, 0).filter(keep_entry_pred()).map_values(
                    strip_fn(),
                ));
            }
            while i < a.len()
                invariant
                    i <= a.len(),
                    jv_of_seq(out@) =~= av.subrange(0, i as int).filter(
                        keep_entry_pred(),
                    ).map_values(strip_fn()),
                decreases a.len() - i,
            {
                let ghost prefix = av.subrange(0, i as int);
                let ghost prefix1 = av.subrange(0, i as int + 1);
                proof {
                    reveal(Seq::filter);
                    assert(prefix1.drop_last() =~= prefix);
                    assert(prefix1.last() == av[i as int]);
                }
                match strip_entry_exec(&a[i]) {
                    Some(j) => {
                        let ghost ov = jv_of_seq(out@);
                        let ghost jj = j@;
                        out.push(j);
                        proof {
                            assert(keep_entry_pred()(av[i as int]));
                            assert(prefix1.filter(keep_entry_pred()) =~= prefix.filter(
                                keep_entry_pred(),
                            ).push(av[i as int]));
                            assert(strip_fn()(av[i as int]) == jj);
                            assert(prefix1.filter(keep_entry_pred()).map_values(strip_fn()) =~=
                                prefix.filter(keep_entry_pred()).map_values(strip_fn()).push(jj));
                            assert(jv_of_seq(out@) =~= ov.push(jj));
                        }
                    },
                    None => {
                        proof {
                            assert(!keep_entry_pred()(av[i as int]));
                            assert(prefix1.filter(keep_entry_pred()) =~= prefix.filter(
                                keep_entry_pred(),
                            ));
                        }
                    },
                }
                i = i + 1;
            }
            proof {
                assert(av.subrange(0, av.len() as int) =~= av);
            }
            if out.len() == 0 {
                let _ = entries_remove(he, event);
            } else {
                entries_set(he, event.clone(), Json::Arr(out));
            }
        },
    }
}

/// Remove the integration's hooks from the live settings document: the
/// marker-tagged commands are filtered out of each of the fixed hook
/// events, an event left with no entries is dropped, and a `hooks`
/// object left empty is dropped. Nothing happens when the document does
/// not exist. Fails with `MalformedInput`, changing nothing, when the
/// document cannot be parsed. The store document is never touched.
pub fn remove_claude_code_hook(state: &mut SystemState) -> (r: Result<(), StoreError>)
    ensures
        final(state)@.store == old(state)@.store,
        match r {
            Ok(_) => {
                &&& !(old(state)@.live is Malformed)
                &&& match old(state)@.live {
                    JsonDocV::Absent => final(state)@.live is Absent,
                    JsonDocV::Present(j) => match j {
                        Jv::Obj(es) => final(state)@.live == JsonDocV::Present(
                            Jv::Obj(with_hooks_removed(es)),
                        ),
                        _ => final(state)@.live == old(state)@.live,
                    },
                    JsonDocV::Malformed => false,
                }
            },
            Err(e) => {
                &&& final(state)@ == old(state)@
                &&& e == StoreError::MalformedInput
                &&& old(state)@.live is Malformed
            },
        },
{
    let mut taken = JsonDoc::Absent;
    core::mem::swap(&mut state.live, &mut taken);
    match taken {
        JsonDoc::Malformed => {
            state.live = JsonDoc::Malformed;
            Err(StoreError::MalformedInput)
        },
        JsonDoc::Absent => Ok(()),
        JsonDoc::Present(j) => match j {
            Json::Obj(mut es) => {
                let ghost d0 = jv_of_entries(es@);
                let hooks_k = "hooks".to_owned();
                let he_opt: Option<Vec<(String, Json)>> = match entries_lookup(&es, &hooks_k) {
                    Some(j2) => match j2 {
                        Json::Obj(hes) => Some(clone_entries(hes)),
                        _ => None,
                    },
                    None => None,
                };
                match he_opt {
                    None => {
                        state.live = JsonDoc::Present(Json::Obj(es));
                        Ok(())
                    },
                    Some(mut he) => {
                        let ev_notification = "Notification".to_owned();
                        let ev_stop = "Stop".to_owned();
                        let ev_pre = "PreToolUse".to_owned();
                        apply_remove_event(&mut he, &ev_notification);
                        apply_remove_event(&mut he, &ev_stop);
                        apply_remove_event(&mut he, &ev_pre);
                        if he.len() == 0 {
                            let _ = entries_remove(&mut es, &hooks_k);
                        } else {
                            entries_set(&mut es, hooks_k, Json::Obj(he));
                        }
                        state.live = JsonDoc::Present(Json::Obj(es));
                        Ok(())
                    },
                }
            },
            other => {
                state.live = JsonDoc::Present(other);
                Ok(())
            },
        },
    }
}

} // verus!

verus! {

/// The command that injection writes carries the marker field, so the
/// idempotence of injection holds of it.
pub proof fn lemma_hook_command_is_marked(windows: bool)
    ensures
        is_marker_hook(hook_command_v(windows)),
{
    let es = hook_command_v(windows)->Obj_0;
    assert(es[0].0 == marker_key());
    assert(lookup(es, marker_key()) == Some(es[0].1));
}

/// After injection into an event, that event's array carries the marker.
proof fn lemma_add_event_lookup(he: Seq<(Seq<char>, Jv)>, e: Seq<char>, cmd: Jv)
    requires
        is_marker_hook(cmd),
    ensures
        ({
            let he2 = add_event(he, e, cmd);
            &&& lookup(he2, e) matches Some(v) && v matches Jv::Arr(a2) && some_entry_has_marker(
                a2,
            )
        }),
{
    let a = event_arr(he, e);
    let a2 = if some_entry_has_marker(a) {
        a
    } else {
        a.push(wrapper_entry_v(cmd))
    };
    crate::json::lemma_lookup_obj_set(he, e, Jv::Arr(a2), e);
    if !some_entry_has_marker(a) {
        let w = wrapper_entry_v(cmd);
        assert(a2[a.len() as int] == w);
        assert(lookup(w->Obj_0, hooks_key()) == Some(Jv::Arr(seq![cmd])));
        assert(jv_get(w, hooks_key()) == Some(Jv::Arr(seq![cmd])));
        assert(seq![cmd][0] == cmd);
        assert(is_marker_hook(seq![cmd][0]));
        assert(exists|i: int| 0 <= i < seq![cmd].len() && is_marker_hook(seq![cmd][i]));
        assert(entry_has_marker(w)) by {
            let hs = jv_get(w, hooks_key())->Some_0->Arr_0;
            assert(hs == seq![cmd]);
            assert(hs[0] == cmd);
            assert(0 <= 0 < hs.len() && is_marker_hook(hs[0]));
        }
        assert(entry_has_marker(a2[a.len() as int]));
        assert(some_entry_has_marker(a2));
    }
}

/// Injecting into an event whose array already carries the marker
/// changes nothing.
proof fn lemma_add_event_stable(he: Seq<(Seq<char>, Jv)>, e: Seq<char>, cmd: Jv, a: Seq<Jv>)
    requires
        lookup(he, e) == Some(Jv::Arr(a)),
        some_entry_has_marker(a),
    ensures
        add_event(he, e, cmd) == he,
{
    crate::json::lemma_obj_set_same(he, e, Jv::Arr(a));
}

/// Injection is idempotent: adding the integration's hooks twice leaves
/// the document exactly as adding them once does, whatever the document
/// held, because detection goes by the marker field and the injected
/// command carries it.
pub proof fn lemma_add_hooks_idempotent(d: Seq<(Seq<char>, Jv)>, cmd: Jv)
    requires
        is_marker_hook(cmd),
    ensures
        with_hooks_added(with_hooks_added(d, cmd), cmd) == with_hooks_added(d, cmd),
{
    lemma_event_names_distinct();
    let nk = "Notification"@;
    let sk = "Stop"@;
    let pk = "PreToolUse"@;
    let he0 = hooks_entries(d);
    let he1 = add_event(he0, nk, cmd);
    let he2 = add_event(he1, sk, cmd);
    let he3 = add_event(he2, pk, cmd);
    let d1 = obj_set(d, hooks_key(), Jv::Obj(he3));
    crate::json::lemma_lookup_obj_set(d, hooks_key(), Jv::Obj(he3), hooks_key());
    assert(hooks_entries(d1) == he3);
    // Where each event's array stands after the first round.
    lemma_add_event_lookup(he0, nk, cmd);
    lemma_add_event_other(he1, sk, cmd, nk);
    lemma_add_event_other(he2, pk, cmd, nk);
    let an = choose|an: Seq<Jv>| lookup(he3, nk) == Some(Jv::Arr(an)) && some_entry_has_marker(an);
    lemma_add_event_lookup(he1, sk, cmd);
    lemma_add_event_other(he2, pk, cmd, sk);
    let asq = choose|asq: Seq<Jv>| lookup(he3, sk) == Some(Jv::Arr(asq)) && some_entry_has_marker(
        asq,
    );
    lemma_add_event_lookup(he2, pk, cmd);
    let ap = choose|ap: Seq<Jv>| lookup(he3, pk) == Some(Jv::Arr(ap)) && some_entry_has_marker(ap);
    // The second round changes nothing, event by event.
    lemma_add_event_stable(he3, nk, cmd, an);
    lemma_add_event_stable(he3, sk, cmd, asq);
    lemma_add_event_stable(he3, pk, cmd, ap);
    assert(add_event(add_event(add_event(hooks_entries(d1), nk, cmd), sk, cmd), pk, cmd) == he3);
    crate::json::lemma_obj_set_same(d1, hooks_key(), Jv::Obj(he3));
}

/// Whether an entry is untouched by removal: it has no hooks array, or
/// one that is non-empty and free of marker-tagged commands.
pub open spec fn entry_untouched(e: Jv) -> bool {
    match e {
        Jv::Obj(ees) => match lookup(ees, hooks_key()) {
            Some(Jv::Arr(hs)) => hs.len() > 0 && (forall|i: int|
                0 <= i < hs.len() ==> !is_marker_hook(hs[i])),
            _ => true,
        },
        _ => true,
    }
}

/// Whether an event is untouched by removal: absent, not an array, or a
/// non-empty array of untouched entries.
pub open spec fn event_untouched(he: Seq<(Seq<char>, Jv)>, e: Seq<char>) -> bool {
    match lookup(he, e) {
        Some(Jv::Arr(a)) => a.len() > 0 && (forall|i: int|
            0 <= i < a.len() ==> entry_untouched(a[i])),
        _ => true,
    }
}

/// Whether a document carries no trace of the integration's hooks, nor
/// any empty structure that removal would prune: its `hooks` value, when
/// an object, is non-empty and each of the fixed events is untouched.
pub open spec fn no_integration_hooks(d: Seq<(Seq<char>, Jv)>) -> bool {
    match lookup(d, hooks_key()) {
        Some(Jv::Obj(he)) => he.len() > 0 && event_untouched(he, "Notification"@)
            && event_untouched(he, "Stop"@) && event_untouched(he, "PreToolUse"@),
        _ => true,
    }
}

/// A filter that keeps every element keeps the sequence.
proof fn lemma_filter_all<A>(s: Seq<A>, pred: spec_fn(A) -> bool)
    requires
        forall|i: int| 0 <= i < s.len() ==> pred(s[i]),
    ensures
        s.filter(pred) == s,
    decreases s.len(),
{
    reveal(Seq::filter);
    if s.len() > 0 {
        lemma_filter_all(s.drop_last(), pred);
        assert(s.drop_last().push(s.last()) =~= s);
    }
}

/// Removal leaves an array of untouched entries as it stands.
proof fn lemma_remove_event_arr_id(a: Seq<Jv>)
    requires
        forall|i: int| 0 <= i < a.len() ==> entry_untouched(a[i]),
    ensures
        remove_event_arr(a) == a,
{
    assert forall|i: int| 0 <= i < a.len() implies keep_entry_pred()(a[i]) by {
        match a[i] {
            Jv::Obj(ees) => match lookup(ees, hooks_key()) {
                Some(Jv::Arr(hs)) => {
                    lemma_filter_all(hs, keep_hook());
                },
                _ => {},
            },
            _ => {},
        }
    }
    lemma_filter_all(a, keep_entry_pred());
    assert forall|i: int| 0 <= i < a.len() implies strip_fn()(a[i]) == a[i] by {
        match a[i] {
            Jv::Obj(ees) => match lookup(ees, hooks_key()) {
                Some(Jv::Arr(hs)) => {
                    lemma_filter_all(hs, keep_hook());
                    crate::json::lemma_obj_set_same(ees, hooks_key(), Jv::Arr(hs));
                },
                _ => {},
            },
            _ => {},
        }
    }
    assert(a.filter(keep_entry_pred()).map_values(strip_fn()) =~= a);
}

/// Removal before any injection is a no-op: on a document that carries
/// no marker-tagged hooks and no empty hook structure, removing the
/// integration's hooks changes nothing.
pub proof fn lemma_remove_hooks_noop(d: Seq<(Seq<char>, Jv)>)
    requires
        no_integration_hooks(d),
    ensures
        with_hooks_removed(d) == d,
{
    match lookup(d, hooks_key()) {
        Some(v) => match v {
            Jv::Obj(he) => {
                let nk = "Notification"@;
                let sk = "Stop"@;
                let pk = "PreToolUse"@;
                assert(remove_event(he, nk) == he) by {
                    lemma_remove_event_one(he, nk);
                }
                assert(remove_event(he, sk) == he) by {
                    lemma_remove_event_one(he, sk);
                }
                assert(remove_event(he, pk) == he) by {
                    lemma_remove_event_one(he, pk);
                }
                crate::json::lemma_obj_set_same(d, hooks_key(), Jv::Obj(he));
            },
            _ => {},
        },
        None => {},
    }
}

/// Removal leaves an untouched event as it stands.
proof fn lemma_remove_event_one(he: Seq<(Seq<char>, Jv)>, e: Seq<char>)
    requires
        event_untouched(he, e),
    ensures
        remove_event(he, e) == he,
{
    match lookup(he, e) {
        Some(v) => match v {
            Jv::Arr(a) => {
                lemma_remove_event_arr_id(a);
                crate::json::lemma_obj_set_same(he, e, Jv::Arr(a));
            },
            _ => {},
        },
        None => {},
    }
}

} // verus!
