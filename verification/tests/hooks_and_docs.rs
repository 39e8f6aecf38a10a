use ccmate::errors::StoreError;
use ccmate::hooks::{add_claude_code_hook, hook_command, remove_claude_code_hook};
use ccmate::json::Json;
use ccmate::live::{unlock_cc_ext, JsonDoc};
use ccmate::store::SystemState;

fn obj(entries: Vec<(&str, Json)>) -> Json {
    Json::Obj(entries.into_iter().map(|(k, v)| (k.to_string(), v)).collect())
}

fn jeq(a: &Json, b: &Json) -> bool {
    match (a, b) {
        (Json::Null, Json::Null) => true,
        (Json::Bool(x), Json::Bool(y)) => x == y,
        (Json::Int(x), Json::Int(y)) => x == y,
        (Json::UInt(x), Json::UInt(y)) => x == y,
        (Json::Decimal(x), Json::Decimal(y)) => x == y,
        (Json::Str(x), Json::Str(y)) => x == y,
        (Json::Arr(x), Json::Arr(y)) => {
            x.len() == y.len() && x.iter().zip(y.iter()).all(|(l, r)| jeq(l, r))
        },
        (Json::Obj(x), Json::Obj(y)) => {
            x.len() == y.len()
                && x.iter().zip(y.iter()).all(|((lk, lv), (rk, rv))| lk == rk && jeq(lv, rv))
        },
        _ => false,
    }
}

fn live_json(state: &SystemState) -> &Json {
    match &state.live {
        JsonDoc::Present(j) => j,
        _ => panic!("live settings document should exist"),
    }
}

fn lookup<'a>(j: &'a Json, k: &str) -> Option<&'a Json> {
    match j {
        Json::Obj(es) => es.iter().find(|(key, _)| key == k).map(|(_, v)| v),
        _ => None,
    }
}

fn state_with_live(j: Json) -> SystemState {
    SystemState { store: None, live: JsonDoc::Present(j) }
}

#[test]
fn add_hooks_creates_tagged_entries() {
    let mut state = SystemState { store: None, live: JsonDoc::Absent };
    add_claude_code_hook(&mut state, false).unwrap();
    let doc = live_json(&state);
    let hooks = lookup(doc, "hooks").expect("hooks object should exist");
    for event in ["Notification", "Stop", "PreToolUse"] {
        let arr = match lookup(hooks, event) {
            Some(Json::Arr(a)) => a,
            _ => panic!("event array should exist"),
        };
        assert_eq!(arr.len(), 1);
        let inner = match lookup(&arr[0], "hooks") {
            Some(Json::Arr(a)) => a,
            _ => panic!("wrapper entry should hold a hooks array"),
        };
        assert_eq!(inner.len(), 1);
        assert!(lookup(&inner[0], "__ccmate__").is_some());
        match lookup(&inner[0], "type") {
            Some(Json::Str(s)) => assert_eq!(s, "command"),
            _ => panic!("hook command should have a type"),
        }
    }
}

#[test]
fn add_hooks_twice_changes_nothing() {
    let mut state = state_with_live(obj(vec![("keep", Json::Int(7))]));
    add_claude_code_hook(&mut state, false).unwrap();
    let once = live_json(&state).deep_clone();
    add_claude_code_hook(&mut state, false).unwrap();
    let twice = live_json(&state);
    assert!(jeq(&once, twice));
    // Unrelated keys survive.
    assert!(lookup(twice, "keep").is_some());
}

#[test]
fn add_hooks_rejects_malformed_documents() {
    let mut state = SystemState { store: None, live: JsonDoc::Malformed };
    assert_eq!(add_claude_code_hook(&mut state, false).unwrap_err(), StoreError::MalformedInput);
    let mut state = state_with_live(Json::Arr(vec![]));
    assert_eq!(add_claude_code_hook(&mut state, false).unwrap_err(), StoreError::MalformedInput);
    let mut state = state_with_live(obj(vec![("hooks", Json::Int(5))]));
    assert_eq!(add_claude_code_hook(&mut state, false).unwrap_err(), StoreError::MalformedInput);
    // The document is left as it was.
    assert!(jeq(live_json(&state), &obj(vec![("hooks", Json::Int(5))])));
}

#[test]
fn remove_without_add_is_noop() {
    let foreign = obj(vec![("hooks", Json::Arr(vec![obj(vec![("type", Json::Str("command".to_string()))])]))]);
    let before = obj(vec![
        ("model", Json::Str("fast".to_string())),
        ("hooks", obj(vec![("Stop", Json::Arr(vec![foreign]))])),
    ]);
    let mut state = state_with_live(before.deep_clone());
    remove_claude_code_hook(&mut state).unwrap();
    assert!(jeq(live_json(&state), &before));
}

#[test]
fn remove_on_missing_document_is_noop() {
    let mut state = SystemState { store: None, live: JsonDoc::Absent };
    remove_claude_code_hook(&mut state).unwrap();
    assert!(matches!(state.live, JsonDoc::Absent));
}

#[test]
fn remove_rejects_malformed_document() {
    let mut state = SystemState { store: None, live: JsonDoc::Malformed };
    assert_eq!(remove_claude_code_hook(&mut state).unwrap_err(), StoreError::MalformedInput);
}

#[test]
fn add_then_remove_restores_document() {
    let before = obj(vec![("keep", Json::Int(1))]);
    let mut state = state_with_live(before.deep_clone());
    add_claude_code_hook(&mut state, true).unwrap();
    assert!(lookup(live_json(&state), "hooks").is_some());
    remove_claude_code_hook(&mut state).unwrap();
    // The injected events and the hooks object itself are gone again.
    assert!(jeq(live_json(&state), &before));
}

#[test]
fn remove_keeps_foreign_entries_beside_tagged_ones() {
    let foreign_cmd = obj(vec![("type", Json::Str("command".to_string()))]);
    let foreign_entry = obj(vec![("hooks", Json::Arr(vec![foreign_cmd]))]);
    let tagged = hook_command(false);
    let mixed_entry = obj(vec![("hooks", Json::Arr(vec![tagged]))]);
    let before = obj(vec![(
        "hooks",
        obj(vec![("Stop", Json::Arr(vec![foreign_entry, mixed_entry]))]),
    )]);
    let mut state = state_with_live(before);
    remove_claude_code_hook(&mut state).unwrap();
    let doc = live_json(&state);
    let stop = match lookup(lookup(doc, "hooks").unwrap(), "Stop") {
        Some(Json::Arr(a)) => a,
        _ => panic!("Stop array should survive"),
    };
    assert_eq!(stop.len(), 1);
    let inner = match lookup(&stop[0], "hooks") {
        Some(Json::Arr(a)) => a,
        _ => panic!("foreign entry should keep its hooks array"),
    };
    assert_eq!(inner.len(), 1);
    assert!(lookup(&inner[0], "__ccmate__").is_none());
}

#[test]
fn unlock_adds_key_when_missing() {
    let out = unlock_cc_ext(&JsonDoc::Present(obj(vec![("other", Json::Int(1))]))).unwrap();
    let j = out.expect("a write should be due");
    match lookup(&j, "primaryApiKey") {
        Some(Json::Str(s)) => assert_eq!(s, "xxx"),
        _ => panic!("key should have been added"),
    }
    assert!(lookup(&j, "other").is_some());
}

#[test]
fn unlock_leaves_existing_key_alone() {
    let doc = obj(vec![("primaryApiKey", Json::Str("mine".to_string()))]);
    let out = unlock_cc_ext(&JsonDoc::Present(doc)).unwrap();
    assert!(out.is_none());
}

#[test]
fn unlock_creates_fresh_document() {
    let out = unlock_cc_ext(&JsonDoc::Absent).unwrap().unwrap();
    match &out {
        Json::Obj(es) => assert_eq!(es.len(), 1),
        _ => panic!("fresh document should be an object"),
    }
    assert!(lookup(&out, "primaryApiKey").is_some());
    assert_eq!(
        unlock_cc_ext(&JsonDoc::Malformed).unwrap_err(),
        StoreError::MalformedInput
    );
}
