use ccmate::errors::StoreError;
use ccmate::json::Json;
use ccmate::live::JsonDoc;
use ccmate::store::{
    create_config, delete_config, get_current_store, get_notification_settings,
    get_or_create_distinct_id, get_store, get_stores, set_using_config, sorted_clone,
    update_config, update_notification_settings, ConfigStore, NotificationSettings, StoresData,
    SystemState,
};

fn obj(entries: Vec<(&str, Json)>) -> Json {
    Json::Obj(entries.into_iter().map(|(k, v)| (k.to_string(), v)).collect())
}

fn empty_state() -> SystemState {
    SystemState { store: None, live: JsonDoc::Absent }
}

fn live_entries(state: &SystemState) -> &Vec<(String, Json)> {
    match &state.live {
        JsonDoc::Present(Json::Obj(es)) => es,
        _ => panic!("live settings document is not an object"),
    }
}

fn lookup<'a>(es: &'a [(String, Json)], k: &str) -> Option<&'a Json> {
    es.iter().find(|(key, _)| key == k).map(|(_, v)| v)
}

fn int_value(j: &Json) -> i64 {
    match j {
        Json::Int(n) => *n,
        _ => panic!("not an integer"),
    }
}

fn store_doc(state: &SystemState) -> &StoresData {
    state.store.as_ref().expect("store document should exist")
}

#[test]
fn first_create_auto_activates() {
    let mut state = empty_state();
    let p = create_config(
        &mut state,
        "p1".to_string(),
        "First".to_string(),
        obj(vec![("x", Json::Int(1))]),
        100,
    )
    .unwrap();
    assert!(p.using);
    assert_eq!(p.id, "p1");
    assert_eq!(p.created_at, 100);
    let es = live_entries(&state);
    assert_eq!(int_value(lookup(es, "x").unwrap()), 1);
}

#[test]
fn second_create_stays_inactive() {
    let mut state = empty_state();
    create_config(&mut state, "p1".to_string(), "A".to_string(), obj(vec![("x", Json::Int(1))]), 100)
        .unwrap();
    let b = create_config(
        &mut state,
        "p2".to_string(),
        "B".to_string(),
        obj(vec![("y", Json::Int(2))]),
        200,
    )
    .unwrap();
    assert!(!b.using);
    // The live settings document is untouched by the second creation.
    let es = live_entries(&state);
    assert_eq!(int_value(lookup(es, "x").unwrap()), 1);
    assert!(lookup(es, "y").is_none());
    // Exactly one profile is active.
    let active: Vec<&ConfigStore> =
        store_doc(&state).configs.iter().filter(|c| c.using).collect();
    assert_eq!(active.len(), 1);
    assert_eq!(active[0].id, "p1");
}

#[test]
fn create_duplicate_id_fails() {
    let mut state = empty_state();
    create_config(&mut state, "p1".to_string(), "A".to_string(), obj(vec![]), 100).unwrap();
    let r = create_config(&mut state, "p1".to_string(), "B".to_string(), obj(vec![]), 200);
    assert_eq!(r.unwrap_err(), StoreError::DuplicateField);
    assert_eq!(store_doc(&state).configs.len(), 1);
    assert_eq!(store_doc(&state).configs[0].title, "A");
}

#[test]
fn end_to_end_activation_merges_live() {
    let mut state = empty_state();
    create_config(&mut state, "p1".to_string(), "A".to_string(), obj(vec![("x", Json::Int(1))]), 100)
        .unwrap();
    create_config(&mut state, "p2".to_string(), "B".to_string(), obj(vec![("y", Json::Int(2))]), 200)
        .unwrap();
    set_using_config(&mut state, &"p2".to_string()).unwrap();
    let doc = store_doc(&state);
    let a = doc.configs.iter().find(|c| c.id == "p1").unwrap();
    let b = doc.configs.iter().find(|c| c.id == "p2").unwrap();
    assert!(!a.using);
    assert!(b.using);
    let es = live_entries(&state);
    assert_eq!(int_value(lookup(es, "x").unwrap()), 1);
    assert_eq!(int_value(lookup(es, "y").unwrap()), 2);
}

#[test]
fn activation_projects_merge_not_replace() {
    // Live Settings Document {"a":1,"b":2}; activating a profile with
    // settings {"b":3,"c":4} must leave {"a":1,"b":3,"c":4}.
    let mut state = SystemState {
        store: None,
        live: JsonDoc::Present(obj(vec![("a", Json::Int(1)), ("b", Json::Int(2))])),
    };
    // Create into an empty collection activates and projects at once;
    // build the profile as the second entry to activate it explicitly.
    create_config(&mut state, "p0".to_string(), "Base".to_string(), obj(vec![]), 50).unwrap();
    create_config(
        &mut state,
        "p1".to_string(),
        "Patch".to_string(),
        obj(vec![("b", Json::Int(3)), ("c", Json::Int(4))]),
        60,
    )
    .unwrap();
    set_using_config(&mut state, &"p1".to_string()).unwrap();
    let es = live_entries(&state);
    assert_eq!(es.len(), 3);
    assert_eq!(int_value(lookup(es, "a").unwrap()), 1);
    assert_eq!(int_value(lookup(es, "b").unwrap()), 3);
    assert_eq!(int_value(lookup(es, "c").unwrap()), 4);
}

#[test]
fn activate_unknown_fails() {
    let mut state = empty_state();
    create_config(&mut state, "p1".to_string(), "A".to_string(), obj(vec![]), 100).unwrap();
    assert_eq!(
        set_using_config(&mut state, &"ghost".to_string()).unwrap_err(),
        StoreError::NotFound
    );
    assert_eq!(
        set_using_config(&mut SystemState { store: None, live: JsonDoc::Absent }, &"p1".to_string())
            .unwrap_err(),
        StoreError::StoreUninitialized
    );
}

#[test]
fn delete_unknown_fails_and_changes_nothing() {
    let mut state = empty_state();
    create_config(&mut state, "p1".to_string(), "A".to_string(), obj(vec![]), 100).unwrap();
    create_config(&mut state, "p2".to_string(), "B".to_string(), obj(vec![]), 200).unwrap();
    let r = delete_config(&mut state, &"nonexistent-id".to_string());
    assert_eq!(r.unwrap_err(), StoreError::NotFound);
    let doc = store_doc(&state);
    assert_eq!(doc.configs.len(), 2);
    assert_eq!(doc.configs[0].id, "p1");
    assert_eq!(doc.configs[1].id, "p2");
}

#[test]
fn delete_on_missing_store_fails() {
    let mut state = empty_state();
    assert_eq!(
        delete_config(&mut state, &"p1".to_string()).unwrap_err(),
        StoreError::StoreUninitialized
    );
}

#[test]
fn delete_active_does_not_promote() {
    let mut state = empty_state();
    create_config(&mut state, "p1".to_string(), "A".to_string(), obj(vec![]), 100).unwrap();
    create_config(&mut state, "p2".to_string(), "B".to_string(), obj(vec![]), 200).unwrap();
    delete_config(&mut state, &"p1".to_string()).unwrap();
    let doc = store_doc(&state);
    assert_eq!(doc.configs.len(), 1);
    assert_eq!(doc.configs[0].id, "p2");
    assert!(!doc.configs[0].using);
    let current = get_current_store(&mut state, 300).unwrap();
    assert!(current.is_none());
}

#[test]
fn migration_synthesizes_first_profile() {
    let mut state = SystemState {
        store: None,
        live: JsonDoc::Present(obj(vec![("model", Json::Str("fast".to_string()))])),
    };
    let profiles = get_stores(&mut state, 500).unwrap();
    assert_eq!(profiles.len(), 1);
    let p = &profiles[0];
    assert!(p.using);
    assert_eq!(p.created_at, 500);
    assert_eq!(p.title, "原有配置");
    // The migrated profile's identifier is six characters long.
    assert_eq!(p.id.chars().count(), 6);
    match &p.settings {
        Json::Obj(es) => match lookup(es, "model") {
            Some(Json::Str(s)) => assert_eq!(s, "fast"),
            _ => panic!("migrated settings lost the model key"),
        },
        _ => panic!("migrated settings are not an object"),
    }
    let doc = store_doc(&state);
    assert!(doc.distinct_id.is_none());
    let n = doc.notification.as_ref().unwrap();
    assert!(n.enable);
    assert_eq!(n.enabled_hooks, vec!["Notification".to_string()]);
}

#[test]
fn migration_runs_only_once() {
    let mut state = SystemState {
        store: None,
        live: JsonDoc::Present(obj(vec![("k", Json::Bool(true))])),
    };
    let first = get_stores(&mut state, 500).unwrap();
    assert_eq!(first.len(), 1);
    let id = first[0].id.clone();
    let second = get_stores(&mut state, 900).unwrap();
    assert_eq!(second.len(), 1);
    assert_eq!(second[0].id, id);
    assert_eq!(second[0].created_at, 500);
}

#[test]
fn migration_without_live_file_yields_nothing() {
    let mut state = empty_state();
    let profiles = get_stores(&mut state, 500).unwrap();
    assert!(profiles.is_empty());
    assert!(state.store.is_none());
}

#[test]
fn migration_rejects_malformed_live_file() {
    let mut state = SystemState { store: None, live: JsonDoc::Malformed };
    assert_eq!(get_stores(&mut state, 500).unwrap_err(), StoreError::MalformedInput);
    assert!(state.store.is_none());
}

#[test]
fn listing_backfills_notification_defaults() {
    let mut state = SystemState {
        store: Some(StoresData { configs: Vec::new(), distinct_id: None, notification: None }),
        live: JsonDoc::Absent,
    };
    assert!(get_notification_settings(&state).is_none());
    get_stores(&mut state, 100).unwrap();
    let n = get_notification_settings(&state).unwrap();
    assert!(n.enable);
    assert_eq!(n.enabled_hooks, vec!["Notification".to_string()]);
}

#[test]
fn listing_sorts_by_creation_time() {
    let mut state = empty_state();
    create_config(&mut state, "p1".to_string(), "A".to_string(), obj(vec![]), 300).unwrap();
    create_config(&mut state, "p2".to_string(), "B".to_string(), obj(vec![]), 100).unwrap();
    create_config(&mut state, "p3".to_string(), "C".to_string(), obj(vec![]), 200).unwrap();
    let profiles = get_stores(&mut state, 900).unwrap();
    let ids: Vec<&str> = profiles.iter().map(|p| p.id.as_str()).collect();
    assert_eq!(ids, vec!["p2", "p3", "p1"]);
    // The stored collection keeps insertion order.
    let stored: Vec<&str> = store_doc(&state).configs.iter().map(|p| p.id.as_str()).collect();
    assert_eq!(stored, vec!["p1", "p2", "p3"]);
}

#[test]
fn sorted_clone_orders_profiles() {
    let mk = |id: &str, at: u64| ConfigStore {
        id: id.to_string(),
        title: id.to_string(),
        created_at: at,
        settings: Json::Null,
        using: false,
    };
    let v = vec![mk("a", 9), mk("b", 3), mk("c", 7)];
    let sorted = sorted_clone(&v);
    let times: Vec<u64> = sorted.iter().map(|p| p.created_at).collect();
    assert_eq!(times, vec![3, 7, 9]);
    assert_eq!(v.len(), 3);
}

#[test]
fn update_replaces_title_and_settings() {
    let mut state = empty_state();
    create_config(&mut state, "p1".to_string(), "Old".to_string(), obj(vec![("x", Json::Int(1))]), 100)
        .unwrap();
    let p = update_config(
        &mut state,
        &"p1".to_string(),
        "New".to_string(),
        obj(vec![("x", Json::Int(2))]),
    )
    .unwrap();
    assert_eq!(p.title, "New");
    assert_eq!(p.created_at, 100);
    assert!(p.using);
    // The active profile's new settings are projected onto the live file.
    let es = live_entries(&state);
    assert_eq!(int_value(lookup(es, "x").unwrap()), 2);
}

#[test]
fn update_inactive_leaves_live_alone() {
    let mut state = empty_state();
    create_config(&mut state, "p1".to_string(), "A".to_string(), obj(vec![("x", Json::Int(1))]), 100)
        .unwrap();
    create_config(&mut state, "p2".to_string(), "B".to_string(), obj(vec![]), 200).unwrap();
    update_config(&mut state, &"p2".to_string(), "B2".to_string(), obj(vec![("y", Json::Int(9))]))
        .unwrap();
    let es = live_entries(&state);
    assert_eq!(int_value(lookup(es, "x").unwrap()), 1);
    assert!(lookup(es, "y").is_none());
}

#[test]
fn update_unknown_fails() {
    let mut state = empty_state();
    create_config(&mut state, "p1".to_string(), "A".to_string(), obj(vec![]), 100).unwrap();
    let r = update_config(&mut state, &"zzz".to_string(), "T".to_string(), obj(vec![]));
    assert_eq!(r.unwrap_err(), StoreError::NotFound);
}

#[test]
fn get_store_finds_by_id() {
    let mut state = empty_state();
    create_config(&mut state, "p1".to_string(), "A".to_string(), obj(vec![]), 100).unwrap();
    let p = get_store(&mut state, &"p1".to_string(), 200).unwrap();
    assert_eq!(p.id, "p1");
    assert_eq!(
        get_store(&mut state, &"zz".to_string(), 200).unwrap_err(),
        StoreError::NotFound
    );
}

#[test]
fn get_current_store_returns_active() {
    let mut state = empty_state();
    create_config(&mut state, "p1".to_string(), "A".to_string(), obj(vec![]), 100).unwrap();
    create_config(&mut state, "p2".to_string(), "B".to_string(), obj(vec![]), 200).unwrap();
    let current = get_current_store(&mut state, 300).unwrap().unwrap();
    assert_eq!(current.id, "p1");
    set_using_config(&mut state, &"p2".to_string()).unwrap();
    let current = get_current_store(&mut state, 400).unwrap().unwrap();
    assert_eq!(current.id, "p2");
}

#[test]
fn distinct_id_is_created_once() {
    let mut state = empty_state();
    let first = get_or_create_distinct_id(&mut state);
    assert_eq!(first.chars().count(), 36);
    let second = get_or_create_distinct_id(&mut state);
    assert_eq!(first, second);
    assert_eq!(store_doc(&state).distinct_id.as_deref(), Some(first.as_str()));
}

#[test]
fn notification_settings_round_trip() {
    let mut state = empty_state();
    update_notification_settings(
        &mut state,
        NotificationSettings { enable: false, enabled_hooks: vec!["Stop".to_string()] },
    );
    let n = get_notification_settings(&state).unwrap();
    assert!(!n.enable);
    assert_eq!(n.enabled_hooks, vec!["Stop".to_string()]);
    // The document was created with no profiles.
    assert!(store_doc(&state).configs.is_empty());
}
