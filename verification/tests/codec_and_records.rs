use ccmate::codec::{decode_stores_data, encode_stores_data};
use ccmate::errors::StoreError;
use ccmate::json::Json;
use ccmate::store::{ConfigStore, NotificationSettings, StoresData};
use ccmate::sysinfo::get_os_name;
use ccmate::usage::usage_record_from_json;

fn obj(entries: Vec<(&str, Json)>) -> Json {
    Json::Obj(entries.into_iter().map(|(k, v)| (k.to_string(), v)).collect())
}

fn profile_json(id: &str, title: &str, at: Json, using: bool) -> Json {
    obj(vec![
        ("id", Json::Str(id.to_string())),
        ("title", Json::Str(title.to_string())),
        ("createdAt", at),
        ("settings", obj(vec![("x", Json::Int(1))])),
        ("using", Json::Bool(using)),
    ])
}

#[test]
fn decode_reads_persisted_shape() {
    let doc = obj(vec![
        ("configs", Json::Arr(vec![profile_json("p1", "First", Json::UInt(42), true)])),
        ("distinct_id", Json::Str("abc".to_string())),
        ("notification", obj(vec![
            ("enable", Json::Bool(false)),
            ("enabled_hooks", Json::Arr(vec![Json::Str("Stop".to_string())])),
        ])),
    ]);
    let d = decode_stores_data(&doc).unwrap();
    assert_eq!(d.configs.len(), 1);
    assert_eq!(d.configs[0].id, "p1");
    assert_eq!(d.configs[0].title, "First");
    assert_eq!(d.configs[0].created_at, 42);
    assert!(d.configs[0].using);
    assert_eq!(d.distinct_id.as_deref(), Some("abc"));
    let n = d.notification.unwrap();
    assert!(!n.enable);
    assert_eq!(n.enabled_hooks, vec!["Stop".to_string()]);
}

#[test]
fn decode_accepts_missing_optional_fields() {
    let doc = obj(vec![("configs", Json::Arr(vec![]))]);
    let d = decode_stores_data(&doc).unwrap();
    assert!(d.configs.is_empty());
    assert!(d.distinct_id.is_none());
    assert!(d.notification.is_none());
    // Null reads the same as missing, and unknown keys are ignored.
    let doc = obj(vec![
        ("configs", Json::Arr(vec![])),
        ("distinct_id", Json::Null),
        ("notification", Json::Null),
        ("stray", Json::Int(7)),
    ]);
    let d = decode_stores_data(&doc).unwrap();
    assert!(d.distinct_id.is_none());
    assert!(d.notification.is_none());
}

#[test]
fn decode_accepts_signed_creation_time() {
    let doc = obj(vec![("configs", Json::Arr(vec![profile_json("p", "T", Json::Int(7), false)]))]);
    let d = decode_stores_data(&doc).unwrap();
    assert_eq!(d.configs[0].created_at, 7);
}

#[test]
fn decode_rejects_bad_shapes() {
    // No configs key at all.
    assert_eq!(
        decode_stores_data(&obj(vec![])).unwrap_err(),
        StoreError::MalformedInput
    );
    // Not an object.
    assert_eq!(
        decode_stores_data(&Json::Arr(vec![])).unwrap_err(),
        StoreError::MalformedInput
    );
    // A negative creation time.
    let doc = obj(vec![("configs", Json::Arr(vec![profile_json("p", "T", Json::Int(-1), false)]))]);
    assert_eq!(decode_stores_data(&doc).unwrap_err(), StoreError::MalformedInput);
    // A fractional creation time.
    let doc = obj(vec![(
        "configs",
        Json::Arr(vec![profile_json("p", "T", Json::Decimal("1.5".to_string()), false)]),
    )]);
    assert_eq!(decode_stores_data(&doc).unwrap_err(), StoreError::MalformedInput);
    // An installation identifier of the wrong type.
    let doc = obj(vec![("configs", Json::Arr(vec![])), ("distinct_id", Json::Int(3))]);
    assert_eq!(decode_stores_data(&doc).unwrap_err(), StoreError::MalformedInput);
    // A profile missing a required field.
    let bad = obj(vec![("id", Json::Str("p".to_string()))]);
    let doc = obj(vec![("configs", Json::Arr(vec![bad]))]);
    assert_eq!(decode_stores_data(&doc).unwrap_err(), StoreError::MalformedInput);
}

#[test]
fn encode_then_decode_restores_document() {
    let d = StoresData {
        configs: vec![
            ConfigStore {
                id: "p1".to_string(),
                title: "First".to_string(),
                created_at: 11,
                settings: obj(vec![("a", Json::Int(1)), ("b", Json::Str("two".to_string()))]),
                using: true,
            },
            ConfigStore {
                id: "p2".to_string(),
                title: "Second".to_string(),
                created_at: 22,
                settings: Json::Null,
                using: false,
            },
        ],
        distinct_id: Some("install-1".to_string()),
        notification: Some(NotificationSettings {
            enable: true,
            enabled_hooks: vec!["Notification".to_string()],
        }),
    };
    let encoded = encode_stores_data(&d);
    let back = decode_stores_data(&encoded).unwrap();
    assert_eq!(back.configs.len(), 2);
    assert_eq!(back.configs[0].id, "p1");
    assert_eq!(back.configs[0].title, "First");
    assert_eq!(back.configs[0].created_at, 11);
    assert!(back.configs[0].using);
    assert_eq!(back.configs[1].id, "p2");
    assert!(!back.configs[1].using);
    assert_eq!(back.distinct_id.as_deref(), Some("install-1"));
    let n = back.notification.unwrap();
    assert!(n.enable);
    assert_eq!(n.enabled_hooks, vec!["Notification".to_string()]);
    match &back.configs[0].settings {
        Json::Obj(es) => {
            assert_eq!(es.len(), 2);
            assert_eq!(es[0].0, "a");
            assert_eq!(es[1].0, "b");
        },
        _ => panic!("settings should survive the round trip"),
    }
}

#[test]
fn usage_record_needs_tokens() {
    let line = obj(vec![
        ("uuid", Json::Str("u1".to_string())),
        ("timestamp", Json::Str("t1".to_string())),
        ("model", Json::Str("fast".to_string())),
        ("usage", obj(vec![
            ("input_tokens", Json::UInt(3)),
            ("output_tokens", Json::UInt(0)),
        ])),
    ]);
    let rec = usage_record_from_json(&line).unwrap();
    assert_eq!(rec.uuid, "u1");
    assert_eq!(rec.timestamp, "t1");
    assert_eq!(rec.model.as_deref(), Some("fast"));
    let usage = rec.usage.unwrap();
    assert_eq!(usage.input_tokens, Some(3));
    assert_eq!(usage.output_tokens, Some(0));
    assert_eq!(usage.cache_read_input_tokens, None);
    // All-zero token counts yield no record.
    let line = obj(vec![
        ("uuid", Json::Str("u1".to_string())),
        ("timestamp", Json::Str("t1".to_string())),
        ("usage", obj(vec![("input_tokens", Json::UInt(0))])),
    ]);
    assert!(usage_record_from_json(&line).is_none());
}

#[test]
fn usage_record_reads_nested_message() {
    let line = obj(vec![
        ("uuid", Json::Str("u2".to_string())),
        ("timestamp", Json::Str("t2".to_string())),
        ("message", obj(vec![
            ("model", Json::Str("slow".to_string())),
            ("usage", obj(vec![("output_tokens", Json::UInt(5))])),
        ])),
    ]);
    let rec = usage_record_from_json(&line).unwrap();
    assert_eq!(rec.model.as_deref(), Some("slow"));
    assert_eq!(rec.usage.unwrap().output_tokens, Some(5));
}

#[test]
fn usage_record_needs_identity() {
    // Missing uuid.
    let line = obj(vec![
        ("timestamp", Json::Str("t".to_string())),
        ("usage", obj(vec![("input_tokens", Json::UInt(2))])),
    ]);
    assert!(usage_record_from_json(&line).is_none());
    // Missing usage object.
    let line = obj(vec![
        ("uuid", Json::Str("u".to_string())),
        ("timestamp", Json::Str("t".to_string())),
    ]);
    assert!(usage_record_from_json(&line).is_none());
}

#[test]
fn os_names_are_mapped() {
    assert_eq!(get_os_name("macos"), "macOS");
    assert_eq!(get_os_name("windows"), "Windows");
    assert_eq!(get_os_name("linux"), "Linux");
    assert_eq!(get_os_name("freebsd"), "Unknown");
}
