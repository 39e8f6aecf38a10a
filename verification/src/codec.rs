//! Reading the store document out of its JSON form, and writing it back.
//!
//! The persisted shape is an object `{ configs: [profile...],
//! distinct_id: string or null, notification: object or null }`, each
//! profile being `{ id, title, createdAt, settings, using }`. Unknown
//! keys are ignored on reading; the two optional fields read as nothing
//! when missing or null.

use vstd::prelude::*;
use crate::errors::StoreError;
use crate::json::{entries_lookup, jv_of_entries, jv_of_seq, lookup, Json, Jv};
use crate::store::{
    views_of, ConfigStore, ConfigStoreV, NotificationSettings, NotificationSettingsV, StoresData,
    StoresDataV,
};

verus! {

/// The strings of a JSON array, when every element is a string.
pub open spec fn decode_string_seq(hs: Seq<Jv>) -> Option<Seq<Seq<char>>>
    decreases hs.len(),
{
    if hs.len() == 0 {
        Some(Seq::empty())
    } else {
        match hs[0] {
            Jv::Str(s) => match decode_string_seq(hs.drop_first()) {
                Some(rest) => Some(seq![s] + rest),
                None => None,
            },
            _ => None,
        }
    }
}

/// The notification preferences read from a JSON value, or nothing when
/// the value does not have the expected shape.
pub open spec fn decode_notification_v(v: Jv) -> Option<NotificationSettingsV> {
    match v {
        Jv::Obj(es) => match lookup(es, "enable"@) {
            Some(Jv::Bool(b)) => match lookup(es, "enabled_hooks"@) {
                Some(Jv::Arr(hs)) => match decode_string_seq(hs) {
                    Some(ss) => Some(NotificationSettingsV { enable: b, enabled_hooks: ss }),
                    None => None,
                },
                _ => None,
            },
            _ => None,
        },
        _ => None,
    }
}

/// A creation time read from a JSON value: any integer that fits an
/// unsigned 64-bit count of seconds.
pub open spec fn decode_created_at(v: Jv) -> Option<u64> {
    match v {
        Jv::UInt(n) => Some(n),
        Jv::Int(n) => if n >= 0 {
            Some(n as u64)
        } else {
            None
        },
        _ => None,
    }
}

/// A profile read from a JSON value, or nothing when a field is missing
/// or has the wrong type. The settings field is kept verbatim.
pub open spec fn decode_profile_v(v: Jv) -> Option<ConfigStoreV> {
    match v {
        Jv::Obj(es) => match (lookup(es, "id"@), lookup(es, "title"@)) {
            (Some(Jv::Str(id)), Some(Jv::Str(title))) => match lookup(es, "createdAt"@) {
                Some(ca) => match decode_created_at(ca) {
                    Some(created_at) => match (lookup(es, "settings"@), lookup(es, "using"@)) {
                        (Some(settings), Some(Jv::Bool(using))) => Some(
                            ConfigStoreV { id, title, created_at, settings, using },
                        ),
                        _ => None,
                    },
                    None => None,
                },
                None => None,
            },
            _ => None,
        },
        _ => None,
    }
}

/// The profiles of a JSON array, when every element reads as a profile.
pub open spec fn decode_profiles(s: Seq<Jv>) -> Option<Seq<ConfigStoreV>>
    decreases s.len(),
{
    if s.len() == 0 {
        Some(Seq::empty())
    } else {
        match decode_profile_v(s[0]) {
            Some(c) => match decode_profiles(s.drop_first()) {
                Some(rest) => Some(seq![c] + rest),
                None => None,
            },
            None => None,
        }
    }
}

/// An optional installation identifier read from a store document's
/// entries: nothing when the key is missing or null.
pub open spec fn decode_distinct_id(
    es: Seq<(Seq<char>, Jv)>,
) -> Option<Option<Seq<char>>> {
    match lookup(es, "distinct_id"@) {
        None => Some(None),
        Some(Jv::Null) => Some(None),
        Some(Jv::Str(s)) => Some(Some(s)),
        Some(_) => None,
    }
}

/// Optional notification preferences read from a store document's
/// entries: nothing when the key is missing or null.
pub open spec fn decode_notification_field(
    es: Seq<(Seq<char>, Jv)>,
) -> Option<Option<NotificationSettingsV>> {
    match lookup(es, "notification"@) {
        None => Some(None),
        Some(Jv::Null) => Some(None),
        Some(v) => match decode_notification_v(v) {
            Some(n) => Some(Some(n)),
            None => None,
        },
    }
}

/// The store document read from a JSON value, or nothing when the value
/// does not have the persisted shape.
pub open spec fn decode_doc_v(v: Jv) -> Option<StoresDataV> {
    match v {
        Jv::Obj(es) => match lookup(es, "configs"@) {
            Some(Jv::Arr(cs)) => match decode_profiles(cs) {
                Some(configs) => match decode_distinct_id(es) {
                    Some(distinct_id) => match decode_notification_field(es) {
                        Some(notification) => Some(
                            StoresDataV { configs, distinct_id, notification },
                        ),
                        None => None,
                    },
                    None => None,
                },
                None => None,
            },
            _ => None,
        },
        _ => None,
    }
}

/// The JSON form of the notification preferences.
pub open spec fn encode_notification_v(n: NotificationSettingsV) -> Jv {
    Jv::Obj(
        seq![
            ("enable"@, Jv::Bool(n.enable)),
            ("enabled_hooks"@, Jv::Arr(
                Seq::new(n.enabled_hooks.len(), |i: int| Jv::Str(n.enabled_hooks[i])),
            )),
        ],
    )
}

/// The JSON form of one profile.
pub open spec fn encode_profile_v(c: ConfigStoreV) -> Jv {
    Jv::Obj(
        seq![
            ("id"@, Jv::Str(c.id)),
            ("title"@, Jv::Str(c.title)),
            ("createdAt"@, Jv::UInt(c.created_at)),
            ("settings"@, c.settings),
            ("using"@, Jv::Bool(c.using)),
        ],
    )
}

/// The JSON form of the whole store document; the optional fields are
/// written as null when empty.
pub open spec fn encode_doc_v(d: StoresDataV) -> Jv {
    Jv::Obj(
        seq![
            ("configs"@, Jv::Arr(
                Seq::new(d.configs.len(), |i: int| encode_profile_v(d.configs[i])),
            )),
            ("distinct_id"@, match d.distinct_id {
                Some(s) => Jv::Str(s),
                None => Jv::Null,
            }),
            ("notification"@, match d.notification {
                Some(n) => encode_notification_v(n),
                None => Jv::Null,
            }),
        ],
    )
}

/// Read the notification preferences out of a JSON value.
#[verifier::loop_isolation(false)]
fn decode_notification(v: &Json) -> (r: Result<NotificationSettings, StoreError>)
    ensures
        match r {
            Ok(n) => decode_notification_v(v@) == Some(n@),
            Err(e) => e == StoreError::MalformedInput && decode_notification_v(v@) is None,
        },
{
    match v {
        Json::Obj(es) => {
            let enable_k = "enable".to_owned();
            let enable = match entries_lookup(es, &enable_k) {
                Some(Json::Bool(b)) => *b,
                _ => {
                    return Err(StoreError::MalformedInput);
                },
            };
            let hooks_k = "enabled_hooks".to_owned();
            let hs = match entries_lookup(es, &hooks_k) {
                Some(Json::Arr(hs)) => hs,
                _ => {
                    return Err(StoreError::MalformedInput);
                },
            };
            let ghost hv = jv_of_seq(hs@);
            let mut hooks: Vec<String> = Vec::new();
            let mut i: usize = 0;
            while i < hs.len()
                invariant
                    i <= hs.len(),
                    hooks@.len() == i,
                    forall|m: int| 0 <= m < i ==> hv[m] == Jv::Str(hooks@[m]@),
                decreases hs.len() - i,
            {
                match &hs[i] {
                    Json::Str(s) => {
                        hooks.push(s.clone());
                    },
                    _ => {
                        proof {
                            lemma_decode_string_seq_bad(hv, i as int);
                        }
                        return Err(StoreError::MalformedInput);
                    },
                }
                i = i + 1;
            }
            proof {
                lemma_decode_string_seq_all(hv, hooks@.map_values(|s: String| s@));
            }
            Ok(NotificationSettings { enable, enabled_hooks: hooks })
        },
        _ => Err(StoreError::MalformedInput),
    }
}

/// A JSON array with a non-string element holds no string sequence.
proof fn lemma_decode_string_seq_bad(hs: Seq<Jv>, i: int)
    requires
        0 <= i < hs.len(),
        !(hs[i] is Str),
    ensures
        decode_string_seq(hs) is None,
    decreases i,
{
    if i > 0 {
        lemma_decode_string_seq_bad(hs.drop_first(), i - 1);
    }
}

/// A JSON array whose elements are exactly the strings `ss` reads as
/// `ss`.
proof fn lemma_decode_string_seq_all(hs: Seq<Jv>, ss: Seq<Seq<char>>)
    requires
        hs.len() == ss.len(),
        forall|m: int| 0 <= m < hs.len() ==> hs[m] == Jv::Str(ss[m]),
    ensures
        decode_string_seq(hs) == Some(ss),
    decreases hs.len(),
{
    if hs.len() == 0 {
        assert(ss =~= Seq::<Seq<char>>::empty());
    } else {
        assert(forall|m: int|
            0 <= m < hs.drop_first().len() ==> hs.drop_first()[m] == hs[m + 1] && ss.drop_first()[m]
                == ss[m + 1]);
        lemma_decode_string_seq_all(hs.drop_first(), ss.drop_first());
        assert((seq![ss[0]] + ss.drop_first()) =~= ss);
    }
}

/// Read one profile out of a JSON value.
fn decode_profile(v: &Json) -> (r: Result<ConfigStore, StoreError>)
    ensures
        match r {
            Ok(c) => decode_profile_v(v@) == Some(c@),
            Err(e) => e == StoreError::MalformedInput && decode_profile_v(v@) is None,
        },
{
    match v {
        Json::Obj(es) => {
            let id_k = "id".to_owned();
            let id = match entries_lookup(es, &id_k) {
                Some(Json::Str(s)) => s.clone(),
                _ => {
                    return Err(StoreError::MalformedInput);
                },
            };
            let title_k = "title".to_owned();
            let title = match entries_lookup(es, &title_k) {
                Some(Json::Str(s)) => s.clone(),
                _ => {
                    return Err(StoreError::MalformedInput);
                },
            };
            let created_k = "createdAt".to_owned();
            let created_at: u64 = match entries_lookup(es, &created_k) {
                Some(Json::UInt(n)) => *n,
                Some(Json::Int(n)) => {
                    if *n >= 0 {
                        *n as u64
                    } else {
                        return Err(StoreError::MalformedInput);
                    }
                },
                _ => {
                    return Err(StoreError::MalformedInput);
                },
            };
            let settings_k = "settings".to_owned();
            let settings = match entries_lookup(es, &settings_k) {
                Some(j) => j.deep_clone(),
                None => {
                    return Err(StoreError::MalformedInput);
                },
            };
            let using_k = "using".to_owned();
            let using = match entries_lookup(es, &using_k) {
                Some(Json::Bool(b)) => *b,
                _ => {
                    return Err(StoreError::MalformedInput);
                },
            };
            Ok(ConfigStore { id, title, created_at, settings, using })
        },
        _ => Err(StoreError::MalformedInput),
    }
}

/// Read the whole store document out of a JSON value; fails with
/// `MalformedInput` exactly when the value does not have the persisted
/// shape.
#[verifier::loop_isolation(false)]
pub fn decode_stores_data(v: &Json) -> (r: Result<StoresData, StoreError>)
    ensures
        match r {
            Ok(d) => decode_doc_v(v@) == Some(d@),
            Err(e) => e == StoreError::MalformedInput && decode_doc_v(v@) is None,
        },
{
    match v {
        Json::Obj(es) => {
            let configs_k = "configs".to_owned();
            let cs = match entries_lookup(es, &configs_k) {
                Some(Json::Arr(cs)) => cs,
                _ => {
                    return Err(StoreError::MalformedInput);
                },
            };
            let ghost cv = jv_of_seq(cs@);
            let mut configs: Vec<ConfigStore> = Vec::new();
            let mut i: usize = 0;
            while i < cs.len()
                invariant
                    i <= cs.len(),
                    configs@.len() == i,
                    forall|m: int|
                        0 <= m < i ==> decode_profile_v(cv[m]) == Some(views_of(configs@)[m]),
                decreases cs.len() - i,
            {
                match decode_profile(&cs[i]) {
                    Ok(c) => {
                        configs.push(c);
                    },
                    Err(e) => {
                        proof {
                            lemma_decode_profiles_bad(cv, i as int);
                        }
                        return Err(StoreError::MalformedInput);
                    },
                }
                i = i + 1;
            }
            proof {
                lemma_decode_profiles_all(cv, views_of(configs@));
            }
            let distinct_k = "distinct_id".to_owned();
            let distinct_id: Option<String> = match entries_lookup(es, &distinct_k) {
                None => None,
                Some(Json::Null) => None,
                Some(Json::Str(s)) => Some(s.clone()),
                Some(_) => {
                    return Err(StoreError::MalformedInput);
                },
            };
            let notification_k = "notification".to_owned();
            let notification: Option<NotificationSettings> = match entries_lookup(
                es,
                &notification_k,
            ) {
                None => None,
                Some(Json::Null) => None,
                Some(j) => match decode_notification(j) {
                    Ok(n) => Some(n),
                    Err(e) => {
                        return Err(StoreError::MalformedInput);
                    },
                },
            };
            Ok(StoresData { configs, distinct_id, notification })
        },
        _ => Err(StoreError::MalformedInput),
    }
}

/// A JSON array with an element that is no profile holds no profile
/// sequence.
proof fn lemma_decode_profiles_bad(s: Seq<Jv>, i: int)
    requires
        0 <= i < s.len(),
        decode_profile_v(s[i]) is None,
    ensures
        decode_profiles(s) is None,
    decreases i,
{
    if i > 0 {
        lemma_decode_profiles_bad(s.drop_first(), i - 1);
    }
}

/// A JSON array whose elements read as exactly the profiles `cs` reads
/// as `cs`.
proof fn lemma_decode_profiles_all(s: Seq<Jv>, cs: Seq<ConfigStoreV>)
    requires
        s.len() == cs.len(),
        forall|m: int| 0 <= m < s.len() ==> decode_profile_v(s[m]) == Some(cs[m]),
    ensures
        decode_profiles(s) == Some(cs),
    decreases s.len(),
{
    if s.len() == 0 {
        assert(cs =~= Seq::<ConfigStoreV>::empty());
    } else {
        assert(forall|m: int|
            0 <= m < s.drop_first().len() ==> s.drop_first()[m] == s[m + 1] && cs.drop_first()[m]
                == cs[m + 1]);
        lemma_decode_profiles_all(s.drop_first(), cs.drop_first());
        assert((seq![cs[0]] + cs.drop_first()) =~= cs);
    }
}

/// Write the notification preferences as JSON.
#[verifier::loop_isolation(false)]
fn encode_notification(n: &NotificationSettings) -> (r: Json)
    ensures
        r@ == encode_notification_v(n@),
{
    let mut hs: Vec<Json> = Vec::new();
    let mut i: usize = 0;
    while i < n.enabled_hooks.len()
        invariant
            i <= n.enabled_hooks.len(),
            hs@.len() == i,
            forall|m: int| 0 <= m < i ==> hs@[m]@ == Jv::Str(n.enabled_hooks@[m]@),
        decreases n.enabled_hooks.len() - i,
    {
        hs.push(Json::Str(n.enabled_hooks[i].clone()));
        i = i + 1;
    }
    let mut es: Vec<(String, Json)> = Vec::new();
    es.push(("enable".to_owned(), Json::Bool(n.enable)));
    es.push(("enabled_hooks".to_owned(), Json::Arr(hs)));
    let r = Json::Obj(es);
    proof {
        assert(jv_of_seq(hs@) =~~= encode_notification_v(n@)->Obj_0[1].1->Arr_0);
        assert(jv_of_entries(es@) =~~= encode_notification_v(n@)->Obj_0);
    }
    r
}

/// Write one profile as JSON.
fn encode_profile(c: &ConfigStore) -> (r: Json)
    ensures
        r@ == encode_profile_v(c@),
{
    let mut es: Vec<(String, Json)> = Vec::new();
    es.push(("id".to_owned(), Json::Str(c.id.clone())));
    es.push(("title".to_owned(), Json::Str(c.title.clone())));
    es.push(("createdAt".to_owned(), Json::UInt(c.created_at)));
    es.push(("settings".to_owned(), c.settings.deep_clone()));
    es.push(("using".to_owned(), Json::Bool(c.using)));
    let r = Json::Obj(es);
    proof {
        assert(jv_of_entries(es@) =~= encode_profile_v(c@)->Obj_0);
    }
    r
}

/// Write the whole store document as JSON, in the persisted shape.
#[verifier::loop_isolation(false)]
pub fn encode_stores_data(d: &StoresData) -> (r: Json)
    ensures
        r@ == encode_doc_v(d@),
{
    let mut cs: Vec<Json> = Vec::new();
    let mut i: usize = 0;
    while i < d.configs.len()
        invariant
            i <= d.configs.len(),
            cs@.len() == i,
            forall|m: int| 0 <= m < i ==> cs@[m]@ == encode_profile_v(views_of(d.configs@)[m]),
        decreases d.configs.len() - i,
    {
        let p = encode_profile(&d.configs[i]);
        cs.push(p);
        i = i + 1;
    }
    let mut es: Vec<(String, Json)> = Vec::new();
    es.push(("configs".to_owned(), Json::Arr(cs)));
    match &d.distinct_id {
        Some(s) => es.push(("distinct_id".to_owned(), Json::Str(s.clone()))),
        None => es.push(("distinct_id".to_owned(), Json::Null)),
    };
    match &d.notification {
        Some(n) => es.push(("notification".to_owned(), encode_notification(n))),
        None => es.push(("notification".to_owned(), Json::Null)),
    };
    let r = Json::Obj(es);
    proof {
        assert(jv_of_seq(cs@) =~~= encode_doc_v(d@)->Obj_0[0].1->Arr_0);
        assert(jv_of_entries(es@) =~~= encode_doc_v(d@)->Obj_0);
    }
    r
}

} // verus!

verus! {

/// The keys of the persisted document shape are pairwise distinct.
proof fn lemma_codec_keys_distinct()
    ensures
        "configs"@ != "distinct_id"@ && "configs"@ != "notification"@ && "distinct_id"@
            != "notification"@,
        "enable"@ != "enabled_hooks"@,
        "id"@ != "title"@ && "id"@ != "createdAt"@ && "id"@ != "settings"@ && "id"@ != "using"@,
        "title"@ != "createdAt"@ && "title"@ != "settings"@ && "title"@ != "using"@,
        "createdAt"@ != "settings"@ && "createdAt"@ != "using"@,
        "settings"@ != "using"@,
{
    reveal_strlit("configs");
    reveal_strlit("distinct_id");
    reveal_strlit("notification");
    reveal_strlit("enable");
    reveal_strlit("enabled_hooks");
    reveal_strlit("id");
    reveal_strlit("title");
    reveal_strlit("createdAt");
    reveal_strlit("settings");
    reveal_strlit("using");
    assert("configs"@.len() == 7);
    assert("distinct_id"@.len() == 11);
    assert("notification"@.len() == 12);
    assert("enable"@.len() == 6);
    assert("enabled_hooks"@.len() == 13);
    assert("id"@.len() == 2);
    assert("title"@.len() == 5);
    assert("createdAt"@.len() == 9);
    assert("settings"@.len() == 8);
    assert("using"@.len() == 5);
    assert("title"@[0] == 't' && "using"@[0] == 'u');
    assert("title"@ != "using"@);
}

/// A string array written by the encoder reads back as the same strings.
proof fn lemma_string_seq_round_trip(ss: Seq<Seq<char>>)
    ensures
        decode_string_seq(Seq::new(ss.len(), |i: int| Jv::Str(ss[i]))) == Some(ss),
{
    let hs = Seq::new(ss.len(), |i: int| Jv::Str(ss[i]));
    lemma_decode_string_seq_all(hs, ss);
}

/// Notification preferences written by the encoder read back unchanged.
proof fn lemma_notification_round_trip(n: NotificationSettingsV)
    ensures
        decode_notification_v(encode_notification_v(n)) == Some(n),
{
    lemma_codec_keys_distinct();
    let ev = encode_notification_v(n)->Obj_0;
    crate::json::lemma_lookup_at_first_index(ev, "enable"@, 0);
    assert(forall|m: int| 0 <= m < 1 ==> ev[m].0 != "enabled_hooks"@);
    crate::json::lemma_lookup_at_first_index(ev, "enabled_hooks"@, 1);
    lemma_string_seq_round_trip(n.enabled_hooks);
    assert(decode_notification_v(encode_notification_v(n)) == Some(
        NotificationSettingsV { enable: n.enable, enabled_hooks: n.enabled_hooks },
    ));
    assert(NotificationSettingsV { enable: n.enable, enabled_hooks: n.enabled_hooks } =~= n);
}

/// A profile written by the encoder reads back unchanged.
proof fn lemma_profile_round_trip(c: ConfigStoreV)
    ensures
        decode_profile_v(encode_profile_v(c)) == Some(c),
{
    lemma_codec_keys_distinct();
    let ev = encode_profile_v(c)->Obj_0;
    crate::json::lemma_lookup_at_first_index(ev, "id"@, 0);
    assert(forall|m: int| 0 <= m < 1 ==> ev[m].0 != "title"@);
    crate::json::lemma_lookup_at_first_index(ev, "title"@, 1);
    assert(forall|m: int| 0 <= m < 2 ==> ev[m].0 != "createdAt"@);
    crate::json::lemma_lookup_at_first_index(ev, "createdAt"@, 2);
    assert(forall|m: int| 0 <= m < 3 ==> ev[m].0 != "settings"@);
    crate::json::lemma_lookup_at_first_index(ev, "settings"@, 3);
    assert(forall|m: int| 0 <= m < 4 ==> ev[m].0 != "using"@);
    crate::json::lemma_lookup_at_first_index(ev, "using"@, 4);
    assert(ConfigStoreV {
        id: c.id,
        title: c.title,
        created_at: c.created_at,
        settings: c.settings,
        using: c.using,
    } =~= c);
}

/// A store document written by the encoder reads back unchanged: the
/// decoder undoes the encoder on every document.
pub proof fn lemma_codec_round_trip(d: StoresDataV)
    ensures
        decode_doc_v(encode_doc_v(d)) == Some(d),
{
    lemma_codec_keys_distinct();
    let ev = encode_doc_v(d)->Obj_0;
    crate::json::lemma_lookup_at_first_index(ev, "configs"@, 0);
    assert(forall|m: int| 0 <= m < 1 ==> ev[m].0 != "distinct_id"@);
    crate::json::lemma_lookup_at_first_index(ev, "distinct_id"@, 1);
    assert(forall|m: int| 0 <= m < 2 ==> ev[m].0 != "notification"@);
    crate::json::lemma_lookup_at_first_index(ev, "notification"@, 2);
    let encoded = Seq::new(d.configs.len(), |i: int| encode_profile_v(d.configs[i]));
    assert forall|m: int| 0 <= m < encoded.len() implies decode_profile_v(encoded[m]) == Some(
        d.configs[m],
    ) by {
        lemma_profile_round_trip(d.configs[m]);
    }
    lemma_decode_profiles_all(encoded, d.configs);
    match d.notification {
        Some(n) => {
            lemma_notification_round_trip(n);
        },
        None => {},
    }
    assert(StoresDataV {
        configs: d.configs,
        distinct_id: d.distinct_id,
        notification: d.notification,
    } =~= d);
}

} // verus!
