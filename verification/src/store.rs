//! The store of named profiles: its data model and every operation that
//! reads or rewrites it.
//!
//! The store document and the live settings document are both read whole
//! and written whole; an operation takes the state of the two documents,
//! changes it, and leaves the caller to persist what changed. On any
//! failure the state is left exactly as it was.

use vstd::prelude::*;
use crate::errors::StoreError;
use crate::json::{Json, Jv};
use crate::live::{projected, project_settings, JsonDoc, JsonDocV};

verus! {

/// A named profile: a persisted snapshot of the tool's settings, one of
/// which may be active ("using").
#[derive(Debug)]
pub struct ConfigStore {
    pub id: String,
    pub title: String,
    pub created_at: u64,
    pub settings: Json,
    pub using: bool,
}

/// Mathematical mirror of `ConfigStore`.
#[verifier::ext_equal]
pub struct ConfigStoreV {
    pub id: Seq<char>,
    pub title: Seq<char>,
    pub created_at: u64,
    pub settings: Jv,
    pub using: bool,
}

impl View for ConfigStore {
    type V = ConfigStoreV;

    open spec fn view(&self) -> ConfigStoreV {
        ConfigStoreV {
            id: self.id@,
            title: self.title@,
            created_at: self.created_at,
            settings: self.settings@,
            using: self.using,
        }
    }
}

/// Whether notifications are shown, and for which hook events.
#[derive(Debug)]
pub struct NotificationSettings {
    pub enable: bool,
    pub enabled_hooks: Vec<String>,
}

/// Mathematical mirror of `NotificationSettings`.
#[verifier::ext_equal]
pub struct NotificationSettingsV {
    pub enable: bool,
    pub enabled_hooks: Seq<Seq<char>>,
}

impl View for NotificationSettings {
    type V = NotificationSettingsV;

    open spec fn view(&self) -> NotificationSettingsV {
        NotificationSettingsV {
            enable: self.enable,
            enabled_hooks: self.enabled_hooks@.map_values(|s: String| s@),
        }
    }
}

/// The store document: the collection of profiles plus the auxiliary
/// installation identifier and notification preferences.
#[derive(Debug)]
pub struct StoresData {
    pub configs: Vec<ConfigStore>,
    pub distinct_id: Option<String>,
    pub notification: Option<NotificationSettings>,
}

/// Mathematical mirror of `StoresData`.
#[verifier::ext_equal]
pub struct StoresDataV {
    pub configs: Seq<ConfigStoreV>,
    pub distinct_id: Option<Seq<char>>,
    pub notification: Option<NotificationSettingsV>,
}

impl View for StoresData {
    type V = StoresDataV;

    open spec fn view(&self) -> StoresDataV {
        StoresDataV {
            configs: views_of(self.configs@),
            distinct_id: match self.distinct_id {
                Some(s) => Some(s@),
                None => None,
            },
            notification: match self.notification {
                Some(n) => Some(n@),
                None => None,
            },
        }
    }
}

/// The in-memory state of the two documents every operation works on:
/// the store document (if its file exists and parsed) and the live
/// settings document.
#[derive(Debug)]
pub struct SystemState {
    pub store: Option<StoresData>,
    pub live: JsonDoc,
}

/// Mathematical mirror of `SystemState`.
#[verifier::ext_equal]
pub struct SystemStateV {
    pub store: Option<StoresDataV>,
    pub live: JsonDocV,
}

impl View for SystemState {
    type V = SystemStateV;

    open spec fn view(&self) -> SystemStateV {
        SystemStateV {
            store: match self.store {
                Some(d) => Some(d@),
                None => None,
            },
            live: self.live@,
        }
    }
}

/// The hard-coded default notification preferences: enabled, for the
/// "Notification" hook event only.
pub open spec fn default_notification_v() -> NotificationSettingsV {
    NotificationSettingsV { enable: true, enabled_hooks: seq!["Notification"@] }
}

/// A store document with no profiles, no installation identifier, and
/// the default notification preferences.
pub open spec fn fresh_doc_v() -> StoresDataV {
    StoresDataV {
        configs: Seq::empty(),
        distinct_id: None,
        notification: Some(default_notification_v()),
    }
}

/// Whether some profile in the collection carries the id.
pub open spec fn has_id(cs: Seq<ConfigStoreV>, id: Seq<char>) -> bool {
    exists|i: int| 0 <= i < cs.len() && cs[i].id == id
}

/// No two profiles share an id.
pub open spec fn distinct_ids(cs: Seq<ConfigStoreV>) -> bool {
    forall|i: int, j: int| 0 <= i < j < cs.len() ==> cs[i].id != cs[j].id
}

/// At most one profile is active.
pub open spec fn at_most_one_active(cs: Seq<ConfigStoreV>) -> bool {
    forall|i: int, j: int| 0 <= i < j < cs.len() ==> !(cs[i].using && cs[j].using)
}

/// The invariant every operation preserves: profile ids are unique and
/// at most one profile is active.
pub open spec fn store_wf(d: StoresDataV) -> bool {
    distinct_ids(d.configs) && at_most_one_active(d.configs)
}

impl ConfigStore {
    /// A structural copy of the profile.
    pub fn duplicate(&self) -> (r: ConfigStore)
        ensures
            r@ == self@,
    {
        ConfigStore {
            id: self.id.clone(),
            title: self.title.clone(),
            created_at: self.created_at,
            settings: self.settings.deep_clone(),
            using: self.using,
        }
    }
}

impl NotificationSettings {
    /// A structural copy of the preferences.
    pub fn duplicate(&self) -> (r: NotificationSettings)
        ensures
            r@ == self@,
    {
        let mut hooks: Vec<String> = Vec::new();
        let mut i: usize = 0;
        #[verifier::loop_isolation(false)]
        while i < self.enabled_hooks.len()
            invariant
                i <= self.enabled_hooks.len(),
                hooks@.len() == i,
                forall|m: int| 0 <= m < i ==> hooks@[m] == self.enabled_hooks@[m],
            decreases self.enabled_hooks.len() - i,
        {
            hooks.push(self.enabled_hooks[i].clone());
            i = i + 1;
        }
        proof {
            assert(hooks@ =~= self.enabled_hooks@);
        }
        NotificationSettings { enable: self.enable, enabled_hooks: hooks }
    }
}

/// The hard-coded default notification preferences.
pub fn default_notification_settings() -> (r: NotificationSettings)
    ensures
        r@ == default_notification_v(),
{
    let mut hooks: Vec<String> = Vec::new();
    hooks.push("Notification".to_owned());
    proof {
        assert(hooks@.map_values(|s: String| s@) =~= seq!["Notification"@]);
    }
    NotificationSettings { enable: true, enabled_hooks: hooks }
}

/// A store document with no profiles and the default preferences, used
/// wherever an operation must create the document for the first time.
pub fn fresh_stores_data() -> (r: StoresData)
    ensures
        r@ == fresh_doc_v(),
{
    let configs: Vec<ConfigStore> = Vec::new();
    proof {
        assert(configs@.map_values(|c: ConfigStore| c@) =~= Seq::<ConfigStoreV>::empty());
    }
    StoresData { configs, distinct_id: None, notification: Some(default_notification_settings()) }
}

/// The views of the profiles in the collection.
pub open spec fn views_of(cs: Seq<ConfigStore>) -> Seq<ConfigStoreV> {
    cs.map_values(|c: ConfigStore| c@)
}

/// The first profile carrying `id`, if any: its index, with nothing
/// before it carrying the id.
fn find_first_by_id(cs: &Vec<ConfigStore>, id: &String) -> (r: Option<usize>)
    ensures
        match r {
            Some(i) => {
                &&& 0 <= i < cs@.len()
                &&& views_of(cs@)[i as int].id == id@
                &&& forall|m: int| 0 <= m < i ==> views_of(cs@)[m].id != id@
            },
            None => forall|m: int| 0 <= m < cs@.len() ==> views_of(cs@)[m].id != id@,
        },
{
    let mut i: usize = 0;
    #[verifier::loop_isolation(false)]
    while i < cs.len()
        invariant
            i <= cs.len(),
            forall|m: int| 0 <= m < i ==> views_of(cs@)[m].id != id@,
        decreases cs.len() - i,
    {
        if cs[i].id == *id {
            return Some(i);
        }
        i = i + 1;
    }
    None
}

/// The last profile carrying `id`, if any: its index, with nothing
/// after it carrying the id.
fn find_last_by_id(cs: &Vec<ConfigStore>, id: &String) -> (r: Option<usize>)
    ensures
        match r {
            Some(i) => {
                &&& 0 <= i < cs@.len()
                &&& views_of(cs@)[i as int].id == id@
                &&& forall|m: int| i < m < cs@.len() ==> views_of(cs@)[m].id != id@
            },
            None => forall|m: int| 0 <= m < cs@.len() ==> views_of(cs@)[m].id != id@,
        },
{
    let mut found: Option<usize> = None;
    let mut i: usize = 0;
    #[verifier::loop_isolation(false)]
    while i < cs.len()
        invariant
            i <= cs.len(),
            match found {
                Some(f) => {
                    &&& 0 <= f < i
                    &&& views_of(cs@)[f as int].id == id@
                    &&& forall|m: int| f < m < i ==> views_of(cs@)[m].id != id@
                },
                None => forall|m: int| 0 <= m < i ==> views_of(cs@)[m].id != id@,
            },
        decreases cs.len() - i,
    {
        if cs[i].id == *id {
            found = Some(i);
        }
        i = i + 1;
    }
    found
}

/// The persisted notification preferences: nothing when the store
/// document does not exist or carries none.
pub fn get_notification_settings(state: &SystemState) -> (r: Option<NotificationSettings>)
    ensures
        match state@.store {
            None => r is None,
            Some(d) => match r {
                Some(n) => d.notification == Some(n@),
                None => d.notification is None,
            },
        },
{
    match &state.store {
        None => None,
        Some(d) => match &d.notification {
            None => None,
            Some(n) => Some(n.duplicate()),
        },
    }
}

/// The store document after its notification preferences are replaced,
/// the document itself being created if it did not exist.
pub open spec fn with_notification_v(
    pre: Option<StoresDataV>,
    n: NotificationSettingsV,
) -> StoresDataV {
    match pre {
        Some(d) => StoresDataV { configs: d.configs, distinct_id: d.distinct_id, notification: Some(n) },
        None => StoresDataV { configs: Seq::empty(), distinct_id: None, notification: Some(n) },
    }
}

/// Replace the stored notification preferences, creating the store
/// document if it does not exist yet.
pub fn update_notification_settings(state: &mut SystemState, settings: NotificationSettings)
    ensures
        final(state)@.live == old(state)@.live,
        final(state)@.store == Some(with_notification_v(old(state)@.store, settings@)),
        match old(state)@.store {
            Some(d) => store_wf(d) ==> store_wf(final(state)@.store->Some_0),
            None => store_wf(final(state)@.store->Some_0),
        },
{
    let mut taken: Option<StoresData> = None;
    core::mem::swap(&mut state.store, &mut taken);
    match taken {
        Some(mut d) => {
            d.notification = Some(settings);
            state.store = Some(d);
        },
        None => {
            let mut d = fresh_stores_data();
            d.notification = Some(settings);
            state.store = Some(d);
        },
    }
}

/// The persisted installation identifier, or a fresh one: the first
/// generated identifier is kept for good, and later calls return it
/// unchanged. Creates the store document if it does not exist yet.
pub fn get_or_create_distinct_id(state: &mut SystemState) -> (r: String)
    ensures
        final(state)@.live == old(state)@.live,
        final(state)@.store matches Some(d) && d.distinct_id == Some(r@),
        ({
            let d = final(state)@.store->Some_0;
            match old(state)@.store {
                Some(od) => {
                    &&& d.configs == od.configs
                    &&& d.notification == od.notification
                    &&& od.distinct_id matches Some(id) ==> d == od && r@ == id
                },
                None => d.configs == Seq::<ConfigStoreV>::empty() && d.notification == Some(
                    default_notification_v(),
                ),
            }
        }),
        match old(state)@.store {
            Some(d) => store_wf(d) ==> store_wf(final(state)@.store->Some_0),
            None => store_wf(final(state)@.store->Some_0),
        },
{
    let mut taken: Option<StoresData> = None;
    core::mem::swap(&mut state.store, &mut taken);
    match taken {
        Some(mut d) => {
            let mut existing: Option<String> = None;
            core::mem::swap(&mut d.distinct_id, &mut existing);
            match existing {
                Some(id) => {
                    let out = id.clone();
                    d.distinct_id = Some(id);
                    state.store = Some(d);
                    out
                },
                None => {
                    let fresh = crate::ids::generate_uuid_string();
                    let out = fresh.clone();
                    d.distinct_id = Some(fresh);
                    state.store = Some(d);
                    out
                },
            }
        },
        None => {
            let mut d = fresh_stores_data();
            let fresh = crate::ids::generate_uuid_string();
            let out = fresh.clone();
            d.distinct_id = Some(fresh);
            state.store = Some(d);
            out
        },
    }
}

} // verus!

verus! {

/// The store document an operation starts from: the existing one, or a
/// fresh one when the document does not exist yet.
pub open spec fn doc_or_fresh(pre: Option<StoresDataV>) -> StoresDataV {
    match pre {
        Some(d) => d,
        None => fresh_doc_v(),
    }
}

/// Create a profile. Fails when the id is already taken. The first
/// profile of an empty collection is created active and its settings are
/// projected onto the live settings document; any later profile is
/// created inactive and leaves the live settings document alone.
fn create_in_doc(
    d: &mut StoresData,
    live: &mut JsonDoc,
    id: String,
    title: String,
    settings: Json,
    now: u64,
) -> (r: Result<ConfigStore, StoreError>)
    ensures
        match r {
            Ok(p) => {
                &&& !has_id(old(d)@.configs, id@)
                &&& p@ == (ConfigStoreV {
                    id: id@,
                    title: title@,
                    created_at: now,
                    settings: settings@,
                    using: old(d)@.configs.len() == 0,
                })
                &&& final(d)@ == (StoresDataV {
                    configs: old(d)@.configs.push(p@),
                    distinct_id: old(d)@.distinct_id,
                    notification: old(d)@.notification,
                })
                &&& if old(d)@.configs.len() == 0 {
                    &&& !(old(live)@ is Malformed)
                    &&& final(live)@ == JsonDocV::Present(projected(old(live)@, settings@))
                } else {
                    final(live)@ == old(live)@
                }
            },
            Err(e) => {
                &&& final(d)@ == old(d)@
                &&& final(live)@ == old(live)@
                &&& (e == StoreError::DuplicateField <==> has_id(old(d)@.configs, id@))
                &&& (e == StoreError::MalformedInput ==> old(d)@.configs.len() == 0 && old(
                    live,
                )@ is Malformed)
                &&& (e is DuplicateField || e is MalformedInput)
            },
        },
{
    if find_first_by_id(&d.configs, &id).is_some() {
        return Err(StoreError::DuplicateField);
    }
    let was_empty = d.configs.len() == 0;
    if was_empty {
        match project_settings(live, &settings) {
            Err(e) => {
                return Err(e);
            },
            Ok(doc) => {
                *live = JsonDoc::Present(doc);
            },
        }
    }
    let p = ConfigStore { id, title, created_at: now, settings, using: was_empty };
    let out = p.duplicate();
    d.configs.push(p);
    proof {
        assert(views_of(d.configs@) =~= views_of(old(d).configs@).push(out@));
    }
    Ok(out)
}

/// Create a profile in the store, creating the store document first when
/// it does not exist. Fails with `DuplicateField` when a profile already
/// carries the id, and with `MalformedInput` when the first profile is
/// being created but the live settings document cannot be parsed; on
/// failure nothing changes.
pub fn create_config(
    state: &mut SystemState,
    id: String,
    title: String,
    settings: Json,
    now: u64,
) -> (r: Result<ConfigStore, StoreError>)
    ensures
        match r {
            Ok(p) => {
                let pre = doc_or_fresh(old(state)@.store);
                &&& !has_id(pre.configs, id@)
                &&& p@ == (ConfigStoreV {
                    id: id@,
                    title: title@,
                    created_at: now,
                    settings: settings@,
                    using: pre.configs.len() == 0,
                })
                &&& final(state)@.store == Some(StoresDataV {
                    configs: pre.configs.push(p@),
                    distinct_id: pre.distinct_id,
                    notification: pre.notification,
                })
                &&& if pre.configs.len() == 0 {
                    &&& !(old(state)@.live is Malformed)
                    &&& final(state)@.live == JsonDocV::Present(
                        projected(old(state)@.live, settings@),
                    )
                } else {
                    final(state)@.live == old(state)@.live
                }
                &&& store_wf(pre) ==> store_wf(final(state)@.store->Some_0)
            },
            Err(e) => {
                let pre = doc_or_fresh(old(state)@.store);
                &&& final(state)@ == old(state)@
                &&& (e == StoreError::DuplicateField <==> has_id(pre.configs, id@))
                &&& (e == StoreError::MalformedInput ==> pre.configs.len() == 0 && old(
                    state,
                )@.live is Malformed)
                &&& (e is DuplicateField || e is MalformedInput)
            },
        },
{
    let mut taken: Option<StoresData> = None;
    core::mem::swap(&mut state.store, &mut taken);
    match taken {
        Some(mut d) => {
            let r = create_in_doc(&mut d, &mut state.live, id, title, settings, now);
            state.store = Some(d);
            proof {
                if r is Ok && store_wf(doc_or_fresh(old(state)@.store)) {
                    let pre = doc_or_fresh(old(state)@.store);
                    let p = r->Ok_0@;
                    assert forall|i: int, j: int|
                        0 <= i < j < pre.configs.push(p).len() implies !(pre.configs.push(p)[i].using
                        && pre.configs.push(p)[j].using) by {
                        if j < pre.configs.len() {
                        } else {
                            assert(pre.configs.push(p)[j] == p);
                        }
                    }
                }
            }
            r
        },
        None => {
            let mut d = fresh_stores_data();
            let r = create_in_doc(&mut d, &mut state.live, id, title, settings, now);
            match r {
                Ok(p) => {
                    state.store = Some(d);
                    proof {
                        let pre = doc_or_fresh(old(state)@.store);
                        assert(pre.configs.push(p@).len() == 1);
                    }
                    Ok(p)
                },
                Err(e) => {
                    state.store = None;
                    Err(e)
                },
            }
        },
    }
}

/// Delete the profile carrying the id. Fails with `StoreUninitialized`
/// when the store document does not exist and with `NotFound` when no
/// profile carries the id; on failure nothing changes. No other profile
/// is promoted when the active profile is deleted.
pub fn delete_config(state: &mut SystemState, store_id: &String) -> (r: Result<(), StoreError>)
    ensures
        match r {
            Ok(_) => {
                &&& old(state)@.store matches Some(od)
                &&& has_id(od.configs, store_id@)
                &&& final(state)@.store == Some(StoresDataV {
                    configs: od.configs.filter(|c: ConfigStoreV| c.id != store_id@),
                    distinct_id: od.distinct_id,
                    notification: od.notification,
                })
                &&& final(state)@.live == old(state)@.live
                &&& store_wf(od) ==> store_wf(final(state)@.store->Some_0)
            },
            Err(e) => {
                &&& final(state)@ == old(state)@
                &&& (e == StoreError::StoreUninitialized <==> old(state)@.store is None)
                &&& (e == StoreError::NotFound <==> (old(state)@.store matches Some(od)
                    && !has_id(od.configs, store_id@)))
                &&& (e is StoreUninitialized || e is NotFound)
            },
        },
{
    let mut taken: Option<StoresData> = None;
    core::mem::swap(&mut state.store, &mut taken);
    match taken {
        None => Err(StoreError::StoreUninitialized),
        Some(mut d) => {
            match find_first_by_id(&d.configs, store_id) {
                None => {
                    state.store = Some(d);
                    Err(StoreError::NotFound)
                },
                Some(_) => {
                    let ghost pred = |c: ConfigStoreV| c.id != store_id@;
                    let ghost ov = views_of(d.configs@);
                    let mut kept: Vec<ConfigStore> = Vec::new();
                    let mut i: usize = 0;
                    proof {
                        reveal(Seq::filter);
                        assert(ov.subrange(0, 0) =~= Seq::<ConfigStoreV>::empty());
                        assert(views_of(kept@) =~= Seq::<ConfigStoreV>::empty());
                    }
                    #[verifier::loop_isolation(false)]
                    while i < d.configs.len()
                        invariant
                            i <= d.configs.len(),
                            views_of(kept@) =~= ov.subrange(0, i as int).filter(pred),
                        decreases d.configs.len() - i,
                    {
                        let ghost prefix = ov.subrange(0, i as int);
                        let ghost prefix1 = ov.subrange(0, i as int + 1);
                        proof {
                            reveal(Seq::filter);
                            assert(prefix1.drop_last() =~= prefix);
                            assert(prefix1.last() == ov[i as int]);
                        }
                        if d.configs[i].id == *store_id {
                            proof {
                                reveal(Seq::filter);
                                assert(!pred(ov[i as int]));
                                assert(prefix1.filter(pred) =~= prefix.filter(pred));
                            }
                        } else {
                            let ghost kv = views_of(kept@);
                            let c = d.configs[i].duplicate();
                            kept.push(c);
                            proof {
                                reveal(Seq::filter);
                                assert(pred(ov[i as int]));
                                assert(prefix1.filter(pred) =~= prefix.filter(pred).push(
                                    ov[i as int],
                                ));
                                assert(views_of(kept@) =~= kv.push(c@));
                            }
                        }
                        i = i + 1;
                    }
                    proof {
                        assert(ov.subrange(0, ov.len() as int) =~= ov);
                    }
                    d.configs = kept;
                    state.store = Some(d);
                    proof {
                        let fv = ov.filter(pred);
                        if store_wf(old(state)@.store->Some_0) {
                            assert forall|a: int, b: int|
                                0 <= a < b < fv.len() implies fv[a].id != fv[b].id && !(fv[a].using
                                && fv[b].using) by {
                                lemma_filter_pair(ov, pred, a, b);
                                let (i, j) = choose|i: int, j: int|
                                    0 <= i < j < ov.len() && ov[i] == fv[a] && ov[j] == fv[b];
                            }
                        }
                    }
                    Ok(())
                },
            }
        },
    }
}

/// An element that survives a filter comes from an element of the
/// original sequence.
proof fn lemma_filter_elem_from<A>(s: Seq<A>, pred: spec_fn(A) -> bool, a: int)
    requires
        0 <= a < s.filter(pred).len(),
    ensures
        exists|i: int| 0 <= i < s.len() && s[i] == s.filter(pred)[a],
    decreases s.len(),
{
    reveal(Seq::filter);
    let fv = s.filter(pred);
    if s.len() == 0 {
    } else {
        let last = s.last();
        let prev = s.drop_last();
        let pf = prev.filter(pred);
        assert(forall|m: int| 0 <= m < prev.len() ==> prev[m] == s[m]);
        if pred(last) && a == pf.len() {
            assert(s[s.len() - 1] == fv[a]);
        } else {
            lemma_filter_elem_from(prev, pred, a);
            let i = choose|i: int| 0 <= i < prev.len() && prev[i] == pf[a];
            assert(s[i] == fv[a]);
        }
    }
}

/// Two elements that survive a filter, in order, come from two elements
/// of the original sequence, in order.
proof fn lemma_filter_pair<A>(s: Seq<A>, pred: spec_fn(A) -> bool, a: int, b: int)
    requires
        0 <= a < b < s.filter(pred).len(),
    ensures
        exists|i: int, j: int|
            0 <= i < j < s.len() && s[i] == s.filter(pred)[a] && s[j] == s.filter(pred)[b],
    decreases s.len(),
{
    reveal(Seq::filter);
    let fv = s.filter(pred);
    if s.len() == 0 {
    } else {
        let last = s.last();
        let prev = s.drop_last();
        let pf = prev.filter(pred);
        assert(forall|m: int| 0 <= m < prev.len() ==> prev[m] == s[m]);
        if pred(last) {
            assert(fv == pf.push(last));
            if b == pf.len() {
                assert(fv[b] == last && last == s[s.len() - 1]);
                assert(fv[a] == pf[a]);
                lemma_filter_elem_from(prev, pred, a);
                let i = choose|i: int| 0 <= i < prev.len() && prev[i] == pf[a];
                assert(s[i] == fv[a] && s[s.len() - 1] == fv[b] && i < s.len() - 1);
            } else {
                lemma_filter_pair(prev, pred, a, b);
                let (i, j) = choose|i: int, j: int|
                    0 <= i < j < prev.len() && prev[i] == pf[a] && prev[j] == pf[b];
                assert(fv[a] == pf[a] && fv[b] == pf[b]);
                assert(s[i] == fv[a] && s[j] == fv[b]);
            }
        } else {
            assert(fv == pf);
            lemma_filter_pair(prev, pred, a, b);
            let (i, j) = choose|i: int, j: int|
                0 <= i < j < prev.len() && prev[i] == pf[a] && prev[j] == pf[b];
            assert(s[i] == fv[a] && s[j] == fv[b]);
        }
    }
}

} // verus!

verus! {

/// Replace the title and settings of the profile carrying the id; its
/// identity, creation time and active flag stay untouched. When the
/// profile is the active one, the new settings are projected onto the
/// live settings document. Fails with `StoreUninitialized` when the
/// store document does not exist, `NotFound` when no profile carries the
/// id, and `MalformedInput` when a projection was due but the live
/// settings document cannot be parsed; on failure nothing changes.
pub fn update_config(
    state: &mut SystemState,
    store_id: &String,
    title: String,
    settings: Json,
) -> (r: Result<ConfigStore, StoreError>)
    ensures
        match r {
            Ok(p) => {
                &&& old(state)@.store matches Some(od)
                &&& exists|i: int|
                    #![auto]
                    {
                        &&& 0 <= i < od.configs.len()
                        &&& od.configs[i].id == store_id@
                        &&& (forall|m: int| 0 <= m < i ==> od.configs[m].id != store_id@)
                        &&& p@ == (ConfigStoreV {
                            id: od.configs[i].id,
                            title: title@,
                            created_at: od.configs[i].created_at,
                            settings: settings@,
                            using: od.configs[i].using,
                        })
                        &&& final(state)@.store == Some(StoresDataV {
                            configs: od.configs.update(i, p@),
                            distinct_id: od.distinct_id,
                            notification: od.notification,
                        })
                        &&& if od.configs[i].using {
                            &&& !(old(state)@.live is Malformed)
                            &&& final(state)@.live == JsonDocV::Present(
                                projected(old(state)@.live, settings@),
                            )
                        } else {
                            final(state)@.live == old(state)@.live
                        }
                    }
                &&& store_wf(od) ==> store_wf(final(state)@.store->Some_0)
            },
            Err(e) => {
                &&& final(state)@ == old(state)@
                &&& (e == StoreError::StoreUninitialized <==> old(state)@.store is None)
                &&& (e == StoreError::NotFound <==> (old(state)@.store matches Some(od)
                    && !has_id(od.configs, store_id@)))
                &&& (e == StoreError::MalformedInput ==> old(state)@.live is Malformed)
                &&& (e is StoreUninitialized || e is NotFound || e is MalformedInput)
            },
        },
{
    let mut taken: Option<StoresData> = None;
    core::mem::swap(&mut state.store, &mut taken);
    match taken {
        None => Err(StoreError::StoreUninitialized),
        Some(mut d) => {
            let ghost ov = views_of(d.configs@);
            match find_first_by_id(&d.configs, store_id) {
                None => {
                    state.store = Some(d);
                    Err(StoreError::NotFound)
                },
                Some(fi) => {
                    if d.configs[fi].using {
                        match project_settings(&state.live, &settings) {
                            Err(e) => {
                                state.store = Some(d);
                                return Err(e);
                            },
                            Ok(doc) => {
                                state.live = JsonDoc::Present(doc);
                            },
                        }
                    }
                    let mut tmp = ConfigStore {
                        id: String::new(),
                        title: String::new(),
                        created_at: 0,
                        settings: Json::Null,
                        using: false,
                    };
                    d.configs.set_and_swap(fi, &mut tmp);
                    tmp.title = title;
                    tmp.settings = settings;
                    let out = tmp.duplicate();
                    d.configs.set_and_swap(fi, &mut tmp);
                    state.store = Some(d);
                    proof {
                        assert(views_of(d.configs@) =~= ov.update(fi as int, out@));
                        let od = old(state)@.store->Some_0;
                        let wi = fi as int;
                        assert(exists|i: int|
                            #![auto]
                            {
                                &&& 0 <= i < od.configs.len()
                                &&& od.configs[i].id == store_id@
                                &&& (forall|m: int| 0 <= m < i ==> od.configs[m].id != store_id@)
                                &&& out@ == (ConfigStoreV {
                                    id: od.configs[i].id,
                                    title: title@,
                                    created_at: od.configs[i].created_at,
                                    settings: settings@,
                                    using: od.configs[i].using,
                                })
                                &&& state@.store == Some(StoresDataV {
                                    configs: od.configs.update(i, out@),
                                    distinct_id: od.distinct_id,
                                    notification: od.notification,
                                })
                                &&& if od.configs[i].using {
                                    &&& !(old(state)@.live is Malformed)
                                    &&& state@.live == JsonDocV::Present(
                                        projected(old(state)@.live, settings@),
                                    )
                                } else {
                                    state@.live == old(state)@.live
                                }
                            }) by {
                            assert(0 <= wi < od.configs.len());
                            assert(od.configs[wi].id == store_id@);
                        }
                        let nv = views_of(d.configs@);
                        if store_wf(old(state)@.store->Some_0) {
                            assert forall|a: int, b: int|
                                0 <= a < b < nv.len() implies nv[a].id != nv[b].id && !(nv[a].using
                                && nv[b].using) by {
                                assert(nv[a].id == ov[a].id && nv[a].using == ov[a].using);
                                assert(nv[b].id == ov[b].id && nv[b].using == ov[b].using);
                            }
                        }
                    }
                    Ok(out)
                },
            }
        },
    }
}

/// Make the profile carrying the id the single active one: its flag is
/// set and every other profile's flag is cleared, and its settings are
/// projected onto the live settings document. Fails with
/// `StoreUninitialized` when the store document does not exist,
/// `NotFound` when no profile carries the id, and `MalformedInput` when
/// the live settings document cannot be parsed; on failure nothing
/// changes.
pub fn set_using_config(state: &mut SystemState, store_id: &String) -> (r: Result<
    (),
    StoreError,
>)
    ensures
        match r {
            Ok(_) => {
                &&& old(state)@.store matches Some(od)
                &&& has_id(od.configs, store_id@)
                &&& final(state)@.store matches Some(d)
                &&& ({
                    let d = final(state)@.store->Some_0;
                    &&& d.distinct_id == od.distinct_id
                    &&& d.notification == od.notification
                    &&& d.configs.len() == od.configs.len()
                    &&& forall|m: int|
                        0 <= m < od.configs.len() ==> d.configs[m] == (ConfigStoreV {
                            id: od.configs[m].id,
                            title: od.configs[m].title,
                            created_at: od.configs[m].created_at,
                            settings: od.configs[m].settings,
                            using: od.configs[m].id == store_id@,
                        })
                })
                &&& !(old(state)@.live is Malformed)
                &&& exists|i: int|
                    #![auto]
                    {
                        &&& 0 <= i < od.configs.len()
                        &&& od.configs[i].id == store_id@
                        &&& (forall|m: int|
                            i < m < od.configs.len() ==> od.configs[m].id != store_id@)
                        &&& final(state)@.live == JsonDocV::Present(
                            projected(old(state)@.live, od.configs[i].settings),
                        )
                    }
                &&& distinct_ids(od.configs) ==> store_wf(final(state)@.store->Some_0)
            },
            Err(e) => {
                &&& final(state)@ == old(state)@
                &&& (e == StoreError::StoreUninitialized <==> old(state)@.store is None)
                &&& (e == StoreError::NotFound <==> (old(state)@.store matches Some(od)
                    && !has_id(od.configs, store_id@)))
                &&& (e == StoreError::MalformedInput ==> old(state)@.live is Malformed)
                &&& (e is StoreUninitialized || e is NotFound || e is MalformedInput)
            },
        },
{
    let mut taken: Option<StoresData> = None;
    core::mem::swap(&mut state.store, &mut taken);
    match taken {
        None => Err(StoreError::StoreUninitialized),
        Some(mut d) => {
            let ghost ov = views_of(d.configs@);
            match find_last_by_id(&d.configs, store_id) {
                None => {
                    state.store = Some(d);
                    Err(StoreError::NotFound)
                },
                Some(li) => {
                    match project_settings(&state.live, &d.configs[li].settings) {
                        Err(e) => {
                            state.store = Some(d);
                            Err(e)
                        },
                        Ok(doc) => {
                            let ghost odv = d@;
                            let mut i: usize = 0;
                            #[verifier::loop_isolation(false)]
                            while i < d.configs.len()
                                invariant
                                    i <= d.configs.len(),
                                    d@.distinct_id == odv.distinct_id,
                                    d@.notification == odv.notification,
                                    d.configs@.len() == ov.len(),
                                    forall|m: int|
                                        i <= m < ov.len() ==> views_of(d.configs@)[m] == ov[m],
                                    forall|m: int|
                                        0 <= m < i ==> views_of(d.configs@)[m] == (ConfigStoreV {
                                            id: ov[m].id,
                                            title: ov[m].title,
                                            created_at: ov[m].created_at,
                                            settings: ov[m].settings,
                                            using: ov[m].id == store_id@,
                                        }),
                                decreases d.configs.len() - i,
                            {
                                let ghost before = views_of(d.configs@);
                                let flag = d.configs[i].id == *store_id;
                                let mut tmp = ConfigStore {
                                    id: String::new(),
                                    title: String::new(),
                                    created_at: 0,
                                    settings: Json::Null,
                                    using: false,
                                };
                                d.configs.set_and_swap(i, &mut tmp);
                                tmp.using = flag;
                                d.configs.set_and_swap(i, &mut tmp);
                                proof {
                                    assert(views_of(d.configs@) =~= before.update(
                                        i as int,
                                        views_of(d.configs@)[i as int],
                                    ));
                                }
                                i = i + 1;
                            }
                            state.live = JsonDoc::Present(doc);
                            state.store = Some(d);
                            proof {
                                let od = old(state)@.store->Some_0;
                                let nv = views_of(d.configs@);
                                if distinct_ids(od.configs) {
                                    assert forall|a: int, b: int|
                                        0 <= a < b < nv.len() implies nv[a].id != nv[b].id && !(
                                        nv[a].using && nv[b].using) by {
                                        assert(nv[a].id == ov[a].id && nv[b].id == ov[b].id);
                                    }
                                }
                            }
                            Ok(())
                        },
                    }
                },
            }
        },
    }
}

} // verus!

verus! {

broadcast use vstd::seq_lib::group_to_multiset_ensures;

/// The fixed title given to the profile that the migration synthesizes.
pub open spec fn migration_title() -> Seq<char> {
    "原有配置"@
}

/// The fixed title given to the profile that the migration synthesizes.
pub fn default_migration_title() -> (r: String)
    ensures
        r@ == migration_title(),
{
    "原有配置".to_owned()
}

/// The store document with the default notification preferences filled
/// in where none were stored.
pub open spec fn backfilled(d: StoresDataV) -> StoresDataV {
    StoresDataV {
        configs: d.configs,
        distinct_id: d.distinct_id,
        notification: if d.notification is Some {
            d.notification
        } else {
            Some(default_notification_v())
        },
    }
}

/// What the migration produces: a store document holding exactly one
/// profile, active, whose settings are a snapshot of the live settings
/// document, with the fixed title, a six-character identifier, and the
/// default notification preferences.
pub open spec fn migrated_doc_v(d: StoresDataV, j: Jv, now: u64) -> bool {
    &&& d.configs.len() == 1
    &&& d.configs[0].id.len() == 6
    &&& d.configs[0].title == migration_title()
    &&& d.configs[0].created_at == now
    &&& d.configs[0].settings == j
    &&& d.configs[0].using
    &&& d.distinct_id is None
    &&& d.notification == Some(default_notification_v())
}

/// How listing the profiles changes the state: an existing store
/// document is backfilled, an absent one is synthesized from the live
/// settings document when that exists, and nothing changes when neither
/// document exists.
pub open spec fn list_transition(pre: SystemStateV, post: SystemStateV, now: u64) -> bool {
    match pre.store {
        Some(od) => post.live == pre.live && post.store == Some(backfilled(od)),
        None => match pre.live {
            JsonDocV::Present(j) => {
                &&& post.live == pre.live
                &&& post.store matches Some(d) && migrated_doc_v(d, j, now)
            },
            _ => post == pre,
        },
    }
}

/// Profiles in ascending order of creation time.
pub open spec fn sorted_by_created(s: Seq<ConfigStoreV>) -> bool {
    forall|i: int, j: int| 0 <= i <= j < s.len() ==> s[i].created_at <= s[j].created_at
}

/// Synthesize the first profile from a pre-existing live settings
/// document: a store document holding only that profile, active, whose
/// settings are the document as it stands.
pub fn migrate_live_settings(j: &Json, fresh_id: String, now: u64) -> (d: StoresData)
    ensures
        d@ == (StoresDataV {
            configs: seq![
                ConfigStoreV {
                    id: fresh_id@,
                    title: migration_title(),
                    created_at: now,
                    settings: j@,
                    using: true,
                },
            ],
            distinct_id: None,
            notification: Some(default_notification_v()),
        }),
{
    let mut configs: Vec<ConfigStore> = Vec::new();
    configs.push(
        ConfigStore {
            id: fresh_id,
            title: default_migration_title(),
            created_at: now,
            settings: j.deep_clone(),
            using: true,
        },
    );
    proof {
        assert(views_of(configs@) =~= seq![
            ConfigStoreV {
                id: fresh_id@,
                title: migration_title(),
                created_at: now,
                settings: j@,
                using: true,
            },
        ]);
    }
    StoresData { configs, distinct_id: None, notification: Some(default_notification_settings()) }
}

/// The position of a profile with the smallest creation time.
fn index_of_min_created(cs: &Vec<ConfigStore>) -> (r: usize)
    requires
        cs@.len() > 0,
    ensures
        r < cs@.len(),
        forall|m: int|
            0 <= m < cs@.len() ==> views_of(cs@)[r as int].created_at <= views_of(
                cs@,
            )[m].created_at,
{
    let mut best: usize = 0;
    let mut i: usize = 1;
    #[verifier::loop_isolation(false)]
    while i < cs.len()
        invariant
            best < i <= cs.len(),
            forall|m: int|
                0 <= m < i ==> views_of(cs@)[best as int].created_at <= views_of(
                    cs@,
                )[m].created_at,
        decreases cs.len() - i,
    {
        if cs[i].created_at < cs[best].created_at {
            best = i;
        }
        i = i + 1;
    }
    best
}

/// A copy of the collection, sorted by creation time ascending. The
/// copy holds the same profiles; the collection itself keeps its order.
pub fn sorted_clone(cs: &Vec<ConfigStore>) -> (r: Vec<ConfigStore>)
    ensures
        views_of(r@).to_multiset() == views_of(cs@).to_multiset(),
        sorted_by_created(views_of(r@)),
        r@.len() == cs@.len(),
{
    let mut src: Vec<ConfigStore> = Vec::new();
    let mut i: usize = 0;
    #[verifier::loop_isolation(false)]
    while i < cs.len()
        invariant
            i <= cs.len(),
            src@.len() == i,
            forall|m: int| 0 <= m < i ==> views_of(src@)[m] == views_of(cs@)[m],
        decreases cs.len() - i,
    {
        let c = cs[i].duplicate();
        src.push(c);
        i = i + 1;
    }
    proof {
        assert(views_of(src@) =~= views_of(cs@));
    }
    let ghost whole = views_of(cs@);
    let mut out: Vec<ConfigStore> = Vec::new();
    proof {
        assert(views_of(out@) =~= Seq::<ConfigStoreV>::empty());
        assert(views_of(out@).to_multiset().add(views_of(src@).to_multiset()) =~= whole.to_multiset());
    }
    #[verifier::loop_isolation(false)]
    while src.len() > 0
        invariant
            views_of(out@).to_multiset().add(views_of(src@).to_multiset()) == whole.to_multiset(),
            out@.len() + src@.len() == whole.len(),
            sorted_by_created(views_of(out@)),
            forall|a: int, b: int|
                0 <= a < out@.len() && 0 <= b < src@.len() ==> views_of(out@)[a].created_at
                    <= views_of(src@)[b].created_at,
        decreases src.len(),
    {
        let ghost sv = views_of(src@);
        let ghost outv = views_of(out@);
        let mi = index_of_min_created(&src);
        let x = src.remove(mi);
        out.push(x);
        proof {
            sv.remove_ensures(mi as int);
            assert(views_of(src@) =~= sv.remove(mi as int));
            assert(views_of(out@) =~= outv.push(x@));
            assert(views_of(out@).to_multiset().add(views_of(src@).to_multiset()) =~= whole.to_multiset());
        }
    }
    proof {
        assert(views_of(src@).to_multiset().len() == 0);
        assert(views_of(out@).to_multiset() =~= whole.to_multiset());
        assert(out@.len() == whole.len());
    }
    out
}

/// List the profiles, sorted by creation time ascending. When the store
/// document does not exist it is synthesized from the live settings
/// document if that exists (the one-time migration, which fails with
/// `MalformedInput` when the live settings document cannot be parsed),
/// and stays absent otherwise. A stored document missing its
/// notification preferences has the default filled in and kept.
pub fn get_stores(state: &mut SystemState, now: u64) -> (r: Result<Vec<ConfigStore>, StoreError>)
    ensures
        match r {
            Ok(profiles) => {
                &&& list_transition(old(state)@, final(state)@, now)
                &&& !(old(state)@.store is None && old(state)@.live is Malformed)
                &&& match final(state)@.store {
                    Some(d) => {
                        &&& views_of(profiles@).to_multiset() == d.configs.to_multiset()
                        &&& sorted_by_created(views_of(profiles@))
                        &&& profiles@.len() == d.configs.len()
                        &&& match old(state)@.store {
                            Some(od) => store_wf(od) ==> store_wf(d),
                            None => store_wf(d),
                        }
                    },
                    None => profiles@.len() == 0,
                }
            },
            Err(e) => {
                &&& final(state)@ == old(state)@
                &&& e == StoreError::MalformedInput
                &&& old(state)@.store is None && old(state)@.live is Malformed
            },
        },
{
    let mut taken: Option<StoresData> = None;
    core::mem::swap(&mut state.store, &mut taken);
    match taken {
        Some(mut d) => {
            let ghost odv = d@;
            if d.notification.is_none() {
                d.notification = Some(default_notification_settings());
            }
            proof {
                assert(d@ =~= backfilled(odv));
            }
            let out = sorted_clone(&d.configs);
            state.store = Some(d);
            Ok(out)
        },
        None => {
            match &state.live {
                JsonDoc::Absent => Ok(Vec::new()),
                JsonDoc::Malformed => Err(StoreError::MalformedInput),
                JsonDoc::Present(j) => {
                    let id = crate::ids::generate_short_id(6);
                    let d = migrate_live_settings(j, id, now);
                    let out = sorted_clone(&d.configs);
                    state.store = Some(d);
                    Ok(out)
                },
            }
        },
    }
}

/// A store document that the migration has just written settles: listing
/// it again backfills nothing and returns its single profile, so the
/// migration runs at most once.
pub proof fn lemma_migration_settles(d: StoresDataV, j: Jv, now: u64)
    requires
        migrated_doc_v(d, j, now),
    ensures
        backfilled(d) == d,
        store_wf(d),
        d.configs.len() == 1,
{
    assert(backfilled(d) =~= d);
}

/// The profile that is active, taken from the sorted listing: nothing
/// when no profile is active. The listing itself migrates or backfills
/// the store exactly as `get_stores` does.
pub fn get_current_store(state: &mut SystemState, now: u64) -> (r: Result<
    Option<ConfigStore>,
    StoreError,
>)
    ensures
        match r {
            Ok(opt) => {
                &&& list_transition(old(state)@, final(state)@, now)
                &&& match opt {
                    Some(p) => {
                        &&& p@.using
                        &&& final(state)@.store matches Some(d)
                            && d.configs.to_multiset().contains(p@)
                    },
                    None => match final(state)@.store {
                        Some(d) => forall|m: int|
                            0 <= m < d.configs.len() ==> !d.configs[m].using,
                        None => true,
                    },
                }
            },
            Err(e) => {
                &&& final(state)@ == old(state)@
                &&& e == StoreError::MalformedInput
                &&& old(state)@.store is None && old(state)@.live is Malformed
            },
        },
{
    let profiles = match get_stores(state, now) {
        Err(e) => {
            return Err(e);
        },
        Ok(profiles) => profiles,
    };
    let ghost pv = views_of(profiles@);
    let mut i: usize = 0;
    #[verifier::loop_isolation(false)]
    while i < profiles.len()
        invariant
            i <= profiles.len(),
            forall|m: int| 0 <= m < i ==> !pv[m].using,
        decreases profiles.len() - i,
    {
        if profiles[i].using {
            let p = profiles[i].duplicate();
            proof {
                assert(pv.to_multiset().contains(pv[i as int])) by {
                    assert(pv.contains(pv[i as int]));
                }
            }
            return Ok(Some(p));
        }
        i = i + 1;
    }
    proof {
        if state@.store is Some {
            let d = state@.store->Some_0;
            assert forall|m: int| 0 <= m < d.configs.len() implies !d.configs[m].using by {
                assert(d.configs.to_multiset().contains(d.configs[m])) by {
                    assert(d.configs.contains(d.configs[m]));
                }
                assert(pv.to_multiset().contains(d.configs[m]));
                let w = choose|w: int| 0 <= w < pv.len() && pv[w] == d.configs[m];
            }
        }
    }
    Ok(None)
}

/// The profile carrying the id, taken from the sorted listing; fails
/// with `NotFound` when no profile carries it. The listing itself
/// migrates or backfills the store exactly as `get_stores` does.
pub fn get_store(state: &mut SystemState, store_id: &String, now: u64) -> (r: Result<
    ConfigStore,
    StoreError,
>)
    ensures
        match r {
            Ok(p) => {
                &&& list_transition(old(state)@, final(state)@, now)
                &&& p@.id == store_id@
                &&& final(state)@.store matches Some(d) && d.configs.to_multiset().contains(p@)
            },
            Err(e) => {
                &&& e is MalformedInput || e is NotFound
                &&& e == StoreError::MalformedInput ==> final(state)@ == old(state)@
                    && old(state)@.store is None && old(state)@.live is Malformed
                &&& e == StoreError::NotFound ==> list_transition(old(state)@, final(state)@, now)
                    && (match final(state)@.store {
                    Some(d) => !has_id(d.configs, store_id@),
                    None => true,
                })
            },
        },
{
    let profiles = match get_stores(state, now) {
        Err(e) => {
            return Err(e);
        },
        Ok(profiles) => profiles,
    };
    let ghost pv = views_of(profiles@);
    let mut i: usize = 0;
    #[verifier::loop_isolation(false)]
    while i < profiles.len()
        invariant
            i <= profiles.len(),
            forall|m: int| 0 <= m < i ==> pv[m].id != store_id@,
        decreases profiles.len() - i,
    {
        if profiles[i].id == *store_id {
            let p = profiles[i].duplicate();
            proof {
                assert(pv.to_multiset().contains(pv[i as int])) by {
                    assert(pv.contains(pv[i as int]));
                }
            }
            return Ok(p);
        }
        i = i + 1;
    }
    proof {
        if state@.store is Some {
            let d = state@.store->Some_0;
            assert forall|m: int| 0 <= m < d.configs.len() implies d.configs[m].id != store_id@ by {
                assert(d.configs.to_multiset().contains(d.configs[m])) by {
                    assert(d.configs.contains(d.configs[m]));
                }
                assert(pv.to_multiset().contains(d.configs[m]));
                let w = choose|w: int| 0 <= w < pv.len() && pv[w] == d.configs[m];
            }
        }
    }
    Err(StoreError::NotFound)
}

} // verus!
