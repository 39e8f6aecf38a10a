//! An in-memory model of JSON documents.
//!
//! `Json` is the executable tree; `Jv` is its mathematical mirror, used by
//! every contract in this crate. Objects are ordered lists of key/value
//! pairs, so that a document read from disk can be written back with its
//! keys in the order in which they were found.

use vstd::prelude::*;

verus! {

/// Mathematical mirror of a JSON value.
#[verifier::ext_equal]
pub enum Jv {
    Null,
    Bool(bool),
    Int(i64),
    UInt(u64),
    /// A number that is not an integer, kept as its decimal source text.
    Decimal(Seq<char>),
    Str(Seq<char>),
    Arr(Seq<Jv>),
    Obj(Seq<(Seq<char>, Jv)>),
}

/// An executable JSON value.
#[derive(Debug)]
pub enum Json {
    Null,
    Bool(bool),
    Int(i64),
    UInt(u64),
    /// A number that is not an integer, kept as its decimal source text.
    Decimal(String),
    Str(String),
    Arr(Vec<Json>),
    Obj(Vec<(String, Json)>),
}

pub open spec fn jv_of_seq(s: Seq<Json>) -> Seq<Jv>
    decreases s,
{
    Seq::new(
        s.len(),
        |i: int|
            if 0 <= i < s.len() {
                jv(s[i])
            } else {
                Jv::Null
            },
    )
}

pub open spec fn jv_of_entries(s: Seq<(String, Json)>) -> Seq<(Seq<char>, Jv)>
    decreases s,
{
    Seq::new(
        s.len(),
        |i: int|
            if 0 <= i < s.len() {
                (s[i].0@, jv(s[i].1))
            } else {
                (Seq::<char>::empty(), Jv::Null)
            },
    )
}

pub open spec fn jv(j: Json) -> Jv
    decreases j,
{
    match j {
        Json::Null => Jv::Null,
        Json::Bool(b) => Jv::Bool(b),
        Json::Int(n) => Jv::Int(n),
        Json::UInt(n) => Jv::UInt(n),
        Json::Decimal(s) => Jv::Decimal(s@),
        Json::Str(s) => Jv::Str(s@),
        Json::Arr(v) => Jv::Arr(jv_of_seq(v@)),
        Json::Obj(v) => Jv::Obj(jv_of_entries(v@)),
    }
}

impl View for Json {
    type V = Jv;

    open spec fn view(&self) -> Jv {
        jv(*self)
    }
}

/// The value bound to key `k` in an object's entry list: the first entry
/// whose key is `k` wins, `None` if there is no such entry.
pub open spec fn lookup(es: Seq<(Seq<char>, Jv)>, k: Seq<char>) -> Option<Jv>
    decreases es.len(),
{
    if es.len() == 0 {
        None
    } else if es[0].0 == k {
        Some(es[0].1)
    } else {
        lookup(es.drop_first(), k)
    }
}

pub open spec fn has_key(es: Seq<(Seq<char>, Jv)>, k: Seq<char>) -> bool {
    lookup(es, k) is Some
}

/// The value bound to key `k` when `v` is an object; nothing otherwise.
pub open spec fn jv_get(v: Jv, k: Seq<char>) -> Option<Jv> {
    match v {
        Jv::Obj(es) => lookup(es, k),
        _ => None,
    }
}

/// Bind `k` to `v`: replace the first entry whose key is `k`, keeping its
/// position, or append a new entry when the key is absent.
pub open spec fn obj_set(es: Seq<(Seq<char>, Jv)>, k: Seq<char>, v: Jv) -> Seq<(Seq<char>, Jv)>
    decreases es.len(),
{
    if es.len() == 0 {
        seq![(k, v)]
    } else if es[0].0 == k {
        seq![(k, v)] + es.drop_first()
    } else {
        seq![es[0]] + obj_set(es.drop_first(), k, v)
    }
}

/// Drop the first entry whose key is `k`, if any.
pub open spec fn obj_remove(es: Seq<(Seq<char>, Jv)>, k: Seq<char>) -> Seq<(Seq<char>, Jv)>
    decreases es.len(),
{
    if es.len() == 0 {
        es
    } else if es[0].0 == k {
        es.drop_first()
    } else {
        seq![es[0]] + obj_remove(es.drop_first(), k)
    }
}

/// Shallow merge: bind every key of `patch`, in order, in `base`.
pub open spec fn merge_entries(
    base: Seq<(Seq<char>, Jv)>,
    patch: Seq<(Seq<char>, Jv)>,
) -> Seq<(Seq<char>, Jv)>
    decreases patch.len(),
{
    if patch.len() == 0 {
        base
    } else {
        merge_entries(obj_set(base, patch[0].0, patch[0].1), patch.drop_first())
    }
}

/// No two entries share a key.
pub open spec fn distinct_keys(es: Seq<(Seq<char>, Jv)>) -> bool {
    forall|i: int, j: int| 0 <= i < j < es.len() ==> es[i].0 != es[j].0
}

pub proof fn lemma_lookup_obj_set(
    es: Seq<(Seq<char>, Jv)>,
    k: Seq<char>,
    v: Jv,
    k2: Seq<char>,
)
    ensures
        lookup(obj_set(es, k, v), k2) == if k2 == k {
            Some(v)
        } else {
            lookup(es, k2)
        },
    decreases es.len(),
{
    if es.len() == 0 {
        let s = obj_set(es, k, v);
        assert(s.drop_first() =~= Seq::<(Seq<char>, Jv)>::empty());
        assert(lookup(s.drop_first(), k2) is None);
        assert(lookup(s, k2) == if k2 == k {
            Some(v)
        } else {
            lookup(s.drop_first(), k2)
        });
    } else if es[0].0 == k {
        assert(obj_set(es, k, v).drop_first() =~= es.drop_first());
    } else {
        lemma_lookup_obj_set(es.drop_first(), k, v, k2);
        assert(obj_set(es, k, v).drop_first() =~= obj_set(es.drop_first(), k, v));
    }
}

/// Binding a key to the value it already has leaves the object unchanged.
pub proof fn lemma_obj_set_same(es: Seq<(Seq<char>, Jv)>, k: Seq<char>, v: Jv)
    requires
        lookup(es, k) == Some(v),
    ensures
        obj_set(es, k, v) == es,
    decreases es.len(),
{
    if es.len() == 0 {
    } else if es[0].0 == k {
        assert(obj_set(es, k, v) =~= es);
    } else {
        lemma_obj_set_same(es.drop_first(), k, v);
        assert(obj_set(es, k, v) =~= es);
    }
}

/// After a merge, keys of the patch carry the patch's value and every other
/// key keeps the base's value. The patch's keys must be distinct.
pub proof fn lemma_merge_lookup(
    base: Seq<(Seq<char>, Jv)>,
    patch: Seq<(Seq<char>, Jv)>,
    k: Seq<char>,
)
    requires
        distinct_keys(patch),
    ensures
        lookup(merge_entries(base, patch), k) == if has_key(patch, k) {
            lookup(patch, k)
        } else {
            lookup(base, k)
        },
    decreases patch.len(),
{
    if patch.len() == 0 {
    } else {
        let base1 = obj_set(base, patch[0].0, patch[0].1);
        assert(forall|m: int|
            0 <= m < patch.drop_first().len() ==> patch.drop_first()[m] == patch[m + 1]);
        assert(distinct_keys(patch.drop_first()));
        lemma_merge_lookup(base1, patch.drop_first(), k);
        lemma_lookup_obj_set(base, patch[0].0, patch[0].1, k);
        if k == patch[0].0 {
            assert(!has_key(patch.drop_first(), k)) by {
                lemma_lookup_some_index(patch.drop_first(), k);
            }
        }
    }
}

/// When a key is bound, some entry carries it, and the bound value is the
/// first such entry's.
pub proof fn lemma_lookup_some_index(es: Seq<(Seq<char>, Jv)>, k: Seq<char>)
    ensures
        has_key(es, k) ==> exists|i: int|
            0 <= i < es.len() && es[i].0 == k && lookup(es, k) == Some(es[i].1),
        !has_key(es, k) ==> forall|i: int| 0 <= i < es.len() ==> es[i].0 != k,
    decreases es.len(),
{
    if es.len() == 0 {
    } else if es[0].0 == k {
        assert(es[0].0 == k && lookup(es, k) == Some(es[0].1));
    } else {
        lemma_lookup_some_index(es.drop_first(), k);
        assert(forall|m: int| 0 <= m < es.drop_first().len() ==> es.drop_first()[m] == es[m + 1]);
        if has_key(es, k) {
            let i = choose|i: int|
                0 <= i < es.drop_first().len() && es.drop_first()[i].0 == k && lookup(
                    es.drop_first(),
                    k,
                ) == Some(es.drop_first()[i].1);
            assert(es[i + 1].0 == k && lookup(es, k) == Some(es[i + 1].1));
        } else {
            assert forall|i: int| 0 <= i < es.len() implies es[i].0 != k by {
                if i >= 1 {
                    assert(es.drop_first()[i - 1] == es[i]);
                    assert(es.drop_first()[i - 1].0 != k);
                }
            }
        }
    }
}

/// The first entry carrying `k` at index `i` fixes what `lookup` returns.
pub proof fn lemma_lookup_at_first_index(es: Seq<(Seq<char>, Jv)>, k: Seq<char>, i: int)
    requires
        0 <= i < es.len(),
        es[i].0 == k,
        forall|m: int| 0 <= m < i ==> es[m].0 != k,
    ensures
        lookup(es, k) == Some(es[i].1),
    decreases i,
{
    if i == 0 {
    } else {
        assert(forall|m: int| 0 <= m < es.drop_first().len() ==> es.drop_first()[m] == es[m + 1]);
        lemma_lookup_at_first_index(es.drop_first(), k, i - 1);
    }
}

/// With no entry carrying `k`, `lookup` returns nothing.
pub proof fn lemma_lookup_absent(es: Seq<(Seq<char>, Jv)>, k: Seq<char>)
    requires
        forall|m: int| 0 <= m < es.len() ==> es[m].0 != k,
    ensures
        lookup(es, k) is None,
    decreases es.len(),
{
    if es.len() > 0 {
        assert(forall|m: int| 0 <= m < es.drop_first().len() ==> es.drop_first()[m] == es[m + 1]);
        lemma_lookup_absent(es.drop_first(), k);
    }
}

/// Replacing the first entry that carries `k` is what `obj_set` does.
pub proof fn lemma_obj_set_at_first_index(
    es: Seq<(Seq<char>, Jv)>,
    k: Seq<char>,
    v: Jv,
    i: int,
)
    requires
        0 <= i < es.len(),
        es[i].0 == k,
        forall|m: int| 0 <= m < i ==> es[m].0 != k,
    ensures
        obj_set(es, k, v) =~= es.update(i, (k, v)),
    decreases i,
{
    if i == 0 {
        assert((seq![(k, v)] + es.drop_first()) =~= es.update(0, (k, v)));
    } else {
        assert(forall|m: int| 0 <= m < es.drop_first().len() ==> es.drop_first()[m] == es[m + 1]);
        lemma_obj_set_at_first_index(es.drop_first(), k, v, i - 1);
        assert(obj_set(es, k, v) =~= seq![es[0]] + obj_set(es.drop_first(), k, v));
        assert((seq![es[0]] + es.drop_first().update(i - 1, (k, v))) =~= es.update(i, (k, v)));
    }
}

/// With no entry carrying `k`, `obj_set` appends a new entry.
pub proof fn lemma_obj_set_absent(es: Seq<(Seq<char>, Jv)>, k: Seq<char>, v: Jv)
    requires
        forall|m: int| 0 <= m < es.len() ==> es[m].0 != k,
    ensures
        obj_set(es, k, v) =~= es.push((k, v)),
    decreases es.len(),
{
    if es.len() == 0 {
        assert(obj_set(es, k, v) =~= es.push((k, v)));
    } else {
        assert(forall|m: int| 0 <= m < es.drop_first().len() ==> es.drop_first()[m] == es[m + 1]);
        lemma_obj_set_absent(es.drop_first(), k, v);
        assert((seq![es[0]] + es.drop_first().push((k, v))) =~= es.push((k, v)));
    }
}

/// Dropping the first entry that carries `k` is what `obj_remove` does.
pub proof fn lemma_obj_remove_at_first_index(es: Seq<(Seq<char>, Jv)>, k: Seq<char>, i: int)
    requires
        0 <= i < es.len(),
        es[i].0 == k,
        forall|m: int| 0 <= m < i ==> es[m].0 != k,
    ensures
        obj_remove(es, k) =~= es.remove(i),
    decreases i,
{
    if i == 0 {
        assert(obj_remove(es, k) =~= es.remove(0));
    } else {
        assert(forall|m: int| 0 <= m < es.drop_first().len() ==> es.drop_first()[m] == es[m + 1]);
        lemma_obj_remove_at_first_index(es.drop_first(), k, i - 1);
        assert((seq![es[0]] + es.drop_first().remove(i - 1)) =~= es.remove(i));
    }
}

/// With no entry carrying `k`, `obj_remove` changes nothing.
pub proof fn lemma_obj_remove_absent(es: Seq<(Seq<char>, Jv)>, k: Seq<char>)
    requires
        forall|m: int| 0 <= m < es.len() ==> es[m].0 != k,
    ensures
        obj_remove(es, k) =~= es,
    decreases es.len(),
{
    if es.len() > 0 {
        assert(forall|m: int| 0 <= m < es.drop_first().len() ==> es.drop_first()[m] == es[m + 1]);
        lemma_obj_remove_absent(es.drop_first(), k);
        assert((seq![es[0]] + es.drop_first()) =~= es);
    }
}

impl Json {
    /// A structural copy of the value.
    #[verifier::loop_isolation(false)]
    pub fn deep_clone(&self) -> (r: Json)
        ensures
            r@ == self@,
        decreases *self,
    {
        match self {
            Json::Null => Json::Null,
            Json::Bool(b) => Json::Bool(*b),
            Json::Int(n) => Json::Int(*n),
            Json::UInt(n) => Json::UInt(*n),
            Json::Decimal(s) => Json::Decimal(s.clone()),
            Json::Str(s) => Json::Str(s.clone()),
            Json::Arr(v) => {
                let mut out: Vec<Json> = Vec::new();
                let mut i: usize = 0;
                while i < v.len()
                    invariant
                        i <= v.len(),
                        out@.len() == i,
                        forall|m: int| 0 <= m < i ==> jv(out@[m]) == jv(v@[m]),
                    decreases v.len() - i,
                {
                    proof {
                        assert(decreases_to!(*self => *v));
                        assert(decreases_to!(*v => v@));
                        assert(decreases_to!(v@ => v@[i as int]));
                        assert(decreases_to!(*self => v@[i as int]));
                    }
                    let c = v[i].deep_clone();
                    out.push(c);
                    i = i + 1;
                }
                proof {
                    assert(jv_of_seq(out@) =~= jv_of_seq(v@));
                }
                Json::Arr(out)
            },
            Json::Obj(v) => {
                let mut out: Vec<(String, Json)> = Vec::new();
                let mut i: usize = 0;
                while i < v.len()
                    invariant
                        i <= v.len(),
                        out@.len() == i,
                        forall|m: int|
                            0 <= m < i ==> out@[m].0@ == v@[m].0@ && jv(out@[m].1) == jv(v@[m].1),
                    decreases v.len() - i,
                {
                    proof {
                        assert(decreases_to!(*self => *v));
                        assert(decreases_to!(*v => v@));
                        assert(decreases_to!(v@ => v@[i as int]));
                        assert(decreases_to!(v@[i as int] => v@[i as int].1));
                        assert(decreases_to!(*self => v@[i as int].1));
                    }
                    let k = v[i].0.clone();
                    let c = v[i].1.deep_clone();
                    out.push((k, c));
                    i = i + 1;
                }
                proof {
                    assert(jv_of_entries(out@) =~= jv_of_entries(v@));
                }
                Json::Obj(out)
            },
        }
    }
}

/// A structural copy of a list of values.
#[verifier::loop_isolation(false)]
pub fn clone_elems(v: &Vec<Json>) -> (r: Vec<Json>)
    ensures
        jv_of_seq(r@) == jv_of_seq(v@),
        r@.len() == v@.len(),
{
    let mut out: Vec<Json> = Vec::new();
    let mut i: usize = 0;
    while i < v.len()
        invariant
            i <= v.len(),
            out@.len() == i,
            forall|m: int| 0 <= m < i ==> jv(out@[m]) == jv(v@[m]),
        decreases v.len() - i,
    {
        let c = v[i].deep_clone();
        out.push(c);
        i = i + 1;
    }
    proof {
        assert(jv_of_seq(out@) =~= jv_of_seq(v@));
    }
    out
}

/// A structural copy of an object's entry list.
#[verifier::loop_isolation(false)]
pub fn clone_entries(es: &Vec<(String, Json)>) -> (r: Vec<(String, Json)>)
    ensures
        jv_of_entries(r@) == jv_of_entries(es@),
        r@.len() == es@.len(),
{
    let mut out: Vec<(String, Json)> = Vec::new();
    let mut i: usize = 0;
    while i < es.len()
        invariant
            i <= es.len(),
            out@.len() == i,
            forall|m: int| 0 <= m < i ==> out@[m].0@ == es@[m].0@ && jv(out@[m].1) == jv(es@[m].1),
        decreases es.len() - i,
    {
        let k = es[i].0.clone();
        let c = es[i].1.deep_clone();
        out.push((k, c));
        i = i + 1;
    }
    proof {
        assert(jv_of_entries(out@) =~= jv_of_entries(es@));
    }
    out
}

/// A reference to the value bound to `k`, scanning for the first entry
/// whose key is `k`.
#[verifier::loop_isolation(false)]
pub fn entries_lookup<'a>(es: &'a Vec<(String, Json)>, k: &String) -> (r: Option<&'a Json>)
    ensures
        match r {
            Some(j) => lookup(jv_of_entries(es@), k@) == Some(j@),
            None => lookup(jv_of_entries(es@), k@) is None,
        },
{
    let mut i: usize = 0;
    while i < es.len()
        invariant
            i <= es.len(),
            forall|m: int| 0 <= m < i ==> jv_of_entries(es@)[m].0 != k@,
        decreases es.len() - i,
    {
        if es[i].0 == *k {
            proof {
                lemma_lookup_at_first_index(jv_of_entries(es@), k@, i as int);
            }
            return Some(&es[i].1);
        }
        i = i + 1;
    }
    proof {
        lemma_lookup_absent(jv_of_entries(es@), k@);
    }
    None
}

/// Bind `k` to `v` in an entry list, replacing the first entry that
/// carries `k` or appending a new one.
#[verifier::loop_isolation(false)]
pub fn entries_set(es: &mut Vec<(String, Json)>, k: String, v: Json)
    ensures
        jv_of_entries(final(es)@) == obj_set(jv_of_entries(old(es)@), k@, v@),
{
    let ghost orig = jv_of_entries(old(es)@);
    let mut i: usize = 0;
    while i < es.len()
        invariant
            i <= es.len(),
            es@ == old(es)@,
            forall|m: int| 0 <= m < i ==> jv_of_entries(es@)[m].0 != k@,
        decreases es.len() - i,
    {
        if es[i].0 == k {
            proof {
                lemma_obj_set_at_first_index(orig, k@, v@, i as int);
            }
            es.set(i, (k, v));
            proof {
                assert(jv_of_entries(es@) =~= orig.update(i as int, (k@, v@)));
            }
            return ;
        }
        i = i + 1;
    }
    proof {
        lemma_obj_set_absent(orig, k@, v@);
    }
    es.push((k, v));
    proof {
        assert(jv_of_entries(es@) =~= orig.push((k@, v@)));
    }
}

/// Drop the first entry that carries `k`; reports whether one was found.
#[verifier::loop_isolation(false)]
pub fn entries_remove(es: &mut Vec<(String, Json)>, k: &String) -> (found: bool)
    ensures
        jv_of_entries(final(es)@) == obj_remove(jv_of_entries(old(es)@), k@),
        found == has_key(jv_of_entries(old(es)@), k@),
{
    let ghost orig = jv_of_entries(old(es)@);
    let mut i: usize = 0;
    while i < es.len()
        invariant
            i <= es.len(),
            es@ == old(es)@,
            forall|m: int| 0 <= m < i ==> jv_of_entries(es@)[m].0 != k@,
        decreases es.len() - i,
    {
        if es[i].0 == *k {
            proof {
                lemma_obj_remove_at_first_index(orig, k@, i as int);
                lemma_lookup_at_first_index(orig, k@, i as int);
            }
            let _ = es.remove(i);
            proof {
                assert(jv_of_entries(es@) =~= orig.remove(i as int));
            }
            return true;
        }
        i = i + 1;
    }
    proof {
        lemma_lookup_absent(orig, k@);
        lemma_obj_remove_absent(orig, k@);
        assert(jv_of_entries(es@) =~= orig);
    }
    false
}

/// Shallow merge of `patch` into `base`: every top-level key of `patch` is
/// bound in `base`, in the order in which `patch` lists them.
#[verifier::loop_isolation(false)]
pub fn merge_object(base: &mut Vec<(String, Json)>, patch: &Vec<(String, Json)>)
    ensures
        jv_of_entries(final(base)@) == merge_entries(jv_of_entries(old(base)@), jv_of_entries(patch@)),
{
    let ghost orig = jv_of_entries(old(base)@);
    let ghost pv = jv_of_entries(patch@);
    proof {
        assert(pv.subrange(0, pv.len() as int) =~= pv);
    }
    let mut i: usize = 0;
    while i < patch.len()
        invariant
            i <= patch.len(),
            pv == jv_of_entries(patch@),
            merge_entries(jv_of_entries(base@), pv.subrange(i as int, pv.len() as int))
                == merge_entries(orig, pv),
        decreases patch.len() - i,
    {
        let ghost before = jv_of_entries(base@);
        let ghost rest = pv.subrange(i as int, pv.len() as int);
        let k = patch[i].0.clone();
        let v = patch[i].1.deep_clone();
        entries_set(base, k, v);
        proof {
            assert(rest.len() > 0);
            assert(rest[0] == pv[i as int]);
            assert(rest.drop_first() =~= pv.subrange(i as int + 1, pv.len() as int));
            assert(merge_entries(before, rest) == merge_entries(
                obj_set(before, pv[i as int].0, pv[i as int].1),
                rest.drop_first(),
            ));
        }
        i = i + 1;
    }
    proof {
        assert(pv.subrange(pv.len() as int, pv.len() as int) =~= Seq::<(Seq<char>, Jv)>::empty());
    }
}

} // verus!
