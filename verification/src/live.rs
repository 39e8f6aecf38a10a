//! The state of a JSON document on disk, and the projection of a
//! profile's settings onto the live settings document.

use vstd::prelude::*;
use crate::errors::StoreError;
use crate::json::{
    clone_entries, entries_lookup, entries_set, has_key, jv_get, jv_of_entries, lookup,
    merge_entries, merge_object, distinct_keys, lemma_merge_lookup, obj_set, Json, Jv,
};

verus! {

/// What a read of a JSON document found: no file, a file that is not
/// valid JSON, or a parsed value.
#[derive(Debug)]
pub enum JsonDoc {
    Absent,
    Malformed,
    Present(Json),
}

/// Mathematical mirror of `JsonDoc`.
#[verifier::ext_equal]
pub enum JsonDocV {
    Absent,
    Malformed,
    Present(Jv),
}

impl View for JsonDoc {
    type V = JsonDocV;

    open spec fn view(&self) -> JsonDocV {
        match self {
            JsonDoc::Absent => JsonDocV::Absent,
            JsonDoc::Malformed => JsonDocV::Malformed,
            JsonDoc::Present(j) => JsonDocV::Present(j@),
        }
    }
}

/// The document that results from projecting the settings patch `p` onto
/// the document `l`: a shallow merge when both are objects, a wholesale
/// replacement when either is not, and a merge into an empty object when
/// there is no document yet.
pub open spec fn projected(l: JsonDocV, p: Jv) -> Jv {
    match p {
        Jv::Obj(pes) => match l {
            JsonDocV::Present(lj) => match lj {
                Jv::Obj(bes) => Jv::Obj(merge_entries(bes, pes)),
                _ => p,
            },
            _ => Jv::Obj(merge_entries(Seq::empty(), pes)),
        },
        _ => p,
    }
}

/// Merge the settings patch into the live settings document and return
/// the document to be written back. Top-level keys of the patch are
/// inserted or overwritten; every other key of the document survives
/// unchanged. A document that could not be parsed is rejected.
pub fn project_settings(live: &JsonDoc, patch: &Json) -> (r: Result<Json, StoreError>)
    ensures
        match r {
            Ok(doc) => !(live@ is Malformed) && doc@ == projected(live@, patch@),
            Err(e) => e == StoreError::MalformedInput && live@ is Malformed,
        },
{
    match live {
        JsonDoc::Malformed => Err(StoreError::MalformedInput),
        JsonDoc::Absent => match patch {
            Json::Obj(pes) => {
                let mut base: Vec<(String, Json)> = Vec::new();
                proof {
                    assert(jv_of_entries(base@) =~= Seq::<(Seq<char>, Jv)>::empty());
                }
                merge_object(&mut base, pes);
                Ok(Json::Obj(base))
            },
            _ => Ok(patch.deep_clone()),
        },
        JsonDoc::Present(lj) => match patch {
            Json::Obj(pes) => match lj {
                Json::Obj(bes) => {
                    let mut base = clone_entries(bes);
                    merge_object(&mut base, pes);
                    Ok(Json::Obj(base))
                },
                _ => Ok(patch.deep_clone()),
            },
            _ => Ok(patch.deep_clone()),
        },
    }
}

/// The projection merges and does not replace: after projecting a patch
/// object onto a live object, every top-level key of the patch carries
/// the patch's value, and every other key of the live document keeps the
/// value it had.
pub proof fn lemma_projected_merges(
    bes: Seq<(Seq<char>, Jv)>,
    pes: Seq<(Seq<char>, Jv)>,
    k: Seq<char>,
)
    requires
        distinct_keys(pes),
    ensures
        ({
            let out = projected(JsonDocV::Present(Jv::Obj(bes)), Jv::Obj(pes));
            &&& out matches Jv::Obj(oes)
            &&& lookup(out->Obj_0, k) == if has_key(pes, k) {
                lookup(pes, k)
            } else {
                lookup(bes, k)
            }
        }),
{
    lemma_merge_lookup(bes, pes, k);
}

/// The auxiliary tool configuration after the extension is unlocked: a
/// document that already carries the key is untouched, an object without
/// it gains it, a missing document becomes one holding only the key, and
/// a non-object document is left as it stands.
pub open spec fn unlocked(doc: JsonDocV) -> Jv {
    match doc {
        JsonDocV::Present(j) => match j {
            Jv::Obj(es) => if has_key(es, "primaryApiKey"@) {
                j
            } else {
                Jv::Obj(obj_set(es, "primaryApiKey"@, Jv::Str("xxx"@)))
            },
            _ => j,
        },
        _ => Jv::Obj(seq![("primaryApiKey"@, Jv::Str("xxx"@))]),
    }
}

/// Ensure the tool's auxiliary configuration file carries the key that
/// unlocks the extension: returns the document to write back, or nothing
/// when the key is already there and no write is due. Fails with
/// `MalformedInput` when the file exists but cannot be parsed.
pub fn unlock_cc_ext(cfg: &JsonDoc) -> (r: Result<Option<Json>, StoreError>)
    ensures
        match r {
            Ok(opt) => {
                &&& !(cfg@ is Malformed)
                &&& match opt {
                    Some(j) => j@ == unlocked(cfg@) && !(cfg@ matches JsonDocV::Present(c)
                        && jv_get(c, "primaryApiKey"@) is Some),
                    None => cfg@ matches JsonDocV::Present(c) && jv_get(
                        c,
                        "primaryApiKey"@,
                    ) is Some,
                }
            },
            Err(e) => e == StoreError::MalformedInput && cfg@ is Malformed,
        },
{
    let key = "primaryApiKey".to_owned();
    match cfg {
        JsonDoc::Malformed => Err(StoreError::MalformedInput),
        JsonDoc::Absent => {
            let mut es: Vec<(String, Json)> = Vec::new();
            es.push((key, Json::Str("xxx".to_owned())));
            let out = Json::Obj(es);
            proof {
                assert(jv_of_entries(es@) =~= seq![("primaryApiKey"@, Jv::Str("xxx"@))]);
            }
            Ok(Some(out))
        },
        JsonDoc::Present(j) => match j {
            Json::Obj(es) => {
                if entries_lookup(es, &key).is_some() {
                    Ok(None)
                } else {
                    let mut out = clone_entries(es);
                    entries_set(&mut out, key, Json::Str("xxx".to_owned()));
                    Ok(Some(Json::Obj(out)))
                }
            },
            _ => Ok(Some(j.deep_clone())),
        },
    }
}

} // verus!
