//! Management of the global MCP server table and the project table kept
//! inside the tool's global configuration document.

use vstd::prelude::*;
use crate::errors::StoreError;
use crate::json::{
    clone_entries, entries_lookup, entries_remove, entries_set, jv_get, jv_of_entries, lookup,
    obj_remove, obj_set, Json, Jv,
};
use crate::live::{JsonDoc, JsonDocV};

verus! {

/// One MCP server: its configuration object, kept verbatim.
#[derive(Debug)]
pub struct McpServer {
    pub config: Json,
}

/// One project of the tool's global configuration: its path and its
/// configuration object, kept verbatim.
#[derive(Debug)]
pub struct ProjectConfig {
    pub path: String,
    pub config: Json,
}

/// The entries of a named object field of the document; absent document,
/// absent field or non-object values read as empty.
pub open spec fn table_of(d: JsonDocV, key: Seq<char>) -> Seq<(Seq<char>, Jv)> {
    match d {
        JsonDocV::Present(j) => match jv_get(j, key) {
            Some(Jv::Obj(es)) => es,
            _ => Seq::empty(),
        },
        _ => Seq::empty(),
    }
}

/// The table of MCP servers held by the document.
pub open spec fn mcp_servers_of(d: JsonDocV) -> Seq<(Seq<char>, Jv)> {
    table_of(d, "mcpServers"@)
}

/// Copy a named object field of the document out as a list of pairs.
#[verifier::loop_isolation(false)]
fn read_table(doc: &JsonDoc, key: &String) -> (r: Result<Vec<(String, Json)>, StoreError>)
    ensures
        match r {
            Ok(es) => !(doc@ is Malformed) && jv_of_entries(es@) == table_of(doc@, key@),
            Err(e) => e == StoreError::MalformedInput && doc@ is Malformed,
        },
{
    match doc {
        JsonDoc::Malformed => Err(StoreError::MalformedInput),
        JsonDoc::Absent => {
            let out: Vec<(String, Json)> = Vec::new();
            proof {
                assert(jv_of_entries(out@) =~= Seq::<(Seq<char>, Jv)>::empty());
            }
            Ok(out)
        },
        JsonDoc::Present(j) => match j {
            Json::Obj(es) => match entries_lookup(es, key) {
                Some(v) => match v {
                    Json::Obj(table) => Ok(clone_entries(table)),
                    _ => {
                        let out: Vec<(String, Json)> = Vec::new();
                        proof {
                            assert(jv_of_entries(out@) =~= Seq::<(Seq<char>, Jv)>::empty());
                        }
                        Ok(out)
                    },
                },
                None => {
                    let out: Vec<(String, Json)> = Vec::new();
                    proof {
                        assert(jv_of_entries(out@) =~= Seq::<(Seq<char>, Jv)>::empty());
                    }
                    Ok(out)
                },
            },
            _ => {
                let out: Vec<(String, Json)> = Vec::new();
                proof {
                    assert(jv_of_entries(out@) =~= Seq::<(Seq<char>, Jv)>::empty());
                }
                Ok(out)
            },
        },
    }
}

/// The global MCP servers held by the document, each under its name.
/// An absent document, or one without the table, holds none.
pub fn get_global_mcp_servers(doc: &JsonDoc) -> (r: Result<Vec<(String, McpServer)>, StoreError>)
    ensures
        match r {
            Ok(servers) => {
                &&& !(doc@ is Malformed)
                &&& servers@.len() == mcp_servers_of(doc@).len()
                &&& forall|m: int|
                    0 <= m < servers@.len() ==> (servers@[m].0@, servers@[m].1.config@)
                        == mcp_servers_of(doc@)[m]
            },
            Err(e) => e == StoreError::MalformedInput && doc@ is Malformed,
        },
{
    let key = "mcpServers".to_owned();
    let table = match read_table(doc, &key) {
        Ok(t) => t,
        Err(e) => {
            return Err(e);
        },
    };
    let ghost tv = jv_of_entries(table@);
    let mut out: Vec<(String, McpServer)> = Vec::new();
    let mut i: usize = 0;
    #[verifier::loop_isolation(false)]
    while i < table.len()
        invariant
            i <= table.len(),
            out@.len() == i,
            forall|m: int| 0 <= m < i ==> (out@[m].0@, out@[m].1.config@) == tv[m],
        decreases table.len() - i,
    {
        let name = table[i].0.clone();
        let config = table[i].1.deep_clone();
        out.push((name, McpServer { config }));
        i = i + 1;
    }
    Ok(out)
}

/// Whether the document holds an MCP server under the name.
pub fn check_mcp_server_exists(doc: &JsonDoc, server_name: &String) -> (r: Result<
    bool,
    StoreError,
>)
    ensures
        match r {
            Ok(found) => !(doc@ is Malformed) && found == crate::json::has_key(
                mcp_servers_of(doc@),
                server_name@,
            ),
            Err(e) => e == StoreError::MalformedInput && doc@ is Malformed,
        },
{
    let key = "mcpServers".to_owned();
    let table = match read_table(doc, &key) {
        Ok(t) => t,
        Err(e) => {
            return Err(e);
        },
    };
    match entries_lookup(&table, server_name) {
        Some(_) => Ok(true),
        None => Ok(false),
    }
}

/// Whether the document can take an MCP server update: it is absent or
/// an object whose server table, if present, is an object.
pub open spec fn mcp_editable(d: JsonDocV) -> bool {
    match d {
        JsonDocV::Absent => true,
        JsonDocV::Malformed => false,
        JsonDocV::Present(j) => match j {
            Jv::Obj(es) => match lookup(es, "mcpServers"@) {
                None => true,
                Some(Jv::Obj(_)) => true,
                Some(_) => false,
            },
            _ => false,
        },
    }
}

/// The document's top-level entries; an absent document reads as empty.
pub open spec fn doc_entries(d: JsonDocV) -> Seq<(Seq<char>, Jv)> {
    match d {
        JsonDocV::Present(Jv::Obj(es)) => es,
        _ => Seq::empty(),
    }
}

/// Bind one MCP server in the document's server table and return the
/// document to write back; the table is created when absent. Fails with
/// `MalformedInput`, and returns nothing to write, when the document
/// cannot be parsed or does not have the expected shape.
pub fn update_global_mcp_server(doc: &JsonDoc, server_name: String, server_config: Json) -> (r:
    Result<Json, StoreError>)
    ensures
        match r {
            Ok(j) => {
                &&& mcp_editable(doc@)
                &&& j@ == Jv::Obj(
                    obj_set(
                        doc_entries(doc@),
                        "mcpServers"@,
                        Jv::Obj(obj_set(mcp_servers_of(doc@), server_name@, server_config@)),
                    ),
                )
            },
            Err(e) => e == StoreError::MalformedInput && !mcp_editable(doc@),
        },
{
    let key = "mcpServers".to_owned();
    let mut es: Vec<(String, Json)> = match doc {
        JsonDoc::Malformed => {
            return Err(StoreError::MalformedInput);
        },
        JsonDoc::Absent => Vec::new(),
        JsonDoc::Present(j) => match j {
            Json::Obj(es) => clone_entries(es),
            _ => {
                return Err(StoreError::MalformedInput);
            },
        },
    };
    proof {
        assert(jv_of_entries(es@) =~= doc_entries(doc@));
    }
    let mut table: Vec<(String, Json)> = match entries_lookup(&es, &key) {
        None => Vec::new(),
        Some(v) => match v {
            Json::Obj(t) => clone_entries(t),
            _ => {
                return Err(StoreError::MalformedInput);
            },
        },
    };
    proof {
        assert(jv_of_entries(table@) =~= mcp_servers_of(doc@));
    }
    entries_set(&mut table, server_name, server_config);
    entries_set(&mut es, key, Json::Obj(table));
    Ok(Json::Obj(es))
}

/// Drop one MCP server from the document's server table and return the
/// document to write back; a table left empty is dropped entirely.
/// Fails with `StoreUninitialized` when the document does not exist,
/// `NotFound` when the table or the server is missing, and
/// `MalformedInput` when the document cannot be parsed or is not an
/// object.
pub fn delete_global_mcp_server(doc: &JsonDoc, server_name: &String) -> (r: Result<
    Json,
    StoreError,
>)
    ensures
        match r {
            Ok(j) => {
                &&& doc@ matches JsonDocV::Present(dj) && dj is Obj
                &&& crate::json::has_key(mcp_servers_of(doc@), server_name@)
                &&& ({
                    let table2 = obj_remove(mcp_servers_of(doc@), server_name@);
                    j@ == Jv::Obj(
                        if table2.len() == 0 {
                            obj_remove(doc_entries(doc@), "mcpServers"@)
                        } else {
                            obj_set(doc_entries(doc@), "mcpServers"@, Jv::Obj(table2))
                        },
                    )
                })
            },
            Err(e) => {
                &&& (e == StoreError::StoreUninitialized <==> doc@ is Absent)
                &&& (e == StoreError::MalformedInput ==> (doc@ is Malformed || !(
                doc@ matches JsonDocV::Present(dj) && dj is Obj)))
                &&& (e == StoreError::NotFound ==> !crate::json::has_key(
                    mcp_servers_of(doc@),
                    server_name@,
                ))
                &&& (e is StoreUninitialized || e is MalformedInput || e is NotFound)
            },
        },
{
    let key = "mcpServers".to_owned();
    let mut es: Vec<(String, Json)> = match doc {
        JsonDoc::Absent => {
            return Err(StoreError::StoreUninitialized);
        },
        JsonDoc::Malformed => {
            return Err(StoreError::MalformedInput);
        },
        JsonDoc::Present(j) => match j {
            Json::Obj(es) => clone_entries(es),
            _ => {
                return Err(StoreError::MalformedInput);
            },
        },
    };
    proof {
        assert(jv_of_entries(es@) =~= doc_entries(doc@));
    }
    let mut table: Vec<(String, Json)> = match entries_lookup(&es, &key) {
        None => {
            proof {
                crate::json::lemma_lookup_absent(mcp_servers_of(doc@), server_name@);
            }
            return Err(StoreError::NotFound);
        },
        Some(v) => match v {
            Json::Obj(t) => clone_entries(t),
            _ => {
                proof {
                    crate::json::lemma_lookup_absent(mcp_servers_of(doc@), server_name@);
                }
                return Err(StoreError::NotFound);
            },
        },
    };
    proof {
        assert(jv_of_entries(table@) =~= mcp_servers_of(doc@));
    }
    let found = entries_remove(&mut table, server_name);
    if !found {
        return Err(StoreError::NotFound);
    }
    if table.len() == 0 {
        let _ = entries_remove(&mut es, &key);
    } else {
        entries_set(&mut es, key, Json::Obj(table));
    }
    Ok(Json::Obj(es))
}

/// The projects held by the tool's global configuration document, each
/// under its path. An absent document, or one without the table, holds
/// none.
pub fn read_claude_projects(doc: &JsonDoc) -> (r: Result<Vec<ProjectConfig>, StoreError>)
    ensures
        match r {
            Ok(projects) => {
                &&& !(doc@ is Malformed)
                &&& projects@.len() == table_of(doc@, "projects"@).len()
                &&& forall|m: int|
                    0 <= m < projects@.len() ==> (projects@[m].path@, projects@[m].config@)
                        == table_of(doc@, "projects"@)[m]
            },
            Err(e) => e == StoreError::MalformedInput && doc@ is Malformed,
        },
{
    let key = "projects".to_owned();
    let table = match read_table(doc, &key) {
        Ok(t) => t,
        Err(e) => {
            return Err(e);
        },
    };
    let ghost tv = jv_of_entries(table@);
    let mut out: Vec<ProjectConfig> = Vec::new();
    let mut i: usize = 0;
    #[verifier::loop_isolation(false)]
    while i < table.len()
        invariant
            i <= table.len(),
            out@.len() == i,
            forall|m: int| 0 <= m < i ==> (out@[m].path@, out@[m].config@) == tv[m],
        decreases table.len() - i,
    {
        let path = table[i].0.clone();
        let config = table[i].1.deep_clone();
        out.push(ProjectConfig { path, config });
        i = i + 1;
    }
    Ok(out)
}

} // verus!
