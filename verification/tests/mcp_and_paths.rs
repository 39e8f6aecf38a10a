use ccmate::errors::StoreError;
use ccmate::json::Json;
use ccmate::live::JsonDoc;
use ccmate::mcp::{
    check_mcp_server_exists, delete_global_mcp_server, get_global_mcp_servers,
    read_claude_projects, update_global_mcp_server,
};
use ccmate::sysinfo::{config_file_path, config_file_writable, test_notification_body};

fn obj(entries: Vec<(&str, Json)>) -> Json {
    Json::Obj(entries.into_iter().map(|(k, v)| (k.to_string(), v)).collect())
}

fn server(cmd: &str) -> Json {
    obj(vec![("command", Json::Str(cmd.to_string()))])
}

#[test]
fn mcp_servers_read_from_document() {
    let doc = JsonDoc::Present(obj(vec![(
        "mcpServers",
        obj(vec![("alpha", server("run-a")), ("beta", server("run-b"))]),
    )]));
    let servers = get_global_mcp_servers(&doc).unwrap();
    assert_eq!(servers.len(), 2);
    assert_eq!(servers[0].0, "alpha");
    assert_eq!(servers[1].0, "beta");
    assert!(check_mcp_server_exists(&doc, &"alpha".to_string()).unwrap());
    assert!(!check_mcp_server_exists(&doc, &"gamma".to_string()).unwrap());
    // An absent document holds no servers.
    assert!(get_global_mcp_servers(&JsonDoc::Absent).unwrap().is_empty());
    assert_eq!(
        get_global_mcp_servers(&JsonDoc::Malformed).unwrap_err(),
        StoreError::MalformedInput
    );
}

#[test]
fn mcp_update_inserts_and_overwrites() {
    let updated = update_global_mcp_server(&JsonDoc::Absent, "alpha".to_string(), server("run-a"))
        .unwrap();
    let doc = JsonDoc::Present(updated);
    let servers = get_global_mcp_servers(&doc).unwrap();
    assert_eq!(servers.len(), 1);
    assert_eq!(servers[0].0, "alpha");
    // Overwriting keeps a single entry under the name.
    let updated = update_global_mcp_server(&doc, "alpha".to_string(), server("run-a2")).unwrap();
    let servers = get_global_mcp_servers(&JsonDoc::Present(updated)).unwrap();
    assert_eq!(servers.len(), 1);
    match &servers[0].1.config {
        Json::Obj(es) => match &es[0].1 {
            Json::Str(s) => assert_eq!(s, "run-a2"),
            _ => panic!("command should be a string"),
        },
        _ => panic!("config should be an object"),
    }
    // A document that is not an object cannot take an update.
    assert_eq!(
        update_global_mcp_server(&JsonDoc::Present(Json::Int(5)), "a".to_string(), Json::Null)
            .unwrap_err(),
        StoreError::MalformedInput
    );
}

#[test]
fn mcp_delete_prunes_empty_table() {
    let doc = JsonDoc::Present(obj(vec![
        ("other", Json::Int(1)),
        ("mcpServers", obj(vec![("alpha", server("run-a"))])),
    ]));
    let updated = delete_global_mcp_server(&doc, &"alpha".to_string()).unwrap();
    match &updated {
        Json::Obj(es) => {
            assert_eq!(es.len(), 1);
            assert_eq!(es[0].0, "other");
        },
        _ => panic!("document should stay an object"),
    }
    // Deleting an unknown server fails.
    assert_eq!(
        delete_global_mcp_server(&doc, &"ghost".to_string()).unwrap_err(),
        StoreError::NotFound
    );
    assert_eq!(
        delete_global_mcp_server(&JsonDoc::Absent, &"a".to_string()).unwrap_err(),
        StoreError::StoreUninitialized
    );
}

#[test]
fn projects_read_from_document() {
    let doc = JsonDoc::Present(obj(vec![(
        "projects",
        obj(vec![("/work/one", obj(vec![])), ("/work/two", obj(vec![]))]),
    )]));
    let projects = read_claude_projects(&doc).unwrap();
    assert_eq!(projects.len(), 2);
    assert_eq!(projects[0].path, "/work/one");
    assert_eq!(projects[1].path, "/work/two");
    assert!(read_claude_projects(&JsonDoc::Absent).unwrap().is_empty());
}

#[test]
fn config_paths_are_mapped() {
    assert_eq!(config_file_path("user").unwrap(), None);
    assert_eq!(
        config_file_path("enterprise_linux").unwrap(),
        Some("/etc/cctool/managed-settings.json")
    );
    assert_eq!(
        config_file_path("mcp_macos").unwrap(),
        Some("/Library/Application Support/CCTool/managed-mcp.json")
    );
    assert_eq!(config_file_path("bogus").unwrap_err(), StoreError::MalformedInput);
    assert!(config_file_writable("user"));
    assert!(!config_file_writable("enterprise_linux"));
}

#[test]
fn test_notification_bodies_are_fixed() {
    assert_eq!(test_notification_body("general"), "The tool is waiting for your input");
    assert_eq!(test_notification_body("PreToolUse"), "Using test_tool");
    assert_eq!(test_notification_body("Stop"), "Task completed successfully");
    assert_eq!(test_notification_body("anything"), "This is a test notification.");
}
