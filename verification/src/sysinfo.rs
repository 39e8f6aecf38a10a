//! Plain data handed to the surrounding application: what an update
//! check reports, the tool's memory file, and the display name of the
//! operating system.

use vstd::prelude::*;
use crate::errors::StoreError;

verus! {

/// What a check for a newer release reports.
#[derive(Debug)]
pub struct UpdateInfo {
    pub available: bool,
    pub version: Option<String>,
    pub body: Option<String>,
    pub date: Option<String>,
}

/// The tool's memory file as read from disk.
#[derive(Debug)]
pub struct MemoryFile {
    pub path: String,
    pub content: String,
    pub exists: bool,
}

/// The display name for an operating system identifier as the compiler
/// names it.
pub open spec fn os_display_name(os: Seq<char>) -> Seq<char> {
    if os == "macos"@ {
        "macOS"@
    } else if os == "windows"@ {
        "Windows"@
    } else if os == "linux"@ {
        "Linux"@
    } else {
        "Unknown"@
    }
}

/// The display name of the operating system, from its identifier as the
/// compiler names it ("macos", "windows", "linux").
pub fn get_os_name(os: &str) -> (r: &'static str)
    ensures
        r@ == os_display_name(os@),
{
    let o = os.to_owned();
    if o == "macos".to_owned() {
        "macOS"
    } else if o == "windows".to_owned() {
        "Windows"
    } else if o == "linux".to_owned() {
        "Linux"
    } else {
        "Unknown"
    }
}

/// A configuration file read for display: its path, its parsed content,
/// and whether it exists on disk.
#[derive(Debug)]
pub struct ConfigFile {
    pub path: String,
    pub content: crate::json::Json,
    pub exists: bool,
}

/// The tool's global configuration file read for display.
#[derive(Debug)]
pub struct ClaudeConfigFile {
    pub path: String,
    pub content: crate::json::Json,
    pub exists: bool,
}

/// Where a configuration file of the given kind lives: nothing for the
/// user settings file, whose path hangs off the home directory; a fixed
/// absolute path for the managed kinds; no answer for an unknown kind.
pub open spec fn config_file_path_v(kind: Seq<char>) -> Option<Option<Seq<char>>> {
    if kind == "user"@ {
        Some(None)
    } else if kind == "enterprise_macos"@ {
        Some(Some("/Library/Application Support/CCTool/managed-settings.json"@))
    } else if kind == "enterprise_linux"@ {
        Some(Some("/etc/cctool/managed-settings.json"@))
    } else if kind == "enterprise_windows"@ {
        Some(Some("C:/ProgramData/CCTool/managed-settings.json"@))
    } else if kind == "mcp_macos"@ {
        Some(Some("/Library/Application Support/CCTool/managed-mcp.json"@))
    } else if kind == "mcp_linux"@ {
        Some(Some("/etc/cctool/managed-mcp.json"@))
    } else if kind == "mcp_windows"@ {
        Some(Some("C:/ProgramData/CCTool/managed-mcp.json"@))
    } else {
        None
    }
}

/// Where a configuration file of the given kind lives. `Ok(None)` names
/// the user settings file, whose path hangs off the home directory;
/// `Ok(Some(p))` is a fixed absolute path; an unknown kind is rejected.
pub fn config_file_path(config_type: &str) -> (r: Result<Option<&'static str>, StoreError>)
    ensures
        match r {
            Ok(opt) => match opt {
                None => config_file_path_v(config_type@) == Some(Option::<Seq<char>>::None),
                Some(p) => config_file_path_v(config_type@) == Some(Some(p@)),
            },
            Err(e) => e == StoreError::MalformedInput && config_file_path_v(config_type@) is None,
        },
{
    let t = config_type.to_owned();
    if t == "user".to_owned() {
        Ok(None)
    } else if t == "enterprise_macos".to_owned() {
        Ok(Some("/Library/Application Support/CCTool/managed-settings.json"))
    } else if t == "enterprise_linux".to_owned() {
        Ok(Some("/etc/cctool/managed-settings.json"))
    } else if t == "enterprise_windows".to_owned() {
        Ok(Some("C:/ProgramData/CCTool/managed-settings.json"))
    } else if t == "mcp_macos".to_owned() {
        Ok(Some("/Library/Application Support/CCTool/managed-mcp.json"))
    } else if t == "mcp_linux".to_owned() {
        Ok(Some("/etc/cctool/managed-mcp.json"))
    } else if t == "mcp_windows".to_owned() {
        Ok(Some("C:/ProgramData/CCTool/managed-mcp.json"))
    } else {
        Err(StoreError::MalformedInput)
    }
}

/// Only the user settings file may be written; the managed files are
/// read-only.
pub fn config_file_writable(config_type: &str) -> (r: bool)
    ensures
        r == (config_type@ == "user"@),
{
    config_type.to_owned() == "user".to_owned()
}

/// The body of the test notification for a hook event kind.
pub open spec fn test_notification_body_v(kind: Seq<char>) -> Seq<char> {
    if kind == "general"@ {
        "The tool is waiting for your input"@
    } else if kind == "PreToolUse"@ {
        "Using test_tool"@
    } else if kind == "Stop"@ {
        "Task completed successfully"@
    } else {
        "This is a test notification."@
    }
}

/// The body of the test notification for a hook event kind.
pub fn test_notification_body(hook_type: &str) -> (r: &'static str)
    ensures
        r@ == test_notification_body_v(hook_type@),
{
    let t = hook_type.to_owned();
    if t == "general".to_owned() {
        "The tool is waiting for your input"
    } else if t == "PreToolUse".to_owned() {
        "Using test_tool"
    } else if t == "Stop".to_owned() {
        "Task completed successfully"
    } else {
        "This is a test notification."
    }
}

} // verus!
