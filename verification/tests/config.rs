use open_switch::config::{
    delete_credential, has_credential, needs_shell, set_credential, AuthConfig, McpServer,
    McpServerType, OpenCodeConfig, OpenCodeModel, Platform, ProviderConfig, ProviderOptions,
};
use open_switch::name_map::NameMap;
use std::collections::HashMap;

fn words(items: &[&str]) -> Vec<String> {
    items.iter().map(|s| s.to_string()).collect()
}

fn server(command: Option<&[&str]>) -> McpServer {
    McpServer {
        server_type: McpServerType::default(),
        command: command.map(words),
        environment: None,
        enabled: None,
        timeout: Some(30),
        url: None,
        headers: None,
    }
}

fn provider(name: &str) -> ProviderConfig {
    let mut models = HashMap::new();
    models.insert(
        "m".to_string(),
        OpenCodeModel { name: "M".to_string(), thinking: Some(true), set_cache_key: None },
    );
    ProviderConfig {
        npm: "@ai-sdk/openai-compatible".to_string(),
        name: name.to_string(),
        options: ProviderOptions {
            base_url: "https://example.test/v1".to_string(),
            api_key: None,
            headers: None,
        },
        models,
    }
}

fn names<V>(map: &NameMap<V>) -> Vec<String> {
    (0..map.len()).map(|i| map.entry(i).unwrap().0.clone()).collect()
}

#[test]
fn windows_wraps_script_launchers_in_the_shell() {
    for program in ["npx", "npm", "node", "pnpm", "yarn", "bunx", "bun", "NPX", "Node", "run.cmd", "SETUP.BAT"] {
        let given = words(&[program, "-y", "pkg"]);
        let wrapped = McpServer::normalize_command_for_platform(given, Platform::Windows);
        assert_eq!(wrapped, words(&["cmd", "/c", program, "-y", "pkg"]));
    }
}

#[test]
fn windows_leaves_other_programs_alone() {
    for program in ["python", "cmd", "npxx", "bat", "run.exe", "", "bun.sh"] {
        let given = words(&[program, "arg"]);
        let left = McpServer::normalize_command_for_platform(given.clone(), Platform::Windows);
        assert_eq!(left, given);
    }
    let empty = McpServer::normalize_command_for_platform(Vec::new(), Platform::Windows);
    assert!(empty.is_empty());
}

#[test]
fn other_platforms_leave_every_command_alone() {
    for program in ["npx", "run.cmd", "python"] {
        let given = words(&[program, "arg"]);
        let left = McpServer::normalize_command_for_platform(given.clone(), Platform::Other);
        assert_eq!(left, given);
    }
    assert!(McpServer::normalize_command_for_platform(Vec::new(), Platform::Other).is_empty());
}

#[test]
fn programs_that_need_the_shell() {
    for program in ["npx", "npm", "node", "pnpm", "yarn", "bunx", "bun", "a.cmd", "a.bat", ".cmd"] {
        assert!(needs_shell(program));
    }
    for program in ["NPX", "npx ", "deno", "a.cmd.txt", "cmd", "bat", ""] {
        assert!(!needs_shell(program));
    }
}

#[test]
fn the_default_configuration() {
    let config = OpenCodeConfig::default();
    assert_eq!(config.schema.as_deref(), Some("https://opencode.ai/config.json"));
    assert!(config.plugin.is_none());
    assert!(config.provider.is_empty());
    assert!(config.mcp.is_none());
    assert!(config.instructions.is_none());
    assert!(matches!(McpServerType::default(), McpServerType::Local));
}

#[test]
fn providers_are_added_updated_and_deleted() {
    let mut config = OpenCodeConfig::default();
    config.add_provider("one".to_string(), provider("One"));
    config.add_provider("two".to_string(), provider("Two"));
    config.add_provider("one".to_string(), provider("Uno"));
    assert_eq!(names(&config.provider), vec!["one", "two"]);
    assert_eq!(config.provider.get("one").unwrap().name, "Uno");
    assert_eq!(config.update_provider("two".to_string(), provider("Dos")), Ok(()));
    assert_eq!(config.provider.get("two").unwrap().name, "Dos");
    assert_eq!(
        config.update_provider("three".to_string(), provider("Tres")),
        Err("Provider 'three' not found".to_string())
    );
    assert_eq!(config.provider.len(), 2);
    assert_eq!(config.delete_provider("one"), Ok(()));
    assert_eq!(config.delete_provider("one"), Err("Provider 'one' not found".to_string()));
    assert_eq!(names(&config.provider), vec!["two"]);
    assert_eq!(config.schema.as_deref(), Some("https://opencode.ai/config.json"));
}

#[test]
fn tool_servers_are_added_with_a_prepared_command() {
    let mut config = OpenCodeConfig::default();
    config.add_mcp_server("files".to_string(), server(Some(&["npx", "fs"])), Platform::Windows);
    config.add_mcp_server("web".to_string(), server(Some(&["npx", "web"])), Platform::Other);
    config.add_mcp_server("remote".to_string(), server(None), Platform::Windows);
    let mcp = config.mcp.as_ref().unwrap();
    assert_eq!(names(mcp), vec!["files", "web", "remote"]);
    assert_eq!(mcp.get("files").unwrap().command, Some(words(&["cmd", "/c", "npx", "fs"])));
    assert_eq!(mcp.get("files").unwrap().timeout, Some(30));
    assert_eq!(mcp.get("web").unwrap().command, Some(words(&["npx", "web"])));
    assert_eq!(mcp.get("remote").unwrap().command, None);
}

#[test]
fn tool_servers_are_updated_only_where_known() {
    let mut config = OpenCodeConfig::default();
    assert_eq!(
        config.update_mcp_server("files".to_string(), server(None), Platform::Other),
        Err("MCP server 'files' not found".to_string())
    );
    assert!(config.mcp.is_none());
    config.add_mcp_server("files".to_string(), server(Some(&["a"])), Platform::Other);
    assert_eq!(
        config.update_mcp_server("files".to_string(), server(Some(&["yarn"])), Platform::Windows),
        Ok(())
    );
    let mcp = config.mcp.as_ref().unwrap();
    assert_eq!(mcp.get("files").unwrap().command, Some(words(&["cmd", "/c", "yarn"])));
    assert_eq!(
        config.update_mcp_server("other".to_string(), server(None), Platform::Other),
        Err("MCP server 'other' not found".to_string())
    );
    assert_eq!(config.mcp.as_ref().unwrap().len(), 1);
}

#[test]
fn deleting_the_last_tool_server_drops_the_table() {
    let mut config = OpenCodeConfig::default();
    assert_eq!(config.delete_mcp_server("a"), Err("MCP server 'a' not found".to_string()));
    config.add_mcp_server("a".to_string(), server(None), Platform::Other);
    config.add_mcp_server("b".to_string(), server(None), Platform::Other);
    assert_eq!(config.delete_mcp_server("c"), Err("MCP server 'c' not found".to_string()));
    assert_eq!(config.delete_mcp_server("a"), Ok(()));
    assert_eq!(names(config.mcp.as_ref().unwrap()), vec!["b"]);
    assert_eq!(config.delete_mcp_server("b"), Ok(()));
    assert!(config.mcp.is_none());
}

#[test]
fn toggling_a_tool_server_sets_its_flag() {
    let mut config = OpenCodeConfig::default();
    assert_eq!(config.toggle_mcp_server("a", true), Err("MCP server 'a' not found".to_string()));
    config.add_mcp_server("a".to_string(), server(Some(&["x"])), Platform::Other);
    config.add_mcp_server("b".to_string(), server(None), Platform::Other);
    assert_eq!(config.toggle_mcp_server("a", false), Ok(()));
    let mcp = config.mcp.as_ref().unwrap();
    assert_eq!(mcp.get("a").unwrap().enabled, Some(false));
    assert_eq!(mcp.get("a").unwrap().command, Some(words(&["x"])));
    assert_eq!(mcp.get("b").unwrap().enabled, None);
    assert_eq!(names(mcp), vec!["b", "a"]);
    assert_eq!(config.toggle_mcp_server("a", true), Ok(()));
    assert_eq!(config.mcp.as_ref().unwrap().get("a").unwrap().enabled, Some(true));
    assert_eq!(config.toggle_mcp_server("c", true), Err("MCP server 'c' not found".to_string()));
}

#[test]
fn instruction_files_are_listed_once() {
    let mut config = OpenCodeConfig::default();
    config.add_instruction("a.md".to_string());
    config.add_instruction("b.md".to_string());
    config.add_instruction("a.md".to_string());
    assert_eq!(config.instructions, Some(words(&["a.md", "b.md"])));
}

#[test]
fn removing_instruction_files() {
    let mut config = OpenCodeConfig::default();
    config.remove_instruction("a.md");
    assert_eq!(config.instructions, None);
    config.update_instructions(words(&["a.md", "b.md", "a.md", "c.md"]));
    config.remove_instruction("a.md");
    assert_eq!(config.instructions, Some(words(&["b.md", "c.md"])));
    config.remove_instruction("zzz");
    assert_eq!(config.instructions, Some(words(&["b.md", "c.md"])));
    config.remove_instruction("b.md");
    config.remove_instruction("c.md");
    assert_eq!(config.instructions, None);
}

#[test]
fn replacing_instruction_files() {
    let mut config = OpenCodeConfig::default();
    config.update_instructions(words(&["x", "y"]));
    assert_eq!(config.instructions, Some(words(&["x", "y"])));
    config.update_instructions(Vec::new());
    assert_eq!(config.instructions, None);
}

#[test]
fn credentials_are_set_found_and_deleted() {
    let mut auth: AuthConfig = NameMap::new();
    assert!(!has_credential(&auth, "openai"));
    set_credential(&mut auth, "openai".to_string(), "sk-1".to_string());
    set_credential(&mut auth, "other".to_string(), "k".to_string());
    set_credential(&mut auth, "openai".to_string(), "sk-2".to_string());
    assert!(has_credential(&auth, "openai"));
    assert_eq!(auth.len(), 2);
    assert_eq!(auth.get("openai").unwrap().key, "sk-2");
    assert_eq!(auth.get("openai").unwrap().credential_type, "api");
    assert_eq!(delete_credential(&mut auth, "openai"), Ok(()));
    assert_eq!(
        delete_credential(&mut auth, "openai"),
        Err("Credential 'openai' not found".to_string())
    );
    assert!(!has_credential(&auth, "openai"));
    assert!(has_credential(&auth, "other"));
}

#[test]
fn a_name_map_keeps_the_order_of_first_insertion() {
    let mut map: NameMap<u32> = NameMap::new();
    assert!(map.is_empty());
    map.insert("b".to_string(), 2);
    map.insert("a".to_string(), 1);
    map.insert("b".to_string(), 20);
    assert_eq!(map.len(), 2);
    assert!(!map.is_empty());
    assert!(map.contains_key("a"));
    assert!(!map.contains_key("c"));
    assert_eq!(map.get("b"), Some(&20));
    assert_eq!(map.get("c"), None);
    assert_eq!(map.entry(0), Some((&"b".to_string(), &20)));
    assert_eq!(map.entry(1), Some((&"a".to_string(), &1)));
    assert_eq!(map.entry(2), None);
    assert_eq!(map.remove("b"), Some(20));
    assert_eq!(map.remove("b"), None);
    assert_eq!(map.into_entries(), vec![("a".to_string(), 1)]);
}
