//! The settings that stand beside the prompts: providers, credentials,
//! tool servers and instruction files, and the rules for editing them.

use crate::name_map::{has_name, put, removed, value_of, NameMap};
use crate::text::{contains_text, ends_with, is_suffix, lowercase, str_eq, texts};
use std::collections::HashMap;
use vstd::prelude::*;

verus! {

/// Where a tool server runs.
#[derive(Debug, Clone)]
pub enum McpServerType {
    Local,
    Remote,
}

impl Default for McpServerType {
    fn default() -> (r: McpServerType)
        ensures
            r is Local,
    {
        McpServerType::Local
    }
}

/// A tool server.
#[derive(Debug, Clone)]
pub struct McpServer {
    pub server_type: McpServerType,
    pub command: Option<Vec<String>>,
    pub environment: Option<HashMap<String, String>>,
    pub enabled: Option<bool>,
    pub timeout: Option<u64>,
    pub url: Option<String>,
    pub headers: Option<HashMap<String, String>>,
}

/// A model that a provider offers.
#[derive(Debug, Clone)]
pub struct OpenCodeModel {
    pub name: String,
    pub thinking: Option<bool>,
    pub set_cache_key: Option<bool>,
}

/// How a provider is reached.
#[derive(Debug, Clone)]
pub struct ProviderOptions {
    pub base_url: String,
    pub api_key: Option<String>,
    pub headers: Option<HashMap<String, String>>,
}

/// A provider of models.
#[derive(Debug, Clone)]
pub struct ProviderConfig {
    pub npm: String,
    pub name: String,
    pub options: ProviderOptions,
    pub models: HashMap<String, OpenCodeModel>,
}

/// The settings as a whole.
#[derive(Debug)]
pub struct OpenCodeConfig {
    pub schema: Option<String>,
    pub plugin: Option<Vec<String>>,
    pub provider: NameMap<ProviderConfig>,
    pub mcp: Option<NameMap<McpServer>>,
    pub instructions: Option<Vec<String>>,
}

/// A stored credential.
#[derive(Debug, Clone)]
pub struct Credential {
    pub credential_type: String,
    pub key: String,
}

/// The credentials, each under the id of its provider.
pub type AuthConfig = NameMap<Credential>;

/// The platform for which a command line is prepared.
#[derive(Debug, Clone, Copy)]
pub enum Platform {
    Windows,
    Other,
}

/// Whether a program, named in lower case, has to be started through the
/// shell on Windows: the script launchers, and batch files.
pub open spec fn shell_program(program: Seq<char>) -> bool {
    ||| program == "npx"@
    ||| program == "npm"@
    ||| program == "node"@
    ||| program == "pnpm"@
    ||| program == "yarn"@
    ||| program == "bunx"@
    ||| program == "bun"@
    ||| is_suffix(program, ".cmd"@)
    ||| is_suffix(program, ".bat"@)
}

/// The command line as prepared for a platform: on Windows `cmd /c` is put
/// in front where the program needs the shell.
pub open spec fn normalized(command: Seq<Seq<char>>, platform: Platform) -> Seq<Seq<char>> {
    if platform is Windows && command.len() > 0 && shell_program(lowercase(command[0])) {
        seq!["cmd"@, "/c"@] + command
    } else {
        command
    }
}

/// The texts of an optional command line.
pub open spec fn command_texts(command: Option<Vec<String>>) -> Option<Seq<Seq<char>>> {
    match command {
        Some(c) => Some(texts(c@)),
        None => None,
    }
}

/// Whether `after` is `before` with its command line prepared for the
/// platform.
pub open spec fn is_normalized(before: McpServer, after: McpServer, platform: Platform) -> bool {
    &&& after == (McpServer { command: after.command, ..before })
    &&& command_texts(after.command) == match command_texts(before.command) {
        Some(c) => Some(normalized(c, platform)),
        None => None,
    }
}

/// Whether a program, named in lower case, has to be started through the
/// shell on Windows.
pub fn needs_shell(program: &str) -> (r: bool)
    ensures
        r == shell_program(program@),
{
    str_eq(program, "npx") || str_eq(program, "npm") || str_eq(program, "node") || str_eq(
        program,
        "pnpm",
    ) || str_eq(program, "yarn") || str_eq(program, "bunx") || str_eq(program, "bun")
        || ends_with(program, ".cmd") || ends_with(program, ".bat")
}

impl McpServer {
    /// Prepares a command line for a platform: on Windows, a command whose
    /// program needs the shell gets `cmd /c` in front. Every other command
    /// is returned as it is.
    pub fn normalize_command_for_platform(command: Vec<String>, platform: Platform) -> (r: Vec<
        String,
    >)
        ensures
            texts(r@) == normalized(texts(command@), platform),
    {
        match platform {
            Platform::Other => command,
            Platform::Windows => {
                if command.len() == 0 {
                    return command;
                }
                let first = command[0].as_str().to_lowercase();
                assert(texts(command@)[0] == command@[0]@);
                if needs_shell(first.as_str()) {
                    let mut command = command;
                    let ghost given = texts(command@);
                    let mut wrapped: Vec<String> = Vec::new();
                    wrapped.push(String::from_str("cmd"));
                    wrapped.push(String::from_str("/c"));
                    wrapped.append(&mut command);
                    assert(texts(wrapped@) =~= seq!["cmd"@, "/c"@] + given);
                    wrapped
                } else {
                    command
                }
            },
        }
    }

    /// The server with its command line prepared for a platform.
    fn normalize(self, platform: Platform) -> (r: McpServer)
        ensures
            is_normalized(self, r, platform),
    {
        let McpServer { server_type, command, environment, enabled, timeout, url, headers } = self;
        let command = match command {
            Some(c) => Some(Self::normalize_command_for_platform(c, platform)),
            None => None,
        };
        McpServer { server_type, command, environment, enabled, timeout, url, headers }
    }
}

/// The error for a name that a table does not hold.
pub open spec fn not_found(kind: Seq<char>, name: Seq<char>) -> Seq<char> {
    kind + " '"@ + name + "' not found"@
}

fn not_found_message(kind: &str, name: &str) -> (r: String)
    ensures
        r@ == not_found(kind@, name@),
{
    String::from_str(kind).concat(" '").concat(name).concat("' not found")
}

/// The tool servers of a configuration.
pub open spec fn mcp_entries(mcp: Option<NameMap<McpServer>>) -> Seq<(Seq<char>, McpServer)> {
    match mcp {
        Some(m) => m@,
        None => Seq::empty(),
    }
}

/// The instruction files of a configuration.
pub open spec fn instruction_texts(instructions: Option<Vec<String>>) -> Seq<Seq<char>> {
    match instructions {
        Some(list) => texts(list@),
        None => Seq::empty(),
    }
}

impl Default for OpenCodeConfig {
    fn default() -> (r: OpenCodeConfig)
        ensures
            r.schema is Some,
            r.schema->0@ == "https://opencode.ai/config.json"@,
            r.plugin is None,
            r.provider@.len() == 0,
            r.mcp is None,
            r.instructions is None,
    {
        OpenCodeConfig {
            schema: Some(String::from_str("https://opencode.ai/config.json")),
            plugin: None,
            provider: NameMap::new(),
            mcp: None,
            instructions: None,
        }
    }
}

impl OpenCodeConfig {
    /// Stores a provider under `id`, in place of the one that was there.
    pub fn add_provider(&mut self, id: String, provider: ProviderConfig)
        ensures
            final(self).provider@ == put(old(self).provider@, id@, provider),
            *final(self) == (OpenCodeConfig { provider: final(self).provider, ..*old(self) }),
    {
        self.provider.insert(id, provider);
    }

    /// Replaces the provider stored under `id`; fails where there is none.
    pub fn update_provider(&mut self, id: String, provider: ProviderConfig) -> (r: Result<
        (),
        String,
    >)
        ensures
            r is Ok <==> has_name(old(self).provider@, id@),
            r is Ok ==> final(self).provider@ == put(old(self).provider@, id@, provider),
            r matches Err(e) ==> e@ == not_found("Provider"@, id@) && final(self).provider@ == old(
                self,
            ).provider@,
            *final(self) == (OpenCodeConfig { provider: final(self).provider, ..*old(self) }),
    {
        if !self.provider.contains_key(id.as_str()) {
            return Err(not_found_message("Provider", id.as_str()));
        }
        self.provider.insert(id, provider);
        Ok(())
    }

    /// Removes the provider stored under `id`; fails where there is none.
    pub fn delete_provider(&mut self, id: &str) -> (r: Result<(), String>)
        ensures
            r is Ok <==> has_name(old(self).provider@, id@),
            final(self).provider@ == removed(old(self).provider@, id@),
            r matches Err(e) ==> e@ == not_found("Provider"@, id@),
            *final(self) == (OpenCodeConfig { provider: final(self).provider, ..*old(self) }),
    {
        match self.provider.remove(id) {
            Some(_) => Ok(()),
            None => Err(not_found_message("Provider", id)),
        }
    }

    /// Stores a tool server under `name`, its command line prepared for the
    /// platform.
    pub fn add_mcp_server(&mut self, name: String, server: McpServer, platform: Platform)
        ensures
            final(self).mcp is Some,
            has_name(mcp_entries(final(self).mcp), name@),
            is_normalized(server, value_of(mcp_entries(final(self).mcp), name@), platform),
            mcp_entries(final(self).mcp) == put(
                mcp_entries(old(self).mcp),
                name@,
                value_of(mcp_entries(final(self).mcp), name@),
            ),
            *final(self) == (OpenCodeConfig { mcp: final(self).mcp, ..*old(self) }),
    {
        let server = server.normalize(platform);
        let mut servers = match self.mcp.take() {
            Some(m) => m,
            None => NameMap::new(),
        };
        servers.insert(name, server);
        self.mcp = Some(servers);
    }

    /// Replaces the tool server stored under `name`, its command line
    /// prepared for the platform; fails where there is none.
    pub fn update_mcp_server(&mut self, name: String, server: McpServer, platform: Platform) -> (r:
        Result<(), String>)
        ensures
            r is Ok <==> has_name(mcp_entries(old(self).mcp), name@),
            r is Ok ==> final(self).mcp is Some && is_normalized(
                server,
                value_of(mcp_entries(final(self).mcp), name@),
                platform,
            ) && mcp_entries(final(self).mcp) == put(
                mcp_entries(old(self).mcp),
                name@,
                value_of(mcp_entries(final(self).mcp), name@),
            ) && *final(self) == (OpenCodeConfig { mcp: final(self).mcp, ..*old(self) }),
            r matches Err(e) ==> e@ == not_found("MCP server"@, name@) && *final(self) == *old(
                self,
            ),
    {
        let known = match &self.mcp {
            Some(m) => m.contains_key(name.as_str()),
            None => false,
        };
        if !known {
            return Err(not_found_message("MCP server", name.as_str()));
        }
        self.add_mcp_server(name, server, platform);
        Ok(())
    }

    /// Removes the tool server stored under `name`; fails where there is
    /// none. A table left empty is dropped.
    pub fn delete_mcp_server(&mut self, name: &str) -> (r: Result<(), String>)
        ensures
            r is Ok <==> has_name(mcp_entries(old(self).mcp), name@),
            r is Ok ==> mcp_entries(final(self).mcp) == removed(mcp_entries(old(self).mcp), name@)
                && (final(self).mcp is None <==> removed(mcp_entries(old(self).mcp), name@).len()
                == 0) && *final(self) == (OpenCodeConfig { mcp: final(self).mcp, ..*old(self) }),
            r matches Err(e) ==> e@ == not_found("MCP server"@, name@) && *final(self) == *old(
                self,
            ),
    {
        let known = match &self.mcp {
            Some(m) => m.contains_key(name),
            None => false,
        };
        if !known {
            return Err(not_found_message("MCP server", name));
        }
        let mut servers = match self.mcp.take() {
            Some(m) => m,
            None => NameMap::new(),
        };
        servers.remove(name);
        if servers.is_empty() {
            self.mcp = None;
        } else {
            self.mcp = Some(servers);
        }
        Ok(())
    }

    /// Sets whether the tool server stored under `name` is enabled; fails
    /// where there is none. The server becomes the last entry.
    pub fn toggle_mcp_server(&mut self, name: &str, enabled: bool) -> (r: Result<(), String>)
        ensures
            r is Ok <==> has_name(mcp_entries(old(self).mcp), name@),
            r is Ok ==> final(self).mcp is Some && mcp_entries(final(self).mcp) == removed(
                mcp_entries(old(self).mcp),
                name@,
            ).push(
                (
                    name@,
                    McpServer {
                        enabled: Some(enabled),
                        ..value_of(mcp_entries(old(self).mcp), name@)
                    },
                ),
            ) && *final(self) == (OpenCodeConfig { mcp: final(self).mcp, ..*old(self) }),
            r matches Err(e) ==> e@ == not_found("MCP server"@, name@) && *final(self) == *old(
                self,
            ),
    {
        let known = match &self.mcp {
            Some(m) => m.contains_key(name),
            None => false,
        };
        if !known {
            return Err(not_found_message("MCP server", name));
        }
        let mut servers = match self.mcp.take() {
            Some(m) => m,
            None => NameMap::new(),
        };
        match servers.remove(name) {
            Some(server) => {
                let mut server = server;
                server.enabled = Some(enabled);
                servers.insert(name.to_owned(), server);
            },
            None => {},
        }
        self.mcp = Some(servers);
        Ok(())
    }

    /// Adds an instruction file, unless it is listed already.
    pub fn add_instruction(&mut self, path: String)
        ensures
            final(self).instructions is Some,
            instruction_texts(final(self).instructions) == if instruction_texts(
                old(self).instructions,
            ).contains(path@) {
                instruction_texts(old(self).instructions)
            } else {
                instruction_texts(old(self).instructions).push(path@)
            },
            *final(self) == (OpenCodeConfig {
                instructions: final(self).instructions,
                ..*old(self)
            }),
    {
        let mut list = match self.instructions.take() {
            Some(list) => list,
            None => Vec::new(),
        };
        assert(texts(list@) =~= instruction_texts(old(self).instructions));
        if !contains_text(&list, path.as_str()) {
            let ghost before = texts(list@);
            list.push(path);
            assert(texts(list@) =~= before.push(path@));
        }
        self.instructions = Some(list);
    }

    /// Removes every occurrence of an instruction file. A list left empty
    /// is dropped.
    pub fn remove_instruction(&mut self, path: &str)
        ensures
            instruction_texts(final(self).instructions) == instruction_texts(
                old(self).instructions,
            ).filter(|t: Seq<char>| t != path@),
            final(self).instructions is Some <==> old(self).instructions is Some
                && instruction_texts(final(self).instructions).len() > 0,
            *final(self) == (OpenCodeConfig {
                instructions: final(self).instructions,
                ..*old(self)
            }),
    {
        let ghost keep = |t: Seq<char>| t != path@;
        match self.instructions.take() {
            Some(list) => {
                let ghost given = texts(list@);
                let mut kept: Vec<String> = Vec::new();
                let mut list = list;
                let mut i: usize = 0;
                assert(given.take(0).filter(keep) =~= texts(kept@)) by {
                    reveal(Seq::filter);
                }
                while i < list.len()
                    invariant
                        i <= list.len(),
                        given == texts(list@),
                        keep == |t: Seq<char>| t != path@,
                        texts(kept@) == given.take(i as int).filter(keep),
                    decreases list.len() - i,
                {
                    let item = list[i].clone();
                    proof {
                        reveal(Seq::filter);
                        assert(given.take(i + 1).drop_last() =~= given.take(i as int));
                        assert(given.take(i + 1).last() == item@);
                    }
                    if !str_eq(item.as_str(), path) {
                        let ghost before = texts(kept@);
                        kept.push(item);
                        assert(texts(kept@) =~= before.push(item@));
                    }
                    i += 1;
                }
                assert(given.take(i as int) =~= given);
                if kept.len() == 0 {
                    self.instructions = None;
                } else {
                    self.instructions = Some(kept);
                }
            },
            None => {
                assert(Seq::<Seq<char>>::empty().filter(keep) =~= Seq::<Seq<char>>::empty()) by {
                    reveal(Seq::filter);
                }
            },
        }
    }

    /// Replaces the instruction files; an empty list is dropped.
    pub fn update_instructions(&mut self, paths: Vec<String>)
        ensures
            instruction_texts(final(self).instructions) == texts(paths@),
            final(self).instructions is Some <==> paths@.len() > 0,
            *final(self) == (OpenCodeConfig {
                instructions: final(self).instructions,
                ..*old(self)
            }),
    {
        if paths.len() == 0 {
            assert(texts(paths@) =~= Seq::<Seq<char>>::empty());
            self.instructions = None;
        } else {
            self.instructions = Some(paths);
        }
    }
}

/// Stores the key of a provider as a credential of type `api`, in place of
/// the one that was there.
pub fn set_credential(auth: &mut AuthConfig, id: String, api_key: String)
    ensures
        has_name(final(auth)@, id@),
        value_of(final(auth)@, id@).credential_type@ == "api"@,
        value_of(final(auth)@, id@).key == api_key,
        final(auth)@ == put(old(auth)@, id@, value_of(final(auth)@, id@)),
{
    let credential = Credential { credential_type: String::from_str("api"), key: api_key };
    auth.insert(id, credential);
}

/// Removes the credential stored under `id`; fails where there is none.
pub fn delete_credential(auth: &mut AuthConfig, id: &str) -> (r: Result<(), String>)
    ensures
        r is Ok <==> has_name(old(auth)@, id@),
        final(auth)@ == removed(old(auth)@, id@),
        r matches Err(e) ==> e@ == not_found("Credential"@, id@),
{
    match auth.remove(id) {
        Some(_) => Ok(()),
        None => Err(not_found_message("Credential", id)),
    }
}

/// Whether a credential is stored under `id`.
pub fn has_credential(auth: &AuthConfig, id: &str) -> (r: bool)
    ensures
        r == has_name(auth@, id@),
{
    auth.contains_key(id)
}

} // verus!
