//! Coding agents: the sessions read from them, the tasks they run and the
//! queue that orders them, what is collected from them, and the state of
//! each agent.

pub mod agent;
pub mod agent_sync;
pub mod collector;
pub mod connector;
pub mod health;
pub mod monitor;
pub mod opencode;
pub mod task;

use vstd::prelude::*;
use crate::json::{json_text_member, text_member};
use crate::text::{owned, str_eq};

verus! {

/// How an agent is reached.
#[derive(Debug, Clone)]
pub struct AgentConfig {
    pub agent_type: String,
    pub connection_type: String,
    pub config: serde_json::Value,
}

/// One conversation with an agent.
#[derive(Debug, Clone)]
pub struct SessionData {
    pub id: String,
    pub agent_type: String,
    pub timestamp: i64,
    pub messages: Vec<Message>,
    pub metadata: serde_json::Value,
}

/// One message of a conversation.
#[derive(Debug, Clone)]
pub struct Message {
    pub role: String,
    pub content: String,
    pub timestamp: i64,
    pub attachments: Vec<Attachment>,
}

/// Something attached to a message: code, an image or a file.
#[derive(Debug, Clone)]
pub struct Attachment {
    pub type_field: String,
    pub content: String,
    pub language: Option<String>,
}

/// A task found in a conversation.
#[derive(Debug, Clone)]
pub struct ExtractedTask {
    pub title: String,
    pub description: Option<String>,
    pub priority: Option<i32>,
    pub status: Option<String>,
}

/// A piece of code found in a conversation.
#[derive(Debug, Clone)]
pub struct CodeSnippet {
    pub language: String,
    pub code: String,
}

/// The file where a connector finds its sessions, below the home
/// directory: the home directory and the parts joined with `/`.
pub open spec fn home_path(home: Seq<char>, parts: Seq<Seq<char>>) -> Seq<char>
    decreases parts.len(),
{
    if parts.len() == 0 {
        home
    } else {
        home_path(home, parts.drop_last()) + "/"@ + parts.last()
    }
}

/// Reads OpenCode's session log.
pub struct OpenCodeAdapter {
    pub connector: opencode::OpenCodeConnector,
}

impl OpenCodeAdapter {
    /// An adapter reading `<home>/.opencode/logs/sessions.log`.
    pub fn new(home: &str) -> (r: Self)
        ensures
            r.connector.log_path() == home_path(home@, seq![".opencode"@, "logs"@, "sessions.log"@]),
            !r.connector.is_connected(),
    {
        OpenCodeAdapter { connector: opencode::OpenCodeConnector::new(home) }
    }
}

/// Reads ClaudeCode's sessions.
pub struct ClaudeCodeAdapter {
    pub session_path: String,
    pub connected: bool,
}

impl ClaudeCodeAdapter {
    /// An adapter reading the sessions kept in the directory
    /// `session_path`, not connected.
    pub fn new(session_path: &str) -> (r: Self)
        ensures
            r.session_path@ == session_path@,
            !r.connected,
    {
        ClaudeCodeAdapter { session_path: crate::text::owned(session_path), connected: false }
    }
}

/// Stands for Cursor; its sessions are not read.
pub struct CursorAdapter;

impl CursorAdapter {
    pub fn new() -> (r: Self) {
        CursorAdapter
    }
}

/// Stands for any other agent; it has no sessions.
pub struct GenericAdapter;

impl GenericAdapter {
    pub fn new() -> (r: Self) {
        GenericAdapter
    }
}

/// The connection to an agent described by `config`: its
/// `connection_type` member when that is a text, `http` otherwise; the
/// configuration is kept whole.
pub fn add_agent_connection(agent_type: String, config: serde_json::Value) -> (r: Result<AgentConfig, String>)
    ensures
        r matches Ok(c) && c.agent_type == agent_type && c.config == config && c.connection_type@ == match json_text_member(
            config,
            "connection_type"@,
        ) {
            Some(t) => t,
            None => "http"@,
        },
{
    let connection_type = match text_member(&config, "connection_type") {
        Some(t) => t,
        None => owned("http"),
    };
    Ok(AgentConfig { agent_type, connection_type, config })
}

/// A connector to one kind of agent, as [`create_agent_connector`] makes
/// it.
pub enum AgentConnector {
    OpenCode(OpenCodeAdapter),
    ClaudeCode(ClaudeCodeAdapter),
    Cursor(CursorAdapter),
    Generic(GenericAdapter),
}

/// What connecting answers when the agent's log (or session directory)
/// is missing.
pub open spec fn not_found_message(c: AgentConnector) -> Seq<char> {
    match c {
        AgentConnector::OpenCode(_) => "OpenCode logs not found"@,
        AgentConnector::ClaudeCode(_) => "ClaudeCode sessions not found"@,
        AgentConnector::Cursor(_) => "Cursor logs not found"@,
        AgentConnector::Generic(_) => Seq::empty(),
    }
}

/// The connector for an agent type: OpenCode, ClaudeCode and Cursor by
/// their names, a generic one for any other type. OpenCode's log lies
/// below the home directory `home`; ClaudeCode's sessions are kept in the
/// directory `claude_sessions`.
pub fn create_agent_connector(agent_type: &str, home: &str, claude_sessions: &str) -> (r: AgentConnector)
    ensures
        agent_type@ == "opencode"@ <==> r is OpenCode,
        agent_type@ == "claudecode"@ <==> r is ClaudeCode,
        agent_type@ == "cursor"@ <==> r is Cursor,
        r matches AgentConnector::OpenCode(a) ==> a.connector.log_path() == home_path(
            home@,
            seq![".opencode"@, "logs"@, "sessions.log"@],
        ) && !a.connector.is_connected(),
        r matches AgentConnector::ClaudeCode(a) ==> a.session_path@ == claude_sessions@ && !a.connected,
{
    proof {
        reveal_strlit("opencode");
        reveal_strlit("claudecode");
        reveal_strlit("cursor");
        assert("opencode"@.len() == 8 && "claudecode"@.len() == 10 && "cursor"@.len() == 6);
    }
    if str_eq(agent_type, "opencode") {
        AgentConnector::OpenCode(OpenCodeAdapter::new(home))
    } else if str_eq(agent_type, "claudecode") {
        AgentConnector::ClaudeCode(ClaudeCodeAdapter::new(claude_sessions))
    } else if str_eq(agent_type, "cursor") {
        AgentConnector::Cursor(CursorAdapter::new())
    } else {
        AgentConnector::Generic(GenericAdapter::new())
    }
}

impl AgentConnector {
    /// Connects, given whether the agent's log (or session directory) was
    /// found: refused when it was not, except for the generic connector,
    /// which always connects.
    pub fn connect(&mut self, found: bool) -> (r: Result<(), String>)
        ensures
            *final(self) == *old(self),
            *old(self) is Generic ==> r is Ok,
            !(*old(self) is Generic) ==> (r is Ok <==> found),
            r matches Err(e) ==> e@ == not_found_message(*old(self)),
    {
        let message = match self {
            AgentConnector::OpenCode(_) => "OpenCode logs not found",
            AgentConnector::ClaudeCode(_) => "ClaudeCode sessions not found",
            AgentConnector::Cursor(_) => "Cursor logs not found",
            AgentConnector::Generic(_) => {
                return Ok(());
            },
        };
        if found {
            Ok(())
        } else {
            Err(owned(message))
        }
    }

    /// Disconnects; nothing can fail.
    pub fn disconnect(&mut self) -> (r: Result<(), String>)
        ensures
            *final(self) == *old(self),
            r is Ok,
    {
        Ok(())
    }

    /// The agent's recent sessions, at most a hundred. For OpenCode they
    /// are read from `log`, what reading its log file gave (see
    /// [`opencode::OpenCodeConnector::get_recent_sessions`]); the other
    /// connectors have none to give.
    pub fn fetch_sessions(&self, log: Result<Option<String>, String>) -> (r: Result<Vec<SessionData>, String>)
        ensures
            !(self is OpenCode) ==> (r matches Ok(v) && v@.len() == 0),
            self matches AgentConnector::OpenCode(a) ==> match log {
                Err(e) => r matches Err(m) && m@ == "Failed to read OpenCode logs: "@ + e@,
                Ok(None) => r matches Ok(v) && v@.len() == 0,
                Ok(Some(text)) => r matches Ok(v) && {
                    let all = opencode::log_sessions(text@);
                    &&& v@.len() == if all.len() < 100 { all.len() } else { 100 }
                    &&& forall|k: int|
                        0 <= k < v@.len() ==> opencode::session_matches(#[trigger] v@[k], all[all.len() - 1 - k])
                },
            },
    {
        match self {
            AgentConnector::OpenCode(a) => a.connector.get_recent_sessions(log, 100),
            _ => Ok(Vec::new()),
        }
    }
}

} // verus!
