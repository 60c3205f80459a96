//! Connectors to coding agents: their kinds, configuration, and the state
//! of a connection.
use vstd::prelude::*;
use std::collections::HashMap;
use super::task::AgentTask;
use super::SessionData;
use crate::json::{entries_text, entry_keys_distinct, json_object, json_text_member, JsonScalar};
use crate::text::{all_ascii, lowercase, owned, str_eq, to_lowercase};

verus! {

/// The kind of agent a connector reaches.
#[derive(Debug, Clone, Copy, PartialEq, Eq, Structural)]
pub enum ConnectorType {
    ClaudeCode,
    Cursor,
    OpenCode,
    OpenClaw,
    Custom,
}

/// The name of a connector kind.
pub open spec fn connector_name(t: ConnectorType) -> Seq<char> {
    match t {
        ConnectorType::ClaudeCode => "claudecode"@,
        ConnectorType::Cursor => "cursor"@,
        ConnectorType::OpenCode => "opencode"@,
        ConnectorType::OpenClaw => "openclaw"@,
        ConnectorType::Custom => "custom"@,
    }
}

/// The connector kind a lower-case name stands for, with the spellings
/// `open-code` and `open-claw` also accepted.
pub open spec fn connector_named(t: Seq<char>) -> Option<ConnectorType> {
    if t == "claudecode"@ {
        Some(ConnectorType::ClaudeCode)
    } else if t == "cursor"@ {
        Some(ConnectorType::Cursor)
    } else if t == "opencode"@ || t == "open-code"@ {
        Some(ConnectorType::OpenCode)
    } else if t == "openclaw"@ || t == "open-claw"@ {
        Some(ConnectorType::OpenClaw)
    } else if t == "custom"@ {
        Some(ConnectorType::Custom)
    } else {
        None
    }
}

impl ConnectorType {
    /// The name of this kind.
    pub fn as_str(&self) -> (r: &'static str)
        ensures
            r@ == connector_name(*self),
    {
        match self {
            ConnectorType::ClaudeCode => "claudecode",
            ConnectorType::Cursor => "cursor",
            ConnectorType::OpenCode => "opencode",
            ConnectorType::OpenClaw => "openclaw",
            ConnectorType::Custom => "custom",
        }
    }

    /// The kind named by `s`, read without regard to case; the name of a
    /// kind gives that kind back.
    pub fn from_str(s: &str) -> (r: Option<Self>)
        ensures
            r == connector_named(lowercase(s@)),
            forall|t: ConnectorType| s@ == connector_name(t) ==> r == Some(t),
    {
        let lower = to_lowercase(s);
        let l = lower.as_str();
        let r = if str_eq(l, "claudecode") {
            Some(ConnectorType::ClaudeCode)
        } else if str_eq(l, "cursor") {
            Some(ConnectorType::Cursor)
        } else if str_eq(l, "opencode") || str_eq(l, "open-code") {
            Some(ConnectorType::OpenCode)
        } else if str_eq(l, "openclaw") || str_eq(l, "open-claw") {
            Some(ConnectorType::OpenClaw)
        } else if str_eq(l, "custom") {
            Some(ConnectorType::Custom)
        } else {
            None
        };
        proof {
            assert forall|t: ConnectorType| s@ == connector_name(t) implies r == Some(t) by {
                reveal_strlit("claudecode");
                reveal_strlit("cursor");
                reveal_strlit("opencode");
                reveal_strlit("open-code");
                reveal_strlit("openclaw");
                reveal_strlit("open-claw");
                reveal_strlit("custom");
                assert(all_ascii(s@));
                assert(lower@ =~= s@);
                assert("claudecode"@.len() == 10);
                assert("cursor"@.len() == 6);
                assert("opencode"@.len() == 8);
                assert("open-code"@.len() == 9);
                assert("openclaw"@.len() == 8);
                assert("open-claw"@.len() == 9);
                assert("custom"@.len() == 6);
                assert("opencode"@[5] != "openclaw"@[5]);
                assert("cursor"@[2] != "custom"@[2]);
            }
        }
        r
    }

    /// The name of this kind, as a `String` (what it displays as).
    pub fn to_string(&self) -> (r: String)
        ensures
            r@ == connector_name(*self),
    {
        owned(self.as_str())
    }
}

/// How a connector reaches its agent.
#[derive(Debug, Clone)]
pub struct ConnectorConfig {
    pub api_endpoint: Option<String>,
    pub api_key: Option<String>,
    pub timeout_seconds: u64,
    pub max_retries: u32,
    pub custom_headers: Option<HashMap<String, String>>,
    pub auth_config: Option<AuthConfig>,
}

impl Default for ConnectorConfig {
    /// No endpoint, key, headers or authentication; 30 seconds and three
    /// retries.
    fn default() -> (r: Self)
        ensures
            r.api_endpoint is None,
            r.api_key is None,
            r.timeout_seconds == 30,
            r.max_retries == 3,
            r.custom_headers is None,
            r.auth_config is None,
    {
        ConnectorConfig {
            api_endpoint: None,
            api_key: None,
            timeout_seconds: 30,
            max_retries: 3,
            custom_headers: None,
            auth_config: None,
        }
    }
}

/// How a connector authenticates.
#[derive(Debug, Clone)]
pub struct AuthConfig {
    pub auth_type: String,
    pub credentials: serde_json::Value,
}

/// The display name of a connector kind.
pub open spec fn connector_display_name(t: ConnectorType) -> Seq<char> {
    match t {
        ConnectorType::ClaudeCode => "ClaudeCode"@,
        ConnectorType::Cursor => "Cursor"@,
        ConnectorType::OpenCode => "OpenCode"@,
        ConnectorType::OpenClaw => "OpenClaw"@,
        ConnectorType::Custom => "Custom"@,
    }
}

/// A connector of a built-in kind: its configuration and whether it is
/// connected.
pub struct Connector {
    kind: ConnectorType,
    pub config: ConnectorConfig,
    connected: bool,
}

/// The connector for a kind, not connected; custom connectors are refused.
pub fn create_connector(connector_type: &ConnectorType, config: &ConnectorConfig) -> (r: Result<Connector, String>)
    ensures
        *connector_type == ConnectorType::Custom <==> r is Err,
        r matches Ok(c) ==> c.kind() == *connector_type && !c.is_connected(),
        r matches Err(e) ==> e@ == "Custom connectors require additional implementation"@,
{
    match connector_type {
        ConnectorType::Custom => Err(owned("Custom connectors require additional implementation")),
        _ => Ok(Connector { kind: *connector_type, config: config.clone(), connected: false }),
    }
}

impl Connector {
    /// The kind of agent reached.
    pub closed spec fn kind(self) -> ConnectorType {
        self.kind
    }

    /// Whether the connector is connected.
    pub closed spec fn is_connected(self) -> bool {
        self.connected
    }

    /// Marks the connector connected (once the agent answered).
    pub fn connect(&mut self) -> (r: Result<(), String>)
        ensures
            r is Ok,
            final(self).is_connected(),
            final(self).kind() == old(self).kind(),
    {
        self.connected = true;
        Ok(())
    }

    /// Marks the connector disconnected.
    pub fn disconnect(&mut self) -> (r: Result<(), String>)
        ensures
            r is Ok,
            !final(self).is_connected(),
            final(self).kind() == old(self).kind(),
    {
        self.connected = false;
        Ok(())
    }

    /// Whether the connector is connected.
    pub fn ping(&self) -> (r: Result<bool, String>)
        ensures
            r == Ok::<bool, String>(self.is_connected()),
    {
        Ok(self.connected)
    }

    /// The sessions this connector has read: none, for every built-in
    /// kind.
    pub fn fetch_sessions(&self) -> (r: Result<Vec<SessionData>, String>)
        ensures
            r matches Ok(v) && v@.len() == 0,
    {
        Ok(Vec::new())
    }

    /// The kind of agent reached.
    pub fn get_type(&self) -> (r: ConnectorType)
        ensures
            r == self.kind(),
    {
        self.kind
    }

    /// The display name of the kind.
    pub fn get_name(&self) -> (r: &'static str)
        ensures
            r@ == connector_display_name(self.kind()),
    {
        match self.kind {
            ConnectorType::ClaudeCode => "ClaudeCode",
            ConnectorType::Cursor => "Cursor",
            ConnectorType::OpenCode => "OpenCode",
            ConnectorType::OpenClaw => "OpenClaw",
            ConnectorType::Custom => "Custom",
        }
    }

    /// What running a task answers: the task's identifier, `completed`,
    /// and a message.
    pub fn execute_task(&self, task: &AgentTask) -> (r: Result<serde_json::Value, String>)
        ensures
            r matches Ok(v) && json_text_member(v, "task_id"@) == Some(task.id@) && json_text_member(
                v,
                "status"@,
            ) == Some("completed"@) && json_text_member(v, "result"@) == Some(
                "Task executed successfully"@,
            ),
    {
        let mut fields: Vec<(String, JsonScalar)> = Vec::new();
        fields.push((owned("task_id"), JsonScalar::Text(task.id.clone())));
        fields.push((owned("status"), JsonScalar::Text(owned("completed"))));
        fields.push((owned("result"), JsonScalar::Text(owned("Task executed successfully"))));
        proof {
            reveal_strlit("task_id");
            reveal_strlit("status");
            reveal_strlit("result");
            let e = fields@;
            assert("task_id"@.len() == 7 && "status"@.len() == 6 && "result"@.len() == 6);
            assert("status"@[0] != "result"@[0]);
            assert(entry_keys_distinct(e));
            assert(e.drop_last().drop_last().drop_last() =~= Seq::<(String, JsonScalar)>::empty());
            reveal_with_fuel(entries_text, 4);
            assert(entries_text(e, "result"@) == Some("Task executed successfully"@));
            assert(entries_text(e, "status"@) == Some("completed"@));
            assert(entries_text(e, "task_id"@) == Some(task.id@));
        }
        Ok(json_object(fields))
    }
}

} // verus!
