//! OpenCode's session log: where it lies and how its text is read into
//! sessions.
use vstd::prelude::*;
use super::{home_path, Message, SessionData};
use crate::json::{entries_text, entry_keys_distinct, json_object, json_text_member, JsonScalar};
use crate::runtime::{new_id, now_timestamp};
use crate::text::{
    chars_from, concat, contains_seq, find_chars, find_from, from_chars, lines_of, owned, split_lines,
    starts_with, starts_with_chars, str_contains, to_chars, trim, trim_chars,
};

verus! {

/// One entry of OpenCode's log.
#[derive(Debug, Clone)]
pub struct OpenCodeLog {
    pub timestamp: i64,
    pub role: String,
    pub content: String,
    pub metadata: OpenCodeMetadata,
}

/// What OpenCode records about an entry.
#[derive(Debug, Clone)]
pub struct OpenCodeMetadata {
    pub session_id: Option<String>,
    pub model: Option<String>,
    pub tokens: Option<i64>,
    pub file_path: Option<String>,
}

/// A session as the log describes it: its identifier when the log gives
/// one (a fresh one is made up otherwise), and its messages as `(role,
/// content)` pairs.
pub type LogSession = (Option<Seq<char>>, Seq<(Seq<char>, Seq<char>)>);

/// The line opens a session: trimmed, it starts with `=== Session:` or
/// mentions `New conversation`.
pub open spec fn is_session_marker(line: Seq<char>) -> bool {
    starts_with(trim(line), "=== Session:"@) || contains_seq(trim(line), "New conversation"@)
}

/// The identifier a session line gives: the trimmed text after the first
/// `Session:`, unless that is empty or absent.
pub open spec fn marker_id(line: Seq<char>) -> Option<Seq<char>> {
    match find_from(line, "Session:"@, 0) {
        Some(p) => {
            let rest = trim(line.skip(p + "Session:"@.len()));
            if rest.len() > 0 {
                Some(rest)
            } else {
                None
            }
        },
        None => None,
    }
}

/// The message a line holds: trimmed, a line that starts with `[User]:` or
/// `[Assistant]:` gives that role and the trimmed text after the prefix.
pub open spec fn message_of(line: Seq<char>) -> Option<(Seq<char>, Seq<char>)> {
    let t = trim(line);
    if starts_with(t, "[User]:"@) {
        Some(("user"@, trim(t.skip("[User]:"@.len() as int))))
    } else if starts_with(t, "[Assistant]:"@) {
        Some(("assistant"@, trim(t.skip("[Assistant]:"@.len() as int))))
    } else {
        None
    }
}

/// Reading state after some lines: the sessions closed, the messages of
/// the open session, and whether a session is open (with its identifier
/// as [`marker_id`] gives it).
pub open spec fn log_state(lines: Seq<Seq<char>>) -> (Seq<LogSession>, Seq<(Seq<char>, Seq<char>)>, Option<Option<Seq<char>>>)
    decreases lines.len(),
{
    if lines.len() == 0 {
        (Seq::empty(), Seq::empty(), None)
    } else {
        let (done, msgs, sid) = log_state(lines.drop_last());
        let l = lines.last();
        if is_session_marker(l) {
            let closed = if msgs.len() > 0 && sid is Some {
                done.push((sid->0, msgs))
            } else {
                done
            };
            (closed, Seq::empty(), Some(marker_id(l)))
        } else {
            match message_of(l) {
                Some(m) => (done, msgs.push(m), sid),
                None => (done, msgs, sid),
            }
        }
    }
}

/// The sessions of a log: every session that a marker line opens and that
/// holds at least one message, in order.
pub open spec fn log_sessions(content: Seq<char>) -> Seq<LogSession> {
    let (done, msgs, sid) = log_state(lines_of(content));
    if msgs.len() > 0 && sid is Some {
        done.push((sid->0, msgs))
    } else {
        done
    }
}

/// The messages read match the `(role, content)` pairs, without
/// attachments.
pub open spec fn messages_match(ms: Seq<Message>, pairs: Seq<(Seq<char>, Seq<char>)>) -> bool {
    &&& ms.len() == pairs.len()
    &&& forall|j: int|
        0 <= j < ms.len() ==> (#[trigger] ms[j]).role@ == pairs[j].0 && ms[j].content@ == pairs[j].1
            && ms[j].attachments@.len() == 0
}

/// A session read matches its description: the identifier where the log
/// gives one, OpenCode as its agent, and its messages.
pub open spec fn session_matches(s: SessionData, ls: LogSession) -> bool {
    &&& ls.0 matches Some(id) ==> s.id@ == id
    &&& s.agent_type@ == "opencode"@
    &&& messages_match(s.messages@, ls.1)
    &&& json_text_member(s.metadata, "source"@) == Some("logfile"@)
}

/// Reads OpenCode's session log.
pub struct OpenCodeConnector {
    log_path: String,
    connected: bool,
}

impl OpenCodeConnector {
    /// Where the log lies.
    pub closed spec fn log_path(self) -> Seq<char> {
        self.log_path@
    }

    /// Whether the connector is connected.
    pub closed spec fn is_connected(self) -> bool {
        self.connected
    }

    /// A connector for `<home>/.opencode/logs/sessions.log`, not connected.
    pub fn new(home: &str) -> (r: Self)
        ensures
            r.log_path() == home_path(home@, seq![".opencode"@, "logs"@, "sessions.log"@]),
            !r.is_connected(),
    {
        let mut p = concat(home, "/.opencode");
        p = concat(p.as_str(), "/logs");
        p = concat(p.as_str(), "/sessions.log");
        proof {
            reveal_strlit("/.opencode");
            reveal_strlit("/logs");
            reveal_strlit("/sessions.log");
            reveal_strlit("/");
            reveal_strlit(".opencode");
            reveal_strlit("logs");
            reveal_strlit("sessions.log");
            let parts = seq![".opencode"@, "logs"@, "sessions.log"@];
            assert(parts.drop_last() =~= seq![".opencode"@, "logs"@]);
            assert(parts.drop_last().drop_last() =~= seq![".opencode"@]);
            assert(parts.drop_last().drop_last().drop_last() =~= Seq::<Seq<char>>::empty());
            assert(home_path(home@, Seq::<Seq<char>>::empty()) == home@);
            assert(home_path(home@, seq![".opencode"@]) == home@ + "/"@ + ".opencode"@);
            assert(home_path(home@, seq![".opencode"@, "logs"@]) == home@ + "/"@ + ".opencode"@ + "/"@
                + "logs"@);
            assert(home_path(home@, parts) == home@ + "/"@ + ".opencode"@ + "/"@ + "logs"@ + "/"@
                + "sessions.log"@);
            assert(p@ =~= home@ + "/"@ + ".opencode"@ + "/"@ + "logs"@ + "/"@ + "sessions.log"@);
        }
        OpenCodeConnector { log_path: p, connected: false }
    }

    /// The same connector reading the log at `log_path`.
    pub fn with_log_path(self, log_path: &str) -> (r: Self)
        ensures
            r.log_path() == log_path@,
            r.is_connected() == self.is_connected(),
    {
        OpenCodeConnector { log_path: owned(log_path), connected: self.connected }
    }

    /// Where the log lies.
    pub fn get_log_path(&self) -> (r: &str)
        ensures
            r@ == self.log_path(),
    {
        self.log_path.as_str()
    }

    /// Records whether the log was found when connecting: connected
    /// exactly when it was, refused otherwise.
    pub fn connect(&mut self, log_found: bool) -> (r: Result<(), String>)
        ensures
            final(self).is_connected() == log_found,
            final(self).log_path() == old(self).log_path(),
            r is Ok <==> log_found,
    {
        if log_found {
            self.connected = true;
            Ok(())
        } else {
            self.connected = false;
            Err(owned("OpenCode logs not found"))
        }
    }

    /// Disconnects.
    pub fn disconnect(&mut self) -> (r: Result<(), String>)
        ensures
            !final(self).is_connected(),
            final(self).log_path() == old(self).log_path(),
            r is Ok,
    {
        self.connected = false;
        Ok(())
    }

    /// The identifier a session line gives (see [`marker_id`]), or a fresh
    /// random one.
    fn extract_session_id(&self, line: &str) -> (r: String)
        ensures
            marker_id(line@) matches Some(id) ==> r@ == id,
    {
        let lc = to_chars(line);
        let key = to_chars("Session:");
        match find_chars(lc.as_slice(), key.as_slice()) {
            Some(pos) => {
                proof {
                    reveal_strlit("Session:");
                    crate::text::lemma_find_from_occurs(lc@, key@, 0);
                }
                let rest = chars_from(lc.as_slice(), pos + key.len());
                let id_part = trim_chars(rest.as_slice());
                if id_part.len() > 0 {
                    return from_chars(id_part.as_slice());
                }
                new_id()
            },
            None => new_id(),
        }
    }

    /// The message a line holds (see [`message_of`]), stamped now.
    fn parse_message(&self, line: &str) -> (r: Option<Message>)
        ensures
            match message_of(line@) {
                Some(m) => r matches Some(msg) && msg.role@ == m.0 && msg.content@ == m.1
                    && msg.attachments@.len() == 0,
                None => r is None,
            },
    {
        let lc = to_chars(line);
        let t = trim_chars(lc.as_slice());
        let user = to_chars("[User]:");
        let assistant = to_chars("[Assistant]:");
        if starts_with_chars(t.as_slice(), user.as_slice()) {
            let rest = chars_from(t.as_slice(), user.len());
            let content = trim_chars(rest.as_slice());
            Some(Message { role: owned("user"), content: from_chars(content.as_slice()), timestamp: now_timestamp(), attachments: Vec::new() })
        } else if starts_with_chars(t.as_slice(), assistant.as_slice()) {
            let rest = chars_from(t.as_slice(), assistant.len());
            let content = trim_chars(rest.as_slice());
            Some(Message { role: owned("assistant"), content: from_chars(content.as_slice()), timestamp: now_timestamp(), attachments: Vec::new() })
        } else {
            None
        }
    }

    /// A session of OpenCode with the given identifier, messages and start
    /// time; its metadata records the source and the message count.
    fn create_session_data(&self, id: String, messages: Vec<Message>, timestamp: i64) -> (r: SessionData)
        ensures
            r.id == id,
            r.agent_type@ == "opencode"@,
            r.messages == messages,
            r.timestamp == timestamp,
            json_text_member(r.metadata, "source"@) == Some("logfile"@),
    {
        let mut meta: Vec<(String, JsonScalar)> = Vec::new();
        meta.push((owned("source"), JsonScalar::Text(owned("logfile"))));
        meta.push((owned("message_count"), JsonScalar::Count(messages.len() as u64)));
        proof {
            reveal_strlit("source");
            reveal_strlit("message_count");
            assert("source"@.len() == 6 && "message_count"@.len() == 13);
            assert(entry_keys_distinct(meta@));
            reveal_with_fuel(entries_text, 3);
        }
        SessionData { id, agent_type: owned("opencode"), timestamp, messages, metadata: json_object(meta) }
    }

    /// Reads the sessions out of the text of a log (see [`log_sessions`]):
    /// a session starts at a marker line and closes at the next one or at
    /// the end; sessions without messages are left out. Sessions and
    /// messages are stamped with the time they are read.
    pub fn parse_log_content(&self, content: &str) -> (r: Result<Vec<SessionData>, String>)
        ensures
            r matches Ok(v) && v@.len() == log_sessions(content@).len() && forall|k: int|
                0 <= k < v@.len() ==> session_matches(#[trigger] v@[k], log_sessions(content@)[k]),
    {
        let lines = split_lines(content);
        let ghost ls = lines.deep_view();
        let mut sessions: Vec<SessionData> = Vec::new();
        let mut current: Vec<Message> = Vec::new();
        let mut current_id: Option<String> = None;
        let mut session_start: i64 = now_timestamp();
        let ghost mut sid: Option<Option<Seq<char>>> = None;
        let mut i: usize = 0;
        assert(ls.take(0) =~= Seq::<Seq<char>>::empty());
        while i < lines.len()
            invariant
                ls == lines.deep_view(),
                ls == lines_of(content@),
                i <= ls.len(),
                sessions@.len() == log_state(ls.take(i as int)).0.len(),
                forall|k: int| 0 <= k < sessions@.len() ==> session_matches(#[trigger] sessions@[k], log_state(ls.take(i as int)).0[k]),
                messages_match(current@, log_state(ls.take(i as int)).1),
                sid == log_state(ls.take(i as int)).2,
                current_id is Some <==> sid is Some,
                sid matches Some(Some(id)) ==> current_id->0@ == id,
            decreases ls.len() - i,
        {
            let ghost before = log_state(ls.take(i as int));
            proof {
                assert(ls.take(i + 1).drop_last() =~= ls.take(i as int));
                assert(ls.take(i + 1).last() == ls[i as int]);
            }
            let line = lines[i].as_str();
            assert(line@ == ls[i as int]);
            let trimmed = crate::text::str_trim(line);
            let marker = starts_with_chars(to_chars(trimmed.as_str()).as_slice(), to_chars("=== Session:").as_slice())
                || str_contains(trimmed.as_str(), "New conversation");
            if marker {
                if current.len() > 0 && current_id.is_some() {
                    let mut taken: Vec<Message> = Vec::new();
                    std::mem::swap(&mut taken, &mut current);
                    let id = match &current_id {
                        Some(x) => x.clone(),
                        None => owned(""),
                    };
                    let ghost s0 = sessions@;
                    sessions.push(self.create_session_data(id, taken, session_start));
                    proof {
                        assert forall|k: int| 0 <= k < sessions@.len() implies session_matches(#[trigger] sessions@[k], log_state(ls.take(i + 1)).0[k]) by {
                            if k < s0.len() {
                                assert(sessions@[k] == s0[k]);
                            }
                        }
                    }
                } else {
                    current = Vec::new();
                }
                current = Vec::new();
                current_id = Some(self.extract_session_id(line));
                session_start = now_timestamp();
                proof {
                    sid = Some(marker_id(line@));
                    assert(messages_match(current@, Seq::<(Seq<char>, Seq<char>)>::empty()));
                }
            } else {
                let ghost c0 = current@;
                if let Some(msg) = self.parse_message(line) {
                    current.push(msg);
                    proof {
                        let m1 = log_state(ls.take(i + 1)).1;
                        assert forall|j: int| 0 <= j < current@.len() implies (#[trigger] current@[j]).role@ == m1[j].0 && current@[j].content@ == m1[j].1
                            && current@[j].attachments@.len() == 0 by {
                            if j < c0.len() {
                                assert(current@[j] == c0[j]);
                            }
                        }
                    }
                }
            }
            i = i + 1;
        }
        assert(ls.take(ls.len() as int) =~= ls);
        if current.len() > 0 && current_id.is_some() {
            let id = match &current_id {
                Some(x) => x.clone(),
                None => owned(""),
            };
            let ghost s0 = sessions@;
            sessions.push(self.create_session_data(id, current, session_start));
            proof {
                assert forall|k: int| 0 <= k < sessions@.len() implies session_matches(#[trigger] sessions@[k], log_sessions(content@)[k]) by {
                    if k < s0.len() {
                        assert(sessions@[k] == s0[k]);
                    }
                }
            }
        }
        Ok(sessions)
    }

    /// All the sessions of the log, in order. `log` is what reading the
    /// log file gave: its text, `None` when there is no file (no
    /// sessions), or the error met while reading it.
    pub fn parse_logs(&self, log: Result<Option<String>, String>) -> (r: Result<Vec<SessionData>, String>)
        ensures
            match log {
                Err(e) => r matches Err(m) && m@ == "Failed to read OpenCode logs: "@ + e@,
                Ok(None) => r matches Ok(v) && v@.len() == 0,
                Ok(Some(text)) => r matches Ok(v) && v@.len() == log_sessions(text@).len() && forall|k: int|
                    0 <= k < v@.len() ==> session_matches(#[trigger] v@[k], log_sessions(text@)[k]),
            },
    {
        match log {
            Err(e) => Err(concat("Failed to read OpenCode logs: ", e.as_str())),
            Ok(None) => Ok(Vec::new()),
            Ok(Some(text)) => self.parse_log_content(text.as_str()),
        }
    }

    /// The latest sessions of the log, newest first, at most `limit` of
    /// them. `log` is what reading the log file gave: its text, `None` when
    /// there is no file, or the error met while reading it.
    pub fn get_recent_sessions(&self, log: Result<Option<String>, String>, limit: usize) -> (r: Result<Vec<SessionData>, String>)
        ensures
            match log {
                Err(e) => r matches Err(m) && m@ == "Failed to read OpenCode logs: "@ + e@,
                Ok(None) => r matches Ok(v) && v@.len() == 0,
                Ok(Some(text)) => r matches Ok(v) && {
                    let all = log_sessions(text@);
                    &&& v@.len() == if all.len() < limit { all.len() } else { limit as nat }
                    &&& forall|k: int| 0 <= k < v@.len() ==> session_matches(#[trigger] v@[k], all[all.len() - 1 - k])
                },
            },
    {
        match log {
            Err(e) => Err(concat("Failed to read OpenCode logs: ", e.as_str())),
            Ok(None) => Ok(Vec::new()),
            Ok(Some(text)) => {
                let parsed = match self.parse_log_content(text.as_str()) {
                    Ok(v) => v,
                    Err(e) => {
                        return Err(e);
                    },
                };
                let ghost all = log_sessions(text@);
                let ghost pv = parsed@;
                let mut rest = parsed;
                let mut out: Vec<SessionData> = Vec::new();
                while rest.len() > 0 && out.len() < limit
                    invariant
                        pv.len() == all.len(),
                        forall|k: int| 0 <= k < pv.len() ==> session_matches(#[trigger] pv[k], all[k]),
                        rest@ == pv.take(rest@.len() as int),
                        rest@.len() + out@.len() == pv.len(),
                        out@.len() <= limit,
                        forall|k: int| 0 <= k < out@.len() ==> #[trigger] out@[k] == pv[pv.len() - 1 - k],
                    decreases rest@.len(),
                {
                    let ghost r0 = rest@;
                    let ghost o0 = out@;
                    let x = rest.pop().unwrap();
                    out.push(x);
                    proof {
                        assert(rest@ =~= pv.take(rest@.len() as int));
                        assert forall|k: int| 0 <= k < out@.len() implies #[trigger] out@[k] == pv[pv.len() - 1 - k] by {
                            if k < o0.len() {
                                assert(out@[k] == o0[k]);
                            }
                        }
                    }
                }
                proof {
                    assert forall|k: int| 0 <= k < out@.len() implies session_matches(#[trigger] out@[k], all[all.len() - 1 - k]) by {
                        assert(out@[k] == pv[pv.len() - 1 - k]);
                    }
                }
                Ok(out)
            },
        }
    }
}

/// A line that, trimmed, starts with `[User]:` holds a message of the
/// user, and one that starts with `[Assistant]:` a message of the
/// assistant, each with the trimmed text after its prefix; a line with
/// neither prefix holds no message.
pub proof fn law_message_roles(line: Seq<char>)
    ensures
        starts_with(trim(line), "[User]:"@) ==> message_of(line) == Some(
            ("user"@, trim(trim(line).skip(7))),
        ),
        starts_with(trim(line), "[Assistant]:"@) ==> message_of(line) == Some(
            ("assistant"@, trim(trim(line).skip(12))),
        ),
        !starts_with(trim(line), "[User]:"@) && !starts_with(trim(line), "[Assistant]:"@) ==> message_of(
            line,
        ) is None,
        message_of(line) matches Some(m) ==> m.0 == "user"@ || m.0 == "assistant"@,
{
    reveal_strlit("[User]:");
    reveal_strlit("[Assistant]:");
    let t = trim(line);
    if starts_with(t, "[Assistant]:"@) {
        assert(t.take(12)[1] == 'A');
        assert(t[1] == 'A');
        if starts_with(t, "[User]:"@) {
            assert(t.take(7)[1] == 'U');
        }
        assert(!starts_with(t, "[User]:"@));
    }
}

/// Whether some line of `lines` holds the message `m`.
pub open spec fn held_by_a_line(lines: Seq<Seq<char>>, m: (Seq<char>, Seq<char>)) -> bool {
    exists|i: int| 0 <= i < lines.len() && message_of(#[trigger] lines[i]) == Some(m)
}

proof fn lemma_state_messages_from_lines(lines: Seq<Seq<char>>)
    ensures
        forall|j: int|
            0 <= j < log_state(lines).1.len() ==> held_by_a_line(lines, #[trigger] log_state(lines).1[j]),
        forall|k: int, j: int|
            0 <= k < log_state(lines).0.len() && 0 <= j < log_state(lines).0[k].1.len() ==> held_by_a_line(
                lines,
                #[trigger] log_state(lines).0[k].1[j],
            ),
    decreases lines.len(),
{
    if lines.len() > 0 {
        let prev = lines.drop_last();
        lemma_state_messages_from_lines(prev);
        let (done, msgs, sid) = log_state(prev);
        let l = lines.last();
        assert forall|m: (Seq<char>, Seq<char>)| held_by_a_line(prev, m) implies held_by_a_line(lines, m) by {
            let i = choose|i: int| 0 <= i < prev.len() && message_of(#[trigger] prev[i]) == Some(m);
            assert(lines[i] == prev[i]);
        }
        if !is_session_marker(l) {
            if let Some(m) = message_of(l) {
                assert(lines[lines.len() - 1] == l);
                assert(held_by_a_line(lines, m));
                assert(log_state(lines).1 == msgs.push(m));
                assert forall|j: int| 0 <= j < log_state(lines).1.len() implies held_by_a_line(
                    lines,
                    #[trigger] log_state(lines).1[j],
                ) by {
                    if j < msgs.len() {
                        assert(log_state(lines).1[j] == msgs[j]);
                    }
                }
            }
        } else {
            let closed = if msgs.len() > 0 && sid is Some {
                done.push((sid->0, msgs))
            } else {
                done
            };
            assert(log_state(lines).0 == closed);
            assert forall|k: int, j: int|
                0 <= k < closed.len() && 0 <= j < closed[k].1.len() implies held_by_a_line(
                    lines,
                    #[trigger] closed[k].1[j],
                ) by {
                if k < done.len() {
                    assert(closed[k] == done[k]);
                    assert(held_by_a_line(prev, done[k].1[j]));
                } else {
                    assert(closed[k].1 == msgs);
                    assert(held_by_a_line(prev, msgs[j]));
                }
            }
        }
    }
}

/// Every message of every session read out of a log is the message one
/// of the log's lines holds (see [`law_message_roles`]), so its role is
/// that line's prefix.
pub proof fn law_log_messages_come_from_lines(content: Seq<char>)
    ensures
        forall|k: int, j: int|
            0 <= k < log_sessions(content).len() && 0 <= j < log_sessions(content)[k].1.len()
                ==> held_by_a_line(lines_of(content), #[trigger] log_sessions(content)[k].1[j]),
{
    let lines = lines_of(content);
    lemma_state_messages_from_lines(lines);
    let (done, msgs, sid) = log_state(lines);
    let all = log_sessions(content);
    assert forall|k: int, j: int| 0 <= k < all.len() && 0 <= j < all[k].1.len() implies held_by_a_line(
        lines,
        #[trigger] all[k].1[j],
    ) by {
        if k < done.len() {
            assert(all[k] == done[k]);
            assert(held_by_a_line(lines, done[k].1[j]));
        } else {
            assert(all[k].1 == msgs);
            assert(held_by_a_line(lines, msgs[j]));
        }
    }
}

proof fn lemma_closed_sessions_nonempty(lines: Seq<Seq<char>>)
    ensures
        forall|k: int| 0 <= k < log_state(lines).0.len() ==> (#[trigger] log_state(lines).0[k]).1.len() > 0,
    decreases lines.len(),
{
    if lines.len() > 0 {
        let prev = lines.drop_last();
        lemma_closed_sessions_nonempty(prev);
        let (done, msgs, sid) = log_state(prev);
        let l = lines.last();
        if is_session_marker(l) {
            let closed = if msgs.len() > 0 && sid is Some {
                done.push((sid->0, msgs))
            } else {
                done
            };
            assert(log_state(lines).0 == closed);
            assert forall|k: int| 0 <= k < closed.len() implies (#[trigger] closed[k]).1.len() > 0 by {
                if k < done.len() {
                    assert(closed[k] == done[k]);
                }
            }
        } else {
            assert(log_state(lines).0 == done);
        }
    }
}

/// A log yields no session without messages.
pub proof fn law_sessions_have_messages(content: Seq<char>)
    ensures
        forall|k: int| 0 <= k < log_sessions(content).len() ==> (#[trigger] log_sessions(content)[k]).1.len() > 0,
{
    let lines = lines_of(content);
    lemma_closed_sessions_nonempty(lines);
    let (done, msgs, sid) = log_state(lines);
    assert forall|k: int| 0 <= k < log_sessions(content).len() implies (#[trigger] log_sessions(content)[k]).1.len()
        > 0 by {
        if k < done.len() {
            assert(log_sessions(content)[k] == done[k]);
        }
    }
}

} // verus!
