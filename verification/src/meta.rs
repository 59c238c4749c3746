//! Context that accompanies tool calls, the outcome record kept for
//! learning from past runs, and the command line's shape.
use vstd::prelude::*;
use crate::text::{append_chars, append_str, byte_boundary, bytes_prefix, chars_of, prefix_of_bytes, slice_chars, string_of, utf8_len, utf8_len_chars};

use crate::json_edit::{entries_set, entries_view, entry_set, json_view, JsonEntry, JsonValue};
use crate::stamp::{now_rfc3339, utc_stamp};

verus! {

/// What the editor tells the tools about each call.
#[derive(Debug, Clone)]
pub struct IdeMetadata {
    /// The project's root directory.
    pub project_root: Option<String>,
    /// The conversation the call belongs to.
    pub conversation_id: Option<String>,
    /// The file being edited.
    pub active_file: Option<String>,
    /// The cursor's line.
    pub cursor_line: Option<usize>,
}

/// The editor metadata as it appears in a call's parameters.
#[derive(Debug, Clone)]
pub struct ToolCallContext {
    pub meta: IdeMetadata,
}

impl IdeMetadata {
    /// Metadata with nothing known.
    pub fn empty() -> (r: Self)
        ensures
            r.project_root is None,
            r.conversation_id is None,
            r.active_file is None,
            r.cursor_line is None,
    {
        IdeMetadata { project_root: None, conversation_id: None, active_file: None, cursor_line: None }
    }
}

/// How a recorded tool run ended.
#[derive(Debug, Clone, PartialEq, Eq)]
pub enum Outcome {
    Success,
    /// The run failed, with an error code when known and a sanitized message.
    Failure { code: Option<String>, message: String },
}

impl Outcome {
    /// Whether the run succeeded.
    pub fn is_success(&self) -> (r: bool)
        ensures
            r == (*self is Success),
    {
        match self {
            Outcome::Success => true,
            Outcome::Failure { .. } => false,
        }
    }
}

/// A recorded tool run, kept for learning from past runs: the tool, a
/// hash of its arguments (so identical runs are recognised without keeping
/// their content), how it ended, how long it took, the agent's version,
/// when it ran, and further facts by key.  (A semantic context vector may
/// accompany the record where it is stored; it takes no part here.)
#[derive(Debug)]
pub struct WisdomEntry {
    pub tool_name: String,
    pub args_hash: String,
    pub outcome: Outcome,
    pub duration_ms: u64,
    pub agent_version: String,
    /// When the run was recorded (RFC 3339).
    pub timestamp: String,
    /// Further facts, one entry per key, in the order they were first set.
    pub metadata: Vec<JsonEntry>,
}

impl WisdomEntry {
    /// The record of a run of `tool`, made now by the agent of version
    /// `agent_version`, with no further facts.
    pub fn new(tool: &str, args_hash: &str, outcome: Outcome, duration: u64, agent_version: &str) -> (r: Self)
        ensures
            r.tool_name@ == tool@,
            r.args_hash@ == args_hash@,
            r.outcome == outcome,
            r.duration_ms == duration,
            r.agent_version@ == agent_version@,
            utc_stamp(r.timestamp@),
            r.metadata@.len() == 0,
    {
        WisdomEntry {
            tool_name: tool.to_owned(),
            args_hash: args_hash.to_owned(),
            outcome,
            duration_ms: duration,
            agent_version: agent_version.to_owned(),
            timestamp: now_rfc3339(),
            metadata: Vec::new(),
        }
    }

    /// The record with the fact `key` set to `value` (replacing an earlier
    /// value of that key).
    pub fn with_meta(self, key: &str, value: JsonValue) -> (r: Self)
        ensures
            entries_view(r.metadata@) == entry_set(entries_view(self.metadata@), key@, json_view(value)),
            r.tool_name == self.tool_name,
            r.args_hash == self.args_hash,
            r.outcome == self.outcome,
            r.duration_ms == self.duration_ms,
            r.agent_version == self.agent_version,
            r.timestamp == self.timestamp,
    {
        let mut r = self;
        entries_set(&mut r.metadata, key.to_owned(), value);
        r
    }
}

/// The command line of the `ivaldi` program.
#[derive(Debug, Clone)]
pub struct Cli {
    /// Print responses as JSON.
    pub json: bool,
    /// Key for authenticated services.
    pub api_key: Option<String>,
    /// A configuration file.
    pub config: Option<String>,
    pub command: Option<Commands>,
}

/// The program's commands.
#[derive(Debug, Clone)]
pub enum Commands {
    /// Find files matching a glob.
    Find { dir: String, pattern: String, depth: Option<usize>, no_ignore: bool },
    /// Read a file.
    Read {
        path: String,
        from: Option<usize>,
        to: Option<usize>,
        force: bool,
        query: Option<String>,
        grep: Option<String>,
        context: Option<usize>,
    },
    /// List a directory.
    List { path: String, all: bool },
    /// Write a file (content from standard input when absent).
    Write { path: String, content: Option<String>, force: bool, append: bool },
    /// Edit a file.
    Edit {
        path: String,
        query: Option<String>,
        grep: Option<String>,
        from: Option<usize>,
        to: Option<usize>,
        replacement: String,
    },
    /// Undo the last operation.
    Undo,
    /// Show the version and configuration.
    Status,
}

/// The characters after the first `n` bytes of `s` (meaningful when `n` is
/// on a character boundary).
pub open spec fn bytes_suffix(s: Seq<char>, n: nat) -> Seq<char> {
    s.skip(bytes_prefix(s, n).len() as int)
}

/// An API key as the status shows it: the first and last four bytes of a
/// key longer than eight bytes, else eight stars.
pub open spec fn masked_key(k: Seq<char>) -> Seq<char> {
    if utf8_len(k) > 8 {
        bytes_prefix(k, 4) + "..."@ + bytes_suffix(k, (utf8_len(k) - 4) as nat)
    } else {
        "********"@
    }
}

/// The key as the status shows it (see `masked_key`).
pub fn mask_key(key: &str) -> (r: String)
    requires
        utf8_len(key@) <= usize::MAX,
        utf8_len(key@) > 8 ==> byte_boundary(key@, 4) && byte_boundary(key@, (utf8_len(key@) - 4) as nat),
    ensures
        r@ == masked_key(key@),
{
    let kc = chars_of(key);
    let n = utf8_len_chars(&kc);
    if n > 8 {
        let head = prefix_of_bytes(&kc, 4);
        let upto = prefix_of_bytes(&kc, n - 4);
        let tail = slice_chars(&kc, upto.len(), kc.len());
        let mut v = head;
        append_str(&mut v, "...");
        append_chars(&mut v, &tail);
        assert(tail@ =~= bytes_suffix(key@, (n - 4) as nat));
        string_of(&v)
    } else {
        "********".to_owned()
    }
}

} // verus!
