//! Advisory messages: the coaching channel that travels beside results and
//! errors without failing an operation.
use vstd::prelude::*;
use crate::json_edit::{json_view, JsonValue, JsonView};

verus! {

/// Who produced an advisory.
#[derive(Debug, Clone, Copy, PartialEq, Eq, Structural)]
pub enum AdvisorySource {
    /// The operation itself.
    Tool,
    /// The server infrastructure.
    Server,
    /// Collected experience of earlier runs.
    Adt,
}

/// How much attention an advisory asks for.
#[derive(Debug, Clone, Copy, PartialEq, Eq, Structural)]
pub enum AdvisoryLevel {
    /// For information only.
    Info,
    /// Something unusual; worth a look.
    Warn,
    /// A recommended action.
    Suggest,
}

/// A coaching message.
#[derive(Debug)]
pub struct AdvisoryMessage {
    pub source: AdvisorySource,
    pub level: AdvisoryLevel,
    /// Structured content.
    pub content: JsonValue,
    /// Suggested action, if any.
    pub action: Option<String>,
    /// Related documentation, if any.
    pub reference: Option<String>,
}

impl JsonValue {
    /// A JSON string.
    pub fn text(s: &str) -> (r: JsonValue)
        ensures
            json_view(r) == JsonView::Str(s@),
    {
        JsonValue::Str(s.to_owned())
    }
}

impl AdvisoryMessage {
    /// Information from the tool.
    pub fn tool_info(content: JsonValue) -> (r: Self)
        ensures
            r.source == AdvisorySource::Tool,
            r.level == AdvisoryLevel::Info,
            r.content == content,
            r.action is None,
            r.reference is None,
    {
        AdvisoryMessage {
            source: AdvisorySource::Tool,
            level: AdvisoryLevel::Info,
            content,
            action: None,
            reference: None,
        }
    }

    /// A warning from the tool.
    pub fn tool_warn(content: JsonValue) -> (r: Self)
        ensures
            r.source == AdvisorySource::Tool,
            r.level == AdvisoryLevel::Warn,
            r.content == content,
            r.action is None,
            r.reference is None,
    {
        AdvisoryMessage {
            source: AdvisorySource::Tool,
            level: AdvisoryLevel::Warn,
            content,
            action: None,
            reference: None,
        }
    }

    /// A suggestion drawn from collected experience, with the action to take.
    pub fn adt_suggest(content: JsonValue, action: String) -> (r: Self)
        ensures
            r.source == AdvisorySource::Adt,
            r.level == AdvisoryLevel::Suggest,
            r.content == content,
            r.action == Some(action),
            r.reference is None,
    {
        AdvisoryMessage {
            source: AdvisorySource::Adt,
            level: AdvisoryLevel::Suggest,
            content,
            action: Some(action),
            reference: None,
        }
    }

    /// The same message with a documentation reference.
    pub fn with_reference(self, reference: String) -> (r: Self)
        ensures
            r.source == self.source,
            r.level == self.level,
            r.content == self.content,
            r.action == self.action,
            r.reference == Some(reference),
    {
        AdvisoryMessage { reference: Some(reference), ..self }
    }

    /// The same message with a suggested action.
    pub fn with_action(self, action: String) -> (r: Self)
        ensures
            r.source == self.source,
            r.level == self.level,
            r.content == self.content,
            r.action == Some(action),
            r.reference == self.reference,
    {
        AdvisoryMessage { action: Some(action), ..self }
    }
}

} // verus!
