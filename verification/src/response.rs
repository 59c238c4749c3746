//! The envelope every operation returns: a result or an error, visual
//! diffs, and the advisory channel.
use vstd::prelude::*;
use crate::advisory::AdvisoryMessage;
use crate::error::{code_of, message_prefix, payload_of, IvaldiError};
use crate::json_edit::JsonValue;

verus! {

/// Structured error information.
#[derive(Debug)]
pub struct ErrorDetail {
    /// Machine-readable code (e.g. "file_not_found").
    pub code: String,
    /// Readable message.
    pub message: String,
    /// How to resolve the error, if known.
    pub hint: Option<String>,
    /// Extra context.
    pub context: Option<JsonValue>,
}

/// Result of an operation.
#[derive(Debug)]
pub struct IvaldiResponse<T> {
    /// Whether the operation failed.
    pub is_error: bool,
    /// The result (absent on error).
    pub content: Option<T>,
    /// Diffs meant for people.
    pub ui_diffs: Vec<String>,
    /// Coaching messages.
    pub advisory: Vec<AdvisoryMessage>,
    /// What went wrong (absent on success).
    pub error: Option<ErrorDetail>,
}

impl<T> IvaldiResponse<T> {
    /// A successful response.
    pub fn success(content: T) -> (r: Self)
        ensures
            !r.is_error,
            r.content == Some(content),
            r.ui_diffs@.len() == 0,
            r.advisory@.len() == 0,
            r.error is None,
    {
        IvaldiResponse {
            is_error: false,
            content: Some(content),
            ui_diffs: Vec::new(),
            advisory: Vec::new(),
            error: None,
        }
    }

    /// A successful response carrying advisories.
    pub fn success_with_advisory(content: T, advisories: Vec<AdvisoryMessage>) -> (r: Self)
        ensures
            !r.is_error,
            r.content == Some(content),
            r.ui_diffs@.len() == 0,
            r.advisory == advisories,
            r.error is None,
    {
        IvaldiResponse {
            is_error: false,
            content: Some(content),
            ui_diffs: Vec::new(),
            advisory: advisories,
            error: None,
        }
    }

    /// An error response with the given code and message.
    pub fn error(code: String, message: String) -> (r: Self)
        ensures
            r.is_error,
            r.content is None,
            r.ui_diffs@.len() == 0,
            r.advisory@.len() == 0,
            r.error matches Some(e) && e.code == code && e.message == message && e.hint is None
                && e.context is None,
    {
        IvaldiResponse {
            is_error: true,
            content: None,
            ui_diffs: Vec::new(),
            advisory: Vec::new(),
            error: Some(ErrorDetail { code, message, hint: None, context: None }),
        }
    }

    /// An error response for an error category.
    pub fn from_error(err: IvaldiError) -> (r: Self)
        ensures
            r.is_error,
            r.content is None,
            r.ui_diffs@.len() == 0,
            r.advisory@.len() == 0,
            r.error matches Some(e) && e.code@ == code_of(err) && e.message@ == message_prefix(err)
                + payload_of(err) && e.hint is None && e.context is None,
    {
        let code = err.code().to_owned();
        let message = err.message();
        IvaldiResponse {
            is_error: true,
            content: None,
            ui_diffs: Vec::new(),
            advisory: Vec::new(),
            error: Some(ErrorDetail { code, message, hint: None, context: None }),
        }
    }

    /// Adds an advisory at the end.
    pub fn with_advisory(self, advisory: AdvisoryMessage) -> (r: Self)
        ensures
            r.is_error == self.is_error,
            r.content == self.content,
            r.ui_diffs == self.ui_diffs,
            r.advisory@ == self.advisory@.push(advisory),
            r.error == self.error,
    {
        let mut s = self;
        s.advisory.push(advisory);
        s
    }

    /// Adds a diff at the end.
    pub fn with_ui_diff(self, diff: String) -> (r: Self)
        ensures
            r.is_error == self.is_error,
            r.content == self.content,
            r.ui_diffs@ == self.ui_diffs@.push(diff),
            r.advisory == self.advisory,
            r.error == self.error,
    {
        let mut s = self;
        s.ui_diffs.push(diff);
        s
    }

    /// Adds advisories at the end, in order.
    pub fn with_advisories(self, advisories: Vec<AdvisoryMessage>) -> (r: Self)
        ensures
            r.is_error == self.is_error,
            r.content == self.content,
            r.ui_diffs == self.ui_diffs,
            r.advisory@ == self.advisory@ + advisories@,
            r.error == self.error,
    {
        let mut s = self;
        let mut a = advisories;
        s.advisory.append(&mut a);
        s
    }

    /// Sets the hint of an error response; a success is returned unchanged.
    pub fn with_hint(self, hint: String) -> (r: Self)
        ensures
            r.is_error == self.is_error,
            r.content == self.content,
            r.ui_diffs == self.ui_diffs,
            r.advisory == self.advisory,
            match self.error {
                Some(e) => r.error matches Some(f) && f.code == e.code && f.message == e.message
                    && f.hint == Some(hint) && f.context == e.context,
                None => r.error is None,
            },
    {
        let mut s = self;
        match s.error {
            Some(e) => {
                s.error = Some(ErrorDetail { hint: Some(hint), ..e });
            },
            None => {},
        }
        s
    }

    /// Sets the context of an error response; a success is returned unchanged.
    pub fn with_context(self, context: JsonValue) -> (r: Self)
        ensures
            r.is_error == self.is_error,
            r.content == self.content,
            r.ui_diffs == self.ui_diffs,
            r.advisory == self.advisory,
            match self.error {
                Some(e) => r.error matches Some(f) && f.code == e.code && f.message == e.message
                    && f.hint == e.hint && f.context == Some(context),
                None => r.error is None,
            },
    {
        let mut s = self;
        match s.error {
            Some(e) => {
                s.error = Some(ErrorDetail { context: Some(context), ..e });
            },
            None => {},
        }
        s
    }

    /// The operation succeeded and produced content.
    pub fn is_success(&self) -> (r: bool)
        ensures
            r == (!self.is_error && self.content is Some),
    {
        !self.is_error && self.content.is_some()
    }
}

} // verus!
