//! Error categories, each with a machine-readable code an agent can act on.
use vstd::prelude::*;

verus! {

/// What went wrong.  Payloads are the path involved or the message of the
/// underlying failure.
#[derive(Debug, Clone)]
pub enum IvaldiError {
    FileNotFound(String),
    PermissionDenied(String),
    Io(String),
    Serialization(String),
    Git(String),
    Systemd(String),
    InvalidArgument(String),
    Session(String),
    Refactoring(String),
    Journal(String),
    Undo(String),
    Query(String),
    Regex(String),
    BinaryDetected(String),
    FileTooLarge(String),
    Internal(String),
}

/// The machine-readable code of an error.
pub open spec fn code_of(e: IvaldiError) -> Seq<char> {
    match e {
        IvaldiError::FileNotFound(_) => "file_not_found"@,
        IvaldiError::PermissionDenied(_) => "permission_denied"@,
        IvaldiError::BinaryDetected(_) => "binary_detected"@,
        IvaldiError::FileTooLarge(_) => "file_too_large"@,
        IvaldiError::Io(_) => "io_error"@,
        IvaldiError::Serialization(_) => "serialization_error"@,
        IvaldiError::Git(_) => "git_error"@,
        IvaldiError::Systemd(_) => "syslog_error"@,
        IvaldiError::InvalidArgument(_) => "invalid_arg"@,
        IvaldiError::Session(_) => "session_error"@,
        IvaldiError::Journal(_) => "journal_error"@,
        IvaldiError::Undo(_) => "undo_error"@,
        IvaldiError::Query(_) => "query_error"@,
        IvaldiError::Regex(_) => "regex_error"@,
        IvaldiError::Refactoring(_) => "refactoring_error"@,
        IvaldiError::Internal(_) => "internal_error"@,
    }
}

/// The prefix of an error's message, before its payload.
pub open spec fn message_prefix(e: IvaldiError) -> Seq<char> {
    match e {
        IvaldiError::FileNotFound(_) => "File not found: "@,
        IvaldiError::PermissionDenied(_) => "Permission denied: "@,
        IvaldiError::Io(_) => "IO error: "@,
        IvaldiError::Serialization(_) => "Serialization error: "@,
        IvaldiError::Git(_) => "Git error: "@,
        IvaldiError::Systemd(_) => "Systemd error: "@,
        IvaldiError::InvalidArgument(_) => "Invalid argument: "@,
        IvaldiError::Session(_) => "Session error: "@,
        IvaldiError::Refactoring(_) => "Refactoring error: "@,
        IvaldiError::Journal(_) => "Journal error: "@,
        IvaldiError::Undo(_) => "Undo error: "@,
        IvaldiError::Query(_) => "Query error: "@,
        IvaldiError::Regex(_) => "Regex error: "@,
        IvaldiError::BinaryDetected(_) => "Binary file detected: "@,
        IvaldiError::FileTooLarge(_) => "File too large: "@,
        IvaldiError::Internal(_) => "Internal error: "@,
    }
}

/// The payload of an error.
pub open spec fn payload_of(e: IvaldiError) -> Seq<char> {
    match e {
        IvaldiError::FileNotFound(s) => s@,
        IvaldiError::PermissionDenied(s) => s@,
        IvaldiError::Io(s) => s@,
        IvaldiError::Serialization(s) => s@,
        IvaldiError::Git(s) => s@,
        IvaldiError::Systemd(s) => s@,
        IvaldiError::InvalidArgument(s) => s@,
        IvaldiError::Session(s) => s@,
        IvaldiError::Refactoring(s) => s@,
        IvaldiError::Journal(s) => s@,
        IvaldiError::Undo(s) => s@,
        IvaldiError::Query(s) => s@,
        IvaldiError::Regex(s) => s@,
        IvaldiError::BinaryDetected(s) => s@,
        IvaldiError::FileTooLarge(s) => s@,
        IvaldiError::Internal(s) => s@,
    }
}

/// The category a code names (see `category`), read from its length and a
/// few of its characters.
spec fn decode(c: Seq<char>) -> int {
    let n = c.len();
    if n == 8 {
        2
    } else if n == 9 {
        4
    } else if n == 10 {
        10
    } else if n == 11 {
        if c[0] == 'i' {
            6
        } else if c[0] == 'q' {
            11
        } else {
            12
        }
    } else if n == 12 {
        5
    } else if n == 13 {
        if c[0] == 's' {
            7
        } else {
            9
        }
    } else if n == 14 {
        if c[0] == 'i' {
            15
        } else if c[5] == 'n' {
            0
        } else {
            14
        }
    } else if n == 15 {
        13
    } else if n == 17 {
        if c[0] == 'p' {
            1
        } else {
            8
        }
    } else if n == 19 {
        3
    } else {
        -1
    }
}

/// Every error category has a machine-readable code, and different
/// categories have different codes, so an agent can tell them apart.
pub proof fn law_codes_identify_categories(a: IvaldiError, b: IvaldiError)
    ensures
        code_of(a).len() > 0,
        code_of(a) == code_of(b) ==> category(a) == category(b),
{
    reveal_strlit("file_not_found");
    reveal_strlit("permission_denied");
    reveal_strlit("binary_detected");
    reveal_strlit("file_too_large");
    reveal_strlit("io_error");
    reveal_strlit("serialization_error");
    reveal_strlit("git_error");
    reveal_strlit("syslog_error");
    reveal_strlit("invalid_arg");
    reveal_strlit("session_error");
    reveal_strlit("journal_error");
    reveal_strlit("undo_error");
    reveal_strlit("query_error");
    reveal_strlit("regex_error");
    reveal_strlit("refactoring_error");
    reveal_strlit("internal_error");
    assert(decode(code_of(a)) == category(a));
    assert(decode(code_of(b)) == category(b));
}

/// The position of an error's category in the list of categories.
pub open spec fn category(e: IvaldiError) -> int {
    match e {
        IvaldiError::FileNotFound(_) => 0,
        IvaldiError::PermissionDenied(_) => 1,
        IvaldiError::Io(_) => 2,
        IvaldiError::Serialization(_) => 3,
        IvaldiError::Git(_) => 4,
        IvaldiError::Systemd(_) => 5,
        IvaldiError::InvalidArgument(_) => 6,
        IvaldiError::Session(_) => 7,
        IvaldiError::Refactoring(_) => 8,
        IvaldiError::Journal(_) => 9,
        IvaldiError::Undo(_) => 10,
        IvaldiError::Query(_) => 11,
        IvaldiError::Regex(_) => 12,
        IvaldiError::BinaryDetected(_) => 13,
        IvaldiError::FileTooLarge(_) => 14,
        IvaldiError::Internal(_) => 15,
    }
}

impl IvaldiError {
    /// Machine-readable code of the error category.
    pub fn code(&self) -> (r: &'static str)
        ensures
            r@ == code_of(*self),
    {
        match self {
            IvaldiError::FileNotFound(_) => "file_not_found",
            IvaldiError::PermissionDenied(_) => "permission_denied",
            IvaldiError::BinaryDetected(_) => "binary_detected",
            IvaldiError::FileTooLarge(_) => "file_too_large",
            IvaldiError::Io(_) => "io_error",
            IvaldiError::Serialization(_) => "serialization_error",
            IvaldiError::Git(_) => "git_error",
            IvaldiError::Systemd(_) => "syslog_error",
            IvaldiError::InvalidArgument(_) => "invalid_arg",
            IvaldiError::Session(_) => "session_error",
            IvaldiError::Journal(_) => "journal_error",
            IvaldiError::Undo(_) => "undo_error",
            IvaldiError::Query(_) => "query_error",
            IvaldiError::Regex(_) => "regex_error",
            IvaldiError::Refactoring(_) => "refactoring_error",
            IvaldiError::Internal(_) => "internal_error",
        }
    }

    /// Human-readable message: the category's prefix followed by the payload.
    pub fn message(&self) -> (r: String)
        ensures
            r@ == message_prefix(*self) + payload_of(*self),
    {
        let (prefix, payload) = match self {
            IvaldiError::FileNotFound(s) => ("File not found: ", s),
            IvaldiError::PermissionDenied(s) => ("Permission denied: ", s),
            IvaldiError::Io(s) => ("IO error: ", s),
            IvaldiError::Serialization(s) => ("Serialization error: ", s),
            IvaldiError::Git(s) => ("Git error: ", s),
            IvaldiError::Systemd(s) => ("Systemd error: ", s),
            IvaldiError::InvalidArgument(s) => ("Invalid argument: ", s),
            IvaldiError::Session(s) => ("Session error: ", s),
            IvaldiError::Refactoring(s) => ("Refactoring error: ", s),
            IvaldiError::Journal(s) => ("Journal error: ", s),
            IvaldiError::Undo(s) => ("Undo error: ", s),
            IvaldiError::Query(s) => ("Query error: ", s),
            IvaldiError::Regex(s) => ("Regex error: ", s),
            IvaldiError::BinaryDetected(s) => ("Binary file detected: ", s),
            IvaldiError::FileTooLarge(s) => ("File too large: ", s),
            IvaldiError::Internal(s) => ("Internal error: ", s),
        };
        let mut c = crate::text::chars_of(prefix);
        crate::text::append_str(&mut c, payload.as_str());
        crate::text::string_of(&c)
    }
}

} // verus!
