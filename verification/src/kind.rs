//! The kinds of source file the structural tools tell apart.
use vstd::prelude::*;

verus! {

/// The language of a file, as the structural parser classifies it.
#[derive(Debug, Clone, PartialEq, Eq)]
pub enum SourceKind {
    Rust,
    Python,
    Go,
    C,
    Cpp,
    Markdown,
    Json,
    Text,
    Unknown,
    /// Any other language, by the name the parser gives it.
    Other(String),
}

/// Abstract value of a kind: its name as the parser's debug output writes it.
pub open spec fn kind_name(k: SourceKind) -> Seq<char> {
    match k {
        SourceKind::Rust => "Rust"@,
        SourceKind::Python => "Python"@,
        SourceKind::Go => "Go"@,
        SourceKind::C => "C"@,
        SourceKind::Cpp => "Cpp"@,
        SourceKind::Markdown => "Markdown"@,
        SourceKind::Json => "Json"@,
        SourceKind::Text => "Text"@,
        SourceKind::Unknown => "Unknown"@,
        SourceKind::Other(n) => n@,
    }
}

/// Languages whose files declare functions, types and imports.
pub open spec fn is_code(k: SourceKind) -> bool {
    k is Rust || k is Go || k is Python || k is C || k is Cpp
}

impl SourceKind {
    /// The kind's name, as the parser's debug output writes it.
    pub fn name(&self) -> (r: String)
        ensures
            r@ == kind_name(*self),
    {
        match self {
            SourceKind::Rust => "Rust".to_owned(),
            SourceKind::Python => "Python".to_owned(),
            SourceKind::Go => "Go".to_owned(),
            SourceKind::C => "C".to_owned(),
            SourceKind::Cpp => "Cpp".to_owned(),
            SourceKind::Markdown => "Markdown".to_owned(),
            SourceKind::Json => "Json".to_owned(),
            SourceKind::Text => "Text".to_owned(),
            SourceKind::Unknown => "Unknown".to_owned(),
            SourceKind::Other(n) => n.clone(),
        }
    }

    /// Whether the kind declares functions, types and imports.
    pub fn is_code(&self) -> (r: bool)
        ensures
            r == is_code(*self),
    {
        match self {
            SourceKind::Rust | SourceKind::Go | SourceKind::Python | SourceKind::C
            | SourceKind::Cpp => true,
            _ => false,
        }
    }
}

} // verus!
