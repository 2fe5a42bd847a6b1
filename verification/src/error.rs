//! The ways in which a lookup run ends early.

use vstd::prelude::*;
use vstd::string::StringExecFns;
use crate::row::{decimal, decimal_string, hex, hex_string};

verus! {

/// Why a lookup run was abandoned.
#[derive(Clone, Debug, PartialEq, Eq)]
pub enum LookupError {
    /// The debug database could not be opened or read; the words say why.
    Database(String),
    /// The debug database holds no section headers.
    NoSections,
    /// A matched symbol names a section that the section header table does
    /// not list: index `section` of a table of `sections` entries.
    BadSection { section: u16, sections: usize },
    /// The bytes found for the symbol at `offset` are not UTF-8 text.
    NotText { offset: u64 },
}

/// What a `LookupError` stands for in contracts. The words that come with a
/// database error are not part of it.
pub enum Failure {
    Database,
    NoSections,
    BadSection { section: u16, sections: nat },
    NotText { offset: nat },
}

impl View for LookupError {
    type V = Failure;

    open spec fn view(&self) -> Failure {
        match self {
            LookupError::Database(_) => Failure::Database,
            LookupError::NoSections => Failure::NoSections,
            LookupError::BadSection { section, sections } => Failure::BadSection {
                section: *section,
                sections: *sections as nat,
            },
            LookupError::NotText { offset } => Failure::NotText { offset: *offset as nat },
        }
    }
}

/// The text that describes `error`.
pub open spec fn message_text(error: LookupError) -> Seq<char> {
    match error {
        LookupError::Database(words) => words@,
        LookupError::NoSections => "the debug database holds no section headers"@,
        LookupError::BadSection { section, sections } => "a matched symbol lies in section "@
            + decimal(section as nat) + ", but the section header table has entries 1 to "@
            + decimal(sections as nat),
        LookupError::NotText { offset } => "the bytes at offset "@ + hex(offset as nat)
            + " are not valid UTF-8"@,
    }
}

/// The text that a diagnostic line starts with.
pub open spec fn diagnostic_prefix() -> Seq<char> {
    "error dumping PDB: "@
}

impl LookupError {
    /// A description of the error, fit for a diagnostic line.
    pub fn message(&self) -> (text: String)
        ensures
            text@ == message_text(*self),
    {
        match self {
            LookupError::Database(words) => words.clone(),
            LookupError::NoSections => String::from_str(
                "the debug database holds no section headers",
            ),
            LookupError::BadSection { section, sections } => {
                let mut text = String::from_str("a matched symbol lies in section ");
                text.append(decimal_string(*section as u64).as_str());
                text.append(", but the section header table has entries 1 to ");
                text.append(decimal_string(*sections as u64).as_str());
                text
            },
            LookupError::NotText { offset } => {
                let mut text = String::from_str("the bytes at offset ");
                text.append(hex_string(*offset).as_str());
                text.append(" are not valid UTF-8");
                text
            },
        }
    }

    /// The single line that reports the error on the error stream.
    pub fn diagnostic(&self) -> (line: String)
        ensures
            line@ == diagnostic_prefix() + message_text(*self),
    {
        let mut line = String::from_str("error dumping PDB: ");
        let text = self.message();
        line.append(text.as_str());
        line
    }
}

} // verus!
