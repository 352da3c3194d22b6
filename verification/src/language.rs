//! The markup languages that a site can be written in.

use crate::text::same_text;
use vstd::prelude::*;

verus! {

/// The name of reStructuredText, which is also the extension of its files.
pub const RST: &'static str = "rst";

/// What is said of a name that is no markup language.
pub const UNKNOWN_LANGUAGE: &'static str = "unknown markup language, please use one of: [rst]";

/// A markup language in which the body of a document can be written.
#[derive(Debug, Copy, Clone, PartialEq, Eq, Structural)]
pub enum MarkupLanguage {
    RestructuredText,
}

/// A name was given that is no markup language.
#[derive(Debug, Copy, Clone, PartialEq, Eq, Structural)]
pub struct MarkupLanguageParseError;

impl MarkupLanguageParseError {
    /// What went wrong, for a reader.
    pub fn to_string(&self) -> (r: String)
        ensures
            r@ == UNKNOWN_LANGUAGE@,
    {
        UNKNOWN_LANGUAGE.to_owned()
    }
}

impl MarkupLanguage {
    /// The markup language named `s`.
    pub fn from_str(s: &str) -> (r: Result<MarkupLanguage, MarkupLanguageParseError>)
        ensures
            r == if s@ == RST@ {
                Ok::<MarkupLanguage, MarkupLanguageParseError>(MarkupLanguage::RestructuredText)
            } else {
                Err::<MarkupLanguage, MarkupLanguageParseError>(MarkupLanguageParseError)
            },
    {
        if same_text(s, RST) {
            Ok(MarkupLanguage::RestructuredText)
        } else {
            Err(MarkupLanguageParseError)
        }
    }

    /// The name of the language as a text.
    pub open spec fn name(self) -> Seq<char> {
        match self {
            MarkupLanguage::RestructuredText => RST@,
        }
    }

    /// The name of the language, which is also the extension of its files.
    pub fn to_string(&self) -> (r: String)
        ensures
            r@ == self.name(),
    {
        match self {
            MarkupLanguage::RestructuredText => RST.to_owned(),
        }
    }
}

} // verus!
