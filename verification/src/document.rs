//! Open documents as the collector sees them.

use vstd::prelude::*;
use tree_sitter::Language;

verus! {

/// The highlighting configuration of a language. It carries the grammar.
#[derive(Debug)]
pub struct HighlightConfig {
    pub language: Language,
}

/// What a document knows of its language.
#[derive(Debug)]
pub struct LanguageConfig {
    /// Whether the highlighting configuration has been set up.
    pub highlight_initialized: bool,
    pub highlight_config: Option<HighlightConfig>,
    /// The source of the tag query for the grammar.
    pub tags_query: Option<String>,
}

/// An open document.
#[derive(Debug)]
pub struct Document {
    /// Whether the document has a parsed syntax tree.
    pub has_syntax: bool,
    pub language: Option<LanguageConfig>,
    pub text: String,
    pub url: Option<String>,
}

/// True when the document takes part in tag extraction: it has a syntax
/// tree, a language configuration, a highlighting configuration that has been
/// set up, and a tag query.
pub open spec fn eligible(doc: Document) -> bool {
    &&& doc.has_syntax
    &&& doc.language matches Some(language)
    &&& language.highlight_initialized
    &&& language.highlight_config is Some
    &&& language.tags_query is Some
}

impl Document {
    /// Whether the document takes part in tag extraction.
    pub fn is_eligible(&self) -> (r: bool)
        ensures
            r == eligible(*self),
    {
        match &self.language {
            None => false,
            Some(language) => self.has_syntax && language.highlight_initialized
                && language.highlight_config.is_some() && language.tags_query.is_some(),
        }
    }
}

} // verus!
