//! The tag extractor: the tags that the tag engine generates for a
//! document, and the reading of a tag's name.

use vstd::prelude::*;
use vstd::utf8::*;
use vstd::string::StringSliceAdditionalSpecFns;
use tree_sitter::Language;
use tree_sitter_tags::{Error, TagsConfiguration, TagsContext};
use crate::document::{eligible, Document};

verus! {

/// `tree_sitter::Language`, a grammar. Nothing of its inside is read here.
#[verifier::external_type_specification]
#[verifier::external_body]
pub struct ExLanguage(Language);

/// `tree_sitter_tags::TagsConfiguration`, a grammar with its compiled tag
/// query. Nothing of its inside is read here.
#[verifier::external_type_specification]
#[verifier::external_body]
pub struct ExTagsConfiguration(TagsConfiguration);

/// `tree_sitter_tags::Error`, why a query did not compile or a tag was not
/// generated. Nothing of its inside is read here.
#[verifier::external_type_specification]
#[verifier::external_body]
pub struct ExError(Error);

/// A row and byte column as the tag engine reports them.
#[derive(Clone, Copy, Debug, PartialEq, Eq, Structural)]
pub struct Point {
    pub row: usize,
    pub column: usize,
}

/// One named occurrence reported by the tag engine: the byte range of its
/// name in the text, the span of the name in rows and columns, and whether it
/// introduces the name.
#[derive(Clone, Copy, Debug, PartialEq, Eq, Structural)]
pub struct Tag {
    pub name_start: usize,
    pub name_end: usize,
    pub start: Point,
    pub end: Point,
    pub is_definition: bool,
}

/// The configuration that `TagsConfiguration::new` builds from a grammar, a
/// tag query and a locals query, or `None` where it reports an error.
pub uninterp spec fn compiled_tags(
    language: Language,
    tags_query: Seq<char>,
    locals_query: Seq<char>,
) -> Option<TagsConfiguration>;

/// The tags that `TagsContext::generate_tags` yields for a text on a fresh
/// context, in the order in which it yields them.
pub uninterp spec fn generated_tags(config: TagsConfiguration, source: Seq<char>) -> Result<
    Seq<Result<Tag, Error>>,
    Error,
>;

/// The view of what `generate_tags` returns.
pub open spec fn tags_view(r: Result<Vec<Result<Tag, Error>>, Error>) -> Result<
    Seq<Result<Tag, Error>>,
    Error,
> {
    match r {
        Ok(tags) => Ok(tags@),
        Err(e) => Err(e),
    }
}

/// Calls `tree_sitter_tags::TagsConfiguration::new` on a copy of the grammar.
/// The contract names the outcome: the configuration when the queries
/// compile for the grammar, none when the call reports an error.
#[verifier::external_body]
pub(crate) fn new_tags_configuration(language: &Language, tags_query: &str, locals_query: &str) -> (r:
    Result<TagsConfiguration, Error>)
    ensures
        match r {
            Ok(config) => compiled_tags(*language, tags_query@, locals_query@) == Some(config),
            Err(_) => compiled_tags(*language, tags_query@, locals_query@) is None,
        },
{
    TagsConfiguration::new(language.clone(), tags_query, locals_query)
}

/// Calls `tree_sitter_tags::TagsContext::generate_tags` on a fresh context,
/// without a cancellation flag, and gathers what its iterator yields. Of each
/// tag the name's byte range, the span and the definition flag are kept. The
/// contract names the outcome as a function of the configuration and the
/// text.
#[verifier::external_body]
pub(crate) fn generate_tags(config: &TagsConfiguration, source: &str) -> (r: Result<
    Vec<Result<Tag, Error>>,
    Error,
>)
    ensures
        tags_view(r) == generated_tags(*config, source@),
{
    let mut context = TagsContext::new();
    let (tags, _) = context.generate_tags(config, source.as_bytes(), None)?;
    Ok(tags.map(|tag| tag.map(|t| Tag {
        name_start: t.name_range.start,
        name_end: t.name_range.end,
        start: Point { row: t.span.start.row, column: t.span.start.column },
        end: Point { row: t.span.end.row, column: t.span.end.column },
        is_definition: t.is_definition,
    })).collect())
}

/// The tags of a document: what the tag engine generates for its text with
/// its grammar and its tag query. There are none for a document that is not
/// eligible, nor where the query does not compile for the grammar or the
/// generation fails as a whole.
pub open spec fn document_tags(doc: Document) -> Option<Seq<Result<Tag, Error>>> {
    if eligible(doc) {
        let language = doc.language->0;
        match compiled_tags(
            language.highlight_config->0.language,
            language.tags_query->0@,
            Seq::empty(),
        ) {
            Some(config) => match generated_tags(config, doc.text@) {
                Ok(tags) => Some(tags),
                Err(_) => None,
            },
            None => None,
        }
    } else {
        None
    }
}

/// Generates the tags of a document. A tag that failed on its own stands in
/// the result as an error, at its place.
pub fn extract_tags(doc: &Document) -> (r: Option<Vec<Result<Tag, Error>>>)
    ensures
        match r {
            Some(tags) => document_tags(*doc) == Some(tags@),
            None => document_tags(*doc) is None,
        },
{
    if !doc.has_syntax {
        return None;
    }
    let language = match &doc.language {
        Some(language) => language,
        None => {
            return None;
        },
    };
    if !language.highlight_initialized {
        return None;
    }
    let highlight_config = match &language.highlight_config {
        Some(config) => config,
        None => {
            return None;
        },
    };
    let tags_query = match &language.tags_query {
        Some(query) => query,
        None => {
            return None;
        },
    };
    proof {
        reveal_strlit("");
        assert(""@ =~= Seq::<char>::empty());
    }
    let config = match new_tags_configuration(&highlight_config.language, tags_query.as_str(), "") {
        Ok(config) => config,
        Err(_) => {
            return None;
        },
    };
    match generate_tags(&config, doc.text.as_str()) {
        Ok(tags) => Some(tags),
        Err(_) => None,
    }
}

/// The name of a tag: the text between the two byte offsets of its name
/// range, where these are in order and each falls between two characters.
pub open spec fn tag_name(text: Seq<char>, tag: Tag) -> Option<Seq<char>> {
    let bytes = encode_utf8(text);
    if tag.name_start <= tag.name_end && is_char_boundary(bytes, tag.name_start as int)
        && is_char_boundary(bytes, tag.name_end as int) {
        Some(decode_utf8(bytes.subrange(tag.name_start as int, tag.name_end as int)))
    } else {
        None
    }
}

/// A character boundary of a text is one of each prefix that reaches it.
pub proof fn lemma_boundary_in_prefix(bytes: Seq<u8>, a: int, b: int)
    requires
        valid_utf8(bytes),
        0 <= a <= b,
        is_char_boundary(bytes, a),
        is_char_boundary(bytes, b),
    ensures
        b <= bytes.len(),
        valid_utf8(bytes.subrange(0, b)),
        is_char_boundary(bytes.subrange(0, b), a),
{
    valid_utf8_split(bytes, b);
    let prefix = bytes.subrange(0, b);
    if a == b {
        is_char_boundary_start_end_of_seq(prefix);
    } else {
        is_char_boundary_iff_not_is_continuation_byte(bytes, a);
        is_char_boundary_iff_not_is_continuation_byte(prefix, a);
    }
}

/// Reads the name of a tag out of the text it was generated from.
pub fn read_tag_name(text: &str, tag: &Tag) -> (r: Option<String>)
    ensures
        match r {
            Some(name) => tag_name(text@, *tag) == Some(name@),
            None => tag_name(text@, *tag) is None,
        },
{
    if tag.name_start <= tag.name_end && text.is_char_boundary(tag.name_start)
        && text.is_char_boundary(tag.name_end) {
        proof {
            encode_utf8_valid_utf8(text@);
            lemma_boundary_in_prefix(
                text.spec_bytes(),
                tag.name_start as int,
                tag.name_end as int,
            );
        }
        let (head, _) = text.split_at(tag.name_end);
        let (_, name) = head.split_at(tag.name_start);
        proof {
            assert(name.spec_bytes() =~= text.spec_bytes().subrange(
                tag.name_start as int,
                tag.name_end as int,
            ));
            encode_utf8_decode_utf8(name@);
        }
        Some(name.to_owned())
    } else {
        None
    }
}

} // verus!
