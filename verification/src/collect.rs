//! The symbol collector: one symbol for each definition tag of each eligible
//! document, in the order of the documents and, within a document, in the
//! order in which the tags were generated.

use vstd::prelude::*;
use tree_sitter_tags::Error;
use crate::document::{eligible, Document};
use crate::symbol::{
    lemma_push_view, symbols_view, Location, LocationView, Position, Range, Symbol, SymbolKind,
    SymbolView,
};
use crate::tags::{document_tags, extract_tags, read_tag_name, tag_name, Tag};

verus! {

/// The range that a tag's span becomes. Rows and columns are cut to 32 bits.
pub open spec fn tag_range(tag: Tag) -> Range {
    Range {
        start: Position { line: tag.start.row as u32, character: tag.start.column as u32 },
        end: Position { line: tag.end.row as u32, character: tag.end.column as u32 },
    }
}

/// The name that a tag's symbol carries: the text of the tag's name range,
/// and the empty name where that range cannot be read from the text.
pub open spec fn definition_name(text: Seq<char>, tag: Tag) -> Seq<char> {
    match tag_name(text, tag) {
        Some(name) => name,
        None => Seq::empty(),
    }
}

/// The symbol of a definition tag of the document at `uri` with the given
/// text: its name, the fixed kind, and the span of the name.
pub open spec fn symbol_of_definition(uri: Seq<char>, text: Seq<char>, tag: Tag) -> SymbolView {
    SymbolView {
        name: definition_name(text, tag),
        kind: SymbolKind::Class,
        location: LocationView { uri, range: tag_range(tag) },
    }
}

/// The symbol that one generated tag contributes: that of the tag where it
/// is a definition, none for a failed tag and for a tag that is no
/// definition.
pub open spec fn symbol_of_tag(uri: Seq<char>, text: Seq<char>, tag: Result<Tag, Error>) -> Option<
    SymbolView,
> {
    match tag {
        Ok(t) if t.is_definition => Some(symbol_of_definition(uri, text, t)),
        _ => None,
    }
}

/// The symbols that a sequence of generated tags contributes, in the order of
/// the tags.
pub open spec fn symbols_of_tags(
    uri: Seq<char>,
    text: Seq<char>,
    tags: Seq<Result<Tag, Error>>,
) -> Seq<SymbolView>
    decreases tags.len(),
{
    if tags.len() == 0 {
        Seq::empty()
    } else {
        let rest = symbols_of_tags(uri, text, tags.drop_last());
        match symbol_of_tag(uri, text, tags.last()) {
            Some(symbol) => rest.push(symbol),
            None => rest,
        }
    }
}

/// The symbols that one document contributes: those of its tags. A document
/// without tags contributes none, and so does one without a URI.
pub open spec fn document_symbols(doc: Document) -> Seq<SymbolView> {
    match (document_tags(doc), doc.url) {
        (Some(tags), Some(url)) => symbols_of_tags(url@, doc.text@, tags),
        _ => Seq::empty(),
    }
}

/// The symbols of a sequence of documents: those of each document, one
/// document after the other.
pub open spec fn collected_symbols(docs: Seq<Document>) -> Seq<SymbolView>
    decreases docs.len(),
{
    if docs.len() == 0 {
        Seq::empty()
    } else {
        collected_symbols(docs.drop_last()) + document_symbols(docs.last())
    }
}

/// Builds the symbol of a tag, if the tag is a definition. A name range
/// that cannot be read from the text gives the empty name.
pub fn symbol_for_tag(uri: &str, text: &str, tag: &Tag) -> (r: Option<Symbol>)
    ensures
        match r {
            Some(symbol) => symbol_of_tag(uri@, text@, Ok(*tag)) == Some(symbol@),
            None => symbol_of_tag(uri@, text@, Ok(*tag)) is None,
        },
        r is Some <==> tag.is_definition,
{
    if !tag.is_definition {
        return None;
    }
    let name = match read_tag_name(text, tag) {
        Some(name) => name,
        None => String::new(),
    };
    let range = Range {
        start: Position { line: tag.start.row as u32, character: tag.start.column as u32 },
        end: Position { line: tag.end.row as u32, character: tag.end.column as u32 },
    };
    Some(Symbol { name, kind: SymbolKind::Class, location: Location { uri: uri.to_owned(), range } })
}

/// Appends to `symbols` the symbols of the definitions among `tags`, which
/// were generated from `text`, the text of the document at `uri`.
pub fn append_definitions(
    uri: &str,
    text: &str,
    tags: &Vec<Result<Tag, Error>>,
    symbols: &mut Vec<Symbol>,
)
    ensures
        symbols_view(final(symbols)@) == symbols_view(old(symbols)@) + symbols_of_tags(
            uri@,
            text@,
            tags@,
        ),
        final(symbols)@.len() == old(symbols)@.len() + definition_count(tags@),
{
    let mut i: usize = 0;
    while i < tags.len()
        invariant
            0 <= i <= tags.len(),
            symbols_view(symbols@) == symbols_view(old(symbols)@) + symbols_of_tags(
                uri@,
                text@,
                tags@.subrange(0, i as int),
            ),
        decreases tags.len() - i,
    {
        proof {
            assert(tags@.subrange(0, i + 1).drop_last() =~= tags@.subrange(0, i as int));
        }
        match &tags[i] {
            Ok(tag) => {
                match symbol_for_tag(uri, text, tag) {
                    Some(symbol) => {
                        proof {
                            lemma_push_view(symbols@, symbol);
                        }
                        symbols.push(symbol);
                    },
                    None => {},
                }
            },
            Err(_) => {},
        }
        i = i + 1;
    }
    proof {
        assert(tags@.subrange(0, tags@.len() as int) =~= tags@);
        lemma_one_symbol_per_definition(uri@, text@, tags@);
        assert(symbols_view(symbols@).len() == symbols@.len());
        assert(symbols_view(old(symbols)@).len() == old(symbols)@.len());
    }
}

/// Appends to `symbols` the symbols that `doc` contributes.
///
/// Nothing is appended for a document that is not eligible or has no URI,
/// nor where the tag query does not compile or the generation fails.
pub fn tags_for_doc(doc: &Document, symbols: &mut Vec<Symbol>)
    ensures
        symbols_view(final(symbols)@) == symbols_view(old(symbols)@) + document_symbols(*doc),
        final(symbols)@.len() == old(symbols)@.len() + document_symbols(*doc).len(),
        document_tags(*doc) is Some && doc.url is Some ==> final(symbols)@.len() == old(
            symbols,
        )@.len() + definition_count(document_tags(*doc)->0),
{
    proof {
        if document_tags(*doc) is Some && doc.url is Some {
            lemma_document_symbol_count(*doc, document_tags(*doc)->0);
        }
    }
    let url = match &doc.url {
        Some(url) => url,
        None => {
            return ;
        },
    };
    match extract_tags(doc) {
        Some(tags) => {
            append_definitions(url.as_str(), doc.text.as_str(), &tags, symbols);
        },
        None => {},
    }
}

/// Collects the symbols of all the documents, in the order of the documents.
pub fn collect(documents: &Vec<Document>) -> (symbols: Vec<Symbol>)
    ensures
        symbols_view(symbols@) == collected_symbols(documents@),
{
    let mut symbols: Vec<Symbol> = Vec::new();
    let mut i: usize = 0;
    while i < documents.len()
        invariant
            0 <= i <= documents.len(),
            symbols_view(symbols@) == collected_symbols(documents@.subrange(0, i as int)),
        decreases documents.len() - i,
    {
        proof {
            assert(documents@.subrange(0, i + 1).drop_last() =~= documents@.subrange(0, i as int));
        }
        tags_for_doc(&documents[i], &mut symbols);
        i = i + 1;
    }
    proof {
        assert(documents@.subrange(0, documents@.len() as int) =~= documents@);
    }
    symbols
}

/// The definitions among the tags that were generated, in the order in
/// which they were generated.
pub open spec fn definitions(tags: Seq<Result<Tag, Error>>) -> Seq<Tag>
    decreases tags.len(),
{
    if tags.len() == 0 {
        Seq::empty()
    } else {
        let rest = definitions(tags.drop_last());
        match tags.last() {
            Ok(t) if t.is_definition => rest.push(t),
            _ => rest,
        }
    }
}

/// The number of definitions among the tags that were generated.
pub open spec fn definition_count(tags: Seq<Result<Tag, Error>>) -> nat {
    definitions(tags).len()
}

/// The tags of a text give one symbol for each definition among them, in
/// the order of the definitions: the symbol at each place is that of the
/// definition at the same place.
pub proof fn lemma_one_symbol_per_definition(
    uri: Seq<char>,
    text: Seq<char>,
    tags: Seq<Result<Tag, Error>>,
)
    ensures
        symbols_of_tags(uri, text, tags).len() == definition_count(tags),
        forall|k: int|
            0 <= k < definition_count(tags) ==> #[trigger] symbols_of_tags(uri, text, tags)[k]
                == symbol_of_definition(uri, text, definitions(tags)[k]),
    decreases tags.len(),
{
    if tags.len() > 0 {
        lemma_one_symbol_per_definition(uri, text, tags.drop_last());
    }
}

/// A document with a URI contributes exactly one symbol for each definition
/// among its tags, in the order of the definitions; each symbol has the name
/// and the span of its definition.
pub proof fn lemma_document_symbol_count(doc: Document, tags: Seq<Result<Tag, Error>>)
    requires
        document_tags(doc) == Some(tags),
        doc.url is Some,
    ensures
        document_symbols(doc) == symbols_of_tags(doc.url->0@, doc.text@, tags),
        document_symbols(doc).len() == definition_count(tags),
        forall|k: int|
            0 <= k < definition_count(tags) ==> #[trigger] document_symbols(doc)[k]
                == symbol_of_definition(doc.url->0@, doc.text@, definitions(tags)[k]),
{
    lemma_one_symbol_per_definition(doc.url->0@, doc.text@, tags);
}

/// Symbols keep the order in which their tags were generated: the symbols of
/// two runs of tags, one after the other, are those of the first run followed
/// by those of the second.
pub proof fn lemma_symbols_in_tag_order(
    uri: Seq<char>,
    text: Seq<char>,
    first: Seq<Result<Tag, Error>>,
    second: Seq<Result<Tag, Error>>,
)
    ensures
        symbols_of_tags(uri, text, first + second) == symbols_of_tags(uri, text, first)
            + symbols_of_tags(uri, text, second),
    decreases second.len(),
{
    if second.len() == 0 {
        assert(first + second =~= first);
        assert(symbols_of_tags(uri, text, first) + Seq::<SymbolView>::empty() =~= symbols_of_tags(
            uri,
            text,
            first,
        ));
    } else {
        lemma_symbols_in_tag_order(uri, text, first, second.drop_last());
        assert((first + second).drop_last() =~= first + second.drop_last());
        assert((first + second).last() == second.last());
        let head = symbols_of_tags(uri, text, first);
        let tail = symbols_of_tags(uri, text, second.drop_last());
        match symbol_of_tag(uri, text, second.last()) {
            Some(symbol) => {
                assert((head + tail).push(symbol) =~= head + tail.push(symbol));
            },
            None => {},
        }
    }
}

/// Symbols keep the order of the documents: the symbols of two runs of
/// documents, one after the other, are those of the first run followed by
/// those of the second.
pub proof fn lemma_symbols_in_document_order(first: Seq<Document>, second: Seq<Document>)
    ensures
        collected_symbols(first + second) == collected_symbols(first) + collected_symbols(second),
    decreases second.len(),
{
    if second.len() == 0 {
        assert(first + second =~= first);
        assert(collected_symbols(first) + Seq::<SymbolView>::empty() =~= collected_symbols(first));
    } else {
        lemma_symbols_in_document_order(first, second.drop_last());
        assert((first + second).drop_last() =~= first + second.drop_last());
        assert((first + second).last() == second.last());
        let a = collected_symbols(first);
        let b = collected_symbols(second.drop_last());
        let c = document_symbols(second.last());
        assert((a + b) + c =~= a + (b + c));
    }
}

/// A document that lacks one of the four facets contributes no symbol, and
/// the collection over the other documents is what it is without it.
pub proof fn lemma_ineligible_document_contributes_nothing(docs: Seq<Document>, i: int)
    requires
        0 <= i < docs.len(),
        !eligible(docs[i]),
    ensures
        document_symbols(docs[i]) == Seq::<SymbolView>::empty(),
        collected_symbols(docs) == collected_symbols(docs.remove(i)),
{
    let before = docs.subrange(0, i);
    let one = docs.subrange(i, i + 1);
    let after = docs.subrange(i + 1, docs.len() as int);
    assert(docs =~= (before + one) + after);
    assert(docs.remove(i) =~= before + after);
    lemma_symbols_in_document_order(before + one, after);
    lemma_symbols_in_document_order(before, one);
    lemma_symbols_in_document_order(before, after);
    assert(one.drop_last() =~= Seq::<Document>::empty());
    assert(one.last() == docs[i]);
    assert(collected_symbols(one.drop_last()) =~= Seq::<SymbolView>::empty());
    assert(collected_symbols(one) =~= Seq::<SymbolView>::empty());
    assert(collected_symbols(before) + Seq::<SymbolView>::empty() =~= collected_symbols(before));
}

/// Collection is a function of the documents: two collections over the same
/// documents hold the same symbols in the same order.
pub proof fn lemma_collection_is_deterministic(
    docs: Seq<Document>,
    first: Seq<Symbol>,
    second: Seq<Symbol>,
)
    requires
        symbols_view(first) == collected_symbols(docs),
        symbols_view(second) == collected_symbols(docs),
    ensures
        symbols_view(first) == symbols_view(second),
        first.len() == second.len(),
        forall|i: int| 0 <= i < first.len() ==> first[i]@ == second[i]@,
{
    assert(symbols_view(first).len() == first.len());
    assert(symbols_view(second).len() == second.len());
    assert forall|i: int| 0 <= i < first.len() implies first[i]@ == second[i]@ by {
        assert(symbols_view(first)[i] == first[i]@);
        assert(symbols_view(second)[i] == second[i]@);
    }
}

} // verus!
