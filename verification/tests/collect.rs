use std::path::PathBuf;

use symbol_picker::collect::{append_definitions, collect, symbol_for_tag, tags_for_doc};
use symbol_picker::document::{Document, HighlightConfig, LanguageConfig};
use symbol_picker::navigate::{Command, Event, NavState, OpenAction};
use symbol_picker::picker::{ts_symbol_picker, ts_symbol_picker_command, PromptEvent};
use symbol_picker::symbol::{Location, Position, Range, Symbol, SymbolKind};
use symbol_picker::tags::{extract_tags, read_tag_name, Point, Tag};

const QUERY: &str = "(function_item name: (identifier) @name) @definition.function\n\
                     (call_expression function: (identifier) @name) @reference.call\n";

const TEXT_A: &str = "// a\n\nfn alpha() {}\n";
const TEXT_B: &str = "fn beta() { gamma() }\n\n\n\n\nfn gamma() {}\n";

fn rust() -> tree_sitter::Language {
    tree_sitter::Language::from(tree_sitter_rust::LANGUAGE)
}

fn language(query: &str) -> LanguageConfig {
    LanguageConfig {
        highlight_initialized: true,
        highlight_config: Some(HighlightConfig { language: rust() }),
        tags_query: Some(query.to_string()),
    }
}

fn document(uri: &str, text: &str) -> Document {
    Document {
        has_syntax: true,
        language: Some(language(QUERY)),
        text: text.to_string(),
        url: Some(uri.to_string()),
    }
}

fn symbol(name: &str, uri: &str, line: u32, from: u32, to: u32) -> Symbol {
    Symbol {
        name: name.to_string(),
        kind: SymbolKind::Class,
        location: Location::new(
            uri.to_string(),
            Range::new(Position::new(line, from), Position::new(line, to)),
        ),
    }
}

fn tag(name_start: usize, name_end: usize, row: usize, from: usize, to: usize, is_definition: bool) -> Tag {
    Tag {
        name_start,
        name_end,
        start: Point { row, column: from },
        end: Point { row, column: to },
        is_definition,
    }
}

#[test]
fn eligible_document_needs_all_four_facets() {
    assert!(document("file:///a.rs", TEXT_A).is_eligible());
    let mut doc = document("file:///a.rs", TEXT_A);
    doc.has_syntax = false;
    assert!(!doc.is_eligible());
    let mut doc = document("file:///a.rs", TEXT_A);
    doc.language = None;
    assert!(!doc.is_eligible());
    let mut doc = document("file:///a.rs", TEXT_A);
    doc.language.as_mut().unwrap().highlight_initialized = false;
    assert!(!doc.is_eligible());
    let mut doc = document("file:///a.rs", TEXT_A);
    doc.language.as_mut().unwrap().highlight_config = None;
    assert!(!doc.is_eligible());
    let mut doc = document("file:///a.rs", TEXT_A);
    doc.language.as_mut().unwrap().tags_query = None;
    assert!(!doc.is_eligible());
    let mut doc = document("file:///a.rs", TEXT_A);
    doc.url = None;
    assert!(doc.is_eligible());
}

#[test]
fn extractor_yields_definitions_and_references_in_text_order() {
    let tags = extract_tags(&document("file:///b.rs", TEXT_B)).unwrap();
    assert_eq!(
        tags,
        vec![
            Ok(tag(3, 7, 0, 3, 7, true)),
            Ok(tag(12, 17, 0, 12, 17, false)),
            Ok(tag(29, 34, 5, 3, 8, true)),
        ]
    );
}

#[test]
fn extractor_needs_no_uri() {
    let mut doc = document("file:///a.rs", TEXT_A);
    doc.url = None;
    assert_eq!(extract_tags(&doc), Some(vec![Ok(tag(9, 14, 2, 3, 8, true))]));
}

#[test]
fn extractor_gives_nothing_for_a_document_that_is_not_eligible() {
    let mut doc = document("file:///a.rs", TEXT_A);
    doc.has_syntax = false;
    assert_eq!(extract_tags(&doc), None);
    let mut doc = document("file:///a.rs", TEXT_A);
    doc.language.as_mut().unwrap().tags_query = None;
    assert_eq!(extract_tags(&doc), None);
}

#[test]
fn extractor_gives_nothing_for_a_query_that_does_not_compile() {
    let mut doc = document("file:///a.rs", TEXT_A);
    doc.language = Some(language("(function_item"));
    assert_eq!(extract_tags(&doc), None);
}

#[test]
fn extractor_gives_an_empty_list_for_a_text_without_tags() {
    assert_eq!(extract_tags(&document("file:///e.rs", "")), Some(vec![]));
}

#[test]
fn one_symbol_for_each_definition_in_generation_order() {
    let docs = vec![document("file:///b.rs", TEXT_B)];
    assert_eq!(
        collect(&docs),
        vec![symbol("beta", "file:///b.rs", 0, 3, 7), symbol("gamma", "file:///b.rs", 5, 3, 8)]
    );
}

#[test]
fn symbols_follow_the_order_of_the_documents() {
    let forward = vec![document("file:///a.rs", TEXT_A), document("file:///b.rs", TEXT_B)];
    let backward = vec![document("file:///b.rs", TEXT_B), document("file:///a.rs", TEXT_A)];
    assert_eq!(
        collect(&forward),
        vec![
            symbol("alpha", "file:///a.rs", 2, 3, 8),
            symbol("beta", "file:///b.rs", 0, 3, 7),
            symbol("gamma", "file:///b.rs", 5, 3, 8),
        ]
    );
    assert_eq!(
        collect(&backward),
        vec![
            symbol("beta", "file:///b.rs", 0, 3, 7),
            symbol("gamma", "file:///b.rs", 5, 3, 8),
            symbol("alpha", "file:///a.rs", 2, 3, 8),
        ]
    );
}

#[test]
fn document_without_a_facet_is_skipped_and_the_others_are_kept() {
    let mut no_tree = document("file:///n.rs", TEXT_A);
    no_tree.has_syntax = false;
    let mut no_language = document("file:///n.rs", TEXT_A);
    no_language.language = None;
    let mut not_initialized = document("file:///n.rs", TEXT_A);
    not_initialized.language.as_mut().unwrap().highlight_initialized = false;
    let mut no_highlight = document("file:///n.rs", TEXT_A);
    no_highlight.language.as_mut().unwrap().highlight_config = None;
    let mut no_query = document("file:///n.rs", TEXT_A);
    no_query.language.as_mut().unwrap().tags_query = None;
    let docs = vec![
        no_tree,
        document("file:///a.rs", TEXT_A),
        no_language,
        not_initialized,
        no_highlight,
        document("file:///b.rs", TEXT_B),
        no_query,
    ];
    assert_eq!(
        collect(&docs),
        vec![
            symbol("alpha", "file:///a.rs", 2, 3, 8),
            symbol("beta", "file:///b.rs", 0, 3, 7),
            symbol("gamma", "file:///b.rs", 5, 3, 8),
        ]
    );
}

#[test]
fn document_without_a_uri_gives_no_symbol() {
    let mut doc = document("file:///a.rs", TEXT_A);
    doc.url = None;
    let docs = vec![doc, document("file:///b.rs", TEXT_B)];
    assert_eq!(collect(&docs).len(), 2);
}

#[test]
fn query_that_does_not_compile_skips_the_document_only() {
    let mut broken = document("file:///broken.rs", TEXT_A);
    broken.language = Some(language("(no_such_node) @definition.function"));
    let mut unbalanced = document("file:///broken.rs", TEXT_A);
    unbalanced.language = Some(language("(function_item"));
    let mut capture = document("file:///broken.rs", TEXT_A);
    capture.language = Some(language("(function_item name: (identifier) @name) @strange"));
    let docs = vec![broken, unbalanced, document("file:///a.rs", TEXT_A), capture];
    assert_eq!(collect(&docs), vec![symbol("alpha", "file:///a.rs", 2, 3, 8)]);
}

#[test]
fn no_documents_give_no_symbols() {
    assert_eq!(collect(&Vec::new()), vec![]);
}

#[test]
fn document_without_definitions_gives_no_symbol() {
    let docs = vec![document("file:///c.rs", "const X: u8 = 1;\n")];
    assert_eq!(collect(&docs), vec![]);
}

#[test]
fn references_are_no_symbols() {
    let docs = vec![document("file:///c.rs", "fn f() { g(); h() }\n")];
    assert_eq!(collect(&docs), vec![symbol("f", "file:///c.rs", 0, 3, 4)]);
}

#[test]
fn columns_of_tags_are_in_bytes() {
    let docs = vec![document("file:///c.rs", "/* \u{e9}\u{20ac} */ fn wide() {}\n")];
    assert_eq!(collect(&docs), vec![symbol("wide", "file:///c.rs", 0, 15, 19)]);
}

#[test]
fn names_with_wide_characters_are_read_whole() {
    let docs = vec![document("file:///c.rs", "fn caf\u{e9}() {}\n")];
    assert_eq!(collect(&docs), vec![symbol("caf\u{e9}", "file:///c.rs", 0, 3, 8)]);
}

#[test]
fn repeated_collection_gives_the_same_list() {
    let docs = vec![document("file:///a.rs", TEXT_A), document("file:///b.rs", TEXT_B)];
    let first = collect(&docs);
    let second = collect(&docs);
    assert_eq!(first, second);
    assert_eq!(first.len(), 3);
}

#[test]
fn tags_for_doc_appends_to_what_is_there() {
    let mut symbols = vec![symbol("kept", "file:///k.rs", 1, 1, 5)];
    tags_for_doc(&document("file:///a.rs", TEXT_A), &mut symbols);
    assert_eq!(
        symbols,
        vec![symbol("kept", "file:///k.rs", 1, 1, 5), symbol("alpha", "file:///a.rs", 2, 3, 8)]
    );
    let mut skipped = document("file:///a.rs", TEXT_A);
    skipped.has_syntax = false;
    tags_for_doc(&skipped, &mut symbols);
    assert_eq!(symbols.len(), 2);
}

#[test]
fn definitions_among_given_tags_become_symbols() {
    let text = "fn one() {}\nfn two() {}\n";
    let tags = vec![
        Ok(tag(3, 6, 0, 3, 6, true)),
        Err(tree_sitter_tags::Error::Cancelled),
        Ok(tag(3, 6, 0, 3, 6, false)),
        Ok(tag(15, 18, 1, 3, 6, true)),
        Err(tree_sitter_tags::Error::InvalidLanguage),
    ];
    let mut symbols = Vec::new();
    append_definitions("file:///t.rs", text, &tags, &mut symbols);
    assert_eq!(
        symbols,
        vec![symbol("one", "file:///t.rs", 0, 3, 6), symbol("two", "file:///t.rs", 1, 3, 6)]
    );
}

#[test]
fn failed_tag_keeps_the_symbols_before_and_after_it() {
    let text = "fn one() {}\nfn two() {}\n";
    let tags = vec![
        Err(tree_sitter_tags::Error::Cancelled),
        Ok(tag(3, 6, 0, 3, 6, true)),
        Err(tree_sitter_tags::Error::Cancelled),
    ];
    let mut symbols = vec![symbol("kept", "file:///k.rs", 0, 0, 4)];
    append_definitions("file:///t.rs", text, &tags, &mut symbols);
    assert_eq!(
        symbols,
        vec![symbol("kept", "file:///k.rs", 0, 0, 4), symbol("one", "file:///t.rs", 0, 3, 6)]
    );
}

#[test]
fn tag_with_an_unreadable_name_gets_an_empty_name() {
    let text = "a\u{e9}b";
    let tags = vec![
        Ok(tag(0, 2, 0, 0, 2, true)),
        Ok(tag(2, 1, 1, 0, 0, true)),
        Ok(tag(0, 9, 2, 0, 9, true)),
        Ok(tag(1, 3, 3, 1, 3, true)),
        Ok(tag(0, 2, 4, 0, 2, false)),
    ];
    let mut symbols = Vec::new();
    append_definitions("file:///t.rs", text, &tags, &mut symbols);
    assert_eq!(
        symbols,
        vec![
            symbol("", "file:///t.rs", 0, 0, 2),
            symbol("", "file:///t.rs", 1, 0, 0),
            symbol("", "file:///t.rs", 2, 0, 9),
            symbol("\u{e9}", "file:///t.rs", 3, 1, 3),
        ]
    );
}

#[test]
fn every_definition_among_the_tags_adds_one_symbol() {
    let text = "fn one() {}";
    let tags = vec![
        Ok(tag(3, 6, 0, 3, 6, true)),
        Ok(tag(3, 6, 0, 3, 6, true)),
        Ok(tag(7, 3, 0, 3, 6, true)),
        Err(tree_sitter_tags::Error::Cancelled),
        Ok(tag(0, 2, 0, 0, 2, false)),
        Ok(tag(90, 99, 0, 0, 2, true)),
    ];
    let mut symbols = vec![symbol("kept", "file:///k.rs", 0, 0, 4)];
    append_definitions("file:///t.rs", text, &tags, &mut symbols);
    assert_eq!(symbols.len(), 1 + 4);
    let names: Vec<&str> = symbols.iter().map(|s| s.name.as_str()).collect();
    assert_eq!(names, vec!["kept", "one", "one", "", ""]);
}

#[test]
fn tag_name_is_the_text_of_its_byte_range() {
    let text = "a\u{e9}b\u{1f600}";
    assert_eq!(read_tag_name(text, &tag(0, 1, 0, 0, 1, true)), Some("a".to_string()));
    assert_eq!(read_tag_name(text, &tag(1, 3, 0, 0, 0, true)), Some("\u{e9}".to_string()));
    assert_eq!(read_tag_name(text, &tag(0, 8, 0, 0, 0, false)), Some(text.to_string()));
    assert_eq!(read_tag_name(text, &tag(4, 4, 0, 0, 0, true)), Some(String::new()));
    assert_eq!(read_tag_name(text, &tag(8, 8, 0, 0, 0, true)), Some(String::new()));
    assert_eq!(read_tag_name(text, &tag(0, 2, 0, 0, 0, true)), None);
    assert_eq!(read_tag_name(text, &tag(2, 3, 0, 0, 0, true)), None);
    assert_eq!(read_tag_name(text, &tag(5, 8, 0, 0, 0, true)), None);
    assert_eq!(read_tag_name(text, &tag(3, 1, 0, 0, 0, true)), None);
    assert_eq!(read_tag_name(text, &tag(0, 9, 0, 0, 0, true)), None);
    assert_eq!(read_tag_name(text, &tag(9, 9, 0, 0, 0, true)), None);
}

#[test]
fn symbol_of_a_tag_has_the_fixed_kind_and_the_span_of_the_name() {
    let text = "let value = 1;";
    let found = symbol_for_tag("file:///v.rs", text, &tag(4, 9, 7, 4, 9, true));
    assert_eq!(found, Some(symbol("value", "file:///v.rs", 7, 4, 9)));
    assert_eq!(found.unwrap().kind, SymbolKind::Class);
    assert_eq!(symbol_for_tag("file:///v.rs", text, &tag(4, 9, 7, 4, 9, false)), None);
    let spanning = Tag {
        name_start: 4,
        name_end: 9,
        start: Point { row: 1, column: 2 },
        end: Point { row: 3, column: 4 },
        is_definition: true,
    };
    let found = symbol_for_tag("u", text, &spanning).unwrap();
    assert_eq!(found.location.range, Range::new(Position::new(1, 2), Position::new(3, 4)));
}

#[test]
fn picker_remembers_the_active_uri_and_lists_all_symbols() {
    let docs = vec![document("file:///a.rs", TEXT_A), document("file:///b.rs", TEXT_B)];
    let picker = ts_symbol_picker(&docs[0], &docs);
    assert_eq!(picker.current_url, Some("file:///a.rs".to_string()));
    assert_eq!(picker.symbols, collect(&docs));
    let mut scratch = document("file:///s.rs", "");
    scratch.url = None;
    let picker = ts_symbol_picker(&scratch, &docs);
    assert_eq!(picker.current_url, None);
    assert_eq!(picker.symbols.len(), 3);
}

#[test]
fn only_a_confirmed_prompt_opens_the_picker() {
    assert!(PromptEvent::Validate.opens_picker());
    assert!(!PromptEvent::Update.opens_picker());
    assert!(!PromptEvent::Abort.opens_picker());
}

#[test]
fn command_opens_the_picker_on_validate_only() {
    let docs = vec![document("file:///a.rs", TEXT_A), document("file:///b.rs", TEXT_B)];
    assert_eq!(ts_symbol_picker_command(&docs[0], &docs, PromptEvent::Update), None);
    assert_eq!(ts_symbol_picker_command(&docs[0], &docs, PromptEvent::Abort), None);
    let picker = ts_symbol_picker_command(&docs[0], &docs, PromptEvent::Validate).unwrap();
    assert_eq!(picker.current_url, Some("file:///a.rs".to_string()));
    assert_eq!(picker.symbols.len(), 3);
}

#[test]
fn navigator_over_two_open_documents() {
    let docs = vec![document("file:///a.rs", TEXT_A), document("file:///b.rs", TEXT_B)];
    let mut active = 0;
    let mut loads = 0;
    let mut selection = None;
    let mut centered = None;
    let mut jumps = Vec::new();

    let picker = ts_symbol_picker(&docs[active], &docs);
    let places: Vec<(String, u32)> = picker
        .symbols
        .iter()
        .map(|s| (s.location.uri.clone(), s.location.range.start.line))
        .collect();
    assert_eq!(
        places,
        vec![
            ("file:///a.rs".to_string(), 2),
            ("file:///b.rs".to_string(), 0),
            ("file:///b.rs".to_string(), 5),
        ]
    );

    let before = active;
    let (mut navigator, mut pending) = picker.select(&picker.symbols[2], OpenAction::Replace);
    loop {
        let mut event = None;
        for command in pending {
            match command {
                Command::Open { path, .. } => {
                    let uri = format!("file://{}", path.display());
                    match docs.iter().position(|d| d.url.as_deref() == Some(uri.as_str())) {
                        Some(open) => active = open,
                        None => loads += 1,
                    }
                    event = Some(Event::Opened);
                }
                Command::RecordJump => jumps.push(before),
                Command::ReadText => event = Some(Event::Text { text: docs[active].text.clone() }),
                Command::SetSelection { anchor, head } => selection = Some((active, anchor, head)),
                Command::CenterView => centered = Some(active),
                Command::SetError { message, .. } => panic!("{}", message),
            }
        }
        match event {
            Some(event) => pending = navigator.step(&event),
            None => break,
        }
    }
    assert_eq!(navigator.state, NavState::Done);
    assert_eq!(loads, 0);
    assert_eq!(active, 1);
    assert_eq!(jumps, vec![0]);
    let start = TEXT_B.find("gamma() {}").unwrap();
    assert_eq!(selection, Some((1, start + 5, start)));
    assert_eq!(centered, Some(1));
    assert_eq!(PathBuf::from("/b.rs").display().to_string(), "/b.rs");
}
