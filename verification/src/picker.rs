//! The symbol picker: the symbols of all open documents, gathered when the
//! picker is opened, and what happens when one of them is previewed or
//! chosen.

use vstd::prelude::*;
use std::path::PathBuf;
use crate::collect::{collect, collected_symbols};
use crate::document::Document;
use crate::navigate::{
    commands_view, file_path, option_view, parsed_url, plan_spec, Command, CommandView,
    NavStateView, Navigator, OpenAction,
};
use crate::symbol::{symbols_view, LocationView, Symbol, SymbolView};

verus! {

/// What the prompt reports to a typed command.
#[derive(Clone, Copy, Debug, PartialEq, Eq, Structural)]
pub enum PromptEvent {
    /// The input changed.
    Update,
    /// The input was confirmed.
    Validate,
    /// The prompt was left.
    Abort,
}

impl PromptEvent {
    /// Whether the typed command opens the picker on this event: it does so
    /// when the prompt was confirmed.
    pub fn opens_picker(&self) -> (r: bool)
        ensures
            r == (*self == PromptEvent::Validate),
    {
        match self {
            PromptEvent::Validate => true,
            _ => false,
        }
    }
}

/// What a picker is made of: the URI of the document that was active when
/// it was opened, and the symbols it lists.
#[derive(Debug, PartialEq, Eq)]
pub struct SymbolPicker {
    pub current_url: Option<String>,
    pub symbols: Vec<Symbol>,
}

/// What a `SymbolPicker` stands for in contracts.
pub struct SymbolPickerView {
    pub current_url: Option<Seq<char>>,
    pub symbols: Seq<SymbolView>,
}

impl View for SymbolPicker {
    type V = SymbolPickerView;

    open spec fn view(&self) -> SymbolPickerView {
        SymbolPickerView {
            current_url: option_view(self.current_url),
            symbols: symbols_view(self.symbols@),
        }
    }
}

/// The file and the lines that the picker shows for a symbol.
#[derive(Debug, PartialEq, Eq)]
pub struct Preview {
    pub path: PathBuf,
    pub first_line: usize,
    pub last_line: usize,
}

/// The preview of a location, given the file path of its URI: the file at
/// that path, from the line of the location's start to the line of its end.
pub open spec fn preview_spec(location: LocationView, path: Option<PathBuf>) -> Option<Preview> {
    match path {
        Some(path) => Some(
            Preview {
                path,
                first_line: location.range.start.line as usize,
                last_line: location.range.end.line as usize,
            },
        ),
        None => None,
    }
}

/// The preview of `symbol`, given the file path of its URI.
pub fn preview_at(symbol: &Symbol, path: Option<PathBuf>) -> (r: Option<Preview>)
    ensures
        r == preview_spec(symbol@.location, path),
        r matches Some(p) ==> p.first_line == symbol@.location.range.start.line && p.last_line
            == symbol@.location.range.end.line,
{
    match path {
        Some(path) => Some(
            Preview {
                path,
                first_line: symbol.location.range.start.line as usize,
                last_line: symbol.location.range.end.line as usize,
            },
        ),
        None => None,
    }
}

/// The preview of `symbol`. There is none where its URI has no file path,
/// as is the case for every URI that does not read as a URL.
pub fn preview(symbol: &Symbol) -> (r: Option<Preview>)
    ensures
        exists|path: Option<PathBuf>| r == #[trigger] preview_spec(symbol@.location, path),
        r matches Some(p) ==> p.first_line == symbol@.location.range.start.line && p.last_line
            == symbol@.location.range.end.line,
        parsed_url(symbol@.location.uri) is None ==> r is None,
{
    preview_at(symbol, file_path(symbol.location.uri.as_str()))
}

impl SymbolPicker {
    /// Begins the navigation to a symbol that was chosen in the picker.
    ///
    /// The symbol's document counts as the active one where its URI is the
    /// one that was active when the picker was opened, whatever is active
    /// now.
    pub fn select(&self, symbol: &Symbol, action: OpenAction) -> (r: (Navigator, Vec<Command>))
        ensures
            exists|path: Option<PathBuf>|
                (r.0@, commands_view(r.1@)) == #[trigger] plan_spec(
                    self@.current_url,
                    symbol@.location,
                    action,
                    path,
                ),
            self@.current_url == Some(symbol@.location.uri) ==> r.0@.state
                == NavStateView::Locating && commands_view(r.1@) == seq![
                CommandView::RecordJump,
                CommandView::ReadText,
            ],
            self@.current_url != Some(symbol@.location.uri) && parsed_url(symbol@.location.uri)
                is None ==> (r.0@, commands_view(r.1@)) == plan_spec(
                self@.current_url,
                symbol@.location,
                action,
                None,
            ),
    {
        Navigator::select(&self.current_url, symbol, action)
    }
}

/// Opens the picker: remembers the URI of `current`, the active document,
/// and collects the symbols of `documents`, all the open documents.
pub fn ts_symbol_picker(current: &Document, documents: &Vec<Document>) -> (picker: SymbolPicker)
    ensures
        picker@.current_url == option_view(current.url),
        picker@.symbols == collected_symbols(documents@),
{
    let current_url = match &current.url {
        Some(url) => Some(url.clone()),
        None => None,
    };
    SymbolPicker { current_url, symbols: collect(documents) }
}

/// The typed command that opens the picker. It does so when the prompt was
/// confirmed, and nothing on any other event of the prompt.
pub fn ts_symbol_picker_command(
    current: &Document,
    documents: &Vec<Document>,
    ev: PromptEvent,
) -> (r: Option<SymbolPicker>)
    ensures
        r is Some <==> ev == PromptEvent::Validate,
        r matches Some(picker) ==> picker@.current_url == option_view(current.url)
            && picker@.symbols == collected_symbols(documents@),
{
    if !ev.opens_picker() {
        return None;
    }
    Some(ts_symbol_picker(current, documents))
}

} // verus!
