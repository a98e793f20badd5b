//! Symbols and the locations they point at.

use vstd::prelude::*;

verus! {

/// A zero-based row and column in the tag engine's coordinate space.
/// The column counts the UTF-8 bytes between the start of the row and the position.
#[derive(Clone, Copy, Debug, PartialEq, Eq, Structural)]
pub struct Position {
    pub line: u32,
    pub character: u32,
}

/// A pair of positions in the tag engine's coordinate space.
#[derive(Clone, Copy, Debug, PartialEq, Eq, Structural)]
pub struct Range {
    pub start: Position,
    pub end: Position,
}

/// The single classification that every collected symbol carries.
#[derive(Clone, Copy, Debug, PartialEq, Eq, Structural)]
pub enum SymbolKind {
    Class,
}

/// A document URI together with a range in the tag engine's coordinate space.
#[derive(Debug, PartialEq, Eq)]
pub struct Location {
    pub uri: String,
    pub range: Range,
}

/// What a `Location` stands for in contracts.
pub struct LocationView {
    pub uri: Seq<char>,
    pub range: Range,
}

impl View for Location {
    type V = LocationView;

    open spec fn view(&self) -> LocationView {
        LocationView { uri: self.uri@, range: self.range }
    }
}

impl Clone for Location {
    fn clone(&self) -> (r: Location)
        ensures
            r@ == self@,
    {
        Location { uri: self.uri.clone(), range: self.range }
    }
}

/// A named definition and the place it was found at.
#[derive(Debug, PartialEq, Eq)]
pub struct Symbol {
    pub name: String,
    pub kind: SymbolKind,
    pub location: Location,
}

/// What a `Symbol` stands for in contracts.
pub struct SymbolView {
    pub name: Seq<char>,
    pub kind: SymbolKind,
    pub location: LocationView,
}

impl View for Symbol {
    type V = SymbolView;

    open spec fn view(&self) -> SymbolView {
        SymbolView { name: self.name@, kind: self.kind, location: self.location@ }
    }
}

impl Clone for Symbol {
    fn clone(&self) -> (r: Symbol)
        ensures
            r@ == self@,
    {
        Symbol { name: self.name.clone(), kind: self.kind, location: self.location.clone() }
    }
}

impl Position {
    pub fn new(line: u32, character: u32) -> (p: Position)
        ensures
            p == (Position { line, character }),
    {
        Position { line, character }
    }
}

impl Range {
    pub fn new(start: Position, end: Position) -> (r: Range)
        ensures
            r == (Range { start, end }),
    {
        Range { start, end }
    }
}

impl Location {
    pub fn new(uri: String, range: Range) -> (l: Location)
        ensures
            l@ == (LocationView { uri: uri@, range }),
    {
        Location { uri, range }
    }
}

/// The views of a list of symbols, in the list's order.
pub open spec fn symbols_view(symbols: Seq<Symbol>) -> Seq<SymbolView> {
    Seq::new(symbols.len(), |i: int| symbols[i]@)
}

/// Appending a symbol to a list appends its view to the list's view.
pub proof fn lemma_push_view(symbols: Seq<Symbol>, symbol: Symbol)
    ensures
        symbols_view(symbols.push(symbol)) == symbols_view(symbols).push(symbol@),
{
    assert(symbols_view(symbols.push(symbol)) =~= symbols_view(symbols).push(symbol@));
}

} // verus!
