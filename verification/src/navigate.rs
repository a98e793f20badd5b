//! The navigation controller: what the editor is asked to do when a symbol
//! was chosen, step by step.
//!
//! The controller does no editor work itself. It hands out commands, the
//! caller performs them in order and reports back what an `Open` or a
//! `ReadText` command gave. A navigation opens the symbol's document unless
//! it was the active one when the picker was opened, records one jump, and
//! puts the selection on the symbol.

use vstd::prelude::*;
use vstd::string::StringExecFns;
use std::path::PathBuf;
use url::Url;
use crate::symbol::{Location, LocationView, Symbol};
use crate::translate::{buffer_range, to_buffer_range};

verus! {

/// `std::path::PathBuf`, carried through as it is.
#[verifier::external_type_specification]
#[verifier::external_body]
pub struct ExPathBuf(PathBuf);

/// `url::Url`, carried from `parse_url` to `url_to_file_path`.
#[verifier::external_type_specification]
#[verifier::external_body]
pub struct ExUrl(Url);

/// How the editor is to show a document that it opens.
#[derive(Clone, Copy, Debug, PartialEq, Eq, Structural)]
pub enum OpenAction {
    Load,
    Replace,
    HorizontalSplit,
    VerticalSplit,
}

/// Why a navigation failed.
#[derive(Debug, PartialEq, Eq)]
pub enum NavError {
    /// No file path can be derived from the symbol's URI.
    UriNotFileBacked { uri: String },
    /// The editor could not open the symbol's document.
    OpenFailed { uri: String, cause: String },
}

/// What a `NavError` stands for in contracts.
pub enum NavErrorView {
    UriNotFileBacked { uri: Seq<char> },
    OpenFailed { uri: Seq<char>, cause: Seq<char> },
}

impl View for NavError {
    type V = NavErrorView;

    open spec fn view(&self) -> NavErrorView {
        match self {
            NavError::UriNotFileBacked { uri } => NavErrorView::UriNotFileBacked { uri: uri@ },
            NavError::OpenFailed { uri, cause } => NavErrorView::OpenFailed {
                uri: uri@,
                cause: cause@,
            },
        }
    }
}

/// The command that reports an error: its message is shown, and that of a
/// failed open is written to the log as well.
pub open spec fn report(error: NavErrorView) -> CommandView {
    CommandView::SetError { message: error_message(error), log: error is OpenFailed }
}

/// The message that the editor shows for an error.
pub open spec fn error_message(error: NavErrorView) -> Seq<char> {
    match error {
        NavErrorView::UriNotFileBacked { uri } => "unable to convert URI to filepath: "@ + uri,
        NavErrorView::OpenFailed { uri, cause } => "failed to open document: "@ + uri + ": "@
            + cause,
    }
}

impl NavError {
    /// The message that the editor shows for this error.
    pub fn message(&self) -> (r: String)
        ensures
            r@ == error_message(self@),
    {
        match self {
            NavError::UriNotFileBacked { uri } => {
                let mut message = String::from_str("unable to convert URI to filepath: ");
                message.append(uri.as_str());
                message
            },
            NavError::OpenFailed { uri, cause } => {
                let mut message = String::from_str("failed to open document: ");
                message.append(uri.as_str());
                message.append(": ");
                message.append(cause.as_str());
                message
            },
        }
    }
}

/// One request to the editor.
#[derive(Debug, PartialEq, Eq)]
pub enum Command {
    /// Open the document at `path`. The caller answers with `Event::Opened`
    /// or `Event::OpenFailed`.
    Open { path: PathBuf, action: OpenAction },
    /// Record a jump for the view that was active before the navigation.
    RecordJump,
    /// Read the text of the document that is active now. The caller answers
    /// with `Event::Text`.
    ReadText,
    /// Select one range in the active view.
    SetSelection { anchor: usize, head: usize },
    /// Center the active view on its selection.
    CenterView,
    /// Show an error message, and write it to the log where `log` is set.
    SetError { message: String, log: bool },
}

/// What a `Command` stands for in contracts.
pub enum CommandView {
    Open { path: PathBuf, action: OpenAction },
    RecordJump,
    ReadText,
    SetSelection { anchor: int, head: int },
    CenterView,
    SetError { message: Seq<char>, log: bool },
}

impl View for Command {
    type V = CommandView;

    open spec fn view(&self) -> CommandView {
        match self {
            Command::Open { path, action } => CommandView::Open { path: *path, action: *action },
            Command::RecordJump => CommandView::RecordJump,
            Command::ReadText => CommandView::ReadText,
            Command::SetSelection { anchor, head } => CommandView::SetSelection {
                anchor: *anchor as int,
                head: *head as int,
            },
            Command::CenterView => CommandView::CenterView,
            Command::SetError { message, log } => CommandView::SetError {
                message: message@,
                log: *log,
            },
        }
    }
}

/// The views of a list of commands, in the list's order.
pub open spec fn commands_view(commands: Seq<Command>) -> Seq<CommandView> {
    Seq::new(commands.len(), |i: int| commands[i]@)
}

/// What the caller reports back.
#[derive(Debug, PartialEq, Eq)]
pub enum Event {
    /// The document was opened and is the active one.
    Opened,
    /// The document could not be opened.
    OpenFailed { cause: String },
    /// The text of the active document.
    Text { text: String },
}

/// What an `Event` stands for in contracts.
pub enum EventView {
    Opened,
    OpenFailed { cause: Seq<char> },
    Text { text: Seq<char> },
}

impl View for Event {
    type V = EventView;

    open spec fn view(&self) -> EventView {
        match self {
            Event::Opened => EventView::Opened,
            Event::OpenFailed { cause } => EventView::OpenFailed { cause: cause@ },
            Event::Text { text } => EventView::Text { text: text@ },
        }
    }
}

/// Where a navigation stands.
#[derive(Debug, PartialEq, Eq)]
pub enum NavState {
    /// The outcome of an `Open` command is awaited.
    Opening,
    /// The text of the active document is awaited.
    Locating,
    /// The navigation is over and went through.
    Done,
    /// The navigation is over and failed.
    Failed(NavError),
}

/// What a `NavState` stands for in contracts.
pub enum NavStateView {
    Opening,
    Locating,
    Done,
    Failed(NavErrorView),
}

impl View for NavState {
    type V = NavStateView;

    open spec fn view(&self) -> NavStateView {
        match self {
            NavState::Opening => NavStateView::Opening,
            NavState::Locating => NavStateView::Locating,
            NavState::Done => NavStateView::Done,
            NavState::Failed(error) => NavStateView::Failed(error@),
        }
    }
}

/// A navigation to one symbol.
#[derive(Debug, PartialEq, Eq)]
pub struct Navigator {
    pub location: Location,
    pub state: NavState,
}

/// What a `Navigator` stands for in contracts.
pub struct NavigatorView {
    pub location: LocationView,
    pub state: NavStateView,
}

impl View for Navigator {
    type V = NavigatorView;

    open spec fn view(&self) -> NavigatorView {
        NavigatorView { location: self.location@, state: self.state@ }
    }
}

/// How a navigation begins. `current` is the URI of the document that was
/// active when the picker was opened, `path` the file path of the symbol's
/// URI, if it has one.
///
/// In the document that was active nothing is opened. Otherwise the document
/// is opened at `path`, and without a path the navigation fails.
pub open spec fn plan_spec(
    current: Option<Seq<char>>,
    location: LocationView,
    action: OpenAction,
    path: Option<PathBuf>,
) -> (NavigatorView, Seq<CommandView>) {
    if current == Some(location.uri) {
        (
            NavigatorView { location, state: NavStateView::Locating },
            seq![CommandView::RecordJump, CommandView::ReadText],
        )
    } else {
        match path {
            Some(path) => (
                NavigatorView { location, state: NavStateView::Opening },
                seq![CommandView::Open { path, action }],
            ),
            None => {
                let error = NavErrorView::UriNotFileBacked { uri: location.uri };
                (
                    NavigatorView { location, state: NavStateView::Failed(error) },
                    seq![report(error)],
                )
            },
        }
    }
}

/// How a navigation goes on when the caller reports `event`.
///
/// Once the document is open one jump is recorded and the text is asked
/// for. With the text the selection is set, anchor at the end of the symbol
/// and head at its start, and the view is centered; where the symbol's range
/// points at no place in the text, the selection stays as it is. A failed
/// open ends the navigation with an error. An event that the state does not
/// wait for changes nothing.
pub open spec fn step_spec(nav: NavigatorView, event: EventView) -> (
    NavigatorView,
    Seq<CommandView>,
) {
    match (nav.state, event) {
        (NavStateView::Opening, EventView::Opened) => (
            NavigatorView { location: nav.location, state: NavStateView::Locating },
            seq![CommandView::RecordJump, CommandView::ReadText],
        ),
        (NavStateView::Opening, EventView::OpenFailed { cause }) => {
            let error = NavErrorView::OpenFailed { uri: nav.location.uri, cause };
            (
                NavigatorView { location: nav.location, state: NavStateView::Failed(error) },
                seq![report(error)],
            )
        },
        (NavStateView::Locating, EventView::Text { text }) => (
            NavigatorView { location: nav.location, state: NavStateView::Done },
            match buffer_range(text, nav.location.range) {
                Some((start, end)) => seq![
                    CommandView::SetSelection { anchor: end, head: start },
                    CommandView::CenterView,
                ],
                None => Seq::empty(),
            },
        ),
        _ => (nav, Seq::empty()),
    }
}

/// The URL that `url::Url::parse` reads from a text, or `None` where it
/// reports an error.
pub uninterp spec fn parsed_url(uri: Seq<char>) -> Option<Url>;

/// Calls `url::Url::parse`. The contract names the outcome as a function of
/// the text: the URL that was read, or `None` for an error of the call.
#[verifier::external_body]
pub(crate) fn parse_url(uri: &str) -> (r: Option<Url>)
    ensures
        r == parsed_url(uri@),
{
    Url::parse(uri).ok()
}

/// Calls `url::Url::to_file_path`. What the call gives depends on the
/// platform, so nothing is claimed of the outcome but that an error of the
/// call gives `None`.
#[verifier::external_body]
pub(crate) fn url_to_file_path(url: &Url) -> Option<PathBuf> {
    url.to_file_path().ok()
}

/// The file path that a URI stands for, if it is one of a file: the path
/// that `url::Url::to_file_path` gives for the URL that the text reads as. A
/// text that does not read as a URL has none.
pub(crate) fn file_path(uri: &str) -> (r: Option<PathBuf>)
    ensures
        parsed_url(uri@) is None ==> r is None,
{
    match parse_url(uri) {
        Some(url) => url_to_file_path(&url),
        None => None,
    }
}

/// Whether `uri` is the URI that was active when the picker was opened.
pub fn is_current(current: &Option<String>, uri: &String) -> (r: bool)
    ensures
        r == (option_view(*current) == Some(uri@)),
{
    match current {
        Some(current) => *current == *uri,
        None => false,
    }
}

/// The view of a URI that may be absent.
pub open spec fn option_view(uri: Option<String>) -> Option<Seq<char>> {
    match uri {
        Some(uri) => Some(uri@),
        None => None,
    }
}

impl Navigator {
    /// Begins a navigation to `symbol`, given the file path of its URI.
    pub fn plan(
        current: &Option<String>,
        symbol: &Symbol,
        action: OpenAction,
        path: Option<PathBuf>,
    ) -> (r: (Navigator, Vec<Command>))
        ensures
            (r.0@, commands_view(r.1@)) == plan_spec(
                option_view(*current),
                symbol@.location,
                action,
                path,
            ),
            r.1@.len() == plan_spec(option_view(*current), symbol@.location, action, path).1.len(),
    {
        let location = symbol.location.clone();
        let mut commands: Vec<Command> = Vec::new();
        let state = if is_current(current, &symbol.location.uri) {
            commands.push(Command::RecordJump);
            commands.push(Command::ReadText);
            NavState::Locating
        } else {
            match path {
                Some(path) => {
                    commands.push(Command::Open { path, action });
                    NavState::Opening
                },
                None => {
                    let error = NavError::UriNotFileBacked { uri: symbol.location.uri.clone() };
                    commands.push(Command::SetError { message: error.message(), log: false });
                    NavState::Failed(error)
                },
            }
        };
        let navigator = Navigator { location, state };
        proof {
            let expected = plan_spec(option_view(*current), symbol@.location, action, path);
            assert(commands_view(commands@) =~= expected.1);
        }
        (navigator, commands)
    }

    /// Begins a navigation to `symbol`.
    ///
    /// The file path of the symbol's URI is looked up only where the symbol
    /// lies in another document than the one that was active. A URI that
    /// does not read as a URL has no path, so the navigation fails.
    pub fn select(current: &Option<String>, symbol: &Symbol, action: OpenAction) -> (r: (
        Navigator,
        Vec<Command>,
    ))
        ensures
            exists|path: Option<PathBuf>|
                (r.0@, commands_view(r.1@)) == #[trigger] plan_spec(
                    option_view(*current),
                    symbol@.location,
                    action,
                    path,
                ),
            option_view(*current) == Some(symbol@.location.uri) ==> r.0@.state
                == NavStateView::Locating && commands_view(r.1@) == seq![
                CommandView::RecordJump,
                CommandView::ReadText,
            ],
            option_view(*current) != Some(symbol@.location.uri) && parsed_url(
                symbol@.location.uri,
            ) is None ==> (r.0@, commands_view(r.1@)) == plan_spec(
                option_view(*current),
                symbol@.location,
                action,
                None,
            ),
    {
        let path = if is_current(current, &symbol.location.uri) {
            None
        } else {
            file_path(symbol.location.uri.as_str())
        };
        Navigator::plan(current, symbol, action, path)
    }

    /// Takes the navigation one step further with what the caller reports,
    /// and returns the commands to perform next.
    pub fn step(&mut self, event: &Event) -> (commands: Vec<Command>)
        ensures
            (final(self)@, commands_view(commands@)) == step_spec(old(self)@, event@),
            commands@.len() == step_spec(old(self)@, event@).1.len(),
    {
        let mut commands: Vec<Command> = Vec::new();
        match (&self.state, event) {
            (NavState::Opening, Event::Opened) => {
                commands.push(Command::RecordJump);
                commands.push(Command::ReadText);
                self.state = NavState::Locating;
            },
            (NavState::Opening, Event::OpenFailed { cause }) => {
                let error = NavError::OpenFailed {
                    uri: self.location.uri.clone(),
                    cause: cause.clone(),
                };
                commands.push(Command::SetError { message: error.message(), log: true });
                self.state = NavState::Failed(error);
            },
            (NavState::Locating, Event::Text { text }) => {
                match to_buffer_range(text.as_str(), self.location.range) {
                    Some(range) => {
                        commands.push(
                            Command::SetSelection { anchor: range.head, head: range.anchor },
                        );
                        commands.push(Command::CenterView);
                    },
                    None => {},
                }
                self.state = NavState::Done;
            },
            _ => {},
        }
        proof {
            let expected = step_spec(old(self)@, event@);
            assert(commands_view(commands@) =~= expected.1);
        }
        commands
    }

    /// Whether the navigation is over.
    pub fn is_closed(&self) -> (r: bool)
        ensures
            r == (self@.state is Done || self@.state is Failed),
    {
        match &self.state {
            NavState::Done => true,
            NavState::Failed(_) => true,
            _ => false,
        }
    }
}

/// The kinds of command, without what they carry.
#[derive(Clone, Copy, Debug, PartialEq, Eq, Structural)]
pub enum CommandKind {
    Open,
    RecordJump,
    ReadText,
    SetSelection,
    CenterView,
    SetError,
}

/// The kind of a command.
pub open spec fn kind_of(command: CommandView) -> CommandKind {
    match command {
        CommandView::Open { .. } => CommandKind::Open,
        CommandView::RecordJump => CommandKind::RecordJump,
        CommandView::ReadText => CommandKind::ReadText,
        CommandView::SetSelection { .. } => CommandKind::SetSelection,
        CommandView::CenterView => CommandKind::CenterView,
        CommandView::SetError { .. } => CommandKind::SetError,
    }
}

/// How many commands of one kind a sequence of commands holds.
pub open spec fn occurrences(commands: Seq<CommandView>, kind: CommandKind) -> nat
    decreases commands.len(),
{
    if commands.len() == 0 {
        0
    } else if kind_of(commands.last()) == kind {
        occurrences(commands.drop_last(), kind) + 1
    } else {
        occurrences(commands.drop_last(), kind)
    }
}

/// True when every `RecordJump` of the sequence stands before every
/// `SetSelection` of it.
pub open spec fn jump_precedes_selection(commands: Seq<CommandView>) -> bool {
    forall|i: int, j: int|
        0 <= i < commands.len() && 0 <= j < commands.len() && kind_of(#[trigger] commands[i])
            == CommandKind::RecordJump && kind_of(#[trigger] commands[j])
            == CommandKind::SetSelection ==> i < j
}

/// True when the caller has reported that the document was opened.
pub open spec fn open_reported(events: Seq<EventView>) -> bool {
    exists|k: int| 0 <= k < events.len() && #[trigger] events[k] is Opened
}

/// Where a navigation stands after a sequence of events, and all the commands
/// that it has handed out for them, in order.
pub open spec fn run_spec(nav: NavigatorView, events: Seq<EventView>) -> (
    NavigatorView,
    Seq<CommandView>,
)
    decreases events.len(),
{
    if events.len() == 0 {
        (nav, Seq::empty())
    } else {
        let (mid, before) = run_spec(nav, events.drop_last());
        let (last, after) = step_spec(mid, events.last());
        (last, before + after)
    }
}

/// A whole navigation: where it stands after it began and took the events,
/// and all the commands that it has handed out, in order.
pub open spec fn navigation_spec(
    current: Option<Seq<char>>,
    location: LocationView,
    action: OpenAction,
    path: Option<PathBuf>,
    events: Seq<EventView>,
) -> (NavigatorView, Seq<CommandView>) {
    let (begun, first) = plan_spec(current, location, action, path);
    let (last, rest) = run_spec(begun, events);
    (last, first + rest)
}

/// Counting over two sequences, one after the other, adds up.
pub proof fn lemma_occurrences_concat(
    first: Seq<CommandView>,
    second: Seq<CommandView>,
    kind: CommandKind,
)
    ensures
        occurrences(first + second, kind) == occurrences(first, kind) + occurrences(second, kind),
    decreases second.len(),
{
    if second.len() == 0 {
        assert(first + second =~= first);
    } else {
        lemma_occurrences_concat(first, second.drop_last(), kind);
        assert((first + second).drop_last() =~= first + second.drop_last());
        assert((first + second).last() == second.last());
    }
}

/// A kind that a sequence holds no command of is the kind of none of them.
pub proof fn lemma_no_occurrence(commands: Seq<CommandView>, kind: CommandKind)
    requires
        occurrences(commands, kind) == 0,
    ensures
        forall|i: int| 0 <= i < commands.len() ==> kind_of(#[trigger] commands[i]) != kind,
    decreases commands.len(),
{
    if commands.len() > 0 {
        lemma_no_occurrence(commands.drop_last(), kind);
        assert forall|i: int| 0 <= i < commands.len() implies kind_of(#[trigger] commands[i])
            != kind by {
            if i < commands.len() - 1 {
                assert(commands.drop_last()[i] == commands[i]);
            }
        }
    }
}

/// The counts of the commands that one step hands out.
proof fn lemma_step_counts(nav: NavigatorView, event: EventView)
    ensures
        occurrences(step_spec(nav, event).1, CommandKind::Open) == 0,
        occurrences(step_spec(nav, event).1, CommandKind::RecordJump) == (if nav.state is Opening
            && event is Opened {
            1nat
        } else {
            0nat
        }),
        occurrences(step_spec(nav, event).1, CommandKind::SetSelection) > 0 ==> nav.state
            is Locating,
{
    reveal_with_fuel(occurrences, 3);
    let commands = step_spec(nav, event).1;
    if commands.len() == 2 {
        assert(commands.drop_last().len() == 1);
        assert(commands.drop_last().drop_last().len() == 0);
    } else if commands.len() == 1 {
        assert(commands.drop_last().len() == 0);
    }
}

/// What holds of a state and of the commands handed out before it was
/// reached: at most one document was opened; while the open is awaited no
/// jump was recorded; a navigation that went through recorded one jump, and
/// recorded it before it set the selection; a failed one recorded none and
/// set no selection.
pub open spec fn navigation_invariant(state: NavStateView, commands: Seq<CommandView>) -> bool {
    let jumps = occurrences(commands, CommandKind::RecordJump);
    let selections = occurrences(commands, CommandKind::SetSelection);
    &&& occurrences(commands, CommandKind::Open) <= 1
    &&& match state {
        NavStateView::Opening => jumps == 0 && selections == 0,
        NavStateView::Locating => jumps == 1 && selections == 0,
        NavStateView::Done => jumps == 1 && jump_precedes_selection(commands),
        NavStateView::Failed(_) => jumps == 0 && selections == 0,
    }
}

/// One step keeps the invariant.
proof fn lemma_step_keeps_invariant(
    nav: NavigatorView,
    commands: Seq<CommandView>,
    event: EventView,
)
    requires
        navigation_invariant(nav.state, commands),
    ensures
        navigation_invariant(step_spec(nav, event).0.state, commands + step_spec(nav, event).1),
{
    let (next, added) = step_spec(nav, event);
    let all = commands + added;
    lemma_step_counts(nav, event);
    lemma_occurrences_concat(commands, added, CommandKind::Open);
    lemma_occurrences_concat(commands, added, CommandKind::RecordJump);
    lemma_occurrences_concat(commands, added, CommandKind::SetSelection);
    if added.len() == 0 {
        assert(all =~= commands);
        if nav.state is Locating {
            lemma_no_occurrence(commands, CommandKind::SetSelection);
        }
    } else if nav.state is Locating {
        lemma_no_occurrence(commands, CommandKind::SetSelection);
        lemma_no_occurrence(added, CommandKind::RecordJump);
        assert forall|i: int, j: int|
            0 <= i < all.len() && 0 <= j < all.len() && kind_of(#[trigger] all[i])
                == CommandKind::RecordJump && kind_of(#[trigger] all[j])
                == CommandKind::SetSelection implies i < j by {
            if i >= commands.len() {
                assert(all[i] == added[i - commands.len()]);
            }
            if j < commands.len() {
                assert(all[j] == commands[j]);
            }
        }
    } else {
        reveal_with_fuel(occurrences, 3);
    }
}

/// A navigation keeps the invariant whatever the caller reports.
pub proof fn lemma_navigation_invariant(
    current: Option<Seq<char>>,
    location: LocationView,
    action: OpenAction,
    path: Option<PathBuf>,
    events: Seq<EventView>,
)
    ensures
        navigation_invariant(
            navigation_spec(current, location, action, path, events).0.state,
            navigation_spec(current, location, action, path, events).1,
        ),
    decreases events.len(),
{
    let (begun, first) = plan_spec(current, location, action, path);
    if events.len() == 0 {
        reveal_with_fuel(occurrences, 3);
        assert(first + Seq::<CommandView>::empty() =~= first);
        if first.len() == 2 {
            assert(first.drop_last().len() == 1);
        }
    } else {
        lemma_navigation_invariant(current, location, action, path, events.drop_last());
        let (mid, before) = run_spec(begun, events.drop_last());
        let (last, after) = step_spec(mid, events.last());
        lemma_step_keeps_invariant(mid, first + before, events.last());
        assert((first + before) + after =~= first + (before + after));
    }
}

/// A navigation that went through recorded exactly one jump, and recorded it
/// before it set the selection. A navigation that failed recorded none.
pub proof fn lemma_one_jump_when_done(
    current: Option<Seq<char>>,
    location: LocationView,
    action: OpenAction,
    path: Option<PathBuf>,
    events: Seq<EventView>,
)
    ensures
        ({
            let (last, commands) = navigation_spec(current, location, action, path, events);
            &&& last.state is Done ==> occurrences(commands, CommandKind::RecordJump) == 1
                && jump_precedes_selection(commands)
            &&& last.state is Failed ==> occurrences(commands, CommandKind::RecordJump) == 0
                && occurrences(commands, CommandKind::SetSelection) == 0
        }),
{
    lemma_navigation_invariant(current, location, action, path, events);
}

/// A navigation that is over stays as it is: whatever the caller reports
/// afterwards, its state is kept and no command is handed out.
pub proof fn lemma_closed_is_final(nav: NavigatorView, events: Seq<EventView>)
    requires
        nav.state is Done || nav.state is Failed,
    ensures
        run_spec(nav, events) == (nav, Seq::<CommandView>::empty()),
    decreases events.len(),
{
    if events.len() > 0 {
        lemma_closed_is_final(nav, events.drop_last());
        assert(Seq::<CommandView>::empty() + Seq::<CommandView>::empty() =~= Seq::<
            CommandView,
        >::empty());
    }
}

/// No step opens a document: whatever the caller reports, the commands that
/// follow the first ones hold no `Open`.
pub proof fn lemma_run_never_opens(nav: NavigatorView, events: Seq<EventView>)
    ensures
        occurrences(run_spec(nav, events).1, CommandKind::Open) == 0,
    decreases events.len(),
{
    if events.len() > 0 {
        lemma_run_never_opens(nav, events.drop_last());
        let (mid, before) = run_spec(nav, events.drop_last());
        lemma_step_counts(mid, events.last());
        lemma_occurrences_concat(before, step_spec(mid, events.last()).1, CommandKind::Open);
    }
}

/// A navigation to a symbol of the document that was active when the picker
/// was opened never opens a document.
pub proof fn lemma_same_document_never_opens(
    current: Option<Seq<char>>,
    location: LocationView,
    action: OpenAction,
    path: Option<PathBuf>,
    events: Seq<EventView>,
)
    requires
        current == Some(location.uri),
    ensures
        occurrences(
            navigation_spec(current, location, action, path, events).1,
            CommandKind::Open,
        ) == 0,
{
    let (begun, first) = plan_spec(current, location, action, path);
    reveal_with_fuel(occurrences, 3);
    assert(first.drop_last().len() == 1);
    lemma_run_never_opens(begun, events);
    lemma_occurrences_concat(first, run_spec(begun, events).1, CommandKind::Open);
}

/// The states that a navigation reaches only after the caller reported that
/// the document was opened, where it began with an `Open` command.
proof fn lemma_located_after_open(nav: NavigatorView, events: Seq<EventView>)
    requires
        nav.state is Opening,
    ensures
        ({
            let (last, commands) = run_spec(nav, events);
            &&& (last.state is Locating || last.state is Done) ==> open_reported(events)
            &&& occurrences(commands, CommandKind::SetSelection) > 0 ==> open_reported(events)
        }),
    decreases events.len(),
{
    if events.len() > 0 {
        let rest = events.drop_last();
        lemma_located_after_open(nav, rest);
        let (mid, before) = run_spec(nav, rest);
        let (last, after) = step_spec(mid, events.last());
        lemma_step_counts(mid, events.last());
        lemma_occurrences_concat(before, after, CommandKind::SetSelection);
        if open_reported(rest) {
            let k = choose|k: int| 0 <= k < rest.len() && #[trigger] rest[k] is Opened;
            assert(events[k] == rest[k]);
        } else if mid.state is Opening && events.last() is Opened {
            assert(events[events.len() - 1] is Opened);
        }
    }
}

/// A navigation to a symbol of another document whose URI has a file path
/// opens that document exactly once, first of all, and sets the selection
/// only after the caller reported that the document was opened.
pub proof fn lemma_other_document_opens_once(
    current: Option<Seq<char>>,
    location: LocationView,
    action: OpenAction,
    path: PathBuf,
    events: Seq<EventView>,
)
    requires
        current != Some(location.uri),
    ensures
        ({
            let commands = navigation_spec(current, location, action, Some(path), events).1;
            &&& occurrences(commands, CommandKind::Open) == 1
            &&& commands[0] == (CommandView::Open { path, action })
            &&& occurrences(commands, CommandKind::SetSelection) > 0 ==> open_reported(events)
        }),
{
    let (begun, first) = plan_spec(current, location, action, Some(path));
    let rest = run_spec(begun, events).1;
    reveal_with_fuel(occurrences, 2);
    assert(first.drop_last().len() == 0);
    lemma_run_never_opens(begun, events);
    lemma_occurrences_concat(first, rest, CommandKind::Open);
    lemma_occurrences_concat(first, rest, CommandKind::SetSelection);
    lemma_located_after_open(begun, events);
    assert((first + rest)[0] == first[0]);
}

} // verus!
