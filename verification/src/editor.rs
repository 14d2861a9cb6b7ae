//! The decisions of a terminal text editor with several buffers, a search
//! box, an output pane and a pop-up of key bindings.
//!
//! The editor runs a loop: it draws the screen, reads one event, and acts on
//! it. Drawing, reading and the editing of text areas happen outside; this
//! module holds the state that the decisions read and write, and the step
//! from a state and an event to the next state and the command to carry out.
use vstd::prelude::*;
use crate::text::{append_decimal, decimal, lines_of, split_lines, starts_with, str_starts_with};

verus! {

// ---------------------------------------------------------------------------
// Keys and events
// ---------------------------------------------------------------------------

/// A key of a key input.
#[derive(Clone, Copy, Debug, PartialEq, Eq)]
pub enum Key {
    Char(char),
    F(u8),
    Backspace,
    Enter,
    Left,
    Right,
    Up,
    Down,
    Tab,
    Delete,
    Home,
    End,
    PageUp,
    PageDown,
    Esc,
    Copy,
    Cut,
    Paste,
    MouseScrollDown,
    MouseScrollUp,
    Null,
}

/// A key input with its modifiers.
#[derive(Clone, Copy, Debug, PartialEq, Eq)]
pub struct Input {
    pub key: Key,
    pub ctrl: bool,
    pub alt: bool,
    pub shift: bool,
}

/// The input that stands for an event which is not a key: it is ignored by
/// text areas.
pub open spec fn null_input() -> Input {
    Input { key: Key::Null, ctrl: false, alt: false, shift: false }
}

impl Input {
    /// The input of an event which is not a key.
    pub fn null() -> (r: Input)
        ensures
            r == null_input(),
    {
        Input { key: Key::Null, ctrl: false, alt: false, shift: false }
    }
}

/// An event read from the terminal.
#[derive(Clone, Debug, PartialEq, Eq)]
pub enum EditorEvent {
    /// Pasted text.
    Paste(String),
    /// Any other event, as a key input.
    Input(Input),
}

pub ghost enum EventView {
    Paste(Seq<char>),
    Input(Input),
}

impl View for EditorEvent {
    type V = EventView;

    open spec fn view(&self) -> EventView {
        match self {
            EditorEvent::Paste(s) => EventView::Paste(s@),
            EditorEvent::Input(i) => EventView::Input(*i),
        }
    }
}

pub open spec fn is_char(i: Input, c: char) -> bool {
    i.key matches Key::Char(k) && k == c
}

// ---------------------------------------------------------------------------
// Key bindings
// ---------------------------------------------------------------------------

/// What a key does while the search box is open.
#[derive(Clone, Debug, PartialEq, Eq)]
pub enum SearchKey {
    /// Search forward from the cursor.
    Forward,
    /// Search backward from the cursor.
    Back,
    /// Jump to the first match and close the search box.
    Confirm,
    /// Close the search box.
    Cancel,
    /// Edit the search text.
    Other,
}

pub open spec fn spec_search_key(i: Input) -> SearchKey {
    if ((is_char(i, 'g') || is_char(i, 'n')) && i.ctrl && !i.alt) || i.key is Down {
        SearchKey::Forward
    } else if (is_char(i, 'g') && !i.ctrl && i.alt) || (is_char(i, 'p') && i.ctrl && !i.alt) || i.key is Up {
        SearchKey::Back
    } else if i.key is Enter {
        SearchKey::Confirm
    } else if i.key is Esc {
        SearchKey::Cancel
    } else {
        SearchKey::Other
    }
}

/// The binding of a key while the search box is open: Ctrl+G, Ctrl+N or
/// Down search forward; Alt+G, Ctrl+P or Up search backward; Enter
/// confirms; Esc cancels.
pub fn search_key(i: &Input) -> (r: SearchKey)
    ensures
        r == spec_search_key(*i),
        (i.ctrl && !i.alt && (i.key == Key::Char('g') || i.key == Key::Char('n'))) || i.key == Key::Down
            ==> r == SearchKey::Forward,
        (!i.ctrl && i.alt && i.key == Key::Char('g')) || (i.ctrl && !i.alt && i.key == Key::Char('p'))
            || i.key == Key::Up ==> r == SearchKey::Back,
        i.key == Key::Enter ==> r == SearchKey::Confirm,
        i.key == Key::Esc ==> r == SearchKey::Cancel,
        !(i.ctrl && !i.alt && (i.key == Key::Char('g') || i.key == Key::Char('n'))) && i.key != Key::Down
            && !(!i.ctrl && i.alt && i.key == Key::Char('g')) && !(i.ctrl && !i.alt && i.key == Key::Char('p'))
            && i.key != Key::Up && i.key != Key::Enter && i.key != Key::Esc ==> r == SearchKey::Other,
{
    let forward_char = match i.key {
        Key::Char(c) => c == 'g' || c == 'n',
        _ => false,
    };
    let down = match i.key {
        Key::Down => true,
        _ => false,
    };
    if (forward_char && i.ctrl && !i.alt) || down {
        return SearchKey::Forward;
    }
    let g = match i.key {
        Key::Char(c) => c == 'g',
        _ => false,
    };
    let p = match i.key {
        Key::Char(c) => c == 'p',
        _ => false,
    };
    let up = match i.key {
        Key::Up => true,
        _ => false,
    };
    if (g && !i.ctrl && i.alt) || (p && i.ctrl && !i.alt) || up {
        return SearchKey::Back;
    }
    match i.key {
        Key::Enter => SearchKey::Confirm,
        Key::Esc => SearchKey::Cancel,
        _ => SearchKey::Other,
    }
}

/// Whether the search box takes an input into its text: not an input that
/// would insert a line break (Enter, Ctrl+M).
pub open spec fn spec_search_box_accepts(i: Input) -> bool {
    !(i.key is Enter) && !(is_char(i, 'm') && i.ctrl)
}

pub fn search_box_accepts(i: &Input) -> (r: bool)
    ensures
        r == spec_search_box_accepts(*i),
        r <==> (i.key != Key::Enter && !(i.ctrl && i.key == Key::Char('m'))),
{
    match i.key {
        Key::Enter => false,
        Key::Char(c) => !(c == 'm' && i.ctrl),
        _ => true,
    }
}

/// What a key does while the search box is closed.
#[derive(Clone, Debug, PartialEq, Eq)]
pub enum EditorKey {
    /// Show or hide the key bindings.
    TogglePopup,
    /// Leave the editor.
    Quit,
    /// Edit the next buffer.
    SwitchBuffer,
    /// Save the current buffer.
    Save,
    /// Open the search box.
    OpenSearch,
    /// Edit the current buffer.
    Other,
}

pub open spec fn spec_editor_key(i: Input) -> EditorKey {
    if is_char(i, 'y') && i.ctrl {
        EditorKey::TogglePopup
    } else if is_char(i, 'q') && i.ctrl {
        EditorKey::Quit
    } else if is_char(i, 't') && i.ctrl {
        EditorKey::SwitchBuffer
    } else if is_char(i, 's') && i.ctrl {
        EditorKey::Save
    } else if is_char(i, 'g') && i.ctrl {
        EditorKey::OpenSearch
    } else {
        EditorKey::Other
    }
}

/// The binding of a key while the search box is closed: Ctrl+Y toggles the
/// key bindings, Ctrl+Q quits, Ctrl+T switches buffer, Ctrl+S saves, Ctrl+G
/// opens the search box.
pub fn editor_key(i: &Input) -> (r: EditorKey)
    ensures
        r == spec_editor_key(*i),
        i.ctrl && i.key == Key::Char('y') ==> r == EditorKey::TogglePopup,
        i.ctrl && i.key == Key::Char('q') ==> r == EditorKey::Quit,
        i.ctrl && i.key == Key::Char('t') ==> r == EditorKey::SwitchBuffer,
        i.ctrl && i.key == Key::Char('s') ==> r == EditorKey::Save,
        i.ctrl && i.key == Key::Char('g') ==> r == EditorKey::OpenSearch,
        !(i.ctrl && (i.key == Key::Char('y') || i.key == Key::Char('q') || i.key == Key::Char('t')
            || i.key == Key::Char('s') || i.key == Key::Char('g'))) ==> r == EditorKey::Other,
{
    match i.key {
        Key::Char(c) => {
            if c == 'y' && i.ctrl {
                EditorKey::TogglePopup
            } else if c == 'q' && i.ctrl {
                EditorKey::Quit
            } else if c == 't' && i.ctrl {
                EditorKey::SwitchBuffer
            } else if c == 's' && i.ctrl {
                EditorKey::Save
            } else if c == 'g' && i.ctrl {
                EditorKey::OpenSearch
            } else {
                EditorKey::Other
            }
        },
        _ => EditorKey::Other,
    }
}

// ---------------------------------------------------------------------------
// State
// ---------------------------------------------------------------------------

/// The state of the editor that its decisions read and write.
pub ghost struct EditorModel {
    /// The index of the buffer being edited.
    pub current: int,
    /// For each buffer, whether it has changes that are not saved.
    pub modified: Seq<bool>,
    /// Whether the search box is open.
    pub search_open: bool,
    /// The error shown in the search box title, if any.
    pub search_error: Option<Seq<char>>,
    /// Whether the key bindings are shown.
    pub show_popup: bool,
    /// The message to show once below the buffer, if any.
    pub message: Option<Seq<char>>,
    /// Whether the output pane has changed since it was drawn.
    pub output_modified: bool,
}

impl EditorModel {
    /// At least one buffer, and the current one among them.
    pub open spec fn wf(self) -> bool {
        self.modified.len() >= 1 && 0 <= self.current < self.modified.len()
    }
}

/// The state of the editor.
pub struct EditorState {
    current: usize,
    modified: Vec<bool>,
    search_open: bool,
    search_error: Option<String>,
    show_popup: bool,
    message: Option<String>,
    output_modified: bool,
}

pub open spec fn opt_view(o: Option<String>) -> Option<Seq<char>> {
    match o {
        Some(s) => Some(s@),
        None => None,
    }
}

impl View for EditorState {
    type V = EditorModel;

    closed spec fn view(&self) -> EditorModel {
        EditorModel {
            current: self.current as int,
            modified: self.modified@,
            search_open: self.search_open,
            search_error: opt_view(self.search_error),
            show_popup: self.show_popup,
            message: opt_view(self.message),
            output_modified: self.output_modified,
        }
    }
}

/// The commands that the editor loop carries out after a step.
#[derive(Clone, Debug, PartialEq, Eq)]
pub enum EditorCommand {
    /// Nothing beyond the change of state.
    Nothing,
    /// Leave the loop.
    Quit,
    /// Search forward in the current buffer, then report with `search_moved`.
    SearchForward,
    /// Search backward in the current buffer, then report with `search_moved`.
    SearchBack,
    /// Search forward in the current buffer, moving to the first match,
    /// report with `search_confirmed`, then clear the search box and the
    /// search pattern.
    SearchConfirm,
    /// Clear the search box and the search pattern.
    SearchCancel,
    /// Give the input to the search box; when its text changes, set the
    /// search pattern of the buffer to its first line and report with
    /// `search_pattern_set`.
    SearchInput(Input),
    /// Give the input to the current buffer and report with `buffer_edited`.
    BufferInput(Input),
    /// Write "Pasting data" and a line break to the output pane, then insert
    /// each line, followed by a line break, into the current buffer.
    Paste(Vec<String>),
    /// Write the text and a line break to the output pane.
    WriteOutput(String),
    /// Save the current buffer; when it is saved, report with `saved` and
    /// write the text it returns to the output pane.
    Save,
}

pub ghost enum CommandView {
    Nothing,
    Quit,
    SearchForward,
    SearchBack,
    SearchConfirm,
    SearchCancel,
    SearchInput(Input),
    BufferInput(Input),
    Paste(Seq<Seq<char>>),
    WriteOutput(Seq<char>),
    Save,
}

impl View for EditorCommand {
    type V = CommandView;

    open spec fn view(&self) -> CommandView {
        match self {
            EditorCommand::Nothing => CommandView::Nothing,
            EditorCommand::Quit => CommandView::Quit,
            EditorCommand::SearchForward => CommandView::SearchForward,
            EditorCommand::SearchBack => CommandView::SearchBack,
            EditorCommand::SearchConfirm => CommandView::SearchConfirm,
            EditorCommand::SearchCancel => CommandView::SearchCancel,
            EditorCommand::SearchInput(i) => CommandView::SearchInput(*i),
            EditorCommand::BufferInput(i) => CommandView::BufferInput(*i),
            EditorCommand::Paste(ls) => CommandView::Paste(ls@.map_values(|l: String| l@)),
            EditorCommand::WriteOutput(s) => CommandView::WriteOutput(s@),
            EditorCommand::Save => CommandView::Save,
        }
    }
}

// ---------------------------------------------------------------------------
// Messages
// ---------------------------------------------------------------------------

/// The line shown below the buffer.
#[derive(Clone, Debug, PartialEq, Eq)]
pub enum MessageLine {
    /// A message, shown once.
    Text(String),
    /// How to use the search box.
    SearchHelp,
    /// The keys of the editor.
    EditorHelp,
}

pub open spec fn usage_message() -> Seq<char> {
    "USAGE: cargo run --example editor FILE1 [FILE2...]"@
}

pub open spec fn not_found_message() -> Seq<char> {
    "Pattern not found"@
}

pub open spec fn saved_message() -> Seq<char> {
    "Saved!"@
}

pub open spec fn no_changes_message() -> Seq<char> {
    "No changes to save"@
}

/// The message after switching to the buffer numbered `number` (from one).
pub open spec fn switched_message(number: nat) -> Seq<char> {
    "Switched to buffer #"@ + decimal(number)
}

// ---------------------------------------------------------------------------
// Transitions
// ---------------------------------------------------------------------------

/// The state and command after reading `e` in state `m`.
pub open spec fn model_step(m: EditorModel, e: EventView) -> (EditorModel, CommandView) {
    if m.search_open {
        let i = match e {
            EventView::Paste(_) => null_input(),
            EventView::Input(i) => i,
        };
        match spec_search_key(i) {
            SearchKey::Forward => (m, CommandView::SearchForward),
            SearchKey::Back => (m, CommandView::SearchBack),
            SearchKey::Confirm => (EditorModel { search_open: false, ..m }, CommandView::SearchConfirm),
            SearchKey::Cancel => (EditorModel { search_open: false, ..m }, CommandView::SearchCancel),
            SearchKey::Other => if spec_search_box_accepts(i) {
                (m, CommandView::SearchInput(i))
            } else {
                (m, CommandView::Nothing)
            },
        }
    } else {
        match e {
            EventView::Paste(data) => {
                let ls = lines_of(data);
                (
                    EditorModel {
                        output_modified: true,
                        modified: if ls.len() > 0 { m.modified.update(m.current, true) } else { m.modified },
                        ..m
                    },
                    CommandView::Paste(ls),
                )
            },
            EventView::Input(i) => match spec_editor_key(i) {
                EditorKey::TogglePopup => (EditorModel { show_popup: !m.show_popup, ..m }, CommandView::Nothing),
                EditorKey::Quit => (m, CommandView::Quit),
                EditorKey::SwitchBuffer => {
                    let c = (m.current + 1) % (m.modified.len() as int);
                    (
                        EditorModel { current: c, output_modified: true, ..m },
                        CommandView::WriteOutput(switched_message((c + 1) as nat)),
                    )
                },
                EditorKey::Save => if m.modified[m.current] {
                    (m, CommandView::Save)
                } else {
                    (
                        EditorModel { message: Some(no_changes_message()), output_modified: true, ..m },
                        CommandView::WriteOutput(no_changes_message()),
                    )
                },
                EditorKey::OpenSearch => (EditorModel { search_open: true, ..m }, CommandView::Nothing),
                EditorKey::Other => (m, CommandView::BufferInput(i)),
            },
        }
    }
}

/// After a search forward or backward: an error in the search box title
/// when nothing matched.
pub open spec fn model_search_moved(m: EditorModel, found: bool) -> EditorModel {
    if found {
        m
    } else {
        EditorModel { search_error: Some(not_found_message()), ..m }
    }
}

/// After the search that closes the search box: a message when nothing
/// matched.
pub open spec fn model_search_confirmed(m: EditorModel, found: bool) -> EditorModel {
    if found {
        m
    } else {
        EditorModel { message: Some(not_found_message()), ..m }
    }
}

/// After the search pattern was set: the error of the pattern, if any, in
/// the search box title.
pub open spec fn model_search_pattern_set(m: EditorModel, error: Option<Seq<char>>) -> EditorModel {
    EditorModel { search_error: error, ..m }
}

/// After an input to the current buffer: the buffer is modified if it was or
/// if the input changed it.
pub open spec fn model_buffer_edited(m: EditorModel, changed: bool) -> EditorModel {
    EditorModel { modified: m.modified.update(m.current, m.modified[m.current] || changed), ..m }
}

/// After the current buffer was saved.
pub open spec fn model_saved(m: EditorModel) -> EditorModel {
    EditorModel {
        modified: m.modified.update(m.current, false),
        message: Some(saved_message()),
        output_modified: true,
        ..m
    }
}

/// The state of an editor that has just opened `n` buffers.
pub open spec fn initial_model(n: nat) -> EditorModel {
    EditorModel {
        current: 0,
        modified: Seq::new(n, |i: int| false),
        search_open: false,
        search_error: None,
        show_popup: false,
        message: None,
        output_modified: true,
    }
}

/// After the message was taken to be shown.
pub open spec fn model_message_taken(m: EditorModel) -> EditorModel {
    EditorModel { message: None, ..m }
}

/// After the output pane was drawn.
pub open spec fn model_output_drawn(m: EditorModel) -> EditorModel {
    EditorModel { output_modified: false, ..m }
}

impl EditorState {
    /// The state of an editor of `buffer_count` unmodified buffers, editing
    /// the first; an error when there is no buffer.
    pub fn new(buffer_count: usize) -> (r: Result<EditorState, String>)
        ensures
            buffer_count == 0 ==> (r matches Err(m) && m@ == usage_message()),
            buffer_count > 0 ==> (r matches Ok(s) && s@ == initial_model(buffer_count as nat)),
    {
        if buffer_count == 0 {
            return Err(String::from_str("USAGE: cargo run --example editor FILE1 [FILE2...]"));
        }
        let mut modified: Vec<bool> = Vec::new();
        let mut i: usize = 0;
        while i < buffer_count
            invariant
                i <= buffer_count,
                modified@ == Seq::new(i as nat, |j: int| false),
            decreases buffer_count - i,
        {
            modified.push(false);
            i = i + 1;
            assert(modified@ =~= Seq::new(i as nat, |j: int| false));
        }
        let s = EditorState {
            current: 0,
            modified,
            search_open: false,
            search_error: None,
            show_popup: false,
            message: None,
            output_modified: true,
        };
        assert(s@.modified =~= Seq::new(buffer_count as nat, |i: int| false));
        Ok(s)
    }

    /// The index of the buffer being edited.
    pub fn current(&self) -> (r: usize)
        ensures
            r == self@.current,
    {
        self.current
    }

    /// The number of buffers.
    pub fn buffer_count(&self) -> (r: usize)
        ensures
            r == self@.modified.len(),
    {
        self.modified.len()
    }

    /// Whether buffer `i` has changes that are not saved.
    pub fn is_modified(&self, i: usize) -> (r: bool)
        requires
            i < self@.modified.len(),
        ensures
            r == self@.modified[i as int],
    {
        self.modified[i]
    }

    /// Whether the key bindings are shown.
    pub fn show_popup(&self) -> (r: bool)
        ensures
            r == self@.show_popup,
    {
        self.show_popup
    }

    /// Whether the output pane has changed since it was drawn.
    pub fn output_modified(&self) -> (r: bool)
        ensures
            r == self@.output_modified,
    {
        self.output_modified
    }

    /// The error shown in the search box title, if any.
    pub fn search_error(&self) -> (r: Option<String>)
        ensures
            opt_view(r) == self@.search_error,
    {
        match &self.search_error {
            Some(e) => Some(e.clone()),
            None => None,
        }
    }

    /// The height of the search box: three rows when it is open, else none.
    pub fn search_height(&self) -> (r: u16)
        ensures
            r == (if self@.search_open { 3u16 } else { 0u16 }),
    {
        if self.search_open {
            3
        } else {
            0
        }
    }

    /// Acts on one event: the next state, and the command to carry out.
    pub fn step(&mut self, event: EditorEvent) -> (r: EditorCommand)
        requires
            old(self)@.wf(),
        ensures
            final(self)@.wf(),
            (final(self)@, r@) == model_step(old(self)@, event@),
    {
        let ghost e = event@;
        if self.search_open {
            let i = match event {
                EditorEvent::Paste(_) => Input::null(),
                EditorEvent::Input(i) => i,
            };
            match search_key(&i) {
                SearchKey::Forward => EditorCommand::SearchForward,
                SearchKey::Back => EditorCommand::SearchBack,
                SearchKey::Confirm => {
                    self.search_open = false;
                    EditorCommand::SearchConfirm
                },
                SearchKey::Cancel => {
                    self.search_open = false;
                    EditorCommand::SearchCancel
                },
                SearchKey::Other => {
                    if search_box_accepts(&i) {
                        EditorCommand::SearchInput(i)
                    } else {
                        EditorCommand::Nothing
                    }
                },
            }
        } else {
            match event {
                EditorEvent::Paste(data) => {
                    let lines = split_lines(data.as_str());
                    self.output_modified = true;
                    if lines.len() > 0 {
                        let c = self.current;
                        self.modified.set(c, true);
                    }
                    proof {
                        assert(lines@.len() == lines_of(data@).len());
                    }
                    EditorCommand::Paste(lines)
                },
                EditorEvent::Input(i) => match editor_key(&i) {
                    EditorKey::TogglePopup => {
                        self.show_popup = !self.show_popup;
                        EditorCommand::Nothing
                    },
                    EditorKey::Quit => EditorCommand::Quit,
                    EditorKey::SwitchBuffer => {
                        let n = self.modified.len();
                        self.current = (self.current + 1) % n;
                        let mut msg = String::from_str("Switched to buffer #");
                        append_decimal(&mut msg, self.current + 1);
                        self.output_modified = true;
                        EditorCommand::WriteOutput(msg)
                    },
                    EditorKey::Save => {
                        if self.modified[self.current] {
                            EditorCommand::Save
                        } else {
                            self.message = Some(String::from_str("No changes to save"));
                            self.output_modified = true;
                            EditorCommand::WriteOutput(String::from_str("No changes to save"))
                        }
                    },
                    EditorKey::OpenSearch => {
                        self.search_open = true;
                        EditorCommand::Nothing
                    },
                    EditorKey::Other => EditorCommand::BufferInput(i),
                },
            }
        }
    }

    /// Reports whether a search forward or backward found a match.
    pub fn search_moved(&mut self, found: bool)
        ensures
            final(self)@ == model_search_moved(old(self)@, found),
    {
        if !found {
            self.search_error = Some(String::from_str("Pattern not found"));
        }
    }

    /// Reports whether the search that closed the search box found a match.
    pub fn search_confirmed(&mut self, found: bool)
        ensures
            final(self)@ == model_search_confirmed(old(self)@, found),
    {
        if !found {
            self.message = Some(String::from_str("Pattern not found"));
        }
    }

    /// Reports the error of the new search pattern, if any.
    pub fn search_pattern_set(&mut self, error: Option<String>)
        ensures
            final(self)@ == model_search_pattern_set(old(self)@, opt_view(error)),
    {
        self.search_error = error;
    }

    /// Reports whether an input changed the current buffer.
    pub fn buffer_edited(&mut self, changed: bool)
        requires
            old(self)@.wf(),
        ensures
            final(self)@ == model_buffer_edited(old(self)@, changed),
    {
        let c = self.current;
        let m = self.modified[c] || changed;
        self.modified.set(c, m);
    }

    /// Reports that the current buffer was saved; the text to write to the
    /// output pane.
    pub fn saved(&mut self) -> (r: String)
        requires
            old(self)@.wf(),
        ensures
            final(self)@ == model_saved(old(self)@),
            r@ == saved_message(),
    {
        let c = self.current;
        self.modified.set(c, false);
        self.message = Some(String::from_str("Saved!"));
        self.output_modified = true;
        String::from_str("Saved!")
    }

    /// The line to show below the buffer: the message, which is shown
    /// once, if there is one; else the help of the search box when it is
    /// open; else the help of the editor.
    pub fn message_line(&mut self) -> (r: MessageLine)
        ensures
            final(self)@ == model_message_taken(old(self)@),
            match old(self)@.message {
                Some(m) => r matches MessageLine::Text(t) && t@ == m,
                None => if old(self)@.search_open { r is SearchHelp } else { r is EditorHelp },
            },
    {
        match self.message.take() {
            Some(m) => MessageLine::Text(m),
            None => if self.search_open {
                MessageLine::SearchHelp
            } else {
                MessageLine::EditorHelp
            },
        }
    }

    /// Records that the output pane was drawn.
    pub fn output_drawn(&mut self)
        ensures
            final(self)@ == model_output_drawn(old(self)@),
    {
        self.output_modified = false;
    }

    /// The buffer whose name the help line offers to switch to: the one
    /// that Ctrl+T switches to, which is the current one when there is only
    /// one buffer.
    pub fn other_buffer_index(&self) -> (r: usize)
        requires
            self@.wf(),
        ensures
            r == (self@.current + 1) % (self@.modified.len() as int),
            r < self@.modified.len(),
    {
        let n = self.modified.len();
        (self.current + 1) % n
    }
}

/// The new search pattern after an input to the search box: its first line
/// when the input changed its text, else none.
pub fn search_query(changed: bool, lines: &Vec<String>) -> (r: Option<String>)
    requires
        lines.len() >= 1,
    ensures
        changed ==> (r matches Some(q) && q@ == lines@[0]@),
        !changed ==> r is None,
{
    if changed {
        Some(lines[0].clone())
    } else {
        None
    }
}

// ---------------------------------------------------------------------------
// Status line and titles
// ---------------------------------------------------------------------------

/// The slot of the current buffer among all, such as `[1/2]`.
pub fn slot_label(state: &EditorState) -> (r: String)
    requires
        state@.wf(),
    ensures
        r@ == "["@ + decimal((state@.current + 1) as nat) + "/"@ + decimal(state@.modified.len()) + "]"@,
{
    let c = state.current();
    let n = state.buffer_count();
    let mut r = String::from_str("[");
    append_decimal(&mut r, c + 1);
    r.append("/");
    append_decimal(&mut r, n);
    r.append("]");
    r
}

/// The cursor position counted from one, such as `(1,1)`.
pub fn cursor_label(row: usize, col: usize) -> (r: String)
    requires
        row < usize::MAX,
        col < usize::MAX,
    ensures
        r@ == "("@ + decimal((row + 1) as nat) + ","@ + decimal((col + 1) as nat) + ")"@,
{
    let mut r = String::from_str("(");
    append_decimal(&mut r, row + 1);
    r.append(",");
    append_decimal(&mut r, col + 1);
    r.append(")");
    r
}

/// The path of the buffer, marked when it is modified, between spaces.
pub fn path_label(path: &str, modified: bool) -> (r: String)
    ensures
        r@ == " "@ + path@ + (if modified { " [modified]"@ } else { Seq::<char>::empty() }) + " "@,
{
    let mut r = String::from_str(" ");
    r.append(path);
    if modified {
        r.append(" [modified]");
    }
    r.append(" ");
    proof {
        if !modified {
            assert(" "@ + path@ + Seq::<char>::empty() =~= " "@ + path@);
        }
    }
    r
}

/// The title of the search box: the error after `Search: ` when there is one.
pub fn search_title(error: &Option<String>) -> (r: String)
    ensures
        match error {
            Some(e) => r@ == "Search: "@ + e@,
            None => r@ == "Search"@,
        },
{
    match error {
        Some(e) => {
            let mut r = String::from_str("Search: ");
            r.append(e.as_str());
            r
        },
        None => String::from_str("Search"),
    }
}

/// Whether a text indents with hard tabs: some line starts with a tab.
pub fn hard_tab_indent(lines: &Vec<String>) -> (r: bool)
    ensures
        r == exists|i: int| 0 <= i < lines@.len() && starts_with(#[trigger] lines@[i]@, seq!['\t']),
{
    let tab = "\t";
    proof {
        reveal_strlit("\t");
        assert(tab@ =~= seq!['\t']);
    }
    let mut i: usize = 0;
    while i < lines.len()
        invariant
            i <= lines.len(),
            tab@ == seq!['\t'],
            forall|j: int| 0 <= j < i ==> !starts_with(#[trigger] lines@[j]@, seq!['\t']),
        decreases lines.len() - i,
    {
        if str_starts_with(lines[i].as_str(), tab) {
            return true;
        }
        i = i + 1;
    }
    false
}

// ---------------------------------------------------------------------------
// Laws
// ---------------------------------------------------------------------------

/// Every transition keeps a well-formed state well-formed.
pub proof fn lemma_transitions_keep_wf(m: EditorModel, e: EventView, found: bool, changed: bool, error: Option<Seq<char>>)
    requires
        m.wf(),
    ensures
        model_step(m, e).0.wf(),
        model_search_moved(m, found).wf(),
        model_search_confirmed(m, found).wf(),
        model_search_pattern_set(m, error).wf(),
        model_buffer_edited(m, changed).wf(),
        model_saved(m).wf(),
        model_message_taken(m).wf(),
        model_output_drawn(m).wf(),
{
}

/// The input of a key with Ctrl held.
pub open spec fn ctrl_key(c: char) -> Input {
    Input { key: Key::Char(c), ctrl: true, alt: false, shift: false }
}

/// The state after `k` presses of Ctrl+T with the search box closed.
pub open spec fn switch_times(m: EditorModel, k: nat) -> EditorModel
    decreases k,
{
    if k == 0 {
        m
    } else {
        model_step(switch_times(m, (k - 1) as nat), EventView::Input(ctrl_key('t'))).0
    }
}

proof fn lemma_switch_times(m: EditorModel, k: nat)
    requires
        m.wf(),
        !m.search_open,
    ensures
        switch_times(m, k).current == (m.current + k) % (m.modified.len() as int),
        switch_times(m, k).modified == m.modified,
        !switch_times(m, k).search_open,
        switch_times(m, k).show_popup == m.show_popup,
    decreases k,
{
    let n = m.modified.len() as int;
    if k > 0 {
        lemma_switch_times(m, (k - 1) as nat);
        let prev = switch_times(m, (k - 1) as nat);
        assert(spec_editor_key(ctrl_key('t')) == EditorKey::SwitchBuffer);
        assert((((m.current + (k - 1)) % n) + 1) % n == (m.current + k) % n) by {
            vstd::arithmetic::div_mod::lemma_add_mod_noop(m.current + (k - 1), 1, n);
            if n > 1 {
                vstd::arithmetic::div_mod::lemma_small_mod(1, n as nat);
            }
        }
    } else {
        vstd::arithmetic::div_mod::lemma_small_mod(m.current as nat, m.modified.len());
    }
}

/// Pressing Ctrl+T once for each buffer comes back to the buffer where it
/// started, and every press leaves the modified flags as they were.
pub proof fn lemma_switch_cycles(m: EditorModel)
    requires
        m.wf(),
        !m.search_open,
    ensures
        switch_times(m, m.modified.len()).current == m.current,
        switch_times(m, m.modified.len()).modified == m.modified,
{
    lemma_switch_times(m, m.modified.len());
    let n = m.modified.len() as int;
    vstd::arithmetic::div_mod::lemma_add_mod_noop(m.current, n, n);
    vstd::arithmetic::div_mod::lemma_mod_self_0(n);
    vstd::arithmetic::div_mod::lemma_small_mod(m.current as nat, n as nat);
}

/// Ctrl+Y twice leaves the state as it was.
pub proof fn lemma_popup_toggle_twice(m: EditorModel)
    requires
        !m.search_open,
    ensures
        model_step(model_step(m, EventView::Input(ctrl_key('y'))).0, EventView::Input(ctrl_key('y'))).0 == m,
        model_step(m, EventView::Input(ctrl_key('y'))).1 == CommandView::Nothing,
{
    assert(spec_editor_key(ctrl_key('y')) == EditorKey::TogglePopup);
}

/// Esc in the search box closes it and changes nothing else.
pub proof fn lemma_escape_closes_search(m: EditorModel, shift: bool, ctrl: bool, alt: bool)
    requires
        m.search_open,
    ensures
        model_step(m, EventView::Input(Input { key: Key::Esc, ctrl, alt, shift })).0
            == (EditorModel { search_open: false, ..m }),
        model_step(m, EventView::Input(Input { key: Key::Esc, ctrl, alt, shift })).1 == CommandView::SearchCancel,
{
}

/// Ctrl+Q with the search box closed quits and changes nothing.
pub proof fn lemma_quit_keeps_state(m: EditorModel)
    requires
        !m.search_open,
    ensures
        model_step(m, EventView::Input(ctrl_key('q'))) == (m, CommandView::Quit),
{
    assert(spec_editor_key(ctrl_key('q')) == EditorKey::Quit);
}

/// No step and no report changes whether a buffer other than the current one
/// is modified.
pub proof fn lemma_other_buffers_untouched(
    m: EditorModel,
    e: EventView,
    changed: bool,
    j: int,
)
    requires
        m.wf(),
        0 <= j < m.modified.len(),
        j != m.current,
        j != model_step(m, e).0.current,
    ensures
        model_step(m, e).0.modified[j] == m.modified[j],
        model_buffer_edited(m, changed).modified[j] == m.modified[j],
        model_saved(m).modified[j] == m.modified[j],
{
}

/// Saving makes the current buffer unmodified; a save is asked for only
/// when it is modified, and otherwise the editor answers that there is
/// nothing to save.
pub proof fn lemma_save(m: EditorModel)
    requires
        m.wf(),
        !m.search_open,
    ensures
        !model_saved(m).modified[m.current],
        m.modified[m.current] ==> model_step(m, EventView::Input(ctrl_key('s'))) == (m, CommandView::Save),
        !m.modified[m.current] ==> model_step(m, EventView::Input(ctrl_key('s'))).1
            == CommandView::WriteOutput(no_changes_message()),
{
    assert(spec_editor_key(ctrl_key('s')) == EditorKey::Save);
}

/// The buffer that the help line names is the one that Ctrl+T switches to.
pub proof fn lemma_other_buffer_is_switch_target(m: EditorModel)
    requires
        m.wf(),
        !m.search_open,
    ensures
        model_step(m, EventView::Input(ctrl_key('t'))).0.current == (m.current + 1) % (m.modified.len() as int),
{
    assert(spec_editor_key(ctrl_key('t')) == EditorKey::SwitchBuffer);
}

/// Whether `i` is one of the keys bound while the search box is open:
/// Ctrl+G, Ctrl+N, Down, Alt+G, Ctrl+P, Up, Enter and Esc.
pub open spec fn is_search_binding(i: Input) -> bool {
    ||| i.ctrl && !i.alt && (i.key == Key::Char('g') || i.key == Key::Char('n'))
    ||| !i.ctrl && i.alt && i.key == Key::Char('g')
    ||| i.ctrl && !i.alt && i.key == Key::Char('p')
    ||| i.key == Key::Down
    ||| i.key == Key::Up
    ||| i.key == Key::Enter
    ||| i.key == Key::Esc
}

/// While the search box is open, every input that is not bound to a search
/// key and would not insert a line break (Enter, Ctrl+M) goes to the search
/// box, and the state stays as it is.
pub proof fn lemma_search_box_takes_text(m: EditorModel, i: Input)
    requires
        m.search_open,
        !is_search_binding(i),
        !(i.ctrl && i.key == Key::Char('m')),
    ensures
        model_step(m, EventView::Input(i)) == (m, CommandView::SearchInput(i)),
{
}

/// While the search box is open: Ctrl+G, Ctrl+N and Down search forward,
/// Alt+G, Ctrl+P and Up search backward, all with the state unchanged;
/// Enter confirms and Esc cancels, each closing the search box; Ctrl+M
/// does nothing.
pub proof fn lemma_search_bindings(m: EditorModel, i: Input)
    requires
        m.search_open,
    ensures
        (i.ctrl && !i.alt && (i.key == Key::Char('g') || i.key == Key::Char('n'))) || i.key == Key::Down
            ==> model_step(m, EventView::Input(i)) == (m, CommandView::SearchForward),
        (!i.ctrl && i.alt && i.key == Key::Char('g')) || (i.ctrl && !i.alt && i.key == Key::Char('p'))
            || i.key == Key::Up ==> model_step(m, EventView::Input(i)) == (m, CommandView::SearchBack),
        i.key == Key::Enter ==> model_step(m, EventView::Input(i))
            == (EditorModel { search_open: false, ..m }, CommandView::SearchConfirm),
        i.key == Key::Esc ==> model_step(m, EventView::Input(i))
            == (EditorModel { search_open: false, ..m }, CommandView::SearchCancel),
        i.ctrl && i.key == Key::Char('m') ==> model_step(m, EventView::Input(i)) == (m, CommandView::Nothing),
{
}

/// While the search box is closed, every input other than Ctrl+Y, Ctrl+Q,
/// Ctrl+T, Ctrl+S and Ctrl+G goes to the current buffer, and the state
/// stays as it is.
pub proof fn lemma_buffer_takes_input(m: EditorModel, i: Input)
    requires
        !m.search_open,
        !(i.ctrl && (i.key == Key::Char('y') || i.key == Key::Char('q') || i.key == Key::Char('t')
            || i.key == Key::Char('s') || i.key == Key::Char('g'))),
    ensures
        model_step(m, EventView::Input(i)) == (m, CommandView::BufferInput(i)),
{
}

/// While the search box is closed: Ctrl+Y toggles the key bindings, Ctrl+Q
/// quits, Ctrl+T moves to the next buffer, Ctrl+S saves a modified buffer
/// and reports an unmodified one, and Ctrl+G opens the search box; none of
/// them edits a buffer.
pub proof fn lemma_editor_bindings(m: EditorModel, i: Input)
    requires
        m.wf(),
        !m.search_open,
        i.ctrl,
    ensures
        i.key == Key::Char('y') ==> model_step(m, EventView::Input(i))
            == (EditorModel { show_popup: !m.show_popup, ..m }, CommandView::Nothing),
        i.key == Key::Char('q') ==> model_step(m, EventView::Input(i)) == (m, CommandView::Quit),
        i.key == Key::Char('t') ==> {
            let (m2, c) = model_step(m, EventView::Input(i));
            &&& m2.current == (m.current + 1) % (m.modified.len() as int)
            &&& m2.modified == m.modified
            &&& m2.search_open == m.search_open
            &&& c is WriteOutput
        },
        i.key == Key::Char('s') && m.modified[m.current] ==> model_step(m, EventView::Input(i))
            == (m, CommandView::Save),
        i.key == Key::Char('s') && !m.modified[m.current] ==> {
            let (m2, c) = model_step(m, EventView::Input(i));
            &&& m2.modified == m.modified
            &&& c == CommandView::WriteOutput(no_changes_message())
        },
        i.key == Key::Char('g') ==> model_step(m, EventView::Input(i))
            == (EditorModel { search_open: true, ..m }, CommandView::Nothing),
{
}

} // verus!
