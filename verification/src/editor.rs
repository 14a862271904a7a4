//! The navigator: a cursor, an input mode and a selection over a document,
//! driven by one key at a time.

use vstd::prelude::*;
use vstd::string::{StrSliceExecFns, StringExecFns};
use crate::document::{Document, Tokenizer};
use crate::document::touches;
use crate::highlighting::{HighlightedText, TextMode, Type};
use crate::position::{Position, SearchDirection, VisualMode};
use crate::row::{cell, highlight_sequence, max_of, min_of, reset_sequence, Row};
use crate::terminal::{Key, Size};
use crate::text::{char_is_control, chars_of, is_control, push_char, string_of};
use crate::tokenizer::{lemma_split_tokens, tokenize};

verus! {

/// The message of normal mode.
pub const HELP_STRING: &'static str =
    "HELP: esc = quit | ENTER = copy | / = find | t = change tokenizer | w = whitespace (default) | v = visual mode";

/// The prompt for a new delimiter.
pub const TOKENIZER_STRING: &'static str =
    "Enter text to change the tokenizer (default is whitespace): ";

/// The prompt for a search.
pub const SEARCH_STRING: &'static str = "(ESC to cancel | Arrows to navigate): ";

/// The message while the anchor of a visual selection is placed.
pub const VISUAL_CURSOR_STRING: &'static str = "(v = start highlighting | ESC to cancel)";

/// The message while a visual selection is stretched.
pub const VISUAL_BLOCK_STRING: &'static str = "(ESC to cancel | ENTER to copy )";

/// How the copy went with which the navigator ended.
#[derive(Clone, Debug, Eq, PartialEq)]
pub enum CopyStatus {
    /// This text was copied.
    Success(String),
    /// The clipboard refused the text, for this reason.
    Error(String),
    /// There was nothing to copy.
    Noop,
}

/// Whether the navigator has ended, and how.
#[derive(Clone, Debug, Eq, PartialEq)]
pub enum ShouldQuit {
    No,
    Ye(CopyStatus),
}

/// The mode that decides what a key means.
#[derive(Clone, Copy, Debug, Eq, PartialEq, Structural)]
pub enum InputMode {
    /// The cursor walks over tokens.
    Normal,
    /// A new delimiter is typed.
    Tokenizer,
    /// A query is typed and searched for, in this direction.
    Search(SearchDirection),
    /// A range of characters is selected.
    Visual(VisualMode),
}

impl InputMode {
    /// The name of the mode.
    pub open spec fn label(self) -> Seq<char> {
        match self {
            InputMode::Normal => "Token"@,
            InputMode::Tokenizer => "Tokenizer"@,
            InputMode::Search(_) => "Search"@,
            InputMode::Visual(VisualMode::Cursor) => "Visual (Cursor)"@,
            InputMode::Visual(VisualMode::Block) => "Visual (Block)"@,
        }
    }

    /// The name of the mode as a status line shows it.
    pub fn as_str(&self) -> (s: &'static str)
        ensures
            s@ == self.label(),
    {
        match self {
            InputMode::Normal => "Token",
            InputMode::Tokenizer => "Tokenizer",
            InputMode::Search(_) => "Search",
            InputMode::Visual(VisualMode::Cursor) => "Visual (Cursor)",
            InputMode::Visual(VisualMode::Block) => "Visual (Block)",
        }
    }

    /// Whether the cursor's `x` counts characters in this mode; it counts
    /// tokens in the other modes.
    pub open spec fn counts_chars(self) -> bool {
        self is Search || self is Visual
    }
}

/// The end of the navigator, with texts as sequences of characters.
pub enum Outcome {
    /// The navigator goes on.
    Running,
    /// It ended and copied nothing.
    Nothing,
    /// It ended and copied this text.
    Copied(Seq<char>),
    /// It ended, and the clipboard refused the text for this reason.
    Failed(Seq<char>),
}

/// The end that `quit` stands for.
pub open spec fn outcome_of(quit: ShouldQuit) -> Outcome {
    match quit {
        ShouldQuit::No => Outcome::Running,
        ShouldQuit::Ye(CopyStatus::Noop) => Outcome::Nothing,
        ShouldQuit::Ye(CopyStatus::Success(s)) => Outcome::Copied(s@),
        ShouldQuit::Ye(CopyStatus::Error(s)) => Outcome::Failed(s@),
    }
}

/// The state of the navigator beside its document.
pub struct EditorView {
    pub mode: InputMode,
    pub cursor: Position,
    pub offset: Position,
    pub selection: HighlightedText,
    pub prompt: Seq<char>,
    pub status: Seq<char>,
    pub outcome: Outcome,
    pub size: Size,
}

/// `a + b`, but never more than the largest index.
pub open spec fn sat_add(a: int, b: int) -> int {
    min_of(a + b, usize::MAX as int)
}

/// `a - b`, but never less than 0.
pub open spec fn sat_sub(a: int, b: int) -> int {
    max_of(a - b, 0)
}

/// Where a window of `extent` cells that began at `offset` begins once it
/// has followed the cursor to `at`: at the cursor where the cursor stood
/// before the window, so far on that the cursor is its last cell where the
/// cursor stood behind it, and where it was otherwise.
pub open spec fn scrolled(offset: int, at: int, extent: int) -> int {
    if at < offset {
        at
    } else if at >= sat_add(offset, extent) {
        sat_add(sat_sub(at, extent), 1)
    } else {
        offset
    }
}

/// The offset of the screen once it has followed the cursor.
pub open spec fn scrolled_offset(v: EditorView) -> Position {
    Position {
        x: scrolled(v.offset.x as int, v.cursor.x as int, v.size.width as int) as usize,
        y: scrolled(v.offset.y as int, v.cursor.y as int, v.size.height as int) as usize,
    }
}

/// Whether `key` moves the cursor in normal and in visual mode.
pub open spec fn is_movement(key: Key) -> bool {
    ||| key is Up
    ||| key is Down
    ||| key is Left
    ||| key is Right
    ||| key is PageUp
    ||| key is PageDown
    ||| key is Home
    ||| key is End
    ||| key == Key::Char('$')
    ||| key == Key::Char('^')
}

/// The row of the cursor after `key`, in a document whose last row is
/// `last`, on a screen of `page` rows: one row up or down, and from the
/// first row up to the last and from the last down to the first; or a page
/// up or down, as far as the document goes.
pub open spec fn moved_y(y: int, key: Key, last: int, page: int) -> int {
    match key {
        Key::Up => if y == 0 {
            last
        } else {
            y - 1
        },
        Key::Down => if y < last {
            y + 1
        } else {
            0
        },
        Key::PageUp => if y > page {
            y - page
        } else {
            0
        },
        Key::PageDown => if sat_add(y, page) < last {
            y + page
        } else {
            last
        },
        _ => y,
    }
}

/// The `x` of the cursor after `key`, in a row whose largest `x` is
/// `width`: one step left or right, and from the first place left to the
/// last and from the last right to the first; or straight to the first or
/// the last place.
pub open spec fn moved_x(x: int, key: Key, width: int) -> int {
    match key {
        Key::Left => if x > 0 {
            x - 1
        } else {
            width
        },
        Key::Right => if x < width {
            x + 1
        } else {
            0
        },
        Key::Home => 0,
        Key::End => width,
        Key::Char(c) => if c == '$' {
            width
        } else if c == '^' {
            0
        } else {
            x
        },
        _ => x,
    }
}

/// The cursor after `key`: `moved_y` in the document, `moved_x` in the row
/// that the cursor leaves, and then no further right than the row that it
/// enters allows. The kind of the selection says how `x` counts.
pub open spec fn moved(doc: Document, v: EditorView, key: Key) -> Position {
    let y = moved_y(v.cursor.y as int, key, doc.rows().len() - 1, v.size.height as int);
    let x = moved_x(
        v.cursor.x as int,
        key,
        doc.rows()[v.cursor.y as int].max_x(v.selection.mode),
    );
    Position { x: min_of(x, doc.rows()[y].max_x(v.selection.mode)) as usize, y: y as usize }
}

/// The cursor with its `x` turned from a token index into a character
/// index.
pub open spec fn char_cursor(doc: Document, cursor: Position) -> Position {
    Position { x: doc.rows()[cursor.y as int].char_x(cursor.x as int) as usize, y: cursor.y }
}

/// `after` is `before` with its `x` turned from a character index into a
/// token index.
pub open spec fn is_token_cursor(doc: Document, before: Position, after: Position) -> bool {
    &&& after.y == before.y
    &&& doc.rows()[before.y as int].is_token_x(before.x as int, after.x as int)
}

/// The cursor, no further right than the last token of its row.
pub open spec fn clamped_cursor(doc: Document, cursor: Position) -> Position {
    Position {
        x: min_of(cursor.x as int, doc.rows()[cursor.y as int].max_x(TextMode::Token)) as usize,
        y: cursor.y,
    }
}

/// `prompt` without its last character.
pub open spec fn erased(prompt: Seq<char>) -> Seq<char> {
    if prompt.len() > 0 {
        prompt.drop_last()
    } else {
        prompt
    }
}

/// `prompt` with `c` typed: a control character is not taken.
pub open spec fn typed(prompt: Seq<char>, c: char) -> Seq<char> {
    if is_control(c) {
        prompt
    } else {
        prompt.push(c)
    }
}

/// `after` holds the lines of `before`, split by `rule`.
pub open spec fn retokenized(before: Document, after: Document, rule: Tokenizer) -> bool {
    &&& after.rows().len() == before.rows().len()
    &&& after.rule() == rule
    &&& after.last_column() == before.last_column()
    &&& forall|y: int|
        0 <= y < before.rows().len() ==> {
            &&& (#[trigger] after.rows()[y]).text() == before.rows()[y].text()
            &&& after.rows()[y].content_len() == before.rows()[y].content_len()
            &&& after.rows()[y].token_seq() == tokenize(before.rows()[y].text(), rule)
        }
}

/// The state after the selection was committed: the navigator has ended,
/// and has copied the text under the selection if there is any.
pub open spec fn committed(doc: Document, v: EditorView) -> EditorView {
    let text = doc.extract(v.selection);
    EditorView {
        outcome: if text.len() == 0 {
            Outcome::Nothing
        } else {
            Outcome::Copied(text)
        },
        ..v
    }
}

/// The state after search mode was entered: the cursor counts characters,
/// the query is empty and nothing is matched yet.
pub open spec fn search_entered(doc: Document, v: EditorView) -> EditorView {
    let cursor = if v.mode is Normal {
        char_cursor(doc, v.cursor)
    } else {
        v.cursor
    };
    EditorView {
        mode: InputMode::Search(SearchDirection::Forward),
        cursor,
        selection: HighlightedText { position: cursor, mode: TextMode::Search(None) },
        prompt: Seq::empty(),
        status: SEARCH_STRING@,
        ..v
    }
}

/// The state after `v` was pressed: the second stage of a visual selection
/// where the first was on, and else its first stage, with the anchor at the
/// cursor, which counts characters.
pub open spec fn visual_entered(doc: Document, v: EditorView) -> EditorView {
    if v.mode == InputMode::Visual(VisualMode::Cursor) {
        EditorView {
            mode: InputMode::Visual(VisualMode::Block),
            prompt: Seq::empty(),
            status: VISUAL_BLOCK_STRING@,
            ..v
        }
    } else {
        let cursor = if v.mode is Normal {
            char_cursor(doc, v.cursor)
        } else {
            v.cursor
        };
        EditorView {
            mode: InputMode::Visual(VisualMode::Cursor),
            cursor,
            selection: HighlightedText { position: cursor, mode: TextMode::Visual(cursor) },
            prompt: Seq::empty(),
            status: VISUAL_CURSOR_STRING@,
            ..v
        }
    }
}

/// `after` is the state in which a new delimiter is typed, entered from
/// `before`: the cursor counts tokens and the prompt is empty.
pub open spec fn tokenizer_entered(doc: Document, before: EditorView, after: EditorView) -> bool {
    &&& if before.mode.counts_chars() {
        is_token_cursor(doc, before.cursor, after.cursor)
    } else {
        after.cursor == before.cursor
    }
    &&& after == (EditorView {
        mode: InputMode::Tokenizer,
        cursor: after.cursor,
        selection: HighlightedText { position: after.cursor, mode: TextMode::Token },
        prompt: Seq::empty(),
        status: TOKENIZER_STRING@,
        ..before
    })
}

/// `after` is normal mode, entered from `before`: the cursor counts tokens
/// and stands on a token of its row if the row has one, the prompt is
/// empty, and the token under the cursor is selected.
pub open spec fn normal_entered(doc: Document, before: EditorView, after: EditorView) -> bool {
    &&& if before.mode.counts_chars() {
        is_token_cursor(doc, before.cursor, after.cursor)
    } else {
        after.cursor == clamped_cursor(doc, before.cursor)
    }
    &&& after == (EditorView {
        mode: InputMode::Normal,
        cursor: after.cursor,
        selection: HighlightedText { position: after.cursor, mode: TextMode::Token },
        prompt: Seq::empty(),
        status: HELP_STRING@,
        ..before
    })
}

/// The state with the cursor at `cursor` and the selection moved along: in
/// normal mode the token at the cursor, in visual mode the range from the
/// anchor, which stays, to the cursor.
pub open spec fn cursor_set(v: EditorView, cursor: Position) -> EditorView {
    EditorView {
        cursor,
        selection: HighlightedText {
            position: cursor,
            mode: if v.mode is Normal {
                TextMode::Token
            } else {
                v.selection.mode
            },
        },
        ..v
    }
}

/// The state with the screen moved after the cursor.
pub open spec fn screen_moved(v: EditorView) -> EditorView {
    EditorView { offset: scrolled_offset(v), ..v }
}

/// What `key` makes of the state `v` over the document `doc`, in normal
/// mode and in visual mode, where `after` and `doc_after` are what it makes.
pub open spec fn normal_step(
    doc: Document,
    v: EditorView,
    key: Key,
    doc_after: Document,
    after: EditorView,
) -> bool {
    if key == Key::Char('w') {
        &&& retokenized(doc, doc_after, Tokenizer::Whitespace)
        &&& after == screen_moved(v)
    } else {
        &&& doc_after.same_text(doc)
        &&& if key is Esc {
            if v.mode is Visual {
                let entered = EditorView { offset: v.offset, ..after };
                normal_entered(doc, v, entered) && after == screen_moved(entered)
            } else {
                after == screen_moved(EditorView { outcome: Outcome::Nothing, ..v })
            }
        } else if key == Key::Char('/') {
            after == search_entered(doc, v)
        } else if key == Key::Char('\r') || key == Key::Char('\n') {
            after == screen_moved(committed(doc, v))
        } else if key == Key::Char('t') {
            let entered = EditorView { offset: v.offset, ..after };
            tokenizer_entered(doc, v, entered) && after == screen_moved(entered)
        } else if key == Key::Char('v') {
            after == visual_entered(doc, v)
        } else if is_movement(key) {
            after == screen_moved(cursor_set(v, moved(doc, v, key)))
        } else {
            after == screen_moved(v)
        }
    }
}

/// What `key` makes of the state `v` while a new delimiter is typed.
pub open spec fn tokenizer_step(
    doc: Document,
    v: EditorView,
    key: Key,
    doc_after: Document,
    after: EditorView,
) -> bool {
    if key == Key::Char('\n') {
        &&& doc_after.rule() matches Tokenizer::String(s)
        &&& s@ == v.prompt
        &&& retokenized(doc, doc_after, doc_after.rule())
        &&& normal_entered(doc_after, v, after)
    } else {
        &&& doc_after.same_text(doc)
        &&& match key {
            Key::Backspace => after == (EditorView {
                prompt: erased(v.prompt),
                status: TOKENIZER_STRING@ + erased(v.prompt),
                ..v
            }),
            Key::Char(c) => after == (EditorView {
                prompt: typed(v.prompt, c),
                status: TOKENIZER_STRING@ + typed(v.prompt, c),
                ..v
            }),
            Key::Esc => normal_entered(doc, v, after),
            _ => after == v,
        }
    }
}

/// The state in which the query of `v` is searched for after `key` was
/// taken in: the key has changed the query, or has turned the search and
/// moved the cursor one step in the new direction.
pub open spec fn search_prepared(doc: Document, v: EditorView, key: Key) -> EditorView {
    match key {
        Key::Backspace => EditorView { prompt: erased(v.prompt), ..v },
        Key::Right | Key::Down => EditorView {
            mode: InputMode::Search(SearchDirection::Forward),
            cursor: moved(doc, v, Key::Right),
            ..v
        },
        Key::Left | Key::Up => EditorView {
            mode: InputMode::Search(SearchDirection::Backward),
            cursor: moved(doc, v, Key::Left),
            ..v
        },
        Key::Char(c) => EditorView { prompt: typed(v.prompt, c), ..v },
        _ => v,
    }
}

/// `after` is what the search for the query of `v` makes of `v`: on a match
/// the cursor stands on it, the screen has followed, and the selection is
/// the match in the length of the query; else the cursor stays and the
/// selection is empty.
pub open spec fn searched(doc: Document, v: EditorView, after: EditorView) -> bool {
    let direction = v.mode->Search_0;
    &&& after.selection.position == after.cursor
    &&& match after.selection.mode {
        TextMode::Search(Some(len)) => {
            &&& len == v.prompt.len()
            &&& doc.search_gives(v.prompt, v.cursor, direction, Some(after.cursor))
            &&& after.offset == scrolled_offset(EditorView { cursor: after.cursor, ..v })
        },
        TextMode::Search(None) => {
            &&& doc.search_gives(v.prompt, v.cursor, direction, None)
            &&& after.cursor == v.cursor
            &&& after.offset == v.offset
        },
        _ => false,
    }
    &&& after == (EditorView {
        cursor: after.cursor,
        offset: after.offset,
        selection: after.selection,
        status: SEARCH_STRING@ + v.prompt,
        ..v
    })
}

/// What `key` makes of the state `v` in search mode.
pub open spec fn search_step(
    doc: Document,
    v: EditorView,
    key: Key,
    doc_after: Document,
    after: EditorView,
) -> bool {
    &&& doc_after.same_text(doc)
    &&& if key == Key::Char('\n') {
        after == committed(doc, v)
    } else if key is Esc {
        normal_entered(doc, v, after)
    } else {
        searched(doc, search_prepared(doc, v, key), after)
    }
}

/// What `key` makes of the state `v` over the document `doc`.
pub open spec fn step(
    doc: Document,
    v: EditorView,
    key: Key,
    doc_after: Document,
    after: EditorView,
) -> bool {
    match v.mode {
        InputMode::Normal | InputMode::Visual(_) => normal_step(doc, v, key, doc_after, after),
        InputMode::Tokenizer => tokenizer_step(doc, v, key, doc_after, after),
        InputMode::Search(_) => search_step(doc, v, key, doc_after, after),
    }
}

/// Enter at the prompt for a delimiter splits the document by what was
/// typed and leads back to normal mode: the cursor keeps its row, stands on
/// the token with its old index where the row still has one and on the
/// row's last token otherwise, and that token is selected.
pub proof fn lemma_delimiter_entered(
    doc: Document,
    v: EditorView,
    doc_after: Document,
    after: EditorView,
)
    requires
        doc_after.wf(),
        v.mode is Tokenizer,
        v.cursor.y < doc.rows().len(),
        step(doc, v, Key::Char('\n'), doc_after, after),
    ensures
        doc_after.rule() matches Tokenizer::String(s) && s@ == v.prompt,
        after.mode is Normal,
        after.selection == (HighlightedText { position: after.cursor, mode: TextMode::Token }),
        after.cursor.y == v.cursor.y,
        after.cursor.x < doc_after.rows()[v.cursor.y as int].token_seq().len(),
        after.cursor.x == min_of(
            v.cursor.x as int,
            doc_after.rows()[v.cursor.y as int].token_seq().len() - 1,
        ),
{
    doc_after.lemma_wf();
    let row = doc_after.rows()[v.cursor.y as int];
    match doc_after.rule() {
        Tokenizer::String(s) => {
            lemma_split_tokens(row.text(), s@);
        },
        Tokenizer::Whitespace => {},
    }
}

/// The navigator over one document.
#[derive(Debug)]
pub struct Editor {
    should_quit: ShouldQuit,
    size: Size,
    cursor_position: Position,
    offset: Position,
    document: Document,
    status_message: String,
    highlighted_text: HighlightedText,
    input_mode: InputMode,
    prompt_input: String,
}

impl View for Editor {
    type V = EditorView;

    closed spec fn view(&self) -> EditorView {
        EditorView {
            mode: self.input_mode,
            cursor: self.cursor_position,
            offset: self.offset,
            selection: self.highlighted_text,
            prompt: self.prompt_input@,
            status: self.status_message@,
            outcome: outcome_of(self.should_quit),
            size: self.size,
        }
    }
}

impl Editor {
    /// The document.
    pub closed spec fn doc(self) -> Document {
        self.document
    }

    /// The document is consistent and has a row under the cursor.
    spec fn grounded(self) -> bool {
        &&& self.document.wf()
        &&& self.document.rows().len() > 0
        &&& self.cursor_position.y < self.document.rows().len()
    }

    /// The selection is of the kind that the mode asks for, ends at the
    /// cursor, and lies in rows that the document has.
    pub open spec fn selection_fits(doc: Document, v: EditorView) -> bool {
        &&& v.selection.position == v.cursor
        &&& doc.holds(v.selection)
        &&& match v.mode {
            InputMode::Normal | InputMode::Tokenizer => v.selection.mode is Token,
            InputMode::Search(_) => v.selection.mode is Search,
            InputMode::Visual(_) => v.selection.mode is Visual,
        }
    }

    /// The navigator is consistent: it is grounded, its selection fits its
    /// mode, and the masks of the document show that selection and nothing
    /// else.
    pub closed spec fn wf(self) -> bool {
        &&& self.grounded()
        &&& Self::selection_fits(self.document, self@)
        &&& self.document.shows(self.highlighted_text)
    }

    /// What `wf` says of the views.
    pub proof fn lemma_wf(self)
        requires
            self.wf(),
        ensures
            self.doc().wf(),
            self.doc().rows().len() > 0,
            self@.cursor.y < self.doc().rows().len(),
            Self::selection_fits(self.doc(), self@),
            self.doc().shows(self@.selection),
    {
    }

    /// At any time one selection is shown and nothing else: a cell of the
    /// document is highlighted if and only if the navigator's selection
    /// reaches into its row and covers it there.
    pub proof fn lemma_one_region(self, y: int, i: int)
        requires
            self.wf(),
            0 <= y < self.doc().rows().len(),
        ensures
            cell(self.doc().rows()[y].mask(), i) == Type::Highlighted <==> {
                &&& touches(self@.selection, y)
                &&& 0 <= i < self.doc().rows()[y].text().len()
                &&& self.doc().rows()[y].selection_span(self@.selection).0 <= i
                    < self.doc().rows()[y].selection_span(self@.selection).1
            },
    {
        self.document.lemma_shown_region(self.highlighted_text, y, i);
    }

    /// A navigator over `document`, on a screen of size `size`: in normal
    /// mode, with the cursor on the first token of the first row.
    pub fn new(document: Document, size: Size) -> (editor: Editor)
        requires
            document.wf(),
            document.rows().len() > 0,
        ensures
            editor.wf(),
            editor.doc().same_text(document),
            editor@ == (EditorView {
                mode: InputMode::Normal,
                cursor: Position { x: 0, y: 0 },
                offset: Position { x: 0, y: 0 },
                selection: HighlightedText {
                    position: Position { x: 0, y: 0 },
                    mode: TextMode::Token,
                },
                prompt: Seq::empty(),
                status: HELP_STRING@,
                outcome: Outcome::Running,
                size,
            }),
    {
        let start = Position { x: 0, y: 0 };
        let mut editor = Editor {
            should_quit: ShouldQuit::No,
            size,
            cursor_position: start,
            offset: start,
            document,
            status_message: String::from_str(HELP_STRING),
            highlighted_text: HighlightedText::new_token(start),
            input_mode: InputMode::Normal,
            prompt_input: String::new(),
        };
        editor.refresh();
        editor
    }

    /// Whether the navigator has ended, and how.
    pub fn should_quit(&self) -> (q: &ShouldQuit)
        ensures
            outcome_of(*q) == self@.outcome,
    {
        &self.should_quit
    }

    /// The cursor.
    pub fn cursor_position(&self) -> (p: Position)
        ensures
            p == self@.cursor,
            self.wf() ==> p.y < self.doc().rows().len(),
    {
        self.cursor_position
    }

    /// The row and the column that the screen begins with.
    pub fn offset(&self) -> (p: Position)
        ensures
            p == self@.offset,
    {
        self.offset
    }

    /// The input mode.
    pub fn input_mode(&self) -> (m: InputMode)
        ensures
            m == self@.mode,
    {
        self.input_mode
    }

    /// The selection.
    pub fn highlighted_text(&self) -> (h: HighlightedText)
        ensures
            h == self@.selection,
            self.wf() ==> self.doc().holds(h) && self.doc().shows(h),
    {
        self.highlighted_text
    }

    /// The message for the message bar.
    pub fn status_message(&self) -> (s: &str)
        ensures
            s@ == self@.status,
    {
        self.status_message.as_str()
    }

    /// What has been typed into the prompt.
    pub fn prompt_input(&self) -> (s: &str)
        ensures
            s@ == self@.prompt,
    {
        self.prompt_input.as_str()
    }

    /// The size of the screen.
    pub fn size(&self) -> (s: Size)
        ensures
            s == self@.size,
    {
        self.size
    }

    /// The document.
    pub fn document(&self) -> (d: &Document)
        ensures
            *d == self.doc(),
            self.wf() ==> d.wf() && d.rows().len() > 0,
    {
        &self.document
    }

    /// Shows the selection in the masks of the document.
    fn refresh(&mut self)
        requires
            old(self).document.wf(),
        ensures
            final(self).document.wf(),
            final(self).document.same_text(old(self).document),
            final(self).document.shows(old(self).highlighted_text),
            final(self)@ == old(self)@,
    {
        let selection = self.highlighted_text;
        self.document.highlight(&selection);
    }

    /// Moves the screen after the cursor.
    fn scroll(&mut self)
        ensures
            final(self).document == old(self).document,
            final(self)@ == screen_moved(old(self)@),
    {
        let x: usize = self.cursor_position.x;
        let y: usize = self.cursor_position.y;
        let width: usize = self.size.width as usize;
        let height: usize = self.size.height as usize;
        if y < self.offset.y {
            self.offset.y = y;
        } else if y >= self.offset.y.saturating_add(height) {
            self.offset.y = y.saturating_sub(height).saturating_add(1);
        }
        if x < self.offset.x {
            self.offset.x = x;
        } else if x >= self.offset.x.saturating_add(width) {
            self.offset.x = x.saturating_sub(width).saturating_add(1);
        }
    }

    /// Moves the cursor as `key` says. Other keys than those that move the
    /// cursor leave it where it is, but no further right than its row
    /// allows.
    fn move_cursor(&mut self, key: Key)
        requires
            old(self).grounded(),
        ensures
            final(self).grounded(),
            final(self).document == old(self).document,
            final(self)@ == (EditorView { cursor: moved(old(self).document, old(self)@, key), ..old(self)@ }),
    {
        let page: usize = self.size.height as usize;
        let mut x: usize = self.cursor_position.x;
        let mut y: usize = self.cursor_position.y;
        let last: usize = self.document.len() - 1;
        let mode = self.highlighted_text.mode;
        let width: usize = self.document.row(y).len(mode);
        match key {
            Key::Up => {
                if y == 0 {
                    y = last;
                } else {
                    y = y - 1;
                }
            },
            Key::Down => {
                if y < last {
                    y = y + 1;
                } else {
                    y = 0;
                }
            },
            Key::Left => {
                if x > 0 {
                    x = x - 1;
                } else {
                    x = width;
                }
            },
            Key::Right => {
                if x < width {
                    x = x + 1;
                } else {
                    x = 0;
                }
            },
            Key::PageUp => {
                y = if y > page {
                    y - page
                } else {
                    0
                };
            },
            Key::PageDown => {
                y = if y.saturating_add(page) < last {
                    y + page
                } else {
                    last
                };
            },
            Key::Home => {
                x = 0;
            },
            Key::End => {
                x = width;
            },
            Key::Char(c) => {
                if c == '$' {
                    x = width;
                } else if c == '^' {
                    x = 0;
                }
            },
            _ => {},
        }
        let limit: usize = self.document.row(y).len(mode);
        if x > limit {
            x = limit;
        }
        self.cursor_position = Position { x, y };
    }

    /// Turns the cursor's `x` from a character index into a token index.
    fn token_cursor(&mut self)
        requires
            old(self).grounded(),
        ensures
            final(self).grounded(),
            final(self).document == old(self).document,
            is_token_cursor(old(self).document, old(self)@.cursor, final(self)@.cursor),
            final(self)@ == (EditorView { cursor: final(self)@.cursor, ..old(self)@ }),
    {
        let x: usize = self.cursor_position.x;
        let y: usize = self.cursor_position.y;
        let token_x = self.document.row(y).char_to_token(x);
        self.cursor_position = Position { x: token_x, y };
    }

    /// Turns the cursor's `x` from a token index into a character index.
    fn normal_cursor(&mut self)
        requires
            old(self).grounded(),
        ensures
            final(self).grounded(),
            final(self).document == old(self).document,
            final(self)@ == (EditorView {
                cursor: char_cursor(old(self).document, old(self)@.cursor),
                ..old(self)@
            }),
    {
        let x: usize = self.cursor_position.x;
        let y: usize = self.cursor_position.y;
        let char_x = self.document.row(y).token_to_char(x);
        self.cursor_position = Position { x: char_x, y };
    }

    /// Enters normal mode.
    fn normal_mode(&mut self)
        requires
            old(self).grounded(),
        ensures
            final(self).grounded(),
            final(self).document == old(self).document,
            normal_entered(old(self).document, old(self)@, final(self)@),
    {
        match self.input_mode {
            InputMode::Search(_) | InputMode::Visual(_) => {
                self.token_cursor();
            },
            _ => {
                let y: usize = self.cursor_position.y;
                let limit: usize = self.document.row(y).len(TextMode::Token);
                if self.cursor_position.x > limit {
                    self.cursor_position = Position { x: limit, y };
                }
            },
        }
        self.input_mode = InputMode::Normal;
        self.prompt_input = String::new();
        self.highlighted_text = HighlightedText::new_token(self.cursor_position);
        self.status_message = String::from_str(HELP_STRING);
    }

    /// Enters the mode in which a new delimiter is typed.
    fn token_mode(&mut self)
        requires
            old(self).grounded(),
        ensures
            final(self).grounded(),
            final(self).document == old(self).document,
            tokenizer_entered(old(self).document, old(self)@, final(self)@),
    {
        match self.input_mode {
            InputMode::Search(_) | InputMode::Visual(_) => {
                self.token_cursor();
            },
            _ => {},
        }
        self.input_mode = InputMode::Tokenizer;
        self.prompt_input = String::new();
        self.highlighted_text = HighlightedText::new_token(self.cursor_position);
        self.status_message = String::from_str(TOKENIZER_STRING);
    }

    /// Enters search mode.
    fn search_mode(&mut self)
        requires
            old(self).grounded(),
        ensures
            final(self).grounded(),
            final(self).document == old(self).document,
            final(self)@ == search_entered(old(self).document, old(self)@),
    {
        match self.input_mode {
            InputMode::Normal => {
                self.normal_cursor();
            },
            _ => {},
        }
        self.input_mode = InputMode::Search(SearchDirection::Forward);
        self.prompt_input = String::new();
        self.highlighted_text = HighlightedText::new_search(self.cursor_position, None);
        self.status_message = String::from_str(SEARCH_STRING);
    }

    /// Enters visual mode, or its second stage from its first.
    fn visual_mode(&mut self)
        requires
            old(self).grounded(),
        ensures
            final(self).grounded(),
            final(self).document == old(self).document,
            final(self)@ == visual_entered(old(self).document, old(self)@),
    {
        self.prompt_input = String::new();
        match self.input_mode {
            InputMode::Visual(VisualMode::Cursor) => {
                self.input_mode = InputMode::Visual(VisualMode::Block);
                self.status_message = String::from_str(VISUAL_BLOCK_STRING);
            },
            _ => {
                match self.input_mode {
                    InputMode::Normal => {
                        self.normal_cursor();
                    },
                    _ => {},
                }
                self.input_mode = InputMode::Visual(VisualMode::Cursor);
                self.highlighted_text = HighlightedText::new_visual(self.cursor_position);
                self.status_message = String::from_str(VISUAL_CURSOR_STRING);
            },
        }
    }

    /// Ends the navigator with the text under the selection, or with
    /// nothing where there is no such text.
    fn copy_and_exit(&mut self)
        requires
            old(self).grounded(),
            old(self).document.holds(old(self).highlighted_text),
        ensures
            final(self).grounded(),
            final(self).document == old(self).document,
            final(self)@ == committed(old(self).document, old(self)@),
    {
        let text = self.document.get_text(&self.highlighted_text);
        if text.as_str().is_empty() {
            self.should_quit = ShouldQuit::Ye(CopyStatus::Noop);
        } else {
            self.should_quit = ShouldQuit::Ye(CopyStatus::Success(text));
        }
    }

    /// Handles a key while a new delimiter is typed.
    fn process_keypress_tokenizer(&mut self, key: Key)
        requires
            old(self).wf(),
            old(self).input_mode is Tokenizer,
        ensures
            final(self).wf(),
            tokenizer_step(old(self).document, old(self)@, key, final(self).document, final(self)@),
    {
        match key {
            Key::Backspace => {
                self.erase();
                self.status_message = String::from_str(TOKENIZER_STRING).concat(
                    self.prompt_input.as_str(),
                );
            },
            Key::Char(c) => {
                if c == '\n' {
                    let rule = Tokenizer::String(self.prompt_input.clone());
                    self.document.update_tokenizer(rule);
                    self.normal_mode();
                    self.refresh();
                } else {
                    self.type_char(c);
                    self.status_message = String::from_str(TOKENIZER_STRING).concat(
                        self.prompt_input.as_str(),
                    );
                }
            },
            Key::Esc => {
                self.normal_mode();
                self.refresh();
            },
            _ => {},
        }
    }

    /// Handles a key in search mode.
    fn process_keypress_search(&mut self, key: Key)
        requires
            old(self).wf(),
            old(self).input_mode is Search,
        ensures
            final(self).wf(),
            search_step(old(self).document, old(self)@, key, final(self).document, final(self)@),
    {
        match key {
            Key::Backspace => {
                self.erase();
            },
            Key::Right | Key::Down => {
                self.input_mode = InputMode::Search(SearchDirection::Forward);
                self.move_cursor(Key::Right);
            },
            Key::Left | Key::Up => {
                self.input_mode = InputMode::Search(SearchDirection::Backward);
                self.move_cursor(Key::Left);
            },
            Key::Char(c) => {
                if c == '\n' {
                    self.copy_and_exit();
                    return ;
                }
                self.type_char(c);
            },
            Key::Esc => {
                self.normal_mode();
                self.refresh();
                return ;
            },
            _ => {},
        }
        self.status_message = String::from_str(SEARCH_STRING).concat(self.prompt_input.as_str());
        let direction = match self.input_mode {
            InputMode::Search(direction) => direction,
            _ => SearchDirection::Forward,
        };
        let found = self.document.find(
            self.prompt_input.as_str(),
            &self.cursor_position,
            direction,
        );
        let len = match found {
            Some(position) => {
                self.cursor_position = position;
                self.scroll();
                Some(self.prompt_input.as_str().unicode_len())
            },
            None => None,
        };
        self.highlighted_text = HighlightedText::new_search(self.cursor_position, len);
        self.refresh();
    }

    /// Handles a key in normal mode and in visual mode.
    fn process_keypress_normal(&mut self, key: Key)
        requires
            old(self).wf(),
            old(self).input_mode is Normal || old(self).input_mode is Visual,
        ensures
            final(self).wf(),
            normal_step(old(self).document, old(self)@, key, final(self).document, final(self)@),
    {
        match key {
            Key::Esc => {
                match self.input_mode {
                    InputMode::Visual(_) => {
                        self.normal_mode();
                    },
                    _ => {
                        self.should_quit = ShouldQuit::Ye(CopyStatus::Noop);
                    },
                }
            },
            Key::Char(c) => {
                if c == '/' {
                    self.search_mode();
                    self.refresh();
                    return ;
                } else if c == '\r' || c == '\n' {
                    self.copy_and_exit();
                } else if c == 't' {
                    self.token_mode();
                } else if c == 'v' {
                    self.visual_mode();
                    self.refresh();
                    return ;
                } else if c == 'w' {
                    self.document.update_tokenizer(Tokenizer::Whitespace);
                } else if c == '$' || c == '^' {
                    self.move_cursor(key);
                }
            },
            Key::Up
            | Key::Down
            | Key::Left
            | Key::Right
            | Key::PageUp
            | Key::PageDown
            | Key::End
            | Key::Home => {
                self.move_cursor(key);
            },
            _ => {},
        }
        self.scroll();
        match self.input_mode {
            InputMode::Normal => {
                self.highlighted_text = HighlightedText::new_token(self.cursor_position);
            },
            InputMode::Visual(_) => {
                self.highlighted_text.update_position(self.cursor_position);
            },
            _ => {},
        }
        self.refresh();
    }

    /// Takes one key: what it does depends on the input mode. See `step`.
    pub fn process_keypress(&mut self, key: Key)
        requires
            old(self).wf(),
        ensures
            final(self).wf(),
            step(old(self).doc(), old(self)@, key, final(self).doc(), final(self)@),
    {
        match self.input_mode {
            InputMode::Normal | InputMode::Visual(_) => {
                self.process_keypress_normal(key);
            },
            InputMode::Tokenizer => {
                self.process_keypress_tokenizer(key);
            },
            InputMode::Search(_) => {
                self.process_keypress_search(key);
            },
        }
    }

    /// Records that the clipboard refused the text that the navigator ended
    /// with, for the reason `reason`. A navigator that did not end with a
    /// copy stays as it is.
    pub fn copy_failed(&mut self, reason: String)
        requires
            old(self).wf(),
        ensures
            final(self).wf(),
            final(self).doc() == old(self).doc(),
            final(self)@ == (EditorView {
                outcome: if old(self)@.outcome is Copied {
                    Outcome::Failed(reason@)
                } else {
                    old(self)@.outcome
                },
                ..old(self)@
            }),
    {
        let copied = match &self.should_quit {
            ShouldQuit::Ye(CopyStatus::Success(_)) => true,
            _ => false,
        };
        if copied {
            self.should_quit = ShouldQuit::Ye(CopyStatus::Error(reason));
        }
    }

    /// `line` is the row `row` as the screen of `v` shows it: the columns
    /// from the screen's first on, as many as the screen is wide, drawn with
    /// the terminal's sequences for the highlighting, or without a sequence
    /// for its start where the terminal shows no colours.
    pub open spec fn is_drawn(row: Row, v: EditorView, line: Seq<char>) -> bool {
        let start = v.offset.x as int;
        let end = sat_add(start, v.size.width as int);
        ||| line == row.rendering(start, end, highlight_sequence(), reset_sequence())
        ||| line == row.rendering(start, end, Seq::<char>::empty(), reset_sequence())
    }

    /// Draws the row with index `index` for the screen.
    pub fn draw_row(&self, index: usize) -> (line: String)
        requires
            self.wf(),
            index < self.doc().rows().len(),
        ensures
            Self::is_drawn(self.doc().rows()[index as int], self@, line@),
    {
        let start: usize = self.offset.x;
        let end: usize = start.saturating_add(self.size.width as usize);
        self.document.row(index).render(start, end)
    }

    /// Draws the screen: one line for each of its rows, from the row of the
    /// screen's offset on, and `~` where the document has no row left.
    pub fn draw_rows(&self) -> (lines: Vec<String>)
        requires
            self.wf(),
        ensures
            lines@.len() == self@.size.height,
            forall|i: int|
                0 <= i < lines@.len() ==> if self@.offset.y + i < self.doc().rows().len() {
                    Self::is_drawn(
                        self.doc().rows()[self@.offset.y + i],
                        self@,
                        (#[trigger] lines@[i])@,
                    )
                } else {
                    lines@[i]@ == "~"@
                },
    {
        let height: usize = self.size.height as usize;
        let count: usize = self.document.len();
        let mut lines: Vec<String> = Vec::new();
        let mut i: usize = 0;
        while i < height
            invariant
                i <= height,
                height == self.size.height,
                count == self.document.rows().len(),
                self.wf(),
                lines@.len() == i,
                forall|j: int|
                    0 <= j < i ==> if self.offset.y + j < count {
                        Self::is_drawn(
                            self.document.rows()[self.offset.y + j],
                            self@,
                            (#[trigger] lines@[j])@,
                        )
                    } else {
                        lines@[j]@ == "~"@
                    },
            decreases height - i,
        {
            if i < count && self.offset.y < count - i {
                lines.push(self.draw_row(self.offset.y + i));
            } else {
                lines.push(String::from_str("~"));
            }
            i += 1;
        }
        lines
    }

    /// Takes the last character from the prompt.
    fn erase(&mut self)
        ensures
            final(self).document == old(self).document,
            final(self)@ == (EditorView { prompt: erased(old(self)@.prompt), ..old(self)@ }),
    {
        let chars = chars_of(self.prompt_input.as_str());
        if chars.len() > 0 {
            self.prompt_input = string_of(&chars, 0, chars.len() - 1);
        }
    }

    /// Types `c` into the prompt, unless it is a control character.
    fn type_char(&mut self, c: char)
        ensures
            final(self).document == old(self).document,
            final(self)@ == (EditorView { prompt: typed(old(self)@.prompt, c), ..old(self)@ }),
    {
        if !char_is_control(c) {
            push_char(&mut self.prompt_input, c);
        }
    }
}

} // verus!
