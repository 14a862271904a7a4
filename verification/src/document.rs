//! The loaded lines, the rule that splits them into tokens, the search
//! through all of them, and the selection applied to them.

use vstd::prelude::*;
use vstd::string::StringExecFns;
use crate::highlighting::{HighlightedText, TextMode, Type};
use crate::position::{Position, SearchDirection};
use crate::row::{cell, marks, max_of, min_of, switch_start_end, Row};
use crate::text::{grapheme_count, occurs_at, occurs_within, push_char};
use crate::tokenizer::{lemma_tokens_in_order, tokenize};
pub use crate::tokenizer::Tokenizer;

verus! {

/// The largest number of grapheme clusters among the first `n` of `lines`.
pub open spec fn widest(lines: Seq<String>, n: int) -> nat
    decreases n,
{
    if n <= 0 {
        0
    } else {
        max_of(widest(lines, n - 1) as int, grapheme_count(lines[n - 1]@) as int) as nat
    }
}

/// The row of the document at `y` that a search visits in step `k`, when it
/// began in row `y0` of `n` rows: the rows follow one another in the
/// direction of the search, and the walk goes on at the other end of the
/// document when it reaches one end.
pub open spec fn visited(n: int, y0: int, k: int, direction: SearchDirection) -> int {
    match direction {
        SearchDirection::Forward => if y0 + k < n {
            y0 + k
        } else {
            y0 + k - n
        },
        SearchDirection::Backward => if k <= y0 {
            y0 - k
        } else {
            y0 - k + n
        },
    }
}

/// The step in which a search that began in row `y0` of `n` rows visits the
/// row `y`.
pub open spec fn steps_to(n: int, y0: int, y: int, direction: SearchDirection) -> int {
    match direction {
        SearchDirection::Forward => if y0 <= y {
            y - y0
        } else {
            y - y0 + n
        },
        SearchDirection::Backward => if y <= y0 {
            y0 - y
        } else {
            y0 - y + n
        },
    }
}

/// The selection `sel` reaches into row `y`: a visual selection into every
/// row between anchor and cursor, the other kinds into the cursor's row.
pub open spec fn touches(sel: HighlightedText, y: int) -> bool {
    match sel.mode {
        TextMode::Visual(anchor) => min_of(anchor.y as int, sel.position.y as int) <= y <= max_of(
            anchor.y as int,
            sel.position.y as int,
        ),
        _ => y == sel.position.y,
    }
}

/// The text of the rows `lo..=hi`, each cut to what `sel` covers of it, with
/// a line feed between two rows.
pub open spec fn joined(rows: Seq<Row>, sel: HighlightedText, lo: int, hi: int) -> Seq<char>
    decreases hi - lo,
{
    if hi <= lo {
        rows[lo].selected_text(sel)
    } else {
        joined(rows, sel, lo, hi - 1) + seq!['\n'] + rows[hi].selected_text(sel)
    }
}

/// The visual selection between `a` and `c`, with its anchor at `a`.
pub open spec fn visual(a: Position, c: Position) -> HighlightedText {
    HighlightedText { position: c, mode: TextMode::Visual(a) }
}

/// The rows between the two ends of a visual selection read the same
/// whichever end is the anchor.
proof fn lemma_joined_symmetric(rows: Seq<Row>, a: Position, c: Position, lo: int, hi: int)
    ensures
        joined(rows, visual(a, c), lo, hi) == joined(rows, visual(c, a), lo, hi),
    decreases hi - lo,
{
    if hi > lo {
        lemma_joined_symmetric(rows, a, c, lo, hi - 1);
    }
}

/// The lines of a text, all split by one rule.
#[derive(Debug)]
pub struct Document {
    rows: Vec<Row>,
    longest_row: usize,
    tokenizer: Tokenizer,
}

impl Document {
    /// The rows, in the order of the lines.
    pub closed spec fn rows(self) -> Seq<Row> {
        self.rows@
    }

    /// The rule by which the rows are split.
    pub closed spec fn rule(self) -> Tokenizer {
        self.tokenizer
    }

    /// The index of the last grapheme cluster of the widest row, and 0 in a
    /// document without one.
    pub closed spec fn last_column(self) -> nat {
        self.longest_row as nat
    }

    /// Every row is consistent and split by the document's rule.
    pub closed spec fn wf(self) -> bool {
        forall|y: int|
            0 <= y < self.rows@.len() ==> {
                &&& (#[trigger] self.rows@[y]).wf()
                &&& self.rows@[y].token_seq() == tokenize(self.rows@[y].text(), self.tokenizer)
            }
    }

    /// What `wf` says of the rows.
    pub proof fn lemma_wf(self)
        requires
            self.wf(),
        ensures
            self.rows().len() <= usize::MAX,
            forall|y: int|
                0 <= y < self.rows().len() ==> {
                    &&& (#[trigger] self.rows()[y]).wf()
                    &&& self.rows()[y].token_seq() == tokenize(self.rows()[y].text(), self.rule())
                    &&& self.rows()[y].text().len() <= usize::MAX
                    &&& self.rows()[y].token_seq().len() <= usize::MAX
                    &&& self.rows()[y].content_len() <= usize::MAX
                },
    {
        assert(self.rows.len() == self.rows@.len());
        assert forall|y: int| 0 <= y < self.rows().len() implies {
            &&& (#[trigger] self.rows()[y]).text().len() <= usize::MAX
            &&& self.rows()[y].token_seq().len() <= usize::MAX
            &&& self.rows()[y].content_len() <= usize::MAX
        } by {
            self.rows()[y].lemma_wf();
        }
    }

    /// The mask that row `y` has while `sel` is the selection: what `sel`
    /// covers of the row where it reaches into it, and no cell otherwise.
    pub open spec fn row_mask(self, sel: HighlightedText, y: int) -> Seq<Type> {
        if touches(sel, y) {
            marks(self.rows()[y].selection_span(sel), self.rows()[y].text().len())
        } else {
            Seq::empty()
        }
    }

    /// The masks of all rows show the selection `sel` and nothing else.
    pub open spec fn shows(self, sel: HighlightedText) -> bool {
        forall|y: int|
            0 <= y < self.rows().len() ==> (#[trigger] self.rows()[y]).mask() == self.row_mask(
                sel,
                y,
            )
    }

    /// `other` holds the same lines, split in the same way: the two differ
    /// in their masks at most.
    pub open spec fn same_text(self, other: Document) -> bool {
        &&& self.rows().len() == other.rows().len()
        &&& self.rule() == other.rule()
        &&& self.last_column() == other.last_column()
        &&& forall|y: int|
            0 <= y < self.rows().len() ==> {
                &&& (#[trigger] self.rows()[y]).text() == other.rows()[y].text()
                &&& self.rows()[y].token_seq() == other.rows()[y].token_seq()
                &&& self.rows()[y].content_len() == other.rows()[y].content_len()
            }
    }

    /// The rule by which the rows are split.
    pub fn tokenizer(&self) -> (t: &Tokenizer)
        ensures
            *t == self.rule(),
    {
        &self.tokenizer
    }

    /// The index of the last grapheme cluster of the widest row, and 0 in a
    /// document without one.
    pub fn longest_row(&self) -> (n: usize)
        ensures
            n == self.last_column(),
    {
        self.longest_row
    }

    /// Splits every row anew, by `tokenizer`, which becomes the document's
    /// rule. Lines and masks stay.
    pub fn update_tokenizer(&mut self, tokenizer: Tokenizer)
        requires
            old(self).wf(),
        ensures
            final(self).wf(),
            final(self).rule() == tokenizer,
            final(self).rows().len() == old(self).rows().len(),
            final(self).last_column() == old(self).last_column(),
            forall|y: int|
                0 <= y < old(self).rows().len() ==> {
                    &&& (#[trigger] final(self).rows()[y]).text() == old(self).rows()[y].text()
                    &&& final(self).rows()[y].token_seq() == tokenize(
                        old(self).rows()[y].text(),
                        tokenizer,
                    )
                    &&& final(self).rows()[y].mask() == old(self).rows()[y].mask()
                    &&& final(self).rows()[y].content_len() == old(self).rows()[y].content_len()
                },
    {
        let n: usize = self.rows.len();
        let mut y: usize = 0;
        while y < n
            invariant
                y <= n,
                n == self.rows.len(),
                n == old(self).rows.len(),
                self.longest_row == old(self).longest_row,
                forall|j: int| 0 <= j < n ==> (#[trigger] self.rows@[j]).wf(),
                forall|j: int| y <= j < n ==> self.rows@[j] == old(self).rows@[j],
                forall|j: int|
                    0 <= j < y ==> {
                        &&& (#[trigger] self.rows@[j]).text() == old(self).rows@[j].text()
                        &&& self.rows@[j].token_seq() == tokenize(
                            old(self).rows@[j].text(),
                            tokenizer,
                        )
                        &&& self.rows@[j].mask() == old(self).rows@[j].mask()
                        &&& self.rows@[j].content_len() == old(self).rows@[j].content_len()
                    },
            decreases n - y,
        {
            self.rows[y].retokenize(&tokenizer);
            y += 1;
        }
        self.tokenizer = tokenizer;
    }

    /// Loads a document: one row for each of `lines`, in their order. A row
    /// holds its line as it is, split by `tokenizer`, with nothing
    /// highlighted.
    pub fn new(lines: &Vec<String>, tokenizer: Tokenizer) -> (doc: Document)
        ensures
            doc.wf(),
            doc.rule() == tokenizer,
            doc.rows().len() == lines@.len(),
            doc.last_column() == max_of(widest(lines@, lines@.len() as int) - 1, 0),
            forall|y: int|
                0 <= y < lines@.len() ==> {
                    &&& (#[trigger] doc.rows()[y]).text() == lines@[y]@
                    &&& doc.rows()[y].token_seq() == tokenize(lines@[y]@, tokenizer)
                    &&& doc.rows()[y].content_len() == grapheme_count(lines@[y]@)
                    &&& doc.rows()[y].mask() == Seq::<Type>::empty()
                },
    {
        let n: usize = lines.len();
        let mut rows: Vec<Row> = Vec::new();
        let mut longest: usize = 0;
        let mut y: usize = 0;
        while y < n
            invariant
                y <= n,
                n == lines.len(),
                rows.len() == y,
                longest == widest(lines@, y as int),
                forall|j: int|
                    0 <= j < y ==> {
                        &&& (#[trigger] rows@[j]).wf()
                        &&& rows@[j].text() == lines@[j]@
                        &&& rows@[j].token_seq() == tokenize(lines@[j]@, tokenizer)
                        &&& rows@[j].content_len() == grapheme_count(lines@[j]@)
                        &&& rows@[j].mask() == Seq::<Type>::empty()
                    },
            decreases n - y,
        {
            let row = Row::new(lines[y].as_str(), &tokenizer);
            let width = row.content_width();
            if width > longest {
                longest = width;
            }
            rows.push(row);
            y += 1;
        }
        Document {
            rows,
            longest_row: if longest == 0 {
                0
            } else {
                longest - 1
            },
            tokenizer,
        }
    }

    /// The row with index `index`.
    pub fn row(&self, index: usize) -> (row: &Row)
        requires
            index < self.rows().len(),
        ensures
            *row == self.rows()[index as int],
            self.wf() ==> row.wf(),
    {
        &self.rows[index]
    }

    /// Whether the document has no row.
    pub fn is_empty(&self) -> (b: bool)
        ensures
            b == (self.rows().len() == 0),
    {
        self.rows.len() == 0
    }

    /// The number of rows.
    pub fn len(&self) -> (n: usize)
        ensures
            n == self.rows().len(),
    {
        self.rows.len()
    }

    /// Clears the masks of all rows.
    pub fn unhighlight_rows(&mut self)
        requires
            old(self).wf(),
        ensures
            final(self).wf(),
            final(self).same_text(*old(self)),
            forall|y: int|
                0 <= y < final(self).rows().len() ==> (#[trigger] final(self).rows()[y]).mask()
                    == Seq::<Type>::empty(),
    {
        let n: usize = self.rows.len();
        let mut y: usize = 0;
        while y < n
            invariant
                y <= n,
                n == self.rows.len(),
                n == old(self).rows.len(),
                self.longest_row == old(self).longest_row,
                self.tokenizer == old(self).tokenizer,
                forall|j: int| 0 <= j < n ==> (#[trigger] self.rows@[j]).wf(),
                forall|j: int|
                    0 <= j < n ==> {
                        &&& (#[trigger] self.rows@[j]).text() == old(self).rows@[j].text()
                        &&& self.rows@[j].token_seq() == old(self).rows@[j].token_seq()
                        &&& self.rows@[j].content_len() == old(self).rows@[j].content_len()
                    },
                forall|j: int| 0 <= j < y ==> (#[trigger] self.rows@[j]).mask() == Seq::<Type>::empty(),
            decreases n - y,
        {
            self.rows[y].unhighlight();
            y += 1;
        }
    }

    /// The column from which step `k` of a search that began at `x0`
    /// searches the row `row`: `x0` in the first step, afterwards the start
    /// of the row when going forward, and its end when going backward.
    pub open spec fn search_from(row: Row, x0: int, k: int, direction: SearchDirection) -> int {
        if k == 0 {
            x0
        } else {
            match direction {
                SearchDirection::Forward => 0,
                SearchDirection::Backward => row.text().len() as int,
            }
        }
    }

    /// Step `k` of the search for `query` from `at` finds nothing in the row
    /// that it visits.
    pub open spec fn step_fails(
        self,
        query: Seq<char>,
        at: Position,
        direction: SearchDirection,
        k: int,
    ) -> bool {
        let row = self.rows()[visited(self.rows().len() as int, at.y as int, k, direction)];
        row.finds_nothing(query, Self::search_from(row, at.x as int, k, direction), direction)
    }

    /// Step `k` of the search for `query` from `at` is the first that finds
    /// something, and it finds `p`.
    pub open spec fn step_finds(
        self,
        query: Seq<char>,
        at: Position,
        direction: SearchDirection,
        k: int,
        p: Position,
    ) -> bool {
        let row = self.rows()[p.y as int];
        &&& 0 <= k < self.rows().len()
        &&& p.y == visited(self.rows().len() as int, at.y as int, k, direction)
        &&& row.finds(query, Self::search_from(row, at.x as int, k, direction), direction, p.x as int)
        &&& forall|j: int| 0 <= j < k ==> self.step_fails(query, at, direction, j)
    }

    /// `r` is what the search for `query` from `at` gives: the match of the
    /// first step that finds one, and nothing where the document has no row
    /// `at.y` or no step finds anything.
    pub open spec fn search_gives(
        self,
        query: Seq<char>,
        at: Position,
        direction: SearchDirection,
        r: Option<Position>,
    ) -> bool {
        let n = self.rows().len() as int;
        match r {
            Some(p) => {
                &&& at.y < n
                &&& p.y < n
                &&& self.step_finds(
                    query,
                    at,
                    direction,
                    steps_to(n, at.y as int, p.y as int, direction),
                    p,
                )
            },
            None => at.y >= n || forall|k: int|
                0 <= k < n ==> #[trigger] self.step_fails(query, at, direction, k),
        }
    }

    /// Searches the document for `query`, from the position `at` on. The
    /// search looks into the row of `at` first, from the column of `at` on
    /// in its direction, then into one row after the other in full, and goes
    /// on at the other end of the document when it reaches one end. It stops
    /// at the first row with a match, and gives up when it has looked into
    /// every row once. An empty query, or a row of `at` that the document
    /// does not have, finds nothing.
    pub fn find(&self, query: &str, at: &Position, direction: SearchDirection) -> (r: Option<
        Position,
    >)
        requires
            self.wf(),
        ensures
            self.search_gives(query@, *at, direction, r),
    {
        let n: usize = self.rows.len();
        if at.y >= n {
            return None;
        }
        let mut y: usize = at.y;
        let mut x: usize = at.x;
        let mut k: usize = 0;
        while k < n
            invariant
                k <= n,
                n == self.rows.len(),
                at.y < n,
                self.wf(),
                k < n ==> y == visited(n as int, at.y as int, k as int, direction),
                k < n ==> x == Self::search_from(self.rows@[y as int], at.x as int, k as int, direction),
                k < n ==> y < n,
                forall|j: int| 0 <= j < k ==> self.step_fails(query@, *at, direction, j),
            decreases n - k,
        {
            match self.rows[y].find(query, x, direction) {
                Some(found) => {
                    let p = Position { x: found, y };
                    assert(steps_to(n as int, at.y as int, y as int, direction) == k);
                    return Some(p);
                },
                None => {},
            }
            assert(self.step_fails(query@, *at, direction, k as int));
            k += 1;
            if k < n {
                match direction {
                    SearchDirection::Forward => {
                        y = if y + 1 == n {
                            0
                        } else {
                            y + 1
                        };
                        x = 0;
                    },
                    SearchDirection::Backward => {
                        y = if y == 0 {
                            n - 1
                        } else {
                            y - 1
                        };
                        x = self.rows[y].width();
                    },
                }
            }
        }
        None
    }

    /// Shows the selection `text`: clears the masks of all rows, then
    /// highlights in each row that the selection reaches into what it
    /// covers there.
    pub fn highlight(&mut self, text: &HighlightedText)
        requires
            old(self).wf(),
        ensures
            final(self).wf(),
            final(self).same_text(*old(self)),
            final(self).shows(*text),
    {
        self.unhighlight_rows();
        let n: usize = self.rows.len();
        let (first, last) = match text.mode {
            TextMode::Visual(anchor) => switch_start_end(anchor.y, text.position.y),
            _ => (text.position.y, text.position.y),
        };
        let ghost cleared = *self;
        let mut y: usize = first;
        while y <= last && y < n
            invariant
                first <= y,
                y <= last + 1,
                n == self.rows.len(),
                n == cleared.rows.len(),
                self.longest_row == cleared.longest_row,
                self.tokenizer == cleared.tokenizer,
                forall|j: int| touches(*text, j) <==> first <= j <= last,
                forall|j: int| 0 <= j < n ==> (#[trigger] self.rows@[j]).wf(),
                forall|j: int|
                    0 <= j < n ==> {
                        &&& (#[trigger] self.rows@[j]).text() == cleared.rows@[j].text()
                        &&& self.rows@[j].token_seq() == cleared.rows@[j].token_seq()
                        &&& self.rows@[j].content_len() == cleared.rows@[j].content_len()
                    },
                forall|j: int|
                    0 <= j < n && !(first <= j < y) ==> (#[trigger] self.rows@[j]).mask() == Seq::<
                        Type,
                    >::empty(),
                forall|j: int|
                    0 <= j < n && first <= j < y ==> (#[trigger] self.rows@[j]).mask() == marks(
                        cleared.rows@[j].selection_span(*text),
                        cleared.rows@[j].text().len(),
                    ),
            decreases n - y,
        {
            self.rows[y].highlight(text);
            y += 1;
        }
    }

    /// The selection `sel` covers text in some row: it is a token, a search
    /// with a match, or a visual selection whose cursor has left the anchor.
    pub open spec fn reads_rows(sel: HighlightedText) -> bool {
        match sel.mode {
            TextMode::Token => true,
            TextMode::Search(len) => len is Some,
            TextMode::Visual(anchor) => anchor != sel.position,
        }
    }

    /// The text under the selection `sel`: of a token or a search match the
    /// characters that the selection covers of the cursor's row; of a visual
    /// selection the characters that it covers of each row between anchor
    /// and cursor, row after row with a line feed between two; and nothing
    /// of a search without a match and of a visual selection whose cursor
    /// stands on the anchor.
    pub open spec fn extract(self, sel: HighlightedText) -> Seq<char> {
        if !Self::reads_rows(sel) {
            Seq::empty()
        } else {
            match sel.mode {
                TextMode::Visual(anchor) => joined(
                    self.rows(),
                    sel,
                    min_of(anchor.y as int, sel.position.y as int),
                    max_of(anchor.y as int, sel.position.y as int),
                ),
                _ => self.rows()[sel.position.y as int].selected_text(sel),
            }
        }
    }

    /// Leaving the tokens for the characters and coming back leads to the
    /// token that was left: a cursor on a token that is not empty, turned
    /// into a character index and back into a token index, stands where it
    /// stood.
    pub proof fn lemma_remap_round_trip(self, p: Position, r: int)
        requires
            self.wf(),
            p.y < self.rows().len(),
            p.x < self.rows()[p.y as int].token_seq().len(),
            self.rows()[p.y as int].token_seq()[p.x as int].len > 0,
            self.rows()[p.y as int].is_token_x(self.rows()[p.y as int].char_x(p.x as int), r),
        ensures
            r == p.x,
    {
        let row = self.rows()[p.y as int];
        row.lemma_wf();
        lemma_tokens_in_order(row.text(), self.rule());
        row.lemma_round_trip(p.x as int, r);
    }

    /// The text under the selection of a token is the text of that token.
    pub proof fn lemma_token_text(self, p: Position)
        requires
            self.wf(),
            p.y < self.rows().len(),
            p.x < self.rows()[p.y as int].token_seq().len(),
        ensures
            self.extract(HighlightedText { position: p, mode: TextMode::Token })
                == self.rows()[p.y as int].text().subrange(
                self.rows()[p.y as int].token_seq()[p.x as int].start as int,
                self.rows()[p.y as int].token_seq()[p.x as int].end(),
            ),
    {
        self.rows()[p.y as int].lemma_wf();
    }

    /// A visual selection covers the same text whichever of its two ends
    /// is the anchor and whichever the cursor.
    pub proof fn lemma_visual_symmetric(self, a: Position, c: Position)
        ensures
            self.extract(visual(a, c)) == self.extract(visual(c, a)),
    {
        lemma_joined_symmetric(
            self.rows(),
            a,
            c,
            min_of(a.y as int, c.y as int),
            max_of(a.y as int, c.y as int),
        );
    }

    /// While the masks show the selection `sel`, a cell is highlighted if
    /// and only if the selection reaches into its row and covers it there:
    /// no row beside those of the selection holds a highlighted cell, and
    /// the highlighted cells of a row are one stretch.
    pub proof fn lemma_shown_region(self, sel: HighlightedText, y: int, i: int)
        requires
            self.shows(sel),
            0 <= y < self.rows().len(),
        ensures
            cell(self.rows()[y].mask(), i) == Type::Highlighted <==> {
                &&& touches(sel, y)
                &&& 0 <= i < self.rows()[y].text().len()
                &&& self.rows()[y].selection_span(sel).0 <= i < self.rows()[y].selection_span(sel).1
            },
    {
        assert(self.rows()[y].mask() == self.row_mask(sel, y));
    }

    /// What a search finds is a place where the query stands, in a row of
    /// the document, and the query is not empty.
    pub proof fn lemma_search_hit(
        self,
        query: Seq<char>,
        at: Position,
        direction: SearchDirection,
        p: Position,
    )
        requires
            self.search_gives(query, at, direction, Some(p)),
        ensures
            p.y < self.rows().len(),
            query.len() > 0,
            occurs_at(self.rows()[p.y as int].text(), query, p.x as int),
    {
    }

    /// A forward search that finds nothing has missed nothing that lies in
    /// its way: the query then stands nowhere in the document but, at most,
    /// in the row of `at` before the column of `at`.
    pub proof fn lemma_search_misses(self, query: Seq<char>, at: Position, y: int, x: int)
        requires
            query.len() > 0,
            at.y < self.rows().len(),
            self.search_gives(query, at, SearchDirection::Forward, None),
            0 <= y < self.rows().len(),
            occurs_at(self.rows()[y].text(), query, x),
        ensures
            y == at.y,
            x < at.x,
    {
        let n = self.rows().len() as int;
        let k = steps_to(n, at.y as int, y, SearchDirection::Forward);
        assert(self.step_fails(query, at, SearchDirection::Forward, k));
        let row = self.rows()[y];
        let from = Self::search_from(row, at.x as int, k, SearchDirection::Forward);
        if from <= row.text().len() {
            assert(!occurs_within(row.text(), query, from, row.text().len() as int, x));
        }
    }

    /// A forward search that starts one place behind `(x, y)` does not end
    /// at `(x, y)`: searching again from behind a match leads to another
    /// match.
    pub proof fn lemma_search_moves_on(self, query: Seq<char>, x: usize, y: usize, p: Position)
        requires
            x < usize::MAX,
            self.search_gives(
                query,
                Position { x: (x + 1) as usize, y },
                SearchDirection::Forward,
                Some(p),
            ),
        ensures
            p != (Position { x, y }),
    {
    }

    /// The selection `sel` lies in rows that the document has.
    pub open spec fn holds(self, sel: HighlightedText) -> bool {
        &&& sel.position.y < self.rows().len()
        &&& sel.mode matches TextMode::Visual(anchor) ==> anchor.y < self.rows().len()
    }

    /// The text under the selection `text`. A selection that covers text
    /// must lie in rows that the document has.
    pub fn get_text(&self, text: &HighlightedText) -> (s: String)
        requires
            self.wf(),
            Self::reads_rows(*text) ==> self.holds(*text),
        ensures
            s@ == self.extract(*text),
    {
        match text.mode {
            TextMode::Search(None) => String::new(),
            TextMode::Visual(anchor) => {
                if anchor.x == text.position.x && anchor.y == text.position.y {
                    return String::new();
                }
                let (first, last) = switch_start_end(anchor.y, text.position.y);
                let mut result = self.rows[first].selected(text);
                let mut y: usize = first;
                while y < last
                    invariant
                        first <= y <= last < self.rows.len(),
                        self.wf(),
                        result@ == joined(self.rows@, *text, first as int, y as int),
                    decreases last - y,
                {
                    y += 1;
                    push_char(&mut result, '\n');
                    let part = self.rows[y].selected(text);
                    result.append(part.as_str());
                }
                result
            },
            _ => self.rows[text.position.y].selected(text),
        }
    }
}

} // verus!
