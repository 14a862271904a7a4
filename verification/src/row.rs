//! One line of text with its tokens and its highlight mask.

use vstd::prelude::*;
use vstd::string::StringExecFns;
use crate::highlighting::{HighlightedText, TextMode, Type};
use crate::position::SearchDirection;
use crate::text::{
    char_is_whitespace, chars_of, count_graphemes, find_first, find_last, grapheme_count,
    is_first_match, is_last_match, is_whitespace, no_match, push_char, string_of,
};
use crate::tokenizer::{
    in_order, lemma_blank_tail, tokenize, tokens_of, tokens_within, Tokenizer,
};
pub use crate::tokenizer::Token;

verus! {

/// The escape sequence that switches the highlighting background on.
pub open spec fn highlight_sequence() -> Seq<char> {
    seq!['\u{1b}', '[', '4', '8', ';', '5', ';', '1', '5', 'm']
}

/// The escape sequence that puts the background back to the default.
pub open spec fn reset_sequence() -> Seq<char> {
    seq!['\u{1b}', '[', '4', '9', 'm']
}

/// Formats termion's `color::Bg(color::LightWhite)`. Trusted: termion writes
/// the 256-colour background sequence for colour 15, or nothing at all where
/// the variable `NO_COLOR` is set.
#[verifier::external_body]
fn highlight_on() -> (s: String)
    ensures
        s@ == highlight_sequence() || s@ == Seq::<char>::empty(),
{
    format!("{}", termion::color::Bg(termion::color::LightWhite))
}

/// Formats termion's `color::Bg(color::Reset)`. Trusted: termion always
/// writes the sequence that resets the background.
#[verifier::external_body]
fn highlight_off() -> (s: String)
    ensures
        s@ == reset_sequence(),
{
    format!("{}", termion::color::Bg(termion::color::Reset))
}

/// The smaller and the larger of two coordinates, in this order.
pub fn switch_start_end(x1: usize, x2: usize) -> (r: (usize, usize))
    ensures
        r.0 <= r.1,
        r == (x1, x2) || r == (x2, x1),
{
    if x1 <= x2 {
        (x1, x2)
    } else {
        (x2, x1)
    }
}

/// The smaller of two indices.
pub open spec fn min_of(a: int, b: int) -> int {
    if a <= b {
        a
    } else {
        b
    }
}

/// The larger of two indices.
pub open spec fn max_of(a: int, b: int) -> int {
    if a >= b {
        a
    } else {
        b
    }
}

/// The mask of a line of `n` characters in which exactly the cells of
/// `[span.0, span.1)` are highlighted.
pub open spec fn marks(span: (int, int), n: nat) -> Seq<Type> {
    Seq::new(
        n,
        |i: int|
            if span.0 <= i < span.1 {
                Type::Highlighted
            } else {
                Type::Plain
            },
    )
}

/// The state of cell `i` of a mask; cells that the mask does not hold are
/// plain.
pub open spec fn cell(mask: Seq<Type>, i: int) -> Type {
    if 0 <= i < mask.len() {
        mask[i]
    } else {
        Type::Plain
    }
}

/// The character as a terminal shows it: a tab becomes a space.
pub open spec fn shown(c: char) -> char {
    if c == '\t' {
        ' '
    } else {
        c
    }
}

/// The characters `[i, end)` of `text` as they are drawn after a character
/// in state `current`: before each character whose state differs from that of
/// its predecessor stands `on` or `off`, and `off` closes the line.
pub open spec fn render_from(
    text: Seq<char>,
    mask: Seq<Type>,
    i: int,
    end: int,
    current: Type,
    on: Seq<char>,
    off: Seq<char>,
) -> Seq<char>
    decreases end - i,
{
    if i >= end {
        off
    } else {
        let state = cell(mask, i);
        let switch = if state == current {
            Seq::<char>::empty()
        } else if state == Type::Highlighted {
            on
        } else {
            off
        };
        switch + seq![shown(text[i])] + render_from(text, mask, i + 1, end, state, on, off)
    }
}

/// One line: its characters, the tokens they were split into, a highlight
/// mask, and the number of grapheme clusters that the line was made with.
#[derive(Debug, Eq, PartialEq)]
pub struct Row {
    string: String,
    chars: Vec<char>,
    highlighting: Vec<Type>,
    tokens: Vec<Token>,
    len: usize,
}

impl Row {
    /// The characters of the line.
    pub closed spec fn text(self) -> Seq<char> {
        self.chars@
    }

    /// The tokens of the line.
    pub closed spec fn token_seq(self) -> Seq<Token> {
        self.tokens@
    }

    /// The highlight mask. Cells that it does not hold are plain.
    pub closed spec fn mask(self) -> Seq<Type> {
        self.highlighting@
    }

    /// The number of grapheme clusters that the line had when it was made.
    pub closed spec fn content_len(self) -> nat {
        self.len as nat
    }

    /// The row is consistent: string and characters agree, every token lies
    /// inside the line, and the mask is not longer than the line.
    pub closed spec fn wf(self) -> bool {
        &&& self.chars@ == self.string@
        &&& tokens_within(self.tokens@, self.chars@.len())
        &&& self.highlighting@.len() <= self.chars@.len()
    }

    /// What `wf` says of the views.
    pub proof fn lemma_wf(self)
        requires
            self.wf(),
        ensures
            tokens_within(self.token_seq(), self.text().len()),
            self.mask().len() <= self.text().len(),
            self.text().len() <= usize::MAX,
            self.token_seq().len() <= usize::MAX,
            self.content_len() <= usize::MAX,
    {
        assert(self.chars.len() == self.chars@.len());
        assert(self.tokens.len() == self.tokens@.len());
    }

    /// The row of the line `slice`, split by `tokenizer`, with nothing
    /// highlighted.
    pub fn new(slice: &str, tokenizer: &Tokenizer) -> (row: Row)
        ensures
            row.wf(),
            row.text() == slice@,
            row.token_seq() == tokenize(slice@, *tokenizer),
            row.mask() == Seq::<Type>::empty(),
            row.content_len() == grapheme_count(slice@),
    {
        let chars = chars_of(slice);
        let tokens = tokens_of(&chars, tokenizer);
        Row {
            string: String::from_str(slice),
            chars,
            highlighting: Vec::new(),
            tokens,
            len: count_graphemes(slice),
        }
    }

    /// The line as a string.
    pub fn as_str(&self) -> (s: &str)
        requires
            self.wf(),
        ensures
            s@ == self.text(),
    {
        self.string.as_str()
    }

    /// The tokens of the line.
    pub fn tokens(&self) -> (t: &Vec<Token>)
        ensures
            t@ == self.token_seq(),
    {
        &self.tokens
    }

    /// The number of characters of the line.
    pub fn width(&self) -> (n: usize)
        ensures
            n == self.text().len(),
    {
        self.chars.len()
    }

    /// The number of grapheme clusters that the line had when it was made.
    pub fn content_width(&self) -> (n: usize)
        ensures
            n == self.content_len(),
    {
        self.len
    }

    /// Splits the line anew, by `tokenizer`.
    pub fn retokenize(&mut self, tokenizer: &Tokenizer)
        requires
            old(self).wf(),
        ensures
            final(self).wf(),
            final(self).text() == old(self).text(),
            final(self).token_seq() == tokenize(old(self).text(), *tokenizer),
            final(self).mask() == old(self).mask(),
            final(self).content_len() == old(self).content_len(),
    {
        self.tokens = tokens_of(&self.chars, tokenizer);
    }

    /// Appends spaces until the line has `total_len` characters. A line that
    /// is that long already stays as it is. Tokens, mask and the number of
    /// grapheme clusters are kept; tokens that were those of the line split
    /// on whitespace are those of the longer line too.
    pub fn whitespace_pad(&mut self, total_len: usize)
        requires
            old(self).wf(),
        ensures
            final(self).wf(),
            final(self).text() == old(self).text() + Seq::new(
                max_of(total_len - old(self).text().len(), 0) as nat,
                |i: int| ' ',
            ),
            final(self).token_seq() == old(self).token_seq(),
            final(self).mask() == old(self).mask(),
            final(self).content_len() == old(self).content_len(),
            tokenize(final(self).text(), Tokenizer::Whitespace) == tokenize(
                old(self).text(),
                Tokenizer::Whitespace,
            ),
    {
        let ghost before = self.chars@;
        let blank = char_is_whitespace(' ');
        while self.chars.len() < total_len
            invariant
                self.chars@ == self.string@,
                self.tokens == old(self).tokens,
                self.highlighting == old(self).highlighting,
                self.len == old(self).len,
                is_whitespace(' '),
                before.len() <= self.chars@.len(),
                self.chars@.len() <= max_of(total_len as int, before.len() as int),
                self.chars@ == before + Seq::new(
                    (self.chars@.len() - before.len()) as nat,
                    |i: int| ' ',
                ),
            decreases total_len - self.chars.len(),
        {
            self.chars.push(' ');
            push_char(&mut self.string, ' ');
            assert(self.chars@ =~= before + Seq::new(
                (self.chars@.len() - before.len()) as nat,
                |i: int| ' ',
            ));
        }
        proof {
            assert(before + Seq::new(0nat, |i: int| ' ') =~= before);
            assert(is_whitespace(' '));
            assert forall|j: int| before.len() <= j < self.chars@.len() implies is_whitespace(
                self.chars@[j],
            ) by {
                assert(self.chars@[j] == ' ');
            }
            lemma_blank_tail(self.chars@, before.len() as int);
            assert(self.chars@.take(before.len() as int) =~= before);
        }
    }

    /// The token with index `index`, if the line has one.
    pub fn token(&self, index: usize) -> (t: Option<&Token>)
        ensures
            match t {
                Some(token) => index < self.token_seq().len() && *token == self.token_seq()[
                    index as int
                ],
                None => index >= self.token_seq().len(),
            },
    {
        if index < self.tokens.len() {
            Some(&self.tokens[index])
        } else {
            None
        }
    }

    /// The largest `x` that a cursor may have in this row under a selection
    /// of kind `mode`.
    pub open spec fn max_x(self, mode: TextMode) -> int {
        match mode {
            TextMode::Token => if self.token_seq().len() == 0 {
                usize::MAX as int
            } else {
                self.token_seq().len() - 1
            },
            TextMode::Visual(_) | TextMode::Search(_) => max_of(self.text().len() - 1, 0),
        }
    }

    /// The largest `x` that a cursor may have in this row: the index of the
    /// last token (no bound where the row has no token) where the cursor
    /// counts tokens, the index of the last character where it counts
    /// characters.
    pub fn len(&self, text_mode: TextMode) -> (n: usize)
        ensures
            n == self.max_x(text_mode),
    {
        match text_mode {
            TextMode::Token => {
                if self.tokens.len() == 0 {
                    usize::MAX
                } else {
                    self.tokens.len() - 1
                }
            },
            TextMode::Visual(_) | TextMode::Search(_) => {
                if self.chars.len() == 0 {
                    0
                } else {
                    self.chars.len() - 1
                }
            },
        }
    }

    /// The part `[lo, hi)` of the line in which a search from `at` looks: from
    /// `at` to the end of the line, or from the start of the line to `at`.
    pub open spec fn search_window(self, at: int, direction: SearchDirection) -> (int, int) {
        match direction {
            SearchDirection::Forward => (at, self.text().len() as int),
            SearchDirection::Backward => (0, min_of(at, self.text().len() as int)),
        }
    }

    /// A search for `query` from `at` looks into this row at all: the query
    /// is not empty and `at` is not behind the end of the line.
    pub open spec fn searchable(self, query: Seq<char>, at: int) -> bool {
        query.len() > 0 && at <= self.text().len()
    }

    /// `i` is where a search for `query` from `at` ends in this row: the
    /// leftmost match of the window when going forward, the rightmost when
    /// going backward.
    pub open spec fn finds(self, query: Seq<char>, at: int, direction: SearchDirection, i: int) -> bool {
        let w = self.search_window(at, direction);
        &&& self.searchable(query, at)
        &&& match direction {
            SearchDirection::Forward => is_first_match(self.text(), query, w.0, w.1, i),
            SearchDirection::Backward => is_last_match(self.text(), query, w.0, w.1, i),
        }
    }

    /// A search for `query` from `at` finds nothing in this row.
    pub open spec fn finds_nothing(self, query: Seq<char>, at: int, direction: SearchDirection) -> bool {
        let w = self.search_window(at, direction);
        self.searchable(query, at) ==> no_match(self.text(), query, w.0, w.1)
    }

    /// Searches the row for `query`. Forward, the match must lie between `at`
    /// and the end of the line, and the leftmost one is taken. Backward, it
    /// must lie before `at`, and the rightmost one is taken. An empty query,
    /// or an `at` behind the end of the line, finds nothing.
    pub fn find(&self, query: &str, at: usize, direction: SearchDirection) -> (r: Option<usize>)
        requires
            self.wf(),
        ensures
            match r {
                Some(i) => self.finds(query@, at as int, direction, i as int),
                None => self.finds_nothing(query@, at as int, direction),
            },
    {
        let pat = chars_of(query);
        let n: usize = self.chars.len();
        if at > n || pat.len() == 0 {
            return None;
        }
        match direction {
            SearchDirection::Forward => find_first(&self.chars, &pat, at, n),
            SearchDirection::Backward => find_last(&self.chars, &pat, 0, at),
        }
    }

    /// The cells `[lo, hi)` that the selection `sel` highlights in this row,
    /// before they are cut to the line: the span of the token with index
    /// `x`, the characters from `x` on that a search matched, or the
    /// characters between the anchor's `x` and the cursor's, both included.
    pub open spec fn selection_span(self, sel: HighlightedText) -> (int, int) {
        let x = sel.position.x as int;
        match sel.mode {
            TextMode::Token => if x < self.token_seq().len() {
                (self.token_seq()[x].start as int, self.token_seq()[x].end())
            } else {
                (0, 0)
            },
            TextMode::Search(Some(len)) => (x, x + len),
            TextMode::Search(None) => (0, 0),
            TextMode::Visual(anchor) => (min_of(anchor.x as int, x), max_of(anchor.x as int, x) + 1),
        }
    }

    /// The span of `selection_span`, cut to the line.
    fn span_of(&self, sel: &HighlightedText) -> (r: (usize, usize))
        requires
            self.wf(),
        ensures
            r.0 <= r.1 <= self.text().len(),
            r.0 == min_of(
                max_of(self.selection_span(*sel).0, 0),
                min_of(self.selection_span(*sel).1, self.text().len() as int),
            ),
            r.1 == min_of(self.selection_span(*sel).1, self.text().len() as int),
    {
        let n: usize = self.chars.len();
        let x: usize = sel.position.x;
        match sel.mode {
            TextMode::Token => {
                if x < self.tokens.len() {
                    let token = self.tokens[x];
                    assert(self.tokens@[x as int].end() <= n);
                    (token.start, token.start + token.len)
                } else {
                    (0, 0)
                }
            },
            TextMode::Search(Some(len)) => {
                if x >= n {
                    (n, n)
                } else if len > n - x {
                    (x, n)
                } else {
                    (x, x + len)
                }
            },
            TextMode::Search(None) => (0, 0),
            TextMode::Visual(anchor) => {
                let (lo, hi) = switch_start_end(anchor.x, x);
                if lo >= n {
                    (n, n)
                } else if hi >= n {
                    (lo, n)
                } else {
                    (lo, hi + 1)
                }
            },
        }
    }

    /// Clears the mask, then highlights what the selection `text` covers of
    /// this row.
    pub fn highlight(&mut self, text: &HighlightedText)
        requires
            old(self).wf(),
        ensures
            final(self).wf(),
            final(self).mask() == marks(old(self).selection_span(*text), old(self).text().len()),
            final(self).text() == old(self).text(),
            final(self).token_seq() == old(self).token_seq(),
            final(self).content_len() == old(self).content_len(),
    {
        let n: usize = self.chars.len();
        let (lo, hi) = self.span_of(text);
        let ghost span = self.selection_span(*text);
        let mut mask: Vec<Type> = Vec::new();
        let mut i: usize = 0;
        while i < n
            invariant
                i <= n,
                lo <= hi <= n,
                mask.len() == i,
                forall|j: int|
                    0 <= j < i ==> mask@[j] == if lo <= j < hi {
                        Type::Highlighted
                    } else {
                        Type::Plain
                    },
            decreases n - i,
        {
            if lo <= i && i < hi {
                mask.push(Type::Highlighted);
            } else {
                mask.push(Type::Plain);
            }
            i += 1;
        }
        assert(mask@ =~= marks(span, n as nat));
        self.highlighting = mask;
    }

    /// Clears the mask.
    pub fn unhighlight(&mut self)
        requires
            old(self).wf(),
        ensures
            final(self).wf(),
            final(self).mask() == Seq::<Type>::empty(),
            final(self).text() == old(self).text(),
            final(self).token_seq() == old(self).token_seq(),
            final(self).content_len() == old(self).content_len(),
    {
        self.highlighting = Vec::new();
    }

    /// Whether the character with index `index` is highlighted.
    pub fn highlighted(&self, index: usize) -> (b: bool)
        ensures
            b == (cell(self.mask(), index as int) == Type::Highlighted),
    {
        index < self.highlighting.len() && self.highlighting[index] == Type::Highlighted
    }

    /// Whether any character of the row is highlighted.
    pub fn is_highlighted(&self) -> (b: bool)
        ensures
            b == exists|i: int| 0 <= i < self.mask().len() && self.mask()[i] == Type::Highlighted,
    {
        let mut i: usize = 0;
        while i < self.highlighting.len()
            invariant
                i <= self.highlighting.len(),
                forall|j: int| 0 <= j < i ==> self.highlighting@[j] != Type::Highlighted,
            decreases self.highlighting.len() - i,
        {
            if self.highlighting[i] == Type::Highlighted {
                return true;
            }
            i += 1;
        }
        false
    }

    /// The text that the selection `sel` covers of this row: the characters
    /// of `selection_span`, as far as the line has them.
    pub open spec fn selected_text(self, sel: HighlightedText) -> Seq<char> {
        let span = self.selection_span(sel);
        let hi = min_of(span.1, self.text().len() as int);
        let lo = min_of(max_of(span.0, 0), hi);
        self.text().subrange(lo, hi)
    }

    /// The text that the selection `sel` covers of this row.
    pub fn selected(&self, sel: &HighlightedText) -> (s: String)
        requires
            self.wf(),
        ensures
            s@ == self.selected_text(*sel),
    {
        let (lo, hi) = self.span_of(sel);
        string_of(&self.chars, lo, hi)
    }

    /// The character index that stands for the token index `x`: the start of
    /// that token, and 0 where the row has no such token.
    pub open spec fn char_x(self, x: int) -> int {
        if 0 <= x < self.token_seq().len() {
            self.token_seq()[x].start as int
        } else {
            0
        }
    }

    /// Turns a token index into a character index.
    pub fn token_to_char(&self, x: usize) -> (r: usize)
        ensures
            r == self.char_x(x as int),
    {
        if x < self.tokens.len() {
            self.tokens[x].start
        } else {
            0
        }
    }

    /// `k` is the first token that covers the character `x`.
    pub open spec fn first_covering(self, x: int, k: int) -> bool {
        &&& 0 <= k < self.token_seq().len()
        &&& self.token_seq()[k].covers(x)
        &&& forall|j: int| 0 <= j < k ==> !self.token_seq()[j].covers(x)
    }

    /// No token covers the character `x`.
    pub open spec fn uncovered(self, x: int) -> bool {
        forall|j: int| 0 <= j < self.token_seq().len() ==> !self.token_seq()[j].covers(x)
    }

    /// Where no token covers the character `x`: the token that lies as far
    /// into the row's tokens as `x` lies into its characters, but never
    /// behind the last token; 0 where the row has no token or no character.
    pub open spec fn scaled_x(self, x: int) -> int {
        let count = self.token_seq().len() as int;
        let len = self.text().len() as int;
        if count == 0 || len == 0 {
            0
        } else {
            min_of(x * count / len, count - 1)
        }
    }

    /// `r` is the token index that stands for the character index `x`.
    pub open spec fn is_token_x(self, x: int, r: int) -> bool {
        ||| self.first_covering(x, r)
        ||| self.uncovered(x) && r == self.scaled_x(x)
    }

    /// Turning the index of a token that is not empty into a character
    /// index and back gives the same token again, where the tokens stand in
    /// order.
    pub proof fn lemma_round_trip(self, x: int, r: int)
        requires
            in_order(self.token_seq()),
            0 <= x < self.token_seq().len(),
            self.token_seq()[x].len > 0,
            self.is_token_x(self.char_x(x), r),
        ensures
            r == x,
    {
        let at = self.char_x(x);
        assert(self.token_seq()[x].covers(at));
        if r < x {
            assert(self.token_seq()[r].end() <= self.token_seq()[x].start);
        }
    }

    /// Turns a character index into a token index: the token that covers
    /// the character, or else the token at the same relative place.
    pub fn char_to_token(&self, x: usize) -> (r: usize)
        ensures
            self.is_token_x(x as int, r as int),
    {
        let count: usize = self.tokens.len();
        let mut k: usize = 0;
        while k < count
            invariant
                count == self.tokens.len(),
                k <= count,
                forall|j: int| 0 <= j < k ==> !self.tokens@[j].covers(x as int),
            decreases count - k,
        {
            let token = self.tokens[k];
            if token.start <= x && x - token.start < token.len {
                return k;
            }
            k += 1;
        }
        let len: usize = self.chars.len();
        if count == 0 || len == 0 {
            0
        } else {
            assert(0 <= (x as int) * (count as int) <= 0xffff_ffff_ffff_ffff
                * 0xffff_ffff_ffff_ffff) by (nonlinear_arith)
                requires
                    0 <= x <= 0xffff_ffff_ffff_ffff,
                    0 <= count <= 0xffff_ffff_ffff_ffff,
            ;
            let scaled: u128 = (x as u128) * (count as u128) / (len as u128);
            if scaled >= count as u128 {
                count - 1
            } else {
                scaled as usize
            }
        }
    }

    /// The characters `[start, end)` of the line, cut to the line, as they
    /// are drawn with the sequences `on` and `off`.
    pub open spec fn rendering(self, start: int, end: int, on: Seq<char>, off: Seq<char>) -> Seq<
        char,
    > {
        let e = min_of(end, self.text().len() as int);
        let s = min_of(start, e);
        render_from(self.text(), self.mask(), s, e, Type::Plain, on, off)
    }

    /// Draws the characters `[start, end)` of the line: `on` stands before
    /// the first highlighted character of a stretch, `off` before the first
    /// plain one behind it and at the end; a tab is drawn as a space.
    pub fn render_with(&self, start: usize, end: usize, on: &str, off: &str) -> (r: String)
        requires
            self.wf(),
        ensures
            r@ == self.rendering(start as int, end as int, on@, off@),
    {
        let n: usize = self.chars.len();
        let e: usize = if end <= n {
            end
        } else {
            n
        };
        let s: usize = if start <= e {
            start
        } else {
            e
        };
        let mut result = String::new();
        let mut current = Type::Plain;
        let mut i: usize = s;
        while i < e
            invariant
                s <= i <= e <= n,
                n == self.chars.len(),
                result@ + render_from(self.chars@, self.highlighting@, i as int, e as int, current, on@, off@)
                    == render_from(self.chars@, self.highlighting@, s as int, e as int, Type::Plain, on@, off@),
            decreases e - i,
        {
            let ghost before = result@;
            let ghost previous = current;
            let ghost rest = render_from(
                self.chars@,
                self.highlighting@,
                i + 1,
                e as int,
                cell(self.highlighting@, i as int),
                on@,
                off@,
            );
            let state = if i < self.highlighting.len() {
                self.highlighting[i]
            } else {
                Type::Plain
            };
            if state != current {
                current = state;
                if state == Type::Highlighted {
                    result.append(on);
                } else {
                    result.append(off);
                }
            }
            let c = self.chars[i];
            if c == '\t' {
                push_char(&mut result, ' ');
            } else {
                push_char(&mut result, c);
            }
            assert(result@ + rest =~= before + render_from(
                self.chars@,
                self.highlighting@,
                i as int,
                e as int,
                previous,
                on@,
                off@,
            ));
            i += 1;
        }
        result.append(off);
        result
    }

    /// Draws the characters `[start, end)` of the line with the terminal's
    /// own sequences for the highlighting background.
    pub fn render(&self, start: usize, end: usize) -> (r: String)
        requires
            self.wf(),
        ensures
            r@ == self.rendering(start as int, end as int, highlight_sequence(), reset_sequence())
                || r@ == self.rendering(
                start as int,
                end as int,
                Seq::<char>::empty(),
                reset_sequence(),
            ),
    {
        let on = highlight_on();
        let off = highlight_off();
        self.render_with(start, end, on.as_str(), off.as_str())
    }
}

} // verus!
