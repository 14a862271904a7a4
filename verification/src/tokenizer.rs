//! Splitting one line into tokens, on runs of whitespace or on a literal
//! delimiter.

use vstd::prelude::*;
use vstd::string::StringExecFns;
use crate::text::{
    char_is_whitespace, chars_of, find_first, is_first_match, is_whitespace, no_match, occurs_at,
    occurs_within,
};

verus! {

/// The span `[start, start + len)` of a line's characters.
#[derive(Debug, Copy, Clone, Eq, PartialEq, Structural)]
pub struct Token {
    pub start: usize,
    pub len: usize,
}

impl Token {
    /// The index just past the token.
    pub open spec fn end(self) -> int {
        self.start + self.len
    }

    /// The token covers the character at index `i`.
    pub open spec fn covers(self, i: int) -> bool {
        self.start <= i < self.end()
    }
}

/// The rule by which a line is split into tokens.
#[derive(Clone, Debug)]
pub enum Tokenizer {
    /// Tokens are the maximal runs of characters that are not whitespace.
    Whitespace,
    /// Tokens are the pieces between the occurrences of this delimiter.
    String(String),
}

impl Tokenizer {
    /// A copy of the rule.
    pub fn duplicate(&self) -> (t: Tokenizer)
        ensures
            t == *self,
    {
        match self {
            Tokenizer::Whitespace => Tokenizer::Whitespace,
            Tokenizer::String(s) => Tokenizer::String(s.clone()),
        }
    }

    /// The name of the rule as a status line shows it.
    pub open spec fn label(self) -> Seq<char> {
        match self {
            Tokenizer::Whitespace => "whitespace (default)"@,
            Tokenizer::String(s) => "'"@ + s@ + "'"@,
        }
    }

    /// The name of the rule: a fixed name for whitespace, the delimiter in
    /// single quotes otherwise.
    pub fn as_str(&self) -> (r: String)
        ensures
            r@ == self.label(),
    {
        match self {
            Tokenizer::Whitespace => String::from_str("whitespace (default)"),
            Tokenizer::String(s) => String::from_str("'").concat(s.as_str()).concat("'"),
        }
    }
}

/// All tokens lie inside a line of `n` characters.
pub open spec fn tokens_within(tokens: Seq<Token>, n: nat) -> bool {
    forall|k: int| 0 <= k < tokens.len() ==> (#[trigger] tokens[k]).end() <= n
}

/// Where the run of cells that are not set, entered at `i`, ends: the first
/// index from `i` on that is set, or the length of the mask.
pub open spec fn run_end(mask: Seq<bool>, i: int) -> int
    decreases mask.len() - i,
{
    if 0 <= i < mask.len() && !mask[i] {
        run_end(mask, i + 1)
    } else {
        i
    }
}

/// The run that is entered at `i` ends behind `i` and inside the mask, holds
/// no set cell, and is stopped by a set cell or by the end of the mask.
pub proof fn lemma_run_end(mask: Seq<bool>, i: int)
    requires
        0 <= i < mask.len(),
        !mask[i],
    ensures
        i < run_end(mask, i) <= mask.len(),
        forall|j: int| i <= j < run_end(mask, i) ==> !mask[j],
        run_end(mask, i) < mask.len() ==> mask[run_end(mask, i)],
    decreases mask.len() - i,
{
    if i + 1 < mask.len() && !mask[i + 1] {
        lemma_run_end(mask, i + 1);
    } else {
        assert(run_end(mask, i + 1) == i + 1);
    }
    assert(run_end(mask, i) == run_end(mask, i + 1));
}

/// The maximal runs of cells that are not set, from index `i` on, in order.
/// `i` must not stand inside a run that began before it.
pub open spec fn runs_from(mask: Seq<bool>, i: int) -> Seq<Token>
    decreases mask.len() - i,
{
    if i < 0 || i >= mask.len() {
        Seq::empty()
    } else if mask[i] {
        runs_from(mask, i + 1)
    } else {
        proof {
            lemma_run_end(mask, i);
        }
        seq![Token { start: i as usize, len: (run_end(mask, i) - i) as usize }] + runs_from(
            mask,
            run_end(mask, i),
        )
    }
}

/// The maximal runs of cells that are not set, in order.
pub open spec fn mask_tokens(mask: Seq<bool>) -> Seq<Token> {
    runs_from(mask, 0)
}

/// For each character of `text`, whether it is whitespace.
pub open spec fn whitespace_mask(text: Seq<char>) -> Seq<bool> {
    Seq::new(text.len(), |i: int| is_whitespace(text[i]))
}

/// The first index from `from` on where `pat` stands in `text`.
pub open spec fn first_occurrence(text: Seq<char>, pat: Seq<char>, from: int) -> Option<int>
    decreases text.len() + 1 - from,
{
    if from < 0 || from + pat.len() > text.len() {
        None
    } else if occurs_at(text, pat, from) {
        Some(from)
    } else {
        first_occurrence(text, pat, from + 1)
    }
}

/// `first_occurrence` gives the leftmost match from `from` on, and `None`
/// only where there is none.
pub proof fn lemma_first_occurrence(text: Seq<char>, pat: Seq<char>, from: int)
    requires
        0 <= from,
    ensures
        match first_occurrence(text, pat, from) {
            Some(i) => is_first_match(text, pat, from, text.len() as int, i),
            None => no_match(text, pat, from, text.len() as int),
        },
    decreases text.len() + 1 - from,
{
    if from + pat.len() <= text.len() && !occurs_at(text, pat, from) {
        lemma_first_occurrence(text, pat, from + 1);
        match first_occurrence(text, pat, from + 1) {
            Some(i) => {},
            None => {
                assert forall|j: int| !occurs_within(text, pat, from, text.len() as int, j) by {
                    if j != from {
                        assert(!occurs_within(text, pat, from + 1, text.len() as int, j));
                    }
                }
            },
        }
    }
}

/// The pieces of `text` from `start` on, where the next delimiter is looked
/// for from `search` on. After a delimiter at `i` the next piece starts
/// behind it; the search goes on behind it too, and one character further
/// where the delimiter is empty.
pub open spec fn pieces_from(text: Seq<char>, delim: Seq<char>, start: int, search: int) -> Seq<
    Token,
>
    decreases text.len() + 1 - search,
{
    if search < 0 {
        Seq::empty()
    } else {
        match first_occurrence(text, delim, search) {
            Some(i) => {
                proof {
                    lemma_first_occurrence(text, delim, search);
                }
                seq![Token { start: start as usize, len: (i - start) as usize }] + pieces_from(
                    text,
                    delim,
                    i + delim.len(),
                    if delim.len() == 0 {
                        i + 1
                    } else {
                        i + delim.len()
                    },
                )
            },
            None => seq![Token { start: start as usize, len: (text.len() - start) as usize }],
        }
    }
}

/// The pieces of `text` between the occurrences of `delim`, which are taken
/// from left to right without overlap. Pieces may be empty; a text without
/// the delimiter is one piece.
pub open spec fn split_tokens(text: Seq<char>, delim: Seq<char>) -> Seq<Token> {
    pieces_from(text, delim, 0, 0)
}

/// The tokens of `text` under the rule `tokenizer`.
pub open spec fn tokenize(text: Seq<char>, tokenizer: Tokenizer) -> Seq<Token> {
    match tokenizer {
        Tokenizer::Whitespace => mask_tokens(whitespace_mask(text)),
        Tokenizer::String(s) => split_tokens(text, s@),
    }
}

/// `t` is a maximal run of cells of `mask` that are not set: it is not
/// empty, holds no set cell, and ends on either side at a set cell or at an
/// end of the mask.
pub open spec fn is_run(mask: Seq<bool>, t: Token) -> bool {
    &&& t.len > 0
    &&& t.end() <= mask.len()
    &&& forall|i: int| t.covers(i) ==> !mask[i]
    &&& (t.start == 0 || mask[t.start - 1])
    &&& (t.end() == mask.len() || mask[t.end()])
}

/// `tokens` are maximal runs of `mask`, from left to right and apart from
/// one another, and they cover every cell from `from` on that is not set.
pub open spec fn are_runs(mask: Seq<bool>, tokens: Seq<Token>, from: int) -> bool {
    &&& forall|k: int| 0 <= k < tokens.len() ==> is_run(mask, #[trigger] tokens[k])
    &&& forall|k: int| 0 <= k < tokens.len() ==> from <= (#[trigger] tokens[k]).start
    &&& forall|j: int, k: int|
        0 <= j < k < tokens.len() ==> (#[trigger] tokens[j]).end() < (#[trigger] tokens[k]).start
    &&& forall|i: int|
        from <= i < mask.len() && !mask[i] ==> exists|k: int|
            0 <= k < tokens.len() && (#[trigger] tokens[k]).covers(i)
}

/// From a place where no run is under way, `runs_from` gives the maximal
/// runs from there on.
proof fn lemma_runs_from(mask: Seq<bool>, i: int)
    requires
        mask.len() <= usize::MAX,
        0 <= i,
        i == 0 || i >= mask.len() || mask[i - 1],
    ensures
        are_runs(mask, runs_from(mask, i), i),
    decreases mask.len() - i,
{
    let tokens = runs_from(mask, i);
    if i >= mask.len() {
    } else if mask[i] {
        lemma_runs_from(mask, i + 1);
    } else {
        lemma_run_end(mask, i);
        let e = run_end(mask, i);
        let first = Token { start: i as usize, len: (e - i) as usize };
        let rest = runs_from(mask, e);
        if e < mask.len() {
            lemma_runs_from(mask, e + 1);
            assert(rest == runs_from(mask, e + 1));
        }
        assert(are_runs(mask, rest, e + 1)) by {
            if e >= mask.len() {
                assert(rest =~= Seq::<Token>::empty());
            }
        }
        assert(tokens == seq![first] + rest);
        assert(is_run(mask, first));
        assert forall|k: int| 0 <= k < tokens.len() implies is_run(mask, #[trigger] tokens[k])
            && i <= tokens[k].start by {
            if k > 0 {
                assert(tokens[k] == rest[k - 1]);
            }
        }
        assert forall|j: int, k: int| 0 <= j < k < tokens.len() implies (#[trigger] tokens[j]).end()
            < (#[trigger] tokens[k]).start by {
            assert(tokens[k] == rest[k - 1]);
            if j > 0 {
                assert(tokens[j] == rest[j - 1]);
            }
        }
        assert forall|c: int| i <= c < mask.len() && !mask[c] implies exists|k: int|
            0 <= k < tokens.len() && (#[trigger] tokens[k]).covers(c) by {
            if c < e {
                assert(tokens[0].covers(c));
            } else {
                let k = choose|k: int| 0 <= k < rest.len() && (#[trigger] rest[k]).covers(c);
                assert(tokens[k + 1] == rest[k]);
                assert(tokens[k + 1].covers(c));
            }
        }
    }
}

/// The tokens of a mask are exactly its maximal runs of cells that are not
/// set: each token is such a run, the tokens stand from left to right with
/// at least one set cell between two of them, and every cell that is not
/// set lies in one of them.
pub proof fn lemma_mask_tokens(mask: Seq<bool>)
    requires
        mask.len() <= usize::MAX,
    ensures
        are_runs(mask, mask_tokens(mask), 0),
{
    lemma_runs_from(mask, 0);
}

/// Set cells at the end of a mask do not change where a run ends that began
/// before them.
proof fn lemma_run_end_blank_tail(mask: Seq<bool>, n: int, i: int)
    requires
        0 <= i < n <= mask.len(),
        forall|j: int| n <= j < mask.len() ==> mask[j],
        !mask[i],
    ensures
        run_end(mask, i) == run_end(mask.take(n), i),
        run_end(mask, i) <= n,
    decreases n - i,
{
    let head = mask.take(n);
    assert(head[i] == mask[i]);
    if i + 1 < n {
        assert(head[i + 1] == mask[i + 1]);
        if !mask[i + 1] {
            lemma_run_end_blank_tail(mask, n, i + 1);
        } else {
            assert(run_end(mask, i + 1) == i + 1);
            assert(run_end(head, i + 1) == i + 1);
        }
    } else {
        assert(run_end(head, i + 1) == i + 1);
        assert(run_end(mask, i + 1) == i + 1);
    }
    assert(run_end(mask, i) == run_end(mask, i + 1));
    assert(run_end(head, i) == run_end(head, i + 1));
}

/// Set cells at the end of a mask do not change its runs.
proof fn lemma_runs_blank_tail(mask: Seq<bool>, n: int, i: int)
    requires
        0 <= i,
        0 <= n <= mask.len(),
        forall|j: int| n <= j < mask.len() ==> mask[j],
    ensures
        runs_from(mask, i) == runs_from(mask.take(n), i),
    decreases mask.len() - i,
{
    let head = mask.take(n);
    if i >= mask.len() {
    } else if i >= n {
        lemma_runs_blank_tail(mask, n, i + 1);
        assert(runs_from(head, i + 1) =~= Seq::<Token>::empty());
    } else {
        assert(head[i] == mask[i]);
        if mask[i] {
            lemma_runs_blank_tail(mask, n, i + 1);
        } else {
            lemma_run_end(mask, i);
            lemma_run_end_blank_tail(mask, n, i);
            lemma_runs_blank_tail(mask, n, run_end(mask, i));
        }
    }
}

/// Whitespace at the end of a line makes no token and moves none: the
/// whitespace tokens of `text` are those of its first `n` characters, where
/// all characters behind them are whitespace.
pub proof fn lemma_blank_tail(text: Seq<char>, n: int)
    requires
        0 <= n <= text.len(),
        forall|j: int| n <= j < text.len() ==> is_whitespace(text[j]),
    ensures
        tokenize(text, Tokenizer::Whitespace) == tokenize(text.take(n), Tokenizer::Whitespace),
{
    lemma_runs_blank_tail(whitespace_mask(text), n, 0);
    assert(whitespace_mask(text).take(n) =~= whitespace_mask(text.take(n)));
}

/// `tokens` are pieces of `text` that follow one another from `start` to
/// the end of the text, with `delim` between two of them and, where `delim`
/// is not empty, nowhere inside one of them.
pub open spec fn are_pieces(text: Seq<char>, delim: Seq<char>, tokens: Seq<Token>, start: int) -> bool {
    &&& tokens.len() >= 1
    &&& tokens[0].start == start
    &&& tokens.last().end() == text.len()
    &&& forall|k: int|
        0 <= k < tokens.len() - 1 ==> {
            &&& occurs_at(text, delim, (#[trigger] tokens[k]).end())
            &&& tokens[k + 1].start == tokens[k].end() + delim.len()
        }
    &&& delim.len() > 0 ==> forall|k: int, j: int|
        0 <= k < tokens.len() && (#[trigger] tokens[k]).start <= j < tokens[k].end()
            ==> !#[trigger] occurs_at(text, delim, j)
}

/// `pieces_from` gives the pieces from `start` on.
proof fn lemma_pieces_from(text: Seq<char>, delim: Seq<char>, start: int, search: int)
    requires
        text.len() <= usize::MAX,
        0 <= start <= search,
        start <= text.len(),
        search <= start + 1,
        delim.len() > 0 ==> search == start,
    ensures
        are_pieces(text, delim, pieces_from(text, delim, start, search), start),
    decreases text.len() + 1 - search,
{
    let tokens = pieces_from(text, delim, start, search);
    lemma_first_occurrence(text, delim, search);
    match first_occurrence(text, delim, search) {
        Some(i) => {
            let next = if delim.len() == 0 {
                i + 1
            } else {
                i + delim.len()
            };
            let first = Token { start: start as usize, len: (i - start) as usize };
            let rest = pieces_from(text, delim, i + delim.len(), next);
            lemma_pieces_from(text, delim, i + delim.len(), next);
            assert(tokens == seq![first] + rest);
            assert(tokens.last() == rest.last());
            assert forall|k: int| 0 <= k < tokens.len() - 1 implies {
                &&& occurs_at(text, delim, (#[trigger] tokens[k]).end())
                &&& tokens[k + 1].start == tokens[k].end() + delim.len()
            } by {
                assert(tokens[k + 1] == rest[k]);
                if k > 0 {
                    assert(tokens[k] == rest[k - 1]);
                }
            }
            if delim.len() > 0 {
                assert forall|k: int, j: int|
                    0 <= k < tokens.len() && (#[trigger] tokens[k]).start <= j < tokens[k].end()
                    implies !#[trigger] occurs_at(text, delim, j) by {
                    if k > 0 {
                        assert(tokens[k] == rest[k - 1]);
                    }
                }
            }
        },
        None => {
            if delim.len() > 0 {
                assert forall|j: int| start <= j < text.len() implies !occurs_at(text, delim, j) by {
                    assert(!occurs_within(text, delim, search, text.len() as int, j));
                }
            }
        },
    }
}

/// The tokens that a delimiter makes are the pieces of the text between its
/// occurrences: the first piece starts the text, the last ends it, the
/// delimiter stands between each piece and the next, and a delimiter that
/// is not empty stands nowhere inside a piece.
pub proof fn lemma_split_tokens(text: Seq<char>, delim: Seq<char>)
    requires
        text.len() <= usize::MAX,
    ensures
        are_pieces(text, delim, split_tokens(text, delim), 0),
{
    lemma_pieces_from(text, delim, 0, 0);
}

/// The tokens stand from left to right, none reaching into the next.
pub open spec fn in_order(tokens: Seq<Token>) -> bool {
    forall|j: int, k: int|
        0 <= j < k < tokens.len() ==> (#[trigger] tokens[j]).end() <= (#[trigger] tokens[k]).start
}

/// Pieces that follow one another stand in order.
proof fn lemma_pieces_in_order(
    text: Seq<char>,
    delim: Seq<char>,
    tokens: Seq<Token>,
    start: int,
    j: int,
    k: int,
)
    requires
        are_pieces(text, delim, tokens, start),
        0 <= j < k < tokens.len(),
    ensures
        tokens[j].end() <= tokens[k].start,
    decreases k - j,
{
    if j + 1 < k {
        lemma_pieces_in_order(text, delim, tokens, start, j + 1, k);
        assert(tokens[j + 1].start <= tokens[j + 1].end());
    }
    assert(tokens[j + 1].start == tokens[j].end() + delim.len());
}

/// Whatever the rule, the tokens of a line stand from left to right and do
/// not overlap.
pub proof fn lemma_tokens_in_order(text: Seq<char>, tokenizer: Tokenizer)
    requires
        text.len() <= usize::MAX,
    ensures
        in_order(tokenize(text, tokenizer)),
{
    let tokens = tokenize(text, tokenizer);
    match tokenizer {
        Tokenizer::Whitespace => {
            lemma_mask_tokens(whitespace_mask(text));
        },
        Tokenizer::String(s) => {
            lemma_split_tokens(text, s@);
            assert forall|j: int, k: int| 0 <= j < k < tokens.len() implies (#[trigger] tokens[j]).end()
                <= (#[trigger] tokens[k]).start by {
                lemma_pieces_in_order(text, s@, tokens, 0, j, k);
            }
        },
    }
}

/// Marks the whitespace characters of `text`.
pub fn mark_whitespace(text: &Vec<char>) -> (mask: Vec<bool>)
    ensures
        mask@ == whitespace_mask(text@),
{
    let mut mask: Vec<bool> = Vec::new();
    let mut i: usize = 0;
    while i < text.len()
        invariant
            i <= text.len(),
            mask.len() == i,
            forall|j: int| 0 <= j < i ==> mask@[j] == is_whitespace(text@[j]),
        decreases text.len() - i,
    {
        mask.push(char_is_whitespace(text[i]));
        i += 1;
    }
    assert(mask@ =~= whitespace_mask(text@));
    mask
}

/// The maximal runs of cells of `mask` that are not set, from left to right.
pub fn tokens_from_mask(mask: &Vec<bool>) -> (tokens: Vec<Token>)
    ensures
        tokens@ == mask_tokens(mask@),
        tokens_within(tokens@, mask@.len()),
{
    let n: usize = mask.len();
    let mut tokens: Vec<Token> = Vec::new();
    let mut i: usize = 0;
    while i < n
        invariant
            n == mask.len(),
            i <= n,
            tokens@ + runs_from(mask@, i as int) == mask_tokens(mask@),
            tokens_within(tokens@, n as nat),
        decreases n - i,
    {
        if mask[i] {
            i += 1;
        } else {
            let mut j: usize = i + 1;
            while j < n && !mask[j]
                invariant
                    n == mask.len(),
                    i < j <= n,
                    !mask@[i as int],
                    run_end(mask@, i as int) == run_end(mask@, j as int),
                decreases n - j,
            {
                j += 1;
            }
            let token = Token { start: i, len: j - i };
            proof {
                lemma_run_end(mask@, i as int);
                assert(tokens@.push(token) + runs_from(mask@, j as int) =~= tokens@ + runs_from(
                    mask@,
                    i as int,
                ));
            }
            tokens.push(token);
            i = j;
        }
    }
    assert(tokens@ + runs_from(mask@, n as int) =~= tokens@);
    tokens
}

/// The pieces of `text` between the occurrences of `delim`.
pub fn split_on(text: &Vec<char>, delim: &Vec<char>) -> (tokens: Vec<Token>)
    ensures
        tokens@ == split_tokens(text@, delim@),
        tokens_within(tokens@, text@.len()),
{
    let n: usize = text.len();
    let m: usize = delim.len();
    let mut tokens: Vec<Token> = Vec::new();
    let mut start: usize = 0;
    let mut search: usize = 0;
    loop
        invariant
            n == text.len(),
            m == delim.len(),
            start <= search <= n,
            tokens@ + pieces_from(text@, delim@, start as int, search as int) == split_tokens(
                text@,
                delim@,
            ),
            tokens_within(tokens@, n as nat),
        decreases n - search,
    {
        let found = find_first(text, delim, search, n);
        proof {
            lemma_first_occurrence(text@, delim@, search as int);
        }
        let ghost before = tokens@;
        match found {
            Some(i) => {
                assert(first_occurrence(text@, delim@, search as int) == Some(i as int)) by {
                    match first_occurrence(text@, delim@, search as int) {
                        Some(k) => {
                            assert(!occurs_at(text@, delim@, k) || k >= i);
                            assert(!occurs_at(text@, delim@, i as int) || i >= k);
                        },
                        None => {
                            assert(occurs_within(text@, delim@, search as int, n as int, i as int));
                        },
                    }
                }
                let token = Token { start, len: i - start };
                tokens.push(token);
                if m == 0 && i == n {
                    let last = Token { start: n, len: 0 };
                    proof {
                        assert(first_occurrence(text@, delim@, n + 1) is None);
                        assert(pieces_from(text@, delim@, n as int, n + 1) =~= seq![last]);
                        assert(before.push(token).push(last) =~= before + pieces_from(
                            text@,
                            delim@,
                            start as int,
                            search as int,
                        ));
                    }
                    tokens.push(last);
                    return tokens;
                }
                let ghost next_search: int = if m == 0 {
                    i + 1
                } else {
                    i + m
                };
                proof {
                    assert(before.push(token) + pieces_from(text@, delim@, i + m, next_search)
                        =~= before + pieces_from(text@, delim@, start as int, search as int));
                }
                start = i + m;
                search = if m == 0 {
                    i + 1
                } else {
                    i + m
                };
            },
            None => {
                assert(first_occurrence(text@, delim@, search as int) is None) by {
                    match first_occurrence(text@, delim@, search as int) {
                        Some(k) => {
                            assert(occurs_within(text@, delim@, search as int, n as int, k));
                        },
                        None => {},
                    }
                }
                let token = Token { start, len: n - start };
                proof {
                    assert(before.push(token) =~= before + pieces_from(
                        text@,
                        delim@,
                        start as int,
                        search as int,
                    ));
                }
                tokens.push(token);
                return tokens;
            },
        }
    }
}

/// The tokens of the line `slice` under the rule `tokenizer`, each inside the
/// line.
pub fn mk_tokens(slice: &str, tokenizer: &Tokenizer) -> (tokens: Vec<Token>)
    ensures
        tokens@ == tokenize(slice@, *tokenizer),
        tokens_within(tokens@, slice@.len()),
{
    let text = chars_of(slice);
    tokens_of(&text, tokenizer)
}

/// The tokens of the characters `text` under the rule `tokenizer`.
pub fn tokens_of(text: &Vec<char>, tokenizer: &Tokenizer) -> (tokens: Vec<Token>)
    ensures
        tokens@ == tokenize(text@, *tokenizer),
        tokens_within(tokens@, text@.len()),
{
    match tokenizer {
        Tokenizer::Whitespace => {
            let mask = mark_whitespace(text);
            tokens_from_mask(&mask)
        },
        Tokenizer::String(s) => {
            let delim = chars_of(s.as_str());
            split_on(text, &delim)
        },
    }
}

/// Looks for the text `tok_s` in `slice` from index `start` on. Gives the
/// token of its leftmost occurrence there, and the index just past it.
pub fn mk_tok_and_update_start(slice: &str, tok_s: &str, start: usize) -> (r: (Token, usize))
    requires
        exists|i: int| occurs_within(slice@, tok_s@, start as int, slice@.len() as int, i),
    ensures
        is_first_match(slice@, tok_s@, start as int, slice@.len() as int, r.0.start as int),
        r.0.len == tok_s@.len(),
        r.1 == r.0.start + r.0.len,
{
    let text = chars_of(slice);
    let pat = chars_of(tok_s);
    match find_first(&text, &pat, start, text.len()) {
        Some(i) => (Token { start: i, len: pat.len() }, i + pat.len()),
        None => {
            proof {
                let i = choose|i: int|
                    occurs_within(slice@, tok_s@, start as int, slice@.len() as int, i);
                assert(occurs_within(text@, pat@, start as int, text@.len() as int, i));
            }
            (Token { start: 0, len: 0 }, 0)
        },
    }
}

} // verus!
